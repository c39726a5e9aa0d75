//! The ext2 file system's superblock and its checks.

use vstd::prelude::*;
use crate::ahci::IOError;

verus! {

/// The magic number of an ext2 superblock.
pub const SUPERBLOCK_MAGIC: u16 = 0xEF53;

/// Whether the file system was cleanly unmounted.
#[derive(Clone, Copy, PartialEq, Eq, Structural, Debug)]
pub enum FsState {
    Clean,
    HasErrors,
}

/// The value this variant stands for.
pub open spec fn fs_state_value(v: FsState) -> u16 {
    match v {
        FsState::Clean => 1,
        FsState::HasErrors => 2,
    }
}

impl FsState {
    /// The value this variant stands for.
    pub fn value(&self) -> (r: u16)
        ensures
            r == fs_state_value(*self),
    {
        match self {
            FsState::Clean => 1,
            FsState::HasErrors => 2,
        }
    }
}

/// What to do when an error is detected.
#[derive(Clone, Copy, PartialEq, Eq, Structural, Debug)]
pub enum ErrorHandling {
    Ignore,
    RemountReadOnly,
    KernelPanic,
}

/// The value this variant stands for.
pub open spec fn error_handling_value(v: ErrorHandling) -> u16 {
    match v {
        ErrorHandling::Ignore => 1,
        ErrorHandling::RemountReadOnly => 2,
        ErrorHandling::KernelPanic => 3,
    }
}

impl ErrorHandling {
    /// The value this variant stands for.
    pub fn value(&self) -> (r: u16)
        ensures
            r == error_handling_value(*self),
    {
        match self {
            ErrorHandling::Ignore => 1,
            ErrorHandling::RemountReadOnly => 2,
            ErrorHandling::KernelPanic => 3,
        }
    }
}

/// The fields of the superblock that the kernel reads.
pub struct Superblock {
    pub inodes_count: u32,
    pub blocks_count: u32,
    pub r_blocks_count: u32,
    pub free_blocks_count: u32,
    pub free_inodes_count: u32,
    pub first_data_block: u32,
    pub log_block_size: u32,
    pub log_frag_size: i32,
    pub blocks_per_group: u32,
    pub frags_per_group: u32,
    pub inodes_per_group: u32,
    pub last_mount_time: u32,
    pub last_written_time: u32,
    pub mnt_count: u16,
    pub max_mnt_count: i16,
    pub magic: u16,
    pub state: FsState,
    pub errors: ErrorHandling,
    pub minor_rev_level: u16,
    pub lastcheck: u32,
    pub checkinterval: u32,
    pub creator_os: u32,
    pub rev_level: u32,
    pub def_resuid: u16,
    pub def_resgid: u16,
    pub first_ino: u32,
    pub inode_size: u16,
    pub block_group_nr: u16,
    pub feature_compat: u32,
    pub feature_incompat: u32,
    pub feature_ro_compat: u32,
}

impl Superblock {
    /// The superblock carries the ext2 magic number.
    pub fn has_signature(&self) -> (r: bool)
        ensures
            r == (self.magic == SUPERBLOCK_MAGIC),
    {
        self.magic == SUPERBLOCK_MAGIC
    }
}

/// A mounted ext2 file system.
pub struct Ext2Fs {
    superblock: Superblock,
}

impl Ext2Fs {
    /// The magic number of the mounted superblock.
    pub closed spec fn magic(&self) -> u16 {
        self.superblock.magic
    }

    /// The superblock's fields that place inodes: inode size, log of the
    /// block size over 1024, inodes per group, first data block.
    pub closed spec fn geometry(&self) -> (u16, u32, u32, u32) {
        (
            self.superblock.inode_size,
            self.superblock.log_block_size,
            self.superblock.inodes_per_group,
            self.superblock.first_data_block,
        )
    }

    /// The byte offset on disk of inode `inode_number`: the inode table is
    /// taken to start two blocks after the first data block, and inodes are
    /// numbered from 1, group after group.
    pub fn inode_offset(&self, inode_number: u32) -> (r: u64)
        requires
            inode_number >= 1,
            self.geometry().1 <= 20,
            self.geometry().2 > 0,
            self.geometry().3 + 2 <= u32::MAX,
        ensures
            ({
                let (inode_size, log_block_size, inodes_per_group, first_data_block) = self.geometry();
                let block_size = 1024 * vstd::arithmetic::power2::pow2(log_block_size as nat);
                let i = inode_number - 1;
                r == (first_data_block + 2) * block_size + (i / inodes_per_group as int) * inodes_per_group
                    * inode_size + (i % inodes_per_group as int) * inode_size
            }),
    {
        let inode_size = self.superblock.inode_size as u64;
        let log = self.superblock.log_block_size;
        proof {
            vstd::arithmetic::power2::lemma_pow2_strictly_increases(log as nat, 21);
            vstd::arithmetic::power2::lemma2_to64();
            vstd::bits::lemma_u32_shl_is_mul(1024, log);
        }
        let block_size = (1024u32 << log) as u64;
        let inodes_per_group = self.superblock.inodes_per_group as u64;
        let inode_table_block = (self.superblock.first_data_block + 2) as u64;
        let inode_index = (inode_number - 1) as u64;
        let group = inode_index / inodes_per_group;
        let index = inode_index % inodes_per_group;
        assert(inode_table_block * block_size <= 0x1_0000_0000 * 0x8000_0000) by (nonlinear_arith)
            requires
                inode_table_block <= 0x1_0000_0000,
                block_size <= 0x8000_0000,
        ;
        assert(group * inodes_per_group <= inode_index) by (nonlinear_arith)
            requires
                group == inode_index / inodes_per_group,
                inodes_per_group > 0,
        ;
        assert(group * inodes_per_group * inode_size <= 0x1_0000_0000 * 0x1_0000) by (nonlinear_arith)
            requires
                group * inodes_per_group <= inode_index,
                inode_index < 0x1_0000_0000,
                inode_size < 0x1_0000,
        ;
        assert(index * inode_size <= 0x1_0000_0000 * 0x1_0000) by (nonlinear_arith)
            requires
                index < inodes_per_group,
                inodes_per_group < 0x1_0000_0000,
                inode_size < 0x1_0000,
        ;
        inode_table_block * block_size + group * inodes_per_group * inode_size + index * inode_size
    }

    /// Mounts the file system whose superblock was read from disk: `BadData`
    /// when it lacks the ext2 magic number.
    pub fn new(superblock: Superblock) -> (r: Result<Self, IOError>)
        ensures
            superblock.magic == SUPERBLOCK_MAGIC <==> r is Ok,
            r matches Err(e) ==> e == IOError::BadData,
            r matches Ok(fs) ==> fs.magic() == superblock.magic,
    {
        if superblock.has_signature() {
            Ok(Ext2Fs { superblock })
        } else {
            Err(IOError::BadData)
        }
    }
}

} // verus!
