//! ACPI root tables: the RSDP, its checksums, and the system description
//! table headers it leads to.

use vstd::prelude::*;

verus! {

/// Sum of bytes, modulo 256.
pub open spec fn byte_sum(s: Seq<u8>) -> u8
    decreases s.len(),
{
    if s.len() == 0 {
        0
    } else {
        ((byte_sum(s.drop_last()) + s.last()) % 256) as u8
    }
}

/// The bytes of a 32-bit value, least significant first.
pub open spec fn le32(x: u32) -> Seq<u8> {
    seq![x as u8, (x >> 8u32) as u8, (x >> 16u32) as u8, (x >> 24u32) as u8]
}

/// The bytes of a 64-bit value, least significant first.
pub open spec fn le64(x: u64) -> Seq<u8> {
    seq![
        x as u8, (x >> 8u64) as u8, (x >> 16u64) as u8, (x >> 24u64) as u8,
        (x >> 32u64) as u8, (x >> 40u64) as u8, (x >> 48u64) as u8, (x >> 56u64) as u8,
    ]
}

/// Adds up `v` modulo 256.
fn sum_bytes(v: &Vec<u8>) -> (r: u8)
    ensures
        r == byte_sum(v@),
{
    let mut acc: u8 = 0;
    let mut i: usize = 0;
    while i < v.len()
        invariant
            i <= v@.len(),
            acc == byte_sum(v@.subrange(0, i as int)),
        decreases v@.len() - i,
    {
        assert(v@.subrange(0, i as int + 1).drop_last() =~= v@.subrange(0, i as int));
        acc = acc.wrapping_add(v[i]);
        i = i + 1;
    }
    assert(v@.subrange(0, v@.len() as int) =~= v@);
    acc
}

fn push_u32(v: &mut Vec<u8>, x: u32)
    ensures
        final(v)@ == old(v)@ + le32(x),
{
    v.push(x as u8);
    v.push((x >> 8u32) as u8);
    v.push((x >> 16u32) as u8);
    v.push((x >> 24u32) as u8);
    assert(final(v)@ =~= old(v)@ + le32(x));
}

fn push_u64(v: &mut Vec<u8>, x: u64)
    ensures
        final(v)@ == old(v)@ + le64(x),
{
    v.push(x as u8);
    v.push((x >> 8u64) as u8);
    v.push((x >> 16u64) as u8);
    v.push((x >> 24u64) as u8);
    v.push((x >> 32u64) as u8);
    v.push((x >> 40u64) as u8);
    v.push((x >> 48u64) as u8);
    v.push((x >> 56u64) as u8);
    assert(final(v)@ =~= old(v)@ + le64(x));
}

/// The header shared by the system description tables.
pub struct SdtHeader {
    pub signature: [u8; 4],
    pub length: u32,
    pub revision: u8,
    pub checksum: u8,
    pub oemid: [u8; 6],
    pub oem_table_id: [u8; 8],
    pub oem_revision: u32,
    pub creator_id: u32,
    pub creator_revision: u32,
}

/// The extended system description table.
pub struct Xsdt {
    pub header: SdtHeader,
}

/// Where the RSDP says the system description table is.
#[derive(Clone, Copy, PartialEq, Eq, Structural, Debug)]
pub enum SdtAddr {
    Rsdt(u64),
    Xsdt(u64),
}

/// The root system description pointer.
pub struct Rsdp {
    pub signature: [u8; 8],
    pub checksum: u8,
    pub oemid: [u8; 6],
    pub revision: u8,
    pub rsdt_address: u32,
    pub length: u32,
    pub xsdt_address: u64,
    pub extended_checksum: u8,
    pub reserved: [u8; 3],
}

impl Rsdp {
    /// The 20 bytes of the first revision of the structure, as laid out in
    /// memory.
    pub open spec fn rev1_bytes(&self) -> Seq<u8> {
        self.signature@ + seq![self.checksum] + self.oemid@ + seq![self.revision] + le32(self.rsdt_address)
    }

    /// The 16 bytes that the second revision adds.
    pub open spec fn rev2_bytes(&self) -> Seq<u8> {
        le32(self.length) + le64(self.xsdt_address) + seq![self.extended_checksum] + self.reserved@
    }

    fn rev1_vec(&self) -> (r: Vec<u8>)
        ensures
            r@ == self.rev1_bytes(),
    {
        let mut v: Vec<u8> = Vec::new();
        let mut i: usize = 0;
        while i < 8
            invariant
                i <= 8,
                v@ == self.signature@.subrange(0, i as int),
            decreases 8 - i,
        {
            v.push(self.signature[i]);
            assert(v@ =~= self.signature@.subrange(0, i as int + 1));
            i = i + 1;
        }
        assert(v@ =~= self.signature@);
        v.push(self.checksum);
        let ghost with_checksum = v@;
        let mut j: usize = 0;
        while j < 6
            invariant
                j <= 6,
                v@ == with_checksum + self.oemid@.subrange(0, j as int),
            decreases 6 - j,
        {
            v.push(self.oemid[j]);
            assert(v@ =~= with_checksum + self.oemid@.subrange(0, j as int + 1));
            j = j + 1;
        }
        assert(v@ =~= with_checksum + self.oemid@);
        v.push(self.revision);
        push_u32(&mut v, self.rsdt_address);
        assert(v@ =~= self.rev1_bytes());
        v
    }

    fn rev2_vec(&self) -> (r: Vec<u8>)
        ensures
            r@ == self.rev2_bytes(),
    {
        let mut v: Vec<u8> = Vec::new();
        push_u32(&mut v, self.length);
        push_u64(&mut v, self.xsdt_address);
        v.push(self.extended_checksum);
        v.push(self.reserved[0]);
        v.push(self.reserved[1]);
        v.push(self.reserved[2]);
        assert(v@ =~= self.rev2_bytes());
        v
    }

    /// The signature reads "RSD PTR ".
    pub fn validate_signature(&self) -> (r: bool)
        ensures
            r == (self.signature@ == seq![0x52u8, 0x53, 0x44, 0x20, 0x50, 0x54, 0x52, 0x20]),
    {
        let expected: [u8; 8] = [0x52, 0x53, 0x44, 0x20, 0x50, 0x54, 0x52, 0x20];
        let mut i: usize = 0;
        while i < 8
            invariant
                i <= 8,
                expected@ == seq![0x52u8, 0x53, 0x44, 0x20, 0x50, 0x54, 0x52, 0x20],
                forall|k: int| 0 <= k < i ==> self.signature@[k] == expected@[k],
            decreases 8 - i,
        {
            if self.signature[i] != expected[i] {
                return false;
            }
            i = i + 1;
        }
        assert(self.signature@ =~= expected@);
        true
    }

    /// The checksums hold: the first revision's 20 bytes, checksum byte
    /// included, sum to 0 modulo 256, and for later revisions so do the 16
    /// bytes that the second revision adds, extended checksum included.
    pub fn validate_checksum(&self) -> (r: bool)
        ensures
            r == (byte_sum(self.rev1_bytes()) == 0 && (self.revision == 0 || byte_sum(self.rev2_bytes()) == 0)),
    {
        let checksum1 = sum_bytes(&self.rev1_vec());
        if checksum1 != 0 {
            return false;
        }
        if self.revision == 0 {
            return true;
        }
        let checksum2 = sum_bytes(&self.rev2_vec());
        checksum2 == 0
    }

    /// The system description table's address, when the checksums hold:
    /// the RSDT for revision 0, the XSDT otherwise.
    pub fn get_sdt_addr(&self) -> (r: Option<SdtAddr>)
        ensures
            r is None <==> !(byte_sum(self.rev1_bytes()) == 0 && (self.revision == 0 || byte_sum(self.rev2_bytes())
                == 0)),
            r is Some && self.revision == 0 ==> r == Some(SdtAddr::Rsdt(self.rsdt_address as u64)),
            r is Some && self.revision != 0 ==> r == Some(SdtAddr::Xsdt(self.xsdt_address)),
    {
        if !self.validate_checksum() {
            None
        } else if self.revision == 0 {
            Some(SdtAddr::Rsdt(self.rsdt_address as u64))
        } else {
            Some(SdtAddr::Xsdt(self.xsdt_address))
        }
    }
}

} // verus!
