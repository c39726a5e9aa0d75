//! The boot framebuffer console: text drawn glyph by glyph into the pixel
//! bytes of a linear framebuffer, with the glyphs taken from the Noto Sans
//! Mono bitmap font.

use vstd::prelude::*;
use noto_sans_mono_bitmap::{get_raster, FontWeight, RasterHeight};

verus! {

/// Rows of every glyph.
pub const CHAR_RASTER_HEIGHT: usize = 20;
/// Columns of every glyph.
pub const CHAR_RASTER_WIDTH: usize = 11;
/// Pixels between two lines of text.
pub const LINE_SPACING: usize = 2;
/// Pixels between two characters.
pub const LETTER_SPACING: usize = 0;
/// Pixels left free at the left and top edges.
pub const BORDER_PADDING: usize = 1;
/// The character that erases the one before the cursor.
pub const BACKSPACE: char = '\u{8}';

/// The glyph of `c` in the regular weight at a raster height of 20 pixels,
/// row by row, each pixel an intensity; `None` when the font lacks `c`.
pub uninterp spec fn raster_of(c: char) -> Option<Seq<Seq<u8>>>;

/// Relies on `noto_sans_mono_bitmap::get_raster` with `FontWeight::Regular`
/// and `RasterHeight::Size20`: the glyph of `c` when the font has it, as its
/// raster of 20 rows of 11 intensities (the crate's raster height for this
/// size and `RASTER_WIDTH` of its regular size-20 module).
#[verifier::external_body]
fn rasterized_char(c: char) -> (r: Option<Vec<Vec<u8>>>)
    ensures
        r is Some <==> raster_of(c) is Some,
        r matches Some(g) ==> raster_of(c) == Some(g.deep_view()) && g@.len() == CHAR_RASTER_HEIGHT
            && forall|i: int| 0 <= i < CHAR_RASTER_HEIGHT ==> #[trigger] g@[i]@.len() == CHAR_RASTER_WIDTH,
{
    get_raster(c, FontWeight::Regular, RasterHeight::Size20).map(
        |rc| rc.raster().iter().map(|row| row.to_vec()).collect(),
    )
}

/// How the bytes of a pixel encode its colour.
#[derive(Clone, Copy, PartialEq, Eq, Structural, Debug)]
pub enum PixelFormat {
    Rgb,
    Bgr,
    U8,
    Unknown,
}

/// The shape of the framebuffer.
#[derive(Clone, Copy, PartialEq, Eq, Structural, Debug)]
pub struct FrameBufferInfo {
    pub byte_len: usize,
    pub width: usize,
    pub height: usize,
    pub pixel_format: PixelFormat,
    pub bytes_per_pixel: usize,
    pub stride: usize,
}

/// The shape is one the writer can draw into: at least one glyph fits, the
/// sizes are those of a screen, and `len` bytes hold every pixel.
pub open spec fn usable(info: FrameBufferInfo, len: int) -> bool {
    &&& 1 <= info.bytes_per_pixel <= 4
    &&& 16 <= info.width <= info.stride <= 0x4000
    &&& 24 <= info.height <= 0x4000
    &&& info.stride * info.height * info.bytes_per_pixel <= len
}

/// The four colour bytes of a pixel of intensity `i`: grey for colour
/// formats, and for one-byte greyscale full on above 200 and off otherwise.
pub open spec fn pixel_color(format: PixelFormat, i: u8) -> Seq<u8> {
    match format {
        PixelFormat::U8 => seq![if i > 200 { 0xFFu8 } else { 0u8 }, 0u8, 0u8, 0u8],
        _ => seq![i, i, i, 0u8],
    }
}

/// First byte of pixel (`x`, `y`).
pub open spec fn pixel_offset(info: FrameBufferInfo, x: int, y: int) -> int {
    (y * info.stride + x) * info.bytes_per_pixel
}

/// The bytes `old` after the first `rows` rows of `glyph`, and the first
/// `cols` pixels of the next row, were drawn with their top left corner at
/// (`x0`, `y0`): each byte of a drawn pixel on the screen takes its byte of
/// the pixel's colour, every other byte stays.
pub open spec fn drawn(
    info: FrameBufferInfo,
    x0: int,
    y0: int,
    glyph: Seq<Seq<u8>>,
    old: Seq<u8>,
    rows: int,
    cols: int,
) -> Seq<u8> {
    Seq::new(
        old.len(),
        |k: int|
            {
                let bpp = info.bytes_per_pixel as int;
                let y = (k / bpp) / info.stride as int;
                let x = (k / bpp) % info.stride as int;
                if y0 <= y && x0 <= x < x0 + CHAR_RASTER_WIDTH && x < info.width && y < info.height && (y - y0 < rows
                    || (y - y0 == rows && x - x0 < cols)) {
                    pixel_color(info.pixel_format, glyph[y - y0][x - x0])[k % bpp]
                } else {
                    old[k]
                }
            },
    )
}

/// The bytes `old` with all of `glyph` drawn at (`x0`, `y0`).
pub open spec fn glyph_drawn(info: FrameBufferInfo, x0: int, y0: int, glyph: Seq<Seq<u8>>, old: Seq<u8>) -> Seq<u8> {
    drawn(info, x0, y0, glyph, old, CHAR_RASTER_HEIGHT as int, 0)
}

/// Byte `k` belongs to pixel (`px`, `py`) exactly when it lies in that
/// pixel's bytes.
proof fn lemma_byte_pixel(k: int, bpp: int, stride: int, px: int, py: int)
    requires
        bpp > 0,
        stride > 0,
        0 <= px < stride,
        0 <= py,
        0 <= k,
    ensures
        ((py * stride + px) * bpp <= k < (py * stride + px) * bpp + bpp) <==> ((k / bpp) / stride == py && (k / bpp)
            % stride == px),
        ((py * stride + px) * bpp <= k < (py * stride + px) * bpp + bpp) ==> k % bpp == k - (py * stride + px) * bpp,
{
    let pi = py * stride + px;
    if pi * bpp <= k < pi * bpp + bpp {
        vstd::arithmetic::div_mod::lemma_fundamental_div_mod_converse(k, bpp, pi, k - pi * bpp);
        vstd::arithmetic::div_mod::lemma_fundamental_div_mod_converse(pi, stride, py, px);
    }
    if (k / bpp) / stride == py && (k / bpp) % stride == px {
        let q = k / bpp;
        vstd::arithmetic::div_mod::lemma_fundamental_div_mod(q, stride);
        vstd::arithmetic::div_mod::lemma_fundamental_div_mod(k, bpp);
        vstd::arithmetic::div_mod::lemma_mod_pos_bound(k, bpp);
        assert(q == pi) by (nonlinear_arith)
            requires
                q == stride * (q / stride) + q % stride,
                q / stride == py,
                q % stride == px,
                pi == py * stride + px,
        ;
        assert(pi * bpp <= k < pi * bpp + bpp) by (nonlinear_arith)
            requires
                k == bpp * q + k % bpp,
                0 <= k % bpp < bpp,
                q == pi,
        ;
    }
}

/// Where the cursor goes on a backspace from (`x`, `y`): one character
/// back, to the end of the line above from the start of a line, and to the
/// left edge from closer than one character to it.
pub open spec fn backspace_pos(info: FrameBufferInfo, x: int, y: int) -> (int, int) {
    if x <= BORDER_PADDING {
        if y > BORDER_PADDING {
            (info.width - BORDER_PADDING - CHAR_RASTER_WIDTH, y - CHAR_RASTER_HEIGHT - LINE_SPACING)
        } else {
            (x, y)
        }
    } else if x >= CHAR_RASTER_WIDTH + LETTER_SPACING + BORDER_PADDING {
        (x - CHAR_RASTER_WIDTH - LETTER_SPACING, y)
    } else {
        (BORDER_PADDING as int, y)
    }
}

/// Where a glyph written at (`x`, `y`) goes, and whether the screen is
/// cleared first: to the next line when it would cross the right edge, and
/// to the top left of a cleared screen when the line would cross the bottom.
pub open spec fn char_origin(info: FrameBufferInfo, x: int, y: int) -> (int, int, bool) {
    let x1 = if x + CHAR_RASTER_WIDTH >= info.width { BORDER_PADDING as int } else { x };
    let y1 = if x + CHAR_RASTER_WIDTH >= info.width && y < info.height {
        y + CHAR_RASTER_HEIGHT + LINE_SPACING
    } else {
        y
    };
    if y1 + CHAR_RASTER_HEIGHT + BORDER_PADDING >= info.height {
        (BORDER_PADDING as int, BORDER_PADDING as int, true)
    } else {
        (x1, y1, false)
    }
}

/// The writer: the framebuffer's bytes, its shape, and the pixel position
/// where the next glyph goes.
pub struct FrameBufferWriter {
    framebuffer: Vec<u8>,
    info: FrameBufferInfo,
    x: usize,
    y: usize,
}

impl FrameBufferWriter {
    pub closed spec fn bytes(&self) -> Seq<u8> {
        self.framebuffer@
    }

    pub closed spec fn info(&self) -> FrameBufferInfo {
        self.info
    }

    pub closed spec fn x(&self) -> int {
        self.x as int
    }

    pub closed spec fn y(&self) -> int {
        self.y as int
    }

    pub open spec fn wf(&self) -> bool {
        &&& usable(self.info(), self.bytes().len() as int)
        &&& BORDER_PADDING <= self.x() <= self.info().width + CHAR_RASTER_WIDTH + BORDER_PADDING
        &&& self.y() % 22 == 1
        &&& self.y() <= self.info().height + 22
    }

    /// A writer on `framebuffer`, cleared.
    pub fn new(framebuffer: Vec<u8>, info: FrameBufferInfo) -> (r: Self)
        requires
            usable(info, framebuffer@.len() as int),
        ensures
            r.wf(),
            r.info() == info,
            r.x() == BORDER_PADDING && r.y() == BORDER_PADDING,
            r.bytes().len() == framebuffer@.len(),
            forall|k: int| 0 <= k < r.bytes().len() ==> #[trigger] r.bytes()[k] == 0,
    {
        let mut writer = FrameBufferWriter { framebuffer, info, x: BORDER_PADDING, y: BORDER_PADDING };
        writer.clear();
        writer
    }

    /// Blanks the framebuffer and moves to the top left.
    pub fn clear(&mut self)
        requires
            usable(old(self).info(), old(self).bytes().len() as int),
        ensures
            final(self).wf(),
            final(self).info() == old(self).info(),
            final(self).x() == BORDER_PADDING && final(self).y() == BORDER_PADDING,
            final(self).bytes().len() == old(self).bytes().len(),
            forall|k: int| 0 <= k < final(self).bytes().len() ==> #[trigger] final(self).bytes()[k] == 0,
    {
        self.x = BORDER_PADDING;
        self.y = BORDER_PADDING;
        let n = self.framebuffer.len();
        let mut i: usize = 0;
        while i < n
            invariant
                i <= n,
                n == self.framebuffer@.len(),
                self.info == old(self).info,
                self.x == BORDER_PADDING && self.y == BORDER_PADDING,
                n == old(self).framebuffer@.len(),
                forall|k: int| 0 <= k < i ==> #[trigger] self.framebuffer@[k] == 0,
            decreases n - i,
        {
            self.framebuffer.set(i, 0);
            i = i + 1;
        }
    }

    pub fn width(&self) -> (r: usize)
        ensures
            r == self.info().width,
    {
        self.info.width
    }

    pub fn height(&self) -> (r: usize)
        ensures
            r == self.info().height,
    {
        self.info.height
    }

    /// Moves to the start of the next line. Once below the bottom edge the
    /// position stays there: nothing is drawn below it, and the next
    /// character clears the screen first.
    pub fn newline(&mut self)
        requires
            old(self).wf(),
        ensures
            final(self).wf(),
            final(self).info() == old(self).info(),
            final(self).bytes() == old(self).bytes(),
            final(self).x() == BORDER_PADDING,
            old(self).y() < old(self).info().height ==> final(self).y() == old(self).y() + CHAR_RASTER_HEIGHT + LINE_SPACING,
            old(self).y() >= old(self).info().height ==> final(self).y() == old(self).y(),
    {
        if self.y < self.info.height {
            self.y = self.y + CHAR_RASTER_HEIGHT + LINE_SPACING;
        }
        self.x = BORDER_PADDING;
    }

    /// Writes one pixel of intensity `intensity` at (`x`, `y`); a pixel
    /// outside the screen is not written.
    pub fn write_pixel(&mut self, x: usize, y: usize, intensity: u8)
        requires
            old(self).wf(),
        ensures
            final(self).wf(),
            final(self).info() == old(self).info(),
            final(self).x() == old(self).x() && final(self).y() == old(self).y(),
            final(self).bytes().len() == old(self).bytes().len(),
            !(x < old(self).info().width && y < old(self).info().height) ==> final(self).bytes() == old(self).bytes(),
            x < old(self).info().width && y < old(self).info().height ==> {
                let off = pixel_offset(old(self).info(), x as int, y as int);
                let bpp = old(self).info().bytes_per_pixel as int;
                forall|k: int| 0 <= k < old(self).bytes().len() ==> #[trigger] final(self).bytes()[k] == if off <= k
                    < off + bpp {
                    pixel_color(old(self).info().pixel_format, intensity)[k - off]
                } else {
                    old(self).bytes()[k]
                }
            },
    {
        if x >= self.info.width || y >= self.info.height {
            return;
        }
        let stride = self.info.stride;
        let height = self.info.height;
        let bpp = self.info.bytes_per_pixel;
        assert((y * stride + x) * bpp + bpp <= stride * height * bpp) by (nonlinear_arith)
            requires
                x < stride,
                y < height,
                1 <= bpp,
        ;
        assert((y * stride + x) * bpp + bpp <= 0x4000 * 0x4000 * 4) by (nonlinear_arith)
            requires
                (y * stride + x) * bpp + bpp <= stride * height * bpp,
                stride <= 0x4000,
                height <= 0x4000,
                bpp <= 4,
        ;
        assert(y * stride + x <= 0x4000 * 0x4000 + 0x4000) by (nonlinear_arith)
            requires
                y < height <= 0x4000,
                x < stride <= 0x4000,
        ;
        assert(y * stride + x <= (y * stride + x) * bpp) by (nonlinear_arith)
            requires
                1 <= bpp,
                0 <= y * stride + x,
        ;
        let pixel_index = y * stride + x;
        let color: [u8; 4] = match self.info.pixel_format {
            PixelFormat::U8 => [if intensity > 200 { 0xFF } else { 0x0 }, 0, 0, 0],
            _ => [intensity, intensity, intensity, 0],
        };
        assert(color@ =~= pixel_color(self.info.pixel_format, intensity));
        let byte_offset = pixel_index * bpp;
        let ghost before = self.framebuffer@;
        let n = self.framebuffer.len();
        let mut b: usize = 0;
        while b < bpp
            invariant
                n == self.framebuffer@.len(),
                b <= bpp <= 4,
                bpp == self.info.bytes_per_pixel,
                byte_offset == pixel_offset(self.info, x as int, y as int),
                byte_offset + bpp <= self.framebuffer@.len(),
                self.framebuffer@.len() == before.len(),
                self.info == old(self).info && self.x == old(self).x && self.y == old(self).y,
                before == old(self).framebuffer@,
                color@ == pixel_color(self.info.pixel_format, intensity),
                forall|k: int| 0 <= k < before.len() ==> #[trigger] self.framebuffer@[k] == if byte_offset <= k
                    < byte_offset + b {
                    color@[k - byte_offset]
                } else {
                    before[k]
                },
            decreases bpp - b,
        {
            self.framebuffer.set(byte_offset + b, color[b]);
            b = b + 1;
        }
    }

    /// Draws `glyph` with its top left corner at the current position and
    /// moves right by its width.
    pub fn write_rendered_char(&mut self, glyph: &Vec<Vec<u8>>)
        requires
            old(self).wf(),
            old(self).x() + CHAR_RASTER_WIDTH <= old(self).info().width + CHAR_RASTER_WIDTH + BORDER_PADDING,
            glyph@.len() == CHAR_RASTER_HEIGHT,
            forall|i: int| 0 <= i < CHAR_RASTER_HEIGHT ==> #[trigger] glyph@[i]@.len() == CHAR_RASTER_WIDTH,
        ensures
            final(self).wf(),
            final(self).info() == old(self).info(),
            final(self).bytes().len() == old(self).bytes().len(),
            final(self).x() == old(self).x() + CHAR_RASTER_WIDTH + LETTER_SPACING,
            final(self).y() == old(self).y(),
            final(self).bytes() == glyph_drawn(
                old(self).info(),
                old(self).x(),
                old(self).y(),
                glyph.deep_view(),
                old(self).bytes(),
            ),
    {
        let x0 = self.x;
        let y0 = self.y;
        let ghost g = glyph.deep_view();
        let ghost start = self.framebuffer@;
        let ghost info = self.info;
        assert(start =~= drawn(info, x0 as int, y0 as int, g, start, 0, 0));
        let mut row: usize = 0;
        while row < CHAR_RASTER_HEIGHT
            invariant
                self.wf(),
                self.info == old(self).info,
                self.x == x0 && self.y == y0,
                x0 == old(self).x && y0 == old(self).y,
                self.framebuffer@.len() == old(self).framebuffer@.len(),
                row <= CHAR_RASTER_HEIGHT,
                glyph@.len() == CHAR_RASTER_HEIGHT,
                forall|i: int| 0 <= i < CHAR_RASTER_HEIGHT ==> #[trigger] glyph@[i]@.len() == CHAR_RASTER_WIDTH,
                g == glyph.deep_view(),
                start == old(self).framebuffer@,
                info == old(self).info,
                self.framebuffer@ == drawn(info, x0 as int, y0 as int, g, start, row as int, 0),
            decreases CHAR_RASTER_HEIGHT - row,
        {
            let mut col: usize = 0;
            while col < CHAR_RASTER_WIDTH
                invariant
                    self.wf(),
                    self.info == old(self).info,
                    self.x == x0 && self.y == y0,
                    x0 == old(self).x && y0 == old(self).y,
                    self.framebuffer@.len() == old(self).framebuffer@.len(),
                    row < CHAR_RASTER_HEIGHT,
                    col <= CHAR_RASTER_WIDTH,
                    glyph@.len() == CHAR_RASTER_HEIGHT,
                    forall|i: int| 0 <= i < CHAR_RASTER_HEIGHT ==> #[trigger] glyph@[i]@.len() == CHAR_RASTER_WIDTH,
                    g == glyph.deep_view(),
                    start == old(self).framebuffer@,
                    info == old(self).info,
                    self.framebuffer@ == drawn(info, x0 as int, y0 as int, g, start, row as int, col as int),
                decreases CHAR_RASTER_WIDTH - col,
            {
                let intensity = glyph[row][col];
                let ghost before = self.framebuffer@;
                assert(intensity == g[row as int][col as int]);
                self.write_pixel(x0 + col, y0 + row, intensity);
                proof {
                    let px = x0 + col;
                    let py = y0 + row;
                    let bpp = info.bytes_per_pixel as int;
                    let next = drawn(info, x0 as int, y0 as int, g, start, row as int, col as int + 1);
                    assert forall|k: int| 0 <= k < before.len() implies #[trigger] self.framebuffer@[k] == next[k] by {
                        if px < info.width && py < info.height {
                            lemma_byte_pixel(k, bpp, info.stride as int, px as int, py as int);
                        }
                    }
                    assert(self.framebuffer@ =~= next);
                }
                col = col + 1;
            }
            assert(self.framebuffer@ =~= drawn(info, x0 as int, y0 as int, g, start, row as int + 1, 0));
            row = row + 1;
        }
        self.x = self.x + CHAR_RASTER_WIDTH + LETTER_SPACING;
    }

    /// Moves back one character, to the end of the previous line from the
    /// start of a line, and draws a blank over it. A position closer to the
    /// left edge than one character moves to the edge.
    pub fn backspace(&mut self)
        requires
            old(self).wf(),
        ensures
            final(self).wf(),
            final(self).info() == old(self).info(),
            final(self).bytes().len() == old(self).bytes().len(),
            (final(self).x(), final(self).y()) == backspace_pos(old(self).info(), old(self).x(), old(self).y()),
            raster_of(' ') is None ==> final(self).bytes() == old(self).bytes(),
            raster_of(' ') matches Some(g) ==> final(self).bytes() == glyph_drawn(
                old(self).info(),
                final(self).x(),
                final(self).y(),
                g,
                old(self).bytes(),
            ),
    {
        if self.x <= BORDER_PADDING {
            if self.y > BORDER_PADDING {
                self.y = self.y - (CHAR_RASTER_HEIGHT + LINE_SPACING);
                self.x = self.info.width - BORDER_PADDING - CHAR_RASTER_WIDTH;
            }
        } else if self.x >= CHAR_RASTER_WIDTH + LETTER_SPACING + BORDER_PADDING {
            self.x = self.x - (CHAR_RASTER_WIDTH + LETTER_SPACING);
        } else {
            self.x = BORDER_PADDING;
        }
        let x = self.x;
        let y = self.y;
        match rasterized_char(' ') {
            Some(glyph) => {
                self.write_rendered_char(&glyph);
                self.x = x;
            },
            None => {},
        }
        assert(self.y == y);
    }

    /// Writes one character: a new line, a backspace, or a glyph, first
    /// moving to the next line when it would not fit on this one and
    /// clearing the screen when the line would not fit on the screen. A
    /// character the font lacks draws nothing.
    pub fn write_char(&mut self, ch: char)
        requires
            old(self).wf(),
        ensures
            final(self).wf(),
            final(self).info() == old(self).info(),
            final(self).bytes().len() == old(self).bytes().len(),
            ch == '\n' ==> final(self).bytes() == old(self).bytes() && final(self).x() == BORDER_PADDING
                && final(self).y() == if old(self).y() < old(self).info().height {
                old(self).y() + CHAR_RASTER_HEIGHT + LINE_SPACING
            } else {
                old(self).y()
            },
            ch == BACKSPACE ==> (final(self).x(), final(self).y()) == backspace_pos(
                old(self).info(),
                old(self).x(),
                old(self).y(),
            ),
            ch != '\n' && ch != BACKSPACE ==> ({
                let (ox, oy, cleared) = char_origin(old(self).info(), old(self).x(), old(self).y());
                let base = if cleared {
                    Seq::new(old(self).bytes().len(), |k: int| 0u8)
                } else {
                    old(self).bytes()
                };
                &&& raster_of(ch) is None ==> final(self).bytes() == base && final(self).x() == ox && final(self).y() == oy
                &&& raster_of(ch) matches Some(g) ==> final(self).bytes() == glyph_drawn(old(self).info(), ox, oy, g, base)
                    && final(self).x() == ox + CHAR_RASTER_WIDTH + LETTER_SPACING && final(self).y() == oy
            }),
    {
        if ch == '\n' {
            self.newline();
        } else if ch == BACKSPACE {
            self.backspace();
        } else {
            if self.x + CHAR_RASTER_WIDTH >= self.info.width {
                self.newline();
            }
            if self.y + CHAR_RASTER_HEIGHT + BORDER_PADDING >= self.info.height {
                self.clear();
            }
            proof {
                let (ox, oy, cleared) = char_origin(old(self).info(), old(self).x(), old(self).y());
                if cleared {
                    assert(self.framebuffer@ =~= Seq::new(old(self).bytes().len(), |k: int| 0u8));
                }
            }
            match rasterized_char(ch) {
                Some(glyph) => self.write_rendered_char(&glyph),
                None => {},
            }
        }
    }

    /// Writes every character of `text` in turn.
    pub fn write_str(&mut self, text: &[char])
        requires
            old(self).wf(),
        ensures
            final(self).wf(),
            final(self).info() == old(self).info(),
            final(self).bytes().len() == old(self).bytes().len(),
    {
        let mut i: usize = 0;
        while i < text.len()
            invariant
                self.wf(),
                self.info() == old(self).info(),
                self.bytes().len() == old(self).bytes().len(),
                i <= text@.len(),
            decreases text@.len() - i,
        {
            self.write_char(text[i]);
            i = i + 1;
        }
    }

    /// The byte at `index` of the framebuffer.
    pub fn byte_at(&self, index: usize) -> (r: u8)
        requires
            index < self.bytes().len(),
        ensures
            r == self.bytes()[index as int],
    {
        self.framebuffer[index]
    }

    /// The position where the next glyph goes.
    pub fn position(&self) -> (r: (usize, usize))
        ensures
            r.0 == self.x() && r.1 == self.y(),
    {
        (self.x, self.y)
    }
}

} // verus!
