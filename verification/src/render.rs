use vstd::prelude::*;

verus! {

/// Width and height of a sprite, in pixels.
pub const SIZE: u32 = 32;

/// Colour of an opaque black pixel (ARGB).
pub const BLACK: u32 = 0xFF00_0000;

/// Colour of an opaque white pixel (ARGB).
pub const WHITE: u32 = 0xFFFF_FFFF;

/// Colour of a transparent pixel (ARGB).
pub const TRANSPARENT: u32 = 0x0000_0000;

/// Bit `(x, y)` of an XBM bitmap: four bytes per row, and the least
/// significant bit of each byte is the leftmost of its eight pixels.
pub open spec fn xbm_bit(bits: Seq<u8>, x: int, y: int) -> bool {
    (bits[y * 4 + x / 8] >> ((x % 8) as u8)) & 1u8 == 1u8
}

/// Colour of pixel `(x, y)` of a sprite drawn through its mask: where the mask
/// is clear the pixel is transparent, elsewhere the sprite bit picks black
/// (set) or white (clear).
pub open spec fn sprite_color(sprite: Seq<u8>, mask: Seq<u8>, x: int, y: int) -> u32 {
    if xbm_bit(mask, x, y) {
        if xbm_bit(sprite, x, y) {
            BLACK
        } else {
            WHITE
        }
    } else {
        TRANSPARENT
    }
}

/// Colour of the pixel stored at index `i` of a row-major frame.
pub open spec fn frame_color(sprite: Seq<u8>, mask: Seq<u8>, i: int) -> u32 {
    sprite_color(sprite, mask, i % 32, i / 32)
}

/// A pixel of a surface's input region: an active surface takes input exactly
/// where its sprite is opaque, an inactive one everywhere.
pub open spec fn input_pixel(mask: Seq<u8>, active: bool, x: int, y: int) -> bool {
    !active || xbm_bit(mask, x, y)
}

/// A horizontal strip of the input region, one pixel tall.
#[derive(Clone, Copy, PartialEq, Eq, Structural, Debug)]
pub struct Span {
    pub x: i32,
    pub y: i32,
    pub width: i32,
}

pub open spec fn span_covers(s: Span, x: int, y: int) -> bool {
    s.y == y && s.x <= x < s.x + s.width
}

/// `s` is a maximal run of input pixels within one row of the sprite.
pub open spec fn span_is_run(mask: Seq<u8>, active: bool, s: Span) -> bool {
    &&& 0 <= s.y < 32
    &&& 0 <= s.x
    &&& 1 <= s.width
    &&& s.x + s.width <= 32
    &&& forall|x: int| s.x <= x < s.x + s.width ==> #[trigger] input_pixel(mask, active, x, s.y as int)
    &&& (s.x == 0 || !input_pixel(mask, active, s.x - 1, s.y as int))
    &&& (s.x + s.width == 32 || !input_pixel(mask, active, s.x + s.width, s.y as int))
}

/// `a` comes before `b` in row-major order, with a gap between them.
pub open spec fn span_before(a: Span, b: Span) -> bool {
    a.y < b.y || (a.y == b.y && a.x + a.width < b.x)
}

/// `spans` lists, in row-major order, every maximal run of input pixels.
pub open spec fn is_input_region(mask: Seq<u8>, active: bool, spans: Seq<Span>) -> bool {
    &&& forall|k: int| 0 <= k < spans.len() ==> span_is_run(mask, active, #[trigger] spans[k])
    &&& forall|i: int, j: int| 0 <= i < j < spans.len() ==> span_before(#[trigger] spans[i], #[trigger] spans[j])
    &&& forall|x: int, y: int|
        0 <= x < 32 && 0 <= y < 32 && #[trigger] input_pixel(mask, active, x, y) ==> exists|k: int|
            0 <= k < spans.len() && #[trigger] span_covers(spans[k], x, y)
}

proof fn lemma_bit_test(b: u8, k: u8)
    requires
        k < 8,
    ensures
        (b & (1u8 << k) != 0) == ((b >> k) & 1u8 == 1u8),
{
    assert((b & (1u8 << k) != 0) == ((b >> k) & 1u8 == 1u8)) by (bit_vector)
        requires
            k < 8,
    ;
}

proof fn lemma_pixel_index(x: int, y: int)
    requires
        0 <= x < 32,
        0 <= y < 32,
    ensures
        (y * 32 + x) % 32 == x,
        (y * 32 + x) / 32 == y,
        0 <= y * 32 + x < 1024,
        0 <= y * 4 + x / 8 < 128,
{
    assert((y * 32 + x) % 32 == x && (y * 32 + x) / 32 == y) by (nonlinear_arith)
        requires
            0 <= x < 32,
            0 <= y < 32,
    ;
}

/// Tests bit `(x, y)` of an XBM bitmap.
fn bitmap_bit(bits: &[u8; 128], x: usize, y: usize) -> (r: bool)
    requires
        x < 32,
        y < 32,
    ensures
        r == xbm_bit(bits@, x as int, y as int),
{
    proof {
        lemma_pixel_index(x as int, y as int);
    }
    let byte = y * 4 + x / 8;
    let shift: u8 = (x % 8) as u8;
    let bit = 1u8 << shift;
    proof {
        lemma_bit_test(bits@[byte as int], shift);
    }
    bits[byte] & bit != 0
}

/// Colour of one sprite pixel seen through its mask.
fn pixel_color(sprite: &[u8; 128], mask: &[u8; 128], x: usize, y: usize) -> (r: u32)
    requires
        x < 32,
        y < 32,
    ensures
        r == sprite_color(sprite@, mask@, x as int, y as int),
{
    if bitmap_bit(mask, x, y) {
        if bitmap_bit(sprite, x, y) {
            BLACK
        } else {
            WHITE
        }
    } else {
        TRANSPARENT
    }
}

/// Decodes a sprite and its mask into a 32×32 row-major ARGB frame: black
/// where both bits are set, white where only the mask bit is, transparent
/// elsewhere.
pub fn render_sprite(sprite: &[u8; 128], mask: &[u8; 128]) -> (frame: Vec<u32>)
    ensures
        frame@.len() == 1024,
        forall|i: int| 0 <= i < 1024 ==> #[trigger] frame@[i] == frame_color(sprite@, mask@, i),
{
    draw_pixels(sprite, mask, true)
}

/// The pixels that a surface shows: the decoded sprite on the surface that
/// holds the cat, all transparent on any other.
pub fn draw_pixels(sprite: &[u8; 128], mask: &[u8; 128], is_active: bool) -> (frame: Vec<u32>)
    ensures
        frame@.len() == 1024,
        forall|i: int|
            0 <= i < 1024 ==> #[trigger] frame@[i] == (if is_active {
                frame_color(sprite@, mask@, i)
            } else {
                TRANSPARENT
            }),
{
    let mut frame: Vec<u32> = vec![TRANSPARENT; 1024];
    let mut y: usize = 0;
    while y < 32
        invariant
            y <= 32,
            frame@.len() == 1024,
            forall|i: int|
                0 <= i < y * 32 ==> #[trigger] frame@[i] == (if is_active {
                    frame_color(sprite@, mask@, i)
                } else {
                    TRANSPARENT
                }),
            forall|i: int| y * 32 <= i < 1024 ==> #[trigger] frame@[i] == TRANSPARENT,
        decreases 32 - y,
    {
        let mut x: usize = 0;
        while x < 32
            invariant
                y < 32,
                x <= 32,
                frame@.len() == 1024,
                forall|i: int|
                    0 <= i < y * 32 + x ==> #[trigger] frame@[i] == (if is_active {
                        frame_color(sprite@, mask@, i)
                    } else {
                        TRANSPARENT
                    }),
                forall|i: int| y * 32 + x <= i < 1024 ==> #[trigger] frame@[i] == TRANSPARENT,
            decreases 32 - x,
        {
            proof {
                lemma_pixel_index(x as int, y as int);
            }
            if is_active {
                let c = pixel_color(sprite, mask, x, y);
                frame.set(y * 32 + x, c);
            }
            x += 1;
        }
        y += 1;
    }
    frame
}

/// Little-endian bytes of a row of ARGB pixels, four per pixel, the layout of
/// an `Argb8888` shared-memory buffer.
pub fn pixels_le_bytes(pixels: &Vec<u32>) -> (bytes: Vec<u8>)
    requires
        pixels@.len() * 4 <= usize::MAX,
    ensures
        bytes@.len() == pixels@.len() * 4,
        forall|i: int, k: int|
            0 <= i < pixels@.len() && 0 <= k < 4 ==> #[trigger] bytes@[i * 4 + k] == ((
            #[trigger] pixels@[i] >> (8 * k) as u32) & 0xff) as u8,
{
    let mut bytes: Vec<u8> = Vec::new();
    let mut i: usize = 0;
    while i < pixels.len()
        invariant
            i <= pixels@.len(),
            pixels@.len() * 4 <= usize::MAX,
            bytes@.len() == i * 4,
            forall|j: int, k: int|
                0 <= j < i && 0 <= k < 4 ==> #[trigger] bytes@[j * 4 + k] == ((
                #[trigger] pixels@[j] >> (8 * k) as u32) & 0xff) as u8,
        decreases pixels@.len() - i,
    {
        let p = pixels[i];
        let ghost before = bytes@;
        bytes.push((p & 0xff) as u8);
        bytes.push(((p >> 8u32) & 0xff) as u8);
        bytes.push(((p >> 16u32) & 0xff) as u8);
        bytes.push(((p >> 24u32) & 0xff) as u8);
        proof {
            assert forall|j: int, k: int| 0 <= j < i + 1 && 0 <= k < 4 implies #[trigger] bytes@[j
                * 4 + k] == ((#[trigger] pixels@[j] >> (8 * k) as u32) & 0xff) as u8 by {
                if j < i {
                    assert(j * 4 + k < i * 4) by (nonlinear_arith)
                        requires
                            j < i,
                            0 <= k < 4,
                    ;
                    assert(bytes@[j * 4 + k] == before[j * 4 + k]);
                } else {
                    assert(j == i);
                    assert(j * 4 + k == i * 4 + k) by (nonlinear_arith)
                        requires
                            j == i,
                    ;
                    assert(p >> 0u32 == p) by (bit_vector);
                }
            }
        }
        i += 1;
    }
    bytes
}

/// Whether pixel `(x, y)` belongs to the input region of a surface.
fn is_input_pixel(mask: &[u8; 128], is_active: bool, x: i32, y: i32) -> (r: bool)
    requires
        0 <= x < 32,
        0 <= y < 32,
    ensures
        r == input_pixel(mask@, is_active, x as int, y as int),
{
    if is_active {
        bitmap_bit(mask, x as usize, y as usize)
    } else {
        true
    }
}

/// Appends to `spans`, from left to right, the maximal runs of input pixels
/// of row `y`.
fn push_row_spans(mask: &[u8; 128], is_active: bool, y: i32, spans: &mut Vec<Span>)
    requires
        0 <= y < 32,
    ensures
        final(spans)@.len() >= old(spans)@.len(),
        forall|k: int| 0 <= k < old(spans)@.len() ==> final(spans)@[k] == old(spans)@[k],
        forall|k: int|
            old(spans)@.len() <= k < final(spans)@.len() ==> span_is_run(
                mask@,
                is_active,
                #[trigger] final(spans)@[k],
            ) && final(spans)@[k].y == y,
        forall|i: int, j: int|
            old(spans)@.len() <= i < j < final(spans)@.len() ==> span_before(
                #[trigger] final(spans)@[i],
                #[trigger] final(spans)@[j],
            ),
        forall|x: int|
            0 <= x < 32 && #[trigger] input_pixel(mask@, is_active, x, y as int) ==> exists|k: int|
                old(spans)@.len() <= k < final(spans)@.len() && #[trigger] span_covers(
                    final(spans)@[k],
                    x,
                    y as int,
                ),
{
    let ghost start_len = spans@.len();
    let ghost old_spans = spans@;
    let mut start: Option<i32> = None;
    let mut x: i32 = 0;
    while x < 32
        invariant
            0 <= x <= 32,
            0 <= y < 32,
            spans@.len() >= start_len,
            start_len == old_spans.len(),
            forall|k: int| 0 <= k < start_len ==> spans@[k] == old_spans[k],
            forall|k: int|
                start_len <= k < spans@.len() ==> span_is_run(mask@, is_active, #[trigger] spans@[k])
                    && spans@[k].y == y && spans@[k].x + spans@[k].width < x,
            forall|i: int, j: int|
                start_len <= i < j < spans@.len() ==> span_before(
                    #[trigger] spans@[i],
                    #[trigger] spans@[j],
                ),
            match start {
                None => x == 0 || !input_pixel(mask@, is_active, x - 1, y as int),
                Some(sx) => {
                    &&& 0 <= sx < x
                    &&& (sx == 0 || !input_pixel(mask@, is_active, sx - 1, y as int))
                    &&& forall|x1: int| sx <= x1 < x ==> #[trigger] input_pixel(mask@, is_active, x1, y as int)
                    &&& forall|k: int| start_len <= k < spans@.len() ==> #[trigger] spans@[k].x + spans@[k].width < sx
                },
            },
            forall|x1: int|
                0 <= x1 < x && #[trigger] input_pixel(mask@, is_active, x1, y as int) ==> (exists|k: int|
                    start_len <= k < spans@.len() && #[trigger] span_covers(spans@[k], x1, y as int))
                    || (start matches Some(sx) && sx <= x1),
        decreases 32 - x,
    {
        let input = is_input_pixel(mask, is_active, x, y);
        let ghost before = spans@;
        let ghost before_start = start;
        match start {
            None => {
                if input {
                    start = Some(x);
                }
            },
            Some(sx) => {
                if !input {
                    spans.push(Span { x: sx, y, width: x - sx });
                    start = None;
                }
            },
        }
        proof {
            assert forall|k: int| 0 <= k < before.len() implies spans@[k] == before[k] by {}
            assert forall|x1: int|
                0 <= x1 < x + 1 && #[trigger] input_pixel(mask@, is_active, x1, y as int) implies (exists|k: int|
                    start_len <= k < spans@.len() && #[trigger] span_covers(spans@[k], x1, y as int))
                    || (start matches Some(sx) && sx <= x1) by {
                if before_start matches Some(sx) && sx <= x1 && !input {
                    assert(span_covers(spans@[spans@.len() - 1], x1, y as int));
                } else if x1 < x && !(before_start matches Some(sx) && sx <= x1) {
                    let k = choose|k: int|
                        start_len <= k < before.len() && #[trigger] span_covers(before[k], x1, y as int);
                    assert(spans@[k] == before[k]);
                }
            }
        }
        x += 1;
    }
    let ghost before = spans@;
    let ghost before_start = start;
    if let Some(sx) = start {
        spans.push(Span { x: sx, y, width: 32 - sx });
    }
    proof {
        assert forall|x1: int|
            0 <= x1 < 32 && #[trigger] input_pixel(mask@, is_active, x1, y as int) implies exists|k: int|
                start_len <= k < spans@.len() && #[trigger] span_covers(spans@[k], x1, y as int) by {
            if before_start matches Some(sx) && sx <= x1 {
                assert(span_covers(spans@[spans@.len() - 1], x1, y as int));
            } else {
                let k = choose|k: int|
                    start_len <= k < before.len() && #[trigger] span_covers(before[k], x1, y as int);
                assert(spans@[k] == before[k]);
            }
        }
    }
}

/// The input region of a surface as horizontal spans, listed row by row from
/// left to right: each span is a maximal run of input pixels, and every input
/// pixel lies in one.
pub fn input_region_spans(mask: &[u8; 128], is_active: bool) -> (spans: Vec<Span>)
    ensures
        is_input_region(mask@, is_active, spans@),
{
    let mut spans: Vec<Span> = Vec::new();
    let mut y: i32 = 0;
    while y < 32
        invariant
            0 <= y <= 32,
            forall|k: int|
                0 <= k < spans@.len() ==> span_is_run(mask@, is_active, #[trigger] spans@[k])
                    && spans@[k].y < y,
            forall|i: int, j: int|
                0 <= i < j < spans@.len() ==> span_before(#[trigger] spans@[i], #[trigger] spans@[j]),
            forall|x: int, y1: int|
                0 <= x < 32 && 0 <= y1 < y && #[trigger] input_pixel(mask@, is_active, x, y1) ==> exists|k: int|
                    0 <= k < spans@.len() && #[trigger] span_covers(spans@[k], x, y1),
        decreases 32 - y,
    {
        let ghost before = spans@;
        push_row_spans(mask, is_active, y, &mut spans);
        proof {
            assert forall|i: int, j: int| 0 <= i < j < spans@.len() implies span_before(
                #[trigger] spans@[i],
                #[trigger] spans@[j],
            ) by {
                if j < before.len() {
                    assert(spans@[i] == before[i] && spans@[j] == before[j]);
                } else if i < before.len() {
                    assert(spans@[i] == before[i]);
                    assert(span_is_run(mask@, is_active, spans@[j]));
                }
            }
            assert forall|x: int, y1: int|
                0 <= x < 32 && 0 <= y1 < y + 1 && #[trigger] input_pixel(mask@, is_active, x, y1) implies exists|k: int|
                    0 <= k < spans@.len() && #[trigger] span_covers(spans@[k], x, y1) by {
                if y1 < y {
                    let k = choose|k: int| 0 <= k < before.len() && #[trigger] span_covers(before[k], x, y1);
                    assert(spans@[k] == before[k]);
                } else {
                    let k = choose|k: int|
                        before.len() <= k < spans@.len() && #[trigger] span_covers(spans@[k], x, y as int);
                }
            }
        }
        y += 1;
    }
    spans
}

/// On the surface that holds the cat, the input region is exactly the set of
/// pixels the sprite paints: a pixel is opaque if and only if a span covers it.
pub proof fn lemma_active_region_is_sprite_shape(
    sprite: Seq<u8>,
    mask: Seq<u8>,
    spans: Seq<Span>,
    x: int,
    y: int,
)
    requires
        is_input_region(mask, true, spans),
        0 <= x < 32,
        0 <= y < 32,
    ensures
        sprite_color(sprite, mask, x, y) != TRANSPARENT <==> exists|k: int|
            0 <= k < spans.len() && #[trigger] span_covers(spans[k], x, y),
{
    if exists|k: int| 0 <= k < spans.len() && #[trigger] span_covers(spans[k], x, y) {
        let k = choose|k: int| 0 <= k < spans.len() && #[trigger] span_covers(spans[k], x, y);
        assert(span_is_run(mask, true, spans[k]));
        assert(input_pixel(mask, true, x, spans[k].y as int));
    }
    if sprite_color(sprite, mask, x, y) != TRANSPARENT {
        assert(input_pixel(mask, true, x, y));
    }
}

proof fn lemma_inactive_rows_increase(mask: Seq<u8>, spans: Seq<Span>, k: int)
    requires
        is_input_region(mask, false, spans),
        0 <= k < spans.len(),
    ensures
        spans[k].y >= k,
        spans[k].x == 0,
        spans[k].width == 32,
    decreases k,
{
    let s = spans[k];
    assert(span_is_run(mask, false, s));
    assert(input_pixel(mask, false, s.x - 1, s.y as int));
    assert(input_pixel(mask, false, s.x + s.width, s.y as int));
    if k > 0 {
        lemma_inactive_rows_increase(mask, spans, k - 1);
        assert(span_before(spans[k - 1], spans[k]));
    }
}

proof fn lemma_inactive_row_index(mask: Seq<u8>, spans: Seq<Span>, r: int)
    requires
        is_input_region(mask, false, spans),
        0 <= r < 32,
    ensures
        r < spans.len(),
        spans[r].y == r,
    decreases r,
{
    assert(input_pixel(mask, false, 0, r));
    let j = choose|j: int| 0 <= j < spans.len() && #[trigger] span_covers(spans[j], 0, r);
    lemma_inactive_rows_increase(mask, spans, j);
    if j < r {
        lemma_inactive_row_index(mask, spans, j);
    }
}

/// A surface that does not hold the cat takes input on all of its pixels:
/// its input region is the 32 full rows, top to bottom.
pub proof fn lemma_inactive_region_is_whole_surface(mask: Seq<u8>, spans: Seq<Span>)
    requires
        is_input_region(mask, false, spans),
    ensures
        spans.len() == 32,
        forall|k: int| 0 <= k < 32 ==> #[trigger] spans[k] == (Span { x: 0, y: k as i32, width: 32 }),
{
    lemma_inactive_row_index(mask, spans, 31);
    lemma_inactive_rows_increase(mask, spans, spans.len() - 1);
    assert(span_is_run(mask, false, spans[spans.len() - 1]));
    assert forall|k: int| 0 <= k < 32 implies #[trigger] spans[k] == (Span { x: 0, y: k as i32, width: 32 }) by {
        lemma_inactive_row_index(mask, spans, k);
        lemma_inactive_rows_increase(mask, spans, k);
    }
}

/// Bit `k` (0 = least significant) of a byte, by arithmetic.
pub open spec fn byte_bit(b: u8, k: int) -> bool {
    (b as int / vstd::arithmetic::power2::pow2(k as nat) as int) % 2 == 1
}

proof fn lemma_shift_bit(b: u8, k: u8)
    requires
        k < 8,
    ensures
        ((b >> k) & 1u8 == 1u8) == byte_bit(b, k as int),
{
    vstd::arithmetic::power2::lemma2_to64();
    if k == 0 {
        assert(((b >> 0u8) & 1u8 == 1u8) == (b % 2 == 1)) by (bit_vector);
        assert(vstd::arithmetic::power2::pow2(0) == 1);
        assert(byte_bit(b, 0) == ((b as int / 1) % 2 == 1));
    } else if k == 1 {
        assert(((b >> 1u8) & 1u8 == 1u8) == ((b / 2) % 2 == 1)) by (bit_vector);
        assert(vstd::arithmetic::power2::pow2(1) == 2);
        assert(byte_bit(b, 1) == ((b as int / 2) % 2 == 1));
    } else if k == 2 {
        assert(((b >> 2u8) & 1u8 == 1u8) == ((b / 4) % 2 == 1)) by (bit_vector);
        assert(vstd::arithmetic::power2::pow2(2) == 4);
        assert(byte_bit(b, 2) == ((b as int / 4) % 2 == 1));
    } else if k == 3 {
        assert(((b >> 3u8) & 1u8 == 1u8) == ((b / 8) % 2 == 1)) by (bit_vector);
        assert(vstd::arithmetic::power2::pow2(3) == 8);
        assert(byte_bit(b, 3) == ((b as int / 8) % 2 == 1));
    } else if k == 4 {
        assert(((b >> 4u8) & 1u8 == 1u8) == ((b / 16) % 2 == 1)) by (bit_vector);
        assert(vstd::arithmetic::power2::pow2(4) == 16);
        assert(byte_bit(b, 4) == ((b as int / 16) % 2 == 1));
    } else if k == 5 {
        assert(((b >> 5u8) & 1u8 == 1u8) == ((b / 32) % 2 == 1)) by (bit_vector);
        assert(vstd::arithmetic::power2::pow2(5) == 32);
        assert(byte_bit(b, 5) == ((b as int / 32) % 2 == 1));
    } else if k == 6 {
        assert(((b >> 6u8) & 1u8 == 1u8) == ((b / 64) % 2 == 1)) by (bit_vector);
        assert(vstd::arithmetic::power2::pow2(6) == 64);
        assert(byte_bit(b, 6) == ((b as int / 64) % 2 == 1));
    } else {
        assert(((b >> 7u8) & 1u8 == 1u8) == ((b / 128) % 2 == 1)) by (bit_vector);
        assert(vstd::arithmetic::power2::pow2(7) == 128);
        assert(byte_bit(b, 7) == ((b as int / 128) % 2 == 1));
    }
}

/// How a frame is laid out and coloured: pixel `i` is column `i % 32` of row
/// `i / 32`; its bits are bit `x % 8` of byte `4 y + x / 8` of the sprite and
/// of the mask; it is transparent (0) where the mask bit is clear, opaque
/// black `0xFF000000` where both are set and opaque white `0xFFFFFFFF` where
/// only the mask bit is.
pub proof fn lemma_pixel_decoding(sprite: Seq<u8>, mask: Seq<u8>, i: int)
    requires
        0 <= i < 1024,
        sprite.len() == 128,
        mask.len() == 128,
    ensures
        ({
            let x = i % 32;
            let y = i / 32;
            let byte = y * 4 + x / 8;
            let m = byte_bit(mask[byte], x % 8);
            let s = byte_bit(sprite[byte], x % 8);
            &&& 0 <= byte < 128
            &&& !m ==> frame_color(sprite, mask, i) == 0u32
            &&& m && s ==> frame_color(sprite, mask, i) == 0xFF00_0000u32
            &&& m && !s ==> frame_color(sprite, mask, i) == 0xFFFF_FFFFu32
        }),
{
    let x = i % 32;
    let y = i / 32;
    lemma_shift_bit(mask[y * 4 + x / 8], (x % 8) as u8);
    lemma_shift_bit(sprite[y * 4 + x / 8], (x % 8) as u8);
}

} // verus!
