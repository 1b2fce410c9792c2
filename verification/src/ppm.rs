use vstd::prelude::*;

verus! {

// ---------------------------------------------------------------------------
// Tokens of a binary PPM (P6) header
// ---------------------------------------------------------------------------

/// ASCII whitespace as `u8::is_ascii_whitespace` defines it: tab, line feed,
/// form feed, carriage return and space.
pub open spec fn is_ascii_ws(b: u8) -> bool {
    b == 9u8 || b == 10u8 || b == 12u8 || b == 13u8 || b == 32u8
}

/// The first position at or after `i` that does not hold whitespace.
pub open spec fn skip_ws(d: Seq<u8>, i: int) -> int
    decreases d.len() - i,
{
    if 0 <= i < d.len() && is_ascii_ws(d[i]) {
        skip_ws(d, i + 1)
    } else {
        i
    }
}

/// The first position at or after `i` that holds whitespace or is the end.
pub open spec fn token_end(d: Seq<u8>, i: int) -> int
    decreases d.len() - i,
{
    if 0 <= i < d.len() && !is_ascii_ws(d[i]) {
        token_end(d, i + 1)
    } else {
        i
    }
}

pub open spec fn is_digit(b: u8) -> bool {
    48u8 <= b <= 57u8
}

pub open spec fn all_digits(d: Seq<u8>, a: int, b: int) -> bool {
    forall|i: int| a <= i < b ==> #[trigger] is_digit(d[i])
}

/// Decimal value of the digits `d[a..b]`.
pub open spec fn dec_value(d: Seq<u8>, a: int, b: int) -> nat
    decreases b - a,
{
    if b <= a {
        0
    } else {
        dec_value(d, a, b - 1) * 10 + (d[b - 1] - 48u8) as nat
    }
}

/// What parsing `d[a..b]` as a `usize` gives: an optional `+` followed by at
/// least one decimal digit and nothing else, with a value that fits.
pub open spec fn parse_usize_spec(d: Seq<u8>, a: int, b: int) -> Option<usize> {
    let a2 = if a < b && d[a] == 43u8 {
        a + 1
    } else {
        a
    };
    if a2 < b && all_digits(d, a2, b) && dec_value(d, a2, b) <= usize::MAX {
        Some(dec_value(d, a2, b) as usize)
    } else {
        None
    }
}

/// The header of a P6 image: magic `P6`, width, height and maximum channel
/// value, each a whitespace-separated token; with the position right after
/// the last token.
pub open spec fn ppm_header(d: Seq<u8>) -> Option<(usize, usize, usize, int)> {
    let s1 = skip_ws(d, 0);
    let e1 = token_end(d, s1);
    let s2 = skip_ws(d, e1);
    let e2 = token_end(d, s2);
    let s3 = skip_ws(d, e2);
    let e3 = token_end(d, s3);
    let s4 = skip_ws(d, e3);
    let e4 = token_end(d, s4);
    if !(e1 - s1 == 2 && d[s1] == 80u8 && d[s1 + 1] == 54u8) {
        None
    } else if parse_usize_spec(d, s2, e2) is None || parse_usize_spec(d, s3, e3) is None
        || parse_usize_spec(d, s4, e4) is None {
        None
    } else {
        Some(
            (
                parse_usize_spec(d, s2, e2)->0,
                parse_usize_spec(d, s3, e3)->0,
                parse_usize_spec(d, s4, e4)->0,
                e4,
            ),
        )
    }
}

/// Inputs the scan is defined on: where the header is valid with a maximum
/// value of 255, one separator byte follows it and the pixel count times
/// three fits in a `usize`.
pub open spec fn ppm_scan_defined(d: Seq<u8>) -> bool {
    match ppm_header(d) {
        Some((w, h, maxval, end)) => maxval == 255 ==> (end + 1 <= d.len() && w * h * 3
            <= usize::MAX),
        None => true,
    }
}

/// Width, height and offset of the pixel data of a P6 image with 8-bit
/// channels whose pixel data is complete; `None` for any other input.
pub open spec fn ppm_pixels(d: Seq<u8>) -> Option<(usize, usize, int)> {
    match ppm_header(d) {
        Some((w, h, maxval, end)) => if maxval == 255 && d.len() - (end + 1) >= w * h * 3 {
            Some((w, h, end + 1))
        } else {
            None
        },
        None => None,
    }
}

// ---------------------------------------------------------------------------
// Ledges: long flat horizontal edges in the picture
// ---------------------------------------------------------------------------

pub open spec fn absdiff(a: u8, b: u8) -> int {
    if a >= b {
        a - b
    } else {
        b - a
    }
}

/// Index of the first channel of pixel `(x, y)`.
pub open spec fn px(off: int, w: int, x: int, y: int) -> int {
    off + (y * w + x) * 3
}

/// Sum over the three channels of the difference between the pixels that
/// start at `i` and `j`.
pub open spec fn color_diff(d: Seq<u8>, i: int, j: int) -> int {
    absdiff(d[i], d[j]) + absdiff(d[i + 1], d[j + 1]) + absdiff(d[i + 2], d[j + 2])
}

/// Pixel `(x, y)` continues an edge: it contrasts with the pixel two rows
/// above it, and, where the pixel to its left is an edge pixel too, it has
/// nearly that pixel's colour.
pub open spec fn is_edge(d: Seq<u8>, off: int, w: int, y: int, x: nat) -> bool
    decreases x,
{
    &&& color_diff(d, px(off, w, x as int, y), px(off, w, x as int, y - 2)) > 60
    &&& (x == 0 || !is_edge(d, off, w, y, (x - 1) as nat) || color_diff(
        d,
        px(off, w, x as int, y),
        px(off, w, x - 1, y),
    ) < 15)
}

/// Length of the unbroken run of edge pixels that ends at `(x, y)`.
pub open spec fn run_len(d: Seq<u8>, off: int, w: int, y: int, x: nat) -> nat
    decreases x,
{
    if is_edge(d, off, w, y, x) {
        if x == 0 {
            1
        } else {
            run_len(d, off, w, y, (x - 1) as nat) + 1
        }
    } else {
        0
    }
}

/// The rows that the scan visits: every 20th row from row 50 on.
pub open spec fn scanned_row(h: int, y: int) -> bool {
    50 <= y < h && (y - 50) % 20 == 0
}

/// A run of more than 300 edge pixels ends at `(x, y)`.
pub open spec fn ledge_end(d: Seq<u8>, off: int, w: int, h: int, y: int, x: int) -> bool {
    scanned_row(h, y) && 0 <= x < w && run_len(d, off, w, y, x as nat) > 300
}

/// `(y1, x1)` comes before `(y2, x2)` in scan order.
pub open spec fn scan_before(y1: int, x1: int, y2: int, x2: int) -> bool {
    y1 < y2 || (y1 == y2 && x1 < x2)
}

/// The 301 pixels of row `y` from `s` on form an unbroken flat edge: each
/// differs by more than 60 from the pixel two rows above it, and each after
/// the first by less than 15 from its left neighbour.
pub open spec fn unbroken_edge(d: Seq<u8>, off: int, w: int, y: int, s: int) -> bool {
    &&& 0 <= s
    &&& s + 300 < w
    &&& forall|x: int|
        s <= x <= s + 300 ==> #[trigger] color_diff(d, px(off, w, x, y), px(off, w, x, y - 2)) > 60
    &&& forall|x: int|
        s < x <= s + 300 ==> #[trigger] color_diff(d, px(off, w, x, y), px(off, w, x - 1, y)) < 15
}

/// A run is broken by every pixel that is not an edge pixel: the run ending
/// at `x` has length `k` only if the `k` pixels up to `x` each contrast with
/// the pixel two rows above, each after the first has nearly its left
/// neighbour's colour, and the pixel before the run (if any) is no edge pixel.
pub proof fn lemma_run_is_unbroken(d: Seq<u8>, off: int, w: int, y: int, x: nat)
    ensures
        !is_edge(d, off, w, y, x) ==> run_len(d, off, w, y, x) == 0,
        run_len(d, off, w, y, x) <= x + 1,
        forall|x1: int|
            x - run_len(d, off, w, y, x) < x1 <= x ==> #[trigger] color_diff(
                d,
                px(off, w, x1, y),
                px(off, w, x1, y - 2),
            ) > 60,
        forall|x1: int|
            x + 1 - run_len(d, off, w, y, x) < x1 <= x ==> #[trigger] color_diff(
                d,
                px(off, w, x1, y),
                px(off, w, x1 - 1, y),
            ) < 15,
        run_len(d, off, w, y, x) <= x ==> !is_edge(
            d,
            off,
            w,
            y,
            (x - run_len(d, off, w, y, x)) as nat,
        ),
    decreases x,
{
    if x > 0 {
        lemma_run_is_unbroken(d, off, w, y, (x - 1) as nat);
    }
}

/// A reported ledge is one unbroken flat edge of 301 pixels starting at the
/// reported position, and nothing that continues it lies to its left.
pub proof fn lemma_ledge_is_unbroken(d: Seq<u8>, off: int, w: int, h: int, y: int, x: int)
    requires
        ledge_end(d, off, w, h, y, x),
        run_len(d, off, w, y, x as nat) == 301,
    ensures
        unbroken_edge(d, off, w, y, x - 300),
        x - 300 == 0 || !is_edge(d, off, w, y, (x - 301) as nat),
{
    lemma_run_is_unbroken(d, off, w, y, x as nat);
}

/// A flat ledge found on screen: its left end and its length, in pixels.
#[derive(Clone, Copy, PartialEq, Eq, Structural, Debug)]
pub struct Ledge {
    pub x: usize,
    pub y: usize,
    pub len: usize,
}

// ---------------------------------------------------------------------------
// Executable code
// ---------------------------------------------------------------------------

fn is_ws_byte(b: u8) -> (r: bool)
    ensures
        r == is_ascii_ws(b),
{
    b == 9u8 || b == 10u8 || b == 12u8 || b == 13u8 || b == 32u8
}

/// Start and end of the next token at or after `i`; they are equal where no
/// token is left.
fn next_token(d: &[u8], i: usize) -> (r: (usize, usize))
    requires
        i <= d@.len(),
    ensures
        r.0 == skip_ws(d@, i as int),
        r.1 == token_end(d@, r.0 as int),
        i <= r.0 <= r.1 <= d@.len(),
{
    let mut s = i;
    while s < d.len() && is_ws_byte(d[s])
        invariant
            i <= s <= d@.len(),
            skip_ws(d@, s as int) == skip_ws(d@, i as int),
        decreases d@.len() - s,
    {
        s += 1;
    }
    let mut e = s;
    while e < d.len() && !is_ws_byte(d[e])
        invariant
            s <= e <= d@.len(),
            token_end(d@, e as int) == token_end(d@, s as int),
        decreases d@.len() - e,
    {
        e += 1;
    }
    (s, e)
}

proof fn lemma_dec_monotone(d: Seq<u8>, a: int, c: int, b: int)
    requires
        a <= c <= b,
        all_digits(d, a, b),
    ensures
        dec_value(d, a, c) <= dec_value(d, a, b),
    decreases b - c,
{
    if c < b {
        lemma_dec_monotone(d, a, c, b - 1);
        assert(is_digit(d[b - 1]));
    }
}

/// Parses `d[a..b]` as a decimal `usize`, with an optional leading `+`.
fn parse_usize(d: &[u8], a: usize, b: usize) -> (r: Option<usize>)
    requires
        a <= b <= d@.len(),
    ensures
        r == parse_usize_spec(d@, a as int, b as int),
{
    let a2 = if a < b && d[a] == 43u8 {
        a + 1
    } else {
        a
    };
    if a2 >= b {
        return None;
    }
    let mut i = a2;
    let mut acc: usize = 0;
    while i < b
        invariant
            a2 <= i <= b <= d@.len(),
            a2 < b,
            a2 == (if a < b && d@[a as int] == 43u8 {
                a + 1
            } else {
                a as int
            }),
            all_digits(d@, a2 as int, i as int),
            acc == dec_value(d@, a2 as int, i as int),
        decreases b - i,
    {
        let c = d[i];
        if c < 48u8 || c > 57u8 {
            assert(!is_digit(d@[i as int]));
            return None;
        }
        let next: u128 = (acc as u128) * 10 + ((c - 48u8) as u128);
        if next > usize::MAX as u128 {
            proof {
                if all_digits(d@, a2 as int, b as int) {
                    lemma_dec_monotone(d@, a2 as int, i + 1, b as int);
                }
            }
            return None;
        }
        acc = next as usize;
        i += 1;
    }
    Some(acc)
}

/// Width, height, maximum value and end of the header of a P6 image.
fn parse_header(d: &[u8]) -> (r: Option<(usize, usize, usize, usize)>)
    ensures
        match r {
            Some((w, h, m, e)) => ppm_header(d@) == Some((w, h, m, e as int)) && e <= d@.len(),
            None => ppm_header(d@) is None,
        },
{
    let (s1, e1) = next_token(d, 0);
    if !(e1 - s1 == 2 && d[s1] == 80u8 && d[s1 + 1] == 54u8) {
        return None;
    }
    let (s2, e2) = next_token(d, e1);
    let w = match parse_usize(d, s2, e2) {
        Some(v) => v,
        None => return None,
    };
    let (s3, e3) = next_token(d, e2);
    let h = match parse_usize(d, s3, e3) {
        Some(v) => v,
        None => return None,
    };
    let (s4, e4) = next_token(d, e3);
    let m = match parse_usize(d, s4, e4) {
        Some(v) => v,
        None => return None,
    };
    Some((w, h, m, e4))
}

/// Whether the ledge scan is defined on `d` (see `find_ledge_in_ppm`).
pub fn ppm_scan_is_defined(d: &[u8]) -> (r: bool)
    ensures
        r == ppm_scan_defined(d@),
{
    match parse_header(d) {
        Some((w, h, m, e)) => {
            if m != 255 {
                true
            } else if e >= d.len() {
                false
            } else {
                match w.checked_mul(h) {
                    Some(wh) => wh <= usize::MAX / 3,
                    None => false,
                }
            }
        },
        None => true,
    }
}

fn abs_diff(a: u8, b: u8) -> (r: u32)
    ensures
        r == absdiff(a, b),
{
    if a >= b {
        (a - b) as u32
    } else {
        (b - a) as u32
    }
}

fn color_distance(d: &[u8], i: usize, j: usize) -> (r: u32)
    requires
        i + 2 < d@.len(),
        j + 2 < d@.len(),
    ensures
        r == color_diff(d@, i as int, j as int),
{
    abs_diff(d[i], d[j]) + abs_diff(d[i + 1], d[j + 1]) + abs_diff(d[i + 2], d[j + 2])
}

proof fn lemma_pixel_in_bounds(off: int, w: int, h: int, x: int, y: int, len: int)
    requires
        0 <= x < w,
        2 <= y < h,
        0 <= off,
        off + w * h * 3 <= len,
    ensures
        0 <= y * w <= w * h,
        0 <= (y - 2) * w + x < y * w + x,
        y * w + x < w * h,
        off + (y * w + x) * 3 + 2 < len,
        off + ((y - 2) * w + x) * 3 + 2 < len,
        x > 0 ==> off + (y * w + x - 1) * 3 + 2 < len,
{
    assert(y * w + x < w * h && 0 <= y * w && (y - 2) * w + x < y * w + x && (y - 2) * w + x >= 0
        && y * w <= w * h) by (nonlinear_arith)
        requires
            0 <= x < w,
            2 <= y < h,
    ;
}

/// Scans row `y` of the image for a run of more than 300 edge pixels and
/// returns the first one's left end.
fn scan_row(d: &[u8], off: usize, w: usize, h: usize, y: usize) -> (r: Option<usize>)
    requires
        50 <= y < h,
        off + w * h * 3 <= d@.len(),
        d@.len() <= usize::MAX,
    ensures
        match r {
            Some(sx) => sx + 300 < w && run_len(d@, off as int, w as int, y as int, (sx + 300) as nat)
                == 301 && forall|x: int|
                0 <= x < sx + 300 ==> #[trigger] run_len(d@, off as int, w as int, y as int, x as nat) <= 300,
            None => forall|x: int|
                0 <= x < w ==> #[trigger] run_len(d@, off as int, w as int, y as int, x as nat) <= 300,
        },
{
    let ghost dv = d@;
    let mut edge_len: usize = 0;
    let mut start_x: usize = 0;
    let mut last: Option<usize> = None;
    let mut x: usize = 0;
    while x < w
        invariant
            50 <= y < h,
            off + w * h * 3 <= dv.len(),
            dv.len() <= usize::MAX,
            dv == d@,
            x <= w,
            edge_len <= 300,
            start_x + edge_len == x,
            edge_len == (if x == 0 {
                0
            } else {
                run_len(dv, off as int, w as int, y as int, (x - 1) as nat)
            }),
            last == (if x > 0 && is_edge(dv, off as int, w as int, y as int, (x - 1) as nat) {
                Some((off + (y * w + x - 1) * 3) as usize)
            } else {
                None::<usize>
            }),
            forall|x1: int| 0 <= x1 < x ==> #[trigger] run_len(dv, off as int, w as int, y as int, x1 as nat) <= 300,
        decreases w - x,
    {
        proof {
            lemma_pixel_in_bounds(off as int, w as int, h as int, x as int, y as int, dv.len() as int);
        }
        assert(y * w <= w * h);
        assert(off + (y * w + x) * 3 + 2 < dv.len());
        let yw = y * w;
        let p_idx = off + (yw + x) * 3;
        let above_idx = off + ((y - 2) * w + x) * 3;
        let v_diff = color_distance(d, p_idx, above_idx);
        let h_diff = match last {
            Some(lc) => color_distance(d, p_idx, lc),
            None => 0,
        };
        let ghost xn = x as nat;
        assert(px(off as int, w as int, x as int, y as int) == p_idx);
        assert(px(off as int, w as int, x as int, y - 2) == above_idx);
        if x > 0 {
            assert(px(off as int, w as int, x - 1, y as int) == off + (y * w + x - 1) * 3);
        }
        last = Some(p_idx);
        if v_diff > 60 && h_diff < 15 {
            assert(is_edge(dv, off as int, w as int, y as int, xn));
            edge_len += 1;
            if edge_len > 300 {
                return Some(start_x);
            }
        } else {
            assert(!is_edge(dv, off as int, w as int, y as int, xn));
            edge_len = 0;
            start_x = x + 1;
            last = None;
        }
        x += 1;
    }
    None
}

/// Looks in a P6 screenshot for a flat ledge: a horizontal run of more than
/// 300 pixels, on every 20th row from row 50 on, each of which differs by more
/// than 60 (summed over the channels) from the pixel two rows above and by
/// less than 15 from its left neighbour in the run. Returns the first such
/// run in scan order, cut at 301 pixels; `None` where there is none or the
/// input is not a complete 8-bit P6 image.
pub fn find_ledge_in_ppm(d: &[u8]) -> (r: Option<Ledge>)
    requires
        ppm_scan_defined(d@),
    ensures
        match ppm_pixels(d@) {
            None => r is None,
            Some((w, h, off)) => match r {
                None => forall|y: int, x: int| !#[trigger] ledge_end(d@, off, w as int, h as int, y, x),
                Some(l) => {
                    &&& l.len == 301
                    &&& unbroken_edge(d@, off, w as int, l.y as int, l.x as int)
                    &&& (l.x == 0 || !is_edge(d@, off, w as int, l.y as int, (l.x - 1) as nat))
                    &&& ledge_end(d@, off, w as int, h as int, l.y as int, l.x + 300)
                    &&& forall|y: int, x: int|
                        scan_before(y, x, l.y as int, l.x + 300) ==> !#[trigger] ledge_end(
                            d@,
                            off,
                            w as int,
                            h as int,
                            y,
                            x,
                        )
                },
            },
        },
{
    let (w, h, maxval, end) = match parse_header(d) {
        Some(hd) => hd,
        None => return None,
    };
    if maxval != 255 {
        return None;
    }
    assert(d@.len() == d.len());
    assert(ppm_header(d@) == Some((w, h, maxval, end as int)));
    assert(end + 1 <= d@.len());
    let off = end + 1;
    let pixel_bytes = w * h * 3;
    if d.len() - off < pixel_bytes {
        return None;
    }
    let ghost dv = d@;
    let ghost hi = h as int;
    let ghost wi = w as int;
    let ghost oi = off as int;
    assert(ppm_pixels(dv) == Some((w, h, oi)));
    let mut y: usize = 50;
    while y < h
        invariant
            off + w * h * 3 <= dv.len(),
            dv.len() <= usize::MAX,
            dv == d@,
            hi == h,
            wi == w,
            oi == off,
            50 <= y,
            y <= h || y == 50,
            y < h ==> (y - 50) % 20 == 0,
            ppm_pixels(dv) == Some((w, h, oi)),
            forall|y1: int, x1: int| y1 < y ==> !#[trigger] ledge_end(dv, oi, wi, hi, y1, x1),
        decreases h - y,
    {
        let found = scan_row(d, off, w, h, y);
        match found {
            Some(sx) => {
                assert(ledge_end(dv, oi, wi, hi, y as int, sx + 300));
                assert(unbroken_edge(dv, oi, wi, y as int, sx as int) && (sx == 0 || !is_edge(
                    dv,
                    oi,
                    wi,
                    y as int,
                    (sx - 1) as nat,
                ))) by {
                    lemma_ledge_is_unbroken(dv, oi, wi, hi, y as int, sx + 300);
                }
                return Some(Ledge { x: sx, y, len: 301 });
            },
            None => {},
        }
        assert forall|y1: int, x1: int| y1 < y + 1 implies !#[trigger] ledge_end(
            dv,
            oi,
            wi,
            hi,
            y1,
            x1,
        ) by {
            if y1 == y && 0 <= x1 < w {
                assert(run_len(dv, oi, wi, y as int, x1 as nat) <= 300);
            }
        }
        if h - y > 20 {
            y = y + 20;
        } else {
            y = h;
        }
    }
    None
}

/// A ledge can only be reported on a row the scan visits (every 20th row
/// from row 50, within the image) and within the image's width.
pub proof fn lemma_ledge_rows(d: Seq<u8>, off: int, w: int, h: int, y: int, x: int)
    requires
        ledge_end(d, off, w, h, y, x),
    ensures
        50 <= y < h,
        (y - 50) % 20 == 0,
        0 <= x < w,
        run_len(d, off, w, y, x as nat) > 300,
{
}

/// The pixel data scanned is that of a P6 header whose maximum value is 255,
/// starting one byte after the header, and complete for its width and
/// height.
pub proof fn lemma_pixels_need_full_header(d: Seq<u8>)
    ensures
        ppm_pixels(d) matches Some((w, h, off)) ==> {
            &&& ppm_header(d) matches Some((w2, h2, m, e))
            &&& w2 == w && h2 == h && m == 255 && off == e + 1
            &&& d.len() - off >= w * h * 3
        },
        ppm_header(d) matches Some((w, h, m, e)) ==> (m == 255 && d.len() - (e + 1) >= w * h * 3
            <==> ppm_pixels(d) is Some),
{
}

/// The magic number is exactly the two bytes `P6` as the first token, and
/// each of width, height and maximum value is a decimal token, optionally
/// signed `+`.
pub proof fn lemma_header_tokens(d: Seq<u8>)
    ensures
        ppm_header(d) is Some ==> ({
            let s1 = skip_ws(d, 0);
            &&& token_end(d, s1) == s1 + 2
            &&& d[s1] == 80u8 && d[s1 + 1] == 54u8
        }),
{
}

/// Decimal tokens: a token of digits reads as its value, and a `+` sign in
/// front changes nothing; a token with anything else reads as nothing.
pub proof fn lemma_decimal_token(d: Seq<u8>, a: int, b: int)
    requires
        0 <= a < b <= d.len(),
    ensures
        (all_digits(d, a, b) && dec_value(d, a, b) <= usize::MAX) ==> parse_usize_spec(d, a, b)
            == Some(dec_value(d, a, b) as usize),
        d[a] == 43u8 && a + 1 < b && is_digit(d[a + 1]) ==> parse_usize_spec(d, a, b)
            == parse_usize_spec(d, a + 1, b),
        (exists|i: int| a < i < b && !is_digit(d[i])) ==> parse_usize_spec(d, a, b) is None,
        b == a + 1 ==> parse_usize_spec(d, a, b) == (if is_digit(d[a]) {
            Some((d[a] - 48u8) as usize)
        } else {
            None::<usize>
        }),
{
    if d[a] == 43u8 && a + 1 < b {
        assert(!is_digit(d[a]));
    }
    if b == a + 1 && is_digit(d[a]) {
        assert(dec_value(d, a, a) == 0);
    }
}

} // verus!
