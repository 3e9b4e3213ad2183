use vstd::prelude::*;
use vstd::string::StringExecFns;
use crate::utils::spec_join;

verus! {

/// How many background images the bundle holds.
pub const BACKGROUND_COUNT: usize = 4;

/// Relies on rand's thread_rng and Rng::gen_range: a sample drawn
/// from `0..n` lies below `n`; the range must not be empty.
#[verifier::external_body]
fn random_below(n: usize) -> (r: usize)
    requires
        n >= 1,
    ensures
        r < n,
{
    rand::Rng::gen_range(&mut rand::thread_rng(), 0..n)
}

/// Draws which of the bundled background images to use.
pub fn pick_background() -> (r: usize)
    ensures
        r < BACKGROUND_COUNT,
{
    random_below(BACKGROUND_COUNT)
}

// ------------------------------------------------------------------
// The circular avatar mask.
// ------------------------------------------------------------------

/// A pixel at `(x, y)` of a size-`size` square falls outside the
/// inscribed circle: its squared distance from the centre exceeds the
/// squared radius, both taken at `size / 2`.
pub open spec fn spec_pixel_transparent(x: int, y: int, size: int) -> bool {
    let h = size / 2;
    (x - h) * (x - h) + (y - h) * (y - h) > h * h
}

/// Whether the mask makes the pixel at `(x, y)` fully transparent.
pub fn pixel_transparent(x: u32, y: u32, size: u32) -> (r: bool)
    requires
        x < size,
        y < size,
    ensures
        r == spec_pixel_transparent(x as int, y as int, size as int),
{
    let h: i64 = (size / 2) as i64;
    let dx: i64 = x as i64 - h;
    let dy: i64 = y as i64 - h;
    proof {
        assert(0 <= h <= 0x7FFFFFFFi64);
        assert(size as int <= 2 * h + 1);
        assert(-h <= dx <= h && -h <= dy <= h);
        assert(dx * dx >= 0 && dx * dx <= 0x3FFFFFFF00000001i64) by (nonlinear_arith)
            requires
                -0x7FFFFFFFi64 <= dx <= 0x7FFFFFFFi64,
        ;
        assert(dy * dy >= 0 && dy * dy <= 0x3FFFFFFF00000001i64) by (nonlinear_arith)
            requires
                -0x7FFFFFFFi64 <= dy <= 0x7FFFFFFFi64,
        ;
        assert(h * h >= 0 && h * h <= 0x3FFFFFFF00000001i64) by (nonlinear_arith)
            requires
                0 <= h <= 0x7FFFFFFFi64,
        ;
    }
    dx * dx + dy * dy > h * h
}

/// The full mask for a size-`size` square, one row per inner vector:
/// `true` marks a pixel the mask blanks out.
pub fn circle_mask(size: u32) -> (mask: Vec<Vec<bool>>)
    ensures
        mask@.len() == size,
        forall|y: int| 0 <= y < size ==> (#[trigger] mask@[y])@.len() == size,
        forall|x: int, y: int|
            0 <= x < size && 0 <= y < size ==> mask@[y]@[x] == spec_pixel_transparent(
                x,
                y,
                size as int,
            ),
{
    let mut mask: Vec<Vec<bool>> = Vec::new();
    let mut y: u32 = 0;
    while y < size
        invariant
            y <= size,
            mask@.len() == y,
            forall|j: int| 0 <= j < y ==> (#[trigger] mask@[j])@.len() == size,
            forall|i: int, j: int|
                0 <= i < size && 0 <= j < y ==> (#[trigger] mask@[j]@[i])
                    == spec_pixel_transparent(i, j, size as int),
        decreases size - y,
    {
        let mut row: Vec<bool> = Vec::new();
        let mut x: u32 = 0;
        while x < size
            invariant
                x <= size,
                y < size,
                row@.len() == x,
                forall|i: int|
                    0 <= i < x ==> (#[trigger] row@[i]) == spec_pixel_transparent(
                        i,
                        y as int,
                        size as int,
                    ),
            decreases size - x,
        {
            let t = pixel_transparent(x, y, size);
            row.push(t);
            x += 1;
        }
        mask.push(row);
        y += 1;
    }
    mask
}

// ------------------------------------------------------------------
// Word wrap over measured widths.
// ------------------------------------------------------------------

/// A word of the greeting with its rendered width: the sum of the
/// glyph advance widths at the drawing scale, in whatever integer
/// unit the measuring side settles on.
pub struct MeasuredWord {
    pub text: String,
    pub width: u64,
}

/// A produced line: the joined text of the words `start..end`.
pub struct TextLine {
    pub text: String,
    pub start: usize,
    pub end: usize,
}

/// The width of the words `a..b` set on one line: their widths plus a
/// space of width `sp` between each two neighbours.
pub open spec fn spec_line_width(ws: Seq<u64>, a: int, b: int, sp: u64) -> int
    decreases b - a,
{
    if b <= a + 1 {
        if b == a + 1 && 0 <= a < ws.len() {
            ws[a] as int
        } else {
            0
        }
    } else {
        spec_line_width(ws, a, b - 1, sp) + sp + if 0 <= b - 1 < ws.len() {
            ws[b - 1] as int
        } else {
            0
        }
    }
}

proof fn lemma_line_width_mono(ws: Seq<u64>, a: int, b: int, c: int, sp: u64)
    requires
        a <= b <= c,
    ensures
        spec_line_width(ws, a, b, sp) <= spec_line_width(ws, a, c, sp),
    decreases c - b,
{
    if b < c {
        lemma_line_width_mono(ws, a, b, c - 1, sp);
    }
}

proof fn lemma_line_width_nonneg(ws: Seq<u64>, a: int, b: int, sp: u64)
    ensures
        spec_line_width(ws, a, b, sp) >= 0,
    decreases b - a,
{
    if b > a + 1 {
        lemma_line_width_nonneg(ws, a, b - 1, sp);
    }
}

proof fn lemma_line_width_left(ws: Seq<u64>, a: int, b: int, sp: u64)
    requires
        1 <= a < b,
    ensures
        spec_line_width(ws, a, b, sp) <= spec_line_width(ws, a - 1, b, sp),
    decreases b - a,
{
    if b == a + 1 {
        assert(spec_line_width(ws, a - 1, b, sp) == spec_line_width(ws, a - 1, a, sp) + sp + (
        if 0 <= b - 1 < ws.len() {
            ws[b - 1] as int
        } else {
            0
        }));
        assert(spec_line_width(ws, a - 1, a, sp) >= 0);
    } else {
        lemma_line_width_left(ws, a, b - 1, sp);
    }
}

proof fn lemma_line_width_within(ws: Seq<u64>, a: int, b: int, sp: u64)
    requires
        0 <= a <= b <= ws.len(),
    ensures
        spec_line_width(ws, a, b, sp) <= spec_line_width(ws, 0, ws.len() as int, sp),
    decreases a,
{
    lemma_line_width_mono(ws, a, b, ws.len() as int, sp);
    if a == 0 {
    } else if a >= ws.len() {
        lemma_line_width_nonneg(ws, 0, ws.len() as int, sp);
    } else {
        lemma_line_width_left(ws, a, ws.len() as int, sp);
        lemma_line_width_within(ws, a - 1, ws.len() as int, sp);
    }
}

/// Lays the words out greedily: a line takes further words while the
/// measured line stays within `max_width`, and a word that would
/// overflow closes the line and opens the next one with that word. A
/// single word wider than the limit stands on a line of its own. The
/// returned ranges cut `0..widths.len()` into the produced lines.
pub fn wrap_measured(widths: &Vec<u64>, space_width: u64, max_width: u64) -> (ranges: Vec<
    (usize, usize),
>)
    requires
        spec_line_width(widths@, 0, widths@.len() as int, space_width) <= u64::MAX,
    ensures
        widths@.len() == 0 ==> ranges@.len() == 0,
        widths@.len() > 0 ==> ranges@.len() > 0 && ranges@[0].0 == 0 && ranges@.last().1
            == widths@.len(),
        forall|k: int|
            0 <= k < ranges@.len() - 1 ==> (#[trigger] ranges@[k]).1 == ranges@[k + 1].0,
        forall|k: int|
            0 <= k < ranges@.len() ==> (#[trigger] ranges@[k]).0 < ranges@[k].1 <= widths@.len(),
        forall|k: int|
            0 <= k < ranges@.len() ==> spec_line_width(
                widths@,
                (#[trigger] ranges@[k]).0 as int,
                ranges@[k].1 as int,
                space_width,
            ) <= max_width || ranges@[k].1 == ranges@[k].0 + 1,
        forall|k: int|
            0 <= k < ranges@.len() && (#[trigger] ranges@[k]).1 < widths@.len()
                ==> spec_line_width(
                widths@,
                ranges@[k].0 as int,
                ranges@[k].1 as int + 1,
                space_width,
            ) > max_width,
{
    let n = widths.len();
    let mut ranges: Vec<(usize, usize)> = Vec::new();
    if n == 0 {
        return ranges;
    }
    let mut start: usize = 0;
    let mut i: usize = 1;
    let mut w: u64 = widths[0];
    while i < n
        invariant
            1 <= i <= n,
            start < i,
            n == widths@.len(),
            spec_line_width(widths@, 0, n as int, space_width) <= u64::MAX,
            w == spec_line_width(widths@, start as int, i as int, space_width),
            w <= max_width || i == start + 1,
            ranges@.len() == 0 ==> start == 0,
            ranges@.len() > 0 ==> ranges@[0].0 == 0 && ranges@.last().1 == start,
            forall|k: int|
                0 <= k < ranges@.len() - 1 ==> (#[trigger] ranges@[k]).1 == ranges@[k + 1].0,
            forall|k: int|
                0 <= k < ranges@.len() ==> (#[trigger] ranges@[k]).0 < ranges@[k].1 <= n,
            forall|k: int|
                0 <= k < ranges@.len() ==> spec_line_width(
                    widths@,
                    (#[trigger] ranges@[k]).0 as int,
                    ranges@[k].1 as int,
                    space_width,
                ) <= max_width || ranges@[k].1 == ranges@[k].0 + 1,
            forall|k: int|
                0 <= k < ranges@.len() ==> spec_line_width(
                    widths@,
                    (#[trigger] ranges@[k]).0 as int,
                    ranges@[k].1 as int + 1,
                    space_width,
                ) > max_width,
        decreases n - i,
    {
        proof {
            lemma_line_width_within(widths@, start as int, i as int + 1, space_width);
        }
        let candidate: u64 = w + space_width + widths[i];
        assert(candidate == spec_line_width(
            widths@,
            start as int,
            i as int + 1,
            space_width,
        ));
        if candidate <= max_width {
            w = candidate;
            i += 1;
        } else {
            let ghost old_ranges = ranges@;
            ranges.push((start, i));
            proof {
                assert(ranges@.drop_last() =~= old_ranges);
            }
            start = i;
            w = widths[i];
            i += 1;
        }
    }
    let ghost old_ranges = ranges@;
    ranges.push((start, n));
    proof {
        assert(ranges@.drop_last() =~= old_ranges);
    }
    ranges
}

/// The texts of the measured words.
pub open spec fn spec_texts_of(ws: Seq<MeasuredWord>) -> Seq<Seq<char>> {
    ws.map_values(|w: MeasuredWord| w.text@)
}

/// The widths of the measured words.
pub open spec fn spec_widths_of(ws: Seq<MeasuredWord>) -> Seq<u64> {
    ws.map_values(|w: MeasuredWord| w.width)
}

fn join_words(words: &Vec<MeasuredWord>, start: usize, end: usize) -> (r: String)
    requires
        start <= end <= words@.len(),
    ensures
        r@ == spec_join(spec_texts_of(words@).subrange(start as int, end as int), " "@),
{
    let mut out = String::new();
    let mut i: usize = start;
    while i < end
        invariant
            start <= i <= end <= words@.len(),
            i == start ==> out@ == Seq::<char>::empty(),
            i > start ==> out@ == spec_join(
                spec_texts_of(words@).subrange(start as int, i as int),
                " "@,
            ),
        decreases end - i,
    {
        if i > start {
            out.append(" ");
        }
        out.append(words[i].text.as_str());
        proof {
            let tv = spec_texts_of(words@);
            assert(tv.subrange(start as int, i + 1).drop_last() =~= tv.subrange(
                start as int,
                i as int,
            ));
            assert(tv.subrange(start as int, i + 1).last() == tv[i as int]);
            assert(tv[i as int] == words@[i as int].text@);
            if i == start {
                assert(out@ =~= spec_join(tv.subrange(start as int, i + 1), " "@));
            }
        }
        i += 1;
    }
    out
}

/// Word-wraps the measured words within `max_width`, greedily, and
/// joins each produced line with single spaces. Every line stays
/// within the limit unless it consists of one word that alone
/// overflows it; a word never splits.
#[verifier::rlimit(100)]
pub fn cut_text_into_lines(words: &Vec<MeasuredWord>, space_width: u64, max_width: u64) -> (lines:
    Vec<TextLine>)
    requires
        spec_line_width(spec_widths_of(words@), 0, words@.len() as int, space_width) <= u64::MAX,
    ensures
        words@.len() == 0 ==> lines@.len() == 0,
        words@.len() > 0 ==> lines@.len() > 0 && lines@[0].start == 0 && lines@.last().end
            == words@.len(),
        forall|k: int| 0 <= k < lines@.len() - 1 ==> (#[trigger] lines@[k]).end == lines@[k
            + 1].start,
        forall|k: int|
            0 <= k < lines@.len() ==> (#[trigger] lines@[k]).start < lines@[k].end
                <= words@.len(),
        forall|k: int|
            0 <= k < lines@.len() ==> spec_line_width(
                spec_widths_of(words@),
                (#[trigger] lines@[k]).start as int,
                lines@[k].end as int,
                space_width,
            ) <= max_width || lines@[k].end == lines@[k].start + 1,
        forall|k: int|
            0 <= k < lines@.len() && (#[trigger] lines@[k]).end < words@.len()
                ==> spec_line_width(
                spec_widths_of(words@),
                lines@[k].start as int,
                lines@[k].end as int + 1,
                space_width,
            ) > max_width,
        forall|k: int|
            0 <= k < lines@.len() ==> (#[trigger] lines@[k]).text@ == spec_join(
                spec_texts_of(words@).subrange(lines@[k].start as int, lines@[k].end as int),
                " "@,
            ),
{
    let n = words.len();
    let mut widths: Vec<u64> = Vec::new();
    let mut i: usize = 0;
    while i < n
        invariant
            i <= n,
            n == words@.len(),
            widths@ =~= spec_widths_of(words@).take(i as int),
        decreases n - i,
    {
        widths.push(words[i].width);
        assert(widths@ =~= spec_widths_of(words@).take(i + 1));
        i += 1;
    }
    assert(widths@ =~= spec_widths_of(words@));
    let ranges = wrap_measured(&widths, space_width, max_width);
    let mut lines: Vec<TextLine> = Vec::new();
    let mut k: usize = 0;
    while k < ranges.len()
        invariant
            k <= ranges@.len(),
            n == words@.len(),
            widths@ == spec_widths_of(words@),
            forall|j: int|
                0 <= j < ranges@.len() ==> (#[trigger] ranges@[j]).0 < ranges@[j].1 <= n,
            lines@.len() == k,
            forall|j: int|
                0 <= j < k ==> (#[trigger] lines@[j]).start == ranges@[j].0 && lines@[j].end
                    == ranges@[j].1,
            forall|j: int|
                0 <= j < k ==> (#[trigger] lines@[j]).text@ == spec_join(
                    spec_texts_of(words@).subrange(ranges@[j].0 as int, ranges@[j].1 as int),
                    " "@,
                ),
        decreases ranges@.len() - k,
    {
        let (a, b) = ranges[k];
        let text = join_words(words, a, b);
        lines.push(TextLine { text, start: a, end: b });
        k += 1;
    }
    lines
}

// ------------------------------------------------------------------
// The greeting text and its layout.
// ------------------------------------------------------------------

/// The greeting drawn on the welcome image, with the member's display
/// name and the guild's name filled in.
pub open spec fn spec_greeting(name: Seq<char>, server: Seq<char>) -> Seq<char> {
    "Greetings and salutations, noble Sir "@ + name
        + ". With utmost reverence, I, as the devoted steward of our realm, extend a gracious welcome to thee in the name of our cherished domain, "@
        + server + "."@
}

/// Renders the greeting sentence for a member and a guild.
pub fn greeting_text(name: &str, server: &str) -> (r: String)
    ensures
        r@ == spec_greeting(name@, server@),
{
    let mut s = "Greetings and salutations, noble Sir ".to_owned();
    s.append(name);
    s.append(
        ". With utmost reverence, I, as the devoted steward of our realm, extend a gracious welcome to thee in the name of our cherished domain, ",
    );
    s.append(server);
    s.append(".");
    s
}

/// Where a line's baseline sits: lines are drawn bottom-up from the
/// fixed baseline, each one a fixed line height above the previous.
pub fn line_y(index_from_bottom: u64) -> (y: i64)
    requires
        index_from_bottom <= 0x100000,
    ensures
        y == 1250 - 80 * (index_from_bottom as int),
{
    1250i64 - 80i64 * (index_from_bottom as i64)
}

} // verus!
