use vstd::prelude::*;
use vstd::string::StrSliceExecFns;
use vstd::string::StringExecFns;

verus! {

/// True when some string of `v` reads exactly as `s`.
pub open spec fn contains_str(v: Seq<Seq<char>>, s: Seq<char>) -> bool {
    exists|i: int| 0 <= i < v.len() && v[i] == s
}

/// Relies on String::push: appends the single character at the end.
#[verifier::external_body]
pub(crate) fn push_char(s: &mut String, c: char)
    ensures
        final(s)@ == old(s)@.push(c),
{
    s.push(c);
}

/// Appends `element` at the end of `arr` unless an equal string is
/// already present, in which case `arr` is left unchanged.
pub fn add_if_not_present(arr: &mut Vec<String>, element: &str)
    ensures
        final(arr).deep_view() == spec_add_if_not_present(old(arr).deep_view(), element@),
        contains_str(old(arr).deep_view(), element@) ==> *final(arr) == *old(arr),
{
    let elem: String = element.to_owned();
    let mut i: usize = 0;
    while i < arr.len()
        invariant
            i <= arr.len(),
            elem@ == element@,
            forall|j: int| 0 <= j < i ==> arr.deep_view()[j] != element@,
        decreases arr.len() - i,
    {
        if arr[i] == elem {
            assert(arr.deep_view()[i as int] == element@);
            return;
        }
        i += 1;
    }
    arr.push(elem);
    assert(arr.deep_view() =~= old(arr).deep_view().push(element@));
}

/// What `add_if_not_present` does to the sequence of strings.
pub open spec fn spec_add_if_not_present(v: Seq<Seq<char>>, s: Seq<char>) -> Seq<Seq<char>> {
    if contains_str(v, s) {
        v
    } else {
        v.push(s)
    }
}

/// The result of str::to_lowercase, determined by the characters alone.
pub uninterp spec fn lower_of(s: Seq<char>) -> Seq<char>;

/// Relies on str::to_lowercase: the lowercase mapping depends on the
/// characters of the input alone, and an empty input stays empty.
#[verifier::external_body]
pub(crate) fn to_lowercase_str(s: &str) -> (r: String)
    ensures
        r@ == lower_of(s@),
        s@.len() == 0 ==> r@.len() == 0,
{
    s.to_lowercase()
}

/// Every occurrence of `from` replaced by `to`.
pub open spec fn spec_replace_char(s: Seq<char>, from: char, to: char) -> Seq<char> {
    s.map_values(|c: char| if c == from { to } else { c })
}

/// Builds the string in which every `from` of `s` reads as `to`.
pub fn replace_char(s: &str, from: char, to: char) -> (r: String)
    ensures
        r@ == spec_replace_char(s@, from, to),
{
    let n: usize = s.unicode_len();
    let mut out = String::new();
    let mut i: usize = 0;
    while i < n
        invariant
            i <= n,
            n == s@.len(),
            out@ =~= spec_replace_char(s@.take(i as int), from, to),
        decreases n - i,
    {
        let c = s.get_char(i);
        let d = if c == from {
            to
        } else {
            c
        };
        push_char(&mut out, d);
        assert(spec_replace_char(s@.take(i + 1), from, to) =~= spec_replace_char(
            s@.take(i as int),
            from,
            to,
        ).push(d));
        i += 1;
    }
    assert(s@.take(n as int) =~= s@);
    out
}

/// Lowercases the text and turns every underscore into a space.
pub fn lowercase_and_replace(s: &str) -> (r: String)
    ensures
        r@ == spec_replace_char(lower_of(s@), '_', ' '),
{
    let lowered = to_lowercase_str(s);
    replace_char(lowered.as_str(), '_', ' ')
}

/// The parts joined with `sep` between each two neighbours.
pub open spec fn spec_join(parts: Seq<Seq<char>>, sep: Seq<char>) -> Seq<char>
    decreases parts.len(),
{
    if parts.len() == 0 {
        Seq::empty()
    } else if parts.len() == 1 {
        parts[0]
    } else {
        spec_join(parts.drop_last(), sep) + sep + parts.last()
    }
}

/// Joins the first `end` strings of `parts` with `sep` between them.
pub fn join_range(parts: &Vec<String>, sep: &str, end: usize) -> (r: String)
    requires
        end <= parts.len(),
    ensures
        r@ == spec_join(parts.deep_view().take(end as int), sep@),
{
    let mut out = String::new();
    let mut i: usize = 0;
    while i < end
        invariant
            i <= end <= parts.len(),
            i == 0 ==> out@ == Seq::<char>::empty(),
            i > 0 ==> out@ == spec_join(parts.deep_view().take(i as int), sep@),
        decreases end - i,
    {
        if i > 0 {
            out.append(sep);
        }
        out.append(parts[i].as_str());
        proof {
            let dv = parts.deep_view();
            assert(dv.take(i + 1).drop_last() =~= dv.take(i as int));
            assert(dv.take(i + 1).last() == dv[i as int]);
            if i == 0 {
                assert(out@ =~= spec_join(dv.take(1), sep@));
            }
        }
        i += 1;
    }
    out
}

/// The listing format of `concatenate_with_and`: every element but the
/// last joined with a comma, and the last one set off with "and".
pub open spec fn spec_concat_with_and(parts: Seq<Seq<char>>) -> Seq<char> {
    if parts.len() == 0 {
        Seq::empty()
    } else if parts.len() == 1 {
        parts[0]
    } else {
        spec_join(parts.drop_last(), ", "@) + " and "@ + parts.last()
    }
}

/// Renders a list of words as prose: "a", "a and b", "a, b and c".
pub fn concatenate_with_and(elements: Vec<String>) -> (r: String)
    ensures
        r@ == spec_concat_with_and(elements.deep_view()),
{
    let n = elements.len();
    if n == 0 {
        String::new()
    } else if n == 1 {
        let r = elements[0].clone();
        assert(r@ == elements.deep_view()[0]);
        r
    } else {
        let mut out = join_range(&elements, ", ", n - 1);
        proof {
            assert(elements.deep_view().take(n - 1) =~= elements.deep_view().drop_last());
        }
        out.append(" and ");
        out.append(elements[n - 1].as_str());
        assert(elements.deep_view().last() == elements.deep_view()[n - 1]);
        out
    }
}

/// The decimal digit for a value below ten.
pub open spec fn spec_digit_char(d: int) -> char {
    if d == 0 {
        '0'
    } else if d == 1 {
        '1'
    } else if d == 2 {
        '2'
    } else if d == 3 {
        '3'
    } else if d == 4 {
        '4'
    } else if d == 5 {
        '5'
    } else if d == 6 {
        '6'
    } else if d == 7 {
        '7'
    } else if d == 8 {
        '8'
    } else {
        '9'
    }
}

/// The decimal digits of `n`, most significant first.
pub open spec fn spec_u64_digits(n: nat) -> Seq<char>
    decreases n,
{
    if n < 10 {
        seq![spec_digit_char(n as int)]
    } else {
        spec_u64_digits(n / 10).push(spec_digit_char((n % 10) as int))
    }
}

fn digit_char(d: u64) -> (c: char)
    requires
        d < 10,
    ensures
        c == spec_digit_char(d as int),
{
    if d == 0 {
        '0'
    } else if d == 1 {
        '1'
    } else if d == 2 {
        '2'
    } else if d == 3 {
        '3'
    } else if d == 4 {
        '4'
    } else if d == 5 {
        '5'
    } else if d == 6 {
        '6'
    } else if d == 7 {
        '7'
    } else if d == 8 {
        '8'
    } else {
        '9'
    }
}

/// Writes `n` in decimal.
pub fn u64_to_string(n: u64) -> (r: String)
    ensures
        r@ == spec_u64_digits(n as nat),
    decreases n,
{
    if n < 10 {
        let mut s = String::new();
        push_char(&mut s, digit_char(n));
        assert(s@ =~= spec_u64_digits(n as nat));
        s
    } else {
        let mut s = u64_to_string(n / 10);
        push_char(&mut s, digit_char(n % 10));
        s
    }
}

/// `s` opens with `prefix`.
pub open spec fn spec_starts_with(s: Seq<char>, prefix: Seq<char>) -> bool {
    s.len() >= prefix.len() && s.subrange(0, prefix.len() as int) == prefix
}

/// Whether the text opens with the given prefix.
pub fn starts_with_str(s: &str, prefix: &str) -> (r: bool)
    ensures
        r == spec_starts_with(s@, prefix@),
{
    let n: usize = s.unicode_len();
    let m: usize = prefix.unicode_len();
    if n < m {
        return false;
    }
    let mut i: usize = 0;
    while i < m
        invariant
            i <= m,
            m <= n,
            n == s@.len(),
            m == prefix@.len(),
            forall|k: int| 0 <= k < i ==> s@[k] == prefix@[k],
        decreases m - i,
    {
        if s.get_char(i) != prefix.get_char(i) {
            assert(s@.subrange(0, m as int)[i as int] == s@[i as int]);
            return false;
        }
        i += 1;
    }
    proof {
        assert(s@.subrange(0, m as int) =~= prefix@);
    }
    true
}

/// `s` ends in `suffix`.
pub open spec fn spec_ends_with(s: Seq<char>, suffix: Seq<char>) -> bool {
    s.len() >= suffix.len() && s.subrange(s.len() - suffix.len(), s.len() as int) == suffix
}

/// Whether the text ends in the given suffix.
pub fn ends_with_str(s: &str, suffix: &str) -> (r: bool)
    ensures
        r == spec_ends_with(s@, suffix@),
{
    let n: usize = s.unicode_len();
    let m: usize = suffix.unicode_len();
    if n < m {
        return false;
    }
    let mut i: usize = 0;
    while i < m
        invariant
            i <= m,
            m <= n,
            n == s@.len(),
            m == suffix@.len(),
            forall|k: int| 0 <= k < i ==> s@[n - m + k] == suffix@[k],
        decreases m - i,
    {
        if s.get_char(n - m + i) != suffix.get_char(i) {
            assert(s@.subrange(n - m, n as int)[i as int] == s@[n - m + i]);
            return false;
        }
        i += 1;
    }
    proof {
        assert(s@.subrange(n - m, n as int) =~= suffix@);
    }
    true
}

/// The text short of the suffix when it carries one, nothing
/// otherwise.
pub fn strip_suffix_str(s: &str, suffix: &str) -> (r: Option<String>)
    ensures
        match r {
            Some(t) => spec_ends_with(s@, suffix@) && t@ == s@.subrange(
                0,
                s@.len() - suffix@.len(),
            ),
            None => !spec_ends_with(s@, suffix@),
        },
{
    if ends_with_str(s, suffix) {
        let n: usize = s.unicode_len();
        let m: usize = suffix.unicode_len();
        let piece = s.substring_char(0, n - m);
        Some(piece.to_owned())
    } else {
        None
    }
}

/// The characters that str::trim strips: the Unicode white-space set.
pub open spec fn is_space_char(c: char) -> bool {
    ||| c == '\u{9}'
    ||| c == '\u{A}'
    ||| c == '\u{B}'
    ||| c == '\u{C}'
    ||| c == '\u{D}'
    ||| c == ' '
    ||| c == '\u{85}'
    ||| c == '\u{A0}'
    ||| c == '\u{1680}'
    ||| c == '\u{2000}'
    ||| c == '\u{2001}'
    ||| c == '\u{2002}'
    ||| c == '\u{2003}'
    ||| c == '\u{2004}'
    ||| c == '\u{2005}'
    ||| c == '\u{2006}'
    ||| c == '\u{2007}'
    ||| c == '\u{2008}'
    ||| c == '\u{2009}'
    ||| c == '\u{200A}'
    ||| c == '\u{2028}'
    ||| c == '\u{2029}'
    ||| c == '\u{202F}'
    ||| c == '\u{205F}'
    ||| c == '\u{3000}'
}

fn is_space(c: char) -> (r: bool)
    ensures
        r == is_space_char(c),
{
    c == '\u{9}' || c == '\u{A}' || c == '\u{B}' || c == '\u{C}' || c == '\u{D}' || c == ' ' || c
        == '\u{85}' || c == '\u{A0}' || c == '\u{1680}' || c == '\u{2000}' || c == '\u{2001}' || c
        == '\u{2002}' || c == '\u{2003}' || c == '\u{2004}' || c == '\u{2005}' || c == '\u{2006}'
        || c == '\u{2007}' || c == '\u{2008}' || c == '\u{2009}' || c == '\u{200A}' || c
        == '\u{2028}' || c == '\u{2029}' || c == '\u{202F}' || c == '\u{205F}' || c == '\u{3000}'
}

/// The text with its leading white space removed.
pub open spec fn spec_trim_start(s: Seq<char>) -> Seq<char>
    decreases s.len(),
{
    if s.len() > 0 && is_space_char(s[0]) {
        spec_trim_start(s.drop_first())
    } else {
        s
    }
}

/// The text with its trailing white space removed.
pub open spec fn spec_trim_end(s: Seq<char>) -> Seq<char>
    decreases s.len(),
{
    if s.len() > 0 && is_space_char(s.last()) {
        spec_trim_end(s.drop_last())
    } else {
        s
    }
}

/// The text with white space removed at both ends.
pub open spec fn spec_trimmed(s: Seq<char>) -> Seq<char> {
    spec_trim_end(spec_trim_start(s))
}

proof fn lemma_trim_start_at(s: Seq<char>, i: int)
    requires
        0 <= i <= s.len(),
        forall|k: int| 0 <= k < i ==> is_space_char(s[k]),
        i == s.len() || !is_space_char(s[i]),
    ensures
        spec_trim_start(s) == s.subrange(i, s.len() as int),
    decreases i,
{
    if i == 0 {
        assert(s.subrange(0, s.len() as int) =~= s);
    } else {
        let t = s.drop_first();
        assert(forall|k: int| 0 <= k < i - 1 ==> is_space_char(t[k]));
        lemma_trim_start_at(t, i - 1);
        assert(t.subrange(i - 1, t.len() as int) =~= s.subrange(i, s.len() as int));
    }
}

proof fn lemma_trim_end_at(s: Seq<char>, j: int)
    requires
        0 <= j <= s.len(),
        forall|k: int| j <= k < s.len() ==> is_space_char(s[k]),
        j == 0 || !is_space_char(s[j - 1]),
    ensures
        spec_trim_end(s) == s.subrange(0, j),
    decreases s.len(),
{
    if j == s.len() {
        if s.len() == 0 || !is_space_char(s.last()) {
            assert(s.subrange(0, j) =~= s);
        } else {
            assert(false);
        }
    } else {
        let t = s.drop_last();
        lemma_trim_end_at(t, j);
        assert(t.subrange(0, j) =~= s.subrange(0, j));
    }
}

/// Removes the white space at both ends of the text.
pub fn trim_str(s: &str) -> (r: String)
    ensures
        r@ == spec_trimmed(s@),
{
    let n: usize = s.unicode_len();
    let mut i: usize = 0;
    while i < n && is_space(s.get_char(i))
        invariant
            i <= n,
            n == s@.len(),
            forall|k: int| 0 <= k < i ==> is_space_char(s@[k]),
        decreases n - i,
    {
        i += 1;
    }
    proof {
        lemma_trim_start_at(s@, i as int);
    }
    if i == n {
        proof {
            lemma_trim_end_at(s@.subrange(i as int, n as int), 0);
            assert(s@.subrange(i as int, n as int) =~= Seq::<char>::empty());
            assert(spec_trimmed(s@) =~= Seq::<char>::empty());
        }
        return String::new();
    }
    let mut j: usize = n;
    while j > i && is_space(s.get_char(j - 1))
        invariant
            i <= j <= n,
            n == s@.len(),
            forall|k: int| j <= k < n ==> is_space_char(s@[k]),
        decreases j,
    {
        j -= 1;
    }
    assert(!is_space_char(s@[i as int]));
    assert(j > i);
    proof {
        let t = s@.subrange(i as int, n as int);
        assert(forall|k: int| j - i <= k < t.len() ==> is_space_char(t[k]));
        assert(t[j - i - 1] == s@[j - 1]);
        lemma_trim_end_at(t, j - i);
        assert(t.subrange(0, j - i) =~= s@.subrange(i as int, j as int));
    }
    let piece = s.substring_char(i, j);
    piece.to_owned()
}

} // verus!
