//! Character-level text helpers shared by the prompt and parsing logic.
//!
//! Strings are modelled by their character sequences (`String::view`).  The
//! case mappings of `str` are Unicode tables and are named, not spelled out;
//! trimming, splitting and searching are stated exactly.
use vstd::prelude::*;

verus! {

/// Whether `c` has the Unicode `White_Space` property (PropList.txt), the
/// property `char::is_whitespace` decides: the ASCII tab, line feed,
/// vertical tab, form feed, carriage return and space, NEL, NO-BREAK SPACE,
/// OGHAM SPACE MARK, the spaces U+2000 to U+200A, LINE and PARAGRAPH
/// SEPARATOR, NARROW NO-BREAK SPACE, MEDIUM MATHEMATICAL SPACE and
/// IDEOGRAPHIC SPACE.
pub open spec fn char_is_whitespace(c: char) -> bool {
    let u = c as u32;
    ||| 0x09 <= u <= 0x0d
    ||| u == 0x20
    ||| u == 0x85
    ||| u == 0xa0
    ||| u == 0x1680
    ||| 0x2000 <= u <= 0x200a
    ||| u == 0x2028
    ||| u == 0x2029
    ||| u == 0x202f
    ||| u == 0x205f
    ||| u == 0x3000
}

/// The lowercase mapping of a whole string, as `str::to_lowercase` computes it.
pub uninterp spec fn lowercase_of(s: Seq<char>) -> Seq<char>;

/// The uppercase mapping of a whole string, as `str::to_uppercase` computes it.
pub uninterp spec fn uppercase_of(s: Seq<char>) -> Seq<char>;

/// Calls `char::is_whitespace`: true exactly for the characters with the
/// Unicode `White_Space` property, listed in `char_is_whitespace`.
#[verifier::external_body]
pub(crate) fn is_whitespace(c: char) -> (r: bool)
    ensures
        r == char_is_whitespace(c),
{
    c.is_whitespace()
}

/// Calls `str::to_lowercase`; its result is named by `lowercase_of`.
#[verifier::external_body]
pub(crate) fn to_lowercase(s: &str) -> (r: String)
    ensures
        r@ == lowercase_of(s@),
{
    s.to_lowercase()
}

/// Calls `str::to_uppercase`; its result is named by `uppercase_of`.
#[verifier::external_body]
pub(crate) fn to_uppercase(s: &str) -> (r: String)
    ensures
        r@ == uppercase_of(s@),
{
    s.to_uppercase()
}

/// Calls `String::push`: the character is appended at the end.
#[verifier::external_body]
fn push_char(s: &mut String, c: char)
    ensures
        final(s)@ == old(s)@.push(c),
{
    s.push(c)
}

/// `pat` occurs in `hay` starting at position `i`.
pub open spec fn occurs_at(hay: Seq<char>, pat: Seq<char>, i: int) -> bool {
    0 <= i && i + pat.len() <= hay.len() && hay.subrange(i, i + pat.len()) == pat
}

/// `pat` occurs somewhere in `hay` (the empty pattern occurs everywhere).
pub open spec fn seq_contains(hay: Seq<char>, pat: Seq<char>) -> bool {
    exists|i: int| #[trigger] occurs_at(hay, pat, i)
}

/// Calls `str::contains` with a string pattern: true when `pat` matches a
/// sub-slice of `hay`.
#[verifier::external_body]
pub(crate) fn contains(hay: &str, pat: &str) -> (r: bool)
    ensures
        r == seq_contains(hay@, pat@),
{
    hay.contains(pat)
}

/// Calls `str::starts_with` with a string pattern: true when `pat` is a prefix of `s`.
#[verifier::external_body]
pub(crate) fn starts_with(s: &str, pat: &str) -> (r: bool)
    ensures
        r == pat@.is_prefix_of(s@),
{
    s.starts_with(pat)
}

/// Calls `str::ends_with` with a string pattern: true when `pat` is a suffix of `s`.
#[verifier::external_body]
pub(crate) fn ends_with(s: &str, pat: &str) -> (r: bool)
    ensures
        r == pat@.is_suffix_of(s@),
{
    s.ends_with(pat)
}

/// Every non-overlapping occurrence of `from` in `s`, found from left to
/// right, replaced by `to`.
pub open spec fn replace_all(s: Seq<char>, from: Seq<char>, to: Seq<char>) -> Seq<char>
    decreases s.len(),
{
    if from.len() == 0 || s.len() < from.len() {
        s
    } else if s.subrange(0, from.len() as int) == from {
        to + replace_all(s.subrange(from.len() as int, s.len() as int), from, to)
    } else {
        seq![s[0]] + replace_all(s.drop_first(), from, to)
    }
}

/// Calls `str::replace` with a non-empty string pattern: all matches of
/// `from`, leftmost first and not overlapping, are replaced by `to`.
#[verifier::external_body]
pub(crate) fn replace(s: &str, from: &str, to: &str) -> (r: String)
    requires
        from@.len() > 0,
    ensures
        r@ == replace_all(s@, from@, to@),
{
    s.replace(from, to)
}

/// The characters of `s`, in order.
pub fn chars_of(s: &str) -> (v: Vec<char>)
    ensures
        v@ == s@,
{
    let mut v: Vec<char> = Vec::new();
    for c in it: s.chars()
        invariant
            v@ == it.seq().take(it.index() as int),
    {
        v.push(c);
    }
    v
}

/// A string made of the characters `v[lo..hi]`.
pub fn string_of_range(v: &Vec<char>, lo: usize, hi: usize) -> (s: String)
    requires
        lo <= hi <= v.len(),
    ensures
        s@ == v@.subrange(lo as int, hi as int),
{
    let mut s = String::new();
    let mut i: usize = lo;
    while i < hi
        invariant
            lo <= i <= hi <= v.len(),
            s@ == v@.subrange(lo as int, i as int),
        decreases hi - i,
    {
        push_char(&mut s, v[i]);
        assert(v@.subrange(lo as int, i + 1) == v@.subrange(lo as int, i as int).push(v@[i as int]));
        i += 1;
    }
    s
}

/// `s` without its leading whitespace.
pub open spec fn trim_start_seq(s: Seq<char>) -> Seq<char>
    decreases s.len(),
{
    if s.len() > 0 && char_is_whitespace(s[0]) {
        trim_start_seq(s.drop_first())
    } else {
        s
    }
}

/// `s` without its trailing whitespace.
pub open spec fn trim_end_seq(s: Seq<char>) -> Seq<char>
    decreases s.len(),
{
    if s.len() > 0 && char_is_whitespace(s.last()) {
        trim_end_seq(s.drop_last())
    } else {
        s
    }
}

/// `s` without leading and trailing whitespace, as `str::trim` gives it.
pub open spec fn trimmed(s: Seq<char>) -> Seq<char> {
    trim_end_seq(trim_start_seq(s))
}

/// Dropping leading whitespace from `s` followed by a whitespace character:
/// the character stays at the end unless everything before it was whitespace.
proof fn lemma_trim_start_push_whitespace(s: Seq<char>, c: char)
    requires
        char_is_whitespace(c),
    ensures
        trim_start_seq(s.push(c)) == if trim_start_seq(s).len() == 0 {
            Seq::<char>::empty()
        } else {
            trim_start_seq(s).push(c)
        },
    decreases s.len(),
{
    if s.len() == 0 {
        assert(s.push(c).drop_first() =~= Seq::<char>::empty());
        assert(trim_start_seq(Seq::<char>::empty()) == Seq::<char>::empty());
        assert(trim_start_seq(s.push(c)) == trim_start_seq(s.push(c).drop_first()));
    } else {
        assert(s.push(c)[0] == s[0]);
        if char_is_whitespace(s[0]) {
            assert(s.push(c).drop_first() =~= s.drop_first().push(c));
            lemma_trim_start_push_whitespace(s.drop_first(), c);
            assert(trim_start_seq(s.push(c)) == trim_start_seq(s.drop_first().push(c)));
            assert(trim_start_seq(s) == trim_start_seq(s.drop_first()));
        } else {
            assert(trim_start_seq(s.push(c)) == s.push(c));
            assert(trim_start_seq(s) == s);
        }
    }
}

/// Surrounding text with a space in front and a newline behind does not
/// change what trimming keeps.
pub proof fn lemma_trimmed_ignores_padding(s: Seq<char>)
    ensures
        trimmed(seq![' '] + s + seq!['\n']) == trimmed(s),
{
    let padded = seq![' '] + s + seq!['\n'];
    assert(' ' as u32 == 0x20);
    assert('\n' as u32 == 0x0a);
    assert(padded.drop_first() =~= s.push('\n'));
    assert(trim_start_seq(padded) == trim_start_seq(s.push('\n')));
    lemma_trim_start_push_whitespace(s, '\n');
    let t = trim_start_seq(s);
    if t.len() != 0 {
        assert(t.push('\n').drop_last() =~= t);
        assert(trim_end_seq(t.push('\n')) == trim_end_seq(t));
    }
}

/// `s` with leading and trailing whitespace removed.
pub fn trim(s: &str) -> (r: String)
    ensures
        r@ == trimmed(s@),
{
    let v = chars_of(s);
    let n = v.len();
    let mut i: usize = 0;
    assert(v@.subrange(0, n as int) == v@);
    while i < n && is_whitespace(v[i])
        invariant
            i <= n == v.len(),
            trim_start_seq(v@) == trim_start_seq(v@.subrange(i as int, n as int)),
        decreases n - i,
    {
        assert(v@.subrange(i as int, n as int).drop_first() == v@.subrange(i + 1, n as int));
        i += 1;
    }
    assert(trim_start_seq(v@) == v@.subrange(i as int, n as int));
    let mut j: usize = n;
    while j > i && is_whitespace(v[j - 1])
        invariant
            i <= j <= n == v.len(),
            trim_end_seq(v@.subrange(i as int, n as int)) == trim_end_seq(
                v@.subrange(i as int, j as int),
            ),
        decreases j - i,
    {
        assert(v@.subrange(i as int, j as int).drop_last() == v@.subrange(i as int, j - 1));
        j -= 1;
    }
    string_of_range(&v, i, j)
}

/// The pieces of `cur + s` separated by whitespace runs, empty pieces dropped.
pub open spec fn words_from(s: Seq<char>, cur: Seq<char>) -> Seq<Seq<char>>
    decreases s.len(),
{
    if s.len() == 0 {
        if cur.len() == 0 {
            seq![]
        } else {
            seq![cur]
        }
    } else if char_is_whitespace(s[0]) {
        (if cur.len() == 0 {
            seq![]
        } else {
            seq![cur]
        }) + words_from(s.drop_first(), seq![])
    } else {
        words_from(s.drop_first(), cur.push(s[0]))
    }
}

/// The whitespace-separated words of `s`, as `str::split_whitespace` yields them.
pub open spec fn words(s: Seq<char>) -> Seq<Seq<char>> {
    words_from(s, seq![])
}

/// The whitespace-separated words of `s`, in order.
pub fn split_whitespace(s: &str) -> (r: Vec<String>)
    ensures
        r.deep_view() == words(s@),
{
    let v = chars_of(s);
    let n = v.len();
    let mut result: Vec<String> = Vec::new();
    let mut start: usize = 0;
    let mut i: usize = 0;
    assert(v@.subrange(0, n as int) == v@);
    assert(v@.subrange(0, 0) == Seq::<char>::empty());
    assert(result.deep_view() == Seq::<Seq<char>>::empty());
    assert(Seq::<Seq<char>>::empty() + words_from(v@, seq![]) == words_from(v@, seq![]));
    while i < n
        invariant
            start <= i <= n == v.len(),
            result.deep_view() + words_from(
                v@.subrange(i as int, n as int),
                v@.subrange(start as int, i as int),
            ) == words(v@),
        decreases n - i,
    {
        let ghost rest = v@.subrange(i as int, n as int);
        let ghost cur = v@.subrange(start as int, i as int);
        assert(rest.drop_first() == v@.subrange(i + 1, n as int));
        assert(rest[0] == v@[i as int]);
        if is_whitespace(v[i]) {
            if start < i {
                let w = string_of_range(&v, start, i);
                let ghost before = result.deep_view();
                result.push(w);
                assert(result.deep_view() == before.push(cur));
                assert(before + (seq![cur] + words_from(rest.drop_first(), seq![])) == before.push(
                    cur,
                ) + words_from(rest.drop_first(), seq![]));
            } else {
                assert(seq![] + words_from(rest.drop_first(), seq![]) == words_from(
                    rest.drop_first(),
                    seq![],
                ));
            }
            start = i + 1;
            assert(v@.subrange(start as int, start as int) == Seq::<char>::empty());
        } else {
            assert(cur.push(v@[i as int]) == v@.subrange(start as int, i + 1));
        }
        i += 1;
    }
    assert(v@.subrange(n as int, n as int) == Seq::<char>::empty());
    if start < n {
        let ghost cur = v@.subrange(start as int, n as int);
        let w = string_of_range(&v, start, n);
        let ghost before = result.deep_view();
        result.push(w);
        assert(result.deep_view() == before.push(cur));
    } else {
        assert(result.deep_view() + Seq::<Seq<char>>::empty() == result.deep_view());
    }
    result
}

/// The pieces of `cur + s` separated by `'\n'`, empty pieces kept.
pub open spec fn lines_from(s: Seq<char>, cur: Seq<char>) -> Seq<Seq<char>>
    decreases s.len(),
{
    if s.len() == 0 {
        seq![cur]
    } else if s[0] == '\n' {
        seq![cur] + lines_from(s.drop_first(), seq![])
    } else {
        lines_from(s.drop_first(), cur.push(s[0]))
    }
}

/// The `'\n'`-separated pieces of `s`.
pub open spec fn lines(s: Seq<char>) -> Seq<Seq<char>> {
    lines_from(s, seq![])
}

/// Splits `s` at every `'\n'`; the separators are dropped and empty pieces kept.
pub fn split_lines(s: &str) -> (r: Vec<String>)
    ensures
        r.deep_view() == lines(s@),
{
    let v = chars_of(s);
    let n = v.len();
    let mut result: Vec<String> = Vec::new();
    let mut start: usize = 0;
    let mut i: usize = 0;
    assert(v@.subrange(0, n as int) == v@);
    assert(v@.subrange(0, 0) == Seq::<char>::empty());
    assert(result.deep_view() == Seq::<Seq<char>>::empty());
    assert(Seq::<Seq<char>>::empty() + lines_from(v@, seq![]) == lines_from(v@, seq![]));
    while i < n
        invariant
            start <= i <= n == v.len(),
            result.deep_view() + lines_from(
                v@.subrange(i as int, n as int),
                v@.subrange(start as int, i as int),
            ) == lines(v@),
        decreases n - i,
    {
        let ghost rest = v@.subrange(i as int, n as int);
        let ghost cur = v@.subrange(start as int, i as int);
        assert(rest.drop_first() == v@.subrange(i + 1, n as int));
        assert(rest[0] == v@[i as int]);
        if v[i] == '\n' {
            let w = string_of_range(&v, start, i);
            let ghost before = result.deep_view();
            result.push(w);
            assert(result.deep_view() == before.push(cur));
            assert(before + (seq![cur] + lines_from(rest.drop_first(), seq![])) == before.push(cur)
                + lines_from(rest.drop_first(), seq![]));
            start = i + 1;
            assert(v@.subrange(start as int, start as int) == Seq::<char>::empty());
        } else {
            assert(cur.push(v@[i as int]) == v@.subrange(start as int, i + 1));
        }
        i += 1;
    }
    assert(v@.subrange(n as int, n as int) == Seq::<char>::empty());
    let ghost cur = v@.subrange(start as int, n as int);
    let w = string_of_range(&v, start, n);
    let ghost before = result.deep_view();
    result.push(w);
    assert(result.deep_view() == before.push(cur));
    result
}

/// The code of a character with ASCII uppercase letters mapped to lowercase.
pub open spec fn ascii_folded(c: char) -> u32 {
    let u = c as u32;
    if 0x41 <= u <= 0x5a {
        (u + 0x20) as u32
    } else {
        u
    }
}

/// `a` and `b` are equal up to the case of ASCII letters.
pub open spec fn equal_ignoring_ascii_case(a: Seq<char>, b: Seq<char>) -> bool {
    a.len() == b.len() && forall|i: int| 0 <= i < a.len() ==> ascii_folded(a[i]) == ascii_folded(b[i])
}

fn fold_char(c: char) -> (r: u32)
    ensures
        r == ascii_folded(c),
{
    let u = c as u32;
    if 0x41 <= u && u <= 0x5a {
        u + 0x20
    } else {
        u
    }
}

/// Whether two strings match when ASCII letters are compared without regard
/// to case, as `str::eq_ignore_ascii_case` decides.
pub fn eq_ignore_ascii_case(a: &str, b: &str) -> (r: bool)
    ensures
        r == equal_ignoring_ascii_case(a@, b@),
{
    let va = chars_of(a);
    let vb = chars_of(b);
    if va.len() != vb.len() {
        return false;
    }
    let n = va.len();
    let mut i: usize = 0;
    while i < n
        invariant
            i <= n == va@.len() == vb@.len(),
            va@ == a@,
            vb@ == b@,
            forall|k: int| 0 <= k < i ==> ascii_folded(a@[k]) == ascii_folded(b@[k]),
        decreases n - i,
    {
        if fold_char(va[i]) != fold_char(vb[i]) {
            return false;
        }
        i += 1;
    }
    true
}

} // verus!
