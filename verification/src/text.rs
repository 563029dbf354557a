//! Character-level text helpers shared by the rest of the crate: whitespace
//! trimming, substring search, line splitting, and the Unicode character
//! classes that std decides.

use vstd::prelude::*;
use vstd::utf8::{char_is_scalar, encode_scalar, encode_utf8};

verus! {

// ---------------------------------------------------------------------------
// Unicode character classes (decided by std's tables)
// ---------------------------------------------------------------------------

/// Whether `c` has the Unicode `White_Space` property: the ASCII tab, line
/// feed, vertical tab, form feed, carriage return and space, and U+0085,
/// U+00A0, U+1680, U+2000..=U+200A, U+2028, U+2029, U+202F, U+205F, U+3000.
pub open spec fn is_whitespace_char(c: char) -> bool {
    let n = c as int;
    ||| 0x09 <= n <= 0x0D
    ||| n == 0x20
    ||| n == 0x85
    ||| n == 0xA0
    ||| n == 0x1680
    ||| 0x2000 <= n <= 0x200A
    ||| n == 0x2028
    ||| n == 0x2029
    ||| n == 0x202F
    ||| n == 0x205F
    ||| n == 0x3000
}

/// Whether `c` is alphabetic or numeric in the Unicode sense, as std's
/// tables say (consulted for characters beyond ASCII).
pub uninterp spec fn unicode_alphanumeric(c: char) -> bool;

/// Whether `c` has the Unicode `Uppercase` property, as std's tables say
/// (consulted for characters beyond ASCII).
pub uninterp spec fn unicode_uppercase(c: char) -> bool;

/// Whether `c` has the Unicode `Lowercase` property, as std's tables say
/// (consulted for characters beyond ASCII).
pub uninterp spec fn unicode_lowercase(c: char) -> bool;

/// Whether `c` is an ASCII character.
pub open spec fn is_ascii_char(c: char) -> bool {
    (c as int) < 128
}

/// Whether `c` is alphabetic or numeric: among ASCII characters exactly the
/// letters and digits.
pub open spec fn is_alphanumeric_char(c: char) -> bool {
    if is_ascii_char(c) {
        ('A' <= c && c <= 'Z') || ('a' <= c && c <= 'z') || ('0' <= c && c <= '9')
    } else {
        unicode_alphanumeric(c)
    }
}

/// Whether `c` is uppercase: among ASCII characters exactly `A`..=`Z`.
pub open spec fn is_uppercase_char(c: char) -> bool {
    if is_ascii_char(c) {
        'A' <= c && c <= 'Z'
    } else {
        unicode_uppercase(c)
    }
}

/// Whether `c` is lowercase: among ASCII characters exactly `a`..=`z`.
pub open spec fn is_lowercase_char(c: char) -> bool {
    if is_ascii_char(c) {
        'a' <= c && c <= 'z'
    } else {
        unicode_lowercase(c)
    }
}

/// `char::is_whitespace`: whether `c` has the `White_Space` property.
pub fn char_is_whitespace(c: char) -> (r: bool)
    ensures
        r == is_whitespace_char(c),
{
    let n = c as u32;
    (0x09 <= n && n <= 0x0D) || n == 0x20 || n == 0x85 || n == 0xA0 || n == 0x1680 || (0x2000 <= n
        && n <= 0x200A) || n == 0x2028 || n == 0x2029 || n == 0x202F || n == 0x205F || n == 0x3000
}

/// Calls `char::is_alphanumeric`. Claims the ASCII answer (letters and
/// digits) and, beyond ASCII, only that the answer is a fixed function of `c`
/// (named `unicode_alphanumeric`).
#[verifier::external_body]
pub(crate) fn char_is_alphanumeric(c: char) -> (r: bool)
    ensures
        r == is_alphanumeric_char(c),
        !is_ascii_char(c) ==> r == unicode_alphanumeric(c),
{
    c.is_alphanumeric()
}

/// Calls `char::is_uppercase`. Claims the ASCII answer (`A`..=`Z`) and,
/// beyond ASCII, only that the answer is a fixed function of `c` (named
/// `unicode_uppercase`).
#[verifier::external_body]
pub(crate) fn char_is_uppercase(c: char) -> (r: bool)
    ensures
        r == is_uppercase_char(c),
        !is_ascii_char(c) ==> r == unicode_uppercase(c),
{
    c.is_uppercase()
}

/// Calls `char::is_lowercase`. Claims the ASCII answer (`a`..=`z`) and,
/// beyond ASCII, only that the answer is a fixed function of `c` (named
/// `unicode_lowercase`).
#[verifier::external_body]
pub(crate) fn char_is_lowercase(c: char) -> (r: bool)
    ensures
        r == is_lowercase_char(c),
        !is_ascii_char(c) ==> r == unicode_lowercase(c),
{
    c.is_lowercase()
}

/// Collects a sequence of characters into a `String` (std's
/// `FromIterator<&char> for String`): the string holds exactly those
/// characters, in order.
#[verifier::external_body]
pub(crate) fn string_from_chars(cs: &Vec<char>) -> (s: String)
    ensures
        s@ == cs@,
{
    cs.iter().collect()
}

/// Whether every character of `s` is ASCII.
pub open spec fn is_ascii_text(s: Seq<char>) -> bool {
    forall|i: int| 0 <= i < s.len() ==> is_ascii_char(#[trigger] s[i])
}

/// `c` with `A`..=`Z` mapped to `a`..=`z`.
pub open spec fn ascii_lower(c: char) -> char {
    if 'A' <= c && c <= 'Z' {
        ((c as int) + 32) as char
    } else {
        c
    }
}

/// `c` with `a`..=`z` mapped to `A`..=`Z`.
pub open spec fn ascii_upper(c: char) -> char {
    if 'a' <= c && c <= 'z' {
        ((c as int) - 32) as char
    } else {
        c
    }
}

/// The lowercase mapping of a text that is not all ASCII, as
/// `str::to_lowercase` computes it from Unicode's case tables.
pub uninterp spec fn unicode_lowercase_text(s: Seq<char>) -> Seq<char>;

/// The uppercase mapping of a text that is not all ASCII, as
/// `str::to_uppercase` computes it.
pub uninterp spec fn unicode_uppercase_text(s: Seq<char>) -> Seq<char>;

/// The lowercase mapping of a string (`str::to_lowercase`): for ASCII text,
/// each letter lowercased and everything else kept.
pub open spec fn lowercase_of(s: Seq<char>) -> Seq<char> {
    if is_ascii_text(s) {
        s.map_values(|c: char| ascii_lower(c))
    } else {
        unicode_lowercase_text(s)
    }
}

/// The uppercase mapping of a string (`str::to_uppercase`): for ASCII text,
/// each letter uppercased and everything else kept.
pub open spec fn uppercase_of(s: Seq<char>) -> Seq<char> {
    if is_ascii_text(s) {
        s.map_values(|c: char| ascii_upper(c))
    } else {
        unicode_uppercase_text(s)
    }
}

/// Calls `str::to_lowercase`. Claims the ASCII mapping (`A`..=`Z` to
/// `a`..=`z`, all else kept) and, for other text, only that the result is a
/// fixed function of the input (named `unicode_lowercase_text`).
#[verifier::external_body]
pub(crate) fn str_to_lowercase(s: &str) -> (r: String)
    ensures
        r@ == lowercase_of(s@),
        !is_ascii_text(s@) ==> r@ == unicode_lowercase_text(s@),
{
    s.to_lowercase()
}

/// Calls `str::to_uppercase`. Claims the ASCII mapping (`a`..=`z` to
/// `A`..=`Z`, all else kept) and, for other text, only that the result is a
/// fixed function of the input (named `unicode_uppercase_text`).
#[verifier::external_body]
pub(crate) fn str_to_uppercase(s: &str) -> (r: String)
    ensures
        r@ == uppercase_of(s@),
        !is_ascii_text(s@) ==> r@ == unicode_uppercase_text(s@),
{
    s.to_uppercase()
}

// ---------------------------------------------------------------------------
// Specifications
// ---------------------------------------------------------------------------

/// `s` without its leading whitespace (`str::trim_start`).
pub open spec fn trim_start_spec(s: Seq<char>) -> Seq<char>
    decreases s.len(),
{
    if s.len() > 0 && is_whitespace_char(s[0]) {
        trim_start_spec(s.drop_first())
    } else {
        s
    }
}

/// `s` without its trailing whitespace (`str::trim_end`).
pub open spec fn trim_end_spec(s: Seq<char>) -> Seq<char>
    decreases s.len(),
{
    if s.len() > 0 && is_whitespace_char(s.last()) {
        trim_end_spec(s.drop_last())
    } else {
        s
    }
}

/// `s` without leading and trailing whitespace (`str::trim`).
pub open spec fn trim_spec(s: Seq<char>) -> Seq<char> {
    trim_end_spec(trim_start_spec(s))
}

/// Whether every character of `s` is whitespace.
pub open spec fn is_blank(s: Seq<char>) -> bool {
    forall|i: int| 0 <= i < s.len() ==> is_whitespace_char(#[trigger] s[i])
}

/// `p` occurs in `s` starting at index `i`.
pub open spec fn occurs_at(s: Seq<char>, p: Seq<char>, i: int) -> bool {
    0 <= i && i + p.len() <= s.len() && s.subrange(i, i + p.len()) == p
}

/// `p` occurs somewhere in `s` (`str::contains` with a string pattern).
pub open spec fn contains_spec(s: Seq<char>, p: Seq<char>) -> bool {
    exists|i: int| occurs_at(s, p, i)
}

/// `s` begins with `p` (`str::starts_with`).
pub open spec fn starts_with_spec(s: Seq<char>, p: Seq<char>) -> bool {
    p.len() <= s.len() && s.subrange(0, p.len() as int) == p
}

/// The line-ending-free form of one `\n`-terminated segment: a final `\r` is
/// dropped too.
pub open spec fn strip_cr(seg: Seq<char>) -> Seq<char> {
    if seg.len() > 0 && seg.last() == '\r' {
        seg.drop_last()
    } else {
        seg
    }
}

/// The lines of `s` as `str::lines` yields them: split after each `\n`, the
/// `\n` (and a `\r` just before it) removed; a text that ends in a line ending
/// yields no empty last line, and an empty text yields no line at all.
/// `cur` is the part of the current line already read.
pub open spec fn lines_acc(s: Seq<char>, cur: Seq<char>) -> Seq<Seq<char>>
    decreases s.len(),
{
    if s.len() == 0 {
        if cur.len() == 0 {
            seq![]
        } else {
            seq![cur]
        }
    } else if s[0] == '\n' {
        seq![strip_cr(cur)] + lines_acc(s.drop_first(), seq![])
    } else {
        lines_acc(s.drop_first(), cur.push(s[0]))
    }
}

/// The lines of `s` (`str::lines`).
pub open spec fn lines_spec(s: Seq<char>) -> Seq<Seq<char>> {
    lines_acc(s, seq![])
}

/// The views of a sequence of strings.
pub open spec fn views(v: Seq<String>) -> Seq<Seq<char>> {
    v.map_values(|s: String| s@)
}

// ---------------------------------------------------------------------------
// Executable helpers
// ---------------------------------------------------------------------------

/// The characters of `s`, in order.
pub fn chars_of(s: &str) -> (r: Vec<char>)
    ensures
        r@ == s@,
{
    let mut r: Vec<char> = Vec::new();
    for c in it: s.chars()
        invariant
            r@ == it.seq().take(it.index() as int),
    {
        r.push(c);
    }
    r
}

/// The characters `cs[lo..hi]` as a `String`.
pub fn string_of_range(cs: &Vec<char>, lo: usize, hi: usize) -> (s: String)
    requires
        lo <= hi <= cs.len(),
    ensures
        s@ == cs@.subrange(lo as int, hi as int),
{
    let mut v: Vec<char> = Vec::new();
    let mut i = lo;
    while i < hi
        invariant
            lo <= i <= hi <= cs.len(),
            v@ == cs@.subrange(lo as int, i as int),
        decreases hi - i,
    {
        v.push(cs[i]);
        i += 1;
    }
    string_from_chars(&v)
}

proof fn lemma_trim_start_skip(s: Seq<char>, i: int)
    requires
        0 <= i < s.len(),
        is_whitespace_char(s[i]),
    ensures
        trim_start_spec(s.skip(i)) == trim_start_spec(s.skip(i + 1)),
{
    assert(s.skip(i).drop_first() =~= s.skip(i + 1));
}

proof fn lemma_trim_end_take(s: Seq<char>, lo: int, hi: int)
    requires
        0 <= lo < hi <= s.len(),
        is_whitespace_char(s[hi - 1]),
    ensures
        trim_end_spec(s.subrange(lo, hi)) == trim_end_spec(s.subrange(lo, hi - 1)),
{
    assert(s.subrange(lo, hi).drop_last() =~= s.subrange(lo, hi - 1));
}

/// Index of the first non-whitespace character of `cs` at or after `from`
/// (`cs.len()` when there is none).
pub fn skip_whitespace(cs: &Vec<char>, from: usize) -> (lo: usize)
    requires
        from <= cs.len(),
    ensures
        from <= lo <= cs.len(),
        cs@.skip(lo as int) == trim_start_spec(cs@.skip(from as int)),
        forall|k: int| from <= k < lo ==> is_whitespace_char(#[trigger] cs@[k]),
        lo < cs.len() ==> !is_whitespace_char(cs@[lo as int]),
{
    let mut i = from;
    while i < cs.len() && char_is_whitespace(cs[i])
        invariant
            from <= i <= cs.len(),
            trim_start_spec(cs@.skip(i as int)) == trim_start_spec(cs@.skip(from as int)),
            forall|k: int| from <= k < i ==> is_whitespace_char(#[trigger] cs@[k]),
        decreases cs.len() - i,
    {
        proof {
            lemma_trim_start_skip(cs@, i as int);
        }
        i += 1;
    }
    proof {
        if i == cs.len() {
            assert(cs@.skip(i as int) =~= Seq::<char>::empty());
        }
    }
    i
}

/// Bounds of the trimmed part of `cs`: `cs[lo..hi]` is `trim_spec(cs)`.
pub fn trim_bounds(cs: &Vec<char>) -> (r: (usize, usize))
    ensures
        r.0 <= r.1 <= cs.len(),
        cs@.subrange(r.0 as int, r.1 as int) == trim_spec(cs@),
        cs@.subrange(r.0 as int, cs.len() as int) == trim_start_spec(cs@),
{
    let lo = skip_whitespace(cs, 0);
    assert(cs@.skip(0) =~= cs@);
    assert(cs@.skip(lo as int) =~= cs@.subrange(lo as int, cs.len() as int));
    let mut hi = cs.len();
    while hi > lo && char_is_whitespace(cs[hi - 1])
        invariant
            lo <= hi <= cs.len(),
            trim_end_spec(cs@.subrange(lo as int, hi as int)) == trim_end_spec(
                cs@.subrange(lo as int, cs.len() as int),
            ),
        decreases hi,
    {
        proof {
            lemma_trim_end_take(cs@, lo as int, hi as int);
        }
        hi -= 1;
    }
    proof {
        if hi == lo {
            assert(cs@.subrange(lo as int, hi as int) =~= Seq::<char>::empty());
        }
    }
    (lo, hi)
}

/// `str::trim`.
pub fn trim(s: &str) -> (r: String)
    ensures
        r@ == trim_spec(s@),
{
    let cs = chars_of(s);
    let (lo, hi) = trim_bounds(&cs);
    string_of_range(&cs, lo, hi)
}

/// Whether `p` occurs in `s` at index `i`.
pub fn occurs_at_exec(s: &Vec<char>, p: &Vec<char>, i: usize) -> (r: bool)
    ensures
        r == occurs_at(s@, p@, i as int),
{
    if i > s.len() || p.len() > s.len() - i {
        return false;
    }
    let mut k: usize = 0;
    while k < p.len()
        invariant
            i + p.len() <= s.len(),
            k <= p.len(),
            forall|j: int| 0 <= j < k ==> s@[i + j] == p@[j],
        decreases p.len() - k,
    {
        if s[i + k] != p[k] {
            proof {
                assert(s@.subrange(i as int, i + p.len())[k as int] != p@[k as int]);
            }
            return false;
        }
        k += 1;
    }
    assert(s@.subrange(i as int, i + p.len()) =~= p@);
    true
}

/// Whether `p` occurs anywhere in `s`.
pub fn contains_chars(s: &Vec<char>, p: &Vec<char>) -> (r: bool)
    ensures
        r == contains_spec(s@, p@),
{
    if p.len() == 0 {
        assert(s@.subrange(0, 0) =~= p@);
        assert(occurs_at(s@, p@, 0));
        return true;
    }
    if p.len() > s.len() {
        return false;
    }
    let mut i: usize = 0;
    while i <= s.len() - p.len()
        invariant
            1 <= p.len() <= s.len(),
            i <= s.len() - p.len() + 1,
            forall|j: int| 0 <= j < i ==> !occurs_at(s@, p@, j),
        decreases s.len() + 1 - i,
    {
        if occurs_at_exec(s, p, i) {
            return true;
        }
        i += 1;
    }
    assert forall|j: int| !occurs_at(s@, p@, j) by {
        if 0 <= j && j < i {
        }
    }
    false
}

/// Whether `s` begins, at index `from`, with `p`.
pub fn starts_with_at(s: &Vec<char>, from: usize, p: &Vec<char>) -> (r: bool)
    requires
        from <= s.len(),
    ensures
        r == starts_with_spec(s@.skip(from as int), p@),
{
    let r = occurs_at_exec(s, p, from);
    proof {
        if p@.len() <= s@.skip(from as int).len() {
            assert(s@.skip(from as int).subrange(0, p@.len() as int) =~= s@.subrange(
                from as int,
                from + p@.len(),
            ));
        }
    }
    r
}

/// `s.starts_with(p)`.
pub fn starts_with(s: &str, p: &str) -> (r: bool)
    ensures
        r == starts_with_spec(s@, p@),
{
    let cs = chars_of(s);
    let ps = chars_of(p);
    proof {
        assert(cs@.skip(0) =~= cs@);
    }
    starts_with_at(&cs, 0, &ps)
}

/// `str::lines`: the lines of `s`, without their line endings.
pub fn lines(s: &str) -> (r: Vec<String>)
    ensures
        views(r@) == lines_spec(s@),
{
    let cs = chars_of(s);
    let mut out: Vec<String> = Vec::new();
    let mut cur: Vec<char> = Vec::new();
    let mut i: usize = 0;
    assert(cs@.skip(0) =~= cs@);
    assert(views(out@) =~= Seq::<Seq<char>>::empty());
    while i < cs.len()
        invariant
            i <= cs.len(),
            views(out@) + lines_acc(cs@.skip(i as int), cur@) == lines_spec(cs@),
        decreases cs.len() - i,
    {
        assert(cs@.skip(i as int).drop_first() =~= cs@.skip(i + 1));
        if cs[i] == '\n' {
            let mut seg = cur;
            if seg.len() > 0 && seg[seg.len() - 1] == '\r' {
                seg.pop();
            }
            assert(seg@ == strip_cr(cur@)) by {
                if cur@.len() > 0 && cur@.last() == '\r' {
                    assert(seg@ =~= cur@.drop_last());
                }
            }
            let line = string_from_chars(&seg);
            let ghost old_out = views(out@);
            out.push(line);
            assert(views(out@) =~= old_out.push(line@));
            assert(views(out@) + lines_acc(cs@.skip(i + 1), seq![]) =~= old_out + (seq![
                strip_cr(cur@),
            ] + lines_acc(cs@.skip(i + 1), seq![])));
            cur = Vec::new();
        } else {
            cur.push(cs[i]);
        }
        i += 1;
    }
    assert(cs@.skip(i as int) =~= Seq::<char>::empty());
    if cur.len() > 0 {
        let line = string_from_chars(&cur);
        let ghost old_out = views(out@);
        out.push(line);
        assert(views(out@) =~= old_out.push(line@));
        assert(views(out@) =~= old_out + seq![cur@]);
    } else {
        assert(views(out@) =~= views(out@) + Seq::<Seq<char>>::empty());
    }
    proof {
        assert(cs@ == s@);
    }
    out
}

/// The number of bytes of the UTF-8 encoding of `cs` (`str::len` of the
/// same text).
pub fn utf8_len(cs: &Vec<char>) -> (n: u128)
    ensures
        n == encode_utf8(cs@).len(),
{
    let mut n: u128 = 0;
    let mut i = cs.len();
    assert(cs@.skip(i as int) =~= Seq::<char>::empty());
    while i > 0
        invariant
            i <= cs.len(),
            n == encode_utf8(cs@.skip(i as int)).len(),
            n <= 4 * (cs.len() - i),
        decreases i,
    {
        i -= 1;
        let c = cs[i];
        let v = c as u32;
        let w: u128 = if v <= 0x7F {
            1
        } else if v <= 0x7FF {
            2
        } else if v <= 0xFFFF {
            3
        } else {
            4
        };
        assert(cs@.skip(i as int).drop_first() =~= cs@.skip(i + 1));
        assert(cs@.skip(i as int)[0] == c);
        proof {
            char_is_scalar(c);
        }
        assert(encode_scalar(v).len() == w);
        n = n + w;
    }
    assert(cs@.skip(0) =~= cs@);
    n
}

/// Whether two strings hold the same characters.
pub fn same_text(a: &str, b: &str) -> (r: bool)
    ensures
        r == (a@ == b@),
{
    let x = chars_of(a);
    let y = chars_of(b);
    if x.len() != y.len() {
        return false;
    }
    let mut i: usize = 0;
    while i < x.len()
        invariant
            x@ == a@,
            y@ == b@,
            x.len() == y.len(),
            i <= x.len(),
            forall|j: int| 0 <= j < i ==> x@[j] == y@[j],
        decreases x.len() - i,
    {
        if x[i] != y[i] {
            proof {
                if a@ == b@ {
                    assert(x@[i as int] == y@[i as int]);
                }
            }
            return false;
        }
        i += 1;
    }
    assert(x@ =~= y@);
    true
}

/// A copy of `s` followed by `t`.
pub fn concat2(s: &str, t: &str) -> (r: String)
    ensures
        r@ == s@ + t@,
{
    let mut r = s.to_owned();
    r.append(t);
    r
}

/// A copy of `s`, `t` and `u`, one after the other.
pub fn concat3(s: &str, t: &str, u: &str) -> (r: String)
    ensures
        r@ == s@ + t@ + u@,
{
    let mut r = s.to_owned();
    r.append(t);
    r.append(u);
    r
}

} // verus!
