//! Verified helpers over `&str` and `Seq<char>`: whitespace trimming,
//! equality, lexicographic order and decimal digit strings.

use vstd::prelude::*;
use vstd::string::StrSliceExecFns;

verus! {

/// The characters with the Unicode White_Space property, as
/// `char::is_whitespace` recognises them.
pub open spec fn is_space(c: char) -> bool {
    ||| c == ' '
    ||| ('\u{09}' <= c && c <= '\u{0D}')
    ||| c == '\u{85}'
    ||| c == '\u{A0}'
    ||| c == '\u{1680}'
    ||| ('\u{2000}' <= c && c <= '\u{200A}')
    ||| c == '\u{2028}'
    ||| c == '\u{2029}'
    ||| c == '\u{202F}'
    ||| c == '\u{205F}'
    ||| c == '\u{3000}'
}

/// Executable mirror of [`is_space`].
pub fn is_space_char(c: char) -> (r: bool)
    ensures
        r == is_space(c),
{
    c == ' ' || ('\u{09}' <= c && c <= '\u{0D}') || c == '\u{85}' || c == '\u{A0}' || c
        == '\u{1680}' || ('\u{2000}' <= c && c <= '\u{200A}') || c == '\u{2028}' || c
        == '\u{2029}' || c == '\u{202F}' || c == '\u{205F}' || c == '\u{3000}'
}

// ---------------------------------------------------------------------------
// Trimming
// ---------------------------------------------------------------------------

/// `s` without leading whitespace.
pub open spec fn trim_front(s: Seq<char>) -> Seq<char>
    decreases s.len(),
{
    if s.len() > 0 && is_space(s[0]) {
        trim_front(s.skip(1))
    } else {
        s
    }
}

/// `s` without trailing whitespace.
pub open spec fn trim_back(s: Seq<char>) -> Seq<char>
    decreases s.len(),
{
    if s.len() > 0 && is_space(s.last()) {
        trim_back(s.drop_last())
    } else {
        s
    }
}

/// `s` without leading or trailing whitespace.
pub open spec fn spec_trim(s: Seq<char>) -> Seq<char> {
    trim_back(trim_front(s))
}

/// If the first `i` characters are whitespace and the one at `i` (if any) is
/// not, trimming the front drops exactly those `i` characters.
pub proof fn lemma_trim_front_at(s: Seq<char>, i: int)
    requires
        0 <= i <= s.len(),
        forall|k: int| 0 <= k < i ==> is_space(#[trigger] s[k]),
        i == s.len() || !is_space(s[i]),
    ensures
        trim_front(s) == s.skip(i),
    decreases i,
{
    if i == 0 {
        assert(s.skip(0) =~= s);
    } else {
        lemma_trim_front_at(s.skip(1), i - 1);
        assert(s.skip(1).skip(i - 1) =~= s.skip(i));
    }
}

/// If the characters after `j` are whitespace and the one at `j - 1` (if any)
/// is not, trimming the back keeps exactly the first `j` characters.
pub proof fn lemma_trim_back_at(s: Seq<char>, j: int)
    requires
        0 <= j <= s.len(),
        forall|k: int| j <= k < s.len() ==> is_space(#[trigger] s[k]),
        j == 0 || !is_space(s[j - 1]),
    ensures
        trim_back(s) == s.subrange(0, j),
    decreases s.len() - j,
{
    if j == s.len() {
        assert(s.subrange(0, j) =~= s);
    } else {
        assert(s.drop_last() =~= s.subrange(0, s.len() - 1));
        lemma_trim_back_at(s.drop_last(), j);
        assert(s.drop_last().subrange(0, j) =~= s.subrange(0, j));
    }
}

/// Returns the slice of `s` with leading and trailing whitespace removed.
pub fn trim_of<'a>(s: &'a str) -> (r: &'a str)
    ensures
        r@ == spec_trim(s@),
{
    let len = s.unicode_len();
    let mut i: usize = 0;
    while i < len && is_space_char(s.get_char(i))
        invariant
            0 <= i <= len,
            len == s@.len(),
            forall|k: int| 0 <= k < i ==> is_space(#[trigger] s@[k]),
        decreases len - i,
    {
        i = i + 1;
    }
    proof {
        lemma_trim_front_at(s@, i as int);
    }
    let mut j: usize = len;
    while j > i && is_space_char(s.get_char(j - 1))
        invariant
            i <= j <= len,
            len == s@.len(),
            forall|k: int| j <= k < len ==> is_space(#[trigger] s@[k]),
        decreases j,
    {
        j = j - 1;
    }
    let r = s.substring_char(i, j);
    proof {
        let f = s@.skip(i as int);
        if j > i {
            lemma_trim_back_at(f, j - i);
        } else {
            assert(forall|k: int| 0 <= k < f.len() ==> is_space(#[trigger] f[k]));
            lemma_trim_back_at(f, 0);
        }
        assert(f.subrange(0, j - i) =~= s@.subrange(i as int, j as int));
    }
    r
}

/// Returns the slice of `s` with leading whitespace removed.
pub fn trim_start_of<'a>(s: &'a str) -> (r: &'a str)
    ensures
        r@ == trim_front(s@),
{
    let len = s.unicode_len();
    let mut i: usize = 0;
    while i < len && is_space_char(s.get_char(i))
        invariant
            0 <= i <= len,
            len == s@.len(),
            forall|k: int| 0 <= k < i ==> is_space(#[trigger] s@[k]),
        decreases len - i,
    {
        i = i + 1;
    }
    proof {
        lemma_trim_front_at(s@, i as int);
    }
    s.substring_char(i, len)
}

/// Returns the slice of `s` with trailing whitespace removed.
pub fn trim_end_of<'a>(s: &'a str) -> (r: &'a str)
    ensures
        r@ == trim_back(s@),
{
    let len = s.unicode_len();
    let mut j: usize = len;
    while j > 0 && is_space_char(s.get_char(j - 1))
        invariant
            0 <= j <= len,
            len == s@.len(),
            forall|k: int| j <= k < len ==> is_space(#[trigger] s@[k]),
        decreases j,
    {
        j = j - 1;
    }
    proof {
        lemma_trim_back_at(s@, j as int);
    }
    let r = s.substring_char(0, j);
    proof {
        assert(r@ =~= s@.subrange(0, j as int));
    }
    r
}

// ---------------------------------------------------------------------------
// Searching
// ---------------------------------------------------------------------------

/// Index of the first occurrence of `c` in `s`, or `s.len()` if absent.
pub open spec fn first_idx(s: Seq<char>, c: char) -> int
    decreases s.len(),
{
    if s.len() == 0 {
        0
    } else if s[0] == c {
        0
    } else {
        1 + first_idx(s.skip(1), c)
    }
}

/// Characterisation of [`first_idx`] by position.
pub proof fn lemma_first_idx_at(s: Seq<char>, c: char, i: int)
    requires
        0 <= i <= s.len(),
        forall|k: int| 0 <= k < i ==> s[k] != c,
        i == s.len() || s[i] == c,
    ensures
        first_idx(s, c) == i,
    decreases i,
{
    if i > 0 {
        lemma_first_idx_at(s.skip(1), c, i - 1);
    }
}

/// Finds the first occurrence of `c` in `s` at or after `from`.
pub fn find_char_from(s: &str, from: usize, c: char) -> (r: usize)
    requires
        from <= s@.len(),
    ensures
        from + first_idx(s@.skip(from as int), c) == r,
        r <= s@.len(),
        r < s@.len() ==> s@[r as int] == c,
        forall|k: int| from <= k < r ==> s@[k] != c,
{
    let len = s.unicode_len();
    let mut i: usize = from;
    while i < len && s.get_char(i) != c
        invariant
            from <= i <= len,
            len == s@.len(),
            forall|k: int| from <= k < i ==> s@[k] != c,
        decreases len - i,
    {
        i = i + 1;
    }
    proof {
        let t = s@.skip(from as int);
        assert forall|k: int| 0 <= k < i - from implies t[k] != c by {
            assert(t[k] == s@[k + from]);
        }
        lemma_first_idx_at(t, c, i - from);
    }
    i
}

/// Index of the first whitespace character in `s`, or `s.len()` if none.
pub open spec fn first_space_idx(s: Seq<char>) -> int
    decreases s.len(),
{
    if s.len() == 0 {
        0
    } else if is_space(s[0]) {
        0
    } else {
        1 + first_space_idx(s.skip(1))
    }
}

/// Characterisation of [`first_space_idx`] by position.
pub proof fn lemma_first_space_idx_at(s: Seq<char>, i: int)
    requires
        0 <= i <= s.len(),
        forall|k: int| 0 <= k < i ==> !is_space(#[trigger] s[k]),
        i == s.len() || is_space(s[i]),
    ensures
        first_space_idx(s) == i,
    decreases i,
{
    if i > 0 {
        lemma_first_space_idx_at(s.skip(1), i - 1);
    }
}

/// Finds the first whitespace character in `s`.
pub fn find_space(s: &str) -> (r: usize)
    ensures
        r == first_space_idx(s@),
        r <= s@.len(),
        r < s@.len() ==> is_space(s@[r as int]),
        forall|k: int| 0 <= k < r ==> !is_space(#[trigger] s@[k]),
{
    let len = s.unicode_len();
    let mut i: usize = 0;
    while i < len && !is_space_char(s.get_char(i))
        invariant
            0 <= i <= len,
            len == s@.len(),
            forall|k: int| 0 <= k < i ==> !is_space(#[trigger] s@[k]),
        decreases len - i,
    {
        i = i + 1;
    }
    proof {
        lemma_first_space_idx_at(s@, i as int);
    }
    i
}

/// Index of the first occurrence of the two-character pattern `c1 c2`
/// in `s`, or `s.len()` if absent.
pub open spec fn first_idx2(s: Seq<char>, c1: char, c2: char) -> int
    decreases s.len(),
{
    if s.len() < 2 {
        s.len() as int
    } else if s[0] == c1 && s[1] == c2 {
        0
    } else {
        1 + first_idx2(s.skip(1), c1, c2)
    }
}

/// Characterisation of [`first_idx2`] by position.
pub proof fn lemma_first_idx2_at(s: Seq<char>, c1: char, c2: char, i: int)
    requires
        0 <= i <= s.len(),
        forall|k: int| 0 <= k < i ==> !(k + 1 < s.len() && #[trigger] s[k] == c1 && s[k + 1] == c2),
        i == s.len() || (i + 1 < s.len() && s[i] == c1 && s[i + 1] == c2) || i + 1 == s.len(),
        i + 1 == s.len() ==> !(s[i] == c1 && i + 1 < s.len()),
    ensures
        i + 1 == s.len() && !(i + 1 < s.len() && s[i] == c1 && s[i + 1] == c2) ==> first_idx2(
            s,
            c1,
            c2,
        ) == s.len(),
        i + 1 < s.len() && s[i] == c1 && s[i + 1] == c2 ==> first_idx2(s, c1, c2) == i,
        i == s.len() ==> first_idx2(s, c1, c2) == s.len(),
    decreases i,
{
    if i == 0 {
    } else {
        lemma_first_idx2_at(s.skip(1), c1, c2, i - 1);
    }
}

/// Finds the first occurrence of the pattern `c1 c2` in `s`; returns
/// `s.len()` if there is none.
pub fn find_pair(s: &str, c1: char, c2: char) -> (r: usize)
    ensures
        r == first_idx2(s@, c1, c2),
        r <= s@.len(),
        r + 1 < s@.len() ==> (s@[r as int] == c1 && s@[r as int + 1] == c2),
        forall|k: int|
            0 <= k < r ==> !(k + 1 < s@.len() && #[trigger] s@[k] == c1 && s@[k + 1] == c2),
{
    let len = s.unicode_len();
    if len < 2 {
        return len;
    }
    let mut i: usize = 0;
    while i + 1 < len && !(s.get_char(i) == c1 && s.get_char(i + 1) == c2)
        invariant
            0 <= i <= len,
            len == s@.len(),
            len >= 2,
            i + 1 <= len,
            forall|k: int| 0 <= k < i ==> !(k + 1 < len && #[trigger] s@[k] == c1 && s@[k + 1] == c2),
        decreases len - i,
    {
        i = i + 1;
    }
    if i + 1 < len {
        proof {
            lemma_first_idx2_at(s@, c1, c2, i as int);
        }
        i
    } else {
        proof {
            lemma_first_idx2_at(s@, c1, c2, i as int);
        }
        len
    }
}

/// Does `s` start with `p`?
pub fn starts_with_lit(s: &str, p: &str) -> (r: bool)
    ensures
        r == (s@.len() >= p@.len() && s@.subrange(0, p@.len() as int) == p@),
{
    let slen = s.unicode_len();
    let plen = p.unicode_len();
    if slen < plen {
        return false;
    }
    let head = s.substring_char(0, plen);
    str_eq(head, p)
}

/// Does `s` end with `p`?
pub fn ends_with_lit(s: &str, p: &str) -> (r: bool)
    ensures
        r == (s@.len() >= p@.len() && s@.subrange(s@.len() - p@.len(), s@.len() as int) == p@),
{
    let slen = s.unicode_len();
    let plen = p.unicode_len();
    if slen < plen {
        return false;
    }
    let tail = s.substring_char(slen - plen, slen);
    str_eq(tail, p)
}

// ---------------------------------------------------------------------------
// Line splitting
// ---------------------------------------------------------------------------

/// Drops a single trailing carriage return, as `str::lines` does.
pub open spec fn chop_cr(s: Seq<char>) -> Seq<char> {
    if s.len() > 0 && s.last() == '\r' {
        s.drop_last()
    } else {
        s
    }
}

/// Helper for [`spec_lines`]: the remaining input `s` split into lines,
/// with `cur` the (reversed-in-time) partial line read so far.
pub open spec fn split_rec(s: Seq<char>, cur: Seq<char>) -> Seq<Seq<char>>
    decreases s.len(),
{
    if s.len() == 0 {
        if cur.len() == 0 {
            Seq::empty()
        } else {
            seq![chop_cr(cur)]
        }
    } else if s[0] == '\n' {
        seq![chop_cr(cur)] + split_rec(s.skip(1), Seq::empty())
    } else {
        split_rec(s.skip(1), cur.push(s[0]))
    }
}

/// The lines of `s`, in the manner of `str::lines`: separated by `'\n'`,
/// a trailing `'\r'` removed from each, no final empty line.
pub open spec fn spec_lines(s: Seq<char>) -> Seq<Seq<char>> {
    split_rec(s, Seq::empty())
}

/// Splits `s` into its lines.
pub fn split_lines(s: &str) -> (r: Vec<String>)
    ensures
        r@.map_values(|l: String| l@) == spec_lines(s@),
{
    let len = s.unicode_len();
    let mut out: Vec<String> = Vec::new();
    let mut start: usize = 0;
    let mut i: usize = 0;
    proof {
        assert(s@.skip(0) =~= s@);
        assert(s@.subrange(0, 0) =~= Seq::<char>::empty());
        assert(out@.map_values(|l: String| l@) =~= Seq::<Seq<char>>::empty());
    }
    while i < len
        invariant
            0 <= start <= i <= len,
            len == s@.len(),
            spec_lines(s@) == out@.map_values(|l: String| l@) + split_rec(
                s@.skip(i as int),
                s@.subrange(start as int, i as int),
            ),
        decreases len - i,
    {
        let ghost pre = out@.map_values(|l: String| l@);
        let ghost cur = s@.subrange(start as int, i as int);
        let c = s.get_char(i);
        proof {
            assert(s@.skip(i as int)[0] == s@[i as int]);
            assert(s@.skip(i as int).skip(1) =~= s@.skip(i + 1));
        }
        if c == '\n' {
            let line = if i > start && s.get_char(i - 1) == '\r' {
                s.substring_char(start, i - 1)
            } else {
                s.substring_char(start, i)
            };
            proof {
                if i > start && s@[i as int - 1] == '\r' {
                    assert(cur.len() > 0 && cur.last() == '\r');
                    assert(line@ =~= cur.drop_last());
                } else {
                    assert(line@ =~= chop_cr(cur));
                }
                assert(line@ == chop_cr(cur));
            }
            out.push(line.to_owned());
            proof {
                assert(out@.map_values(|l: String| l@) =~= pre.push(chop_cr(cur)));
                assert(pre + (seq![chop_cr(cur)] + split_rec(s@.skip(i + 1), Seq::empty()))
                    =~= pre.push(chop_cr(cur)) + split_rec(s@.skip(i + 1), Seq::empty()));
                assert(s@.subrange(i + 1, i + 1) =~= Seq::<char>::empty());
            }
            start = i + 1;
        } else {
            proof {
                assert(cur.push(s@[i as int]) =~= s@.subrange(start as int, i + 1));
            }
        }
        i = i + 1;
    }
    if start < len {
        let ghost pre = out@.map_values(|l: String| l@);
        let ghost cur = s@.subrange(start as int, len as int);
        let line = if s.get_char(len - 1) == '\r' {
            s.substring_char(start, len - 1)
        } else {
            s.substring_char(start, len)
        };
        proof {
            assert(s@.skip(len as int) =~= Seq::<char>::empty());
            if s@[len as int - 1] == '\r' {
                assert(cur.len() > 0 && cur.last() == '\r');
                assert(line@ =~= cur.drop_last());
            } else {
                assert(line@ =~= chop_cr(cur));
            }
            assert(line@ == chop_cr(cur));
        }
        out.push(line.to_owned());
        proof {
            assert(out@.map_values(|l: String| l@) =~= pre.push(chop_cr(cur)));
            assert(pre + seq![chop_cr(cur)] =~= pre.push(chop_cr(cur)));
        }
    } else {
        proof {
            assert(s@.skip(len as int) =~= Seq::<char>::empty());
            assert(s@.subrange(start as int, len as int) =~= Seq::<char>::empty());
            assert(out@.map_values(|l: String| l@) + Seq::<Seq<char>>::empty() =~= out@.map_values(
                |l: String| l@,
            ));
        }
    }
    out
}

// ---------------------------------------------------------------------------
// Equality and lexicographic order
// ---------------------------------------------------------------------------

/// Character-wise equality of two string slices.
pub fn str_eq(a: &str, b: &str) -> (r: bool)
    ensures
        r == (a@ == b@),
{
    let alen = a.unicode_len();
    let blen = b.unicode_len();
    if alen != blen {
        return false;
    }
    let mut i: usize = 0;
    while i < alen
        invariant
            0 <= i <= alen,
            alen == a@.len(),
            alen == b@.len(),
            forall|k: int| 0 <= k < i ==> a@[k] == b@[k],
        decreases alen - i,
    {
        if a.get_char(i) != b.get_char(i) {
            return false;
        }
        i = i + 1;
    }
    proof {
        assert(a@ =~= b@);
    }
    true
}

/// Lexicographic order on character sequences, by code point.
pub open spec fn lex_le(a: Seq<char>, b: Seq<char>) -> bool
    decreases a.len(),
{
    if a.len() == 0 {
        true
    } else if b.len() == 0 {
        false
    } else if (a[0] as u32) < (b[0] as u32) {
        true
    } else if (a[0] as u32) > (b[0] as u32) {
        false
    } else {
        lex_le(a.skip(1), b.skip(1))
    }
}

/// Two characters with the same code point are the same character.
pub proof fn lemma_char_inj(c: char, d: char)
    ensures
        (c as u32 == d as u32) ==> c == d,
{
}

pub proof fn lemma_lex_refl(a: Seq<char>)
    ensures
        lex_le(a, a),
    decreases a.len(),
{
    if a.len() > 0 {
        lemma_lex_refl(a.skip(1));
    }
}

pub proof fn lemma_lex_total(a: Seq<char>, b: Seq<char>)
    ensures
        lex_le(a, b) || lex_le(b, a),
    decreases a.len(),
{
    if a.len() > 0 && b.len() > 0 {
        lemma_char_inj(a[0], b[0]);
        if a[0] == b[0] {
            lemma_lex_total(a.skip(1), b.skip(1));
        }
    }
}

pub proof fn lemma_lex_antisym(a: Seq<char>, b: Seq<char>)
    requires
        lex_le(a, b),
        lex_le(b, a),
    ensures
        a == b,
    decreases a.len(),
{
    if a.len() == 0 {
        assert(b.len() == 0);
        assert(a =~= b);
    } else {
        lemma_char_inj(a[0], b[0]);
        assert(a[0] == b[0]);
        lemma_lex_antisym(a.skip(1), b.skip(1));
        assert forall|i: int| 0 <= i < a.len() implies a[i] == b[i] by {
            if i > 0 {
                assert(a.skip(1)[i - 1] == a[i]);
                assert(b.skip(1)[i - 1] == b[i]);
            }
        }
        assert(a =~= b);
    }
}

pub proof fn lemma_lex_trans(a: Seq<char>, b: Seq<char>, c: Seq<char>)
    requires
        lex_le(a, b),
        lex_le(b, c),
    ensures
        lex_le(a, c),
    decreases a.len(),
{
    if a.len() > 0 && b.len() > 0 && c.len() > 0 {
        lemma_char_inj(a[0], b[0]);
        lemma_char_inj(b[0], c[0]);
        lemma_char_inj(a[0], c[0]);
        if a[0] == b[0] && b[0] == c[0] {
            lemma_lex_trans(a.skip(1), b.skip(1), c.skip(1));
        }
    }
}

/// Decides [`lex_le`] on two string slices.
pub fn str_lex_le(a: &str, b: &str) -> (r: bool)
    ensures
        r == lex_le(a@, b@),
{
    let alen = a.unicode_len();
    let blen = b.unicode_len();
    let mut i: usize = 0;
    proof {
        assert(a@.skip(0) =~= a@);
        assert(b@.skip(0) =~= b@);
    }
    loop
        invariant
            0 <= i <= alen,
            i <= blen,
            alen == a@.len(),
            blen == b@.len(),
            lex_le(a@, b@) == lex_le(a@.skip(i as int), b@.skip(i as int)),
        decreases alen - i,
    {
        if i == alen {
            return true;
        }
        if i == blen {
            return false;
        }
        let ca = a.get_char(i);
        let cb = b.get_char(i);
        if (ca as u32) < (cb as u32) {
            return true;
        }
        if (ca as u32) > (cb as u32) {
            return false;
        }
        proof {
            assert(a@.skip(i as int).skip(1) =~= a@.skip(i + 1));
            assert(b@.skip(i as int).skip(1) =~= b@.skip(i + 1));
        }
        i = i + 1;
    }
}

// ---------------------------------------------------------------------------
// Decimal digit strings
// ---------------------------------------------------------------------------

/// The character for a single decimal digit.
pub open spec fn digit_char(d: int) -> char {
    if d == 0 {
        '0'
    } else if d == 1 {
        '1'
    } else if d == 2 {
        '2'
    } else if d == 3 {
        '3'
    } else if d == 4 {
        '4'
    } else if d == 5 {
        '5'
    } else if d == 6 {
        '6'
    } else if d == 7 {
        '7'
    } else if d == 8 {
        '8'
    } else {
        '9'
    }
}

pub open spec fn is_digit(c: char) -> bool {
    '0' <= c <= '9'
}

/// Numeric value of a decimal digit character.
pub open spec fn digit_val(c: char) -> int {
    c as int - '0' as int
}

/// The canonical decimal digit string of `n` (no leading zeros).
pub open spec fn spec_dec(n: int) -> Seq<char>
    decreases n,
{
    if n < 10 {
        seq![digit_char(n)]
    } else {
        spec_dec(n / 10).push(digit_char(n % 10))
    }
}

/// Numeric value of a digit string, most significant digit first.
pub open spec fn digits_val(s: Seq<char>) -> int
    decreases s.len(),
{
    if s.len() == 0 {
        0
    } else {
        digits_val(s.drop_last()) * 10 + digit_val(s.last())
    }
}

/// A digit character denotes its digit.
proof fn lemma_digit_char(d: int)
    requires
        0 <= d < 10,
    ensures
        digit_val(digit_char(d)) == d,
        is_digit(digit_char(d)),
        d >= 1 ==> digit_char(d) != '0',
{
}

/// The canonical digit string really denotes `n`, is non-empty, holds only
/// digits, and has no leading zero unless it is exactly "0".
pub proof fn lemma_dec_props(n: int)
    requires
        n >= 0,
    ensures
        digits_val(spec_dec(n)) == n,
        spec_dec(n).len() >= 1,
        forall|k: int| 0 <= k < spec_dec(n).len() ==> is_digit(#[trigger] spec_dec(n)[k]),
        spec_dec(n)[0] != '0' || n < 10,
    decreases n,
{
    if n < 10 {
        lemma_digit_char(n);
        let s = spec_dec(n);
        assert(s.drop_last() =~= Seq::<char>::empty());
        assert(digits_val(s) == digits_val(s.drop_last()) * 10 + digit_val(s.last()));
        assert(s.last() == digit_char(n));
        assert(digits_val(s) == n);
    } else {
        lemma_dec_props(n / 10);
        lemma_digit_char(n % 10);
        let s = spec_dec(n);
        let h = spec_dec(n / 10);
        assert(s == h.push(digit_char(n % 10)));
        assert(s.drop_last() =~= h);
        assert(s.last() == digit_char(n % 10));
        assert(digits_val(s) == digits_val(h) * 10 + digit_val(s.last()));
        assert(digits_val(s) == (n / 10) * 10 + n % 10);
        assert forall|k: int| 0 <= k < s.len() implies is_digit(#[trigger] s[k]) by {
            if k < h.len() {
                assert(s[k] == h[k]);
            } else {
                assert(s[k] == digit_char(n % 10));
            }
        }
        assert(s[0] == h[0]);
        if n / 10 < 10 {
            assert(h[0] == digit_char(n / 10));
            lemma_digit_char(n / 10);
            assert(n / 10 >= 1);
        }
    }
}

/// A one-character slice for a digit.
pub fn digit_str(d: u64) -> (r: &'static str)
    requires
        0 <= d < 10,
    ensures
        r@ == seq![digit_char(d as int)],
{
    proof {
        reveal_strlit("0");
        reveal_strlit("1");
        reveal_strlit("2");
        reveal_strlit("3");
        reveal_strlit("4");
        reveal_strlit("5");
        reveal_strlit("6");
        reveal_strlit("7");
        reveal_strlit("8");
        reveal_strlit("9");
    }
    let r = if d == 0 {
        "0"
    } else if d == 1 {
        "1"
    } else if d == 2 {
        "2"
    } else if d == 3 {
        "3"
    } else if d == 4 {
        "4"
    } else if d == 5 {
        "5"
    } else if d == 6 {
        "6"
    } else if d == 7 {
        "7"
    } else {
        "8"
    };
    let r = if d == 9 {
        "9"
    } else {
        r
    };
    proof {
        assert(r@ =~= seq![digit_char(d as int)]);
    }
    r
}

/// The canonical decimal string of `n`.
pub fn u64_to_string(n: u64) -> (r: String)
    ensures
        r@ == spec_dec(n as int),
    decreases n,
{
    if n < 10 {
        let d = digit_str(n);
        let r = d.to_owned();
        r
    } else {
        let high = u64_to_string(n / 10);
        let low = digit_str(n % 10);
        let r = high.concat(low);
        proof {
            assert(spec_dec((n / 10) as int) + seq![digit_char((n % 10) as int)] =~= spec_dec(
                n as int,
            ));
        }
        r
    }
}

} // verus!
