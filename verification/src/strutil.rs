//! Verified string helpers: ASCII case folding, substring search, and
//! case-insensitive matching, with their specification-level counterparts.

use vstd::prelude::*;
use vstd::string::*;

verus! {

/// Code point of a character after ASCII lower-case folding: upper-case
/// ASCII letters are shifted to their lower-case form, everything else is
/// left as it is.
pub open spec fn lower_code(c: char) -> u32 {
    if 65 <= c as u32 && c as u32 <= 90 {
        (c as u32 + 32) as u32
    } else {
        c as u32
    }
}

/// Two character sequences are equal up to ASCII case.
pub open spec fn eq_ignore_ascii_case_seq(a: Seq<char>, b: Seq<char>) -> bool {
    &&& a.len() == b.len()
    &&& forall|i: int| 0 <= i < a.len() ==> #[trigger] lower_code(a[i]) == lower_code(b[i])
}

/// The needle `n` occurs in `h` starting at position `i`.
pub open spec fn match_at(h: Seq<char>, n: Seq<char>, i: int) -> bool {
    &&& 0 <= i
    &&& i + n.len() <= h.len()
    &&& h.subrange(i, i + n.len()) == n
}

/// The needle `n` occurs somewhere in `h`.
pub open spec fn contains_seq(h: Seq<char>, n: Seq<char>) -> bool {
    exists|i: int| match_at(h, n, i)
}

/// The needle `n` occurs in `h` at position `i`, up to ASCII case.
pub open spec fn match_at_ci(h: Seq<char>, n: Seq<char>, i: int) -> bool {
    &&& 0 <= i
    &&& i + n.len() <= h.len()
    &&& forall|j: int| 0 <= j < n.len() ==> #[trigger] lower_code(h[i + j]) == lower_code(n[j])
}

/// The needle `n` occurs somewhere in `h`, up to ASCII case.
pub open spec fn contains_seq_ci(h: Seq<char>, n: Seq<char>) -> bool {
    exists|i: int| match_at_ci(h, n, i)
}

/// Concatenation of two string slices into an owned string.
pub fn concat_str(a: &str, b: &str) -> (r: String)
    ensures
        r@ == a@ + b@,
{
    let mut s = a.to_owned();
    s.append(b);
    s
}

/// An ASCII whitespace character.
pub open spec fn is_ascii_space(c: char) -> bool {
    c == ' ' || c == '\t' || c == '\n' || c == '\r' || c as u32 == 11 || c as u32 == 12
}

/// The sequence with its leading ASCII whitespace removed.
pub open spec fn trim_start_spec(s: Seq<char>) -> Seq<char>
    decreases s.len(),
{
    if s.len() > 0 && is_ascii_space(s[0]) {
        trim_start_spec(s.skip(1))
    } else {
        s
    }
}

/// The sequence with its trailing ASCII whitespace removed.
pub open spec fn trim_end_spec(s: Seq<char>) -> Seq<char>
    decreases s.len(),
{
    if s.len() > 0 && is_ascii_space(s[s.len() - 1]) {
        trim_end_spec(s.drop_last())
    } else {
        s
    }
}

/// The sequence with leading and trailing ASCII whitespace removed.
pub open spec fn trim_spec(s: Seq<char>) -> Seq<char> {
    trim_end_spec(trim_start_spec(s))
}

/// Index of the first line break, or the length when there is none.
pub open spec fn first_newline(s: Seq<char>) -> int
    decreases s.len(),
{
    if s.len() == 0 {
        0
    } else if s[0] == '\n' {
        0
    } else {
        1 + first_newline(s.skip(1))
    }
}

pub proof fn lemma_first_newline_bound(s: Seq<char>)
    ensures
        0 <= first_newline(s) <= s.len(),
        forall|k: int| 0 <= k < first_newline(s) ==> s[k] != '\n',
        first_newline(s) < s.len() ==> s[first_newline(s)] == '\n',
    decreases s.len(),
{
    if s.len() > 0 && s[0] != '\n' {
        lemma_first_newline_bound(s.skip(1));
        assert forall|k: int| 0 <= k < first_newline(s) implies s[k] != '\n' by {
            if k > 0 {
                assert(s[k] == s.skip(1)[k - 1]);
            }
        }
    }
}

/// The first line, up to ASCII whitespace, that is not blank; `None` when
/// every line is blank.
pub open spec fn first_nonblank_line_spec(s: Seq<char>) -> Option<Seq<char>>
    decreases s.len(),
{
    let n = first_newline(s);
    let line = s.take(n);
    if trim_spec(line).len() > 0 {
        Some(trim_spec(line))
    } else if n >= s.len() {
        None
    } else {
        proof {
            lemma_first_newline_bound(s);
        }
        first_nonblank_line_spec(s.skip(n + 1))
    }
}

proof fn lemma_trim_start_is(s: Seq<char>, lo: int)
    requires
        0 <= lo <= s.len(),
        forall|k: int| 0 <= k < lo ==> is_ascii_space(s[k]),
        lo < s.len() ==> !is_ascii_space(s[lo]),
    ensures
        trim_start_spec(s) == s.skip(lo),
    decreases lo,
{
    if lo == 0 {
        assert(s.skip(0) =~= s);
    } else {
        lemma_trim_start_is(s.skip(1), lo - 1);
        assert(s.skip(1).skip(lo - 1) =~= s.skip(lo));
    }
}

proof fn lemma_trim_end_is(s: Seq<char>, hi: int)
    requires
        0 <= hi <= s.len(),
        forall|k: int| hi <= k < s.len() ==> is_ascii_space(s[k]),
        hi > 0 ==> !is_ascii_space(s[hi - 1]),
    ensures
        trim_end_spec(s) == s.take(hi),
    decreases s.len() - hi,
{
    if hi == s.len() {
        assert(s.take(hi) =~= s);
    } else {
        lemma_trim_end_is(s.drop_last(), hi);
        assert(s.drop_last().take(hi) =~= s.take(hi));
    }
}

fn is_space_exec(c: char) -> (r: bool)
    ensures
        r == is_ascii_space(c),
{
    let u = c as u32;
    u == 32 || u == 9 || u == 10 || u == 13 || u == 11 || u == 12
}

/// Removes leading and trailing ASCII whitespace.
pub fn trim_ascii(s: &str) -> (r: &str)
    ensures
        r@ == trim_spec(s@),
{
    let len = s.unicode_len();
    let mut lo: usize = 0;
    while lo < len
        invariant
            len == s@.len(),
            lo <= len,
            forall|k: int| 0 <= k < lo ==> is_ascii_space(s@[k]),
        ensures
            lo <= len,
            forall|k: int| 0 <= k < lo ==> is_ascii_space(s@[k]),
            lo < len ==> !is_ascii_space(s@[lo as int]),
        decreases len - lo,
    {
        if !is_space_exec(s.get_char(lo)) {
            break ;
        }
        lo = lo + 1;
    }
    proof {
        lemma_trim_start_is(s@, lo as int);
    }
    if lo == len {
        let r = s.substring_char(lo, lo);
        proof {
            assert(s@.skip(lo as int) =~= s@.subrange(lo as int, lo as int));
        }
        return r;
    }
    let mut hi: usize = len;
    while hi > lo
        invariant
            len == s@.len(),
            lo <= hi <= len,
            forall|k: int| hi <= k < len ==> is_ascii_space(s@[k]),
        ensures
            lo <= hi <= len,
            forall|k: int| hi <= k < len ==> is_ascii_space(s@[k]),
            hi > lo ==> !is_ascii_space(s@[hi - 1]),
        decreases hi - lo,
    {
        if !is_space_exec(s.get_char(hi - 1)) {
            break ;
        }
        hi = hi - 1;
    }
    assert(hi > lo);
    let r = s.substring_char(lo, hi);
    proof {
        let t = s@.skip(lo as int);
        lemma_trim_end_is(t, hi - lo);
        assert(t.take(hi - lo) =~= s@.subrange(lo as int, hi as int));
    }
    r
}

/// Finds the first line break, or the string's length when there is none.
fn find_newline(s: &str) -> (r: usize)
    ensures
        r == first_newline(s@),
{
    let len = s.unicode_len();
    let mut i: usize = 0;
    while i < len
        invariant
            len == s@.len(),
            i <= len,
            forall|k: int| 0 <= k < i ==> s@[k] != '\n',
        ensures
            i <= len,
            forall|k: int| 0 <= k < i ==> s@[k] != '\n',
            i < len ==> s@[i as int] == '\n',
        decreases len - i,
    {
        if s.get_char(i) == '\n' {
            break ;
        }
        i = i + 1;
    }
    proof {
        lemma_first_newline_is(s@, i as int);
    }
    i
}

proof fn lemma_first_newline_is(s: Seq<char>, i: int)
    requires
        0 <= i <= s.len(),
        forall|k: int| 0 <= k < i ==> s[k] != '\n',
        i < s.len() ==> s[i] == '\n',
    ensures
        first_newline(s) == i,
    decreases i,
{
    if i > 0 {
        lemma_first_newline_is(s.skip(1), i - 1);
    }
}

/// The first line that is not blank, trimmed of ASCII whitespace; `None`
/// when every line is blank.
pub fn first_nonblank_line(s: &str) -> (r: Option<String>)
    ensures
        match r {
            Some(line) => first_nonblank_line_spec(s@) == Some(line@),
            None => first_nonblank_line_spec(s@) == None::<Seq<char>>,
        },
    decreases s@.len(),
{
    let len = s.unicode_len();
    let n = find_newline(s);
    proof {
        lemma_first_newline_bound(s@);
    }
    let line = s.substring_char(0, n);
    proof {
        assert(s@.subrange(0, n as int) =~= s@.take(n as int));
    }
    let trimmed = trim_ascii(line);
    if trimmed.unicode_len() > 0 {
        Some(trimmed.to_owned())
    } else if n >= len {
        None
    } else {
        proof {
            lemma_first_newline_bound(s@);
        }
        let rest = s.substring_char(n + 1, len);
        proof {
            assert(s@.subrange(n + 1, len as int) =~= s@.skip(n + 1));
        }
        first_nonblank_line(rest)
    }
}

/// Lexicographic order on character sequences, by Unicode scalar value:
/// `a` comes no later than `b`.
pub open spec fn lex_le(a: Seq<char>, b: Seq<char>) -> bool
    decreases a.len(),
{
    if a.len() == 0 {
        true
    } else if b.len() == 0 {
        false
    } else if (a[0] as u32) < (b[0] as u32) {
        true
    } else if (a[0] as u32) > (b[0] as u32) {
        false
    } else {
        lex_le(a.skip(1), b.skip(1))
    }
}

pub proof fn lemma_lex_le_total(a: Seq<char>, b: Seq<char>)
    ensures
        lex_le(a, b) || lex_le(b, a),
    decreases a.len(),
{
    if a.len() > 0 && b.len() > 0 && a[0] as u32 == b[0] as u32 {
        lemma_lex_le_total(a.skip(1), b.skip(1));
    }
}

pub proof fn lemma_lex_le_trans(a: Seq<char>, b: Seq<char>, c: Seq<char>)
    requires
        lex_le(a, b),
        lex_le(b, c),
    ensures
        lex_le(a, c),
    decreases a.len(),
{
    if a.len() > 0 {
        if a[0] as u32 == b[0] as u32 && b[0] as u32 == c[0] as u32 {
            lemma_lex_le_trans(a.skip(1), b.skip(1), c.skip(1));
        }
    }
}

pub proof fn lemma_lex_le_antisym(a: Seq<char>, b: Seq<char>)
    requires
        lex_le(a, b),
        lex_le(b, a),
    ensures
        a == b,
    decreases a.len(),
{
    if a.len() == 0 {
        assert(a =~= b);
    } else {
        lemma_lex_le_antisym(a.skip(1), b.skip(1));
        vstd::utf8::char_u32_cast(a[0], a[0] as u32);
        vstd::utf8::char_u32_cast(b[0], b[0] as u32);
        assert(a[0] as u32 == b[0] as u32);
        assert(a[0] == b[0]);
        assert(a.skip(1) == b.skip(1));
        assert(a.len() == b.len());
        assert forall|i: int| 0 <= i < a.len() implies a[i] == b[i] by {
            if i > 0 {
                assert(a[i] == a.skip(1)[i - 1]);
                assert(b[i] == b.skip(1)[i - 1]);
            }
        }
        assert(a =~= b);
    }
}

/// Lexicographic comparison of two strings: whether `a` comes no later
/// than `b` in the order by Unicode scalar value.
pub fn str_le(a: &str, b: &str) -> (r: bool)
    ensures
        r == lex_le(a@, b@),
{
    let alen = a.unicode_len();
    let blen = b.unicode_len();
    proof {
        assert(a@.skip(0) =~= a@);
        assert(b@.skip(0) =~= b@);
    }
    let mut i: usize = 0;
    while i < alen && i < blen
        invariant
            alen == a@.len(),
            blen == b@.len(),
            i <= alen,
            i <= blen,
            lex_le(a@, b@) == lex_le(a@.skip(i as int), b@.skip(i as int)),
            lex_le(b@, a@) == lex_le(b@.skip(i as int), a@.skip(i as int)),
        decreases alen - i,
    {
        let ca = a.get_char(i);
        let cb = b.get_char(i);
        if (ca as u32) < (cb as u32) {
            return true;
        }
        if (ca as u32) > (cb as u32) {
            return false;
        }
        proof {
            assert(a@.skip(i as int).skip(1) =~= a@.skip(i + 1));
            assert(b@.skip(i as int).skip(1) =~= b@.skip(i + 1));
        }
        i = i + 1;
    }
    if i >= alen {
        proof {
            assert(a@.skip(i as int).len() == 0);
        }
        true
    } else {
        proof {
            assert(b@.skip(i as int).len() == 0);
            assert(a@.skip(i as int).len() > 0);
        }
        false
    }
}

fn lower_code_exec(c: char) -> (r: u32)
    ensures
        r == lower_code(c),
{
    let u = c as u32;
    if 65 <= u && u <= 90 {
        u + 32
    } else {
        u
    }
}

/// Equality of two strings up to ASCII case.
pub fn eq_ignore_ascii_case(a: &str, b: &str) -> (r: bool)
    ensures
        r == eq_ignore_ascii_case_seq(a@, b@),
{
    let alen = a.unicode_len();
    let blen = b.unicode_len();
    if alen != blen {
        return false;
    }
    let mut i: usize = 0;
    while i < alen
        invariant
            alen == a@.len(),
            blen == b@.len(),
            alen == blen,
            i <= alen,
            forall|j: int| 0 <= j < i ==> #[trigger] lower_code(a@[j]) == lower_code(b@[j]),
        decreases alen - i,
    {
        let ca = a.get_char(i);
        let cb = b.get_char(i);
        if lower_code_exec(ca) != lower_code_exec(cb) {
            assert(lower_code(a@[i as int]) != lower_code(b@[i as int]));
            return false;
        }
        i = i + 1;
    }
    true
}

fn match_at_exec(h: &str, n: &str, i: usize) -> (r: bool)
    requires
        i + n@.len() <= h@.len(),
        h@.len() <= usize::MAX,
    ensures
        r == match_at(h@, n@, i as int),
{
    let nlen = n.unicode_len();
    let mut j: usize = 0;
    while j < nlen
        invariant
            nlen == n@.len(),
            i + nlen <= h@.len() <= usize::MAX,
            j <= nlen,
            forall|k: int| 0 <= k < j ==> h@[i + k] == n@[k],
        decreases nlen - j,
    {
        if h.get_char(i + j) != n.get_char(j) {
            assert(h@.subrange(i as int, i + n@.len())[j as int] != n@[j as int]);
            return false;
        }
        j = j + 1;
    }
    proof {
        assert(h@.subrange(i as int, i + n@.len()) =~= n@);
    }
    true
}

/// Whether the needle `n` occurs in `h` as a contiguous substring.
pub fn contains_str(h: &str, n: &str) -> (r: bool)
    ensures
        r == contains_seq(h@, n@),
{
    let hlen = h.unicode_len();
    let nlen = n.unicode_len();
    if nlen > hlen {
        return false;
    }
    if nlen == 0 {
        proof {
            assert(h@.subrange(0, 0 + n@.len() as int) =~= n@);
            assert(match_at(h@, n@, 0));
        }
        return true;
    }
    let mut i: usize = 0;
    while i <= hlen - nlen
        invariant
            hlen == h@.len(),
            nlen == n@.len(),
            0 < nlen <= hlen,
            i <= hlen - nlen + 1,
            forall|k: int| 0 <= k < i ==> !match_at(h@, n@, k),
        decreases hlen - nlen + 1 - i,
    {
        if match_at_exec(h, n, i) {
            return true;
        }
        i = i + 1;
    }
    false
}

fn match_at_ci_exec(h: &str, n: &str, i: usize) -> (r: bool)
    requires
        i + n@.len() <= h@.len(),
        h@.len() <= usize::MAX,
    ensures
        r == match_at_ci(h@, n@, i as int),
{
    let nlen = n.unicode_len();
    let mut j: usize = 0;
    while j < nlen
        invariant
            nlen == n@.len(),
            i + nlen <= h@.len() <= usize::MAX,
            j <= nlen,
            forall|k: int| 0 <= k < j ==> #[trigger] lower_code(h@[i + k]) == lower_code(n@[k]),
        decreases nlen - j,
    {
        let ch = h.get_char(i + j);
        let cn = n.get_char(j);
        if lower_code_exec(ch) != lower_code_exec(cn) {
            assert(lower_code(h@[i + j as int]) != lower_code(n@[j as int]));
            return false;
        }
        j = j + 1;
    }
    true
}

/// Whether the needle `n` occurs in `h` as a contiguous substring, comparing
/// characters up to ASCII case.
pub fn contains_str_ci(h: &str, n: &str) -> (r: bool)
    ensures
        r == contains_seq_ci(h@, n@),
{
    let hlen = h.unicode_len();
    let nlen = n.unicode_len();
    if nlen > hlen {
        return false;
    }
    if nlen == 0 {
        assert(match_at_ci(h@, n@, 0));
        return true;
    }
    let mut i: usize = 0;
    while i <= hlen - nlen
        invariant
            hlen == h@.len(),
            nlen == n@.len(),
            0 < nlen <= hlen,
            i <= hlen - nlen + 1,
            forall|k: int| 0 <= k < i ==> !match_at_ci(h@, n@, k),
        decreases hlen - nlen + 1 - i,
    {
        if match_at_ci_exec(h, n, i) {
            return true;
        }
        i = i + 1;
    }
    false
}

} // verus!
