//! Character-level text helpers shared by the error classifier, the pair
//! parser and the search-type classifier.
//!
//! All scanning works on `char` sequences; case mapping is ASCII-only, which
//! is what the upstream vocabulary and security-type tables consist of.

use vstd::prelude::*;

verus! {

/// ASCII lowercase of one character; other characters are unchanged.
pub open spec fn spec_lower_char(c: char) -> char {
    if 'A' <= c && c <= 'Z' {
        ((c as u32) + 32) as char
    } else {
        c
    }
}

/// ASCII uppercase of one character; other characters are unchanged.
pub open spec fn spec_upper_char(c: char) -> char {
    if 'a' <= c && c <= 'z' {
        ((c as u32) - 32) as char
    } else {
        c
    }
}

/// ASCII lowercase applied to a whole sequence.
pub open spec fn spec_lower(s: Seq<char>) -> Seq<char> {
    s.map_values(|c: char| spec_lower_char(c))
}

/// ASCII uppercase applied to a whole sequence.
pub open spec fn spec_upper(s: Seq<char>) -> Seq<char> {
    s.map_values(|c: char| spec_upper_char(c))
}

/// ASCII whitespace, the class stripped by [`spec_trim`].
pub open spec fn spec_is_ws(c: char) -> bool {
    c == ' ' || c == '\t' || c == '\n' || c == '\r' || c == '\u{b}' || c == '\u{c}'
}

/// Number of leading whitespace characters of `s`.
pub open spec fn spec_trim_start_len(s: Seq<char>) -> int
    decreases s.len(),
{
    if s.len() > 0 && spec_is_ws(s[0]) {
        1 + spec_trim_start_len(s.skip(1))
    } else {
        0
    }
}

/// Number of trailing whitespace characters of `s`.
pub open spec fn spec_trim_end_len(s: Seq<char>) -> int
    decreases s.len(),
{
    if s.len() > 0 && spec_is_ws(s[s.len() - 1]) {
        1 + spec_trim_end_len(s.take(s.len() - 1))
    } else {
        0
    }
}

/// `s` with leading and trailing ASCII whitespace removed.
pub open spec fn spec_trim(s: Seq<char>) -> Seq<char> {
    let a = spec_trim_start_len(s);
    if a == s.len() {
        Seq::<char>::empty()
    } else {
        s.subrange(a, s.len() - spec_trim_end_len(s))
    }
}

/// `needle` occurs as a contiguous run somewhere in `hay`.
pub open spec fn spec_contains(hay: Seq<char>, needle: Seq<char>) -> bool {
    exists|i: int|
        0 <= i && i + needle.len() <= hay.len() && #[trigger] hay.subrange(i, i + needle.len())
            == needle
}

/// Index of the first occurrence of `c` in `s`, or `s.len()` if there is
/// none.
pub open spec fn spec_find(s: Seq<char>, c: char) -> int
    decreases s.len(),
{
    if s.len() == 0 {
        0
    } else if s[0] == c {
        0
    } else {
        1 + spec_find(s.skip(1), c)
    }
}

/// If `c` does not occur before `m` and either `m` is the end or holds `c`,
/// then `m` is exactly where [`spec_find`] points.
pub proof fn lemma_find_agrees(s: Seq<char>, c: char, m: int)
    requires
        0 <= m <= s.len(),
        forall|k: int| 0 <= k < m ==> s[k] != c,
        m < s.len() ==> s[m] == c,
    ensures
        spec_find(s, c) == m,
    decreases s.len(),
{
    if s.len() == 0 {
    } else if s[0] == c {
        assert(m == 0);
    } else {
        assert(m >= 1);
        let t = s.skip(1);
        assert forall|k: int| 0 <= k < m - 1 implies t[k] != c by {
            assert(t[k] == s[k + 1]);
        }
        if m - 1 < t.len() {
            assert(t[m - 1] == s[m]);
        }
        lemma_find_agrees(t, c, m - 1);
    }
}

/// Scans for the first occurrence of `c`, returning the string's length
/// when it does not occur.
pub fn find_char(s: &str, c: char) -> (r: usize)
    ensures
        r == spec_find(s@, c),
        r <= s@.len(),
        r < s@.len() ==> s@[r as int] == c,
        forall|k: int| 0 <= k < r ==> s@[k] != c,
{
    let n = s.unicode_len();
    let mut i: usize = 0;
    while i < n && s.get_char(i) != c
        invariant
            n == s@.len(),
            i <= n,
            forall|k: int| 0 <= k < i ==> s@[k] != c,
        decreases n - i,
    {
        i = i + 1;
    }
    proof {
        lemma_find_agrees(s@, c, i as int);
    }
    i
}

/// ASCII lowercase of one character.
pub fn lower_char(c: char) -> (r: char)
    ensures
        r == spec_lower_char(c),
{
    let u = c as u32;
    if 65 <= u && u <= 90 {
        match c {
            'A' => 'a',
            'B' => 'b',
            'C' => 'c',
            'D' => 'd',
            'E' => 'e',
            'F' => 'f',
            'G' => 'g',
            'H' => 'h',
            'I' => 'i',
            'J' => 'j',
            'K' => 'k',
            'L' => 'l',
            'M' => 'm',
            'N' => 'n',
            'O' => 'o',
            'P' => 'p',
            'Q' => 'q',
            'R' => 'r',
            'S' => 's',
            'T' => 't',
            'U' => 'u',
            'V' => 'v',
            'W' => 'w',
            'X' => 'x',
            'Y' => 'y',
            _ => 'z',
        }
    } else {
        c
    }
}

/// ASCII uppercase of one character.
pub fn upper_char(c: char) -> (r: char)
    ensures
        r == spec_upper_char(c),
{
    let u = c as u32;
    if 97 <= u && u <= 122 {
        match c {
            'a' => 'A',
            'b' => 'B',
            'c' => 'C',
            'd' => 'D',
            'e' => 'E',
            'f' => 'F',
            'g' => 'G',
            'h' => 'H',
            'i' => 'I',
            'j' => 'J',
            'k' => 'K',
            'l' => 'L',
            'm' => 'M',
            'n' => 'N',
            'o' => 'O',
            'p' => 'P',
            'q' => 'Q',
            'r' => 'R',
            's' => 'S',
            't' => 'T',
            'u' => 'U',
            'v' => 'V',
            'w' => 'W',
            'x' => 'X',
            'y' => 'Y',
            _ => 'Z',
        }
    } else {
        c
    }
}

/// Whether `c` is ASCII whitespace.
pub fn is_ws(c: char) -> (r: bool)
    ensures
        r == spec_is_ws(c),
{
    c == ' ' || c == '\t' || c == '\n' || c == '\r' || c == '\u{b}' || c == '\u{c}'
}

/// Case-insensitive containment: does the ASCII-lowercase image of `hay`
/// contain `needle`?  `needle` is expected to be lowercase already.
pub fn contains_lower(hay: &str, needle: &str) -> (r: bool)
    ensures
        r == spec_contains(spec_lower(hay@), needle@),
{
    let n = hay.unicode_len();
    let m = needle.unicode_len();
    if m > n {
        assert(!spec_contains(spec_lower(hay@), needle@)) by {
            assert(spec_lower(hay@).len() == hay@.len());
        }
        return false;
    }
    if m == 0 {
        proof {
            assert(spec_lower(hay@).subrange(0, 0 + needle@.len() as int) =~= needle@);
        }
        return true;
    }
    let mut i: usize = 0;
    while i <= n - m
        invariant
            1 <= m <= n,
            n == hay@.len(),
            m == needle@.len(),
            i <= n - m + 1,
            forall|k: int|
                0 <= k < i ==> #[trigger] spec_lower(hay@).subrange(k, k + needle@.len())
                    != needle@,
        decreases n - m - i + 1,
    {
        let mut j: usize = 0;
        let mut hit = true;
        while j < m
            invariant
                m <= n,
                i + m <= n,
                n == hay@.len(),
                m == needle@.len(),
                j <= m,
                hit ==> forall|l: int| 0 <= l < j ==> spec_lower(hay@)[i + l] == needle@[l],
                !hit ==> spec_lower(hay@).subrange(i as int, i + needle@.len()) != needle@,
            decreases m - j,
        {
            let c = lower_char(hay.get_char(i + j));
            let d = needle.get_char(j);
            if c != d {
                proof {
                    let sub = spec_lower(hay@).subrange(i as int, i + needle@.len());
                    assert(sub[j as int] == spec_lower(hay@)[i + j]);
                }
                hit = false;
                j = m;
            } else {
                j = j + 1;
            }
        }
        if hit {
            proof {
                let sub = spec_lower(hay@).subrange(i as int, i + needle@.len());
                assert(forall|l: int| 0 <= l < needle@.len() ==> sub[l] == spec_lower(hay@)[i + l]);
                assert(sub =~= needle@);
            }
            return true;
        }
        i = i + 1;
    }
    proof {
        assert forall|k: int| 0 <= k && k + needle@.len() <= spec_lower(hay@).len() implies #[trigger]
            spec_lower(hay@).subrange(k, k + needle@.len()) != needle@ by {
            assert(spec_lower(hay@).len() == hay@.len());
            assert(k < i);
        }
    }
    false
}

/// Whether the trimmed, ASCII-uppercased image of `t` equals `pat`.
/// `pat` is expected to be uppercase with no surrounding whitespace.
pub fn eq_trim_upper(t: &str, pat: &str) -> (r: bool)
    ensures
        r == (spec_upper(spec_trim(t@)) == pat@),
{
    let n = t.unicode_len();
    // leading whitespace
    let mut a: usize = 0;
    while a < n && is_ws(t.get_char(a))
        invariant
            n == t@.len(),
            a <= n,
            forall|k: int| 0 <= k < a ==> spec_is_ws(t@[k]),
        decreases n - a,
    {
        a = a + 1;
    }
    proof {
        lemma_trim_start_agrees(t@, a as int);
    }
    if a == n {
        // all whitespace: the trimmed string is empty
        let r = pat.unicode_len() == 0;
        proof {
            assert(spec_trim(t@) =~= Seq::<char>::empty());
            if pat@.len() == 0 {
                assert(spec_upper(spec_trim(t@)) =~= pat@);
            } else {
                assert(spec_upper(spec_trim(t@)).len() == 0);
            }
        }
        return r;
    }
    let mut b: usize = n;
    while b > a && is_ws(t.get_char(b - 1))
        invariant
            n == t@.len(),
            a < n,
            !spec_is_ws(t@[a as int]),
            a < b <= n,
            forall|k: int| b <= k < n ==> spec_is_ws(t@[k]),
        decreases b,
    {
        b = b - 1;
    }
    proof {
        lemma_trim_end_agrees(t@, b as int);
        assert(spec_trim(t@) =~= t@.subrange(a as int, b as int));
    }
    let m = pat.unicode_len();
    if b - a != m {
        assert(spec_upper(spec_trim(t@)).len() != pat@.len());
        return false;
    }
    let mut j: usize = 0;
    while j < m
        invariant
            n == t@.len(),
            m == pat@.len(),
            a + m == b,
            b <= n,
            spec_trim(t@) == t@.subrange(a as int, b as int),
            j <= m,
            forall|l: int| 0 <= l < j ==> spec_upper(spec_trim(t@))[l] == pat@[l],
        decreases m - j,
    {
        let c = upper_char(t.get_char(a + j));
        if c != pat.get_char(j) {
            proof {
                assert(spec_upper(spec_trim(t@))[j as int] == spec_upper_char(t@[a + j]));
            }
            return false;
        }
        proof {
            assert(spec_upper(spec_trim(t@))[j as int] == spec_upper_char(t@[a + j]));
        }
        j = j + 1;
    }
    proof {
        assert(spec_upper(spec_trim(t@)) =~= pat@);
    }
    true
}

/// If the first `a` characters of `s` are whitespace and (when `a` is inside
/// the string) the character at `a` is not, then `a` is exactly the leading
/// whitespace count used by [`spec_trim`].
proof fn lemma_trim_start_agrees(s: Seq<char>, a: int)
    requires
        0 <= a <= s.len(),
        forall|k: int| 0 <= k < a ==> spec_is_ws(s[k]),
        a < s.len() ==> !spec_is_ws(s[a]),
    ensures
        spec_trim_start_len(s) == a,
    decreases s.len(),
{
    if a == 0 {
        if s.len() > 0 && spec_is_ws(s[0]) {
            assert(false);
        }
    } else {
        assert(spec_is_ws(s[0]));
        lemma_trim_start_agrees(s.skip(1), a - 1);
    }
}

/// The mirror of [`lemma_trim_start_agrees`] for trailing whitespace: if the
/// character before `b` is not whitespace and everything from `b` on is, then
/// the trailing whitespace count used by [`spec_trim`] is exactly what lies
/// from `b` on.
proof fn lemma_trim_end_agrees(s: Seq<char>, b: int)
    requires
        1 <= b <= s.len(),
        !spec_is_ws(s[b - 1]),
        forall|k: int| b <= k < s.len() ==> spec_is_ws(s[k]),
    ensures
        spec_trim_end_len(s) == s.len() - b,
    decreases s.len(),
{
    if b == s.len() {
        assert(!spec_is_ws(s[s.len() - 1]));
    } else {
        assert(spec_is_ws(s[s.len() - 1]));
        let t = s.take(s.len() - 1);
        assert(t[b - 1] == s[b - 1]);
        assert forall|k: int| b <= k < t.len() implies spec_is_ws(t[k]) by {
            assert(t[k] == s[k]);
        }
        lemma_trim_end_agrees(t, b);
    }
}

} // verus!
