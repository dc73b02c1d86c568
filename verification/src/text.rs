//! Character-level text helpers: white space, repeated prefixes and
//! suffixes, substring search and decimal numerals.
//!
//! Windows `[lo, hi)` are counted in characters of the text they index.
use vstd::prelude::*;

verus! {

/// Characters with the Unicode `White_Space` property.
pub open spec fn is_white_space(c: char) -> bool {
    let v = c as u32;
    ||| 0x9 <= v <= 0xd
    ||| v == 0x20
    ||| v == 0x85
    ||| v == 0xa0
    ||| v == 0x1680
    ||| 0x2000 <= v <= 0x200a
    ||| v == 0x2028
    ||| v == 0x2029
    ||| v == 0x202f
    ||| v == 0x205f
    ||| v == 0x3000
}

pub fn white_space(c: char) -> (b: bool)
    ensures
        b == is_white_space(c),
{
    let v = c as u32;
    (0x9 <= v && v <= 0xd) || v == 0x20 || v == 0x85 || v == 0xa0 || v == 0x1680 || (0x2000 <= v
        && v <= 0x200a) || v == 0x2028 || v == 0x2029 || v == 0x202f || v == 0x205f || v == 0x3000
}

/// `s` without its leading white space.
pub open spec fn trim_start_ws(s: Seq<char>) -> Seq<char>
    decreases s.len(),
{
    if s.len() > 0 && is_white_space(s[0]) {
        trim_start_ws(s.drop_first())
    } else {
        s
    }
}

/// `s` without its trailing white space.
pub open spec fn trim_end_ws(s: Seq<char>) -> Seq<char>
    decreases s.len(),
{
    if s.len() > 0 && is_white_space(s.last()) {
        trim_end_ws(s.drop_last())
    } else {
        s
    }
}

/// `s` without leading and trailing white space.
pub open spec fn trim_ws(s: Seq<char>) -> Seq<char> {
    trim_end_ws(trim_start_ws(s))
}

/// `s` after removing `p` from its front for as long as it starts with `p`.
pub open spec fn strip_prefixes(s: Seq<char>, p: Seq<char>) -> Seq<char>
    decreases s.len(),
{
    if 0 < p.len() <= s.len() && s.subrange(0, p.len() as int) == p {
        strip_prefixes(s.skip(p.len() as int), p)
    } else {
        s
    }
}

/// `s` after removing `p` from its end for as long as it ends with `p`.
pub open spec fn strip_suffixes(s: Seq<char>, p: Seq<char>) -> Seq<char>
    decreases s.len(),
{
    if 0 < p.len() <= s.len() && s.subrange(s.len() - p.len(), s.len() as int) == p {
        strip_suffixes(s.subrange(0, s.len() - p.len()), p)
    } else {
        s
    }
}

/// `p` occurs in `s` starting at position `i`.
pub open spec fn occurs_at(s: Seq<char>, p: Seq<char>, i: int) -> bool {
    0 <= i && i + p.len() <= s.len() && s.subrange(i, i + p.len()) == p
}

/// `p` occurs somewhere in `s`.
pub open spec fn contains_seq(s: Seq<char>, p: Seq<char>) -> bool {
    exists|i: int| occurs_at(s, p, i)
}

/// Whether `p` occurs in `s` at character position `i`.
fn matches_at(s: &str, n: usize, p: &str, m: usize, i: usize) -> (b: bool)
    requires
        n == s@.len(),
        m == p@.len(),
        i + m <= n,
    ensures
        b == (s@.subrange(i as int, i + m) == p@),
{
    let mut k: usize = 0;
    while k < m
        invariant
            k <= m,
            i + m <= n,
            n == s@.len(),
            m == p@.len(),
            forall|j: int| 0 <= j < k ==> s@[i + j] == p@[j],
        decreases m - k,
    {
        if s.get_char(i + k) != p.get_char(k) {
            proof {
                assert(s@.subrange(i as int, i + m)[k as int] != p@[k as int]);
            }
            return false;
        }
        k = k + 1;
    }
    proof {
        assert(s@.subrange(i as int, i + m) =~= p@);
    }
    true
}

/// Whether `p` occurs in `s`.
pub fn contains(s: &str, p: &str) -> (b: bool)
    ensures
        b == contains_seq(s@, p@),
{
    let n = s.unicode_len();
    let m = p.unicode_len();
    if m > n {
        return false;
    }
    if m == 0 {
        proof {
            assert(s@.subrange(0, 0) =~= p@);
            assert(occurs_at(s@, p@, 0));
        }
        return true;
    }
    let mut i: usize = 0;
    while i <= n - m
        invariant
            1 <= m <= n,
            i <= n - m + 1,
            n == s@.len(),
            m == p@.len(),
            forall|j: int| 0 <= j < i ==> !occurs_at(s@, p@, j),
        decreases n - m + 1 - i,
    {
        if matches_at(s, n, p, m, i) {
            proof {
                assert(occurs_at(s@, p@, i as int));
            }
            return true;
        }
        i = i + 1;
    }
    proof {
        assert forall|j: int| !occurs_at(s@, p@, j) by {
            if 0 <= j && j + m <= n {
                assert(j < i);
            }
        }
    }
    false
}

/// Shrinks the window `[lo, hi)` of `s` past its white space at both ends.
pub fn trim_window(s: &str, lo: usize, hi: usize) -> (w: (usize, usize))
    requires
        lo <= hi <= s@.len(),
    ensures
        lo <= w.0 <= w.1 <= hi,
        s@.subrange(w.0 as int, w.1 as int) == trim_ws(s@.subrange(lo as int, hi as int)),
{
    let mut i = lo;
    while i < hi && white_space(s.get_char(i))
        invariant
            lo <= i <= hi <= s@.len(),
            trim_start_ws(s@.subrange(lo as int, hi as int)) == trim_start_ws(
                s@.subrange(i as int, hi as int),
            ),
        decreases hi - i,
    {
        proof {
            assert(s@.subrange(i as int, hi as int).drop_first() =~= s@.subrange(
                i + 1,
                hi as int,
            ));
        }
        i = i + 1;
    }
    let mut j = hi;
    while j > i && white_space(s.get_char(j - 1))
        invariant
            lo <= i <= j <= hi <= s@.len(),
            trim_start_ws(s@.subrange(lo as int, hi as int)) == s@.subrange(i as int, hi as int),
            trim_end_ws(s@.subrange(i as int, hi as int)) == trim_end_ws(
                s@.subrange(i as int, j as int),
            ),
        decreases j,
    {
        proof {
            assert(s@.subrange(i as int, j as int).drop_last() =~= s@.subrange(
                i as int,
                j - 1,
            ));
        }
        j = j - 1;
    }
    (i, j)
}

/// Shrinks the window `[lo, hi)` of `s` past every leading copy of `p`.
pub fn strip_prefixes_window(s: &str, lo: usize, hi: usize, p: &str) -> (w: usize)
    requires
        lo <= hi <= s@.len(),
        p@.len() > 0,
    ensures
        lo <= w <= hi,
        s@.subrange(w as int, hi as int) == strip_prefixes(s@.subrange(lo as int, hi as int), p@),
{
    let m = p.unicode_len();
    let mut i = lo;
    while m <= hi - i && matches_at(s, s.unicode_len(), p, m, i)
        invariant
            lo <= i <= hi <= s@.len(),
            m == p@.len(),
            m > 0,
            strip_prefixes(s@.subrange(lo as int, hi as int), p@) == strip_prefixes(
                s@.subrange(i as int, hi as int),
                p@,
            ),
        decreases hi - i,
    {
        proof {
            let w = s@.subrange(i as int, hi as int);
            assert(w.subrange(0, m as int) =~= s@.subrange(i as int, i + m));
            assert(w.skip(m as int) =~= s@.subrange(i + m, hi as int));
        }
        i = i + m;
    }
    proof {
        let w = s@.subrange(i as int, hi as int);
        if m <= w.len() {
            assert(w.subrange(0, m as int) =~= s@.subrange(i as int, i + m));
        }
    }
    i
}

/// Shrinks the window `[lo, hi)` of `s` past every trailing copy of `p`.
pub fn strip_suffixes_window(s: &str, lo: usize, hi: usize, p: &str) -> (w: usize)
    requires
        lo <= hi <= s@.len(),
        p@.len() > 0,
    ensures
        lo <= w <= hi,
        s@.subrange(lo as int, w as int) == strip_suffixes(s@.subrange(lo as int, hi as int), p@),
{
    let m = p.unicode_len();
    let mut j = hi;
    while j - lo >= m && matches_at(s, s.unicode_len(), p, m, j - m)
        invariant
            lo <= j <= hi <= s@.len(),
            m == p@.len(),
            m > 0,
            strip_suffixes(s@.subrange(lo as int, hi as int), p@) == strip_suffixes(
                s@.subrange(lo as int, j as int),
                p@,
            ),
        decreases j,
    {
        proof {
            let w = s@.subrange(lo as int, j as int);
            assert(w.subrange(w.len() - m, w.len() as int) =~= s@.subrange(j - m, j as int));
            assert(w.subrange(0, w.len() - m) =~= s@.subrange(lo as int, j - m));
        }
        j = j - m;
    }
    proof {
        let w = s@.subrange(lo as int, j as int);
        if m <= w.len() {
            assert(w.subrange(w.len() - m, w.len() as int) =~= s@.subrange(j - m, j as int));
        }
    }
    j
}

/// The digit character for `d < 10`.
pub open spec fn digit_char(d: nat) -> char {
    if d == 0 {
        '0'
    } else if d == 1 {
        '1'
    } else if d == 2 {
        '2'
    } else if d == 3 {
        '3'
    } else if d == 4 {
        '4'
    } else if d == 5 {
        '5'
    } else if d == 6 {
        '6'
    } else if d == 7 {
        '7'
    } else if d == 8 {
        '8'
    } else {
        '9'
    }
}

/// The decimal numeral of `n`, without leading zeros.
pub open spec fn decimal(n: nat) -> Seq<char>
    decreases n,
{
    if n < 10 {
        seq![digit_char(n)]
    } else {
        decimal(n / 10).push(digit_char(n % 10))
    }
}

/// The decimal numeral of `v`, with a minus sign when negative.
pub open spec fn signed_decimal(v: int) -> Seq<char> {
    if v < 0 {
        seq!['-'] + decimal((-v) as nat)
    } else {
        decimal(v as nat)
    }
}

fn digit_str(d: u64) -> (s: &'static str)
    requires
        d < 10,
    ensures
        s@ == seq![digit_char(d as nat)],
{
    if d == 0 {
        proof {
            reveal_strlit("0");
        }
        "0"
    } else if d == 1 {
        proof {
            reveal_strlit("1");
        }
        "1"
    } else if d == 2 {
        proof {
            reveal_strlit("2");
        }
        "2"
    } else if d == 3 {
        proof {
            reveal_strlit("3");
        }
        "3"
    } else if d == 4 {
        proof {
            reveal_strlit("4");
        }
        "4"
    } else if d == 5 {
        proof {
            reveal_strlit("5");
        }
        "5"
    } else if d == 6 {
        proof {
            reveal_strlit("6");
        }
        "6"
    } else if d == 7 {
        proof {
            reveal_strlit("7");
        }
        "7"
    } else if d == 8 {
        proof {
            reveal_strlit("8");
        }
        "8"
    } else {
        proof {
            reveal_strlit("9");
        }
        "9"
    }
}

/// The decimal numeral of `n`.
pub fn decimal_string(n: u64) -> (s: String)
    ensures
        s@ == decimal(n as nat),
    decreases n,
{
    if n < 10 {
        String::from_str(digit_str(n))
    } else {
        let mut s = decimal_string(n / 10);
        s.append(digit_str(n % 10));
        s
    }
}

/// The decimal numeral of `v`, with a minus sign when negative.
pub fn signed_decimal_string(v: i32) -> (s: String)
    ensures
        s@ == signed_decimal(v as int),
{
    if v < 0 {
        let magnitude = (0i64 - v as i64) as u64;
        let mut s = String::from_str("-");
        proof {
            reveal_strlit("-");
        }
        let digits = decimal_string(magnitude);
        s.append(digits.as_str());
        s
    } else {
        decimal_string(v as u64)
    }
}

/// What `str::to_lowercase` gives for a text: its Unicode lower-case mapping.
pub uninterp spec fn lowercase_of(s: Seq<char>) -> Seq<char>;

/// Trusted: std's `str::to_lowercase`.  The contract only names its result
/// (`lowercase_of`); the Unicode case tables it applies are left unsaid.
#[verifier::external_body]
pub(crate) fn to_lowercase(s: &str) -> (r: String)
    ensures
        r@ == lowercase_of(s@),
{
    s.to_lowercase()
}

/// Whether two texts are equal.
pub fn same_text(a: &str, b: &str) -> (r: bool)
    ensures
        r == (a@ == b@),
{
    String::from_str(a) == String::from_str(b)
}

} // verus!
