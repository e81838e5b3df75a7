//! Small verified string helpers: decimal rendering of integers,
//! comma-joining, and ASCII case-insensitive comparison.

use vstd::prelude::*;

verus! {

/// The decimal digit character for `d` (`d < 10`).
pub open spec fn spec_digit_char(d: nat) -> char {
    if d == 0 {
        '0'
    } else if d == 1 {
        '1'
    } else if d == 2 {
        '2'
    } else if d == 3 {
        '3'
    } else if d == 4 {
        '4'
    } else if d == 5 {
        '5'
    } else if d == 6 {
        '6'
    } else if d == 7 {
        '7'
    } else if d == 8 {
        '8'
    } else {
        '9'
    }
}

/// The decimal digit string of `n`, most significant digit first.
pub open spec fn spec_u64_digits(n: nat) -> Seq<char>
    decreases n,
{
    if n < 10 {
        seq![spec_digit_char(n)]
    } else {
        spec_u64_digits(n / 10).push(spec_digit_char(n % 10))
    }
}

/// The decimal string of a signed number: a minus sign for negatives,
/// then the digits of the magnitude.
pub open spec fn spec_i64_str(n: int) -> Seq<char> {
    if n < 0 {
        seq!['-'] + spec_u64_digits((-n) as nat)
    } else {
        spec_u64_digits(n as nat)
    }
}

fn digit_str(d: u64) -> (r: &'static str)
    requires
        d < 10,
    ensures
        r@ == seq![spec_digit_char(d as nat)],
{
    let r: &'static str = if d == 0 {
        "0"
    } else if d == 1 {
        "1"
    } else if d == 2 {
        "2"
    } else if d == 3 {
        "3"
    } else if d == 4 {
        "4"
    } else if d == 5 {
        "5"
    } else if d == 6 {
        "6"
    } else if d == 7 {
        "7"
    } else if d == 8 {
        "8"
    } else {
        "9"
    };
    proof {
        reveal_strlit("0");
        reveal_strlit("1");
        reveal_strlit("2");
        reveal_strlit("3");
        reveal_strlit("4");
        reveal_strlit("5");
        reveal_strlit("6");
        reveal_strlit("7");
        reveal_strlit("8");
        reveal_strlit("9");
        assert(r@ =~= seq![spec_digit_char(d as nat)]);
    }
    r
}

fn push_u64_digits(n: u64, s: &mut String)
    ensures
        final(s)@ == old(s)@ + spec_u64_digits(n as nat),
    decreases n,
{
    if n >= 10 {
        push_u64_digits(n / 10, s);
    }
    s.append(digit_str(n % 10));
    proof {
        assert(final(s)@ =~= old(s)@ + spec_u64_digits(n as nat));
    }
}

/// Render an unsigned number in decimal.
pub fn u64_to_string(n: u64) -> (r: String)
    ensures
        r@ == spec_u64_digits(n as nat),
{
    let mut s = String::new();
    push_u64_digits(n, &mut s);
    proof {
        assert(s@ =~= spec_u64_digits(n as nat));
    }
    s
}

/// Render a signed number in decimal.
pub fn i64_to_string(n: i64) -> (r: String)
    ensures
        r@ == spec_i64_str(n as int),
{
    let mut s = String::new();
    if n < 0 {
        s.append("-");
        proof {
            reveal_strlit("-");
            assert(s@ =~= seq!['-']);
        }
        // Compute the magnitude without overflowing on the smallest value.
        let mag: u64 = ((-(n + 1)) as u64) + 1;
        assert(mag as nat == (-(n as int)) as nat);
        push_u64_digits(mag, &mut s);
        proof {
            assert(s@ =~= spec_i64_str(n as int));
        }
    } else {
        push_u64_digits(n as u64, &mut s);
        proof {
            assert(s@ =~= spec_i64_str(n as int));
        }
    }
    s
}

/// The comma-separated join of the given strings.
pub open spec fn spec_join_comma(v: Seq<Seq<char>>) -> Seq<char>
    decreases v.len(),
{
    if v.len() == 0 {
        Seq::empty()
    } else if v.len() == 1 {
        v[0]
    } else {
        spec_join_comma(v.drop_last()) + seq![','] + v.last()
    }
}

/// Join a list of strings with commas, as the remote API expects tag lists.
pub fn vec_to_str(v: &Vec<String>) -> (r: String)
    ensures
        r@ == spec_join_comma(v.deep_view()),
{
    let mut s = String::new();
    let mut i: usize = 0;
    proof {
        assert(s@ =~= spec_join_comma(v.deep_view().take(0)));
    }
    while i < v.len()
        invariant
            i <= v.len(),
            s@ == spec_join_comma(v.deep_view().take(i as int)),
        decreases v.len() - i,
    {
        if i > 0 {
            s.append(",");
            proof {
                reveal_strlit(",");
            }
        }
        s.append(v[i].as_str());
        proof {
            let pre = v.deep_view().take(i as int);
            let cur = v.deep_view().take(i + 1);
            assert(cur.drop_last() =~= pre);
            assert(cur.last() == v.deep_view()[i as int]);
            if i > 0 {
                assert(s@ =~= spec_join_comma(cur));
            } else {
                assert(cur.len() == 1);
                assert(s@ =~= spec_join_comma(cur));
            }
        }
        i = i + 1;
    }
    proof {
        assert(v.deep_view().take(v.len() as int) =~= v.deep_view());
    }
    s
}

/// Whether `sub` occurs contiguously inside `s`.
pub open spec fn spec_str_contains(s: Seq<char>, sub: Seq<char>) -> bool {
    exists|i: int|
        0 <= i && i + sub.len() <= s.len() && #[trigger] s.subrange(i, i + sub.len()) == sub
}

/// Whether the needle sits at position `i` of the haystack.
fn matches_at(s: &str, sub: &str, i: usize) -> (r: bool)
    requires
        i + sub@.len() <= s@.len(),
    ensures
        r == (s@.subrange(i as int, i + sub@.len()) == sub@),
{
    let n = s.unicode_len();
    let m = sub.unicode_len();
    let mut j: usize = 0;
    while j < m
        invariant
            j <= m,
            n == s@.len(),
            m == sub@.len(),
            i + m <= n,
            forall|j2: int| 0 <= j2 < j ==> s@[i + j2] == sub@[j2],
        decreases m - j,
    {
        if s.get_char(i + j) != sub.get_char(j) {
            proof {
                assert(s@.subrange(i as int, i + m)[j as int] == s@[i + j]);
            }
            return false;
        }
        j = j + 1;
    }
    proof {
        assert(s@.subrange(i as int, i + m) =~= sub@);
    }
    true
}

/// Whether the haystack holds the needle as a contiguous substring.
pub fn str_contains(s: &str, sub: &str) -> (r: bool)
    ensures
        r == spec_str_contains(s@, sub@),
{
    let n = s.unicode_len();
    let m = sub.unicode_len();
    if m > n {
        proof {
            assert(!spec_str_contains(s@, sub@));
        }
        return false;
    }
    if m == 0 {
        proof {
            assert(spec_str_contains(s@, sub@)) by {
                assert(s@.subrange(0, 0 + sub@.len() as int) =~= sub@);
            }
        }
        return true;
    }
    let mut i: usize = 0;
    while i <= n - m
        invariant
            1 <= m <= n,
            n == s@.len(),
            m == sub@.len(),
            i <= n - m + 1,
            forall|i2: int| 0 <= i2 < i ==> #[trigger] s@.subrange(i2, i2 + m) != sub@,
        decreases n - m + 1 - i,
    {
        if matches_at(s, sub, i) {
            return true;
        }
        i = i + 1;
    }
    proof {
        assert(!spec_str_contains(s@, sub@));
    }
    false
}

/// ASCII lowercase on code points: maps `A`..`Z` onto `a`..`z`.
pub open spec fn spec_lower_u32(u: u32) -> u32 {
    if 65 <= u && u <= 90 {
        (u + 32) as u32
    } else {
        u
    }
}

/// Two character sequences are equal up to ASCII case.
pub open spec fn chars_eq_nocase(a: Seq<char>, b: Seq<char>) -> bool {
    a.len() == b.len() && forall|i: int|
        0 <= i < a.len() ==> spec_lower_u32(a[i] as u32) == spec_lower_u32(b[i] as u32)
}

fn lower_u32(u: u32) -> (r: u32)
    ensures
        r == spec_lower_u32(u),
{
    if 65 <= u && u <= 90 {
        u + 32
    } else {
        u
    }
}

/// Compare two strings for equality up to ASCII case.
pub fn str_eq_nocase(a: &str, b: &str) -> (r: bool)
    ensures
        r == chars_eq_nocase(a@, b@),
{
    let la = a.unicode_len();
    let lb = b.unicode_len();
    if la != lb {
        return false;
    }
    let mut i: usize = 0;
    while i < la
        invariant
            i <= la,
            la == a@.len(),
            la == b@.len(),
            forall|j: int|
                0 <= j < i ==> spec_lower_u32(a@[j] as u32) == spec_lower_u32(b@[j] as u32),
        decreases la - i,
    {
        let ca = a.get_char(i);
        let cb = b.get_char(i);
        if lower_u32(ca as u32) != lower_u32(cb as u32) {
            return false;
        }
        i = i + 1;
    }
    true
}

} // verus!
