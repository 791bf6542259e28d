//! Text utilities shared by the other modules: trimming of user-supplied
//! strings, case-insensitive matching of ASCII keywords, and decimal
//! rendering of integers.

use vstd::prelude::*;

verus! {

/// The blank characters this library strips from the ends of user-supplied
/// text: the common ASCII whitespace.
pub open spec fn is_space_char(c: char) -> bool {
    c == ' ' || c == '\t' || c == '\n' || c == '\r'
}

/// What remains of `s` once leading blanks are dropped.
pub open spec fn trim_front(s: Seq<char>) -> Seq<char>
    decreases s.len(),
{
    if s.len() > 0 && is_space_char(s[0]) {
        trim_front(s.drop_first())
    } else {
        s
    }
}

/// What remains of `s` once trailing blanks are dropped.
pub open spec fn trim_back(s: Seq<char>) -> Seq<char>
    decreases s.len(),
{
    if s.len() > 0 && is_space_char(s.last()) {
        trim_back(s.drop_last())
    } else {
        s
    }
}

/// The view of a trimmed string: blanks stripped from both ends.
pub open spec fn spec_trim(s: Seq<char>) -> Seq<char> {
    trim_back(trim_front(s))
}

/// Holds of a sequence that trimming leaves as it is.
pub open spec fn is_trimmed(s: Seq<char>) -> bool {
    s.len() > 0 ==> !is_space_char(s[0]) && !is_space_char(s.last())
}

/// If the first `i` characters of `s` are blanks and the next one (if any)
/// is not, then trimming the front drops exactly those `i` characters.
proof fn lemma_trim_front_skip(s: Seq<char>, i: int)
    requires
        0 <= i <= s.len(),
        forall|k: int| 0 <= k < i ==> is_space_char(s[k]),
        i == s.len() || !is_space_char(s[i]),
    ensures
        trim_front(s) == s.skip(i),
    decreases i,
{
    if i == 0 {
        assert(s.skip(0) =~= s);
    } else {
        assert(is_space_char(s[0]));
        lemma_trim_front_skip(s.drop_first(), i - 1);
        assert(s.drop_first().skip(i - 1) =~= s.skip(i));
    }
}

/// If everything from position `j` on is blank and the character just
/// before `j` (if any) is not, then trimming the back keeps exactly the
/// first `j` characters.
proof fn lemma_trim_back_take(s: Seq<char>, j: int)
    requires
        0 <= j <= s.len(),
        forall|k: int| j <= k < s.len() ==> is_space_char(s[k]),
        j == 0 || !is_space_char(s[j - 1]),
    ensures
        trim_back(s) == s.take(j),
    decreases s.len(),
{
    if j == s.len() {
        if s.len() > 0 {
            assert(!is_space_char(s.last()));
        }
        assert(s.take(j) =~= s);
    } else {
        assert(is_space_char(s.last()));
        lemma_trim_back_take(s.drop_last(), j);
        assert(s.drop_last() =~= s.take(s.len() - 1));
        assert(s.take(s.len() - 1).take(j) =~= s.take(j));
    }
}

/// Trimming a sequence that is already trimmed changes nothing.
pub proof fn lemma_trimmed_fixed(s: Seq<char>)
    requires
        is_trimmed(s),
    ensures
        spec_trim(s) == s,
{
}

/// Case-insensitive equality of two characters, where case folding means
/// the ASCII letters alone: the code points of `A`..`Z` sit 32 below those
/// of `a`..`z`.
pub open spec fn chars_ieq(a: char, b: char) -> bool {
    ||| a == b
    ||| (65 <= a as u32 <= 90 && a as u32 + 32 == b as u32)
    ||| (65 <= b as u32 <= 90 && b as u32 + 32 == a as u32)
}

/// Equality of two sequences up to ASCII case.
pub open spec fn eq_ignore_ascii_case(a: Seq<char>, b: Seq<char>) -> bool {
    a.len() == b.len() && forall|i: int| 0 <= i < a.len() ==> chars_ieq(a[i], b[i])
}

/// Compares two strings for equality up to ASCII case.
pub fn str_ieq(a: &str, b: &str) -> (r: bool)
    ensures
        r == eq_ignore_ascii_case(a@, b@),
{
    let an = a.unicode_len();
    let bn = b.unicode_len();
    if an != bn {
        return false;
    }
    let mut k: usize = 0;
    while k < an
        invariant
            0 <= k <= an,
            an == a@.len(),
            an == b@.len(),
            forall|i: int| 0 <= i < k ==> chars_ieq(a@[i], b@[i]),
        decreases an - k,
    {
        let ac = a.get_char(k) as u32;
        let bc = b.get_char(k) as u32;
        let ieq = ac == bc || (65 <= ac && ac <= 90 && ac + 32 == bc) || (65 <= bc && bc <= 90
            && bc + 32 == ac);
        if !ieq {
            return false;
        }
        k = k + 1;
    }
    true
}

/// The decimal digit character for a value below ten.
pub open spec fn digit_char(d: int) -> char {
    if d == 0 {
        '0'
    } else if d == 1 {
        '1'
    } else if d == 2 {
        '2'
    } else if d == 3 {
        '3'
    } else if d == 4 {
        '4'
    } else if d == 5 {
        '5'
    } else if d == 6 {
        '6'
    } else if d == 7 {
        '7'
    } else if d == 8 {
        '8'
    } else {
        '9'
    }
}

/// The decimal digits of a natural number, most significant first.
pub open spec fn dec_digits(n: nat) -> Seq<char>
    decreases n,
{
    if n < 10 {
        seq![digit_char(n as int)]
    } else {
        dec_digits(n / 10).push(digit_char((n % 10) as int))
    }
}

/// The decimal rendering of an integer: a minus sign for negatives, then
/// the digits of its magnitude.
pub open spec fn int_str(v: int) -> Seq<char> {
    if v < 0 {
        seq!['-'] + dec_digits((-v) as nat)
    } else {
        dec_digits(v as nat)
    }
}

fn digit_to_str(d: u64) -> (r: &'static str)
    requires
        d < 10,
    ensures
        r@ == seq![digit_char(d as int)],
{
    proof {
        reveal_strlit("0");
        reveal_strlit("1");
        reveal_strlit("2");
        reveal_strlit("3");
        reveal_strlit("4");
        reveal_strlit("5");
        reveal_strlit("6");
        reveal_strlit("7");
        reveal_strlit("8");
        reveal_strlit("9");
    }
    let r = match d {
        0 => "0",
        1 => "1",
        2 => "2",
        3 => "3",
        4 => "4",
        5 => "5",
        6 => "6",
        7 => "7",
        8 => "8",
        _ => "9",
    };
    proof {
        assert(r@ =~= seq![digit_char(d as int)]);
    }
    r
}

/// Renders a natural number in decimal.
pub fn u64_to_string(n: u64) -> (r: String)
    ensures
        r@ == dec_digits(n as nat),
    decreases n,
{
    if n < 10 {
        digit_to_str(n).to_owned()
    } else {
        let mut s = u64_to_string(n / 10);
        s.append(digit_to_str(n % 10));
        proof {
            assert(s@ =~= dec_digits((n / 10) as nat).push(digit_char((n % 10) as int)));
        }
        s
    }
}

/// Renders a signed integer in decimal.
pub fn i32_to_string(v: i32) -> (r: String)
    ensures
        r@ == int_str(v as int),
{
    if v < 0 {
        let m = (-(v as i64)) as u64;
        proof {
            assert(m as nat == (-(v as int)) as nat);
        }
        let mut s = String::new();
        s.append("-");
        s.append(u64_to_string(m).as_str());
        proof {
            reveal_strlit("-");
            assert(s@ =~= int_str(v as int));
        }
        s
    } else {
        u64_to_string(v as u64)
    }
}

/// Whether `c` is one of the blanks that trimming strips.
pub fn is_space(c: char) -> (b: bool)
    ensures
        b == is_space_char(c),
{
    c == ' ' || c == '\t' || c == '\n' || c == '\r'
}

/// Strips leading and trailing blanks from `s`, returning an owned copy of
/// what is left.
pub fn trim_str(s: &str) -> (r: String)
    ensures
        r@ == spec_trim(s@),
        is_trimmed(r@),
{
    let n = s.unicode_len();
    let mut i: usize = 0;
    while i < n && is_space(s.get_char(i))
        invariant
            0 <= i <= n,
            n == s@.len(),
            forall|k: int| 0 <= k < i ==> is_space_char(s@[k]),
        decreases n - i,
    {
        i = i + 1;
    }
    let mut j: usize = n;
    while j > i && is_space(s.get_char(j - 1))
        invariant
            i <= j <= n,
            n == s@.len(),
            forall|k: int| j <= k < n ==> is_space_char(s@[k]),
        decreases j,
    {
        j = j - 1;
    }
    let t = s.substring_char(i, j);
    let r = t.to_owned();
    proof {
        lemma_trim_front_skip(s@, i as int);
        let u = s@.skip(i as int);
        lemma_trim_back_take(u, j - i);
        assert(u.take(j - i) =~= s@.subrange(i as int, j as int));
    }
    r
}

} // verus!
