//! Character classes and small string utilities used across the crate.
//!
//! All algorithmic code in this crate works over `Seq<char>` views; the
//! helpers here give exact, fully verified building blocks for that.

use vstd::prelude::*;
use vstd::string::StrSliceExecFns;
use vstd::string::StringExecFns;

verus! {

// ===== character classes =====

/// The Unicode `White_Space` code points: the set `char::is_whitespace`
/// accepts.
pub open spec fn is_space_char(c: char) -> bool {
    let u = c as u32;
    (9 <= u && u <= 13) || u == 32 || u == 0x85 || u == 0xA0 || u == 0x1680
        || (0x2000 <= u && u <= 0x200A) || u == 0x2028 || u == 0x2029
        || u == 0x202F || u == 0x205F || u == 0x3000
}

pub fn is_space(c: char) -> (r: bool)
    ensures
        r == is_space_char(c),
{
    let u = c as u32;
    (9 <= u && u <= 13) || u == 32 || u == 0x85 || u == 0xA0 || u == 0x1680
        || (0x2000 <= u && u <= 0x200A) || u == 0x2028 || u == 0x2029
        || u == 0x202F || u == 0x205F || u == 0x3000
}

pub open spec fn is_ascii_char(c: char) -> bool {
    (c as u32) < 128
}

pub fn char_is_ascii(c: char) -> (r: bool)
    ensures
        r == is_ascii_char(c),
{
    (c as u32) < 128
}

pub open spec fn is_ascii_letter(c: char) -> bool {
    let u = c as u32;
    (65 <= u && u <= 90) || (97 <= u && u <= 122)
}

pub fn char_is_ascii_letter(c: char) -> (r: bool)
    ensures
        r == is_ascii_letter(c),
{
    let u = c as u32;
    (65 <= u && u <= 90) || (97 <= u && u <= 122)
}

/// ASCII lowercasing of a single character; other characters are unchanged.
pub open spec fn lower_char(c: char) -> char {
    if 65 <= (c as u32) && (c as u32) <= 90 {
        (c as u32 + 32) as char
    } else {
        c
    }
}

/// ASCII uppercasing of a single character; other characters are unchanged.
pub open spec fn upper_char(c: char) -> char {
    if 97 <= (c as u32) && (c as u32) <= 122 {
        (c as u32 - 32) as char
    } else {
        c
    }
}

pub fn to_lower_char(c: char) -> (r: char)
    ensures
        r == lower_char(c),
{
    let u = c as u32;
    if 65 <= u && u <= 90 {
        match c {
            'A' => 'a',
            'B' => 'b',
            'C' => 'c',
            'D' => 'd',
            'E' => 'e',
            'F' => 'f',
            'G' => 'g',
            'H' => 'h',
            'I' => 'i',
            'J' => 'j',
            'K' => 'k',
            'L' => 'l',
            'M' => 'm',
            'N' => 'n',
            'O' => 'o',
            'P' => 'p',
            'Q' => 'q',
            'R' => 'r',
            'S' => 's',
            'T' => 't',
            'U' => 'u',
            'V' => 'v',
            'W' => 'w',
            'X' => 'x',
            'Y' => 'y',
            _ => 'z',
        }
    } else {
        c
    }
}

pub fn to_upper_char(c: char) -> (r: char)
    ensures
        r == upper_char(c),
{
    let u = c as u32;
    if 97 <= u && u <= 122 {
        match c {
            'a' => 'A',
            'b' => 'B',
            'c' => 'C',
            'd' => 'D',
            'e' => 'E',
            'f' => 'F',
            'g' => 'G',
            'h' => 'H',
            'i' => 'I',
            'j' => 'J',
            'k' => 'K',
            'l' => 'L',
            'm' => 'M',
            'n' => 'N',
            'o' => 'O',
            'p' => 'P',
            'q' => 'Q',
            'r' => 'R',
            's' => 'S',
            't' => 'T',
            'u' => 'U',
            'v' => 'V',
            'w' => 'W',
            'x' => 'X',
            'y' => 'Y',
            _ => 'Z',
        }
    } else {
        c
    }
}

// ===== building strings =====

/// Relies on std's `String::push`: appends exactly one character at the end.
pub assume_specification[ String::push ](s: &mut String, c: char)
    ensures
        final(s)@ == old(s)@.push(c),
;

pub fn str_to_chars(s: &str) -> (r: Vec<char>)
    ensures
        r@ == s@,
{
    let n = s.unicode_len();
    let mut r: Vec<char> = Vec::new();
    let mut i: usize = 0;
    while i < n
        invariant
            n == s@.len(),
            i <= n,
            r@ == s@.subrange(0, i as int),
        decreases n - i,
    {
        r.push(s.get_char(i));
        i += 1;
        proof {
            assert(r@ =~= s@.subrange(0, i as int));
        }
    }
    proof {
        assert(r@ =~= s@);
    }
    r
}

pub fn chars_to_string(v: &Vec<char>) -> (r: String)
    ensures
        r@ == v@,
{
    let mut r = String::new();
    let mut i: usize = 0;
    while i < v.len()
        invariant
            i <= v.len(),
            r@ == v@.subrange(0, i as int),
        decreases v.len() - i,
    {
        r.push(v[i]);
        i += 1;
        proof {
            assert(r@ =~= v@.subrange(0, i as int));
        }
    }
    proof {
        assert(r@ =~= v@);
    }
    r
}

pub fn chars_extend(out: &mut Vec<char>, tail: &Vec<char>)
    ensures
        final(out)@ == old(out)@ + tail@,
{
    let mut i: usize = 0;
    while i < tail.len()
        invariant
            i <= tail@.len(),
            out@ == old(out)@ + tail@.subrange(0, i as int),
        decreases tail@.len() - i,
    {
        out.push(tail[i]);
        i += 1;
        proof {
            assert(out@ =~= old(out)@ + tail@.subrange(0, i as int));
        }
    }
    proof {
        assert(out@ =~= old(out)@ + tail@);
    }
}

// ===== comparison =====

pub fn str_eq(a: &str, b: &str) -> (r: bool)
    ensures
        r == (a@ == b@),
{
    let an = a.unicode_len();
    let bn = b.unicode_len();
    if an != bn {
        proof {
            if a@ == b@ {
                assert(a@.len() == b@.len());
            }
        }
        return false;
    }
    let mut i: usize = 0;
    while i < an
        invariant
            an == a@.len(),
            bn == b@.len(),
            an == bn,
            i <= an,
            forall|j: int| 0 <= j < i ==> a@[j] == b@[j],
        decreases an - i,
    {
        if a.get_char(i) != b.get_char(i) {
            proof {
                if a@ == b@ {
                    assert(a@[i as int] == b@[i as int]);
                }
            }
            return false;
        }
        i += 1;
    }
    proof {
        assert(a@ =~= b@);
    }
    true
}

pub open spec fn starts_with_spec(s: Seq<char>, p: Seq<char>) -> bool {
    p.len() <= s.len() && s.subrange(0, p.len() as int) == p
}

pub fn str_starts_with(s: &str, p: &str) -> (r: bool)
    ensures
        r == starts_with_spec(s@, p@),
{
    let sn = s.unicode_len();
    let pn = p.unicode_len();
    if pn > sn {
        return false;
    }
    let mut i: usize = 0;
    while i < pn
        invariant
            sn == s@.len(),
            pn == p@.len(),
            pn <= sn,
            i <= pn,
            forall|j: int| 0 <= j < i ==> s@[j] == p@[j],
        decreases pn - i,
    {
        if s.get_char(i) != p.get_char(i) {
            proof {
                if starts_with_spec(s@, p@) {
                    assert(s@.subrange(0, p@.len() as int)[i as int] == p@[i as int]);
                }
            }
            return false;
        }
        i += 1;
    }
    proof {
        assert(s@.subrange(0, p@.len() as int) =~= p@);
    }
    true
}

// ===== searching =====

pub fn find_char(s: &str, c: char) -> (r: Option<usize>)
    ensures
        match r {
            Some(i) => i < s@.len() && s@[i as int] == c && forall|j: int|
                0 <= j < i ==> s@[j] != c,
            None => forall|j: int| 0 <= j < s@.len() ==> s@[j] != c,
        },
{
    let n = s.unicode_len();
    let mut i: usize = 0;
    while i < n
        invariant
            n == s@.len(),
            i <= n,
            forall|j: int| 0 <= j < i ==> s@[j] != c,
        decreases n - i,
    {
        if s.get_char(i) == c {
            return Some(i);
        }
        i += 1;
    }
    None
}

// ===== trimming =====

pub open spec fn spec_trim_start(s: Seq<char>) -> Seq<char>
    decreases s.len(),
{
    if s.len() > 0 && is_space_char(s[0]) {
        spec_trim_start(s.skip(1))
    } else {
        s
    }
}

pub open spec fn spec_trim_end(s: Seq<char>) -> Seq<char>
    decreases s.len(),
{
    if s.len() > 0 && is_space_char(s[s.len() - 1]) {
        spec_trim_end(s.take(s.len() - 1))
    } else {
        s
    }
}

/// What `str::trim` returns: the input without leading and trailing
/// whitespace.
pub open spec fn spec_trim(s: Seq<char>) -> Seq<char> {
    spec_trim_end(spec_trim_start(s))
}

pub fn trim<'a>(s: &'a str) -> (r: &'a str)
    ensures
        r@ == spec_trim(s@),
{
    let n = s.unicode_len();
    let mut lo: usize = 0;
    proof {
        assert(s@.skip(0) =~= s@);
    }
    while lo < n && is_space(s.get_char(lo))
        invariant
            n == s@.len(),
            lo <= n,
            spec_trim_start(s@.skip(lo as int)) == spec_trim_start(s@),
        decreases n - lo,
    {
        proof {
            assert(s@.skip(lo as int)[0] == s@[lo as int]);
            assert(s@.skip(lo as int).skip(1) =~= s@.skip(lo as int + 1));
        }
        lo += 1;
    }
    proof {
        if lo < n {
            assert(s@.skip(lo as int)[0] == s@[lo as int]);
        }
        assert(spec_trim_start(s@) == s@.skip(lo as int));
        assert(s@.subrange(lo as int, n as int) =~= s@.skip(lo as int));
    }
    let mut hi: usize = n;
    while hi > lo && is_space(s.get_char(hi - 1))
        invariant
            n == s@.len(),
            lo <= hi <= n,
            spec_trim_start(s@) == s@.skip(lo as int),
            spec_trim_end(s@.subrange(lo as int, hi as int)) == spec_trim_end(
                s@.skip(lo as int),
            ),
        decreases hi,
    {
        proof {
            let cur = s@.subrange(lo as int, hi as int);
            assert(cur[cur.len() - 1] == s@[hi as int - 1]);
            assert(cur.take(cur.len() - 1) =~= s@.subrange(lo as int, hi as int - 1));
        }
        hi -= 1;
    }
    proof {
        let cur = s@.subrange(lo as int, hi as int);
        if hi > lo {
            assert(cur[cur.len() - 1] == s@[hi as int - 1]);
        }
        assert(spec_trim_end(cur) == cur);
    }
    s.substring_char(lo, hi)
}

// ===== decimal rendering =====

pub open spec fn digit_char(d: int) -> char {
    (48 + d) as char
}

/// The decimal digits of a non-negative integer, most significant first.
pub open spec fn spec_u64_digits(n: int) -> Seq<char>
    decreases n,
{
    if n < 0 {
        Seq::empty()
    } else if n < 10 {
        seq![digit_char(n)]
    } else {
        spec_u64_digits(n / 10).push(digit_char(n % 10))
    }
}

fn digit_to_char(d: u64) -> (c: char)
    requires
        d < 10,
    ensures
        c == digit_char(d as int),
{
    match d {
        0 => '0',
        1 => '1',
        2 => '2',
        3 => '3',
        4 => '4',
        5 => '5',
        6 => '6',
        7 => '7',
        8 => '8',
        _ => '9',
    }
}

pub fn u64_to_string(n: u64) -> (r: String)
    ensures
        r@ == spec_u64_digits(n as int),
    decreases n,
{
    let d: u64 = n % 10;
    let c: char = digit_to_char(d);
    if n < 10 {
        let mut s = String::new();
        s.push(c);
        proof {
            assert(s@ =~= spec_u64_digits(n as int));
        }
        s
    } else {
        let mut s = u64_to_string(n / 10);
        s.push(c);
        s
    }
}

/// The decimal rendering of a signed integer: a minus sign for negative
/// values, then the digits.
pub open spec fn spec_i32_string(n: int) -> Seq<char> {
    if n < 0 {
        seq!['-'] + spec_u64_digits(-n)
    } else {
        spec_u64_digits(n)
    }
}

pub fn i32_to_string(n: i32) -> (r: String)
    ensures
        r@ == spec_i32_string(n as int),
{
    if n >= 0 {
        u64_to_string(n as u64)
    } else {
        let wide: i64 = n as i64;
        let mag: u64 = (-wide) as u64;
        let digits = u64_to_string(mag);
        let mut s = String::new();
        s.push('-');
        s.append(digits.as_str());
        proof {
            assert(s@ =~= seq!['-'] + spec_u64_digits(-(n as int)));
        }
        s
    }
}

proof fn lemma_digit_char_injective(x: int, y: int)
    requires
        0 <= x < 10,
        0 <= y < 10,
        digit_char(x) == digit_char(y),
    ensures
        x == y,
{
    assert(digit_char(x) as u32 == 48 + x);
    assert(digit_char(y) as u32 == 48 + y);
}

proof fn lemma_u64_digits_len(n: int)
    requires
        0 <= n,
    ensures
        spec_u64_digits(n).len() >= 1,
    decreases n,
{
    if n >= 10 {
        lemma_u64_digits_len(n / 10);
    }
}

/// Distinct non-negative integers render to distinct digit strings.
pub proof fn lemma_u64_digits_injective(a: int, b: int)
    requires
        0 <= a,
        0 <= b,
        spec_u64_digits(a) == spec_u64_digits(b),
    ensures
        a == b,
    decreases a,
{
    vstd::arithmetic::div_mod::lemma_fundamental_div_mod(a, 10);
    vstd::arithmetic::div_mod::lemma_fundamental_div_mod(b, 10);
    if a < 10 && b < 10 {
        assert(spec_u64_digits(a)[0] == digit_char(a));
        assert(spec_u64_digits(b)[0] == digit_char(b));
        lemma_digit_char_injective(a, b);
    } else if a < 10 {
        lemma_u64_digits_len(b / 10);
        assert(spec_u64_digits(b).len() >= 2);
        assert(spec_u64_digits(a).len() == 1);
    } else if b < 10 {
        lemma_u64_digits_len(a / 10);
        assert(spec_u64_digits(a).len() >= 2);
        assert(spec_u64_digits(b).len() == 1);
    } else {
        let sa = spec_u64_digits(a);
        let sb = spec_u64_digits(b);
        assert(sa.last() == digit_char(a % 10));
        assert(sb.last() == digit_char(b % 10));
        lemma_digit_char_injective(a % 10, b % 10);
        assert(sa.drop_last() =~= spec_u64_digits(a / 10));
        assert(sb.drop_last() =~= spec_u64_digits(b / 10));
        lemma_u64_digits_injective(a / 10, b / 10);
    }
}

} // verus!
