//! Decimal formatting and parsing of integers, and small string helpers.
use vstd::prelude::*;

verus! {

/// The character of the decimal digit `d` (`0 <= d < 10`).
pub open spec fn digit_char(d: int) -> char {
    (48 + d) as char
}

/// Whether `c` is one of the ASCII decimal digits.
pub open spec fn is_digit(c: char) -> bool {
    '0' <= c && c <= '9'
}

/// The value of a decimal digit character.
pub open spec fn digit_value(c: char) -> int {
    c as int - 48
}

/// Decimal representation of a natural number, without leading zeros.
pub open spec fn nat_decimal(n: nat) -> Seq<char>
    decreases n,
{
    if n < 10 {
        seq![digit_char(n as int)]
    } else {
        nat_decimal(n / 10).push(digit_char((n % 10) as int))
    }
}

/// Decimal representation of an integer, with a leading `-` when negative.
pub open spec fn int_decimal(n: int) -> Seq<char> {
    if n < 0 {
        seq!['-'] + nat_decimal((-n) as nat)
    } else {
        nat_decimal(n as nat)
    }
}

/// Appends one character to a string (`String::push`).
#[verifier::external_body]
pub(crate) fn push_char(s: &mut String, c: char)
    ensures
        final(s)@ == old(s)@.push(c),
{
    s.push(c);
}

fn digit_to_char(d: u64) -> (c: char)
    requires
        d < 10,
    ensures
        c == digit_char(d as int),
{
    let b: u8 = 48u8 + (d as u8);
    b as char
}

/// Appends the decimal representation of `n` to `s`.
pub fn write_u64(s: &mut String, n: u64)
    ensures
        final(s)@ == old(s)@ + nat_decimal(n as nat),
    decreases n,
{
    if n >= 10 {
        write_u64(s, n / 10);
    }
    push_char(s, digit_to_char(n % 10));
    proof {
        assert(old(s)@ + nat_decimal(n as nat) =~= s@);
    }
}

/// Appends the decimal representation of `n` to `s`.
pub fn write_i64(s: &mut String, n: i64)
    ensures
        final(s)@ == old(s)@ + int_decimal(n as int),
{
    if n < 0 {
        push_char(s, '-');
        let m: u64 = ((-(n + 1)) as u64) + 1;
        write_u64(s, m);
        proof {
            assert(old(s)@ + int_decimal(n as int) =~= s@);
        }
    } else {
        write_u64(s, n as u64);
    }
}

/// Decimal representation of `n`.
pub fn u64_to_string(n: u64) -> (s: String)
    ensures
        s@ == nat_decimal(n as nat),
{
    let mut s = String::new();
    write_u64(&mut s, n);
    proof {
        assert(s@ =~= nat_decimal(n as nat));
    }
    s
}

/// Decimal representation of `n`.
pub fn i64_to_string(n: i64) -> (s: String)
    ensures
        s@ == int_decimal(n as int),
{
    let mut s = String::new();
    write_i64(&mut s, n);
    proof {
        assert(s@ =~= int_decimal(n as int));
    }
    s
}

/// The characters of a string slice, in order.
pub fn chars_of(s: &str) -> (v: Vec<char>)
    ensures
        v@ == s@,
{
    let n = s.unicode_len();
    let mut v: Vec<char> = Vec::new();
    let mut i: usize = 0;
    while i < n
        invariant
            n == s@.len(),
            i <= n,
            v@ == s@.subrange(0, i as int),
        decreases n - i,
    {
        let c = s.get_char(i);
        v.push(c);
        i = i + 1;
        proof {
            assert(v@ =~= s@.subrange(0, i as int));
        }
    }
    proof {
        assert(v@ =~= s@);
    }
    v
}

/// A string holding the characters `cs[from..to]`.
pub fn string_from_chars(cs: &Vec<char>, from: usize, to: usize) -> (s: String)
    requires
        from <= to <= cs@.len(),
    ensures
        s@ == cs@.subrange(from as int, to as int),
{
    let mut s = String::new();
    let mut i = from;
    while i < to
        invariant
            from <= i <= to,
            to <= cs@.len(),
            s@ == cs@.subrange(from as int, i as int),
        decreases to - i,
    {
        push_char(&mut s, cs[i]);
        i = i + 1;
        proof {
            assert(s@ =~= cs@.subrange(from as int, i as int));
        }
    }
    s
}

/// Value of a sequence of decimal digits (the empty sequence has value 0).
pub open spec fn digits_value(s: Seq<char>) -> nat
    decreases s.len(),
{
    if s.len() == 0 {
        0
    } else {
        (digits_value(s.drop_last()) * 10 + digit_value(s.last())) as nat
    }
}

/// Whether every character of `s` is a decimal digit.
pub open spec fn all_digits(s: Seq<char>) -> bool {
    forall|i: int| 0 <= i < s.len() ==> is_digit(#[trigger] s[i])
}

/// What `u64::from_str` accepts: an optional `+`, then one or more digits whose value fits.
pub open spec fn parse_u64_spec(s: Seq<char>) -> Option<u64> {
    let body = if s.len() > 0 && s[0] == '+' { s.drop_first() } else { s };
    if body.len() > 0 && all_digits(body) && digits_value(body) <= u64::MAX {
        Some(digits_value(body) as u64)
    } else {
        None
    }
}

/// What `i32::from_str` (and `i64::from_str` with `lo`/`hi` of `i64`) accepts: an optional
/// sign, then one or more digits whose signed value lies in `[lo, hi]`.
pub open spec fn parse_signed_spec(s: Seq<char>, lo: int, hi: int) -> Option<int> {
    let neg = s.len() > 0 && s[0] == '-';
    let body = if s.len() > 0 && (s[0] == '+' || s[0] == '-') { s.drop_first() } else { s };
    if body.len() > 0 && all_digits(body) {
        let v: int = if neg { -(digits_value(body) as int) } else { digits_value(body) as int };
        if lo <= v <= hi {
            Some(v)
        } else {
            None
        }
    } else {
        None
    }
}

proof fn lemma_digits_value_prefix(s: Seq<char>, i: int)
    requires
        0 <= i <= s.len(),
        all_digits(s),
    ensures
        digits_value(s.subrange(0, i)) <= digits_value(s),
    decreases s.len() - i,
{
    if i < s.len() {
        lemma_digits_value_prefix(s, i + 1);
        let p = s.subrange(0, i + 1);
        assert(p.drop_last() =~= s.subrange(0, i));
        assert(is_digit(s[i]));
    } else {
        assert(s.subrange(0, i) =~= s);
    }
}

/// Parses the digits `cs[from..to]` into a natural number, or `None` when its value exceeds
/// `bound`.
fn parse_digits(cs: &Vec<char>, from: usize, to: usize, bound: u64) -> (r: Option<u64>)
    requires
        from <= to <= cs@.len(),
        all_digits(cs@.subrange(from as int, to as int)),
    ensures
        r == (if digits_value(cs@.subrange(from as int, to as int)) <= bound {
            Some(digits_value(cs@.subrange(from as int, to as int)) as u64)
        } else {
            None::<u64>
        }),
{
    let ghost body = cs@.subrange(from as int, to as int);
    let mut acc: u64 = 0;
    let mut i = from;
    while i < to
        invariant
            from <= i <= to,
            to <= cs@.len(),
            body == cs@.subrange(from as int, to as int),
            all_digits(body),
            acc as nat == digits_value(cs@.subrange(from as int, i as int)),
            acc <= bound,
        decreases to - i,
    {
        let c = cs[i];
        proof {
            assert(body[i - from] == c);
            assert(is_digit(c));
        }
        let d: u64 = (c as u32 - 48u32) as u64;
        let ghost next = cs@.subrange(from as int, i + 1);
        proof {
            assert(next.drop_last() =~= cs@.subrange(from as int, i as int));
            assert(next.last() == c);
        }
        if d > bound || acc > (bound - d) / 10 {
            proof {
                if d <= bound {
                    assert(acc * 10 + d > bound) by (nonlinear_arith)
                        requires
                            acc > (bound - d) / 10,
                            d <= bound,
                    ;
                }
                assert(digits_value(next) > bound);
                assert(next =~= body.subrange(0, i + 1 - from));
                lemma_digits_value_prefix(body, i + 1 - from);
            }
            return None;
        }
        proof {
            assert(acc * 10 + d <= bound) by (nonlinear_arith)
                requires
                    acc <= (bound - d) / 10,
                    d < 10,
                    d <= bound,
            ;
        }
        acc = acc * 10 + d;
        i = i + 1;
    }
    Some(acc)
}

/// Whether every character of `cs[from..to]` is a decimal digit.
fn check_all_digits(cs: &Vec<char>, from: usize, to: usize) -> (b: bool)
    requires
        from <= to <= cs@.len(),
    ensures
        b == all_digits(cs@.subrange(from as int, to as int)),
{
    let mut i = from;
    while i < to
        invariant
            from <= i <= to,
            to <= cs@.len(),
            all_digits(cs@.subrange(from as int, i as int)),
        decreases to - i,
    {
        let c = cs[i];
        if !('0' <= c && c <= '9') {
            proof {
                let t = cs@.subrange(from as int, to as int);
                assert(t[i - from] == c);
            }
            return false;
        }
        i = i + 1;
        proof {
            let t = cs@.subrange(from as int, i as int);
            assert forall|k: int| 0 <= k < t.len() implies is_digit(#[trigger] t[k]) by {
                if k < t.len() - 1 {
                    assert(t[k] == cs@.subrange(from as int, (i - 1) as int)[k]);
                }
            }
        }
    }
    true
}

/// `u64::from_str` on the characters `cs[from..to]`.
pub fn parse_u64_chars(cs: &Vec<char>, from: usize, to: usize) -> (r: Option<u64>)
    requires
        from <= to <= cs@.len(),
    ensures
        r == parse_u64_spec(cs@.subrange(from as int, to as int)),
{
    let ghost s = cs@.subrange(from as int, to as int);
    let start = if from < to && cs[from] == '+' { from + 1 } else { from };
    proof {
        let body = if s.len() > 0 && s[0] == '+' { s.drop_first() } else { s };
        assert(body =~= cs@.subrange(start as int, to as int));
    }
    if start < to && check_all_digits(cs, start, to) {
        parse_digits(cs, start, to, u64::MAX)
    } else {
        None
    }
}

/// `i64::from_str` on the characters `cs[from..to]`, further restricted to `[lo, hi]`
/// (`i32::from_str` is the case `lo == i32::MIN`, `hi == i32::MAX`).
pub fn parse_signed_chars(cs: &Vec<char>, from: usize, to: usize, lo: i64, hi: i64) -> (r: Option<i64>)
    requires
        from <= to <= cs@.len(),
        lo < 0 < hi,
    ensures
        r == (match parse_signed_spec(cs@.subrange(from as int, to as int), lo as int, hi as int) {
            Some(v) => Some(v as i64),
            None => None::<i64>,
        }),
{
    let ghost s = cs@.subrange(from as int, to as int);
    let neg = from < to && cs[from] == '-';
    let start = if from < to && (cs[from] == '+' || cs[from] == '-') { from + 1 } else { from };
    proof {
        let body = if s.len() > 0 && (s[0] == '+' || s[0] == '-') { s.drop_first() } else { s };
        assert(body =~= cs@.subrange(start as int, to as int));
    }
    if !(start < to && check_all_digits(cs, start, to)) {
        return None;
    }
    let bound: u64 = if neg { ((-(lo + 1)) as u64) + 1 } else { hi as u64 };
    match parse_digits(cs, start, to, bound) {
        None => None,
        Some(v) => {
            if neg {
                if v == 0 {
                    Some(0)
                } else {
                    Some(-((v - 1) as i64) - 1)
                }
            } else {
                Some(v as i64)
            }
        }
    }
}

/// `u64::from_str`.
pub fn parse_u64(s: &str) -> (r: Option<u64>)
    ensures
        r == parse_u64_spec(s@),
{
    let cs = chars_of(s);
    proof {
        assert(cs@.subrange(0, cs@.len() as int) =~= s@);
    }
    parse_u64_chars(&cs, 0, cs.len())
}

/// Whether two strings hold the same characters.
pub fn str_eq(a: &str, b: &str) -> (r: bool)
    ensures
        r == (a@ == b@),
{
    let n = a.unicode_len();
    let m = b.unicode_len();
    if n != m {
        return false;
    }
    let mut i: usize = 0;
    while i < n
        invariant
            n == a@.len(),
            n == b@.len(),
            i <= n,
            a@.subrange(0, i as int) == b@.subrange(0, i as int),
        decreases n - i,
    {
        if a.get_char(i) != b.get_char(i) {
            return false;
        }
        proof {
            assert(a@.subrange(0, i + 1) =~= a@.subrange(0, i as int).push(a@[i as int]));
            assert(b@.subrange(0, i + 1) =~= b@.subrange(0, i as int).push(b@[i as int]));
        }
        i = i + 1;
    }
    proof {
        assert(a@ =~= a@.subrange(0, n as int));
        assert(b@ =~= b@.subrange(0, n as int));
    }
    true
}

/// Whether one of the strings of `list` holds the same characters as `s`.
pub open spec fn texts_contain(list: Seq<String>, s: Seq<char>) -> bool {
    exists|i: int| 0 <= i < list.len() && (#[trigger] list[i])@ == s
}

/// Whether one of the strings of `list` holds the same characters as `s`.
pub fn contains_text(list: &Vec<String>, s: &str) -> (r: bool)
    ensures
        r == texts_contain(list@, s@),
{
    let mut i: usize = 0;
    while i < list.len()
        invariant
            i <= list@.len(),
            forall|k: int| 0 <= k < i ==> (#[trigger] list@[k])@ != s@,
        decreases list@.len() - i,
    {
        if str_eq(list[i].as_str(), s) {
            return true;
        }
        i = i + 1;
    }
    false
}

/// Whether `s` begins with the characters of `prefix`.
pub open spec fn has_prefix(s: Seq<char>, prefix: Seq<char>) -> bool {
    prefix.len() <= s.len() && s.subrange(0, prefix.len() as int) == prefix
}

/// Whether `s` begins with the characters of `prefix` (`str::starts_with`).
pub fn starts_with(s: &str, prefix: &str) -> (r: bool)
    ensures
        r == has_prefix(s@, prefix@),
{
    let n = s.unicode_len();
    let m = prefix.unicode_len();
    if m > n {
        return false;
    }
    let mut i: usize = 0;
    while i < m
        invariant
            n == s@.len(),
            m == prefix@.len(),
            m <= n,
            i <= m,
            s@.subrange(0, i as int) == prefix@.subrange(0, i as int),
        decreases m - i,
    {
        if s.get_char(i) != prefix.get_char(i) {
            proof {
                assert(s@.subrange(0, m as int)[i as int] == s@[i as int]);
            }
            return false;
        }
        proof {
            assert(s@.subrange(0, i + 1) =~= s@.subrange(0, i as int).push(s@[i as int]));
            assert(prefix@.subrange(0, i + 1) =~= prefix@.subrange(0, i as int).push(
                prefix@[i as int],
            ));
        }
        i = i + 1;
    }
    proof {
        assert(prefix@ =~= prefix@.subrange(0, m as int));
    }
    true
}

/// The ASCII lower case of a character; other characters are kept.
pub open spec fn ascii_lower(c: char) -> char {
    if 'A' <= c <= 'Z' {
        ((c as u32) + 32) as char
    } else {
        c
    }
}

/// The ASCII lower case of a sequence of characters.
pub open spec fn ascii_lower_seq(s: Seq<char>) -> Seq<char> {
    Seq::new(s.len(), |i: int| ascii_lower(s[i]))
}

fn ascii_lower_char(c: char) -> (r: char)
    ensures
        r == ascii_lower(c),
{
    if 'A' <= c && c <= 'Z' {
        let v: u8 = ((c as u32) + 32) as u8;
        v as char
    } else {
        c
    }
}

/// The string with its ASCII upper case letters made lower case (`str::to_ascii_lowercase`).
pub fn to_ascii_lowercase(s: &str) -> (r: String)
    ensures
        r@ == ascii_lower_seq(s@),
{
    let n = s.unicode_len();
    let mut r = String::new();
    let mut i: usize = 0;
    while i < n
        invariant
            n == s@.len(),
            i <= n,
            r@ == ascii_lower_seq(s@.subrange(0, i as int)),
        decreases n - i,
    {
        let c = ascii_lower_char(s.get_char(i));
        push_char(&mut r, c);
        proof {
            assert(ascii_lower_seq(s@.subrange(0, i + 1)) =~= ascii_lower_seq(
                s@.subrange(0, i as int),
            ).push(c));
        }
        i = i + 1;
    }
    proof {
        assert(s@ =~= s@.subrange(0, n as int));
    }
    r
}

/// Whether two strings are equal but for ASCII case (`str::eq_ignore_ascii_case`).
pub fn eq_ignore_ascii_case(a: &str, b: &str) -> (r: bool)
    ensures
        r == (ascii_lower_seq(a@) == ascii_lower_seq(b@)),
{
    let la = to_ascii_lowercase(a);
    let lb = to_ascii_lowercase(b);
    str_eq(la.as_str(), lb.as_str())
}

proof fn lemma_digit_char_value(d: int)
    requires
        0 <= d < 10,
    ensures
        digit_value(digit_char(d)) == d,
        is_digit(digit_char(d)),
{
    assert(((48 + d) as char) as int == 48 + d);
}

/// Reading back the decimal representation of a natural number gives the number.
pub proof fn lemma_decimal_value(n: nat)
    ensures
        digits_value(nat_decimal(n)) == n,
        all_digits(nat_decimal(n)),
        nat_decimal(n).len() > 0,
    decreases n,
{
    lemma_digit_char_value((n % 10) as int);
    if n < 10 {
        let s = nat_decimal(n);
        assert(s.drop_last() =~= Seq::<char>::empty());
        assert(s.last() == digit_char(n as int));
        assert(digits_value(s.drop_last()) == 0);
        assert(digit_value(s.last()) == n);
        assert(digits_value(s) == n);
    } else {
        lemma_decimal_value(n / 10);
        let s = nat_decimal(n);
        assert(s.drop_last() =~= nat_decimal(n / 10));
        assert(s.last() == digit_char((n % 10) as int));
        assert(digits_value(s.drop_last()) == n / 10);
        assert(digit_value(s.last()) == n % 10);
        assert(digits_value(s) == n);
        assert forall|i: int| 0 <= i < s.len() implies is_digit(#[trigger] s[i]) by {
            if i < s.len() - 1 {
                assert(s[i] == nat_decimal(n / 10)[i]);
            }
        }
    }
}

/// Different natural numbers have different decimal representations.
pub proof fn lemma_decimal_injective(a: nat, b: nat)
    ensures
        nat_decimal(a) == nat_decimal(b) ==> a == b,
{
    lemma_decimal_value(a);
    lemma_decimal_value(b);
}

/// Parsing the decimal text of a `u64` gives it back.
pub proof fn lemma_parse_u64_of_decimal(n: u64)
    ensures
        parse_u64_spec(nat_decimal(n as nat)) == Some(n),
{
    lemma_decimal_value(n as nat);
    let s = nat_decimal(n as nat);
    assert(s[0] != '+') by {
        assert(is_digit(s[0]));
    }
}

/// The decimal representation of an integer holds no character but digits and a leading `-`.
pub proof fn lemma_int_decimal_chars(n: int)
    ensures
        forall|i: int|
            0 <= i < int_decimal(n).len() ==> is_digit(#[trigger] int_decimal(n)[i]) || (i == 0
                && int_decimal(n)[i] == '-'),
        int_decimal(n).len() > 0,
        (int_decimal(n)[0] == '-') == (n < 0),
{
    if n < 0 {
        lemma_decimal_value((-n) as nat);
        let d = nat_decimal((-n) as nat);
        assert forall|i: int| 0 <= i < int_decimal(n).len() implies is_digit(
            #[trigger] int_decimal(n)[i],
        ) || (i == 0 && int_decimal(n)[i] == '-') by {
            if i > 0 {
                assert(int_decimal(n)[i] == d[i - 1]);
            }
        }
    } else {
        lemma_decimal_value(n as nat);
        assert(is_digit(nat_decimal(n as nat)[0]));
    }
}

/// Different integers have different decimal representations.
pub proof fn lemma_int_decimal_injective(a: int, b: int)
    ensures
        int_decimal(a) == int_decimal(b) ==> a == b,
{
    lemma_int_decimal_chars(a);
    lemma_int_decimal_chars(b);
    if int_decimal(a) == int_decimal(b) {
        if a < 0 {
            assert(b < 0);
            assert(nat_decimal((-a) as nat) =~= int_decimal(a).drop_first());
            assert(nat_decimal((-b) as nat) =~= int_decimal(b).drop_first());
            lemma_decimal_injective((-a) as nat, (-b) as nat);
        } else {
            assert(b >= 0);
            lemma_decimal_injective(a as nat, b as nat);
        }
    }
}

} // verus!
