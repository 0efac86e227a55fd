//! Decimal text: formatting integers as decimal strings and parsing them
//! back, with the lemmas the cache-key and header-parsing proofs need.

use vstd::prelude::*;

verus! {

/// The character for a single decimal digit value.
pub open spec fn spec_digit_char(d: nat) -> char {
    if d == 0 {
        '0'
    } else if d == 1 {
        '1'
    } else if d == 2 {
        '2'
    } else if d == 3 {
        '3'
    } else if d == 4 {
        '4'
    } else if d == 5 {
        '5'
    } else if d == 6 {
        '6'
    } else if d == 7 {
        '7'
    } else if d == 8 {
        '8'
    } else {
        '9'
    }
}

/// Whether a character is a decimal digit.
pub open spec fn spec_is_digit(c: char) -> bool {
    '0' <= c && c <= '9'
}

/// The numeric value of a decimal digit character.
pub open spec fn spec_digit_val(c: char) -> nat {
    ((c as int) - ('0' as int)) as nat
}

/// The canonical decimal form of a natural number: no leading zeros,
/// most significant digit first.
pub open spec fn spec_dec(n: nat) -> Seq<char>
    decreases n,
{
    if n < 10 {
        seq![spec_digit_char(n)]
    } else {
        spec_dec(n / 10).push(spec_digit_char(n % 10))
    }
}

pub proof fn lemma_digit_char_is_digit(d: nat)
    requires
        d < 10,
    ensures
        spec_is_digit(spec_digit_char(d)),
        spec_digit_val(spec_digit_char(d)) == d,
{
}

/// Every character of a decimal form is a digit.
pub proof fn lemma_dec_all_digits(n: nat)
    ensures
        forall|i: int| 0 <= i < spec_dec(n).len() ==> spec_is_digit(#[trigger] spec_dec(n)[i]),
    decreases n,
{
    if n < 10 {
        lemma_digit_char_is_digit(n);
    } else {
        lemma_dec_all_digits(n / 10);
        lemma_digit_char_is_digit(n % 10);
        assert forall|i: int| 0 <= i < spec_dec(n).len() implies spec_is_digit(
            #[trigger] spec_dec(n)[i],
        ) by {
            if i < spec_dec(n).len() - 1 {
                assert(spec_dec(n)[i] == spec_dec(n / 10)[i]);
            } else {
                assert(spec_dec(n)[i] == spec_digit_char(n % 10));
            }
        }
    }
}

/// A decimal form is never empty, and has two or more digits exactly for
/// numbers of ten and above.
pub proof fn lemma_dec_len(n: nat)
    ensures
        spec_dec(n).len() >= 1,
        n >= 10 ==> spec_dec(n).len() >= 2,
    decreases n,
{
    if n >= 10 {
        lemma_dec_len(n / 10);
    }
}

/// Distinct numbers have distinct decimal forms.
pub proof fn lemma_dec_injective(a: nat, b: nat)
    requires
        spec_dec(a) == spec_dec(b),
    ensures
        a == b,
    decreases a,
{
    lemma_dec_len(a);
    lemma_dec_len(b);
    if a < 10 && b < 10 {
        assert(spec_dec(a)[0] == spec_digit_char(a));
        assert(spec_dec(b)[0] == spec_digit_char(b));
    } else if a < 10 {
        assert(spec_dec(a).len() == 1);
        assert(spec_dec(b).len() >= 2);
    } else if b < 10 {
        assert(spec_dec(b).len() == 1);
        assert(spec_dec(a).len() >= 2);
    } else {
        assert(spec_dec(a).last() == spec_digit_char(a % 10));
        assert(spec_dec(b).last() == spec_digit_char(b % 10));
        assert(a % 10 == b % 10);
        assert(spec_dec(a).drop_last() =~= spec_dec(a / 10));
        assert(spec_dec(b).drop_last() =~= spec_dec(b / 10));
        lemma_dec_injective(a / 10, b / 10);
    }
}

/// The decimal form of an integer: a minus sign before the magnitude for
/// negative numbers, the plain magnitude otherwise.
pub open spec fn spec_dec_int(n: int) -> Seq<char> {
    if n < 0 {
        seq!['-'] + spec_dec((-n) as nat)
    } else {
        spec_dec(n as nat)
    }
}

/// Distinct integers have distinct decimal forms.
pub proof fn lemma_dec_int_injective(a: int, b: int)
    requires
        spec_dec_int(a) == spec_dec_int(b),
    ensures
        a == b,
{
    lemma_dec_all_digits((-a) as nat);
    lemma_dec_all_digits((-b) as nat);
    lemma_dec_all_digits(a as nat);
    lemma_dec_all_digits(b as nat);
    lemma_dec_len((-a) as nat);
    lemma_dec_len((-b) as nat);
    lemma_dec_len(a as nat);
    lemma_dec_len(b as nat);
    if a < 0 && b < 0 {
        assert(spec_dec_int(a).skip(1) =~= spec_dec((-a) as nat));
        assert(spec_dec_int(b).skip(1) =~= spec_dec((-b) as nat));
        lemma_dec_injective((-a) as nat, (-b) as nat);
    } else if a < 0 {
        assert(spec_dec_int(a)[0] == '-');
        assert(spec_is_digit(spec_dec_int(b)[0]));
    } else if b < 0 {
        assert(spec_dec_int(b)[0] == '-');
        assert(spec_is_digit(spec_dec_int(a)[0]));
    } else {
        lemma_dec_injective(a as nat, b as nat);
    }
}

/// No character of an integer's decimal form is a colon (or any other
/// character outside the digits and the minus sign).
pub proof fn lemma_dec_int_chars(n: int)
    ensures
        forall|i: int|
            0 <= i < spec_dec_int(n).len() ==> (spec_is_digit(#[trigger] spec_dec_int(n)[i])
                || spec_dec_int(n)[i] == '-'),
{
    lemma_dec_all_digits((-n) as nat);
    lemma_dec_all_digits(n as nat);
    if n < 0 {
        assert forall|i: int| 0 <= i < spec_dec_int(n).len() implies (spec_is_digit(
            #[trigger] spec_dec_int(n)[i],
        ) || spec_dec_int(n)[i] == '-') by {
            if i > 0 {
                assert(spec_dec_int(n)[i] == spec_dec((-n) as nat)[i - 1]);
            }
        }
    }
}

/// The Unicode `White_Space` characters, the set `str::trim` removes.
pub open spec fn spec_is_space(c: char) -> bool {
    c == ' ' || (9 <= c as int && c as int <= 13) || c as int == 0x85 || c as int == 0xA0
        || c as int == 0x1680 || (0x2000 <= c as int && c as int <= 0x200A) || c as int == 0x2028
        || c as int == 0x2029 || c as int == 0x202F || c as int == 0x205F || c as int == 0x3000
}

/// A string with its leading whitespace removed.
pub open spec fn spec_trim_start(s: Seq<char>) -> Seq<char>
    decreases s.len(),
{
    if s.len() > 0 && spec_is_space(s[0]) {
        spec_trim_start(s.skip(1))
    } else {
        s
    }
}

/// A string with its trailing whitespace removed.
pub open spec fn spec_trim_end(s: Seq<char>) -> Seq<char>
    decreases s.len(),
{
    if s.len() > 0 && spec_is_space(s[s.len() - 1]) {
        spec_trim_end(s.drop_last())
    } else {
        s
    }
}

/// A string with leading and trailing whitespace removed, as `str::trim`
/// leaves it.
pub open spec fn spec_trim(s: Seq<char>) -> Seq<char> {
    spec_trim_end(spec_trim_start(s))
}

/// Dropping a known run of leading whitespace is all that `spec_trim_start`
/// does: if the first `a` characters are whitespace and the next one is
/// not, trimming equals skipping `a`.
pub proof fn lemma_trim_start_skip(s: Seq<char>, a: int)
    requires
        0 <= a <= s.len(),
        forall|j: int| 0 <= j < a ==> spec_is_space(#[trigger] s[j]),
        a < s.len() ==> !spec_is_space(s[a]),
    ensures
        spec_trim_start(s) == s.skip(a),
    decreases a,
{
    if a == 0 {
        assert(s.skip(0) =~= s);
    } else {
        lemma_trim_start_skip(s.skip(1), a - 1);
        assert(s.skip(1).skip(a - 1) =~= s.skip(a));
    }
}

/// Dropping a known run of trailing whitespace is all that `spec_trim_end`
/// does: if everything from index `b` on is whitespace and the character
/// before `b` is not, trimming equals taking `b`.
pub proof fn lemma_trim_end_take(s: Seq<char>, b: int)
    requires
        0 <= b <= s.len(),
        forall|j: int| b <= j < s.len() ==> spec_is_space(#[trigger] s[j]),
        b > 0 ==> !spec_is_space(s[b - 1]),
    ensures
        spec_trim_end(s) == s.take(b),
    decreases s.len() - b,
{
    if b == s.len() {
        assert(s.take(b) =~= s);
    } else {
        lemma_trim_end_take(s.drop_last(), b);
        assert(s.drop_last().take(b) =~= s.take(b));
    }
}

/// Whether a character is Unicode whitespace.
pub fn is_space_char(c: char) -> (r: bool)
    ensures
        r == spec_is_space(c),
{
    let u = c as u32;
    u == 0x20 || (9 <= u && u <= 13) || u == 0x85 || u == 0xA0 || u == 0x1680 || (0x2000 <= u && u
        <= 0x200A) || u == 0x2028 || u == 0x2029 || u == 0x202F || u == 0x205F || u == 0x3000
}

/// Whether a character is a decimal digit.
pub fn is_digit_char(c: char) -> (r: bool)
    ensures
        r == spec_is_digit(c),
{
    let u = c as u32;
    ('0' as u32) <= u && u <= ('9' as u32)
}

/// Whether two strings hold the same characters.
pub fn str_eq(a: &str, b: &str) -> (r: bool)
    ensures
        r == (a@ == b@),
{
    let alen = a.unicode_len();
    let blen = b.unicode_len();
    if alen != blen {
        return false;
    }
    let mut i: usize = 0;
    while i < alen
        invariant
            alen == a@.len(),
            blen == b@.len(),
            alen == blen,
            i <= alen,
            forall|j: int| 0 <= j < i ==> a@[j] == b@[j],
        decreases alen - i,
    {
        if a.get_char(i) != b.get_char(i) {
            return false;
        }
        i += 1;
    }
    proof {
        assert(a@ =~= b@);
    }
    true
}

/// Left-to-right accumulation of decimal digits, as `u64::from_str` reads
/// them: fails on the first non-digit and on overflow.
pub open spec fn spec_parse_u64_digits(s: Seq<char>, acc: nat) -> Option<u64>
    decreases s.len(),
{
    if acc > u64::MAX {
        None
    } else if s.len() == 0 {
        Some(acc as u64)
    } else if spec_is_digit(s[0]) {
        spec_parse_u64_digits(s.skip(1), acc * 10 + spec_digit_val(s[0]))
    } else {
        None
    }
}

/// The number a string denotes under the `u64::from_str` grammar: an
/// optional leading `+`, then one or more decimal digits, the value
/// fitting in a `u64`.
pub open spec fn spec_parse_u64(s: Seq<char>) -> Option<u64> {
    let body = if s.len() > 0 && s[0] == '+' {
        s.skip(1)
    } else {
        s
    };
    if body.len() == 0 {
        None
    } else {
        spec_parse_u64_digits(body, 0)
    }
}

/// Whether every character of a string is a decimal digit.
pub open spec fn spec_all_digits(s: Seq<char>) -> bool {
    forall|i: int| 0 <= i < s.len() ==> spec_is_digit(#[trigger] s[i])
}

/// Ten to the given power.
pub open spec fn spec_pow10(n: nat) -> nat
    decreases n,
{
    if n == 0 {
        1
    } else {
        10 * spec_pow10((n - 1) as nat)
    }
}

/// The positional value of a digit string: each digit weighted by ten to
/// the power of its distance from the end.
pub open spec fn spec_digits_value(s: Seq<char>) -> nat
    decreases s.len(),
{
    if s.len() == 0 {
        0
    } else {
        spec_digit_val(s[0]) * spec_pow10((s.len() - 1) as nat) + spec_digits_value(s.skip(1))
    }
}

/// The digit accumulation computes exactly the positional value: it
/// succeeds on an all-digit string whose value fits, and fails otherwise.
pub proof fn lemma_parse_u64_digits_value(s: Seq<char>, acc: nat)
    requires
        acc <= u64::MAX,
    ensures
        spec_parse_u64_digits(s, acc) == (if spec_all_digits(s) && acc * spec_pow10(s.len())
            + spec_digits_value(s) <= u64::MAX {
            Some((acc * spec_pow10(s.len()) + spec_digits_value(s)) as u64)
        } else {
            None::<u64>
        }),
    decreases s.len(),
{
    lemma_pow10_pos(s.len());
    if s.len() == 0 {
        assert(spec_pow10(0) == 1);
        assert(acc * 1 == acc) by (nonlinear_arith);
    } else if !spec_is_digit(s[0]) {
        assert(!spec_all_digits(s));
    } else {
        let d = spec_digit_val(s[0]);
        let next = acc * 10 + d;
        let rest = s.skip(1);
        let p = spec_pow10((s.len() - 1) as nat);
        assert(spec_pow10(s.len()) == 10 * p);
        assert(spec_all_digits(s) == spec_all_digits(rest)) by {
            if spec_all_digits(rest) {
                assert forall|i: int| 0 <= i < s.len() implies spec_is_digit(#[trigger] s[i]) by {
                    if i > 0 {
                        assert(s[i] == rest[i - 1]);
                    }
                }
            } else {
                let j = choose|j: int| 0 <= j < rest.len() && !spec_is_digit(rest[j]);
                assert(s[j + 1] == rest[j]);
            }
        }
        assert(acc * (10 * p) + (d * p + spec_digits_value(rest)) == next * p + spec_digits_value(
            rest,
        )) by (nonlinear_arith)
            requires
                next == acc * 10 + d,
        ;
        if next > u64::MAX {
            // The total is at least the new accumulator, so it cannot fit
            // either.
            lemma_pow10_pos((s.len() - 1) as nat);
            assert(next * p >= next) by (nonlinear_arith)
                requires
                    p >= 1,
                    next >= 0,
            ;
            assert(acc * spec_pow10(s.len()) + spec_digits_value(s) > u64::MAX);
            assert(spec_parse_u64_digits(rest, next) is None);
        } else {
            lemma_parse_u64_digits_value(rest, next);
            assert(spec_parse_u64_digits(s, acc) == spec_parse_u64_digits(rest, next));
            assert(acc * spec_pow10(s.len()) + spec_digits_value(s) == next * p
                + spec_digits_value(rest));
        }
    }
}

/// Powers of ten are positive.
pub proof fn lemma_pow10_pos(n: nat)
    ensures
        spec_pow10(n) >= 1,
    decreases n,
{
    if n > 0 {
        lemma_pow10_pos((n - 1) as nat);
    }
}

/// Appending a digit multiplies the value by ten and adds the digit.
proof fn lemma_digits_value_push(s: Seq<char>, c: char)
    ensures
        spec_digits_value(s.push(c)) == spec_digits_value(s) * 10 + spec_digit_val(c),
    decreases s.len(),
{
    if s.len() == 0 {
        assert(s.push(c)[0] == c);
        assert(s.push(c).skip(1) =~= Seq::<char>::empty());
        assert(spec_digits_value(Seq::<char>::empty()) == 0);
        assert(spec_pow10(0) == 1);
        assert(spec_digits_value(s.push(c)) == spec_digit_val(c) * 1 + 0);
        assert(spec_digit_val(c) * 1 == spec_digit_val(c)) by (nonlinear_arith);
    } else {
        let d0 = spec_digit_val(s[0]);
        let p = spec_pow10((s.len() - 1) as nat);
        assert(s.push(c)[0] == s[0]);
        assert(s.push(c).skip(1) =~= s.skip(1).push(c));
        lemma_digits_value_push(s.skip(1), c);
        assert(spec_digits_value(s.push(c)) == d0 * spec_pow10(s.len()) + spec_digits_value(
            s.skip(1).push(c),
        ));
        assert(spec_digits_value(s.skip(1).push(c)) == spec_digits_value(s.skip(1)) * 10
            + spec_digit_val(c));
        assert(spec_digits_value(s) == d0 * p + spec_digits_value(s.skip(1)));
        assert(spec_pow10(s.len()) == 10 * p);
        assert(d0 * (10 * p) == (d0 * p) * 10) by (nonlinear_arith);
    }
}

/// The decimal form of a number denotes that number: formatting is
/// value-correct, not merely injective.
pub proof fn lemma_dec_value(n: nat)
    ensures
        spec_all_digits(spec_dec(n)),
        spec_digits_value(spec_dec(n)) == n,
    decreases n,
{
    lemma_dec_all_digits(n);
    if n < 10 {
        lemma_digit_char_is_digit(n);
        assert(spec_dec(n).skip(1) =~= Seq::<char>::empty());
        assert(spec_digits_value(Seq::<char>::empty()) == 0);
        assert(spec_pow10(0) == 1);
        assert(spec_digits_value(spec_dec(n)) == spec_digit_val(spec_digit_char(n)) * 1 + 0);
        assert(spec_digit_val(spec_digit_char(n)) * 1 == n) by (nonlinear_arith)
            requires
                spec_digit_val(spec_digit_char(n)) == n,
        ;
    } else {
        lemma_dec_value(n / 10);
        lemma_digit_char_is_digit(n % 10);
        lemma_digits_value_push(spec_dec(n / 10), spec_digit_char(n % 10));
        assert(spec_digits_value(spec_dec(n)) == (n / 10) * 10 + (n % 10));
        assert(n == (n / 10) * 10 + (n % 10));
    }
}

/// Parse a string as a `u64`, accepting exactly what `u64::from_str`
/// accepts.
pub fn parse_u64_str(s: &str) -> (r: Option<u64>)
    ensures
        r == spec_parse_u64(s@),
{
    let len = s.unicode_len();
    let start: usize = if len > 0 && s.get_char(0) == '+' {
        1
    } else {
        0
    };
    if start == len {
        return None;
    }
    let ghost body = s@.skip(start as int);
    proof {
        assert(s@.skip(0) =~= s@);
    }
    let mut acc: u64 = 0;
    let mut i: usize = start;
    while i < len
        invariant
            start <= i <= len,
            len == s@.len(),
            body == s@.skip(start as int),
            body.len() > 0,
            spec_parse_u64(s@) == spec_parse_u64_digits(body, 0),
            spec_parse_u64_digits(body, 0) == spec_parse_u64_digits(s@.skip(i as int), acc as nat),
        decreases len - i,
    {
        let c = s.get_char(i);
        proof {
            assert(s@.skip(i as int)[0] == s@[i as int]);
        }
        if !is_digit_char(c) {
            return None;
        }
        let d = (c as u32 - '0' as u32) as u64;
        proof {
            assert(d == spec_digit_val(c));
            assert(s@.skip(i as int).skip(1) =~= s@.skip(i as int + 1));
            assert(spec_parse_u64_digits(s@.skip(i as int), acc as nat) == spec_parse_u64_digits(
                s@.skip(i as int + 1),
                acc as nat * 10 + d as nat,
            ));
        }
        match acc.checked_mul(10) {
            Some(acc10) => {
                match acc10.checked_add(d) {
                    Some(next) => {
                        acc = next;
                    },
                    None => {
                        proof {
                            assert(spec_parse_u64_digits(
                                s@.skip(i as int + 1),
                                acc as nat * 10 + d as nat,
                            ) is None);
                        }
                        return None;
                    },
                }
            },
            None => {
                proof {
                    assert(spec_parse_u64_digits(
                        s@.skip(i as int + 1),
                        acc as nat * 10 + d as nat,
                    ) is None);
                }
                return None;
            },
        }
        i += 1;
    }
    proof {
        assert(s@.skip(len as int) =~= Seq::<char>::empty());
    }
    Some(acc)
}

/// The one-character string for a digit value.
fn digit_str(d: u64) -> (r: &'static str)
    requires
        d < 10,
    ensures
        r@ == seq![spec_digit_char(d as nat)],
{
    proof {
        reveal_strlit("0");
        reveal_strlit("1");
        reveal_strlit("2");
        reveal_strlit("3");
        reveal_strlit("4");
        reveal_strlit("5");
        reveal_strlit("6");
        reveal_strlit("7");
        reveal_strlit("8");
        reveal_strlit("9");
    }
    let r = if d == 0 {
        "0"
    } else if d == 1 {
        "1"
    } else if d == 2 {
        "2"
    } else if d == 3 {
        "3"
    } else if d == 4 {
        "4"
    } else if d == 5 {
        "5"
    } else if d == 6 {
        "6"
    } else if d == 7 {
        "7"
    } else if d == 8 {
        "8"
    } else {
        "9"
    };
    proof {
        assert(r@ =~= seq![spec_digit_char(d as nat)]);
    }
    r
}

/// Format a number in its canonical decimal form.
pub fn u64_to_string(n: u64) -> (r: String)
    ensures
        r@ == spec_dec(n as nat),
    decreases n,
{
    if n < 10 {
        String::from_str(digit_str(n))
    } else {
        let prefix = u64_to_string(n / 10);
        let r = prefix.concat(digit_str(n % 10));
        proof {
            assert(r@ =~= spec_dec(n as nat));
        }
        r
    }
}

/// Format a signed number in its decimal form.
pub fn i32_to_string(n: i32) -> (r: String)
    ensures
        r@ == spec_dec_int(n as int),
{
    if n < 0 {
        let magnitude = (-(n as i64)) as u64;
        let digits = u64_to_string(magnitude);
        let r = String::from_str("-").concat(digits.as_str());
        proof {
            reveal_strlit("-");
            assert(r@ =~= spec_dec_int(n as int));
        }
        r
    } else {
        u64_to_string(n as u64)
    }
}

} // verus!
