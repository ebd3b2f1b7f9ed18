//! Money amounts as integer cents, parsed from and rendered to decimal
//! text such as `10.00` or `8.99`.

use vstd::prelude::*;

use crate::text::{find_char, first_index_of, lemma_first_index_of};

verus! {

/// Whether `c` is a decimal digit.
pub open spec fn is_digit(c: char) -> bool {
    '0' as u32 <= c as u32 <= '9' as u32
}

/// The numeric value of a decimal digit.
pub open spec fn digit_val(c: char) -> int {
    c as u32 - '0' as u32
}

/// Whether every character of `s` is a decimal digit.
pub open spec fn all_digits(s: Seq<char>) -> bool {
    forall|i: int| 0 <= i < s.len() ==> is_digit(#[trigger] s[i])
}

/// The value of a string of decimal digits, most significant first.
pub open spec fn digits_val(s: Seq<char>) -> int
    decreases s.len(),
{
    if s.len() == 0 {
        0
    } else {
        digits_val(s.drop_last()) * 10 + digit_val(s.last())
    }
}

/// Ten to the `n`.
pub open spec fn pow10(n: nat) -> int
    decreases n,
{
    if n == 0 {
        1
    } else {
        10 * pow10((n - 1) as nat)
    }
}

proof fn lemma_pow10_increases(a: nat, b: nat)
    requires
        a <= b,
    ensures
        1 <= pow10(a) <= pow10(b),
    decreases b,
{
    if a == b {
        lemma_pow10_pos(a);
    } else {
        lemma_pow10_increases(a, (b - 1) as nat);
    }
}

proof fn lemma_pow10_pos(n: nat)
    ensures
        1 <= pow10(n),
    decreases n,
{
    if n > 0 {
        lemma_pow10_pos((n - 1) as nat);
    }
}

/// A digit string's value is bounded by ten to its length.
proof fn lemma_digits_val_bound(s: Seq<char>)
    requires
        all_digits(s),
    ensures
        0 <= digits_val(s) < pow10(s.len()),
    decreases s.len(),
{
    if s.len() > 0 {
        assert(all_digits(s.drop_last()));
        lemma_digits_val_bound(s.drop_last());
        assert(is_digit(s.last()));
    }
}

/// The integer part of an amount holds at most this many digits.
pub const MAX_INT_DIGITS: usize = 15;

/// A well-formed fraction part: at least one digit, at most two of which are
/// significant; any further digits are zero.
pub open spec fn wf_frac(f: Seq<char>) -> bool {
    &&& 1 <= f.len()
    &&& is_digit(f[0])
    &&& (f.len() >= 2 ==> is_digit(f[1]))
    &&& (forall|i: int| 2 <= i < f.len() ==> #[trigger] f[i] == '0')
}

/// The cents that a well-formed fraction part denotes.
pub open spec fn frac_cents(f: Seq<char>) -> int {
    if f.len() == 1 {
        digit_val(f[0]) * 10
    } else {
        digit_val(f[0]) * 10 + digit_val(f[1])
    }
}

/// The amount in cents that decimal text denotes: a non-empty string of at
/// most fifteen digits, optionally followed by `.` and a fraction part.
/// Anything else — and in particular a fraction with a non-zero digit past
/// the first two — denotes no amount.
pub open spec fn money_cents_of(s: Seq<char>) -> Option<int> {
    match first_index_of(s, '.') {
        None => if 1 <= s.len() <= 15 && all_digits(s) {
            Some(digits_val(s) * 100)
        } else {
            None
        },
        Some(d) => {
            let ip = s.subrange(0, d);
            let f = s.subrange(d + 1, s.len() as int);
            if 1 <= d <= 15 && all_digits(ip) && wf_frac(f) {
                Some(digits_val(ip) * 100 + frac_cents(f))
            } else {
                None
            }
        },
    }
}

proof fn lemma_pow10_fits(n: nat)
    requires
        n <= 15,
    ensures
        pow10(n) <= 1000000000000000,
{
    assert(pow10(15) == 1000000000000000) by {
        reveal_with_fuel(pow10, 16);
    }
    lemma_pow10_increases(n, 15);
}

/// Read the digits of `s` between `from` and `to` as a number.
pub(crate) fn digits_value(s: &str, from: usize, to: usize) -> (r: Option<i64>)
    requires
        from <= to <= s@.len(),
        to - from <= 15,
    ensures
        match r {
            Some(v) => all_digits(s@.subrange(from as int, to as int)) && v as int == digits_val(
                s@.subrange(from as int, to as int),
            ) && 0 <= v,
            None => !all_digits(s@.subrange(from as int, to as int)),
        },
{
    let mut acc: i64 = 0;
    let mut k = from;
    while k < to
        invariant
            from <= k <= to <= s@.len(),
            to - from <= 15,
            all_digits(s@.subrange(from as int, k as int)),
            acc as int == digits_val(s@.subrange(from as int, k as int)),
            0 <= acc < pow10((k - from) as nat),
        decreases to - k,
    {
        let c = s.get_char(k);
        let u = c as u32;
        if !(48 <= u && u <= 57) {
            proof {
                assert(s@.subrange(from as int, to as int)[k - from] == s@[k as int]);
            }
            return None;
        }
        proof {
            let sub1 = s@.subrange(from as int, k + 1);
            assert(sub1.drop_last() =~= s@.subrange(from as int, k as int));
            assert(sub1.last() == s@[k as int]);
            lemma_pow10_fits((k + 1 - from) as nat);
        }
        acc = acc * 10 + ((u - 48) as i64);
        k = k + 1;
    }
    Some(acc)
}

/// Parse decimal money text into cents; `None` when the text does not
/// denote an amount.
pub fn parse_amount(s: &str) -> (r: Option<i64>)
    ensures
        money_cents_of(s@) == match r {
            None => None::<int>,
            Some(c) => Some(c as int),
        },
        r matches Some(c) ==> c >= 0,
{
    let n = s.unicode_len();
    match find_char(s, '.') {
        None => {
            if n == 0 || n > MAX_INT_DIGITS {
                return None;
            }
            proof {
                assert(s@.subrange(0, n as int) =~= s@);
            }
            match digits_value(s, 0, n) {
                None => None,
                Some(v) => {
                    proof {
                        lemma_digits_val_bound(s@);
                        lemma_pow10_fits(s@.len());
                    }
                    Some(v * 100)
                },
            }
        },
        Some(d) => {
            proof {
                crate::text::lemma_first_index_of(s@, '.');
            }
            let ghost f = s@.subrange(d + 1, s@.len() as int);
            if d < 1 || d > MAX_INT_DIGITS {
                return None;
            }
            if d + 1 >= n {
                proof {
                    assert(f.len() == 0);
                }
                return None;
            }
            let v = match digits_value(s, 0, d) {
                None => {
                    return None;
                },
                Some(v) => v,
            };
            proof {
                assert(f[0] == s@[d + 1]);
            }
            let c0 = s.get_char(d + 1);
            let u0 = c0 as u32;
            if !(48 <= u0 && u0 <= 57) {
                return None;
            }
            let mut fc: i64 = ((u0 - 48) as i64) * 10;
            if d + 2 < n {
                proof {
                    assert(f[1] == s@[d + 2]);
                }
                let c1 = s.get_char(d + 2);
                let u1 = c1 as u32;
                if !(48 <= u1 && u1 <= 57) {
                    return None;
                }
                fc = fc + ((u1 - 48) as i64);
                let mut i = d + 3;
                while i < n
                    invariant
                        d + 3 <= i <= n,
                        n == s@.len(),
                        d + 2 < n,
                        1 <= d <= 15,
                        first_index_of(s@, '.') == Some(d as int),
                        f == s@.subrange(d + 1, s@.len() as int),
                        forall|j: int| d + 3 <= j < i ==> s@[j] == '0',
                    decreases n - i,
                {
                    proof {
                        assert(f[i - (d + 1)] == s@[i as int]);
                    }
                    if s.get_char(i) != '0' {
                        return None;
                    }
                    i = i + 1;
                }
                proof {
                    assert(forall|j: int|
                        2 <= j < f.len() ==> #[trigger] f[j] == s@[j + d + 1] && f[j] == '0');
                }
            } else {
                proof {
                    assert(f.len() == 1);
                }
            }
            proof {
                let ip = s@.subrange(0, d as int);
                lemma_digits_val_bound(ip);
                lemma_pow10_fits(ip.len());
                assert(wf_frac(f));
            }
            Some(v * 100 + fc)
        },
    }
}

/// The character of a decimal digit value.
pub open spec fn digit_char(d: int) -> char {
    if d == 0 {
        '0'
    } else if d == 1 {
        '1'
    } else if d == 2 {
        '2'
    } else if d == 3 {
        '3'
    } else if d == 4 {
        '4'
    } else if d == 5 {
        '5'
    } else if d == 6 {
        '6'
    } else if d == 7 {
        '7'
    } else if d == 8 {
        '8'
    } else {
        '9'
    }
}

/// The decimal numeral of `n`, most significant digit first, without
/// leading zeros (`0` itself is the single digit `0`).
pub open spec fn dec_str(n: nat) -> Seq<char>
    decreases n,
{
    if n < 10 {
        seq![digit_char(n as int)]
    } else {
        dec_str(n / 10).push(digit_char((n % 10) as int))
    }
}

/// An amount of cents rendered with two decimal places, as in `10.00`.
pub open spec fn money_string(cents: int) -> Seq<char> {
    dec_str((cents / 100) as nat) + seq!['.', digit_char((cents % 100) / 10), digit_char(cents % 10)]
}

fn digit_str(d: u32) -> (r: &'static str)
    requires
        d < 10,
    ensures
        r@ == seq![digit_char(d as int)],
{
    match d {
        0 => {
            proof {
                reveal_strlit("0");
                assert("0"@ =~= seq![digit_char(0)]);
            }
            "0"
        },
        1 => {
            proof {
                reveal_strlit("1");
                assert("1"@ =~= seq![digit_char(1)]);
            }
            "1"
        },
        2 => {
            proof {
                reveal_strlit("2");
                assert("2"@ =~= seq![digit_char(2)]);
            }
            "2"
        },
        3 => {
            proof {
                reveal_strlit("3");
                assert("3"@ =~= seq![digit_char(3)]);
            }
            "3"
        },
        4 => {
            proof {
                reveal_strlit("4");
                assert("4"@ =~= seq![digit_char(4)]);
            }
            "4"
        },
        5 => {
            proof {
                reveal_strlit("5");
                assert("5"@ =~= seq![digit_char(5)]);
            }
            "5"
        },
        6 => {
            proof {
                reveal_strlit("6");
                assert("6"@ =~= seq![digit_char(6)]);
            }
            "6"
        },
        7 => {
            proof {
                reveal_strlit("7");
                assert("7"@ =~= seq![digit_char(7)]);
            }
            "7"
        },
        8 => {
            proof {
                reveal_strlit("8");
                assert("8"@ =~= seq![digit_char(8)]);
            }
            "8"
        },
        _ => {
            proof {
                reveal_strlit("9");
                assert("9"@ =~= seq![digit_char(9)]);
            }
            "9"
        },
    }
}

/// Render `n` as its decimal numeral.
pub fn dec_string(n: u64) -> (r: String)
    ensures
        r@ == dec_str(n as nat),
    decreases n,
{
    if n < 10 {
        String::from_str(digit_str(n as u32))
    } else {
        let mut s = dec_string(n / 10);
        s.append(digit_str((n % 10) as u32));
        proof {
            assert(s@ =~= dec_str(n as nat));
        }
        s
    }
}

proof fn lemma_digit_char_val(d: int)
    requires
        0 <= d <= 9,
    ensures
        is_digit(digit_char(d)),
        digit_val(digit_char(d)) == d,
        digit_char(d) != '.',
{
}

proof fn lemma_dec_str_digits(n: nat)
    ensures
        all_digits(dec_str(n)),
        dec_str(n).len() >= 1,
        digits_val(dec_str(n)) == n,
    decreases n,
{
    if n < 10 {
        lemma_digit_char_val(n as int);
        assert(dec_str(n) == seq![digit_char(n as int)]);
        assert(dec_str(n).drop_last() =~= Seq::<char>::empty());
        assert(dec_str(n).last() == digit_char(n as int));
        assert(digits_val(Seq::<char>::empty()) == 0);
    } else {
        lemma_dec_str_digits(n / 10);
        lemma_digit_char_val((n % 10) as int);
        let s = dec_str(n);
        assert(s.drop_last() =~= dec_str(n / 10));
        assert(s.last() == digit_char((n % 10) as int));
        assert(digits_val(s) == (n / 10) * 10 + (n % 10));
        assert forall|i: int| 0 <= i < s.len() implies is_digit(#[trigger] s[i]) by {
            if i < s.len() - 1 {
                assert(s[i] == dec_str(n / 10)[i]);
            }
        }
    }
}

proof fn lemma_dec_str_len(n: nat, k: nat)
    requires
        1 <= k,
        n < pow10(k),
    ensures
        dec_str(n).len() <= k,
    decreases n,
{
    if n >= 10 {
        assert(pow10(k) == 10 * pow10((k - 1) as nat));
        lemma_dec_str_len(n / 10, (k - 1) as nat);
    }
}

/// Law: rendering an amount of cents and parsing the text back yields the
/// amount again, for every amount the text form can carry.
pub proof fn lemma_money_round_trip(cents: int)
    requires
        0 <= cents < pow10(17),
    ensures
        money_cents_of(money_string(cents)) == Some(cents),
{
    let dollars = (cents / 100) as nat;
    let tens = (cents % 100) / 10;
    let ones = cents % 10;
    let ip = dec_str(dollars);
    let s = money_string(cents);
    lemma_dec_str_digits(dollars);
    assert(pow10(17) == 100 * pow10(15)) by {
        reveal_with_fuel(pow10, 18);
    }
    lemma_pow10_pos(15);
    lemma_dec_str_len(dollars, 15);
    lemma_digit_char_val(tens);
    lemma_digit_char_val(ones);
    let d = ip.len() as int;
    assert(s.len() == d + 3);
    assert(s[d] == '.');
    assert(forall|j: int| 0 <= j < d ==> s[j] == ip[j]);
    assert(forall|j: int| 0 <= j < d ==> s[j] != '.');
    lemma_first_index_of(s, '.');
    match first_index_of(s, '.') {
        None => {
            assert(s[d] != '.');
        },
        Some(d2) => {
            if d2 < d {
                assert(s[d2] != '.');
            }
            if d2 > d {
                assert(s[d] != '.');
            }
            assert(d2 == d);
            let f = s.subrange(d + 1, s.len() as int);
            assert(s.subrange(0, d) =~= ip);
            assert(f =~= seq![digit_char(tens), digit_char(ones)]);
            assert(wf_frac(f));
            assert(frac_cents(f) == tens * 10 + ones);
            assert(tens * 10 + ones == cents % 100);
            assert(digits_val(ip) * 100 + frac_cents(f) == (cents / 100) * 100 + cents % 100);
        },
    }
}

/// Render an amount of cents with two decimal places, as in `10.00`.
pub fn format_cents(cents: i64) -> (r: String)
    requires
        0 <= cents,
    ensures
        r@ == money_string(cents as int),
{
    let dollars = (cents / 100) as u64;
    let tens = ((cents % 100) / 10) as u32;
    let ones = (cents % 10) as u32;
    let mut s = dec_string(dollars);
    s.append(".");
    s.append(digit_str(tens));
    s.append(digit_str(ones));
    proof {
        reveal_strlit(".");
        assert("."@ =~= seq!['.']);
        assert(s@ =~= money_string(cents as int));
    }
    s
}

} // verus!
