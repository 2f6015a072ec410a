//! What server addresses and C strings mean, as their reader understands them.

use vstd::prelude::*;
use vstd::utf8::*;

use crate::gpu_display::text::{
    c_string_of, decimal, is_digit, is_number, is_signed, last_field, lemma_null_byte, port_of,
};

verus! {

/// How `n` is written in decimal, without leading zeros.
pub open spec fn decimal_text(n: nat) -> Seq<char>
    decreases n,
{
    if n < 10 {
        seq![(48 + n) as char]
    } else {
        decimal_text(n / 10).push((48 + n % 10) as char)
    }
}

/// Only what follows the last colon of an address counts: whatever stands before it, the
/// port is that of the part behind it taken alone.
pub proof fn law_host_is_ignored(host: Seq<char>, field: Seq<char>)
    requires
        forall|i: int| 0 <= i < field.len() ==> #[trigger] field[i] != ':',
    ensures
        port_of(host.push(':') + field) == port_of(field),
{
    lemma_field_after_colon(host, field);
    lemma_field_alone(field);
}

/// A number is read whole: with any number of leading zeros and an optional sign it is the
/// port, if it fits a 32-bit integer, and otherwise the port is 5900.
pub proof fn law_number_is_port(sign: Option<char>, zeros: nat, n: nat)
    requires
        sign matches Some(sign) ==> sign == '+' || sign == '-',
    ensures
        ({
            let digits = Seq::new(zeros, |i: int| '0') + decimal_text(n);
            let field = match sign {
                Some(sign) => seq![sign] + digits,
                None => digits,
            };
            let value = if sign == Some('-') {
                -n
            } else {
                n as int
            };
            port_of(field) == if -0x8000_0000 <= value <= 0x7fff_ffff {
                value
            } else {
                5900
            }
        }),
{
    let digits = Seq::new(zeros, |i: int| '0') + decimal_text(n);
    lemma_decimal_text(n);
    lemma_leading_zeros(zeros, decimal_text(n));
    assert(is_number(digits));
    let field = match sign {
        Some(sign) => seq![sign] + digits,
        None => digits,
    };
    assert forall|i: int| 0 <= i < field.len() implies #[trigger] field[i] != ':' by {
        match sign {
            Some(_) => {
                if i > 0 {
                    assert(field[i] == digits[i - 1]);
                    assert(is_digit(digits[i - 1]));
                }
            },
            None => {
                assert(is_digit(digits[i]));
            },
        }
    }
    lemma_field_alone(field);
    match sign {
        Some(_) => {
            assert(field.skip(1) =~= digits);
        },
        None => {
            assert(is_digit(digits[0]));
        },
    }
}

/// A digit is the port that it names, and one more digit behind a short number multiplies
/// the port by ten and adds the digit.
pub proof fn law_port_grows_by_digits(field: Seq<char>, c: char)
    requires
        '0' <= c <= '9',
        field.len() <= 8,
        forall|i: int| 0 <= i < field.len() ==> '0' <= #[trigger] field[i] <= '9',
    ensures
        port_of(seq![c]) == c as int - 48,
        field.len() > 0 ==> port_of(field.push(c)) == 10 * port_of(field) + (c as int - 48),
{
    let one = seq![c];
    let longer = field.push(c);
    assert(is_number(one));
    lemma_field_alone(one);
    assert(one.drop_last() =~= Seq::empty());
    assert(decimal(one.drop_last()) == 0);
    assert(longer.drop_last() =~= field);
    if field.len() > 0 {
        assert(is_number(field));
        assert forall|i: int| 0 <= i < longer.len() implies is_digit(#[trigger] longer[i]) by {
            if i < field.len() {
                assert(longer[i] == field[i]);
            }
        }
        assert(is_digit(field[0]));
        assert(longer[0] == field[0]);
        lemma_field_alone(field);
        lemma_field_alone(longer);
        lemma_short_number(field);
    }
}

/// An address whose last field is not all a number has the default port: an empty field, a
/// lone sign, or one with anything but a digit in it, other than a sign in front.
pub proof fn law_default_port(field: Seq<char>, i: int)
    requires
        forall|j: int| 0 <= j < field.len() ==> #[trigger] field[j] != ':',
        ({
            ||| field.len() == 0
            ||| field.len() == 1 && !('0' <= field[0] <= '9')
            ||| {
                &&& 0 <= i < field.len()
                &&& !('0' <= field[i] <= '9')
                &&& i == 0 ==> field[0] != '+' && field[0] != '-'
            }
        }),
    ensures
        port_of(field) == 5900,
{
    lemma_field_alone(field);
    if field.len() > 0 {
        let digits = if is_signed(field) {
            field.skip(1)
        } else {
            field
        };
        if digits.len() > 0 {
            let at = if field.len() == 1 {
                0
            } else {
                i
            };
            if is_signed(field) {
                assert(digits[at - 1] == field[at]);
                assert(!is_digit(digits[at - 1]));
            } else {
                assert(!is_digit(digits[at]));
            }
        }
    }
}

/// A string without a null character becomes its UTF-8 bytes, none of them zero, and one
/// zero byte behind them. A string with one becomes nothing.
pub proof fn law_c_string(s: Seq<char>)
    ensures
        c_string_of(s) is None <==> exists|i: int| 0 <= i < s.len() && s[i] == '\0',
        c_string_of(s) matches Some(bytes) ==> {
            &&& bytes.len() == encode_utf8(s).len() + 1
            &&& bytes[bytes.len() - 1] == 0
            &&& forall|i: int|
                0 <= i < bytes.len() - 1 ==> #[trigger] bytes[i] == encode_utf8(s)[i]
            &&& forall|i: int| 0 <= i < bytes.len() - 1 ==> #[trigger] bytes[i] != 0
            &&& decode_utf8(bytes.drop_last()) == s
        },
{
    lemma_null_byte(s);
    encode_utf8_decode_utf8(s);
    if let Some(bytes) = c_string_of(s) {
        assert(bytes.drop_last() =~= encode_utf8(s));
        assert forall|i: int| 0 <= i < bytes.len() - 1 implies #[trigger] bytes[i] != 0 by {
            if bytes[i] == 0 {
                assert(encode_utf8(s)[i] == 0);
                assert(encode_utf8(s).contains(0));
            }
        }
    }
    if s.contains('\0') {
        let k = s.index_of('\0');
        assert(s[k] == '\0');
    }
}

proof fn lemma_field_alone(field: Seq<char>)
    requires
        forall|i: int| 0 <= i < field.len() ==> #[trigger] field[i] != ':',
    ensures
        last_field(field) == field,
    decreases field.len(),
{
    if field.len() > 0 {
        assert(field[field.len() - 1] != ':');
        lemma_field_alone(field.drop_last());
        assert(field.drop_last().push(field.last()) =~= field);
    } else {
        assert(field =~= Seq::empty());
    }
}

proof fn lemma_field_after_colon(host: Seq<char>, field: Seq<char>)
    requires
        forall|i: int| 0 <= i < field.len() ==> #[trigger] field[i] != ':',
    ensures
        last_field(host.push(':') + field) == field,
    decreases field.len(),
{
    let addr = host.push(':') + field;
    if field.len() == 0 {
        assert(addr =~= host.push(':'));
        assert(field =~= Seq::empty());
    } else {
        assert(field[field.len() - 1] != ':');
        lemma_field_after_colon(host, field.drop_last());
        assert(addr.drop_last() =~= host.push(':') + field.drop_last());
        assert(field =~= field.drop_last().push(field.last()));
    }
}

proof fn lemma_decimal_text(n: nat)
    ensures
        is_number(decimal_text(n)),
        decimal(decimal_text(n)) == n,
    decreases n,
{
    let text = decimal_text(n);
    if n < 10 {
        assert(text.drop_last() =~= Seq::empty());
        assert(decimal(text.drop_last()) == 0);
        assert(is_digit(text[0]));
    } else {
        lemma_decimal_text(n / 10);
        let high = decimal_text(n / 10);
        assert(text.drop_last() =~= high);
        assert forall|i: int| 0 <= i < text.len() implies is_digit(#[trigger] text[i]) by {
            if i < high.len() {
                assert(text[i] == high[i]);
            }
        }
    }
}

proof fn lemma_leading_zeros(zeros: nat, s: Seq<char>)
    requires
        is_number(s),
    ensures
        is_number(Seq::new(zeros, |i: int| '0') + s),
        decimal(Seq::new(zeros, |i: int| '0') + s) == decimal(s),
    decreases s.len(),
{
    let front = Seq::new(zeros, |i: int| '0');
    let all = front + s;
    assert forall|i: int| 0 <= i < all.len() implies is_digit(#[trigger] all[i]) by {
        if i >= zeros {
            assert(is_digit(s[i - zeros]));
        }
    }
    assert(all.drop_last() =~= front + s.drop_last());
    assert(all.last() == s.last());
    if s.len() > 1 {
        assert forall|i: int| 0 <= i < s.len() - 1 implies is_digit(
            #[trigger] s.drop_last()[i],
        ) by {
            assert(is_digit(s[i]));
        }
        lemma_leading_zeros(zeros, s.drop_last());
    } else {
        assert(all.drop_last() =~= front);
        assert(s.drop_last() =~= Seq::empty());
        lemma_zeros(zeros);
        assert(decimal(s.drop_last()) == 0);
    }
}

proof fn lemma_zeros(zeros: nat)
    ensures
        decimal(Seq::new(zeros, |i: int| '0')) == 0,
    decreases zeros,
{
    let front = Seq::new(zeros, |i: int| '0');
    if zeros > 0 {
        lemma_zeros((zeros - 1) as nat);
        assert(front.drop_last() =~= Seq::new((zeros - 1) as nat, |i: int| '0'));
    }
}

/// A number of at most eight digits is below a hundred million.
proof fn lemma_short_number(s: Seq<char>)
    requires
        is_number(s),
        s.len() <= 8,
    ensures
        0 <= decimal(s) < 100_000_000,
{
    lemma_number_bound(s, 8);
}

proof fn lemma_number_bound(s: Seq<char>, len: nat)
    requires
        forall|i: int| 0 <= i < s.len() ==> is_digit(#[trigger] s[i]),
        s.len() <= len <= 8,
    ensures
        0 <= decimal(s) < power_of_ten(len),
    decreases len,
{
    if s.len() > 0 {
        assert forall|i: int| 0 <= i < s.len() - 1 implies is_digit(
            #[trigger] s.drop_last()[i],
        ) by {
            assert(is_digit(s[i]));
        }
        assert(is_digit(s[s.len() - 1]));
        lemma_number_bound(s.drop_last(), (len - 1) as nat);
    }
}

/// Ten to the power of `exponent`, up to eight.
spec fn power_of_ten(exponent: nat) -> int {
    if exponent == 0 {
        1
    } else if exponent == 1 {
        10
    } else if exponent == 2 {
        100
    } else if exponent == 3 {
        1_000
    } else if exponent == 4 {
        10_000
    } else if exponent == 5 {
        100_000
    } else if exponent == 6 {
        1_000_000
    } else if exponent == 7 {
        10_000_000
    } else {
        100_000_000
    }
}

} // verus!
