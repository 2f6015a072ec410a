//! Text that display backends take: server addresses, and strings handed to C.

use vstd::prelude::*;
use vstd::string::*;
use vstd::utf8::*;

verus! {

/// The port of a server address that names none.
pub const DEFAULT_VNC_PORT: i32 = 5900;

/// What follows the last colon of `s`, or all of `s` if it has none.
pub open spec fn last_field(s: Seq<char>) -> Seq<char>
    decreases s.len(),
{
    if s.len() == 0 || s.last() == ':' {
        Seq::empty()
    } else {
        last_field(s.drop_last()).push(s.last())
    }
}

/// Whether `c` is an ASCII digit.
pub open spec fn is_digit(c: char) -> bool {
    '0' <= c && c <= '9'
}

/// Whether `s` is made of one or more digits.
pub open spec fn is_number(s: Seq<char>) -> bool {
    s.len() > 0 && forall|i: int| 0 <= i < s.len() ==> is_digit(#[trigger] s[i])
}

/// The value of a string of digits.
pub open spec fn decimal(s: Seq<char>) -> int
    decreases s.len(),
{
    if s.len() == 0 {
        0
    } else {
        decimal(s.drop_last()) * 10 + (s.last() as int - '0' as int)
    }
}

/// Whether `s` starts with a sign.
pub open spec fn is_signed(s: Seq<char>) -> bool {
    s.len() > 0 && (s[0] == '+' || s[0] == '-')
}

/// The value of `s` as a 32-bit integer in decimal: digits after an optional sign,
/// in range.
pub open spec fn decimal_i32(s: Seq<char>) -> Option<i32> {
    let digits = if is_signed(s) {
        s.skip(1)
    } else {
        s
    };
    let value = if is_signed(s) && s[0] == '-' {
        -decimal(digits)
    } else {
        decimal(digits)
    };
    if is_number(digits) && i32::MIN <= value <= i32::MAX {
        Some(value as i32)
    } else {
        None
    }
}

/// The port that a server address names after its last colon, or the default port
/// if that is no number.
pub open spec fn port_of(addr: Seq<char>) -> i32 {
    match decimal_i32(last_field(addr)) {
        Some(port) => port,
        None => DEFAULT_VNC_PORT,
    }
}

/// The number that the characters of `s` from `start` on spell in decimal.
fn parse_decimal(s: &str, start: usize) -> (value: Option<i32>)
    requires
        start <= s@.len(),
    ensures
        value == decimal_i32(s@.skip(start as int)),
{
    let len: usize = s.unicode_len();
    let ghost field = s@.skip(start as int);
    let mut first: usize = start;
    let mut negative: bool = false;
    if start < len {
        let c: char = s.get_char(start);
        assert(field[0] == c);
        if c == '-' {
            negative = true;
            first = start + 1;
        } else if c == '+' {
            first = start + 1;
        }
    }
    let ghost digits = s@.skip(first as int);
    proof {
        if is_signed(field) {
            assert(digits == field.skip(1));
        } else {
            assert(digits == field);
        }
    }
    if first == len {
        return None;
    }
    let mut magnitude: i64 = 0;
    let mut i: usize = first;
    while i < len
        invariant
            first <= i <= len == s@.len(),
            digits == s@.skip(first as int),
            digits == if is_signed(field) {
                field.skip(1)
            } else {
                field
            },
            field == s@.skip(start as int),
            forall|j: int| 0 <= j < i - first ==> is_digit(#[trigger] digits[j]),
            0 <= magnitude <= 21_474_836_489,
            magnitude <= 2_147_483_648 ==> decimal(digits.take(i - first)) == magnitude,
            magnitude > 2_147_483_648 ==> decimal(digits.take(i - first)) > 2_147_483_648,
        decreases len - i,
    {
        let c: char = s.get_char(i);
        assert(digits[i - first] == c);
        if c < '0' || c > '9' {
            assert(!is_digit(digits[i - first]));
            assert(!is_number(digits));
            return None;
        }
        assert(digits.take(i - first + 1).drop_last() == digits.take(i - first));
        assert(decimal(digits.take(i - first + 1)) == decimal(digits.take(i - first)) * 10 + (
        c as int - '0' as int));
        if magnitude <= 2_147_483_648 {
            magnitude = magnitude * 10 + (c as i64 - '0' as i64);
        }
        i = i + 1;
    }
    assert(digits.take(len - first) == digits);
    if negative {
        if magnitude <= 2_147_483_648 {
            Some((0 - magnitude) as i32)
        } else {
            None
        }
    } else {
        if magnitude <= 2_147_483_647 {
            Some(magnitude as i32)
        } else {
            None
        }
    }
}

/// The port in a server address of the form `host:port`.
pub fn parse_port(addr: &str) -> (port: i32)
    ensures
        port == port_of(addr@),
{
    let len: usize = addr.unicode_len();
    let mut start: usize = len;
    assert(addr@.take(len as int) == addr@);
    assert(addr@.skip(len as int) =~= Seq::empty());
    assert(last_field(addr@) =~= last_field(addr@.take(len as int)) + addr@.skip(len as int));
    while start > 0 && addr.get_char(start - 1) != ':'
        invariant
            start <= len == addr@.len(),
            last_field(addr@) == last_field(addr@.take(start as int)) + addr@.skip(start as int),
        decreases start,
    {
        let ghost head = addr@.take(start as int);
        assert(head.drop_last() == addr@.take(start - 1));
        assert(addr@.skip(start - 1) =~= seq![head.last()] + addr@.skip(start as int));
        assert(last_field(head) + addr@.skip(start as int) =~= last_field(head.drop_last()) + addr@.skip(
            start - 1,
        ));
        start = start - 1;
    }
    assert(last_field(addr@.take(start as int)) =~= Seq::empty());
    assert(last_field(addr@) =~= addr@.skip(start as int));
    match parse_decimal(addr, start) {
        Some(port) => port,
        None => DEFAULT_VNC_PORT,
    }
}

/// `s` as the bytes of a C string, or `None` if it holds a null character.
pub open spec fn c_string_of(s: Seq<char>) -> Option<Seq<u8>> {
    if s.contains('\0') {
        None
    } else {
        Some(encode_utf8(s).push(0))
    }
}

/// The bytes of an optional buffer.
pub open spec fn bytes_of(buffer: Option<Vec<u8>>) -> Option<Seq<u8>> {
    match buffer {
        Some(buffer) => Some(buffer@),
        None => None,
    }
}

/// The bytes of `s` followed by a zero byte, or `None` if one of them is zero.
pub fn c_string(s: &str) -> (bytes: Option<Vec<u8>>)
    ensures
        bytes_of(bytes) == c_string_of(s@),
        match bytes {
            Some(bytes) => !s@.contains('\0') && bytes@ == encode_utf8(s@).push(0),
            None => s@.contains('\0'),
        },
{
    let source: &[u8] = s.as_bytes();
    let mut bytes: Vec<u8> = Vec::new();
    let mut i: usize = 0;
    proof {
        lemma_null_byte(s@);
    }
    while i < source.len()
        invariant
            i <= source@.len(),
            source@ == encode_utf8(s@),
            encode_utf8(s@).contains(0) == s@.contains('\0'),
            bytes@ == source@.take(i as int),
            forall|j: int| 0 <= j < i ==> source@[j] != 0,
        decreases source@.len() - i,
    {
        let byte: u8 = source[i];
        if byte == 0 {
            assert(encode_utf8(s@)[i as int] == 0);
            return None;
        }
        bytes.push(byte);
        i = i + 1;
    }
    assert(source@.take(i as int) == source@);
    bytes.push(0);
    Some(bytes)
}

/// A string has a zero byte exactly if it has a null character.
pub(crate) proof fn lemma_null_byte(s: Seq<char>)
    ensures
        encode_utf8(s).contains(0) <==> s.contains('\0'),
    decreases s.len(),
{
    if s.len() > 0 {
        let first = encode_scalar(s[0] as u32);
        let rest = s.drop_first();
        lemma_null_byte(rest);
        lemma_scalar_bytes(s[0] as u32);
        assert(first.contains(0) == (s[0] == '\0')) by {
            char_is_scalar(s[0]);
            char_u32_cast(s[0], s[0] as u32);
            if s[0] == '\0' {
                assert(first[0] == 0);
            }
        }
        assert(encode_utf8(s) == first + encode_utf8(rest));
        assert((first + encode_utf8(rest)).contains(0) == (first.contains(0) || encode_utf8(
            rest,
        ).contains(0))) by {
            if first.contains(0) {
                let k = first.index_of(0);
                assert((first + encode_utf8(rest))[k] == 0);
            }
            if encode_utf8(rest).contains(0) {
                let k = encode_utf8(rest).index_of(0);
                assert((first + encode_utf8(rest))[first.len() + k] == 0);
            }
        }
        assert(s.contains('\0') == (s[0] == '\0' || rest.contains('\0'))) by {
            if rest.contains('\0') {
                let k = rest.index_of('\0');
                assert(s[k + 1] == '\0');
            }
            if s.contains('\0') && s[0] != '\0' {
                let k = s.index_of('\0');
                assert(rest[k - 1] == '\0');
            }
        }
    }
}

/// Of the bytes that encode a character only that of the null character is zero.
proof fn lemma_scalar_bytes(scalar: u32)
    by (bit_vector)
    ensures
        scalar <= 0x7f ==> (leading_byte_width_1(scalar) == 0 <==> scalar == 0),
        leading_byte_width_2(scalar) != 0,
        leading_byte_width_3(scalar) != 0,
        leading_byte_width_4(scalar) != 0,
        last_continuation_byte(scalar) != 0,
        second_last_continuation_byte(scalar) != 0,
        third_last_continuation_byte(scalar) != 0,
{
}

/// The port of `host:port` is the number after the colon, whatever the host.
pub proof fn law_port_of_host_port(host: Seq<char>, port: Seq<char>)
    requires
        is_number(port),
        decimal(port) <= i32::MAX,
    ensures
        port_of(host.push(':') + port) == decimal(port),
{
    lemma_last_field(host, port);
    lemma_decimal_nonnegative(port);
    assert(is_digit(port[0]));
    assert(!is_signed(port));
}

proof fn lemma_last_field(host: Seq<char>, field: Seq<char>)
    requires
        forall|i: int| 0 <= i < field.len() ==> is_digit(#[trigger] field[i]),
    ensures
        last_field(host.push(':') + field) == field,
    decreases field.len(),
{
    let addr = host.push(':') + field;
    if field.len() == 0 {
        assert(addr =~= host.push(':'));
        assert(field =~= Seq::empty());
    } else {
        assert(is_digit(field[field.len() - 1]));
        lemma_last_field(host, field.drop_last());
        assert(addr.drop_last() =~= host.push(':') + field.drop_last());
        assert(field =~= field.drop_last().push(field.last()));
    }
}

proof fn lemma_decimal_nonnegative(s: Seq<char>)
    requires
        forall|i: int| 0 <= i < s.len() ==> is_digit(#[trigger] s[i]),
    ensures
        decimal(s) >= 0,
    decreases s.len(),
{
    if s.len() > 0 {
        assert(is_digit(s[s.len() - 1]));
        lemma_decimal_nonnegative(s.drop_last());
    }
}

} // verus!
