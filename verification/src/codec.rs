//! Compact text forms of endpoints and resource addresses: the base-59 alphabet
//! `0123456789ABCDEFGHJKLMNPQRSTUVWXYZabcdefghjkmnpqrstuvwxyz.~` (digits, then upper-case
//! letters without I and O, lower-case letters without i, l and o, then `.` and `~`),
//! and hexadecimal with a `0x` prefix.

use vstd::prelude::*;
use crate::text::push_char;

verus! {

/// The radix of the compact form: the size of its alphabet.
pub const BASE: u64 = 59;

/// The alphabet character of digit `d` (0 to 58).
pub open spec fn b59_char(d: nat) -> char {
    let code: int = if d < 10 {
        48 + d as int
    } else if d < 18 {
        55 + d as int
    } else if d < 23 {
        56 + d as int
    } else if d < 34 {
        57 + d as int
    } else if d < 42 {
        63 + d as int
    } else if d < 44 {
        64 + d as int
    } else if d < 46 {
        65 + d as int
    } else if d < 57 {
        66 + d as int
    } else if d == 57 {
        46
    } else {
        126
    };
    (code as u32) as char
}

/// The digit of an alphabet character, or `None` for any other character.
pub open spec fn b59_digit(c: char) -> Option<nat> {
    let x = c as u32 as int;
    if 48 <= x <= 57 {
        Some((x - 48) as nat)
    } else if 65 <= x <= 72 {
        Some((x - 55) as nat)
    } else if 74 <= x <= 78 {
        Some((x - 56) as nat)
    } else if 80 <= x <= 90 {
        Some((x - 57) as nat)
    } else if 97 <= x <= 104 {
        Some((x - 63) as nat)
    } else if 106 <= x <= 107 {
        Some((x - 64) as nat)
    } else if 109 <= x <= 110 {
        Some((x - 65) as nat)
    } else if 112 <= x <= 122 {
        Some((x - 66) as nat)
    } else if x == 46 {
        Some(57)
    } else if x == 126 {
        Some(58)
    } else {
        None
    }
}

/// The compact form of `n`: its base-59 digits, most significant first, without
/// leading zeros ("0" for zero).
pub open spec fn b59_digits(n: nat) -> Seq<char>
    decreases n,
{
    if n < 59 {
        seq![b59_char(n)]
    } else {
        b59_digits(n / 59).push(b59_char(n % 59))
    }
}

/// The value of a sequence of alphabet characters, or `None` if one is not in the
/// alphabet. The empty sequence has value 0.
pub open spec fn b59_value(s: Seq<char>) -> Option<nat>
    decreases s.len(),
{
    if s.len() == 0 {
        Some(0)
    } else {
        match (b59_value(s.drop_last()), b59_digit(s.last())) {
            (Some(v), Some(d)) => Some(v * 59 + d),
            _ => None,
        }
    }
}

/// What decoding gives: the value, if every character is a digit and the value fits in a `u64`.
pub open spec fn b59_decode_spec(s: Seq<char>) -> Option<u64> {
    match b59_value(s) {
        Some(v) => if v <= u64::MAX {
            Some(v as u64)
        } else {
            None
        },
        None => None,
    }
}

/// The value of a hexadecimal digit (either case), or `None`.
pub open spec fn hex_digit(c: char) -> Option<nat> {
    let x = c as u32 as int;
    if 48 <= x <= 57 {
        Some((x - 48) as nat)
    } else if 65 <= x <= 70 {
        Some((x - 55) as nat)
    } else if 97 <= x <= 102 {
        Some((x - 87) as nat)
    } else {
        None
    }
}

/// The value of a sequence of hexadecimal digits, or `None` if one is not a digit.
pub open spec fn hex_value(s: Seq<char>) -> Option<nat>
    decreases s.len(),
{
    if s.len() == 0 {
        Some(0)
    } else {
        match (hex_value(s.drop_last()), hex_digit(s.last())) {
            (Some(v), Some(d)) => Some(v * 16 + d),
            _ => None,
        }
    }
}

/// Parsing an unsigned number in radix 16 as `from_str_radix` does: an optional `+`,
/// then at least one hexadecimal digit, with a value of at most `max`.
pub open spec fn hex_parse_spec(s: Seq<char>, max: nat) -> Option<nat> {
    let digits = if s.len() > 0 && s[0] == '+' {
        s.skip(1)
    } else {
        s
    };
    if digits.len() == 0 {
        None
    } else {
        match hex_value(digits) {
            Some(v) => if v <= max {
                Some(v)
            } else {
                None
            },
            None => None,
        }
    }
}

/// Whether `s` starts with `0x`.
pub open spec fn has_hex_prefix(s: Seq<char>) -> bool {
    s.len() >= 2 && s[0] == '0' && s[1] == 'x'
}

fn b59_char_exec(d: u64) -> (c: char)
    requires
        d < 59,
    ensures
        c == b59_char(d as nat),
{
    let code: u8 = if d < 10 {
        48 + d as u8
    } else if d < 18 {
        55 + d as u8
    } else if d < 23 {
        56 + d as u8
    } else if d < 34 {
        57 + d as u8
    } else if d < 42 {
        63 + d as u8
    } else if d < 44 {
        64 + d as u8
    } else if d < 46 {
        65 + d as u8
    } else if d < 57 {
        66 + d as u8
    } else if d == 57 {
        46
    } else {
        126
    };
    code as char
}

fn b59_digit_exec(c: char) -> (r: Option<u64>)
    ensures
        r matches Some(d) ==> b59_digit(c) == Some(d as nat),
        r is None ==> b59_digit(c) is None,
{
    let x = c as u32;
    if 48 <= x && x <= 57 {
        Some((x - 48) as u64)
    } else if 65 <= x && x <= 72 {
        Some((x - 55) as u64)
    } else if 74 <= x && x <= 78 {
        Some((x - 56) as u64)
    } else if 80 <= x && x <= 90 {
        Some((x - 57) as u64)
    } else if 97 <= x && x <= 104 {
        Some((x - 63) as u64)
    } else if 106 <= x && x <= 107 {
        Some((x - 64) as u64)
    } else if 109 <= x && x <= 110 {
        Some((x - 65) as u64)
    } else if 112 <= x && x <= 122 {
        Some((x - 66) as u64)
    } else if x == 46 {
        Some(57)
    } else if x == 126 {
        Some(58)
    } else {
        None
    }
}

fn hex_digit_exec(c: char) -> (r: Option<u64>)
    ensures
        r matches Some(d) ==> hex_digit(c) == Some(d as nat),
        r is None ==> hex_digit(c) is None,
{
    let x = c as u32;
    if 48 <= x && x <= 57 {
        Some((x - 48) as u64)
    } else if 65 <= x && x <= 70 {
        Some((x - 55) as u64)
    } else if 97 <= x && x <= 102 {
        Some((x - 87) as u64)
    } else {
        None
    }
}

fn push_b59(s: &mut String, n: u64)
    ensures
        final(s)@ == old(s)@ + b59_digits(n as nat),
    decreases n,
{
    if n >= BASE {
        push_b59(s, n / BASE);
    }
    push_char(s, b59_char_exec(n % BASE));
    proof {
        if n >= 59 {
            assert(old(s)@ + b59_digits(n as nat) =~= old(s)@ + b59_digits((n / 59) as nat) + seq![b59_char((n % 59) as nat)]);
        } else {
            assert(old(s)@ + b59_digits(n as nat) =~= old(s)@.push(b59_char(n as nat)));
        }
    }
}

/// The compact form of `n`.
pub fn base60_encode(n: u64) -> (r: String)
    ensures
        r@ == b59_digits(n as nat),
{
    let mut s = String::new();
    push_b59(&mut s, n);
    assert(s@ =~= b59_digits(n as nat));
    s
}

/// Decodes the characters of `s` from index `start` on as a compact number.
fn base60_decode(s: &str, start: usize) -> (r: Option<u64>)
    requires
        start <= s@.len(),
    ensures
        r == b59_decode_spec(s@.skip(start as int)),
{
    let n = s.unicode_len();
    let ghost t = s@.skip(start as int);
    let mut result: u64 = 0;
    let mut i = start;
    while i < n
        invariant
            n == s@.len(),
            start <= i <= n,
            t == s@.skip(start as int),
            b59_value(t.take(i - start)) == Some(result as nat),
        decreases n - i,
    {
        proof {
            assert(t.take(i + 1 - start).drop_last() =~= t.take(i - start));
            assert(t.take(i + 1 - start).last() == s@[i as int]);
        }
        let c = s.get_char(i);
        match b59_digit_exec(c) {
            None => {
                proof {
                    lemma_b59_invalid_extends(t, (i - start) as nat);
                }
                return None;
            },
            Some(d) => {
                match result.checked_mul(BASE) {
                    None => {
                        proof {
                            lemma_b59_too_big_extends(t, (i + 1 - start) as nat);
                        }
                        return None;
                    },
                    Some(m) => match m.checked_add(d) {
                        None => {
                            proof {
                                lemma_b59_too_big_extends(t, (i + 1 - start) as nat);
                            }
                            return None;
                        },
                        Some(v) => {
                            result = v;
                        },
                    },
                }
            },
        }
        i = i + 1;
    }
    assert(t.take(n - start) =~= t);
    Some(result)
}

/// A prefix with a character outside the alphabet has no value, nor has any extension of it.
proof fn lemma_b59_invalid_extends(t: Seq<char>, k: nat)
    requires
        k < t.len(),
        b59_digit(t[k as int]) is None,
    ensures
        b59_value(t) is None,
    decreases t.len(),
{
    if t.len() == k + 1 {
        assert(t.last() == t[k as int]);
    } else {
        assert(t.drop_last()[k as int] == t[k as int]);
        lemma_b59_invalid_extends(t.drop_last(), k);
    }
}

/// The value of an extension is at least the value of the prefix.
proof fn lemma_b59_too_big_extends(t: Seq<char>, k: nat)
    requires
        k <= t.len(),
        b59_value(t.take(k as int)) is Some ==> b59_value(t.take(k as int)).unwrap() > u64::MAX,
    ensures
        b59_decode_spec(t) is None,
    decreases t.len() - k,
{
    if k < t.len() {
        let p = t.take(k as int + 1);
        assert(p.drop_last() =~= t.take(k as int));
        lemma_b59_too_big_extends(t, k + 1);
    } else {
        assert(t.take(k as int) =~= t);
    }
}

/// Parses hexadecimal as `from_str_radix(_, 16)` does, from index `start` of `s`.
fn hex_parse_from(s: &str, start: usize, max: u64) -> (r: Option<u64>)
    requires
        start <= s@.len(),
    ensures
        r matches Some(v) ==> hex_parse_spec(s@.skip(start as int), max as nat) == Some(v as nat),
        r is None ==> hex_parse_spec(s@.skip(start as int), max as nat) is None,
{
    let n = s.unicode_len();
    let ghost t0 = s@.skip(start as int);
    let mut first = start;
    if first < n && s.get_char(first) == '+' {
        first = first + 1;
    }
    let ghost t = s@.skip(first as int);
    assert(t =~= (if t0.len() > 0 && t0[0] == '+' { t0.skip(1) } else { t0 }));
    if first == n {
        return None;
    }
    let mut result: u64 = 0;
    let mut i = first;
    while i < n
        invariant
            n == s@.len(),
            first <= i <= n,
            t == s@.skip(first as int),
            t0 == s@.skip(start as int),
            t == (if t0.len() > 0 && t0[0] == '+' { t0.skip(1) } else { t0 }),
            t.len() > 0,
            hex_value(t.take(i - first)) == Some(result as nat),
            result <= max,
        decreases n - i,
    {
        proof {
            assert(t.take(i + 1 - first).drop_last() =~= t.take(i - first));
            assert(t.take(i + 1 - first).last() == s@[i as int]);
        }
        let c = s.get_char(i);
        match hex_digit_exec(c) {
            None => {
                proof {
                    lemma_hex_invalid_extends(t, (i - first) as nat);
                    assert(hex_value(t) is None);
                }
                return None;
            },
            Some(d) => {
                if d > max {
                    proof {
                        lemma_hex_too_big_extends(t, (i + 1 - first) as nat, max as nat);
                    }
                    return None;
                }
                if result > (max - d) / 16 {
                    proof {
                        assert(result * 16 + d > max) by (nonlinear_arith)
                            requires
                                result > (max - d) / 16,
                                d <= max,
                        ;
                        lemma_hex_too_big_extends(t, (i + 1 - first) as nat, max as nat);
                    }
                    return None;
                }
                assert(result * 16 + d <= max) by (nonlinear_arith)
                    requires
                        result <= (max - d) / 16,
                        d <= max,
                ;
                result = result * 16 + d;
            },
        }
        i = i + 1;
    }
    assert(t.take(n - first) =~= t);
    Some(result)
}

/// A prefix with a character that is not a hexadecimal digit has no value, nor has any extension.
proof fn lemma_hex_invalid_extends(t: Seq<char>, k: nat)
    requires
        k < t.len(),
        hex_digit(t[k as int]) is None,
    ensures
        hex_value(t) is None,
    decreases t.len(),
{
    if t.len() == k + 1 {
        assert(t.last() == t[k as int]);
    } else {
        assert(t.drop_last()[k as int] == t[k as int]);
        lemma_hex_invalid_extends(t.drop_last(), k);
    }
}

/// A prefix whose value is above `max` makes the whole value above `max`.
proof fn lemma_hex_too_big_extends(t: Seq<char>, k: nat, max: nat)
    requires
        k <= t.len(),
        k > 0,
        hex_value(t.take(k as int)) is Some ==> hex_value(t.take(k as int)).unwrap() > max,
    ensures
        hex_value(t) is Some ==> hex_value(t).unwrap() > max,
    decreases t.len() - k,
{
    if k < t.len() {
        let p = t.take(k as int + 1);
        assert(p.drop_last() =~= t.take(k as int));
        lemma_hex_too_big_extends(t, k + 1, max);
    } else {
        assert(t.take(k as int) =~= t);
    }
}

fn starts_with_hex_prefix(s: &str) -> (r: bool)
    ensures
        r == has_hex_prefix(s@),
{
    s.unicode_len() >= 2 && s.get_char(0) == '0' && s.get_char(1) == 'x'
}

/// Displays a resource address in compact form.
pub fn res_display(r: u32) -> (s: String)
    ensures
        s@ == b59_digits(r as nat),
{
    base60_encode(r as u64)
}

/// Displays an endpoint in compact form.
pub fn ep_display(ep: u16) -> (s: String)
    ensures
        s@ == b59_digits(ep as nat),
{
    base60_encode(ep as u64)
}

/// Displays a node id in compact form.
pub fn node_display(id: u8) -> (s: String)
    ensures
        s@ == b59_digits(id as nat),
{
    base60_encode(id as u64)
}

/// What `res_parse` gives for the characters `s`: hexadecimal after a `0x` prefix,
/// else the compact value reduced to its low 32 bits.
pub open spec fn res_parse_spec(s: Seq<char>) -> Option<u32> {
    if has_hex_prefix(s) {
        match hex_parse_spec(s.skip(2), u32::MAX as nat) {
            Some(v) => Some(v as u32),
            None => None,
        }
    } else {
        match b59_decode_spec(s) {
            Some(v) => Some((v as nat % 0x1_0000_0000) as u32),
            None => None,
        }
    }
}

/// What `ep_parse` gives for the characters `s`: hexadecimal after a `0x` prefix,
/// else the compact value if it fits in 16 bits.
pub open spec fn ep_parse_spec(s: Seq<char>) -> Option<u16> {
    if has_hex_prefix(s) {
        match hex_parse_spec(s.skip(2), u16::MAX as nat) {
            Some(v) => Some(v as u16),
            None => None,
        }
    } else {
        match b59_decode_spec(s) {
            Some(v) => if v <= u16::MAX {
                Some(v as u16)
            } else {
                None
            },
            None => None,
        }
    }
}

/// Parses a resource address from compact form or from hex with a `0x` prefix.
pub fn res_parse(s: &str) -> (r: Option<u32>)
    ensures
        r == res_parse_spec(s@),
{
    if starts_with_hex_prefix(s) {
        match hex_parse_from(s, 2, 0xFFFF_FFFF) {
            Some(v) => Some(v as u32),
            None => None,
        }
    } else {
        match base60_decode(s, 0) {
            Some(v) => {
                assert(s@.skip(0) =~= s@);
                proof {
                    assert(v as u32 == (v as nat % 0x1_0000_0000) as u32) by (bit_vector);
                }
                Some(v as u32)
            },
            None => {
                assert(s@.skip(0) =~= s@);
                None
            },
        }
    }
}

/// Parses an endpoint from compact form or from hex with a `0x` prefix.
pub fn ep_parse(s: &str) -> (r: Option<u16>)
    ensures
        r == ep_parse_spec(s@),
{
    if starts_with_hex_prefix(s) {
        match hex_parse_from(s, 2, 0xFFFF) {
            Some(v) => Some(v as u16),
            None => None,
        }
    } else {
        assert(s@.skip(0) =~= s@);
        match base60_decode(s, 0) {
            Some(v) => if v <= 0xFFFF {
                Some(v as u16)
            } else {
                None
            },
            None => None,
        }
    }
}

// ── Laws ──

proof fn lemma_b59_digit_char(c: char)
    ensures
        b59_digit(c) matches Some(d) ==> d < 59 && b59_char(d) == c,
{
}

proof fn lemma_b59_char_digit(d: nat)
    requires
        d < 59,
    ensures
        b59_digit(b59_char(d)) == Some(d),
{
}

/// Every hexadecimal digit of either case has its value: '0' to '9' are 0 to 9, and
/// 'a' to 'f' and 'A' to 'F' are 10 to 15; no other character is a hexadecimal digit.
pub proof fn lemma_hex_digits(c: char)
    ensures
        hex_digit('0') == Some(0nat),
        hex_digit('1') == Some(1nat),
        hex_digit('2') == Some(2nat),
        hex_digit('3') == Some(3nat),
        hex_digit('4') == Some(4nat),
        hex_digit('5') == Some(5nat),
        hex_digit('6') == Some(6nat),
        hex_digit('7') == Some(7nat),
        hex_digit('8') == Some(8nat),
        hex_digit('9') == Some(9nat),
        hex_digit('a') == Some(10nat),
        hex_digit('b') == Some(11nat),
        hex_digit('c') == Some(12nat),
        hex_digit('d') == Some(13nat),
        hex_digit('e') == Some(14nat),
        hex_digit('f') == Some(15nat),
        hex_digit('A') == Some(10nat),
        hex_digit('B') == Some(11nat),
        hex_digit('C') == Some(12nat),
        hex_digit('D') == Some(13nat),
        hex_digit('E') == Some(14nat),
        hex_digit('F') == Some(15nat),
        hex_digit(c) is Some <==> (c == '0' || c == '1' || c == '2' || c == '3' || c == '4' || c == '5' || c == '6' || c == '7' || c == '8' || c == '9' || c == 'a' || c == 'b' || c == 'c' || c == 'd' || c == 'e' || c == 'f' || c == 'A' || c == 'B' || c == 'C' || c == 'D' || c == 'E' || c == 'F'),
{
    let x = c as u32;
    if hex_digit(c) is Some {
        assert(48 <= x <= 57 || 65 <= x <= 70 || 97 <= x <= 102);
    }
}

/// The alphabet of the compact form, digit 0 first.
pub open spec fn b59_alphabet() -> Seq<char> {
    "0123456789ABCDEFGHJKLMNPQRSTUVWXYZabcdefghjkmnpqrstuvwxyz.~"@
}

/// Digit `d` of the compact form is character `d` of the alphabet, and reads back as
/// `d`; a character reads as a digit only if it is that digit's alphabet character.
pub proof fn lemma_b59_alphabet(d: nat, c: char)
    ensures
        b59_alphabet().len() == 59,
        d < 59 ==> b59_char(d) == b59_alphabet()[d as int],
        d < 59 ==> b59_digit(b59_alphabet()[d as int]) == Some(d),
        b59_digit(c) == Some(d) ==> d < 59 && c == b59_alphabet()[d as int],
{
    reveal_strlit("0123456789ABCDEFGHJKLMNPQRSTUVWXYZabcdefghjkmnpqrstuvwxyz.~");
    let a = b59_alphabet();
    assert(a =~= seq!['0', '1', '2', '3', '4', '5', '6', '7', '8', '9', 'A', 'B', 'C', 'D', 'E', 'F', 'G', 'H', 'J', 'K', 'L', 'M', 'N', 'P', 'Q', 'R', 'S', 'T', 'U', 'V', 'W', 'X', 'Y', 'Z', 'a', 'b', 'c', 'd', 'e', 'f', 'g', 'h', 'j', 'k', 'm', 'n', 'p', 'q', 'r', 's', 't', 'u', 'v', 'w', 'x', 'y', 'z', '.', '~']);
    if d < 59 {
        lemma_b59_char_digit(d);
    if d == 0 {
        assert(a[0] == '0');
    } else if d == 1 {
        assert(a[1] == '1');
    } else if d == 2 {
        assert(a[2] == '2');
    } else if d == 3 {
        assert(a[3] == '3');
    } else if d == 4 {
        assert(a[4] == '4');
    } else if d == 5 {
        assert(a[5] == '5');
    } else if d == 6 {
        assert(a[6] == '6');
    } else if d == 7 {
        assert(a[7] == '7');
    } else if d == 8 {
        assert(a[8] == '8');
    } else if d == 9 {
        assert(a[9] == '9');
    } else if d == 10 {
        assert(a[10] == 'A');
    } else if d == 11 {
        assert(a[11] == 'B');
    } else if d == 12 {
        assert(a[12] == 'C');
    } else if d == 13 {
        assert(a[13] == 'D');
    } else if d == 14 {
        assert(a[14] == 'E');
    } else if d == 15 {
        assert(a[15] == 'F');
    } else if d == 16 {
        assert(a[16] == 'G');
    } else if d == 17 {
        assert(a[17] == 'H');
    } else if d == 18 {
        assert(a[18] == 'J');
    } else if d == 19 {
        assert(a[19] == 'K');
    } else if d == 20 {
        assert(a[20] == 'L');
    } else if d == 21 {
        assert(a[21] == 'M');
    } else if d == 22 {
        assert(a[22] == 'N');
    } else if d == 23 {
        assert(a[23] == 'P');
    } else if d == 24 {
        assert(a[24] == 'Q');
    } else if d == 25 {
        assert(a[25] == 'R');
    } else if d == 26 {
        assert(a[26] == 'S');
    } else if d == 27 {
        assert(a[27] == 'T');
    } else if d == 28 {
        assert(a[28] == 'U');
    } else if d == 29 {
        assert(a[29] == 'V');
    } else if d == 30 {
        assert(a[30] == 'W');
    } else if d == 31 {
        assert(a[31] == 'X');
    } else if d == 32 {
        assert(a[32] == 'Y');
    } else if d == 33 {
        assert(a[33] == 'Z');
    } else if d == 34 {
        assert(a[34] == 'a');
    } else if d == 35 {
        assert(a[35] == 'b');
    } else if d == 36 {
        assert(a[36] == 'c');
    } else if d == 37 {
        assert(a[37] == 'd');
    } else if d == 38 {
        assert(a[38] == 'e');
    } else if d == 39 {
        assert(a[39] == 'f');
    } else if d == 40 {
        assert(a[40] == 'g');
    } else if d == 41 {
        assert(a[41] == 'h');
    } else if d == 42 {
        assert(a[42] == 'j');
    } else if d == 43 {
        assert(a[43] == 'k');
    } else if d == 44 {
        assert(a[44] == 'm');
    } else if d == 45 {
        assert(a[45] == 'n');
    } else if d == 46 {
        assert(a[46] == 'p');
    } else if d == 47 {
        assert(a[47] == 'q');
    } else if d == 48 {
        assert(a[48] == 'r');
    } else if d == 49 {
        assert(a[49] == 's');
    } else if d == 50 {
        assert(a[50] == 't');
    } else if d == 51 {
        assert(a[51] == 'u');
    } else if d == 52 {
        assert(a[52] == 'v');
    } else if d == 53 {
        assert(a[53] == 'w');
    } else if d == 54 {
        assert(a[54] == 'x');
    } else if d == 55 {
        assert(a[55] == 'y');
    } else if d == 56 {
        assert(a[56] == 'z');
    } else if d == 57 {
        assert(a[57] == '.');
    } else if d == 58 {
        assert(a[58] == '~');
    }
    }
    if b59_digit(c) == Some(d) {
        lemma_b59_digit_char(c);
        assert(d < 59);
    if d == 0 {
        assert(a[0] == '0');
    } else if d == 1 {
        assert(a[1] == '1');
    } else if d == 2 {
        assert(a[2] == '2');
    } else if d == 3 {
        assert(a[3] == '3');
    } else if d == 4 {
        assert(a[4] == '4');
    } else if d == 5 {
        assert(a[5] == '5');
    } else if d == 6 {
        assert(a[6] == '6');
    } else if d == 7 {
        assert(a[7] == '7');
    } else if d == 8 {
        assert(a[8] == '8');
    } else if d == 9 {
        assert(a[9] == '9');
    } else if d == 10 {
        assert(a[10] == 'A');
    } else if d == 11 {
        assert(a[11] == 'B');
    } else if d == 12 {
        assert(a[12] == 'C');
    } else if d == 13 {
        assert(a[13] == 'D');
    } else if d == 14 {
        assert(a[14] == 'E');
    } else if d == 15 {
        assert(a[15] == 'F');
    } else if d == 16 {
        assert(a[16] == 'G');
    } else if d == 17 {
        assert(a[17] == 'H');
    } else if d == 18 {
        assert(a[18] == 'J');
    } else if d == 19 {
        assert(a[19] == 'K');
    } else if d == 20 {
        assert(a[20] == 'L');
    } else if d == 21 {
        assert(a[21] == 'M');
    } else if d == 22 {
        assert(a[22] == 'N');
    } else if d == 23 {
        assert(a[23] == 'P');
    } else if d == 24 {
        assert(a[24] == 'Q');
    } else if d == 25 {
        assert(a[25] == 'R');
    } else if d == 26 {
        assert(a[26] == 'S');
    } else if d == 27 {
        assert(a[27] == 'T');
    } else if d == 28 {
        assert(a[28] == 'U');
    } else if d == 29 {
        assert(a[29] == 'V');
    } else if d == 30 {
        assert(a[30] == 'W');
    } else if d == 31 {
        assert(a[31] == 'X');
    } else if d == 32 {
        assert(a[32] == 'Y');
    } else if d == 33 {
        assert(a[33] == 'Z');
    } else if d == 34 {
        assert(a[34] == 'a');
    } else if d == 35 {
        assert(a[35] == 'b');
    } else if d == 36 {
        assert(a[36] == 'c');
    } else if d == 37 {
        assert(a[37] == 'd');
    } else if d == 38 {
        assert(a[38] == 'e');
    } else if d == 39 {
        assert(a[39] == 'f');
    } else if d == 40 {
        assert(a[40] == 'g');
    } else if d == 41 {
        assert(a[41] == 'h');
    } else if d == 42 {
        assert(a[42] == 'j');
    } else if d == 43 {
        assert(a[43] == 'k');
    } else if d == 44 {
        assert(a[44] == 'm');
    } else if d == 45 {
        assert(a[45] == 'n');
    } else if d == 46 {
        assert(a[46] == 'p');
    } else if d == 47 {
        assert(a[47] == 'q');
    } else if d == 48 {
        assert(a[48] == 'r');
    } else if d == 49 {
        assert(a[49] == 's');
    } else if d == 50 {
        assert(a[50] == 't');
    } else if d == 51 {
        assert(a[51] == 'u');
    } else if d == 52 {
        assert(a[52] == 'v');
    } else if d == 53 {
        assert(a[53] == 'w');
    } else if d == 54 {
        assert(a[54] == 'x');
    } else if d == 55 {
        assert(a[55] == 'y');
    } else if d == 56 {
        assert(a[56] == 'z');
    } else if d == 57 {
        assert(a[57] == '.');
    } else if d == 58 {
        assert(a[58] == '~');
    }
    }
}

/// Decoding the compact form of a number gives the number.
pub proof fn lemma_b59_roundtrip(n: nat)
    ensures
        b59_value(b59_digits(n)) == Some(n),
    decreases n,
{
    let s = b59_digits(n);
    if n < 59 {
        lemma_b59_char_digit(n);
        assert(s.drop_last() =~= Seq::<char>::empty());
        assert(b59_value(Seq::<char>::empty()) == Some(0nat));
        assert(s.last() == b59_char(n));
    } else {
        lemma_b59_roundtrip(n / 59);
        lemma_b59_char_digit(n % 59);
        assert(s.drop_last() =~= b59_digits(n / 59));
        assert(s.last() == b59_char(n % 59));
        assert(n == (n / 59) * 59 + n % 59);
    }
}

/// The compact form has no leading zero digit unless it is the single digit "0".
proof fn lemma_b59_leading(n: nat)
    ensures
        b59_digits(n).len() >= 1,
        n < 59 ==> b59_digits(n).len() == 1,
        n >= 59 ==> b59_digits(n).len() >= 2,
        b59_digits(n).len() >= 2 ==> b59_digits(n)[0] != '0',
    decreases n,
{
    if n >= 59 {
        let m = n / 59;
        lemma_b59_leading(m);
        if m < 59 {
            assert(b59_digits(m)[0] == b59_char(m));
            assert(m >= 1);
            assert(b59_char(m) != '0');
        }
        assert(b59_digits(n)[0] == b59_digits(m)[0]);
    }
}

/// Parsing the display form of an endpoint gives the endpoint.
pub proof fn lemma_ep_display_parse(ep: u16)
    ensures
        ep_parse_spec(b59_digits(ep as nat)) == Some(ep),
{
    lemma_b59_roundtrip(ep as nat);
    lemma_b59_leading(ep as nat);
}

/// Parsing the display form of a resource address gives the address.
pub proof fn lemma_res_display_parse(r: u32)
    ensures
        res_parse_spec(b59_digits(r as nat)) == Some(r),
{
    lemma_b59_roundtrip(r as nat);
    lemma_b59_leading(r as nat);
}

} // verus!
