//! Number formatting and parsing for progress reports, ports and names.

use vstd::prelude::*;
use vstd::string::*;

verus! {

/// The decimal digit character for a digit value.
pub open spec fn digit_char(d: nat) -> char {
    if d == 0 {
        '0'
    } else if d == 1 {
        '1'
    } else if d == 2 {
        '2'
    } else if d == 3 {
        '3'
    } else if d == 4 {
        '4'
    } else if d == 5 {
        '5'
    } else if d == 6 {
        '6'
    } else if d == 7 {
        '7'
    } else if d == 8 {
        '8'
    } else {
        '9'
    }
}

/// The decimal representation of a natural number, without leading zeros.
pub open spec fn dec(n: nat) -> Seq<char>
    decreases n,
{
    if n < 10 {
        seq![digit_char(n)]
    } else {
        dec(n / 10).push(digit_char(n % 10))
    }
}

fn digit_str(d: u64) -> (r: &'static str)
    requires
        d < 10,
    ensures
        r@ == seq![digit_char(d as nat)],
{
    proof {
        reveal_strlit("0");
        reveal_strlit("1");
        reveal_strlit("2");
        reveal_strlit("3");
        reveal_strlit("4");
        reveal_strlit("5");
        reveal_strlit("6");
        reveal_strlit("7");
        reveal_strlit("8");
        reveal_strlit("9");
    }
    if d == 0 {
        "0"
    } else if d == 1 {
        "1"
    } else if d == 2 {
        "2"
    } else if d == 3 {
        "3"
    } else if d == 4 {
        "4"
    } else if d == 5 {
        "5"
    } else if d == 6 {
        "6"
    } else if d == 7 {
        "7"
    } else if d == 8 {
        "8"
    } else {
        "9"
    }
}

/// Appends the decimal representation of `n`.
pub fn append_dec(s: &mut String, n: u64)
    ensures
        final(s)@ == old(s)@ + dec(n as nat),
    decreases n,
{
    if n >= 10 {
        append_dec(s, n / 10);
    }
    s.append(digit_str(n % 10));
    proof {
        if n >= 10 {
            assert(dec(n as nat) == dec((n / 10) as nat).push(digit_char((n % 10) as nat)));
        }
        assert(final(s)@ =~= old(s)@ + dec(n as nat));
    }
}

/// The decimal representation of `n`.
pub fn dec_string(n: u64) -> (r: String)
    ensures
        r@ == dec(n as nat),
{
    let mut s = String::new();
    append_dec(&mut s, n);
    assert(s@ =~= dec(n as nat));
    s
}

/// A value, a tenths digit and a unit after stepping up through `units` while
/// the value exceeds 1024: each step divides by 1024 and takes the tenths
/// digit from the value before dividing.
pub open spec fn step_units(value: nat, tenths: nat, units: Seq<Seq<char>>, unit: Seq<char>) -> (
    nat,
    nat,
    Seq<char>,
)
    decreases units.len(),
{
    if units.len() == 0 || value <= 1024 {
        (value, tenths, unit)
    } else {
        step_units(value / 1024, (value * 10) / 1024, units.drop_first(), units[0])
    }
}

/// `whole.tenths unit`, as the progress display writes amounts.
pub open spec fn amount_text(whole: nat, tenths: nat, unit: Seq<char>) -> Seq<char> {
    dec(whole) + "."@ + dec(tenths % 10) + " "@ + unit
}

/// The text for a transfer rate of `bytes` over `seconds` (a zero duration
/// counts as one second).
pub open spec fn throughput_text(bytes: nat, seconds: nat) -> Seq<char> {
    let secs = if seconds != 0 {
        seconds
    } else {
        1
    };
    let r = step_units(bytes / secs, (bytes * 10) / secs, seq!["KiB/s"@, "MiB/s"@, "GiB/s"@], "B/s"@);
    amount_text(r.0, r.1, r.2)
}

/// The text for an amount of bytes.
pub open spec fn bytes_text(bytes: nat) -> Seq<char> {
    if bytes < 1024 {
        dec(bytes) + " B"@
    } else {
        let r = step_units(bytes / 1024, (bytes * 10) / 1024, seq!["MiB"@, "GiB"@, "TiB"@], "KiB"@);
        amount_text(r.0, r.1, r.2)
    }
}

fn amount_string(whole: u64, tenths: u64, unit: &str) -> (r: String)
    ensures
        r@ == amount_text(whole as nat, tenths as nat, unit@),
{
    let mut s = dec_string(whole);
    s.append(".");
    append_dec(&mut s, tenths % 10);
    s.append(" ");
    s.append(unit);
    assert(s@ =~= amount_text(whole as nat, tenths as nat, unit@));
    s
}

/// Formats a transfer rate, such as `1.5 KiB/s`.
pub fn format_throughput(bytes: u64, seconds: u64) -> (r: String)
    requires
        bytes <= u64::MAX / 10,
    ensures
        r@ == throughput_text(bytes as nat, seconds as nat),
{
    let seconds = if seconds != 0 {
        seconds
    } else {
        1
    };
    let mut throughput = bytes / seconds;
    let mut throughput_decimal = (bytes * 10) / seconds;
    let mut unit = "B/s";
    let ghost units = seq!["KiB/s"@, "MiB/s"@, "GiB/s"@];
    assert(throughput_text(bytes as nat, seconds as nat) == amount_text(
        step_units(throughput as nat, throughput_decimal as nat, units, unit@).0,
        step_units(throughput as nat, throughput_decimal as nat, units, unit@).1,
        step_units(throughput as nat, throughput_decimal as nat, units, unit@).2,
    ));
    let ghost target = step_units(throughput as nat, throughput_decimal as nat, units, unit@);
    if throughput > 1024 {
        throughput_decimal = (throughput * 10) / 1024;
        throughput = throughput / 1024;
        unit = "KiB/s";
        let ghost rest1 = seq!["MiB/s"@, "GiB/s"@];
        assert(units.drop_first() =~= rest1);
        assert(target == step_units(throughput as nat, throughput_decimal as nat, rest1, unit@));
        if throughput > 1024 {
            throughput_decimal = (throughput * 10) / 1024;
            throughput = throughput / 1024;
            unit = "MiB/s";
            let ghost rest2 = seq!["GiB/s"@];
            assert(rest1.drop_first() =~= rest2);
            assert(target == step_units(throughput as nat, throughput_decimal as nat, rest2, unit@));
            if throughput > 1024 {
                throughput_decimal = (throughput * 10) / 1024;
                throughput = throughput / 1024;
                unit = "GiB/s";
                assert(rest2.drop_first() =~= Seq::<Seq<char>>::empty());
                assert(target == step_units(throughput as nat, throughput_decimal as nat, Seq::<Seq<char>>::empty(), unit@));
            }
        }
    }
    assert(target == (throughput as nat, throughput_decimal as nat, unit@));
    amount_string(throughput, throughput_decimal, unit)
}

/// Formats an amount of bytes, such as `12 B` or `3.4 MiB`.
pub fn format_bytes(bytes: u64) -> (r: String)
    requires
        bytes <= u64::MAX / 10,
    ensures
        r@ == bytes_text(bytes as nat),
{
    if bytes < 1024 {
        let mut s = dec_string(bytes);
        s.append(" B");
        return s;
    }
    let mut bytes_decimal = (bytes * 10) / 1024;
    let mut bytes = bytes / 1024;
    let mut unit = "KiB";
    let ghost units = seq!["MiB"@, "GiB"@, "TiB"@];
    let ghost target = step_units(bytes as nat, bytes_decimal as nat, units, unit@);
    if bytes > 1024 {
        bytes_decimal = (bytes * 10) / 1024;
        bytes = bytes / 1024;
        unit = "MiB";
        let ghost rest1 = seq!["GiB"@, "TiB"@];
        assert(units.drop_first() =~= rest1);
        assert(target == step_units(bytes as nat, bytes_decimal as nat, rest1, unit@));
        if bytes > 1024 {
            bytes_decimal = (bytes * 10) / 1024;
            bytes = bytes / 1024;
            unit = "GiB";
            let ghost rest2 = seq!["TiB"@];
            assert(rest1.drop_first() =~= rest2);
            assert(target == step_units(bytes as nat, bytes_decimal as nat, rest2, unit@));
            if bytes > 1024 {
                bytes_decimal = (bytes * 10) / 1024;
                bytes = bytes / 1024;
                unit = "TiB";
                assert(rest2.drop_first() =~= Seq::<Seq<char>>::empty());
                assert(target == step_units(bytes as nat, bytes_decimal as nat, Seq::<Seq<char>>::empty(), unit@));
            }
        }
    }
    assert(target == (bytes as nat, bytes_decimal as nat, unit@));
    amount_string(bytes, bytes_decimal, unit)
}

/// The value of a decimal digit character, if it is one.
pub open spec fn digit_value(c: char) -> Option<nat> {
    if '0' <= c && c <= '9' {
        Some((c as nat - '0' as nat) as nat)
    } else {
        None
    }
}

/// The value of a nonempty string of decimal digits.
pub open spec fn digits_value(s: Seq<char>) -> nat
    decreases s.len(),
{
    if s.len() == 0 {
        0
    } else {
        digits_value(s.drop_last()) * 10 + match digit_value(s.last()) {
            Some(d) => d,
            None => 0,
        }
    }
}

/// Whether every character is a decimal digit.
pub open spec fn all_digits(s: Seq<char>) -> bool {
    forall|i: int| 0 <= i < s.len() ==> digit_value(#[trigger] s[i]) is Some
}

/// What `str::parse::<u16>` gives: an optional `+` sign followed by at least
/// one decimal digit, with a value that fits in 16 bits.
pub open spec fn parse_u16_spec(s: Seq<char>) -> Option<u16> {
    let body = if s.len() > 0 && s[0] == '+' {
        s.drop_first()
    } else {
        s
    };
    if body.len() > 0 && all_digits(body) && digits_value(body) <= u16::MAX {
        Some(digits_value(body) as u16)
    } else {
        None
    }
}

proof fn lemma_digits_value_monotone(s: Seq<char>, i: int)
    requires
        0 <= i <= s.len(),
        all_digits(s),
    ensures
        digits_value(s.take(i)) <= digits_value(s),
    decreases s.len() - i,
{
    if i < s.len() {
        lemma_digits_value_monotone(s, i + 1);
        assert(s.take(i + 1).drop_last() =~= s.take(i));
    } else {
        assert(s.take(i) =~= s);
    }
}

/// Parses a port number the way `str::parse::<u16>` does.
pub fn parse_u16(s: &str) -> (r: Option<u16>)
    ensures
        r == parse_u16_spec(s@),
{
    let n = s.unicode_len();
    let mut start: usize = 0;
    if n > 0 && s.get_char(0) == '+' {
        start = 1;
    }
    let ghost body = if s@.len() > 0 && s@[0] == '+' {
        s@.drop_first()
    } else {
        s@
    };
    assert(body =~= s@.subrange(start as int, n as int));
    if start >= n {
        return None;
    }
    let mut value: u32 = 0;
    let mut i: usize = start;
    while i < n
        invariant
            start <= i <= n,
            n == s@.len(),
            body =~= s@.subrange(start as int, n as int),
            body == (if s@.len() > 0 && s@[0] == '+' {
                s@.drop_first()
            } else {
                s@
            }),
            body.len() > 0,
            all_digits(body.take(i - start)),
            value as nat == digits_value(body.take(i - start)),
            value <= u16::MAX,
        decreases n - i,
    {
        let c = s.get_char(i);
        if c < '0' || c > '9' {
            proof {
                assert(body[i - start] == c);
                assert(digit_value(body[i - start]) is None);
                assert(!all_digits(body));
            }
            return None;
        }
        let d = (c as u32) - ('0' as u32);
        let next = value * 10 + d;
        proof {
            let k = (i - start) as int;
            assert(body.take(k + 1).drop_last() =~= body.take(k));
            assert(body.take(k + 1).last() == c);
            assert(digit_value(c) == Some(d as nat));
            assert(all_digits(body.take(k + 1)));
        }
        if next > 65535 {
            proof {
                let k = (i - start) as int;
                assert(digits_value(body.take(k + 1)) == next);
                if all_digits(body) {
                    lemma_digits_value_monotone(body, k + 1);
                }
            }
            return None;
        }
        value = next;
        i = i + 1;
    }
    assert(body.take(n - start) =~= body);
    Some(value as u16)
}

/// What `str::parse::<u64>` gives: an optional `+` sign followed by at least
/// one decimal digit, with a value that fits in 64 bits.
pub open spec fn parse_u64_spec(s: Seq<char>) -> Option<u64> {
    let body = if s.len() > 0 && s[0] == '+' {
        s.drop_first()
    } else {
        s
    };
    if body.len() > 0 && all_digits(body) && digits_value(body) <= u64::MAX {
        Some(digits_value(body) as u64)
    } else {
        None
    }
}

/// Parses a number the way `str::parse::<u64>` does.
pub fn parse_u64(s: &str) -> (r: Option<u64>)
    ensures
        r == parse_u64_spec(s@),
{
    let n = s.unicode_len();
    let mut start: usize = 0;
    if n > 0 && s.get_char(0) == '+' {
        start = 1;
    }
    let ghost body = if s@.len() > 0 && s@[0] == '+' {
        s@.drop_first()
    } else {
        s@
    };
    assert(body =~= s@.subrange(start as int, n as int));
    if start >= n {
        return None;
    }
    let mut value: u128 = 0;
    let mut i: usize = start;
    while i < n
        invariant
            start <= i <= n,
            n == s@.len(),
            body =~= s@.subrange(start as int, n as int),
            body == (if s@.len() > 0 && s@[0] == '+' {
                s@.drop_first()
            } else {
                s@
            }),
            body.len() > 0,
            all_digits(body.take(i - start)),
            value as nat == digits_value(body.take(i - start)),
            value <= u64::MAX,
        decreases n - i,
    {
        let c = s.get_char(i);
        if c < '0' || c > '9' {
            proof {
                assert(body[i - start] == c);
                assert(digit_value(body[i - start]) is None);
                assert(!all_digits(body));
            }
            return None;
        }
        let d = (c as u128) - ('0' as u128);
        let next = value * 10 + d;
        proof {
            let k = (i - start) as int;
            assert(body.take(k + 1).drop_last() =~= body.take(k));
            assert(body.take(k + 1).last() == c);
            assert(digit_value(c) == Some(d as nat));
            assert(all_digits(body.take(k + 1)));
        }
        if next > 18446744073709551615 {
            proof {
                let k = (i - start) as int;
                assert(digits_value(body.take(k + 1)) == next);
                if all_digits(body) {
                    lemma_digits_value_monotone(body, k + 1);
                }
            }
            return None;
        }
        value = next;
        i = i + 1;
    }
    assert(body.take(n - start) =~= body);
    Some(value as u64)
}

/// The big-endian value of two bytes.
pub open spec fn be16(b: Seq<u8>) -> u16 {
    (b[0] as int * 256 + b[1] as int) as u16
}

/// The big-endian value of four bytes.
pub open spec fn be32(b: Seq<u8>) -> u32 {
    (((b[0] as int * 256 + b[1] as int) * 256 + b[2] as int) * 256 + b[3] as int) as u32
}

/// The four big-endian bytes of a value.
pub open spec fn be32_bytes(x: u32) -> Seq<u8> {
    seq![(x / 0x1000000) as u8, ((x / 0x10000) % 256) as u8, ((x / 0x100) % 256) as u8, (x % 256) as u8]
}

/// The eight big-endian bytes of a value.
pub open spec fn be64_bytes(x: u64) -> Seq<u8> {
    seq![
        (x / 0x100000000000000) as u8,
        ((x / 0x1000000000000) % 256) as u8,
        ((x / 0x10000000000) % 256) as u8,
        ((x / 0x100000000) % 256) as u8,
        ((x / 0x1000000) % 256) as u8,
        ((x / 0x10000) % 256) as u8,
        ((x / 0x100) % 256) as u8,
        (x % 256) as u8,
    ]
}

/// The two bytes of `n`, least significant first.
pub open spec fn le16_bytes(n: u16) -> Seq<u8> {
    seq![(n % 256) as u8, (n / 256) as u8]
}

/// The two bytes of `n`, most significant first.
pub open spec fn be16_bytes(n: u16) -> Seq<u8> {
    seq![(n / 256) as u8, (n % 256) as u8]
}

/// The little-endian value of two bytes.
pub open spec fn le16(b: Seq<u8>) -> u16 {
    (b[1] as int * 256 + b[0] as int) as u16
}

/// Calls `byteorder::NativeEndian::write_u16` on a two-byte buffer. Which of
/// the two byte orders comes out depends on the machine the program runs
/// on, so the contract states only that it is one of them.
#[verifier::external_body]
pub(crate) fn native_u16_bytes(n: u16) -> (b: Vec<u8>)
    ensures
        b@ == le16_bytes(n) || b@ == be16_bytes(n),
{
    let mut b = vec![0u8; 2];
    <byteorder::NativeEndian as byteorder::ByteOrder>::write_u16(&mut b, n);
    b
}

/// Calls `byteorder::NativeEndian::read_u16` on the first two bytes. Which
/// byte order it reads in depends on the machine the program runs on, so
/// the contract states only that it is one of them. byteorder panics on
/// fewer than two bytes.
#[verifier::external_body]
pub(crate) fn native_u16_value(b: &[u8]) -> (r: u16)
    requires
        b@.len() >= 2,
    ensures
        r == le16(b@) || r == be16(b@),
{
    <byteorder::NativeEndian as byteorder::ByteOrder>::read_u16(b)
}

/// Reads a big-endian 16-bit value from the first two bytes.
pub fn read_be16(b: &[u8]) -> (r: u16)
    requires
        b@.len() >= 2,
    ensures
        r == be16(b@),
{
    (b[0] as u16) * 256 + (b[1] as u16)
}

/// Reads a big-endian 32-bit value from the first four bytes.
pub fn read_be32(b: &[u8]) -> (r: u32)
    requires
        b@.len() >= 4,
    ensures
        r == be32(b@),
{
    (((b[0] as u32) * 256 + (b[1] as u32)) * 256 + (b[2] as u32)) * 256 + (b[3] as u32)
}

/// Appends the four big-endian bytes of a value.
pub fn push_be32(v: &mut Vec<u8>, x: u32)
    ensures
        final(v)@ == old(v)@ + be32_bytes(x),
{
    v.push((x / 0x1000000) as u8);
    v.push(((x / 0x10000) % 256) as u8);
    v.push(((x / 0x100) % 256) as u8);
    v.push((x % 256) as u8);
    assert(final(v)@ =~= old(v)@ + be32_bytes(x));
}

/// Appends the eight big-endian bytes of a value.
pub fn push_be64(v: &mut Vec<u8>, x: u64)
    ensures
        final(v)@ == old(v)@ + be64_bytes(x),
{
    v.push((x / 0x100000000000000) as u8);
    v.push(((x / 0x1000000000000) % 256) as u8);
    v.push(((x / 0x10000000000) % 256) as u8);
    v.push(((x / 0x100000000) % 256) as u8);
    v.push(((x / 0x1000000) % 256) as u8);
    v.push(((x / 0x10000) % 256) as u8);
    v.push(((x / 0x100) % 256) as u8);
    v.push((x % 256) as u8);
    assert(final(v)@ =~= old(v)@ + be64_bytes(x));
}

/// Reading the four big-endian bytes of a value gives the value back.
pub proof fn lemma_be32_roundtrip(x: u32)
    ensures
        be32(be32_bytes(x)) == x,
{
    let b = be32_bytes(x);
    assert(b[0] as int == x / 0x1000000);
    assert(((b[0] as int * 256 + b[1] as int) * 256 + b[2] as int) * 256 + b[3] as int == x) by (nonlinear_arith)
        requires
            b[0] as int == x / 0x1000000,
            b[1] as int == (x / 0x10000) % 256,
            b[2] as int == (x / 0x100) % 256,
            b[3] as int == x % 256,
            x <= u32::MAX,
    ;
}

/// Whether two byte strings are equal.
pub fn bytes_eq(a: &[u8], b: &[u8]) -> (r: bool)
    ensures
        r == (a@ == b@),
{
    if a.len() != b.len() {
        return false;
    }
    let mut i: usize = 0;
    while i < a.len()
        invariant
            i <= a@.len(),
            a@.len() == b@.len(),
            forall|j: int| 0 <= j < i ==> a@[j] == b@[j],
        decreases a.len() - i,
    {
        if a[i] != b[i] {
            return false;
        }
        i = i + 1;
    }
    assert(a@ =~= b@);
    true
}

} // verus!
