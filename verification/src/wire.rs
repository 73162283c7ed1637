//! Byte-level encoding primitives of the VSOCK wire format.
//!
//! Integers wider than a byte travel as little-endian base-128 varints
//! (seven data bits per byte, high bit set on every byte but the last);
//! single bytes travel verbatim.

use vstd::prelude::*;
use vstd::string::*;

verus! {

/// Why a payload could not be decoded.
#[derive(Clone, Copy, Debug, PartialEq, Eq, Structural)]
pub enum WireError {
    /// The input ended before the value was complete.
    UnexpectedEnd,
    /// A varint ran past its maximal width or overflowed its type.
    BadVarint,
    /// A boolean byte was neither 0 nor 1.
    BadBool,
    /// A string field did not hold valid UTF-8.
    BadUtf8,
}

/// The text that reports `e`.
pub open spec fn wire_error_text(e: WireError) -> Seq<char> {
    match e {
        WireError::UnexpectedEnd => "Hit the end of buffer, expected more data"@,
        WireError::BadVarint => "Found a varint that didn't terminate. Is the usize too big for this platform?"@,
        WireError::BadBool => "Found a bool that wasn't 0 or 1"@,
        WireError::BadUtf8 => "Tried to parse invalid utf-8"@,
    }
}

impl WireError {
    /// The text that reports this error.
    pub fn message(&self) -> (s: String)
        ensures
            s@ == wire_error_text(*self),
    {
        match self {
            WireError::UnexpectedEnd => String::from_str("Hit the end of buffer, expected more data"),
            WireError::BadVarint => String::from_str(
                "Found a varint that didn't terminate. Is the usize too big for this platform?",
            ),
            WireError::BadBool => String::from_str("Found a bool that wasn't 0 or 1"),
            WireError::BadUtf8 => String::from_str("Tried to parse invalid utf-8"),
        }
    }
}

/// `128` to the power `n`.
pub open spec fn pow128(n: nat) -> nat
    decreases n,
{
    if n == 0 {
        1
    } else {
        128 * pow128((n - 1) as nat)
    }
}

/// The varint encoding of `v`.
pub open spec fn varint_bytes(v: nat) -> Seq<u8>
    decreases v,
{
    if v < 128 {
        seq![v as u8]
    } else {
        seq![(v % 128 + 128) as u8] + varint_bytes(v / 128)
    }
}

/// Reads a varint that starts at `pos` and spans at most `budget` bytes; when
/// it spans exactly `budget` bytes its last byte may not exceed `last_max`.
/// On success yields the value and the position just past the varint.
pub open spec fn parse_varint(s: Seq<u8>, pos: int, budget: nat, last_max: nat) -> Result<
    (nat, int),
    WireError,
>
    decreases budget,
{
    if budget == 0 {
        Err(WireError::BadVarint)
    } else if pos < 0 || pos >= s.len() {
        Err(WireError::UnexpectedEnd)
    } else if s[pos] < 128 {
        if budget == 1 && s[pos] > last_max {
            Err(WireError::BadVarint)
        } else {
            Ok((s[pos] as nat, pos + 1))
        }
    } else {
        match parse_varint(s, pos + 1, (budget - 1) as nat, last_max) {
            Ok((v, end)) => Ok((((s[pos] - 128) + 128 * v) as nat, end)),
            Err(e) => Err(e),
        }
    }
}

/// `e` lies in `s` starting at `pos`.
pub open spec fn embeds(s: Seq<u8>, pos: int, e: Seq<u8>) -> bool {
    &&& 0 <= pos
    &&& pos + e.len() <= s.len()
    &&& s.subrange(pos, pos + e.len()) == e
}

/// Two encodings laid one after the other can be found one after the other.
pub proof fn lemma_embeds_concat(s: Seq<u8>, pos: int, a: Seq<u8>, b: Seq<u8>)
    requires
        embeds(s, pos, a + b),
    ensures
        embeds(s, pos, a),
        embeds(s, pos + a.len(), b),
{
    let whole = s.subrange(pos, pos + a.len() + b.len());
    assert(whole == a + b);
    assert(s.subrange(pos, pos + a.len()) =~= whole.subrange(0, a.len() as int));
    assert(whole.subrange(0, a.len() as int) =~= a);
    assert(s.subrange(pos + a.len(), pos + a.len() + b.len()) =~= whole.subrange(
        a.len() as int,
        (a.len() + b.len()) as int,
    ));
    assert(whole.subrange(a.len() as int, (a.len() + b.len()) as int) =~= b);
}

/// A successful varint read stays inside the input and its value fits the
/// width that the budget and the last-byte bound allow.
pub proof fn lemma_parse_varint_bounds(s: Seq<u8>, pos: int, budget: nat, last_max: nat)
    ensures
        parse_varint(s, pos, budget, last_max) matches Ok((v, end)) ==> {
            &&& 1 <= budget
            &&& pos < end <= s.len()
            &&& v < pow128((budget - 1) as nat) * (last_max + 1)
            &&& v < pow128(budget)
        },
    decreases budget,
{
    if budget > 0 && 0 <= pos < s.len() {
        if s[pos] < 128 {
            if budget == 1 {
                let p = pow128((budget - 1) as nat);
                assert(p == 1);
                assert(pow128(budget) == 128) by {
                    reveal_with_fuel(pow128, 2);
                }
                if s[pos] <= last_max {
                    assert(s[pos] < p * (last_max + 1)) by (nonlinear_arith)
                        requires
                            p == 1,
                            s[pos] <= last_max,
                    ;
                }
            } else {
                let p = pow128((budget - 1) as nat);
                lemma_pow128_positive((budget - 1) as nat);
                assert(s[pos] < p * (last_max + 1)) by (nonlinear_arith)
                    requires
                        s[pos] < 128,
                        budget >= 2,
                        p == pow128((budget - 1) as nat),
                        p >= 128,
                        last_max >= 0,
                ;
            }
        } else {
            lemma_parse_varint_bounds(s, pos + 1, (budget - 1) as nat, last_max);
            if let Ok((w, end)) = parse_varint(s, pos + 1, (budget - 1) as nat, last_max) {
                let q = pow128((budget - 2) as nat);
                let b = s[pos] - 128;
                assert(pow128((budget - 1) as nat) == 128 * q);
                assert(pow128(budget) == 128 * pow128((budget - 1) as nat));
                assert(b + 128 * w < 128 * q * (last_max + 1)) by (nonlinear_arith)
                    requires
                        0 <= b < 128,
                        w < q * (last_max + 1),
                ;
                assert(b + 128 * w < 128 * pow128((budget - 1) as nat)) by (nonlinear_arith)
                    requires
                        0 <= b < 128,
                        w < pow128((budget - 1) as nat),
                ;
            }
        }
    }
}

pub proof fn lemma_pow128_positive(n: nat)
    ensures
        pow128(n) >= 1,
        n >= 1 ==> pow128(n) >= 128,
    decreases n,
{
    if n > 0 {
        lemma_pow128_positive((n - 1) as nat);
    }
}

/// Reading back the encoding of `v` yields `v` and the position just past it,
/// provided `v` fits the width.
pub proof fn lemma_varint_roundtrip(v: nat, s: Seq<u8>, pos: int, budget: nat, last_max: nat)
    requires
        1 <= budget,
        last_max < 128,
        v < pow128((budget - 1) as nat) * (last_max + 1),
        embeds(s, pos, varint_bytes(v)),
    ensures
        parse_varint(s, pos, budget, last_max) == Ok::<(nat, int), WireError>(
            (v, pos + varint_bytes(v).len()),
        ),
    decreases v,
{
    let e = varint_bytes(v);
    assert(s[pos] == e[0]) by {
        assert(s.subrange(pos, pos + e.len())[0] == s[pos]);
    }
    assert(pow128(0) == 1);
    if budget == 1 {
        let p = pow128((budget - 1) as nat);
        assert(p == 1);
        assert(v < last_max + 1) by (nonlinear_arith)
            requires
                p == 1,
                v < p * (last_max + 1),
        ;
    }
    if v < 128 {
        assert(e == seq![v as u8]);
        assert(s[pos] as nat == v);
    } else {
        let rest = varint_bytes(v / 128);
        assert(e == seq![(v % 128 + 128) as u8] + rest);
        lemma_embeds_concat(s, pos, seq![(v % 128 + 128) as u8], rest);
        let q = pow128((budget - 2) as nat);
        assert(pow128((budget - 1) as nat) == 128 * q);
        assert(v / 128 < q * (last_max + 1)) by (nonlinear_arith)
            requires
                v < 128 * q * (last_max + 1),
        ;
        lemma_varint_roundtrip(v / 128, s, pos + 1, (budget - 1) as nat, last_max);
        assert(s[pos] - 128 == v % 128);
        assert((v % 128) + 128 * (v / 128) == v);
    }
}

/// Appends the varint encoding of `v` to `out`.
pub fn write_varint(v: u64, out: &mut Vec<u8>)
    ensures
        final(out)@ == old(out)@ + varint_bytes(v as nat),
    decreases v,
{
    if v < 128 {
        out.push(v as u8);
        assert(final(out)@ =~= old(out)@ + varint_bytes(v as nat));
    } else {
        out.push((v % 128 + 128) as u8);
        write_varint(v / 128, out);
        assert(final(out)@ =~= old(out)@ + varint_bytes(v as nat));
    }
}

/// The largest value that fits 64 bits, plus one.
pub open spec fn two_pow_64() -> nat {
    0x1_0000_0000_0000_0000
}

/// Executable counterpart of [`parse_varint`].
fn read_varint(buf: &[u8], pos: usize, budget: usize, last_max: u8) -> (r: Result<
    (u64, usize),
    WireError,
>)
    requires
        pos <= buf@.len(),
        1 <= budget,
        last_max < 128,
        pow128((budget - 1) as nat) * (last_max + 1) <= two_pow_64(),
    ensures
        match r {
            Ok((v, end)) => parse_varint(buf@, pos as int, budget as nat, last_max as nat) == Ok::<
                (nat, int),
                WireError,
            >((v as nat, end as int)),
            Err(e) => parse_varint(buf@, pos as int, budget as nat, last_max as nat) == Err::<
                (nat, int),
                WireError,
            >(e),
        },
    decreases budget,
{
    if pos >= buf.len() {
        return Err(WireError::UnexpectedEnd);
    }
    let b = buf[pos];
    if b < 128 {
        if budget == 1 && b > last_max {
            Err(WireError::BadVarint)
        } else {
            Ok((b as u64, pos + 1))
        }
    } else if budget == 1 {
        Err(WireError::BadVarint)
    } else {
        let ghost q = pow128((budget - 2) as nat);
        assert(pow128((budget - 1) as nat) == 128 * q);
        assert(q * (last_max + 1) <= two_pow_64()) by (nonlinear_arith)
            requires
                128 * q * (last_max + 1) <= two_pow_64(),
                q >= 0,
        ;
        match read_varint(buf, pos + 1, budget - 1, last_max) {
            Ok((w, end)) => {
                proof {
                    lemma_parse_varint_bounds(buf@, pos + 1, (budget - 1) as nat, last_max as nat);
                    assert((b - 128) + 128 * w < two_pow_64()) by (nonlinear_arith)
                        requires
                            0 <= b - 128 < 128,
                            w < q * (last_max + 1),
                            128 * q * (last_max + 1) <= two_pow_64(),
                    ;
                }
                Ok(((b - 128) as u64 + 128 * w, end))
            },
            Err(e) => Err(e),
        }
    }
}

/// Reads a varint-encoded `u32` (at most 5 bytes).
pub open spec fn parse_varint_u32(s: Seq<u8>, pos: int) -> Result<(nat, int), WireError> {
    parse_varint(s, pos, 5, 15)
}

/// Reads a varint-encoded length or `u64` (at most 10 bytes).
pub open spec fn parse_varint_u64(s: Seq<u8>, pos: int) -> Result<(nat, int), WireError> {
    parse_varint(s, pos, 10, 1)
}

pub proof fn lemma_varint_widths()
    ensures
        pow128(4) * 16 == 0x1_0000_0000,
        pow128(5) == 0x8_0000_0000,
        pow128(9) * 2 == two_pow_64(),
{
    reveal_with_fuel(pow128, 10);
    assert(pow128(4) == 0x1000_0000);
    assert(pow128(5) == 0x8_0000_0000);
    assert(pow128(9) == 0x8000_0000_0000_0000);
}

/// Reads a varint-encoded `u32` starting at `pos`.
pub fn read_varint_u32(buf: &[u8], pos: usize) -> (r: Result<(u32, usize), WireError>)
    requires
        pos <= buf@.len(),
    ensures
        match r {
            Ok((v, end)) => parse_varint_u32(buf@, pos as int) == Ok::<(nat, int), WireError>(
                (v as nat, end as int),
            ) && pos < end <= buf@.len(),
            Err(e) => parse_varint_u32(buf@, pos as int) == Err::<(nat, int), WireError>(e),
        },
{
    proof {
        lemma_varint_widths();
        lemma_parse_varint_bounds(buf@, pos as int, 5, 15);
    }
    match read_varint(buf, pos, 5, 15) {
        Ok((v, end)) => Ok((v as u32, end)),
        Err(e) => Err(e),
    }
}

/// Reads a varint-encoded `u64` (sequence and string lengths) starting at `pos`.
pub fn read_varint_u64(buf: &[u8], pos: usize) -> (r: Result<(u64, usize), WireError>)
    requires
        pos <= buf@.len(),
    ensures
        match r {
            Ok((v, end)) => parse_varint_u64(buf@, pos as int) == Ok::<(nat, int), WireError>(
                (v as nat, end as int),
            ) && pos < end <= buf@.len(),
            Err(e) => parse_varint_u64(buf@, pos as int) == Err::<(nat, int), WireError>(e),
        },
{
    proof {
        lemma_varint_widths();
        lemma_parse_varint_bounds(buf@, pos as int, 10, 1);
    }
    read_varint(buf, pos, 10, 1)
}

} // verus!
