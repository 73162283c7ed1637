//! The field codec of the wire format: every field type knows how it is
//! written, how it is read back, and proves that reading its own encoding
//! gives the value back.
//!
//! Layout per field type: `u8` is one raw byte, `bool` is the byte 0 or 1,
//! `u32` is a varint of at most 5 bytes, a fixed byte array is its bytes,
//! a `String` is a varint byte length followed by its UTF-8 bytes, a `Vec`
//! is a varint element count followed by its elements, and a pair is its
//! first component followed by its second.

use vstd::prelude::*;
use vstd::slice::slice_subrange;
use vstd::string::*;
use vstd::utf8::*;
use crate::text::{lemma_str_chars_from_bytes, str_from_utf8};
use crate::wire::{
    embeds, lemma_embeds_concat, lemma_parse_varint_bounds, lemma_varint_roundtrip,
    lemma_varint_widths, parse_varint_u32, parse_varint_u64, read_varint_u32, read_varint_u64,
    two_pow_64, varint_bytes, write_varint, WireError,
};

verus! {

/// A type that travels on the wire.
pub trait WireFormat: Sized + DeepView {
    /// `v` can be written and read back: every length fits the 64-bit
    /// length prefix and every fixed-size field has its size.
    spec fn spec_wf(v: Self::V) -> bool;

    /// The bytes that encode `v`.
    spec fn spec_encode(v: Self::V) -> Seq<u8>;

    /// Reads a value starting at `pos`; on success yields the value and the
    /// position just past it.
    spec fn spec_parse(s: Seq<u8>, pos: int) -> Result<(Self::V, int), WireError>;

    /// Reading back an encoding yields the encoded value, whatever follows it.
    proof fn lemma_roundtrip(v: Self::V, s: Seq<u8>, pos: int)
        requires
            Self::spec_wf(v),
            embeds(s, pos, Self::spec_encode(v)),
        ensures
            Self::spec_parse(s, pos) == Ok::<(Self::V, int), WireError>(
                (v, pos + Self::spec_encode(v).len()),
            ),
    ;

    /// A successful read stays inside the input.
    proof fn lemma_parse_bounds(s: Seq<u8>, pos: int)
        ensures
            Self::spec_parse(s, pos) matches Ok((_, end)) ==> 0 <= pos <= end <= s.len(),
    ;

    /// A value of this type whose encoding is shorter than 2^64 bytes can be
    /// written and read back.
    proof fn lemma_value_wf(&self)
        requires
            Self::spec_encode(self.deep_view()).len() < two_pow_64(),
        ensures
            Self::spec_wf(self.deep_view()),
    ;

    /// Appends the encoding of `self` to `out`.
    fn encode(&self, out: &mut Vec<u8>)
        ensures
            final(out)@ == old(out)@ + Self::spec_encode(self.deep_view()),
    ;

    /// Reads a value starting at `pos`.
    fn decode(buf: &[u8], pos: usize) -> (r: Result<(Self, usize), WireError>)
        requires
            pos <= buf@.len(),
        ensures
            match r {
                Ok((v, end)) => {
                    &&& Self::spec_parse(buf@, pos as int) == Ok::<(Self::V, int), WireError>(
                        (v.deep_view(), end as int),
                    )
                    &&& pos <= end <= buf@.len()
                },
                Err(e) => Self::spec_parse(buf@, pos as int) == Err::<(Self::V, int), WireError>(e),
            },
    ;
}

impl WireFormat for u8 {
    open spec fn spec_wf(v: u8) -> bool {
        true
    }

    open spec fn spec_encode(v: u8) -> Seq<u8> {
        seq![v]
    }

    open spec fn spec_parse(s: Seq<u8>, pos: int) -> Result<(u8, int), WireError> {
        if 0 <= pos < s.len() {
            Ok((s[pos], pos + 1))
        } else {
            Err(WireError::UnexpectedEnd)
        }
    }

    proof fn lemma_roundtrip(v: u8, s: Seq<u8>, pos: int) {
        assert(s[pos] == s.subrange(pos, pos + 1)[0]);
    }

    proof fn lemma_parse_bounds(s: Seq<u8>, pos: int) {
    }

    proof fn lemma_value_wf(&self) {
    }

    fn encode(&self, out: &mut Vec<u8>) {
        out.push(*self);
        assert(final(out)@ =~= old(out)@ + seq![*self]);
    }

    fn decode(buf: &[u8], pos: usize) -> (r: Result<(u8, usize), WireError>) {
        if pos < buf.len() {
            Ok((buf[pos], pos + 1))
        } else {
            Err(WireError::UnexpectedEnd)
        }
    }
}

impl WireFormat for bool {
    open spec fn spec_wf(v: bool) -> bool {
        true
    }

    open spec fn spec_encode(v: bool) -> Seq<u8> {
        if v {
            seq![1u8]
        } else {
            seq![0u8]
        }
    }

    open spec fn spec_parse(s: Seq<u8>, pos: int) -> Result<(bool, int), WireError> {
        if 0 <= pos < s.len() {
            if s[pos] == 0 {
                Ok((false, pos + 1))
            } else if s[pos] == 1 {
                Ok((true, pos + 1))
            } else {
                Err(WireError::BadBool)
            }
        } else {
            Err(WireError::UnexpectedEnd)
        }
    }

    proof fn lemma_roundtrip(v: bool, s: Seq<u8>, pos: int) {
        assert(s[pos] == s.subrange(pos, pos + 1)[0]);
    }

    proof fn lemma_parse_bounds(s: Seq<u8>, pos: int) {
    }

    proof fn lemma_value_wf(&self) {
    }

    fn encode(&self, out: &mut Vec<u8>) {
        if *self {
            out.push(1);
        } else {
            out.push(0);
        }
        assert(final(out)@ =~= old(out)@ + Self::spec_encode(*self));
    }

    fn decode(buf: &[u8], pos: usize) -> (r: Result<(bool, usize), WireError>) {
        if pos >= buf.len() {
            Err(WireError::UnexpectedEnd)
        } else if buf[pos] == 0 {
            Ok((false, pos + 1))
        } else if buf[pos] == 1 {
            Ok((true, pos + 1))
        } else {
            Err(WireError::BadBool)
        }
    }
}

impl WireFormat for u32 {
    open spec fn spec_wf(v: u32) -> bool {
        true
    }

    open spec fn spec_encode(v: u32) -> Seq<u8> {
        varint_bytes(v as nat)
    }

    open spec fn spec_parse(s: Seq<u8>, pos: int) -> Result<(u32, int), WireError> {
        match parse_varint_u32(s, pos) {
            Ok((v, end)) => Ok((v as u32, end)),
            Err(e) => Err(e),
        }
    }

    proof fn lemma_roundtrip(v: u32, s: Seq<u8>, pos: int) {
        lemma_varint_widths();
        lemma_varint_roundtrip(v as nat, s, pos, 5, 15);
    }

    proof fn lemma_parse_bounds(s: Seq<u8>, pos: int) {
        lemma_parse_varint_bounds(s, pos, 5, 15);
    }

    proof fn lemma_value_wf(&self) {
    }

    fn encode(&self, out: &mut Vec<u8>) {
        write_varint(*self as u64, out);
    }

    fn decode(buf: &[u8], pos: usize) -> (r: Result<(u32, usize), WireError>) {
        read_varint_u32(buf, pos)
    }
}

impl<A: WireFormat, B: WireFormat> WireFormat for (A, B) {
    open spec fn spec_wf(v: (A::V, B::V)) -> bool {
        A::spec_wf(v.0) && B::spec_wf(v.1)
    }

    open spec fn spec_encode(v: (A::V, B::V)) -> Seq<u8> {
        A::spec_encode(v.0) + B::spec_encode(v.1)
    }

    open spec fn spec_parse(s: Seq<u8>, pos: int) -> Result<((A::V, B::V), int), WireError> {
        match A::spec_parse(s, pos) {
            Ok((a, p)) => match B::spec_parse(s, p) {
                Ok((b, q)) => Ok(((a, b), q)),
                Err(e) => Err(e),
            },
            Err(e) => Err(e),
        }
    }

    proof fn lemma_roundtrip(v: (A::V, B::V), s: Seq<u8>, pos: int) {
        lemma_embeds_concat(s, pos, A::spec_encode(v.0), B::spec_encode(v.1));
        A::lemma_roundtrip(v.0, s, pos);
        B::lemma_roundtrip(v.1, s, pos + A::spec_encode(v.0).len());
    }

    proof fn lemma_parse_bounds(s: Seq<u8>, pos: int) {
        A::lemma_parse_bounds(s, pos);
        if let Ok((_, p)) = A::spec_parse(s, pos) {
            B::lemma_parse_bounds(s, p);
        }
    }

    proof fn lemma_value_wf(&self) {
        self.0.lemma_value_wf();
        self.1.lemma_value_wf();
    }

    fn encode(&self, out: &mut Vec<u8>) {
        self.0.encode(out);
        self.1.encode(out);
        assert(final(out)@ =~= old(out)@ + Self::spec_encode(self.deep_view()));
    }

    fn decode(buf: &[u8], pos: usize) -> (r: Result<((A, B), usize), WireError>) {
        match A::decode(buf, pos) {
            Ok((a, p)) => match B::decode(buf, p) {
                Ok((b, q)) => Ok(((a, b), q)),
                Err(e) => Err(e),
            },
            Err(e) => Err(e),
        }
    }
}

impl WireFormat for [u8; 4] {
    open spec fn spec_wf(v: Seq<u8>) -> bool {
        v.len() == 4
    }

    open spec fn spec_encode(v: Seq<u8>) -> Seq<u8> {
        v
    }

    open spec fn spec_parse(s: Seq<u8>, pos: int) -> Result<(Seq<u8>, int), WireError> {
        if 0 <= pos && pos + 4 <= s.len() {
            Ok((s.subrange(pos, pos + 4), pos + 4))
        } else {
            Err(WireError::UnexpectedEnd)
        }
    }

    proof fn lemma_roundtrip(v: Seq<u8>, s: Seq<u8>, pos: int) {
    }

    proof fn lemma_parse_bounds(s: Seq<u8>, pos: int) {
    }

    proof fn lemma_value_wf(&self) {
    }

    fn encode(&self, out: &mut Vec<u8>) {
        let mut i: usize = 0;
        while i < 4
            invariant
                i <= 4,
                out@ == old(out)@ + self.deep_view().subrange(0, i as int),
            decreases 4 - i,
        {
            out.push(self[i]);
            i += 1;
            assert(out@ =~= old(out)@ + self.deep_view().subrange(0, i as int));
        }
        assert(self.deep_view().subrange(0, 4 as int) =~= self.deep_view());
    }

    fn decode(buf: &[u8], pos: usize) -> (r: Result<([u8; 4], usize), WireError>) {
        if buf.len() - pos < 4 {
            return Err(WireError::UnexpectedEnd);
        }
        let mut a = [0u8; 4];
        let mut i: usize = 0;
        while i < 4
            invariant
                i <= 4,
                pos + 4 <= buf@.len(),
                pos + 4 <= usize::MAX,
                forall|j: int| 0 <= j < i ==> a@[j] == buf@[pos + j],
            decreases 4 - i,
        {
            a[i] = buf[pos + i];
            i += 1;
        }
        assert(a.deep_view() =~= buf@.subrange(pos as int, pos + 4));
        Ok((a, pos + 4))
    }
}

impl WireFormat for [u8; 32] {
    open spec fn spec_wf(v: Seq<u8>) -> bool {
        v.len() == 32
    }

    open spec fn spec_encode(v: Seq<u8>) -> Seq<u8> {
        v
    }

    open spec fn spec_parse(s: Seq<u8>, pos: int) -> Result<(Seq<u8>, int), WireError> {
        if 0 <= pos && pos + 32 <= s.len() {
            Ok((s.subrange(pos, pos + 32), pos + 32))
        } else {
            Err(WireError::UnexpectedEnd)
        }
    }

    proof fn lemma_roundtrip(v: Seq<u8>, s: Seq<u8>, pos: int) {
    }

    proof fn lemma_parse_bounds(s: Seq<u8>, pos: int) {
    }

    proof fn lemma_value_wf(&self) {
    }

    fn encode(&self, out: &mut Vec<u8>) {
        let mut i: usize = 0;
        while i < 32
            invariant
                i <= 32,
                out@ == old(out)@ + self.deep_view().subrange(0, i as int),
            decreases 32 - i,
        {
            out.push(self[i]);
            i += 1;
            assert(out@ =~= old(out)@ + self.deep_view().subrange(0, i as int));
        }
        assert(self.deep_view().subrange(0, 32 as int) =~= self.deep_view());
    }

    fn decode(buf: &[u8], pos: usize) -> (r: Result<([u8; 32], usize), WireError>) {
        if buf.len() - pos < 32 {
            return Err(WireError::UnexpectedEnd);
        }
        let mut a = [0u8; 32];
        let mut i: usize = 0;
        while i < 32
            invariant
                i <= 32,
                pos + 32 <= buf@.len(),
                pos + 32 <= usize::MAX,
                forall|j: int| 0 <= j < i ==> a@[j] == buf@[pos + j],
            decreases 32 - i,
        {
            a[i] = buf[pos + i];
            i += 1;
        }
        assert(a.deep_view() =~= buf@.subrange(pos as int, pos + 32));
        Ok((a, pos + 32))
    }
}

impl WireFormat for String {
    open spec fn spec_wf(v: Seq<char>) -> bool {
        encode_utf8(v).len() < two_pow_64()
    }

    open spec fn spec_encode(v: Seq<char>) -> Seq<u8> {
        varint_bytes(encode_utf8(v).len()) + encode_utf8(v)
    }

    open spec fn spec_parse(s: Seq<u8>, pos: int) -> Result<(Seq<char>, int), WireError> {
        match parse_varint_u64(s, pos) {
            Ok((n, p)) => if p + n <= s.len() {
                if valid_utf8(s.subrange(p, p + n)) {
                    Ok((decode_utf8(s.subrange(p, p + n)), p + n))
                } else {
                    Err(WireError::BadUtf8)
                }
            } else {
                Err(WireError::UnexpectedEnd)
            },
            Err(e) => Err(e),
        }
    }

    proof fn lemma_roundtrip(v: Seq<char>, s: Seq<u8>, pos: int) {
        let b = encode_utf8(v);
        lemma_embeds_concat(s, pos, varint_bytes(b.len()), b);
        lemma_varint_widths();
        lemma_varint_roundtrip(b.len(), s, pos, 10, 1);
        encode_utf8_valid_utf8(v);
        encode_utf8_decode_utf8(v);
    }

    proof fn lemma_parse_bounds(s: Seq<u8>, pos: int) {
        lemma_parse_varint_bounds(s, pos, 10, 1);
    }

    proof fn lemma_value_wf(&self) {
    }

    fn encode(&self, out: &mut Vec<u8>) {
        let bytes = self.as_str().as_bytes();
        write_varint(bytes.len() as u64, out);
        let ghost mid = out@;
        let mut i: usize = 0;
        while i < bytes.len()
            invariant
                i <= bytes@.len(),
                out@ == mid + bytes@.subrange(0, i as int),
            decreases bytes@.len() - i,
        {
            out.push(bytes[i]);
            i += 1;
            assert(out@ =~= mid + bytes@.subrange(0, i as int));
        }
        assert(bytes@.subrange(0, bytes@.len() as int) =~= bytes@);
        assert(final(out)@ =~= old(out)@ + Self::spec_encode(self.deep_view()));
    }

    fn decode(buf: &[u8], pos: usize) -> (r: Result<(String, usize), WireError>) {
        let (n, p) = match read_varint_u64(buf, pos) {
            Ok(x) => x,
            Err(e) => return Err(e),
        };
        if n > (buf.len() - p) as u64 {
            return Err(WireError::UnexpectedEnd);
        }
        let end = p + n as usize;
        let bytes = slice_subrange(buf, p, end);
        match str_from_utf8(bytes) {
            Some(text) => {
                proof {
                    lemma_str_chars_from_bytes(text, bytes@);
                }
                Ok((text.to_owned(), end))
            },
            None => Err(WireError::BadUtf8),
        }
    }
}

/// The encodings of `xs`, one after the other, in order.
pub open spec fn encode_items<T: WireFormat>(xs: Seq<T::V>) -> Seq<u8>
    decreases xs.len(),
{
    if xs.len() == 0 {
        Seq::empty()
    } else {
        encode_items::<T>(xs.drop_last()) + T::spec_encode(xs.last())
    }
}

/// Reads `n` values one after the other starting at `pos`; the first value
/// that cannot be read decides the error.
pub open spec fn parse_items<T: WireFormat>(s: Seq<u8>, pos: int, n: nat) -> Result<
    (Seq<T::V>, int),
    WireError,
>
    decreases n,
{
    if n == 0 {
        Ok((Seq::empty(), pos))
    } else {
        match parse_items::<T>(s, pos, (n - 1) as nat) {
            Ok((xs, p)) => match T::spec_parse(s, p) {
                Ok((x, q)) => Ok((xs.push(x), q)),
                Err(e) => Err(e),
            },
            Err(e) => Err(e),
        }
    }
}

pub proof fn lemma_items_roundtrip<T: WireFormat>(xs: Seq<T::V>, s: Seq<u8>, pos: int)
    requires
        forall|i: int| 0 <= i < xs.len() ==> T::spec_wf(#[trigger] xs[i]),
        embeds(s, pos, encode_items::<T>(xs)),
    ensures
        parse_items::<T>(s, pos, xs.len()) == Ok::<(Seq<T::V>, int), WireError>(
            (xs, pos + encode_items::<T>(xs).len()),
        ),
    decreases xs.len(),
{
    if xs.len() == 0 {
        assert(xs =~= Seq::<T::V>::empty());
    } else {
        let init = xs.drop_last();
        let head = encode_items::<T>(init);
        lemma_embeds_concat(s, pos, head, T::spec_encode(xs.last()));
        assert forall|i: int| 0 <= i < init.len() implies T::spec_wf(#[trigger] init[i]) by {
            assert(init[i] == xs[i]);
        }
        lemma_items_roundtrip::<T>(init, s, pos);
        assert(T::spec_wf(xs[xs.len() - 1]));
        T::lemma_roundtrip(xs.last(), s, pos + head.len());
        assert(init.push(xs.last()) =~= xs);
    }
}

/// A run of bytes is encoded as the bytes themselves.
pub proof fn lemma_byte_items(xs: Seq<u8>)
    ensures
        encode_items::<u8>(xs) == xs,
    decreases xs.len(),
{
    if xs.len() > 0 {
        lemma_byte_items(xs.drop_last());
        assert(xs.drop_last().push(xs.last()) =~= xs);
    } else {
        assert(xs =~= Seq::<u8>::empty());
    }
}

/// Each value's encoding is at most as long as the encodings of the whole run.
pub proof fn lemma_item_encoding_within<T: WireFormat>(xs: Seq<T::V>, i: int)
    requires
        0 <= i < xs.len(),
    ensures
        T::spec_encode(xs[i]).len() <= encode_items::<T>(xs).len(),
    decreases xs.len(),
{
    if i < xs.len() - 1 {
        lemma_item_encoding_within::<T>(xs.drop_last(), i);
        assert(xs.drop_last()[i] == xs[i]);
    }
}

pub proof fn lemma_items_bounds<T: WireFormat>(s: Seq<u8>, pos: int, n: nat)
    requires
        0 <= pos <= s.len(),
    ensures
        parse_items::<T>(s, pos, n) matches Ok((xs, end)) ==> {
            &&& xs.len() == n
            &&& pos <= end <= s.len()
        },
    decreases n,
{
    if n > 0 {
        lemma_items_bounds::<T>(s, pos, (n - 1) as nat);
        if let Ok((_, p)) = parse_items::<T>(s, pos, (n - 1) as nat) {
            T::lemma_parse_bounds(s, p);
        }
    }
}

/// Once a value cannot be read, no longer run of values can be read either.
pub proof fn lemma_items_error_persists<T: WireFormat>(
    s: Seq<u8>,
    pos: int,
    k: nat,
    m: nat,
    e: WireError,
)
    requires
        k <= m,
        parse_items::<T>(s, pos, k) == Err::<(Seq<T::V>, int), WireError>(e),
    ensures
        parse_items::<T>(s, pos, m) == Err::<(Seq<T::V>, int), WireError>(e),
    decreases m,
{
    if k < m {
        lemma_items_error_persists::<T>(s, pos, k, (m - 1) as nat, e);
    }
}

impl<T: WireFormat> WireFormat for Vec<T> {
    open spec fn spec_wf(v: Seq<T::V>) -> bool {
        &&& v.len() < two_pow_64()
        &&& forall|i: int| 0 <= i < v.len() ==> T::spec_wf(#[trigger] v[i])
    }

    open spec fn spec_encode(v: Seq<T::V>) -> Seq<u8> {
        varint_bytes(v.len()) + encode_items::<T>(v)
    }

    open spec fn spec_parse(s: Seq<u8>, pos: int) -> Result<(Seq<T::V>, int), WireError> {
        match parse_varint_u64(s, pos) {
            Ok((n, p)) => parse_items::<T>(s, p, n),
            Err(e) => Err(e),
        }
    }

    proof fn lemma_roundtrip(v: Seq<T::V>, s: Seq<u8>, pos: int) {
        lemma_embeds_concat(s, pos, varint_bytes(v.len()), encode_items::<T>(v));
        lemma_varint_widths();
        lemma_varint_roundtrip(v.len(), s, pos, 10, 1);
        lemma_items_roundtrip::<T>(v, s, pos + varint_bytes(v.len()).len());
    }

    proof fn lemma_parse_bounds(s: Seq<u8>, pos: int) {
        lemma_parse_varint_bounds(s, pos, 10, 1);
        if let Ok((n, p)) = parse_varint_u64(s, pos) {
            lemma_items_bounds::<T>(s, p, n);
        }
    }

    proof fn lemma_value_wf(&self) {
        let dv = self.deep_view();
        vstd::std_specs::vec::axiom_spec_len(self);
        assert(dv.len() == self@.len());
        assert(dv.len() < two_pow_64());
        assert forall|i: int| 0 <= i < dv.len() implies T::spec_wf(#[trigger] dv[i]) by {
            lemma_item_encoding_within::<T>(dv, i);
            self@[i].lemma_value_wf();
        }
    }

    fn encode(&self, out: &mut Vec<u8>) {
        write_varint(self.len() as u64, out);
        let ghost mid = out@;
        let ghost dv = self.deep_view();
        let mut i: usize = 0;
        while i < self.len()
            invariant
                i <= self@.len(),
                dv == self.deep_view(),
                out@ == mid + encode_items::<T>(dv.take(i as int)),
            decreases self@.len() - i,
        {
            self[i].encode(out);
            proof {
                assert(dv.take(i + 1).drop_last() =~= dv.take(i as int));
                assert(dv.take(i + 1).last() == self@[i as int].deep_view());
                assert(out@ =~= mid + encode_items::<T>(dv.take(i + 1)));
            }
            i += 1;
        }
        assert(dv.take(self@.len() as int) =~= dv);
        assert(final(out)@ =~= old(out)@ + Self::spec_encode(self.deep_view()));
    }

    fn decode(buf: &[u8], pos: usize) -> (r: Result<(Vec<T>, usize), WireError>) {
        let (n, start) = match read_varint_u64(buf, pos) {
            Ok(x) => x,
            Err(e) => return Err(e),
        };
        let mut items: Vec<T> = Vec::new();
        let mut p = start;
        let mut i: u64 = 0;
        assert(items.deep_view() =~= Seq::<T::V>::empty());
        while i < n
            invariant
                start <= p <= buf@.len(),
                i <= n,
                parse_varint_u64(buf@, pos as int) == Ok::<(nat, int), WireError>(
                    (n as nat, start as int),
                ),
                parse_items::<T>(buf@, start as int, i as nat) == Ok::<
                    (Seq<T::V>, int),
                    WireError,
                >((items.deep_view(), p as int)),
            decreases n - i,
        {
            match T::decode(buf, p) {
                Ok((x, q)) => {
                    let ghost before = items.deep_view();
                    let ghost xv = x.deep_view();
                    items.push(x);
                    assert(items.deep_view() =~= before.push(xv));
                    p = q;
                    i += 1;
                },
                Err(e) => {
                    proof {
                        lemma_items_error_persists::<T>(
                            buf@,
                            start as int,
                            (i + 1) as nat,
                            n as nat,
                            e,
                        );
                    }
                    return Err(e);
                },
            }
        }
        Ok((items, p))
    }
}

} // verus!
