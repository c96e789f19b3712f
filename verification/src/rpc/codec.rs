//! The binary codec: how a typed value becomes bytes and how bytes become a
//! typed value again.
//!
//! Numbers are fixed-width and big-endian. Text and byte strings carry their
//! length in front, as a 32-bit number, and so does a sequence its count. The
//! fields of a record follow one another with nothing in between.

use super::error::Error;
use super::packing::{be32, be64, from_be32, from_be64, get_u32, get_u64, put_u32, put_u64};
use super::packing::{
    lemma_be32_canonical, lemma_be32_round_trip, lemma_be64_canonical, lemma_be64_round_trip,
};
use vstd::prelude::*;
use vstd::slice::slice_subrange;
use vstd::string::StringSliceAdditionalSpecFns;
use vstd::utf8::*;

verus! {

/// Why bytes fail to parse.
pub enum Fault {
    /// The input ends before the value does.
    Truncated,
    /// A text field does not hold UTF-8.
    BadText,
}

/// The text of the error that reports truncated input.
pub open spec fn truncated_text() -> Seq<char> {
    "unexpected end of input"@
}

/// The text of the error that reports a value too large to encode.
pub open spec fn oversized_text() -> Seq<char> {
    "value too large to encode"@
}

/// `std::str::from_utf8` succeeds on exactly the valid UTF-8 slices, and the
/// text it returns is the one whose UTF-8 encoding is the slice.
pub assume_specification[ std::str::from_utf8 ](v: &[u8]) -> (r: Result<&str, std::str::Utf8Error>)
    ensures
        r is Ok <==> valid_utf8(v@),
        r matches Ok(s) ==> s.spec_bytes() == v@,
;

/// A type with a place in the wire format.
pub trait Wire<'a>: Sized {
    /// What a value of the type stands for.
    type Model;

    /// The mathematical value that `self` stands for.
    spec fn model(&self) -> Self::Model;

    /// Whether `m` is the model of some value of the type.
    spec fn valid(m: Self::Model) -> bool;

    /// The bytes that encode `m`.
    spec fn encoding(m: Self::Model) -> Seq<u8>;

    /// The value at the front of `input` and the number of bytes it occupies,
    /// or the reason why there is none.
    spec fn parse(input: Seq<u8>) -> Result<(Self::Model, int), Fault>;

    /// A value's model is valid.
    proof fn lemma_model_valid(&self)
        ensures
            Self::valid(self.model()),
    ;

    /// No encoding is empty.
    proof fn lemma_encoding_nonempty(m: Self::Model)
        requires
            Self::valid(m),
        ensures
            Self::encoding(m).len() >= 1,
    ;

    /// What parses is valid, and the bytes it was parsed from are its
    /// encoding: nothing is skipped and nothing is invented.
    proof fn lemma_parse_exact(input: Seq<u8>)
        ensures
            Self::parse(input) matches Ok((m, n)) ==> {
                &&& Self::valid(m)
                &&& 0 <= n <= input.len()
                &&& Self::encoding(m) == input.subrange(0, n)
            },
    ;

    /// Parsing an encoding gives back the value and stops where the encoding
    /// ends, whatever follows it.
    proof fn lemma_round_trip(m: Self::Model, rest: Seq<u8>)
        requires
            Self::valid(m),
            Self::encoding(m).len() <= u32::MAX,
        ensures
            Self::parse(Self::encoding(m) + rest) == Ok::<(Self::Model, int), Fault>(
                (m, Self::encoding(m).len() as int),
            ),
    ;

    /// Takes the size of the encoding out of `budget`: what is left of it, or
    /// `None` where the encoding is larger.
    fn fits(&self, budget: u32) -> (left: Option<u32>)
        ensures
            match left {
                Some(k) => Self::encoding(self.model()).len() + k == budget,
                None => Self::encoding(self.model()).len() > budget,
            },
    ;

    /// Appends the encoding of `self` to `out`.
    fn encode(&self, out: &mut Vec<u8>)
        requires
            Self::encoding(self.model()).len() <= u32::MAX,
        ensures
            final(out)@ == old(out)@ + Self::encoding(self.model()),
    ;

    /// Decodes the value at the front of `input`; with it comes the number of
    /// bytes that it occupies.
    fn decode(input: &'a [u8]) -> (r: Result<(Self, usize), Error>)
        ensures
            match Self::parse(input@) {
                Ok((m, n)) => r matches Ok((v, k)) && v.model() == m && k == n,
                Err(Fault::Truncated) => r matches Err(Error::Serde(text)) && text@
                    == truncated_text(),
                Err(Fault::BadText) => r matches Err(Error::Utf8Error(_)),
            },
    ;
}

/// Joining three sequences gives the same whichever two are joined first.
pub proof fn lemma_concat_assoc<T>(a: Seq<T>, b: Seq<T>, c: Seq<T>)
    ensures
        (a + b) + c == a + (b + c),
{
    assert((a + b) + c =~= a + (b + c));
}

/// The error that reports truncated input.
pub fn truncated() -> (e: Error)
    ensures
        e matches Error::Serde(text) && text@ == truncated_text(),
{
    Error::custom("unexpected end of input")
}

impl<'a> Wire<'a> for u32 {
    type Model = u32;

    open spec fn model(&self) -> u32 {
        *self
    }

    open spec fn valid(m: u32) -> bool {
        true
    }

    open spec fn encoding(m: u32) -> Seq<u8> {
        be32(m)
    }

    open spec fn parse(input: Seq<u8>) -> Result<(u32, int), Fault> {
        if input.len() < 4 {
            Err(Fault::Truncated)
        } else {
            Ok((from_be32(input), 4))
        }
    }

    proof fn lemma_model_valid(&self) {
    }

    proof fn lemma_encoding_nonempty(m: u32) {
    }

    proof fn lemma_parse_exact(input: Seq<u8>) {
        if input.len() >= 4 {
            lemma_be32_canonical(input);
        }
    }

    proof fn lemma_round_trip(m: u32, rest: Seq<u8>) {
        lemma_be32_round_trip(m, rest);
    }

    fn fits(&self, budget: u32) -> (left: Option<u32>) {
        if budget < 4 {
            None
        } else {
            Some(budget - 4)
        }
    }

    fn encode(&self, out: &mut Vec<u8>) {
        put_u32(out, *self);
    }

    fn decode(input: &'a [u8]) -> (r: Result<(u32, usize), Error>) {
        if input.len() < 4 {
            Err(truncated())
        } else {
            assert(input@.subrange(0, input@.len() as int) =~= input@);
            Ok((get_u32(input, 0), 4))
        }
    }
}

impl<'a> Wire<'a> for &'a str {
    type Model = Seq<char>;

    open spec fn model(&self) -> Seq<char> {
        self@
    }

    open spec fn valid(m: Seq<char>) -> bool {
        true
    }

    open spec fn encoding(m: Seq<char>) -> Seq<u8> {
        be32(encode_utf8(m).len() as u32) + encode_utf8(m)
    }

    open spec fn parse(input: Seq<u8>) -> Result<(Seq<char>, int), Fault> {
        if input.len() < 4 {
            Err(Fault::Truncated)
        } else if input.len() < 4 + from_be32(input) {
            Err(Fault::Truncated)
        } else if !valid_utf8(input.subrange(4, 4 + from_be32(input))) {
            Err(Fault::BadText)
        } else {
            Ok((decode_utf8(input.subrange(4, 4 + from_be32(input))), 4 + from_be32(input)))
        }
    }

    proof fn lemma_model_valid(&self) {
    }

    proof fn lemma_encoding_nonempty(m: Seq<char>) {
    }

    proof fn lemma_parse_exact(input: Seq<u8>) {
        if Self::parse(input) is Ok {
            let n = from_be32(input);
            let bytes = input.subrange(4, 4 + n);
            lemma_be32_canonical(input);
            decode_utf8_encode_utf8(bytes);
            assert(be32(n) + bytes =~= input.subrange(0, 4 + n));
        }
    }

    proof fn lemma_round_trip(m: Seq<char>, rest: Seq<u8>) {
        let bytes = encode_utf8(m);
        let n = bytes.len() as u32;
        let input = Self::encoding(m) + rest;
        lemma_be32_round_trip(n, bytes + rest);
        assert(input =~= be32(n) + (bytes + rest));
        assert(input.subrange(4, 4 + n) =~= bytes);
        encode_utf8_valid_utf8(m);
        encode_utf8_decode_utf8(m);
    }

    fn fits(&self, budget: u32) -> (left: Option<u32>) {
        let len = self.as_bytes().len();
        if budget < 4 || len > (budget - 4) as usize {
            None
        } else {
            Some(budget - 4 - len as u32)
        }
    }

    fn encode(&self, out: &mut Vec<u8>) {
        let bytes = self.as_bytes();
        put_u32(out, bytes.len() as u32);
        out.extend_from_slice(bytes);
        assert(out@ =~= old(out)@ + Self::encoding(self.model()));
    }

    fn decode(input: &'a [u8]) -> (r: Result<(&'a str, usize), Error>) {
        if input.len() < 4 {
            return Err(truncated());
        }
        assert(input@.subrange(0, input@.len() as int) =~= input@);
        let n = get_u32(input, 0) as usize;
        if input.len() - 4 < n {
            return Err(truncated());
        }
        let bytes = slice_subrange(input, 4, 4 + n);
        match std::str::from_utf8(bytes) {
            Ok(s) => {
                proof {
                    encode_utf8_decode_utf8(s@);
                }
                Ok((s, 4 + n))
            },
            Err(e) => Err(Error::from(e)),
        }
    }
}

impl<'a> Wire<'a> for u64 {
    type Model = u64;

    open spec fn model(&self) -> u64 {
        *self
    }

    open spec fn valid(m: u64) -> bool {
        true
    }

    open spec fn encoding(m: u64) -> Seq<u8> {
        be64(m)
    }

    open spec fn parse(input: Seq<u8>) -> Result<(u64, int), Fault> {
        if input.len() < 8 {
            Err(Fault::Truncated)
        } else {
            Ok((from_be64(input), 8))
        }
    }

    proof fn lemma_model_valid(&self) {
    }

    proof fn lemma_encoding_nonempty(m: u64) {
    }

    proof fn lemma_parse_exact(input: Seq<u8>) {
        if input.len() >= 8 {
            lemma_be64_canonical(input);
        }
    }

    proof fn lemma_round_trip(m: u64, rest: Seq<u8>) {
        lemma_be64_round_trip(m, rest);
    }

    fn fits(&self, budget: u32) -> (left: Option<u32>) {
        if budget < 8 {
            None
        } else {
            Some(budget - 8)
        }
    }

    fn encode(&self, out: &mut Vec<u8>) {
        put_u64(out, *self);
    }

    fn decode(input: &'a [u8]) -> (r: Result<(u64, usize), Error>) {
        if input.len() < 8 {
            Err(truncated())
        } else {
            assert(input@.subrange(0, input@.len() as int) =~= input@);
            Ok((get_u64(input, 0), 8))
        }
    }
}

impl<'a> Wire<'a> for &'a [u8] {
    type Model = Seq<u8>;

    open spec fn model(&self) -> Seq<u8> {
        self@
    }

    open spec fn valid(m: Seq<u8>) -> bool {
        true
    }

    open spec fn encoding(m: Seq<u8>) -> Seq<u8> {
        be32(m.len() as u32) + m
    }

    open spec fn parse(input: Seq<u8>) -> Result<(Seq<u8>, int), Fault> {
        if input.len() < 4 {
            Err(Fault::Truncated)
        } else if input.len() < 4 + from_be32(input) {
            Err(Fault::Truncated)
        } else {
            Ok((input.subrange(4, 4 + from_be32(input)), 4 + from_be32(input)))
        }
    }

    proof fn lemma_model_valid(&self) {
    }

    proof fn lemma_encoding_nonempty(m: Seq<u8>) {
    }

    proof fn lemma_parse_exact(input: Seq<u8>) {
        if Self::parse(input) is Ok {
            let n = from_be32(input);
            lemma_be32_canonical(input);
            assert(be32(n) + input.subrange(4, 4 + n) =~= input.subrange(0, 4 + n));
        }
    }

    proof fn lemma_round_trip(m: Seq<u8>, rest: Seq<u8>) {
        let n = m.len() as u32;
        let input = Self::encoding(m) + rest;
        lemma_be32_round_trip(n, m + rest);
        assert(input =~= be32(n) + (m + rest));
        assert(input.subrange(4, 4 + n) =~= m);
    }

    fn fits(&self, budget: u32) -> (left: Option<u32>) {
        let len = self.len();
        if budget < 4 || len > (budget - 4) as usize {
            None
        } else {
            Some(budget - 4 - len as u32)
        }
    }

    fn encode(&self, out: &mut Vec<u8>) {
        put_u32(out, self.len() as u32);
        out.extend_from_slice(*self);
        assert(out@ =~= old(out)@ + Self::encoding(self.model()));
    }

    fn decode(input: &'a [u8]) -> (r: Result<(&'a [u8], usize), Error>) {
        if input.len() < 4 {
            return Err(truncated());
        }
        assert(input@.subrange(0, input@.len() as int) =~= input@);
        let n = get_u32(input, 0) as usize;
        if input.len() - 4 < n {
            return Err(truncated());
        }
        Ok((slice_subrange(input, 4, 4 + n), 4 + n))
    }
}

/// What parsing gives for a field of exactly `n` raw bytes.
pub open spec fn parse_fixed(input: Seq<u8>, n: int) -> Result<(Seq<u8>, int), Fault> {
    if input.len() < n {
        Err(Fault::Truncated)
    } else {
        Ok((input.subrange(0, n), n))
    }
}

/// Appends the bytes of an array to `out`.
fn encode_array<const N: usize>(a: &[u8; N], out: &mut Vec<u8>)
    ensures
        final(out)@ == old(out)@ + a@,
{
    out.extend_from_slice(a.as_slice());
}

/// Decodes an array from the first `N` bytes of `input`.
fn decode_array<const N: usize>(input: &[u8]) -> (r: Result<([u8; N], usize), Error>)
    ensures
        match parse_fixed(input@, N as int) {
            Ok((m, n)) => r matches Ok((v, k)) && v@ == m && k == n,
            Err(_) => r matches Err(Error::Serde(text)) && text@ == truncated_text(),
        },
{
    if input.len() < N {
        return Err(truncated());
    }
    let mut a = [0u8;N];
    let mut i: usize = 0;
    while i < N
        invariant
            i <= N <= input@.len(),
            forall|j: int| 0 <= j < i ==> a@[j] == input@[j],
        decreases N - i,
    {
        a[i] = input[i];
        i += 1;
    }
    assert(a@ =~= input@.subrange(0, N as int));
    Ok((a, N))
}

impl<'a> Wire<'a> for [u8; 6] {
    type Model = Seq<u8>;

    open spec fn model(&self) -> Seq<u8> {
        self@
    }

    open spec fn valid(m: Seq<u8>) -> bool {
        m.len() == 6
    }

    open spec fn encoding(m: Seq<u8>) -> Seq<u8> {
        m
    }

    open spec fn parse(input: Seq<u8>) -> Result<(Seq<u8>, int), Fault> {
        parse_fixed(input, 6)
    }

    proof fn lemma_model_valid(&self) {
    }

    proof fn lemma_encoding_nonempty(m: Seq<u8>) {
    }

    proof fn lemma_parse_exact(input: Seq<u8>) {
    }

    proof fn lemma_round_trip(m: Seq<u8>, rest: Seq<u8>) {
        assert((m + rest).subrange(0, 6) =~= m);
    }

    fn fits(&self, budget: u32) -> (left: Option<u32>) {
        if budget < 6 {
            None
        } else {
            Some(budget - 6)
        }
    }

    fn encode(&self, out: &mut Vec<u8>) {
        encode_array(self, out);
    }

    fn decode(input: &'a [u8]) -> (r: Result<([u8; 6], usize), Error>) {
        decode_array(input)
    }
}

impl<'a> Wire<'a> for [u8; 16] {
    type Model = Seq<u8>;

    open spec fn model(&self) -> Seq<u8> {
        self@
    }

    open spec fn valid(m: Seq<u8>) -> bool {
        m.len() == 16
    }

    open spec fn encoding(m: Seq<u8>) -> Seq<u8> {
        m
    }

    open spec fn parse(input: Seq<u8>) -> Result<(Seq<u8>, int), Fault> {
        parse_fixed(input, 16)
    }

    proof fn lemma_model_valid(&self) {
    }

    proof fn lemma_encoding_nonempty(m: Seq<u8>) {
    }

    proof fn lemma_parse_exact(input: Seq<u8>) {
    }

    proof fn lemma_round_trip(m: Seq<u8>, rest: Seq<u8>) {
        assert((m + rest).subrange(0, 16) =~= m);
    }

    fn fits(&self, budget: u32) -> (left: Option<u32>) {
        if budget < 16 {
            None
        } else {
            Some(budget - 16)
        }
    }

    fn encode(&self, out: &mut Vec<u8>) {
        encode_array(self, out);
    }

    fn decode(input: &'a [u8]) -> (r: Result<([u8; 16], usize), Error>) {
        decode_array(input)
    }
}

/// Two values in a row: the first, then the second from where the first
/// ends.
#[verifier::opaque]
pub open spec fn parse_pair<'a, A: Wire<'a>, B: Wire<'a>>(input: Seq<u8>) -> Result<
    ((A::Model, B::Model), int),
    Fault,
> {
    match A::parse(input) {
        Err(f) => Err(f),
        Ok((a, n)) => match B::parse(input.subrange(n, input.len() as int)) {
            Err(f) => Err(f),
            Ok((b, k)) => Ok(((a, b), n + k)),
        },
    }
}

impl<'a, A: Wire<'a>, B: Wire<'a>> Wire<'a> for (A, B) {
    type Model = (A::Model, B::Model);

    open spec fn model(&self) -> (A::Model, B::Model) {
        (self.0.model(), self.1.model())
    }

    open spec fn valid(m: (A::Model, B::Model)) -> bool {
        A::valid(m.0) && B::valid(m.1)
    }

    open spec fn encoding(m: (A::Model, B::Model)) -> Seq<u8> {
        A::encoding(m.0) + B::encoding(m.1)
    }

    open spec fn parse(input: Seq<u8>) -> Result<((A::Model, B::Model), int), Fault> {
        parse_pair::<A, B>(input)
    }

    proof fn lemma_model_valid(&self) {
        self.0.lemma_model_valid();
        self.1.lemma_model_valid();
    }

    proof fn lemma_encoding_nonempty(m: (A::Model, B::Model)) {
        A::lemma_encoding_nonempty(m.0);
    }

    proof fn lemma_parse_exact(input: Seq<u8>) {
        reveal(parse_pair);
        A::lemma_parse_exact(input);
        if let Ok((a, n)) = A::parse(input) {
            let tail = input.subrange(n, input.len() as int);
            B::lemma_parse_exact(tail);
            if let Ok((b, k)) = B::parse(tail) {
                assert(input.subrange(0, n) + tail.subrange(0, k) =~= input.subrange(0, n + k));
            }
        }
    }

    proof fn lemma_round_trip(m: (A::Model, B::Model), rest: Seq<u8>) {
        reveal(parse_pair);
        let ea = A::encoding(m.0);
        let eb = B::encoding(m.1);
        let input = Self::encoding(m) + rest;
        assert(input =~= ea + (eb + rest));
        A::lemma_round_trip(m.0, eb + rest);
        assert(input.subrange(ea.len() as int, input.len() as int) =~= eb + rest);
        B::lemma_round_trip(m.1, rest);
    }

    fn fits(&self, budget: u32) -> (left: Option<u32>) {
        match self.0.fits(budget) {
            None => None,
            Some(k) => self.1.fits(k),
        }
    }

    fn encode(&self, out: &mut Vec<u8>) {
        self.0.encode(out);
        self.1.encode(out);
        assert(out@ =~= old(out)@ + Self::encoding(self.model()));
    }

    fn decode(input: &'a [u8]) -> (r: Result<((A, B), usize), Error>) {
        proof {
            reveal(parse_pair);
        }
        match A::decode(input) {
            Err(e) => Err(e),
            Ok((a, n)) => {
                proof {
                    A::lemma_parse_exact(input@);
                }
                let tail = slice_subrange(input, n, input.len());
                match B::decode(tail) {
                    Err(e) => Err(e),
                    Ok((b, k)) => {
                        proof {
                            B::lemma_parse_exact(tail@);
                        }
                        Ok(((a, b), n + k))
                    },
                }
            },
        }
    }
}

/// The encodings of `items`, one after the other.
pub open spec fn encode_items<'a, T: Wire<'a>>(items: Seq<T::Model>) -> Seq<u8>
    decreases items.len(),
{
    if items.len() == 0 {
        Seq::empty()
    } else {
        T::encoding(items[0]) + encode_items::<T>(items.drop_first())
    }
}

/// The `count` values at the front of `input` and the number of bytes they
/// occupy together, or the reason why the first one that fails does.
pub open spec fn parse_items<'a, T: Wire<'a>>(input: Seq<u8>, count: nat) -> Result<
    (Seq<T::Model>, int),
    Fault,
>
    decreases count,
{
    if count == 0 {
        Ok((Seq::empty(), 0))
    } else {
        match T::parse(input) {
            Err(f) => Err(f),
            Ok((m, n)) => after::<T::Model>(
                seq![m],
                n,
                parse_items::<T>(input.subrange(n, input.len() as int), (count - 1) as nat),
            ),
        }
    }
}

/// The result `r` of parsing further items, with the items `done` put in
/// front and the `used` bytes that they took counted in.
pub open spec fn after<M>(done: Seq<M>, used: int, r: Result<(Seq<M>, int), Fault>) -> Result<
    (Seq<M>, int),
    Fault,
> {
    match r {
        Err(f) => Err(f),
        Ok((items, n)) => Ok((done + items, used + n)),
    }
}

/// The models of the values in `items`, in order.
pub open spec fn models<'a, T: Wire<'a>>(items: Seq<T>) -> Seq<T::Model> {
    Seq::new(items.len(), |i: int| items[i].model())
}

/// Whether every model in `items` is valid.
pub open spec fn all_valid<'a, T: Wire<'a>>(items: Seq<T::Model>) -> bool {
    forall|i: int| 0 <= i < items.len() ==> T::valid(#[trigger] items[i])
}

/// The encoding of a sequence with one more item is the encoding of the
/// sequence followed by that of the item.
pub proof fn lemma_encode_items_push<'a, T: Wire<'a>>(items: Seq<T::Model>, last: T::Model)
    ensures
        encode_items::<T>(items.push(last)) == encode_items::<T>(items) + T::encoding(last),
    decreases items.len(),
{
    if items.len() == 0 {
        assert(items.push(last).drop_first() =~= items);
        assert(items.push(last)[0] == last);
        assert(encode_items::<T>(items) =~= Seq::<u8>::empty());
        assert(encode_items::<T>(items.push(last)) =~= T::encoding(last));
        assert(encode_items::<T>(items) + T::encoding(last) =~= T::encoding(last));
    } else {
        lemma_encode_items_push::<T>(items.drop_first(), last);
        assert(items.push(last).drop_first() =~= items.drop_first().push(last));
        assert(encode_items::<T>(items.push(last)) =~= encode_items::<T>(items) + T::encoding(
            last,
        ));
    }
}

/// Valid items take at least one byte each.
pub proof fn lemma_encode_items_len<'a, T: Wire<'a>>(items: Seq<T::Model>)
    requires
        all_valid::<T>(items),
    ensures
        encode_items::<T>(items).len() >= items.len(),
        forall|i: int|
            0 <= i < items.len() ==> encode_items::<T>(items).len() >= (#[trigger] T::encoding(
                items[i],
            )).len(),
    decreases items.len(),
{
    if items.len() > 0 {
        let tail = items.drop_first();
        assert(forall|i: int| 0 <= i < tail.len() ==> tail[i] == items[i + 1]);
        lemma_encode_items_len::<T>(tail);
        T::lemma_encoding_nonempty(items[0]);
        assert forall|i: int| 0 <= i < items.len() implies encode_items::<T>(items).len() >= (
        #[trigger] T::encoding(items[i])).len() by {
            if i > 0 {
                assert(items[i] == tail[i - 1]);
            }
        }
    }
}

/// What parses as a run of items is valid, as many as were asked for, and the
/// bytes it was parsed from are its encoding.
pub proof fn lemma_parse_items_exact<'a, T: Wire<'a>>(input: Seq<u8>, count: nat)
    ensures
        parse_items::<T>(input, count) matches Ok((items, n)) ==> {
            &&& items.len() == count
            &&& all_valid::<T>(items)
            &&& 0 <= n <= input.len()
            &&& encode_items::<T>(items) == input.subrange(0, n)
        },
    decreases count,
{
    if count == 0 {
        assert(encode_items::<T>(Seq::empty()) =~= input.subrange(0, 0));
    } else {
        T::lemma_parse_exact(input);
        if let Ok((m, n)) = T::parse(input) {
            let tail = input.subrange(n, input.len() as int);
            lemma_parse_items_exact::<T>(tail, (count - 1) as nat);
            if let Ok((rest, k)) = parse_items::<T>(tail, (count - 1) as nat) {
                let items = seq![m] + rest;
                assert(items.drop_first() =~= rest);
                assert(forall|i: int| 0 < i < items.len() ==> items[i] == rest[i - 1]);
                assert(input.subrange(0, n) + tail.subrange(0, k) =~= input.subrange(0, n + k));
            }
        }
    }
}

/// Parsing the encoding of a run of items gives back the items and stops
/// where the encoding ends, whatever follows it.
pub proof fn lemma_items_round_trip<'a, T: Wire<'a>>(items: Seq<T::Model>, rest: Seq<u8>)
    requires
        all_valid::<T>(items),
        encode_items::<T>(items).len() <= u32::MAX,
    ensures
        parse_items::<T>(encode_items::<T>(items) + rest, items.len()) == Ok::<
            (Seq<T::Model>, int),
            Fault,
        >((items, encode_items::<T>(items).len() as int)),
    decreases items.len(),
{
    if items.len() > 0 {
        let head = T::encoding(items[0]);
        let tail = items.drop_first();
        let input = encode_items::<T>(items) + rest;
        assert(forall|i: int| 0 <= i < tail.len() ==> tail[i] == items[i + 1]);
        assert(input =~= head + (encode_items::<T>(tail) + rest));
        T::lemma_round_trip(items[0], encode_items::<T>(tail) + rest);
        assert(input.subrange(head.len() as int, input.len() as int) =~= encode_items::<T>(tail)
            + rest);
        lemma_items_round_trip::<T>(tail, rest);
        assert(seq![items[0]] + tail =~= items);
    } else {
        assert(items =~= Seq::empty());
    }
}

/// A prefix of a run of valid items encodes to no more bytes than the run.
pub proof fn lemma_encode_items_prefix<'a, T: Wire<'a>>(items: Seq<T::Model>, n: int)
    requires
        0 <= n <= items.len(),
    ensures
        encode_items::<T>(items.take(n)).len() <= encode_items::<T>(items).len(),
    decreases items.len() - n,
{
    if n < items.len() {
        lemma_encode_items_push::<T>(items.take(n), items[n]);
        assert(items.take(n).push(items[n]) =~= items.take(n + 1));
        lemma_encode_items_prefix::<T>(items, n + 1);
    } else {
        assert(items.take(n) =~= items);
    }
}

impl<'a, T: Wire<'a>> Wire<'a> for Vec<T> {
    type Model = Seq<T::Model>;

    open spec fn model(&self) -> Seq<T::Model> {
        models::<T>(self@)
    }

    open spec fn valid(m: Seq<T::Model>) -> bool {
        all_valid::<T>(m)
    }

    open spec fn encoding(m: Seq<T::Model>) -> Seq<u8> {
        be32(m.len() as u32) + encode_items::<T>(m)
    }

    open spec fn parse(input: Seq<u8>) -> Result<(Seq<T::Model>, int), Fault> {
        if input.len() < 4 {
            Err(Fault::Truncated)
        } else {
            after::<T::Model>(
                Seq::empty(),
                4,
                parse_items::<T>(input.subrange(4, input.len() as int), from_be32(input) as nat),
            )
        }
    }

    proof fn lemma_model_valid(&self) {
        assert forall|i: int| 0 <= i < self.model().len() implies T::valid(
            #[trigger] self.model()[i],
        ) by {
            self@[i].lemma_model_valid();
        }
    }

    proof fn lemma_encoding_nonempty(m: Seq<T::Model>) {
    }

    proof fn lemma_parse_exact(input: Seq<u8>) {
        if input.len() >= 4 {
            let tail = input.subrange(4, input.len() as int);
            let count = from_be32(input);
            lemma_parse_items_exact::<T>(tail, count as nat);
            if let Ok((items, n)) = parse_items::<T>(tail, count as nat) {
                lemma_be32_canonical(input);
                assert(Seq::<T::Model>::empty() + items =~= items);
                assert(input.subrange(0, 4) + tail.subrange(0, n) =~= input.subrange(0, 4 + n));
            }
        }
    }

    proof fn lemma_round_trip(m: Seq<T::Model>, rest: Seq<u8>) {
        let body = encode_items::<T>(m);
        let input = Self::encoding(m) + rest;
        lemma_encode_items_len::<T>(m);
        let count = m.len() as u32;
        lemma_be32_round_trip(count, body + rest);
        assert(input =~= be32(count) + (body + rest));
        assert(input.subrange(4, input.len() as int) =~= body + rest);
        lemma_items_round_trip::<T>(m, rest);
        assert(Seq::<T::Model>::empty() + m =~= m);
    }

    fn fits(&self, budget: u32) -> (left: Option<u32>) {
        if budget < 4 {
            return None;
        }
        let mut left: u32 = budget - 4;
        let mut i: usize = 0;
        proof {
            self.lemma_model_valid();
            assert(self.model().take(0) =~= Seq::empty());
        }
        while i < self.len()
            invariant
                i <= self@.len(),
                all_valid::<T>(self.model()),
                4 + encode_items::<T>(self.model().take(i as int)).len() + left == budget,
            decreases self@.len() - i,
        {
            proof {
                lemma_encode_items_push::<T>(self.model().take(i as int), self@[i as int].model());
                assert(self.model().take(i as int).push(self@[i as int].model())
                    =~= self.model().take(i + 1));
            }
            match self[i].fits(left) {
                None => {
                    proof {
                        lemma_encode_items_prefix::<T>(self.model(), i + 1);
                    }
                    return None;
                },
                Some(k) => {
                    left = k;
                },
            }
            i += 1;
        }
        assert(self.model().take(i as int) =~= self.model());
        Some(left)
    }

    fn encode(&self, out: &mut Vec<u8>) {
        proof {
            self.lemma_model_valid();
            lemma_encode_items_len::<T>(self.model());
            assert(self.model().take(0) =~= Seq::empty());
            assert(Self::encoding(self.model()).len() == 4 + encode_items::<T>(
                self.model(),
            ).len());
            assert(encode_items::<T>(self.model().take(0)) =~= Seq::<u8>::empty());
        }
        put_u32(out, self.len() as u32);
        assert(out@ =~= old(out)@ + be32(self@.len() as u32) + encode_items::<T>(
            self.model().take(0),
        ));
        let mut i: usize = 0;
        while i < self.len()
            invariant
                i <= self@.len(),
                all_valid::<T>(self.model()),
                encode_items::<T>(self.model()).len() <= u32::MAX,
                self@.len() <= u32::MAX,
                out@ == old(out)@ + be32(self@.len() as u32) + encode_items::<T>(
                    self.model().take(i as int),
                ),
            decreases self@.len() - i,
        {
            proof {
                lemma_encode_items_push::<T>(self.model().take(i as int), self@[i as int].model());
                assert(self.model().take(i as int).push(self@[i as int].model())
                    =~= self.model().take(i + 1));
                assert(self.model()[i as int] == self@[i as int].model());
                lemma_encode_items_len::<T>(self.model());
                assert(T::encoding(self.model()[i as int]).len() <= u32::MAX);
            }
            self[i].encode(out);
            assert(out@ =~= old(out)@ + be32(self@.len() as u32) + encode_items::<T>(
                self.model().take(i + 1),
            ));
            i += 1;
        }
        assert(self.model().take(i as int) =~= self.model());
        assert(out@ =~= old(out)@ + Self::encoding(self.model()));
    }

    fn decode(input: &'a [u8]) -> (r: Result<(Vec<T>, usize), Error>) {
        if input.len() < 4 {
            return Err(truncated());
        }
        assert(input@.subrange(0, input@.len() as int) =~= input@);
        let count = get_u32(input, 0);
        let ghost body = input@.subrange(4, input@.len() as int);
        let mut items: Vec<T> = Vec::new();
        let mut pos: usize = 4;
        let mut i: u32 = 0;
        assert(Seq::<T::Model>::empty() + Seq::<T::Model>::empty() =~= Seq::<T::Model>::empty());
        assert(models::<T>(items@) =~= Seq::empty());
        while i < count
            invariant
                i <= count,
                4 <= pos <= input@.len(),
                body == input@.subrange(4, input@.len() as int),
                count == from_be32(input@),
                parse_items::<T>(body, count as nat) == after::<T::Model>(
                    models::<T>(items@),
                    pos - 4,
                    parse_items::<T>(
                        input@.subrange(pos as int, input@.len() as int),
                        (count - i) as nat,
                    ),
                ),
            decreases count - i,
        {
            let tail = slice_subrange(input, pos, input.len());
            match T::decode(tail) {
                Err(e) => {
                    return Err(e);
                },
                Ok((v, n)) => {
                    proof {
                        T::lemma_parse_exact(tail@);
                        let further = parse_items::<T>(
                            tail@.subrange(n as int, tail@.len() as int),
                            (count - i - 1) as nat,
                        );
                        assert(tail@.subrange(n as int, tail@.len() as int) =~= input@.subrange(
                            pos + n,
                            input@.len() as int,
                        ));
                        assert(models::<T>(items@.push(v)) =~= models::<T>(items@).push(v.model()));
                        if let Ok((more, k)) = further {
                            assert(models::<T>(items@) + (seq![v.model()] + more) =~= models::<T>(
                                items@,
                            ).push(v.model()) + more);
                        }
                    }
                    items.push(v);
                    pos += n;
                    i += 1;
                },
            }
        }
        assert(models::<T>(items@) + Seq::<T::Model>::empty() =~= models::<T>(items@));
        Ok((items, pos))
    }
}

} // verus!
