//! Wire codec for packets and acknowledgements.
//!
//! The envelope is a self-describing tagged encoding: a one-byte variant
//! tag followed by the variant's fields. Integers travel little-endian with
//! a fixed width, byte strings and text are length-prefixed, text is UTF-8,
//! and sequences are count-prefixed. Decoding is exact: it accepts a byte
//! string iff it is the encoding of a value, and decode ∘ encode is proved
//! to be the identity.

use vstd::prelude::*;
use vstd::bytes::{
    spec_u64_to_le_bytes, spec_u64_from_le_bytes, lemma_auto_spec_u64_to_from_le_bytes,
    u64_to_le_bytes, u64_from_le_bytes, spec_u128_to_le_bytes, spec_u128_from_le_bytes,
    lemma_auto_spec_u128_to_from_le_bytes, u128_to_le_bytes, u128_from_le_bytes,
};
use vstd::utf8::{valid_utf8, decode_utf8, encode_utf8, encode_utf8_valid_utf8,
    encode_utf8_decode_utf8};
use vstd::slice::{slice_subrange, slice_to_vec};
use crate::ibc_msg::{Coin, CoinView, StdAck, StdAckView, BalancesResponse, BalancesResponseView, WhoAmIResponse, WhoAmIResponseView};
use crate::client_ibc_msg::{PacketMsg, PacketMsgView, opt_string_view};

verus! {

/// The bytes handed in do not decode as any known value.
#[derive(Clone, Copy, PartialEq, Eq, Structural, Debug)]
pub struct DecodeError {}

// ---------------------------------------------------------------------
// Primitive encoders (specification level)
// ---------------------------------------------------------------------
/// A length-prefixed byte string: 8-byte little-endian length, then the bytes.
pub open spec fn spec_enc_bytes(b: Seq<u8>) -> Seq<u8> {
    spec_u64_to_le_bytes(b.len() as u64) + b
}

/// A length-prefixed UTF-8 encoding of a character sequence.
pub open spec fn spec_enc_string(s: Seq<char>) -> Seq<u8> {
    spec_enc_bytes(encode_utf8(s))
}

/// An optional string: a presence byte, then the string when present.
pub open spec fn spec_enc_opt_string(s: Option<Seq<char>>) -> Seq<u8> {
    match s {
        Option::None => seq![0u8],
        Option::Some(s) => seq![1u8] + spec_enc_string(s),
    }
}

// ---------------------------------------------------------------------
// Primitive parsers (specification level)
//
// A parser maps a byte sequence to the value read from its front and the
// unread suffix, or to `None` when the front is not an encoding.
// ---------------------------------------------------------------------
pub open spec fn spec_parse_u64(b: Seq<u8>) -> Option<(u64, Seq<u8>)> {
    if b.len() >= 8 {
        Option::Some((spec_u64_from_le_bytes(b.take(8)), b.skip(8)))
    } else {
        Option::None
    }
}

pub open spec fn spec_parse_u128(b: Seq<u8>) -> Option<(u128, Seq<u8>)> {
    if b.len() >= 16 {
        Option::Some((spec_u128_from_le_bytes(b.take(16)), b.skip(16)))
    } else {
        Option::None
    }
}

pub open spec fn spec_parse_tag(b: Seq<u8>) -> Option<(u8, Seq<u8>)> {
    if b.len() >= 1 {
        Option::Some((b[0], b.skip(1)))
    } else {
        Option::None
    }
}

pub open spec fn spec_parse_bytes(b: Seq<u8>) -> Option<(Seq<u8>, Seq<u8>)> {
    match spec_parse_u64(b) {
        Option::None => Option::None,
        Option::Some((n, r)) => if r.len() >= n {
            Option::Some((r.take(n as int), r.skip(n as int)))
        } else {
            Option::None
        },
    }
}

pub open spec fn spec_parse_string(b: Seq<u8>) -> Option<(Seq<char>, Seq<u8>)> {
    match spec_parse_bytes(b) {
        Option::None => Option::None,
        Option::Some((bs, r)) => if valid_utf8(bs) {
            Option::Some((decode_utf8(bs), r))
        } else {
            Option::None
        },
    }
}

pub open spec fn spec_parse_opt_string(b: Seq<u8>) -> Option<(Option<Seq<char>>, Seq<u8>)> {
    match spec_parse_tag(b) {
        Option::None => Option::None,
        Option::Some((t, r)) => if t == 0 {
            Option::Some((Option::None, r))
        } else if t == 1 {
            match spec_parse_string(r) {
                Option::None => Option::None,
                Option::Some((s, r2)) => Option::Some((Option::Some(s), r2)),
            }
        } else {
            Option::None
        },
    }
}

// ---------------------------------------------------------------------
// Size bounds
//
// The length prefix is 64 bits wide, so a value is encodable only when
// every byte string in it fits that prefix. Values built from in-memory
// vectors always do.
// ---------------------------------------------------------------------
/// The UTF-8 form of the text fits a 64-bit length prefix.
pub open spec fn spec_string_fits(s: Seq<char>) -> bool {
    encode_utf8(s).len() <= u64::MAX
}

pub open spec fn spec_opt_string_fits(s: Option<Seq<char>>) -> bool {
    match s {
        Option::None => true,
        Option::Some(s) => spec_string_fits(s),
    }
}

// ---------------------------------------------------------------------
// Primitive round trips
// ---------------------------------------------------------------------
proof fn lemma_parse_u64(x: u64, rest: Seq<u8>)
    ensures
        spec_parse_u64(spec_u64_to_le_bytes(x) + rest) == Some((x, rest)),
{
    lemma_auto_spec_u64_to_from_le_bytes();
    let b = spec_u64_to_le_bytes(x) + rest;
    assert(b.take(8) =~= spec_u64_to_le_bytes(x));
    assert(b.skip(8) =~= rest);
}

proof fn lemma_parse_u128(x: u128, rest: Seq<u8>)
    ensures
        spec_parse_u128(spec_u128_to_le_bytes(x) + rest) == Some((x, rest)),
{
    lemma_auto_spec_u128_to_from_le_bytes();
    let b = spec_u128_to_le_bytes(x) + rest;
    assert(b.take(16) =~= spec_u128_to_le_bytes(x));
    assert(b.skip(16) =~= rest);
}

proof fn lemma_parse_tag(t: u8, rest: Seq<u8>)
    ensures
        spec_parse_tag(seq![t] + rest) == Some((t, rest)),
{
    let b = seq![t] + rest;
    assert(b[0] == t);
    assert(b.skip(1) =~= rest);
}

proof fn lemma_parse_bytes(data: Seq<u8>, rest: Seq<u8>)
    requires
        data.len() <= u64::MAX,
    ensures
        spec_parse_bytes(spec_enc_bytes(data) + rest) == Some((data, rest)),
{
    let b = spec_enc_bytes(data) + rest;
    assert(b =~= spec_u64_to_le_bytes(data.len() as u64) + (data + rest));
    lemma_parse_u64(data.len() as u64, data + rest);
    let r = (data + rest);
    assert(r.take(data.len() as int) =~= data);
    assert(r.skip(data.len() as int) =~= rest);
}

proof fn lemma_parse_string(s: Seq<char>, rest: Seq<u8>)
    requires
        spec_string_fits(s),
    ensures
        spec_parse_string(spec_enc_string(s) + rest) == Some((s, rest)),
{
    lemma_parse_bytes(encode_utf8(s), rest);
    encode_utf8_valid_utf8(s);
    encode_utf8_decode_utf8(s);
}

proof fn lemma_parse_opt_string(s: Option<Seq<char>>, rest: Seq<u8>)
    requires
        spec_opt_string_fits(s),
    ensures
        spec_parse_opt_string(spec_enc_opt_string(s) + rest) == Some((s, rest)),
{
    match s {
        Option::None => {
            lemma_parse_tag(0u8, rest);
        },
        Option::Some(s0) => {
            let b = spec_enc_opt_string(s) + rest;
            assert(b =~= seq![1u8] + (spec_enc_string(s0) + rest));
            lemma_parse_tag(1u8, spec_enc_string(s0) + rest);
            lemma_parse_string(s0, rest);
        },
    }
}

// ---------------------------------------------------------------------
// Primitive encoders and decoders (executable)
//
// Encoders append to an output buffer; decoders read at a cursor into the
// input and return the value with the new cursor position.
// ---------------------------------------------------------------------
fn write_u64(out: &mut Vec<u8>, x: u64)
    ensures
        final(out)@ == old(out)@ + spec_u64_to_le_bytes(x),
{
    let mut tmp = u64_to_le_bytes(x);
    out.append(&mut tmp);
}

fn write_u128(out: &mut Vec<u8>, x: u128)
    ensures
        final(out)@ == old(out)@ + spec_u128_to_le_bytes(x),
{
    let mut tmp = u128_to_le_bytes(x);
    out.append(&mut tmp);
}

fn write_bytes(out: &mut Vec<u8>, b: &[u8])
    ensures
        final(out)@ == old(out)@ + spec_enc_bytes(b@),
{
    write_u64(out, b.len() as u64);
    let mut tmp = slice_to_vec(b);
    out.append(&mut tmp);
    assert(out@ =~= old(out)@ + spec_enc_bytes(b@));
}

fn write_string(out: &mut Vec<u8>, s: &str)
    ensures
        final(out)@ == old(out)@ + spec_enc_string(s@),
{
    write_bytes(out, s.as_bytes());
}

fn write_opt_string(out: &mut Vec<u8>, s: &Option<String>)
    ensures
        final(out)@ == old(out)@ + spec_enc_opt_string(crate::client_ibc_msg::opt_string_view(*s)),
{
    match s {
        Option::None => {
            out.push(0u8);
            assert(out@ =~= old(out)@ + seq![0u8]);
        },
        Option::Some(s0) => {
            out.push(1u8);
            write_string(out, s0.as_str());
            assert(out@ =~= old(out)@ + (seq![1u8] + spec_enc_string(s0@)));
        },
    }
}

/// Relies on `String::from_utf8` from std: it returns `Ok` exactly when the
/// bytes are valid UTF-8, and then the returned string's bytes are the input.
#[verifier::external_body]
fn string_from_utf8(v: Vec<u8>) -> (r: Option<String>)
    ensures
        r is Some <==> valid_utf8(v@),
        r matches Some(s) ==> encode_utf8(s@) == v@,
{
    match String::from_utf8(v) {
        Ok(s) => Some(s),
        Err(_) => None,
    }
}

fn read_u64(b: &[u8], i: usize) -> (r: Result<(u64, usize), DecodeError>)
    requires
        i <= b@.len(),
    ensures
        r is Ok <==> spec_parse_u64(b@.skip(i as int)) is Some,
        r matches Ok((x, j)) ==> (i <= j <= b@.len() && spec_parse_u64(b@.skip(i as int)) == Some(
            (x, b@.skip(j as int)),
        )),
{
    if b.len() - i >= 8 {
        let x = u64_from_le_bytes(slice_subrange(b, i, i + 8));
        proof {
            assert(b@.subrange(i as int, i + 8) =~= b@.skip(i as int).take(8));
            assert(b@.skip(i as int).skip(8) =~= b@.skip(i + 8));
        }
        Ok((x, i + 8))
    } else {
        Err(DecodeError {})
    }
}

fn read_u128(b: &[u8], i: usize) -> (r: Result<(u128, usize), DecodeError>)
    requires
        i <= b@.len(),
    ensures
        r is Ok <==> spec_parse_u128(b@.skip(i as int)) is Some,
        r matches Ok((x, j)) ==> (i <= j <= b@.len() && spec_parse_u128(b@.skip(i as int))
            == Some((x, b@.skip(j as int)))),
{
    if b.len() - i >= 16 {
        let x = u128_from_le_bytes(slice_subrange(b, i, i + 16));
        proof {
            assert(b@.subrange(i as int, i + 16) =~= b@.skip(i as int).take(16));
            assert(b@.skip(i as int).skip(16) =~= b@.skip(i + 16));
        }
        Ok((x, i + 16))
    } else {
        Err(DecodeError {})
    }
}

fn read_tag(b: &[u8], i: usize) -> (r: Result<(u8, usize), DecodeError>)
    requires
        i <= b@.len(),
    ensures
        r is Ok <==> spec_parse_tag(b@.skip(i as int)) is Some,
        r matches Ok((t, j)) ==> (i <= j <= b@.len() && spec_parse_tag(b@.skip(i as int)) == Some(
            (t, b@.skip(j as int)),
        )),
{
    if b.len() - i >= 1 {
        let t = *vstd::slice::slice_index_get(b, i);
        proof {
            assert(b@.skip(i as int)[0] == b@[i as int]);
            assert(b@.skip(i as int).skip(1) =~= b@.skip(i + 1));
        }
        Ok((t, i + 1))
    } else {
        Err(DecodeError {})
    }
}

fn read_bytes(b: &[u8], i: usize) -> (r: Result<(Vec<u8>, usize), DecodeError>)
    requires
        i <= b@.len(),
    ensures
        r is Ok <==> spec_parse_bytes(b@.skip(i as int)) is Some,
        r matches Ok((v, j)) ==> (i <= j <= b@.len() && spec_parse_bytes(b@.skip(i as int))
            == Some((v@, b@.skip(j as int)))),
{
    let (n, j) = read_u64(b, i)?;
    if n <= (b.len() - j) as u64 {
        let m = n as usize;
        let v = slice_to_vec(slice_subrange(b, j, j + m));
        proof {
            assert(b@.subrange(j as int, j + m) =~= b@.skip(j as int).take(n as int));
            assert(b@.skip(j as int).skip(n as int) =~= b@.skip(j + m));
        }
        Ok((v, j + m))
    } else {
        assert(b@.skip(j as int).len() < n);
        Err(DecodeError {})
    }
}

fn read_string(b: &[u8], i: usize) -> (r: Result<(String, usize), DecodeError>)
    requires
        i <= b@.len(),
    ensures
        r is Ok <==> spec_parse_string(b@.skip(i as int)) is Some,
        r matches Ok((s, j)) ==> (i <= j <= b@.len() && spec_parse_string(b@.skip(i as int))
            == Some((s@, b@.skip(j as int)))),
{
    let (v, j) = read_bytes(b, i)?;
    match string_from_utf8(v) {
        Option::Some(s) => {
            proof {
                encode_utf8_decode_utf8(s@);
            }
            Ok((s, j))
        },
        Option::None => Err(DecodeError {}),
    }
}

fn read_opt_string(b: &[u8], i: usize) -> (r: Result<(Option<String>, usize), DecodeError>)
    requires
        i <= b@.len(),
    ensures
        r is Ok <==> spec_parse_opt_string(b@.skip(i as int)) is Some,
        r matches Ok((s, j)) ==> (i <= j <= b@.len() && spec_parse_opt_string(b@.skip(i as int))
            == Some((crate::client_ibc_msg::opt_string_view(s), b@.skip(j as int)))),
{
    let (t, j) = read_tag(b, i)?;
    if t == 0 {
        Ok((Option::None, j))
    } else if t == 1 {
        let (s, j2) = read_string(b, j)?;
        Ok((Option::Some(s), j2))
    } else {
        Err(DecodeError {})
    }
}

// ---------------------------------------------------------------------
// Coins and sequences (specification level)
// ---------------------------------------------------------------------
/// A coin: its denomination, then its amount as a 128-bit little-endian value.
pub open spec fn spec_enc_coin(c: CoinView) -> Seq<u8> {
    spec_enc_string(c.denom) + spec_u128_to_le_bytes(c.amount)
}

pub open spec fn spec_parse_coin(b: Seq<u8>) -> Option<(CoinView, Seq<u8>)> {
    match spec_parse_string(b) {
        Option::None => Option::None,
        Option::Some((d, r)) => match spec_parse_u128(r) {
            Option::None => Option::None,
            Option::Some((a, r2)) => Option::Some((CoinView { denom: d, amount: a }, r2)),
        },
    }
}

/// The items of a byte-string sequence, one length-prefixed item after another.
pub open spec fn spec_enc_bytes_items(l: Seq<Seq<u8>>) -> Seq<u8>
    decreases l.len(),
{
    if l.len() == 0 {
        Seq::empty()
    } else {
        spec_enc_bytes(l[0]) + spec_enc_bytes_items(l.drop_first())
    }
}

/// A byte-string sequence: an 8-byte count, then the items.
pub open spec fn spec_enc_bytes_list(l: Seq<Seq<u8>>) -> Seq<u8> {
    spec_u64_to_le_bytes(l.len() as u64) + spec_enc_bytes_items(l)
}

pub open spec fn spec_parse_bytes_items(b: Seq<u8>, n: nat) -> Option<(Seq<Seq<u8>>, Seq<u8>)>
    decreases n,
{
    if n == 0 {
        Option::Some((Seq::empty(), b))
    } else {
        match spec_parse_bytes(b) {
            Option::None => Option::None,
            Option::Some((x, r)) => match spec_parse_bytes_items(r, (n - 1) as nat) {
                Option::None => Option::None,
                Option::Some((xs, r2)) => Option::Some((seq![x] + xs, r2)),
            },
        }
    }
}

pub open spec fn spec_parse_bytes_list(b: Seq<u8>) -> Option<(Seq<Seq<u8>>, Seq<u8>)> {
    match spec_parse_u64(b) {
        Option::None => Option::None,
        Option::Some((n, r)) => spec_parse_bytes_items(r, n as nat),
    }
}

/// The items of a coin sequence.
pub open spec fn spec_enc_coin_items(l: Seq<CoinView>) -> Seq<u8>
    decreases l.len(),
{
    if l.len() == 0 {
        Seq::empty()
    } else {
        spec_enc_coin(l[0]) + spec_enc_coin_items(l.drop_first())
    }
}

/// A coin sequence: an 8-byte count, then the coins.
pub open spec fn spec_enc_coin_list(l: Seq<CoinView>) -> Seq<u8> {
    spec_u64_to_le_bytes(l.len() as u64) + spec_enc_coin_items(l)
}

pub open spec fn spec_parse_coin_items(b: Seq<u8>, n: nat) -> Option<(Seq<CoinView>, Seq<u8>)>
    decreases n,
{
    if n == 0 {
        Option::Some((Seq::empty(), b))
    } else {
        match spec_parse_coin(b) {
            Option::None => Option::None,
            Option::Some((x, r)) => match spec_parse_coin_items(r, (n - 1) as nat) {
                Option::None => Option::None,
                Option::Some((xs, r2)) => Option::Some((seq![x] + xs, r2)),
            },
        }
    }
}

pub open spec fn spec_parse_coin_list(b: Seq<u8>) -> Option<(Seq<CoinView>, Seq<u8>)> {
    match spec_parse_u64(b) {
        Option::None => Option::None,
        Option::Some((n, r)) => spec_parse_coin_items(r, n as nat),
    }
}

// ---------------------------------------------------------------------
// Size bounds for sequences
// ---------------------------------------------------------------------
pub open spec fn spec_bytes_list_fits(l: Seq<Seq<u8>>) -> bool {
    &&& l.len() <= u64::MAX
    &&& forall|k: int| 0 <= k < l.len() ==> #[trigger] l[k].len() <= u64::MAX
}

pub open spec fn spec_coin_fits(c: CoinView) -> bool {
    spec_string_fits(c.denom)
}

pub open spec fn spec_coin_list_fits(l: Seq<CoinView>) -> bool {
    &&& l.len() <= u64::MAX
    &&& forall|k: int| 0 <= k < l.len() ==> spec_coin_fits(#[trigger] l[k])
}

// ---------------------------------------------------------------------
// Round trips for coins and sequences
// ---------------------------------------------------------------------
proof fn lemma_parse_coin(c: CoinView, rest: Seq<u8>)
    requires
        spec_coin_fits(c),
    ensures
        spec_parse_coin(spec_enc_coin(c) + rest) == Some((c, rest)),
{
    let b = spec_enc_coin(c) + rest;
    assert(b =~= spec_enc_string(c.denom) + (spec_u128_to_le_bytes(c.amount) + rest));
    lemma_parse_string(c.denom, spec_u128_to_le_bytes(c.amount) + rest);
    lemma_parse_u128(c.amount, rest);
}

/// Appending items encodes as the concatenation of the two encodings.
proof fn lemma_enc_bytes_items_add(a: Seq<Seq<u8>>, b: Seq<Seq<u8>>)
    ensures
        spec_enc_bytes_items(a + b) == spec_enc_bytes_items(a) + spec_enc_bytes_items(b),
    decreases a.len(),
{
    if a.len() == 0 {
        assert(a + b =~= b);
        assert(spec_enc_bytes_items(a) + spec_enc_bytes_items(b) =~= spec_enc_bytes_items(b));
    } else {
        assert((a + b).drop_first() =~= a.drop_first() + b);
        lemma_enc_bytes_items_add(a.drop_first(), b);
        assert(spec_enc_bytes_items(a + b) =~= spec_enc_bytes_items(a) + spec_enc_bytes_items(b));
    }
}

proof fn lemma_enc_coin_items_add(a: Seq<CoinView>, b: Seq<CoinView>)
    ensures
        spec_enc_coin_items(a + b) == spec_enc_coin_items(a) + spec_enc_coin_items(b),
    decreases a.len(),
{
    if a.len() == 0 {
        assert(a + b =~= b);
        assert(spec_enc_coin_items(a) + spec_enc_coin_items(b) =~= spec_enc_coin_items(b));
    } else {
        assert((a + b).drop_first() =~= a.drop_first() + b);
        lemma_enc_coin_items_add(a.drop_first(), b);
        assert(spec_enc_coin_items(a + b) =~= spec_enc_coin_items(a) + spec_enc_coin_items(b));
    }
}

proof fn lemma_parse_bytes_items(l: Seq<Seq<u8>>, rest: Seq<u8>)
    requires
        forall|k: int| 0 <= k < l.len() ==> #[trigger] l[k].len() <= u64::MAX,
    ensures
        spec_parse_bytes_items(spec_enc_bytes_items(l) + rest, l.len()) == Some((l, rest)),
    decreases l.len(),
{
    if l.len() == 0 {
        assert(spec_enc_bytes_items(l) + rest =~= rest);
        let p = spec_parse_bytes_items(rest, 0);
        assert(p == Some((Seq::<Seq<u8>>::empty(), rest)));
        assert(l =~~= Seq::<Seq<u8>>::empty());
    } else {
        let b = spec_enc_bytes_items(l) + rest;
        assert(b =~= spec_enc_bytes(l[0]) + (spec_enc_bytes_items(l.drop_first()) + rest));
        lemma_parse_bytes(l[0], spec_enc_bytes_items(l.drop_first()) + rest);
        lemma_parse_bytes_items(l.drop_first(), rest);
        assert(seq![l[0]] + l.drop_first() =~~= l);
    }
}

proof fn lemma_parse_coin_items(l: Seq<CoinView>, rest: Seq<u8>)
    requires
        forall|k: int| 0 <= k < l.len() ==> spec_coin_fits(#[trigger] l[k]),
    ensures
        spec_parse_coin_items(spec_enc_coin_items(l) + rest, l.len()) == Some((l, rest)),
    decreases l.len(),
{
    if l.len() == 0 {
        assert(spec_enc_coin_items(l) + rest =~= rest);
        assert(l =~= Seq::<CoinView>::empty());
    } else {
        let b = spec_enc_coin_items(l) + rest;
        assert(b =~= spec_enc_coin(l[0]) + (spec_enc_coin_items(l.drop_first()) + rest));
        lemma_parse_coin(l[0], spec_enc_coin_items(l.drop_first()) + rest);
        lemma_parse_coin_items(l.drop_first(), rest);
        assert(seq![l[0]] + l.drop_first() =~= l);
    }
}

proof fn lemma_parse_bytes_list(l: Seq<Seq<u8>>, rest: Seq<u8>)
    requires
        spec_bytes_list_fits(l),
    ensures
        spec_parse_bytes_list(spec_enc_bytes_list(l) + rest) == Some((l, rest)),
{
    let b = spec_enc_bytes_list(l) + rest;
    assert(b =~= spec_u64_to_le_bytes(l.len() as u64) + (spec_enc_bytes_items(l) + rest));
    lemma_parse_u64(l.len() as u64, spec_enc_bytes_items(l) + rest);
    lemma_parse_bytes_items(l, rest);
}

proof fn lemma_parse_coin_list(l: Seq<CoinView>, rest: Seq<u8>)
    requires
        spec_coin_list_fits(l),
    ensures
        spec_parse_coin_list(spec_enc_coin_list(l) + rest) == Some((l, rest)),
{
    let b = spec_enc_coin_list(l) + rest;
    assert(b =~= spec_u64_to_le_bytes(l.len() as u64) + (spec_enc_coin_items(l) + rest));
    lemma_parse_u64(l.len() as u64, spec_enc_coin_items(l) + rest);
    lemma_parse_coin_items(l, rest);
}

// ---------------------------------------------------------------------
// Coins and sequences (executable)
// ---------------------------------------------------------------------
fn write_coin(out: &mut Vec<u8>, c: &Coin)
    ensures
        final(out)@ == old(out)@ + spec_enc_coin(c@),
{
    write_string(out, c.denom.as_str());
    write_u128(out, c.amount);
    assert(out@ =~= old(out)@ + spec_enc_coin(c@));
}

fn write_bytes_list(out: &mut Vec<u8>, l: &Vec<Vec<u8>>)
    ensures
        final(out)@ == old(out)@ + spec_enc_bytes_list(l@.map_values(|m: Vec<u8>| m@)),
{
    let ghost lv = l@.map_values(|m: Vec<u8>| m@);
    write_u64(out, l.len() as u64);
    let ghost base = out@;
    let mut k: usize = 0;
    while k < l.len()
        invariant
            k <= l.len(),
            lv == l@.map_values(|m: Vec<u8>| m@),
            lv.len() == l@.len(),
            out@ == base + spec_enc_bytes_items(lv.take(k as int)),
        decreases l.len() - k,
    {
        write_bytes(out, l[k].as_slice());
        proof {
            assert(lv.take(k + 1) =~= lv.take(k as int) + seq![lv[k as int]]);
            lemma_enc_bytes_items_add(lv.take(k as int), seq![lv[k as int]]);
            assert(seq![lv[k as int]].drop_first() =~~= Seq::<Seq<u8>>::empty());
            assert(spec_enc_bytes_items(Seq::<Seq<u8>>::empty()) =~= Seq::<u8>::empty());
            assert(spec_enc_bytes_items(seq![lv[k as int]]) =~= spec_enc_bytes(lv[k as int]));
            assert(out@ =~= base + spec_enc_bytes_items(lv.take(k + 1)));
        }
        k = k + 1;
    }
    proof {
        assert(lv.take(l@.len() as int) =~= lv);
        assert(out@ =~= old(out)@ + spec_enc_bytes_list(lv));
    }
}

fn write_coin_list(out: &mut Vec<u8>, l: &Vec<Coin>)
    ensures
        final(out)@ == old(out)@ + spec_enc_coin_list(l@.map_values(|c: Coin| c@)),
{
    let ghost lv = l@.map_values(|c: Coin| c@);
    write_u64(out, l.len() as u64);
    let ghost base = out@;
    let mut k: usize = 0;
    while k < l.len()
        invariant
            k <= l.len(),
            lv == l@.map_values(|c: Coin| c@),
            lv.len() == l@.len(),
            out@ == base + spec_enc_coin_items(lv.take(k as int)),
        decreases l.len() - k,
    {
        write_coin(out, &l[k]);
        proof {
            assert(lv.take(k + 1) =~= lv.take(k as int) + seq![lv[k as int]]);
            lemma_enc_coin_items_add(lv.take(k as int), seq![lv[k as int]]);
            assert(seq![lv[k as int]].drop_first() =~= Seq::<CoinView>::empty());
            assert(spec_enc_coin_items(Seq::<CoinView>::empty()) =~= Seq::<u8>::empty());
            assert(spec_enc_coin_items(seq![lv[k as int]]) =~= spec_enc_coin(lv[k as int]));
            assert(out@ =~= base + spec_enc_coin_items(lv.take(k + 1)));
        }
        k = k + 1;
    }
    proof {
        assert(lv.take(l@.len() as int) =~= lv);
        assert(out@ =~= old(out)@ + spec_enc_coin_list(lv));
    }
}

fn read_coin(b: &[u8], i: usize) -> (r: Result<(Coin, usize), DecodeError>)
    requires
        i <= b@.len(),
    ensures
        r is Ok <==> spec_parse_coin(b@.skip(i as int)) is Some,
        r matches Ok((c, j)) ==> (i <= j <= b@.len() && spec_parse_coin(b@.skip(i as int)) == Some(
            (c@, b@.skip(j as int)),
        )),
{
    let (denom, j) = read_string(b, i)?;
    let (amount, j2) = read_u128(b, j)?;
    Ok((Coin { denom, amount }, j2))
}

fn read_bytes_items(b: &[u8], i: usize, n: u64) -> (r: Result<(Vec<Vec<u8>>, usize), DecodeError>)
    requires
        i <= b@.len(),
    ensures
        r is Ok <==> spec_parse_bytes_items(b@.skip(i as int), n as nat) is Some,
        r matches Ok((v, j)) ==> (i <= j <= b@.len() && spec_parse_bytes_items(
            b@.skip(i as int),
            n as nat,
        ) == Some((v@.map_values(|m: Vec<u8>| m@), b@.skip(j as int)))),
    decreases n,
{
    if n == 0 {
        let v: Vec<Vec<u8>> = Vec::new();
        proof {
            assert(v@.map_values(|m: Vec<u8>| m@) =~= Seq::<Seq<u8>>::empty());
        }
        Ok((v, i))
    } else {
        let (x, j) = read_bytes(b, i)?;
        let (mut xs, j2) = read_bytes_items(b, j, n - 1)?;
        let ghost tail = xs@.map_values(|m: Vec<u8>| m@);
        xs.insert(0, x);
        proof {
            assert(xs@.map_values(|m: Vec<u8>| m@) =~~= seq![x@] + tail);
        }
        Ok((xs, j2))
    }
}

fn read_coin_items(b: &[u8], i: usize, n: u64) -> (r: Result<(Vec<Coin>, usize), DecodeError>)
    requires
        i <= b@.len(),
    ensures
        r is Ok <==> spec_parse_coin_items(b@.skip(i as int), n as nat) is Some,
        r matches Ok((v, j)) ==> (i <= j <= b@.len() && spec_parse_coin_items(
            b@.skip(i as int),
            n as nat,
        ) == Some((v@.map_values(|c: Coin| c@), b@.skip(j as int)))),
    decreases n,
{
    if n == 0 {
        let v: Vec<Coin> = Vec::new();
        proof {
            assert(v@.map_values(|c: Coin| c@) =~= Seq::<CoinView>::empty());
        }
        Ok((v, i))
    } else {
        let (x, j) = read_coin(b, i)?;
        let (mut xs, j2) = read_coin_items(b, j, n - 1)?;
        let ghost tail = xs@.map_values(|c: Coin| c@);
        xs.insert(0, x);
        proof {
            assert(xs@.map_values(|c: Coin| c@) =~= seq![x@] + tail);
        }
        Ok((xs, j2))
    }
}

fn read_bytes_list(b: &[u8], i: usize) -> (r: Result<(Vec<Vec<u8>>, usize), DecodeError>)
    requires
        i <= b@.len(),
    ensures
        r is Ok <==> spec_parse_bytes_list(b@.skip(i as int)) is Some,
        r matches Ok((v, j)) ==> (i <= j <= b@.len() && spec_parse_bytes_list(b@.skip(i as int))
            == Some((v@.map_values(|m: Vec<u8>| m@), b@.skip(j as int)))),
{
    let (n, j) = read_u64(b, i)?;
    let (v, j2) = read_bytes_items(b, j, n)?;
    Ok((v, j2))
}

fn read_coin_list(b: &[u8], i: usize) -> (r: Result<(Vec<Coin>, usize), DecodeError>)
    requires
        i <= b@.len(),
    ensures
        r is Ok <==> spec_parse_coin_list(b@.skip(i as int)) is Some,
        r matches Ok((v, j)) ==> (i <= j <= b@.len() && spec_parse_coin_list(b@.skip(i as int))
            == Some((v@.map_values(|c: Coin| c@), b@.skip(j as int)))),
{
    let (n, j) = read_u64(b, i)?;
    let (v, j2) = read_coin_items(b, j, n)?;
    Ok((v, j2))
}


// ---------------------------------------------------------------------
// Packets
//
// A packet is a one-byte variant tag followed by the variant's fields.
// ---------------------------------------------------------------------
pub open spec fn spec_enc_packet(p: PacketMsgView) -> Seq<u8> {
    match p {
        PacketMsgView::Dispatch { sender, msgs, callback_id } => seq![0u8] + spec_enc_string(
            sender,
        ) + spec_enc_bytes_list(msgs) + spec_enc_opt_string(callback_id),
        PacketMsgView::IbcQuery { sender, msgs, callback_id } => seq![1u8] + spec_enc_string(
            sender,
        ) + spec_enc_bytes_list(msgs) + spec_enc_opt_string(callback_id),
        PacketMsgView::WhoAmI => seq![2u8],
        PacketMsgView::Balances => seq![3u8],
    }
}

pub open spec fn spec_parse_packet(b: Seq<u8>) -> Option<(PacketMsgView, Seq<u8>)> {
    match spec_parse_tag(b) {
        Option::None => Option::None,
        Option::Some((t, r)) => if t == 0 || t == 1 {
            match spec_parse_string(r) {
                Option::None => Option::None,
                Option::Some((sender, r1)) => match spec_parse_bytes_list(r1) {
                    Option::None => Option::None,
                    Option::Some((msgs, r2)) => match spec_parse_opt_string(r2) {
                        Option::None => Option::None,
                        Option::Some((callback_id, r3)) => if t == 0 {
                            Option::Some(
                                (PacketMsgView::Dispatch { sender, msgs, callback_id }, r3),
                            )
                        } else {
                            Option::Some(
                                (PacketMsgView::IbcQuery { sender, msgs, callback_id }, r3),
                            )
                        },
                    },
                },
            }
        } else if t == 2 {
            Option::Some((PacketMsgView::WhoAmI, r))
        } else if t == 3 {
            Option::Some((PacketMsgView::Balances, r))
        } else {
            Option::None
        },
    }
}

/// Every byte string inside the packet fits its 64-bit length prefix. True
/// of every packet held in memory; needed to state the round trip over
/// arbitrary mathematical packet values.
pub open spec fn spec_packet_fits(p: PacketMsgView) -> bool {
    match p {
        PacketMsgView::Dispatch { sender, msgs, callback_id } => spec_string_fits(sender)
            && spec_bytes_list_fits(msgs) && spec_opt_string_fits(callback_id),
        PacketMsgView::IbcQuery { sender, msgs, callback_id } => spec_string_fits(sender)
            && spec_bytes_list_fits(msgs) && spec_opt_string_fits(callback_id),
        PacketMsgView::WhoAmI => true,
        PacketMsgView::Balances => true,
    }
}

/// A complete decode: the bytes are exactly one packet with nothing after it.
pub open spec fn spec_decode_packet(b: Seq<u8>) -> Option<PacketMsgView> {
    match spec_parse_packet(b) {
        Option::None => Option::None,
        Option::Some((p, rest)) => if rest.len() == 0 {
            Option::Some(p)
        } else {
            Option::None
        },
    }
}

proof fn lemma_parse_packet(p: PacketMsgView, rest: Seq<u8>)
    requires
        spec_packet_fits(p),
    ensures
        spec_parse_packet(spec_enc_packet(p) + rest) == Some((p, rest)),
{
    match p {
        PacketMsgView::Dispatch { sender, msgs, callback_id } => {
            let b = spec_enc_packet(p) + rest;
            assert(b =~= seq![0u8] + (spec_enc_string(sender) + (spec_enc_bytes_list(msgs) + (
            spec_enc_opt_string(callback_id) + rest))));
            lemma_parse_tag(
                0u8,
                spec_enc_string(sender) + (spec_enc_bytes_list(msgs) + (spec_enc_opt_string(
                    callback_id,
                ) + rest)),
            );
            lemma_parse_string(
                sender,
                spec_enc_bytes_list(msgs) + (spec_enc_opt_string(callback_id) + rest),
            );
            lemma_parse_bytes_list(msgs, spec_enc_opt_string(callback_id) + rest);
            lemma_parse_opt_string(callback_id, rest);
        },
        PacketMsgView::IbcQuery { sender, msgs, callback_id } => {
            let b = spec_enc_packet(p) + rest;
            assert(b =~= seq![1u8] + (spec_enc_string(sender) + (spec_enc_bytes_list(msgs) + (
            spec_enc_opt_string(callback_id) + rest))));
            lemma_parse_tag(
                1u8,
                spec_enc_string(sender) + (spec_enc_bytes_list(msgs) + (spec_enc_opt_string(
                    callback_id,
                ) + rest)),
            );
            lemma_parse_string(
                sender,
                spec_enc_bytes_list(msgs) + (spec_enc_opt_string(callback_id) + rest),
            );
            lemma_parse_bytes_list(msgs, spec_enc_opt_string(callback_id) + rest);
            lemma_parse_opt_string(callback_id, rest);
        },
        PacketMsgView::WhoAmI => {
            lemma_parse_tag(2u8, rest);
        },
        PacketMsgView::Balances => {
            lemma_parse_tag(3u8, rest);
        },
    }
}

/// Round trip for packets: decoding an encoded packet yields the packet,
/// for every packet value whose parts fit their length prefixes.
pub proof fn lemma_packet_round_trip(p: PacketMsgView)
    requires
        spec_packet_fits(p),
    ensures
        spec_decode_packet(spec_enc_packet(p)) == Some(p),
{
    lemma_parse_packet(p, Seq::empty());
    assert(spec_enc_packet(p) + Seq::<u8>::empty() =~= spec_enc_packet(p));
}

/// Encodes a packet for the wire.
pub fn encode_packet(p: &PacketMsg) -> (r: Vec<u8>)
    ensures
        r@ == spec_enc_packet(p@),
{
    let mut out: Vec<u8> = Vec::new();
    match p {
        PacketMsg::Dispatch { sender, msgs, callback_id } => {
            out.push(0u8);
            assert(out@ =~= seq![0u8]);
            write_string(&mut out, sender.as_str());
            write_bytes_list(&mut out, msgs);
            write_opt_string(&mut out, callback_id);
            assert(out@ =~= spec_enc_packet(p@));
        },
        PacketMsg::IbcQuery { sender, msgs, callback_id } => {
            out.push(1u8);
            assert(out@ =~= seq![1u8]);
            write_string(&mut out, sender.as_str());
            write_bytes_list(&mut out, msgs);
            write_opt_string(&mut out, callback_id);
            assert(out@ =~= spec_enc_packet(p@));
        },
        PacketMsg::WhoAmI {  } => {
            out.push(2u8);
            assert(out@ =~= spec_enc_packet(p@));
        },
        PacketMsg::Balances {  } => {
            out.push(3u8);
            assert(out@ =~= spec_enc_packet(p@));
        },
    }
    out
}

/// Decodes a packet from the wire. Succeeds exactly on the encodings that
/// [`encode_packet`] produces; anything else is a decode error.
pub fn decode_packet(b: &[u8]) -> (r: Result<PacketMsg, DecodeError>)
    ensures
        r is Ok <==> spec_decode_packet(b@) is Some,
        r matches Ok(p) ==> spec_decode_packet(b@) == Some(p@),
{
    proof {
        assert(b@.skip(0) =~= b@);
    }
    let (tag, i) = read_tag(b, 0)?;
    if tag == 0 || tag == 1 {
        let (sender, i1) = read_string(b, i)?;
        let (msgs, i2) = read_bytes_list(b, i1)?;
        let (callback_id, i3) = read_opt_string(b, i2)?;
        if i3 == b.len() {
            if tag == 0 {
                Ok(PacketMsg::Dispatch { sender, msgs, callback_id })
            } else {
                Ok(PacketMsg::IbcQuery { sender, msgs, callback_id })
            }
        } else {
            Err(DecodeError {})
        }
    } else if tag == 2 {
        if i == b.len() {
            Ok(PacketMsg::WhoAmI {  })
        } else {
            Err(DecodeError {})
        }
    } else if tag == 3 {
        if i == b.len() {
            Ok(PacketMsg::Balances {  })
        } else {
            Err(DecodeError {})
        }
    } else {
        Err(DecodeError {})
    }
}

// ---------------------------------------------------------------------
// Acknowledgements
// ---------------------------------------------------------------------
pub open spec fn spec_enc_ack(a: StdAckView) -> Seq<u8> {
    match a {
        StdAckView::Success(data) => seq![0u8] + spec_enc_bytes(data),
        StdAckView::Error(msg) => seq![1u8] + spec_enc_string(msg),
    }
}

pub open spec fn spec_parse_ack(b: Seq<u8>) -> Option<(StdAckView, Seq<u8>)> {
    match spec_parse_tag(b) {
        Option::None => Option::None,
        Option::Some((t, r)) => if t == 0 {
            match spec_parse_bytes(r) {
                Option::None => Option::None,
                Option::Some((data, r1)) => Option::Some((StdAckView::Success(data), r1)),
            }
        } else if t == 1 {
            match spec_parse_string(r) {
                Option::None => Option::None,
                Option::Some((msg, r1)) => Option::Some((StdAckView::Error(msg), r1)),
            }
        } else {
            Option::None
        },
    }
}

pub open spec fn spec_ack_fits(a: StdAckView) -> bool {
    match a {
        StdAckView::Success(data) => data.len() <= u64::MAX,
        StdAckView::Error(msg) => spec_string_fits(msg),
    }
}

/// A complete decode: the bytes are exactly one acknowledgement.
pub open spec fn spec_decode_ack(b: Seq<u8>) -> Option<StdAckView> {
    match spec_parse_ack(b) {
        Option::None => Option::None,
        Option::Some((a, rest)) => if rest.len() == 0 {
            Option::Some(a)
        } else {
            Option::None
        },
    }
}

/// Round trip for acknowledgements: decoding an encoded acknowledgement
/// yields it back, for every value whose parts fit their length prefixes.
pub proof fn lemma_ack_round_trip(a: StdAckView)
    requires
        spec_ack_fits(a),
    ensures
        spec_decode_ack(spec_enc_ack(a)) == Some(a),
{
    match a {
        StdAckView::Success(data) => {
            assert(spec_enc_ack(a) =~= seq![0u8] + (spec_enc_bytes(data) + Seq::<u8>::empty()));
            lemma_parse_tag(0u8, spec_enc_bytes(data) + Seq::<u8>::empty());
            lemma_parse_bytes(data, Seq::empty());
            assert(spec_enc_bytes(data) + Seq::<u8>::empty() =~= spec_enc_bytes(data));
        },
        StdAckView::Error(msg) => {
            assert(spec_enc_ack(a) =~= seq![1u8] + (spec_enc_string(msg) + Seq::<u8>::empty()));
            lemma_parse_tag(1u8, spec_enc_string(msg) + Seq::<u8>::empty());
            lemma_parse_string(msg, Seq::empty());
            assert(spec_enc_string(msg) + Seq::<u8>::empty() =~= spec_enc_string(msg));
        },
    }
}

/// Encodes an acknowledgement for the wire.
pub fn encode_ack(a: &StdAck) -> (r: Vec<u8>)
    ensures
        r@ == spec_enc_ack(a@),
{
    let mut out: Vec<u8> = Vec::new();
    match a {
        StdAck::Success(data) => {
            out.push(0u8);
            assert(out@ =~= seq![0u8]);
            write_bytes(&mut out, data.as_slice());
            assert(out@ =~= spec_enc_ack(a@));
        },
        StdAck::Error(msg) => {
            out.push(1u8);
            assert(out@ =~= seq![1u8]);
            write_string(&mut out, msg.as_str());
            assert(out@ =~= spec_enc_ack(a@));
        },
    }
    out
}

/// Decodes an acknowledgement from the wire.
pub fn decode_ack(b: &[u8]) -> (r: Result<StdAck, DecodeError>)
    ensures
        r is Ok <==> spec_decode_ack(b@) is Some,
        r matches Ok(a) ==> spec_decode_ack(b@) == Some(a@),
{
    proof {
        assert(b@.skip(0) =~= b@);
    }
    let (tag, i) = read_tag(b, 0)?;
    if tag == 0 {
        let (data, j) = read_bytes(b, i)?;
        if j == b.len() {
            Ok(StdAck::Success(data))
        } else {
            Err(DecodeError {})
        }
    } else if tag == 1 {
        let (msg, j) = read_string(b, i)?;
        if j == b.len() {
            Ok(StdAck::Error(msg))
        } else {
            Err(DecodeError {})
        }
    } else {
        Err(DecodeError {})
    }
}

// ---------------------------------------------------------------------
// Success payloads read back by the acknowledgement processor
// ---------------------------------------------------------------------
pub open spec fn spec_enc_who_am_i_response(w: WhoAmIResponseView) -> Seq<u8> {
    spec_enc_string(w.account)
}

pub open spec fn spec_decode_who_am_i_response(b: Seq<u8>) -> Option<WhoAmIResponseView> {
    match spec_parse_string(b) {
        Option::None => Option::None,
        Option::Some((account, rest)) => if rest.len() == 0 {
            Option::Some(WhoAmIResponseView { account })
        } else {
            Option::None
        },
    }
}

/// Round trip for who-am-I payloads.
pub proof fn lemma_who_am_i_response_round_trip(w: WhoAmIResponseView)
    requires
        spec_string_fits(w.account),
    ensures
        spec_decode_who_am_i_response(spec_enc_who_am_i_response(w)) == Some(w),
{
    lemma_parse_string(w.account, Seq::empty());
    assert(spec_enc_string(w.account) + Seq::<u8>::empty() =~= spec_enc_string(w.account));
}

/// Encodes a who-am-I success payload.
pub fn encode_who_am_i_response(w: &WhoAmIResponse) -> (r: Vec<u8>)
    ensures
        r@ == spec_enc_who_am_i_response(w@),
{
    let mut out: Vec<u8> = Vec::new();
    write_string(&mut out, w.account.as_str());
    assert(out@ =~= spec_enc_who_am_i_response(w@));
    out
}

/// Decodes a who-am-I success payload.
pub fn decode_who_am_i_response(b: &[u8]) -> (r: Result<WhoAmIResponse, DecodeError>)
    ensures
        r is Ok <==> spec_decode_who_am_i_response(b@) is Some,
        r matches Ok(w) ==> spec_decode_who_am_i_response(b@) == Some(w@),
{
    proof {
        assert(b@.skip(0) =~= b@);
    }
    let (account, j) = read_string(b, 0)?;
    if j == b.len() {
        Ok(WhoAmIResponse { account })
    } else {
        Err(DecodeError {})
    }
}

pub open spec fn spec_enc_balances_response(w: BalancesResponseView) -> Seq<u8> {
    spec_enc_string(w.account) + spec_enc_coin_list(w.balances)
}

pub open spec fn spec_decode_balances_response(b: Seq<u8>) -> Option<BalancesResponseView> {
    match spec_parse_string(b) {
        Option::None => Option::None,
        Option::Some((account, r1)) => match spec_parse_coin_list(r1) {
            Option::None => Option::None,
            Option::Some((balances, rest)) => if rest.len() == 0 {
                Option::Some(BalancesResponseView { account, balances })
            } else {
                Option::None
            },
        },
    }
}

pub open spec fn spec_balances_response_fits(w: BalancesResponseView) -> bool {
    spec_string_fits(w.account) && spec_coin_list_fits(w.balances)
}

/// Round trip for balance payloads.
pub proof fn lemma_balances_response_round_trip(w: BalancesResponseView)
    requires
        spec_balances_response_fits(w),
    ensures
        spec_decode_balances_response(spec_enc_balances_response(w)) == Some(w),
{
    assert(spec_enc_balances_response(w) =~= spec_enc_string(w.account) + (spec_enc_coin_list(
        w.balances,
    ) + Seq::<u8>::empty()));
    lemma_parse_string(w.account, spec_enc_coin_list(w.balances) + Seq::<u8>::empty());
    lemma_parse_coin_list(w.balances, Seq::empty());
    assert(spec_enc_coin_list(w.balances) + Seq::<u8>::empty() =~= spec_enc_coin_list(w.balances));
}

/// Encodes a balances success payload.
pub fn encode_balances_response(w: &BalancesResponse) -> (r: Vec<u8>)
    ensures
        r@ == spec_enc_balances_response(w@),
{
    let mut out: Vec<u8> = Vec::new();
    write_string(&mut out, w.account.as_str());
    write_coin_list(&mut out, &w.balances);
    assert(out@ =~= spec_enc_balances_response(w@));
    out
}

/// Decodes a balances success payload.
pub fn decode_balances_response(b: &[u8]) -> (r: Result<BalancesResponse, DecodeError>)
    ensures
        r is Ok <==> spec_decode_balances_response(b@) is Some,
        r matches Ok(w) ==> spec_decode_balances_response(b@) == Some(w@),
{
    proof {
        assert(b@.skip(0) =~= b@);
    }
    let (account, j) = read_string(b, 0)?;
    let (balances, j2) = read_coin_list(b, j)?;
    if j2 == b.len() {
        Ok(BalancesResponse { account, balances })
    } else {
        Err(DecodeError {})
    }
}

} // verus!
