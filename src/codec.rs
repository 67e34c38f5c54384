//! The stored form of an account list: one record per account, concatenated,
//! with no header. A record is the name's UTF-8 bytes, a zero byte, and the
//! timestamp as eight little-endian bytes.
use vstd::prelude::*;
use vstd::utf8::{encode_utf8, decode_utf8, valid_utf8};
use crate::account::{Account, account_view};
use crate::recurrence::EngineError;

verus! {

/// The eight little-endian bytes of `x`.
pub open spec fn le_bytes(x: u64) -> Seq<u8> {
    seq![
        (x & 0xff) as u8,
        ((x >> 8) & 0xff) as u8,
        ((x >> 16) & 0xff) as u8,
        ((x >> 24) & 0xff) as u8,
        ((x >> 32) & 0xff) as u8,
        ((x >> 40) & 0xff) as u8,
        ((x >> 48) & 0xff) as u8,
        ((x >> 56) & 0xff) as u8,
    ]
}

/// The `u64` whose little-endian bytes are the first eight of `b`.
pub open spec fn le_value(b: Seq<u8>) -> u64
    recommends
        b.len() >= 8,
{
    (b[0] as u64) | ((b[1] as u64) << 8) | ((b[2] as u64) << 16) | ((b[3] as u64) << 24) | ((
    b[4] as u64) << 32) | ((b[5] as u64) << 40) | ((b[6] as u64) << 48) | ((b[7] as u64) << 56)
}

/// The record of one account.
pub open spec fn record_bytes(name: Seq<char>, date: u64) -> Seq<u8> {
    encode_utf8(name) + seq![0u8] + le_bytes(date)
}

/// The stored form of a list of accounts: their records in order.
pub open spec fn stream_bytes(accounts: Seq<(Seq<char>, u64)>) -> Seq<u8>
    decreases accounts.len(),
{
    if accounts.len() == 0 {
        Seq::empty()
    } else {
        stream_bytes(accounts.drop_last()) + record_bytes(
            accounts.last().0,
            accounts.last().1,
        )
    }
}

/// What a stream decodes to, read byte by byte with `name` the name bytes
/// gathered so far: the accounts, and whether decoding stopped on a
/// corruption (a timestamp cut short, or a name that is not UTF-8). Name bytes
/// left without a terminator at the end are dropped.
pub open spec fn decode_spec(b: Seq<u8>, name: Seq<u8>) -> (Seq<(Seq<char>, u64)>, bool)
    decreases b.len(),
{
    if b.len() == 0 {
        (Seq::empty(), false)
    } else if b[0] != 0 {
        decode_spec(b.subrange(1, b.len() as int), name.push(b[0]))
    } else if b.len() < 9 || !valid_utf8(name) {
        (Seq::empty(), true)
    } else {
        let rest = decode_spec(b.subrange(9, b.len() as int), Seq::empty());
        (seq![(decode_utf8(name), le_value(b.subrange(1, 9)))] + rest.0, rest.1)
    }
}

/// Appends `b` to `out`.
pub(crate) fn push_bytes(out: &mut Vec<u8>, b: &[u8])
    ensures
        final(out)@ == old(out)@ + b@,
{
    let mut i: usize = 0;
    while i < b.len()
        invariant
            i <= b@.len(),
            out@ == old(out)@ + b@.subrange(0, i as int),
        decreases b@.len() - i,
    {
        out.push(b[i]);
        i = i + 1;
        assert(out@ =~= old(out)@ + b@.subrange(0, i as int));
    }
    assert(b@.subrange(0, b@.len() as int) =~= b@);
}

/// Appends the eight little-endian bytes of `x` to `out`.
pub(crate) fn push_u64_le(out: &mut Vec<u8>, x: u64)
    ensures
        final(out)@ == old(out)@ + le_bytes(x),
{
    out.push((x & 0xff) as u8);
    out.push(((x >> 8) & 0xff) as u8);
    out.push(((x >> 16) & 0xff) as u8);
    out.push(((x >> 24) & 0xff) as u8);
    out.push(((x >> 32) & 0xff) as u8);
    out.push(((x >> 40) & 0xff) as u8);
    out.push(((x >> 48) & 0xff) as u8);
    out.push(((x >> 56) & 0xff) as u8);
    assert(out@ =~= old(out)@ + le_bytes(x));
}

/// Reads the eight little-endian bytes of `b` from `at` on.
pub(crate) fn read_u64_le(b: &[u8], at: usize) -> (r: u64)
    requires
        at + 8 <= b@.len(),
    ensures
        r == le_value(b@.subrange(at as int, at + 8)),
{
    (b[at] as u64) | ((b[at + 1] as u64) << 8) | ((b[at + 2] as u64) << 16) | ((b[at + 3] as u64)
        << 24) | ((b[at + 4] as u64) << 32) | ((b[at + 5] as u64) << 40) | ((b[at + 6] as u64)
        << 48) | ((b[at + 7] as u64) << 56)
}

/// Reading back the little-endian bytes of `x` gives `x`.
pub proof fn lemma_le_round_trip(x: u64)
    ensures
        le_value(le_bytes(x)) == x,
{
    let b = le_bytes(x);
    assert(x == ((x & 0xff) as u8 as u64) | ((((x >> 8) & 0xff) as u8 as u64) << 8) | ((((x >> 16)
        & 0xff) as u8 as u64) << 16) | ((((x >> 24) & 0xff) as u8 as u64) << 24) | ((((x >> 32)
        & 0xff) as u8 as u64) << 32) | ((((x >> 40) & 0xff) as u8 as u64) << 40) | ((((x >> 48)
        & 0xff) as u8 as u64) << 48) | ((((x >> 56) & 0xff) as u8 as u64) << 56)) by (bit_vector);
}


/// The plain values of a list of accounts.
pub open spec fn accounts_view(accounts: Seq<Account>) -> Seq<(Seq<char>, u64)> {
    accounts.map_values(|a: Account| account_view(a))
}

/// A name whose UTF-8 bytes hold no zero byte, so that the terminator ends it.
pub open spec fn name_storable(name: Seq<char>) -> bool {
    forall|i: int| 0 <= i < encode_utf8(name).len() ==> encode_utf8(name)[i] != 0
}

/// The stored form of `accounts`: the records of the accounts in order.
pub fn encode_accounts(accounts: &Vec<Account>) -> (r: Vec<u8>)
    ensures
        r@ == stream_bytes(accounts_view(accounts@)),
{
    let mut out: Vec<u8> = Vec::new();
    let mut i: usize = 0;
    while i < accounts.len()
        invariant
            i <= accounts@.len(),
            out@ == stream_bytes(accounts_view(accounts@.subrange(0, i as int))),
        decreases accounts@.len() - i,
    {
        let rec = accounts[i].to_binary();
        push_bytes(&mut out, rec.as_slice());
        proof {
            let pre = accounts_view(accounts@.subrange(0, i as int));
            let post = accounts_view(accounts@.subrange(0, i + 1));
            assert(post.drop_last() =~= pre);
            assert(post.last() == account_view(accounts@[i as int]));
        }
        i = i + 1;
    }
    assert(accounts@.subrange(0, accounts@.len() as int) =~= accounts@);
    out
}

/// Relies on std's `String::from_utf8`: the text the bytes encode where they
/// are valid UTF-8, and `None` otherwise.
#[verifier::external_body]
fn text_of_utf8(b: Vec<u8>) -> (r: Option<String>)
    ensures
        r is Some <==> valid_utf8(b@),
        r matches Some(s) ==> s@ == decode_utf8(b@),
{
    String::from_utf8(b).ok()
}

/// The result of decoding a stored account list: the accounts read, and the
/// error that stopped decoding before the end, if any.
pub struct DecodeOutcome {
    pub accounts: Vec<Account>,
    pub error: Option<EngineError>,
}

/// Decodes a stored account list. Decoding stops at the first corruption and
/// keeps the accounts read before it; an empty stream is an empty list.
pub fn decode_accounts(bytes: &[u8]) -> (r: DecodeOutcome)
    ensures
        accounts_view(r.accounts@) == decode_spec(bytes@, Seq::empty()).0,
        r.error == (if decode_spec(bytes@, Seq::empty()).1 {
            Some(EngineError::CorruptStream)
        } else {
            None::<EngineError>
        }),
{
    let mut accounts: Vec<Account> = Vec::new();
    let mut name: Vec<u8> = Vec::new();
    let mut pos: usize = 0;
    let ghost whole = decode_spec(bytes@, Seq::empty());
    assert(bytes@.subrange(0, bytes@.len() as int) =~= bytes@);
    while pos < bytes.len()
        invariant
            pos <= bytes@.len(),
            whole == decode_spec(bytes@, Seq::empty()),
            whole.0 == accounts_view(accounts@) + decode_spec(
                bytes@.subrange(pos as int, bytes@.len() as int),
                name@,
            ).0,
            whole.1 == decode_spec(bytes@.subrange(pos as int, bytes@.len() as int), name@).1,
        decreases bytes@.len() - pos,
    {
        let ghost rest = bytes@.subrange(pos as int, bytes@.len() as int);
        let byte = bytes[pos];
        if byte != 0 {
            assert(rest.subrange(1, rest.len() as int) =~= bytes@.subrange(
                pos + 1,
                bytes@.len() as int,
            ));
            name.push(byte);
            pos = pos + 1;
        } else {
            if bytes.len() - pos < 9 {
                assert(accounts_view(accounts@) + Seq::empty() =~= accounts_view(accounts@));
                return DecodeOutcome { accounts, error: Some(EngineError::CorruptStream) };
            }
            let ghost name_bytes = name@;
            let text = match text_of_utf8(name) {
                Some(t) => t,
                None => {
                    assert(accounts_view(accounts@) + Seq::empty() =~= accounts_view(accounts@));
                    return DecodeOutcome { accounts, error: Some(EngineError::CorruptStream) };
                },
            };
            let date = read_u64_le(bytes, pos + 1);
            assert(rest.subrange(1, 9) =~= bytes@.subrange(pos + 1, pos + 9));
            assert(rest.subrange(9, rest.len() as int) =~= bytes@.subrange(
                pos + 9,
                bytes@.len() as int,
            ));
            let ghost old_view = accounts_view(accounts@);
            accounts.push(Account::new(text, date));
            proof {
                let tail = decode_spec(bytes@.subrange(pos + 9, bytes@.len() as int), Seq::empty());
                assert(accounts_view(accounts@) =~= old_view.push((decode_utf8(name_bytes), date)));
                assert(old_view + (seq![(decode_utf8(name_bytes), date)] + tail.0) =~= accounts_view(
                    accounts@,
                ) + tail.0);
            }
            name = Vec::new();
            pos = pos + 9;
        }
    }
    proof {
        assert(bytes@.subrange(pos as int, bytes@.len() as int).len() == 0);
        assert(accounts_view(accounts@) + Seq::empty() =~= accounts_view(accounts@));
    }
    DecodeOutcome { accounts, error: None }
}

/// The stored form of two lists one after the other is the concatenation of their stored forms.
proof fn lemma_stream_concat(a: Seq<(Seq<char>, u64)>, b: Seq<(Seq<char>, u64)>)
    ensures
        stream_bytes(a + b) == stream_bytes(a) + stream_bytes(b),
    decreases b.len(),
{
    if b.len() == 0 {
        assert(a + b =~= a);
        assert(stream_bytes(a) + stream_bytes(b) =~= stream_bytes(a));
    } else {
        lemma_stream_concat(a, b.drop_last());
        assert((a + b).drop_last() =~= a + b.drop_last());
        assert((a + b).last() == b.last());
        assert(stream_bytes(a + b) =~= stream_bytes(a) + stream_bytes(b));
    }
}

/// Name bytes with no zero among them are gathered into the name buffer.
proof fn lemma_decode_name_bytes(nb: Seq<u8>, tail: Seq<u8>, name: Seq<u8>)
    requires
        forall|i: int| 0 <= i < nb.len() ==> nb[i] != 0,
    ensures
        decode_spec(nb + tail, name) == decode_spec(tail, name + nb),
    decreases nb.len(),
{
    if nb.len() == 0 {
        assert(nb + tail =~= tail);
        assert(name + nb =~= name);
    } else {
        let b = nb + tail;
        assert(b[0] == nb[0]);
        assert(b.subrange(1, b.len() as int) =~= nb.subrange(1, nb.len() as int) + tail);
        lemma_decode_name_bytes(nb.subrange(1, nb.len() as int), tail, name.push(nb[0]));
        assert(name.push(nb[0]) + nb.subrange(1, nb.len() as int) =~= name + nb);
    }
}

/// Decoding the stored form of a list of accounts gives back the same list,
/// names and timestamps exactly and in order, with no corruption reported,
/// provided no name's UTF-8 bytes contain the zero byte that ends a name.
pub proof fn lemma_round_trip(accounts: Seq<(Seq<char>, u64)>)
    requires
        forall|i: int| 0 <= i < accounts.len() ==> name_storable(#[trigger] accounts[i].0),
    ensures
        decode_spec(stream_bytes(accounts), Seq::empty()) == (accounts, false),
    decreases accounts.len(),
{
    if accounts.len() == 0 {
        assert(decode_spec(stream_bytes(accounts), Seq::empty()).0 =~= accounts);
    } else {
        let first = accounts[0];
        let rest = accounts.drop_first();
        assert(seq![first] + rest =~= accounts);
        lemma_stream_concat(seq![first], rest);
        assert(seq![first].drop_last() =~= Seq::<(Seq<char>, u64)>::empty());
        assert(seq![first].last() == first);
        assert(stream_bytes(Seq::<(Seq<char>, u64)>::empty()) =~= Seq::<u8>::empty());
        assert(Seq::<u8>::empty() + record_bytes(first.0, first.1) =~= record_bytes(first.0, first.1));
        assert(stream_bytes(seq![first]) =~= record_bytes(first.0, first.1));
        assert forall|i: int| 0 <= i < rest.len() implies name_storable(#[trigger] rest[i].0) by {
            assert(rest[i] == accounts[i + 1]);
        }
        lemma_round_trip(rest);
        let nb = encode_utf8(first.0);
        let after = seq![0u8] + le_bytes(first.1) + stream_bytes(rest);
        assert(stream_bytes(accounts) =~= nb + after);
        assert(name_storable(accounts[0].0));
        lemma_decode_name_bytes(nb, after, Seq::empty());
        assert(Seq::<u8>::empty() + nb =~= nb);
        vstd::utf8::encode_utf8_valid_utf8(first.0);
        vstd::utf8::encode_utf8_decode_utf8(first.0);
        assert(after.subrange(1, 9) =~= le_bytes(first.1));
        lemma_le_round_trip(first.1);
        assert(after.subrange(9, after.len() as int) =~= stream_bytes(rest));
        assert(decode_spec(stream_bytes(accounts), Seq::empty()).0 =~= accounts);
    }
}

} // verus!
