//! Domain-event codec: the typed events (request, response, fulfillment,
//! reset, callback) a transaction's log entries carry, each correlated by
//! a 32-byte seed. Decoding walks a log stream in order and skips entries
//! that match no known schema; they are not errors. The wire form of an
//! entry is an 8-byte big-endian variant tag followed by the variant's
//! fixed-width fields.

use vstd::prelude::*;
use vstd::seq_lib::*;

use crate::codec::be_bytes;
use crate::codec::be_val;
use crate::codec::bytes32_at;
use crate::codec::lemma_be_bytes_len;
use crate::codec::lemma_be_bytes_of_val;
use crate::codec::push_be;
use crate::codec::push_bytes32;
use crate::codec::u64_from_be_at;
use crate::types::Address;
use crate::types::B512;
use crate::types::Bits256;
use crate::types::ContractId;
use crate::types::Identity;

verus! {

/// A new randomness request was accepted on chain.
#[derive(Clone, Copy, Debug, PartialEq, Eq)]
pub struct Request {
    /// Sequence number the chain assigned to the request.
    pub no: u64,
    /// Correlation seed.
    pub seed: Bits256,
    /// Who requested the randomness.
    pub client: Identity,
}

/// One authority responded with its share of the randomness.
#[derive(Clone, Copy, Debug, PartialEq, Eq)]
pub struct Response {
    pub seed: Bits256,
    /// The authority that responded.
    pub authority: Address,
    /// The authority's randomness share.
    pub randomness: B512,
}

/// Enough responses were aggregated: the request is fulfilled.
#[derive(Clone, Copy, Debug, PartialEq, Eq)]
pub struct Fulfill {
    pub seed: Bits256,
    /// The aggregated randomness value.
    pub randomness: B512,
}

/// The request with this seed was reset.
#[derive(Clone, Copy, Debug, PartialEq, Eq)]
pub struct Reset {
    pub seed: Bits256,
}

/// Fulfilled randomness was handed to a consuming contract.
#[derive(Clone, Copy, Debug, PartialEq, Eq)]
pub struct Callback {
    pub seed: Bits256,
    /// The randomness handed over.
    pub randomness: B512,
    /// The contract that consumed it.
    pub client: ContractId,
}

/// One typed domain event. Every variant carries the seed that
/// correlates a request with its responses and fulfillment.
#[derive(Clone, Copy, Debug, PartialEq, Eq)]
pub enum Event {
    Request(Request),
    Response(Response),
    Fulfill(Fulfill),
    Reset(Reset),
    Callback(Callback),
}

impl Event {
    /// The correlating seed the event carries.
    pub open spec fn spec_seed(&self) -> Bits256 {
        match self {
            Event::Request(x) => x.seed,
            Event::Response(x) => x.seed,
            Event::Fulfill(x) => x.seed,
            Event::Reset(x) => x.seed,
            Event::Callback(x) => x.seed,
        }
    }

    /// The correlating seed the event carries.
    pub fn seed(&self) -> (s: &Bits256)
        ensures
            *s == self.spec_seed(),
    {
        match self {
            Event::Request(x) => &x.seed,
            Event::Response(x) => &x.seed,
            Event::Fulfill(x) => &x.seed,
            Event::Reset(x) => &x.seed,
            Event::Callback(x) => &x.seed,
        }
    }
}

/// Wire form of an identity: an 8-byte kind tag (0 for an address, 1 for
/// a contract id) followed by the 32 bytes of the id.
pub open spec fn spec_encode_identity(id: Identity) -> Seq<u8> {
    match id {
        Identity::Address(a) => be_bytes(0, 8) + a@,
        Identity::ContractId(c) => be_bytes(1, 8) + c@,
    }
}

/// Wire form of a request entry.
pub open spec fn spec_encode_request(r: Request) -> Seq<u8> {
    be_bytes(0, 8) + be_bytes(r.no as nat, 8) + r.seed@ + spec_encode_identity(r.client)
}

/// Wire form of a response entry.
pub open spec fn spec_encode_response(r: Response) -> Seq<u8> {
    be_bytes(1, 8) + r.seed@ + r.authority@ + r.randomness.bytes()
}

/// Wire form of a fulfillment entry.
pub open spec fn spec_encode_fulfill(f: Fulfill) -> Seq<u8> {
    be_bytes(2, 8) + f.seed@ + f.randomness.bytes()
}

/// Wire form of a reset entry.
pub open spec fn spec_encode_reset(r: Reset) -> Seq<u8> {
    be_bytes(3, 8) + r.seed@
}

/// Wire form of a callback entry.
pub open spec fn spec_encode_callback(c: Callback) -> Seq<u8> {
    be_bytes(4, 8) + c.seed@ + c.randomness.bytes() + c.client@
}

/// Wire form of any event.
pub open spec fn spec_encode_event(e: Event) -> Seq<u8> {
    match e {
        Event::Request(x) => spec_encode_request(x),
        Event::Response(x) => spec_encode_response(x),
        Event::Fulfill(x) => spec_encode_fulfill(x),
        Event::Reset(x) => spec_encode_reset(x),
        Event::Callback(x) => spec_encode_callback(x),
    }
}

/// Whether a log entry matches one of the known event schemas: a known
/// tag and exactly the fixed width of that variant.
pub open spec fn event_entry_ok(s: Seq<u8>) -> bool {
    &&& s.len() >= 8
    &&& ({
        let tag = be_val(s.take(8));
        ||| (tag == 0 && s.len() == 88 && be_val(s.subrange(48, 56)) <= 1)
        ||| (tag == 1 && s.len() == 136)
        ||| (tag == 2 && s.len() == 104)
        ||| (tag == 3 && s.len() == 40)
        ||| (tag == 4 && s.len() == 136)
    })
}

/// Appends the wire form of an identity.
fn push_identity(out: &mut Vec<u8>, id: &Identity)
    ensures
        final(out)@ == old(out)@ + spec_encode_identity(*id),
{
    match id {
        Identity::Address(a) => {
            push_be(out, 0, 8);
            push_bytes32(out, &a.bytes);
            assert(out@ =~= old(out)@ + spec_encode_identity(*id));
        },
        Identity::ContractId(c) => {
            push_be(out, 1, 8);
            push_bytes32(out, &c.bytes);
            assert(out@ =~= old(out)@ + spec_encode_identity(*id));
        },
    }
}

/// Encodes a request entry.
pub fn encode_request(r: &Request) -> (out: Vec<u8>)
    ensures
        out@ == spec_encode_request(*r),
{
    let mut out: Vec<u8> = Vec::new();
    push_be(&mut out, 0, 8);
    push_be(&mut out, r.no, 8);
    push_bytes32(&mut out, &r.seed.bytes);
    push_identity(&mut out, &r.client);
    assert(out@ =~= spec_encode_request(*r));
    out
}

/// Appends the 64 bytes of a randomness value.
fn push_b512(out: &mut Vec<u8>, b: &B512)
    ensures
        final(out)@ == old(out)@ + b.bytes(),
{
    push_bytes32(out, &b.first.bytes);
    push_bytes32(out, &b.second.bytes);
    assert(out@ =~= old(out)@ + b.bytes());
}

/// Encodes a response entry.
pub fn encode_response(r: &Response) -> (out: Vec<u8>)
    ensures
        out@ == spec_encode_response(*r),
{
    let mut out: Vec<u8> = Vec::new();
    push_be(&mut out, 1, 8);
    push_bytes32(&mut out, &r.seed.bytes);
    push_bytes32(&mut out, &r.authority.bytes);
    push_b512(&mut out, &r.randomness);
    assert(out@ =~= spec_encode_response(*r));
    out
}

/// Encodes a fulfillment entry.
pub fn encode_fulfill(f: &Fulfill) -> (out: Vec<u8>)
    ensures
        out@ == spec_encode_fulfill(*f),
{
    let mut out: Vec<u8> = Vec::new();
    push_be(&mut out, 2, 8);
    push_bytes32(&mut out, &f.seed.bytes);
    push_b512(&mut out, &f.randomness);
    assert(out@ =~= spec_encode_fulfill(*f));
    out
}

/// Encodes a reset entry.
pub fn encode_reset(r: &Reset) -> (out: Vec<u8>)
    ensures
        out@ == spec_encode_reset(*r),
{
    let mut out: Vec<u8> = Vec::new();
    push_be(&mut out, 3, 8);
    push_bytes32(&mut out, &r.seed.bytes);
    assert(out@ =~= spec_encode_reset(*r));
    out
}

/// Encodes a callback entry.
pub fn encode_callback(c: &Callback) -> (out: Vec<u8>)
    ensures
        out@ == spec_encode_callback(*c),
{
    let mut out: Vec<u8> = Vec::new();
    push_be(&mut out, 4, 8);
    push_bytes32(&mut out, &c.seed.bytes);
    push_b512(&mut out, &c.randomness);
    push_bytes32(&mut out, &c.client.bytes);
    assert(out@ =~= spec_encode_callback(*c));
    out
}

/// Encodes any event into its log-entry wire form.
pub fn encode_event(e: &Event) -> (out: Vec<u8>)
    ensures
        out@ == spec_encode_event(*e),
{
    match e {
        Event::Request(x) => encode_request(x),
        Event::Response(x) => encode_response(x),
        Event::Fulfill(x) => encode_fulfill(x),
        Event::Reset(x) => encode_reset(x),
        Event::Callback(x) => encode_callback(x),
    }
}

/// Reads the 64-byte randomness stored at `start`.
fn b512_at(data: &Vec<u8>, start: usize) -> (b: B512)
    requires
        start + 64 <= data@.len(),
    ensures
        b.bytes() == data@.subrange(start as int, start as int + 64),
{
    let n = data.len();
    assert(start + 64 <= n);
    let first = Bits256 { bytes: bytes32_at(data, start) };
    let second = Bits256 { bytes: bytes32_at(data, start + 32) };
    let b = B512 { first, second };
    assert(b.bytes() =~= data@.subrange(start as int, start as int + 64));
    b
}

/// Decodes one log entry, when it matches a known event schema. The
/// decoded event re-encodes to exactly the entry's bytes.
pub fn decode_event(entry: &Vec<u8>) -> (r: Option<Event>)
    ensures
        r is Some <==> event_entry_ok(entry@),
        r matches Some(e) ==> spec_encode_event(e) == entry@,
{
    let n = entry.len();
    if n < 8 {
        return None;
    }
    proof {
        assert(entry@.take(8) =~= entry@.subrange(0, 8));
        lemma_be_bytes_of_val(entry@.subrange(0, 8));
    }
    let tag = u64_from_be_at(entry, 0);
    if tag == 0 {
        if n != 88 {
            return None;
        }
        proof {
            lemma_be_bytes_of_val(entry@.subrange(8, 16));
            lemma_be_bytes_of_val(entry@.subrange(48, 56));
        }
        let no = u64_from_be_at(entry, 8);
        let seed = Bits256 { bytes: bytes32_at(entry, 16) };
        let ident_tag = u64_from_be_at(entry, 48);
        if ident_tag > 1 {
            return None;
        }
        let id_bytes = bytes32_at(entry, 56);
        let client = if ident_tag == 0 {
            Identity::Address(Address { bytes: id_bytes })
        } else {
            Identity::ContractId(ContractId { bytes: id_bytes })
        };
        let ev = Event::Request(Request { no, seed, client });
        proof {
            lemma_be_bytes_len(0, 8);
            lemma_be_bytes_len(no as nat, 8);
            lemma_be_bytes_len(ident_tag as nat, 8);
            assert(spec_encode_event(ev) =~= entry@);
        }
        Some(ev)
    } else if tag == 1 {
        if n != 136 {
            return None;
        }
        let seed = Bits256 { bytes: bytes32_at(entry, 8) };
        let authority = Address { bytes: bytes32_at(entry, 40) };
        let randomness = b512_at(entry, 72);
        let ev = Event::Response(Response { seed, authority, randomness });
        proof {
            lemma_be_bytes_len(1, 8);
            assert(spec_encode_event(ev) =~= entry@);
        }
        Some(ev)
    } else if tag == 2 {
        if n != 104 {
            return None;
        }
        let seed = Bits256 { bytes: bytes32_at(entry, 8) };
        let randomness = b512_at(entry, 40);
        let ev = Event::Fulfill(Fulfill { seed, randomness });
        proof {
            lemma_be_bytes_len(2, 8);
            assert(spec_encode_event(ev) =~= entry@);
        }
        Some(ev)
    } else if tag == 3 {
        if n != 40 {
            return None;
        }
        let seed = Bits256 { bytes: bytes32_at(entry, 8) };
        let ev = Event::Reset(Reset { seed });
        proof {
            lemma_be_bytes_len(3, 8);
            assert(spec_encode_event(ev) =~= entry@);
        }
        Some(ev)
    } else if tag == 4 {
        if n != 136 {
            return None;
        }
        let seed = Bits256 { bytes: bytes32_at(entry, 8) };
        let randomness = b512_at(entry, 40);
        let client = ContractId { bytes: bytes32_at(entry, 104) };
        let ev = Event::Callback(Callback { seed, randomness, client });
        proof {
            lemma_be_bytes_len(4, 8);
            assert(spec_encode_event(ev) =~= entry@);
        }
        Some(ev)
    } else {
        None
    }
}

/// The wire tag of each event variant.
pub open spec fn event_tag(e: Event) -> nat {
    match e {
        Event::Request(_) => 0,
        Event::Response(_) => 1,
        Event::Fulfill(_) => 2,
        Event::Reset(_) => 3,
        Event::Callback(_) => 4,
    }
}

/// An encoded identity is 40 bytes and starts with a kind tag of 0 or 1.
proof fn lemma_identity_encoding_len(id: Identity)
    ensures
        spec_encode_identity(id).len() == 40,
    decreases 0int,
{
    match id {
        Identity::Address(_) => {
            lemma_be_bytes_len(0, 8);
        },
        Identity::ContractId(_) => {
            lemma_be_bytes_len(1, 8);
        },
    }
}

/// Every encoded event starts with its variant's tag and has that
/// variant's fixed width.
proof fn lemma_event_encoding_shape(e: Event)
    ensures
        ({
            let s = spec_encode_event(e);
            &&& s.len() >= 8
            &&& s.take(8) == be_bytes(event_tag(e), 8)
            &&& be_val(s.take(8)) == event_tag(e)
            &&& (e is Request ==> s.len() == 88)
            &&& (e is Response ==> s.len() == 136)
            &&& (e is Fulfill ==> s.len() == 104)
            &&& (e is Reset ==> s.len() == 40)
            &&& (e is Callback ==> s.len() == 136)
        }),
{
    let s = spec_encode_event(e);
    lemma_be_bytes_len(event_tag(e), 8);
    match e {
        Event::Request(x) => {
            lemma_be_bytes_len(x.no as nat, 8);
            lemma_identity_encoding_len(x.client);
        },
        _ => {},
    }
    assert(s.take(8) =~= be_bytes(event_tag(e), 8));
    assert(event_tag(e) < crate::codec::pow256(8)) by {
        crate::codec::lemma_pow256_8_value();
    }
    crate::codec::lemma_be_round_trip(event_tag(e), 8);
}

/// Every encoded event is a recognized log entry.
pub proof fn lemma_encoded_entry_ok(e: Event)
    ensures
        event_entry_ok(spec_encode_event(e)),
{
    let s = spec_encode_event(e);
    lemma_event_encoding_shape(e);
    if let Event::Request(x) = e {
        lemma_be_bytes_len(0, 8);
        lemma_be_bytes_len(x.no as nat, 8);
        let itag: nat = match x.client {
            Identity::Address(_) => 0,
            Identity::ContractId(_) => 1,
        };
        lemma_be_bytes_len(itag, 8);
        assert(s.subrange(48, 56) =~= be_bytes(itag, 8));
        assert(itag < crate::codec::pow256(8)) by {
            crate::codec::lemma_pow256_8_value();
        }
        crate::codec::lemma_be_round_trip(itag, 8);
    }
}

/// An event that encodes like a request entry is a request with the same
/// sequence number and the same seed.
pub proof fn lemma_request_encoding_injective(e: Event, r: Request)
    requires
        spec_encode_event(e) == spec_encode_request(r),
    ensures
        e matches Event::Request(x) && x.no == r.no && x.seed@ == r.seed@,
{
    lemma_event_encoding_shape(e);
    lemma_event_encoding_shape(Event::Request(r));
    let s = spec_encode_event(e);
    let x = e->Request_0;
    lemma_be_bytes_len(0, 8);
    lemma_be_bytes_len(x.no as nat, 8);
    lemma_be_bytes_len(r.no as nat, 8);
    lemma_identity_encoding_len(x.client);
    lemma_identity_encoding_len(r.client);
    assert(s.subrange(8, 16) =~= be_bytes(x.no as nat, 8));
    assert(spec_encode_request(r).subrange(8, 16) =~= be_bytes(r.no as nat, 8));
    assert(x.no == r.no) by {
        assert(x.no < crate::codec::pow256(8) && r.no < crate::codec::pow256(8)) by {
            crate::codec::lemma_pow256_8_value();
        }
        crate::codec::lemma_be_round_trip(x.no as nat, 8);
        crate::codec::lemma_be_round_trip(r.no as nat, 8);
    }
    assert(s.subrange(16, 48) =~= x.seed@);
    assert(spec_encode_request(r).subrange(16, 48) =~= r.seed@);
}

/// An event that encodes like a fulfillment entry is a fulfillment with
/// the same seed and, bit for bit, the same 64-byte randomness value.
pub proof fn lemma_fulfill_encoding_injective(e: Event, f: Fulfill)
    requires
        spec_encode_event(e) == spec_encode_fulfill(f),
    ensures
        e matches Event::Fulfill(x) && x.seed@ == f.seed@ && x.randomness.bytes()
            == f.randomness.bytes(),
{
    lemma_event_encoding_shape(e);
    lemma_event_encoding_shape(Event::Fulfill(f));
    let s = spec_encode_event(e);
    let x = e->Fulfill_0;
    lemma_be_bytes_len(2, 8);
    assert(s.subrange(8, 40) =~= x.seed@);
    assert(spec_encode_fulfill(f).subrange(8, 40) =~= f.seed@);
    assert(s.subrange(40, 104) =~= x.randomness.bytes());
    assert(spec_encode_fulfill(f).subrange(40, 104) =~= f.randomness.bytes());
}

/// Law: a log stream holding a request entry, an unrecognized entry, and
/// a fulfillment entry decodes to exactly the two recognized events, in
/// stream order, each carrying its original seed — so a request and its
/// fulfillment correlated by one seed stay correlated and ordered, and
/// the interleaved unknown entry is skipped without disturbing them.
pub proof fn lemma_request_fulfill_stream(
    req: Request,
    ful: Fulfill,
    junk: Seq<u8>,
    events: Seq<Event>,
)
    requires
        !event_entry_ok(junk),
        events.map_values(|e: Event| spec_encode_event(e)) == seq![
            spec_encode_request(req),
            junk,
            spec_encode_fulfill(ful),
        ].filter((|s: Seq<u8>| event_entry_ok(s))),
    ensures
        events.len() == 2,
        events[0] matches Event::Request(x) && x.no == req.no && x.seed@ == req.seed@,
        events[1] matches Event::Fulfill(x) && x.seed@ == ful.seed@ && x.randomness.bytes()
            == ful.randomness.bytes(),
        events[0].spec_seed()@ == req.seed@,
        events[1].spec_seed()@ == ful.seed@,
{
    let pred = (|s: Seq<u8>| event_entry_ok(s));
    let enc_req = spec_encode_request(req);
    let enc_ful = spec_encode_fulfill(ful);
    let stream = seq![enc_req, junk, enc_ful];
    lemma_encoded_entry_ok(Event::Request(req));
    lemma_encoded_entry_ok(Event::Fulfill(ful));
    reveal(Seq::filter);
    assert(seq![enc_req].drop_last() =~= Seq::<Seq<u8>>::empty());
    assert(Seq::<Seq<u8>>::empty().filter(pred) =~= Seq::<Seq<u8>>::empty());
    assert(seq![enc_req].filter(pred) =~= seq![enc_req]);
    assert(seq![enc_req, junk].drop_last() =~= seq![enc_req]);
    assert(seq![enc_req, junk].filter(pred) =~= seq![enc_req]);
    assert(stream.drop_last() =~= seq![enc_req, junk]);
    assert(stream.filter(pred) =~= seq![enc_req, enc_ful]);
    assert(events.len() == 2);
    assert(spec_encode_event(events[0]) == enc_req);
    assert(spec_encode_event(events[1]) == enc_ful);
    lemma_request_encoding_injective(events[0], req);
    lemma_fulfill_encoding_injective(events[1], ful);
}

/// Decodes a whole log stream in order: the events returned re-encode to
/// exactly the recognized entries of the stream, in the stream's order;
/// unrecognized entries are skipped, not errors.
pub fn decode_events(entries: &Vec<Vec<u8>>) -> (events: Vec<Event>)
    ensures
        events@.map_values(|e: Event| spec_encode_event(e)) == entries.deep_view().filter(
            (|s: Seq<u8>| event_entry_ok(s)),
        ),
{
    let ghost dv = entries.deep_view();
    let ghost pred = (|s: Seq<u8>| event_entry_ok(s));
    let mut events: Vec<Event> = Vec::new();
    let mut i: usize = 0;
    let n = entries.len();
    proof {
        reveal(Seq::filter);
    }
    while i < n
        invariant
            i <= n == entries@.len(),
            dv == entries.deep_view(),
            pred == (|s: Seq<u8>| event_entry_ok(s)),
            events@.map_values(|e: Event| spec_encode_event(e)) == dv.take(i as int).filter(pred),
        decreases n - i,
    {
        let ghost before = events@.map_values(|e: Event| spec_encode_event(e));
        proof {
            reveal(Seq::filter);
            assert(dv.take(i as int + 1).drop_last() =~= dv.take(i as int));
            assert(dv.take(i as int + 1).last() == dv[i as int]);
            assert((entries@[i as int]).deep_view() =~= entries@[i as int]@);
        }
        match decode_event(&entries[i]) {
            Some(e) => {
                events.push(e);
                assert(events@.map_values(|ev: Event| spec_encode_event(ev)) =~= before.push(
                    spec_encode_event(e),
                ));
            },
            None => {
                assert(!pred(dv[i as int]));
            },
        }
        i = i + 1;
    }
    proof {
        assert(dv.take(n as int) =~= dv);
    }
    events
}

} // verus!
