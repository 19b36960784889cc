//! Status aggregation: one consistent account snapshot built from a
//! single batched read-only call. The batch comes back as one interleaved
//! receipt stream; the stream is segmented at the query-boundary markers
//! and each query's segment is decoded with its own rule. Any failure
//! aborts the whole snapshot; no partial snapshot is ever produced.

use vstd::prelude::*;

use crate::codec::be_val;
use crate::codec::u64_from_be_at;
use crate::codec::bytes32_at;
use crate::types::Address;
use crate::types::AssetId;
use crate::types::ContractId;
use crate::types::Identity;
use crate::types::bytes32_eq;

verus! {

/// One low-level receipt of a batched call, as the collaborator hands it
/// over: a marker that begins one query's result segment, the returned
/// data of a query, or anything else (ignored by decoding).
#[derive(Clone, Debug)]
pub enum Receipt {
    /// Marks the start of one query's result segment.
    Call,
    /// Carries one query's encoded return value.
    ReturnData(Vec<u8>),
    /// Any other receipt interleaved in the stream.
    Other(Vec<u8>),
}

/// Folds one receipt into the per-query data collected so far: a marker
/// opens a fresh (possibly empty) segment, the first return datum of a
/// segment fills it, everything else changes nothing.
pub open spec fn seg_step(acc: Seq<Option<Seq<u8>>>, r: Receipt) -> Seq<Option<Seq<u8>>> {
    match r {
        Receipt::Call => acc.push(None),
        Receipt::ReturnData(d) => if acc.len() > 0 && acc.last() is None {
            acc.update(acc.len() - 1, Some(d@))
        } else {
            acc
        },
        Receipt::Other(_) => acc,
    }
}

/// The return datum of each query in a receipt stream, in query order.
/// A query whose segment holds no return datum yields `None`.
pub open spec fn segment_returns_spec(s: Seq<Receipt>) -> Seq<Option<Seq<u8>>>
    decreases s.len(),
{
    if s.len() == 0 {
        Seq::empty()
    } else {
        seg_step(segment_returns_spec(s.drop_last()), s.last())
    }
}

/// Copies one data payload.
fn clone_bytes(d: &Vec<u8>) -> (r: Vec<u8>)
    ensures
        r@ == d@,
{
    let r = d.clone();
    proof {
        assert(r@ =~= d@);
    }
    r
}

/// Splits a receipt stream into per-query return data by scanning for the
/// query-boundary markers. Tolerates segments with no data and receipts
/// before the first marker.
pub fn segment_returns(receipts: &Vec<Receipt>) -> (segs: Vec<Option<Vec<u8>>>)
    ensures
        segs.deep_view() == segment_returns_spec(receipts@),
{
    let mut segs: Vec<Option<Vec<u8>>> = Vec::new();
    // Whether the most recent segment is still waiting for its datum.
    let mut open = false;
    let mut i: usize = 0;
    let n = receipts.len();
    while i < n
        invariant
            i <= n == receipts@.len(),
            segs.deep_view() == segment_returns_spec(receipts@.take(i as int)),
            open <==> (segs.deep_view().len() > 0 && segs.deep_view().last() is None),
            segs@.len() == segs.deep_view().len(),
        decreases n - i,
    {
        let ghost pre = segs.deep_view();
        proof {
            assert(receipts@.take(i as int + 1).drop_last() =~= receipts@.take(i as int));
            assert(receipts@.take(i as int + 1).last() == receipts@[i as int]);
        }
        match &receipts[i] {
            Receipt::Call => {
                segs.push(None);
                open = true;
                assert(segs.deep_view() =~= pre.push(None));
            },
            Receipt::ReturnData(d) => {
                if open {
                    let idx = segs.len() - 1;
                    let c = clone_bytes(d);
                    proof {
                        assert(c.deep_view() =~= d@);
                    }
                    segs.set(idx, Some(c));
                    open = false;
                    assert(segs.deep_view() =~= pre.update(pre.len() - 1, Some(d@)));
                } else {
                    assert(segs.deep_view() == pre);
                }
            },
            Receipt::Other(_) => {
                assert(segs.deep_view() == pre);
            },
        }
        i = i + 1;
    }
    proof {
        assert(receipts@.take(n as int) =~= receipts@);
    }
    segs
}

/// Why a snapshot could not be decoded from the receipt streams.
#[derive(Clone, Copy, Debug, PartialEq, Eq)]
pub enum DecodeError {
    /// The stream held a different number of query segments than the
    /// batch had queries.
    WrongSegmentCount,
    /// Some query's segment held no return datum.
    MissingReturnData,
    /// Some query's return datum did not have the expected shape.
    MalformedValue,
}

/// Fee and collected balance of one asset.
#[derive(Clone, Copy, Debug, PartialEq, Eq)]
pub struct AssetStatus {
    pub fee: u64,
    pub balance: u64,
}

/// One consistent snapshot of the contract's account state, built from a
/// single atomic batched read.
#[derive(Clone, Debug)]
pub struct Status {
    /// Configured authority, or none when the contract is not configured.
    pub authority: Option<Identity>,
    /// Total number of requests performed so far.
    pub num_requests: u64,
    /// Fee and balance of the network's base asset.
    pub base_asset: AssetStatus,
    /// The configured fulfillment authorities, in slot order.
    pub fulfillment_authorities: Vec<Address>,
    /// Fee and balance of the additional fee asset, present exactly when
    /// one is configured (that is, when it differs from the base asset).
    pub additional_asset: Option<(AssetId, AssetStatus)>,
}

/// A u64 query datum: exactly 8 big-endian bytes.
pub open spec fn u64_datum_ok(s: Seq<u8>) -> bool {
    s.len() == 8
}

/// A 32-byte word query datum.
pub open spec fn word_datum_ok(s: Seq<u8>) -> bool {
    s.len() == 32
}

/// An identity datum: an 8-byte variant tag (0 for an address, 1 for a
/// contract id) followed by the 32 bytes of the id.
pub open spec fn identity_datum_ok(s: Seq<u8>) -> bool {
    s.len() == 40 && be_val(s.take(8)) <= 1
}

/// Which identity a well-formed identity datum denotes.
pub open spec fn identity_matches(id: Identity, s: Seq<u8>) -> bool {
    match id {
        Identity::Address(a) => be_val(s.take(8)) == 0 && a@ == s.subrange(8, 40),
        Identity::ContractId(c) => be_val(s.take(8)) == 1 && c@ == s.subrange(8, 40),
    }
}

/// An owner-state datum: an 8-byte state tag. Tag 1 (initialized) is
/// followed by the identity of the authority; tags 0 (uninitialized) and
/// 2 (revoked) carry nothing.
pub open spec fn owner_datum_ok(s: Seq<u8>) -> bool {
    if s.len() < 8 {
        false
    } else if be_val(s.take(8)) == 1 {
        identity_datum_ok(s.skip(8))
    } else {
        (be_val(s.take(8)) == 0 || be_val(s.take(8)) == 2) && s.len() == 8
    }
}

/// Which configured authority a well-formed owner datum denotes: the
/// identity when the state is initialized, none otherwise.
pub open spec fn owner_matches(o: Option<Identity>, s: Seq<u8>) -> bool {
    match o {
        Some(id) => be_val(s.take(8)) == 1 && identity_matches(id, s.skip(8)),
        None => be_val(s.take(8)) != 1,
    }
}

/// An authority-list datum: an 8-byte element count followed by that many
/// 32-byte addresses.
pub open spec fn authorities_datum_ok(s: Seq<u8>) -> bool {
    s.len() >= 8 && s.len() == 8 + be_val(s.take(8)) * 32
}

/// Which address list a well-formed authority-list datum denotes.
pub open spec fn authorities_match(v: Seq<Address>, s: Seq<u8>) -> bool {
    &&& v.len() == be_val(s.take(8))
    &&& forall|k: int|
        0 <= k < v.len() ==> #[trigger] v[k]@ == s.subrange(8 + 32 * k, 8 + 32 * k + 32)
}

/// Decodes an identity datum.
fn decode_identity(data: &Vec<u8>, start: usize) -> (r: Result<Identity, DecodeError>)
    requires
        start <= data@.len(),
    ensures
        r is Ok <==> identity_datum_ok(data@.skip(start as int)),
        r matches Ok(id) ==> identity_matches(id, data@.skip(start as int)),
        r matches Err(e) ==> e == DecodeError::MalformedValue,
{
    let ghost s = data@.skip(start as int);
    if data.len() - start != 40 {
        return Err(DecodeError::MalformedValue);
    }
    proof {
        assert(s.take(8) =~= data@.subrange(start as int, start as int + 8));
        assert(s.subrange(8, 40) =~= data@.subrange(start as int + 8, start as int + 40));
    }
    let tag = u64_from_be_at(data, start);
    if tag == 0 {
        Ok(Identity::Address(Address { bytes: bytes32_at(data, start + 8) }))
    } else if tag == 1 {
        Ok(Identity::ContractId(ContractId { bytes: bytes32_at(data, start + 8) }))
    } else {
        Err(DecodeError::MalformedValue)
    }
}

/// Decodes an owner-state datum into the configured authority, if any.
fn decode_owner(data: &Vec<u8>) -> (r: Result<Option<Identity>, DecodeError>)
    ensures
        r is Ok <==> owner_datum_ok(data@),
        r matches Ok(o) ==> owner_matches(o, data@),
        r matches Err(e) ==> e == DecodeError::MalformedValue,
{
    if data.len() < 8 {
        return Err(DecodeError::MalformedValue);
    }
    proof {
        assert(data@.take(8) =~= data@.subrange(0, 8));
    }
    let tag = u64_from_be_at(data, 0);
    if tag == 1 {
        match decode_identity(data, 8) {
            Ok(id) => Ok(Some(id)),
            Err(e) => Err(e),
        }
    } else if tag == 0 || tag == 2 {
        if data.len() == 8 {
            Ok(None)
        } else {
            Err(DecodeError::MalformedValue)
        }
    } else {
        Err(DecodeError::MalformedValue)
    }
}

/// Decodes a u64 datum.
fn decode_u64(data: &Vec<u8>) -> (r: Result<u64, DecodeError>)
    ensures
        r is Ok <==> u64_datum_ok(data@),
        r matches Ok(v) ==> v == be_val(data@),
        r matches Err(e) ==> e == DecodeError::MalformedValue,
{
    if data.len() != 8 {
        return Err(DecodeError::MalformedValue);
    }
    proof {
        assert(data@.subrange(0, 8) =~= data@);
    }
    Ok(u64_from_be_at(data, 0))
}

/// Decodes a 32-byte word datum.
fn decode_word(data: &Vec<u8>) -> (r: Result<[u8; 32], DecodeError>)
    ensures
        r is Ok <==> word_datum_ok(data@),
        r matches Ok(w) ==> w@ == data@,
        r matches Err(e) ==> e == DecodeError::MalformedValue,
{
    if data.len() != 32 {
        return Err(DecodeError::MalformedValue);
    }
    proof {
        assert(data@.subrange(0, 32) =~= data@);
    }
    Ok(bytes32_at(data, 0))
}

/// Decodes an authority-list datum.
fn decode_authorities(data: &Vec<u8>) -> (r: Result<Vec<Address>, DecodeError>)
    ensures
        r is Ok <==> authorities_datum_ok(data@),
        r matches Ok(v) ==> authorities_match(v@, data@),
        r matches Err(e) ==> e == DecodeError::MalformedValue,
{
    let dlen = data.len();
    if dlen < 8 {
        return Err(DecodeError::MalformedValue);
    }
    proof {
        assert(data@.take(8) =~= data@.subrange(0, 8));
    }
    let count = u64_from_be_at(data, 0);
    let body = dlen - 8;
    let n_auth = body / 32;
    if (n_auth as u64) != count || body % 32 != 0 {
        proof {
            if data@.len() == 8 + be_val(data@.take(8)) * 32 {
                vstd::arithmetic::div_mod::lemma_div_by_multiple(count as int, 32);
                vstd::arithmetic::div_mod::lemma_mod_multiples_basic(count as int, 32);
            }
        }
        return Err(DecodeError::MalformedValue);
    }
    assert(dlen == 8 + count * 32) by {
        vstd::arithmetic::div_mod::lemma_fundamental_div_mod(body as int, 32);
    };
    let mut out: Vec<Address> = Vec::new();
    let mut k: usize = 0;
    while k < n_auth
        invariant
            k <= n_auth == count,
            dlen == data@.len(),
            dlen == 8 + count * 32,
            out@.len() == k,
            forall|j: int|
                0 <= j < k ==> #[trigger] out@[j]@ == data@.subrange(8 + 32 * j, 8 + 32 * j + 32),
        decreases n_auth - k,
    {
        assert(8 + 32 * (k as int) + 32 <= dlen) by {
            assert(32 * ((k as int) + 1) <= 32 * (count as int)) by (nonlinear_arith)
                requires
                    (k as int) + 1 <= count as int,
            ;
        };
        let addr = Address { bytes: bytes32_at(data, 8 + 32 * k) };
        out.push(addr);
        k = k + 1;
    }
    Ok(out)
}

/// Everything the six-query main batch yields: the snapshot fields that
/// do not depend on an additional asset, plus the configured fee asset
/// itself (equal to the base asset when none is configured).
#[derive(Clone, Debug, PartialEq, Eq)]
pub struct BaseSnapshot {
    pub authority: Option<Identity>,
    pub num_requests: u64,
    pub base_asset: AssetStatus,
    pub fulfillment_authorities: Vec<Address>,
    /// The configured fee asset as the contract reports it.
    pub asset: AssetId,
}

/// Whether the six per-query return data of the main batch are all
/// present and well formed.
pub open spec fn base_segments_ok(segs: Seq<Option<Seq<u8>>>) -> bool {
    &&& segs.len() == 6
    &&& segs[0] matches Some(s) && owner_datum_ok(s)
    &&& segs[1] matches Some(s) && u64_datum_ok(s)
    &&& segs[2] matches Some(s) && u64_datum_ok(s)
    &&& segs[3] matches Some(s) && word_datum_ok(s)
    &&& segs[4] matches Some(s) && authorities_datum_ok(s)
    &&& segs[5] matches Some(s) && u64_datum_ok(s)
}

/// Which base snapshot well-formed main-batch data denote.
pub open spec fn base_snapshot_matches(b: BaseSnapshot, segs: Seq<Option<Seq<u8>>>) -> bool {
    &&& owner_matches(b.authority, segs[0]->0)
    &&& b.base_asset.balance == be_val(segs[1]->0)
    &&& b.base_asset.fee == be_val(segs[2]->0)
    &&& b.asset@ == segs[3]->0
    &&& authorities_match(b.fulfillment_authorities@, segs[4]->0)
    &&& b.num_requests == be_val(segs[5]->0)
}

/// Decodes the receipt stream of the main status batch: six read-only
/// queries (owner, base-asset balance, base-asset fee, configured asset,
/// fulfillment authorities, request count) issued as one atomic call.
pub fn decode_base_snapshot(receipts: &Vec<Receipt>) -> (r: Result<BaseSnapshot, DecodeError>)
    ensures
        r is Ok <==> base_segments_ok(segment_returns_spec(receipts@)),
        r matches Ok(b) ==> base_snapshot_matches(b, segment_returns_spec(receipts@)),
        r matches Err(DecodeError::WrongSegmentCount) <==> segment_returns_spec(
            receipts@,
        ).len() != 6,
        r matches Err(DecodeError::MissingReturnData) <==> (segment_returns_spec(
            receipts@,
        ).len() == 6 && exists|i: int|
            0 <= i < 6 && segment_returns_spec(receipts@)[i] is None),
{
    let ghost gsegs = segment_returns_spec(receipts@);
    let segs = segment_returns(receipts);
    if segs.len() != 6 {
        return Err(DecodeError::WrongSegmentCount);
    }
    if segs[0].is_none() || segs[1].is_none() || segs[2].is_none() || segs[3].is_none()
        || segs[4].is_none() || segs[5].is_none() {
        return Err(DecodeError::MissingReturnData);
    }
    proof {
        assert(forall|i: int| 0 <= i < 6 ==> gsegs[i] is Some) by {
            assert(gsegs[0] is Some);
            assert(gsegs[1] is Some);
            assert(gsegs[2] is Some);
            assert(gsegs[3] is Some);
            assert(gsegs[4] is Some);
            assert(gsegs[5] is Some);
        }
        assert((segs@[0]->0).deep_view() =~= (segs@[0]->0)@);
        assert((segs@[1]->0).deep_view() =~= (segs@[1]->0)@);
        assert((segs@[2]->0).deep_view() =~= (segs@[2]->0)@);
        assert((segs@[3]->0).deep_view() =~= (segs@[3]->0)@);
        assert((segs@[4]->0).deep_view() =~= (segs@[4]->0)@);
        assert((segs@[5]->0).deep_view() =~= (segs@[5]->0)@);
    }
    let owner_data = segs[0].as_ref().unwrap();
    let balance_data = segs[1].as_ref().unwrap();
    let fee_data = segs[2].as_ref().unwrap();
    let asset_data = segs[3].as_ref().unwrap();
    let auth_data = segs[4].as_ref().unwrap();
    let count_data = segs[5].as_ref().unwrap();
    let authority = match decode_owner(owner_data) {
        Ok(o) => o,
        Err(e) => {
            return Err(e);
        },
    };
    let balance = match decode_u64(balance_data) {
        Ok(v) => v,
        Err(e) => {
            return Err(e);
        },
    };
    let fee = match decode_u64(fee_data) {
        Ok(v) => v,
        Err(e) => {
            return Err(e);
        },
    };
    let asset_word = match decode_word(asset_data) {
        Ok(w) => w,
        Err(e) => {
            return Err(e);
        },
    };
    let fulfillment_authorities = match decode_authorities(auth_data) {
        Ok(v) => v,
        Err(e) => {
            return Err(e);
        },
    };
    let num_requests = match decode_u64(count_data) {
        Ok(v) => v,
        Err(e) => {
            return Err(e);
        },
    };
    Ok(
        BaseSnapshot {
            authority,
            num_requests,
            base_asset: AssetStatus { fee, balance },
            fulfillment_authorities,
            asset: AssetId { bytes: asset_word },
        },
    )
}

/// Whether the two per-query return data of the additional-asset batch
/// are present and well formed.
pub open spec fn asset_segments_ok(segs: Seq<Option<Seq<u8>>>) -> bool {
    &&& segs.len() == 2
    &&& segs[0] matches Some(s) && u64_datum_ok(s)
    &&& segs[1] matches Some(s) && u64_datum_ok(s)
}

/// Decodes the receipt stream of the additional-asset batch: balance then
/// fee of the configured asset, issued as one atomic two-query call.
pub fn decode_asset_batch(receipts: &Vec<Receipt>) -> (r: Result<AssetStatus, DecodeError>)
    ensures
        r is Ok <==> asset_segments_ok(segment_returns_spec(receipts@)),
        r matches Ok(a) ==> a.balance == be_val(segment_returns_spec(receipts@)[0]->0)
            && a.fee == be_val(segment_returns_spec(receipts@)[1]->0),
        r matches Err(DecodeError::WrongSegmentCount) <==> segment_returns_spec(
            receipts@,
        ).len() != 2,
        r matches Err(DecodeError::MissingReturnData) <==> (segment_returns_spec(
            receipts@,
        ).len() == 2 && exists|i: int|
            0 <= i < 2 && segment_returns_spec(receipts@)[i] is None),
{
    let segs = segment_returns(receipts);
    if segs.len() != 2 {
        return Err(DecodeError::WrongSegmentCount);
    }
    if segs[0].is_none() || segs[1].is_none() {
        return Err(DecodeError::MissingReturnData);
    }
    proof {
        assert((segs@[0]->0).deep_view() =~= (segs@[0]->0)@);
        assert((segs@[1]->0).deep_view() =~= (segs@[1]->0)@);
    }
    let balance = match decode_u64(segs[0].as_ref().unwrap()) {
        Ok(v) => v,
        Err(e) => {
            return Err(e);
        },
    };
    let fee = match decode_u64(segs[1].as_ref().unwrap()) {
        Ok(v) => v,
        Err(e) => {
            return Err(e);
        },
    };
    Ok(AssetStatus { fee, balance })
}

impl BaseSnapshot {
    /// Whether a second batch for the additional asset is needed: exactly
    /// when the configured fee asset differs from the base asset. When
    /// the two are equal there is no additional asset to report.
    pub fn needs_secondary_query(&self, base_asset: &AssetId) -> (r: bool)
        ensures
            r <==> self.asset@ != base_asset@,
    {
        !bytes32_eq(&self.asset.bytes, &base_asset.bytes)
    }
}

/// Assembles the snapshot from the decoded main batch and, exactly when
/// the configured asset differs from the base asset, the decoded
/// additional-asset batch. An additional asset equal to the base asset is
/// never reported: the optional field is then absent, not a duplicate.
pub fn assemble_status(base: BaseSnapshot, base_asset: &AssetId, secondary: Option<AssetStatus>)
    -> (st: Status)
    requires
        secondary is Some <==> base.asset@ != base_asset@,
    ensures
        st.authority == base.authority,
        st.num_requests == base.num_requests,
        st.base_asset == base.base_asset,
        st.fulfillment_authorities == base.fulfillment_authorities,
        base.asset@ == base_asset@ ==> st.additional_asset is None,
        base.asset@ != base_asset@ ==> st.additional_asset == Some(
            (base.asset, secondary->0),
        ),
{
    let additional_asset = match secondary {
        Some(a) => Some((base.asset, a)),
        None => None,
    };
    Status {
        authority: base.authority,
        num_requests: base.num_requests,
        base_asset: base.base_asset,
        fulfillment_authorities: base.fulfillment_authorities,
        additional_asset,
    }
}

} // verus!
