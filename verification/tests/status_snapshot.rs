use fuel_vrf::status::{
    assemble_status, decode_asset_batch, decode_base_snapshot, segment_returns, AssetStatus,
    DecodeError, Receipt,
};
use fuel_vrf::types::{Address, AssetId, Identity};

fn be8(v: u64) -> Vec<u8> {
    v.to_be_bytes().to_vec()
}

fn owner_initialized(addr: [u8; 32]) -> Vec<u8> {
    let mut d = be8(1);
    d.extend_from_slice(&be8(0));
    d.extend_from_slice(&addr);
    d
}

fn owner_uninitialized() -> Vec<u8> {
    be8(0)
}

fn authorities(list: &[[u8; 32]]) -> Vec<u8> {
    let mut d = be8(list.len() as u64);
    for a in list {
        d.extend_from_slice(a);
    }
    d
}

/// The six-query main batch as one receipt stream, one marker per query.
fn main_batch(
    owner: Vec<u8>,
    balance: u64,
    fee: u64,
    asset: [u8; 32],
    auth: Vec<u8>,
    count: u64,
) -> Vec<Receipt> {
    vec![
        Receipt::Other(vec![1, 2, 3]),
        Receipt::Call,
        Receipt::ReturnData(owner),
        Receipt::Call,
        Receipt::Other(vec![]),
        Receipt::ReturnData(be8(balance)),
        Receipt::Call,
        Receipt::ReturnData(be8(fee)),
        Receipt::Call,
        Receipt::ReturnData(asset.to_vec()),
        Receipt::Call,
        Receipt::ReturnData(auth),
        Receipt::Call,
        Receipt::ReturnData(be8(count)),
    ]
}

#[test]
fn segmentation_splits_at_markers() {
    let receipts = vec![
        Receipt::Other(vec![9]),
        Receipt::Call,
        Receipt::ReturnData(vec![1]),
        Receipt::Call,
        Receipt::Call,
        Receipt::ReturnData(vec![2]),
        Receipt::ReturnData(vec![3]),
    ];
    let segs = segment_returns(&receipts);
    // Three markers: one segment with data, one empty, one where only the
    // first return datum counts.
    assert_eq!(segs, vec![Some(vec![1]), None, Some(vec![2])]);
}

#[test]
fn segmentation_of_empty_stream() {
    let segs = segment_returns(&Vec::new());
    assert!(segs.is_empty());
}

#[test]
fn main_batch_decodes_into_snapshot() {
    let auth_a = [5u8; 32];
    let auth_b = [6u8; 32];
    let receipts = main_batch(
        owner_initialized([7u8; 32]),
        900,
        50,
        [0u8; 32],
        authorities(&[auth_a, auth_b]),
        12,
    );
    let snap = decode_base_snapshot(&receipts).unwrap();
    assert_eq!(
        snap.authority,
        Some(Identity::Address(Address { bytes: [7u8; 32] }))
    );
    assert_eq!(snap.base_asset, AssetStatus { fee: 50, balance: 900 });
    assert_eq!(snap.asset, AssetId { bytes: [0u8; 32] });
    assert_eq!(
        snap.fulfillment_authorities,
        vec![Address { bytes: auth_a }, Address { bytes: auth_b }]
    );
    assert_eq!(snap.num_requests, 12);
}

#[test]
fn unconfigured_owner_decodes_to_none() {
    let receipts = main_batch(owner_uninitialized(), 0, 0, [0u8; 32], authorities(&[]), 0);
    let snap = decode_base_snapshot(&receipts).unwrap();
    assert_eq!(snap.authority, None);
    assert!(snap.fulfillment_authorities.is_empty());
}

#[test]
fn secondary_asset_absent_when_equal_to_base() {
    let base = AssetId { bytes: [0u8; 32] };
    let receipts = main_batch(owner_uninitialized(), 1, 2, [0u8; 32], authorities(&[]), 3);
    let snap = decode_base_snapshot(&receipts).unwrap();
    assert!(!snap.needs_secondary_query(&base));
    let status = assemble_status(snap, &base, None);
    assert_eq!(status.additional_asset, None);
}

#[test]
fn secondary_asset_present_with_its_own_fee() {
    let base = AssetId { bytes: [0u8; 32] };
    let other = [2u8; 32];
    let receipts = main_batch(owner_uninitialized(), 1, 2, other, authorities(&[]), 3);
    let snap = decode_base_snapshot(&receipts).unwrap();
    assert!(snap.needs_secondary_query(&base));
    // The two-query batch for the secondary asset: balance, then fee.
    let secondary_receipts = vec![
        Receipt::Call,
        Receipt::ReturnData(be8(777)),
        Receipt::Call,
        Receipt::ReturnData(be8(33)),
    ];
    let secondary = decode_asset_batch(&secondary_receipts).unwrap();
    assert_eq!(secondary, AssetStatus { fee: 33, balance: 777 });
    let status = assemble_status(snap, &base, Some(secondary));
    // The optional field is present and its fee comes from the secondary
    // asset's own batch, not the base asset's.
    let (asset, st) = status.additional_asset.unwrap();
    assert_eq!(asset, AssetId { bytes: other });
    assert_eq!(st.fee, 33);
    assert_eq!(st.balance, 777);
    assert_eq!(status.base_asset.fee, 2);
}

#[test]
fn wrong_segment_count_aborts_snapshot() {
    let receipts = vec![Receipt::Call, Receipt::ReturnData(be8(1))];
    assert_eq!(
        decode_base_snapshot(&receipts),
        Err(DecodeError::WrongSegmentCount)
    );
    assert_eq!(
        decode_asset_batch(&receipts),
        Err(DecodeError::WrongSegmentCount)
    );
}

#[test]
fn missing_return_data_aborts_snapshot() {
    // Six markers but the second query produced no return datum.
    let receipts = vec![
        Receipt::Call,
        Receipt::ReturnData(owner_uninitialized()),
        Receipt::Call,
        Receipt::Call,
        Receipt::ReturnData(be8(2)),
        Receipt::Call,
        Receipt::ReturnData([0u8; 32].to_vec()),
        Receipt::Call,
        Receipt::ReturnData(authorities(&[])),
        Receipt::Call,
        Receipt::ReturnData(be8(3)),
    ];
    assert_eq!(
        decode_base_snapshot(&receipts),
        Err(DecodeError::MissingReturnData)
    );
}

#[test]
fn malformed_values_abort_snapshot() {
    // Balance datum of seven bytes instead of eight.
    let mut receipts = main_batch(owner_uninitialized(), 1, 2, [0u8; 32], authorities(&[]), 3);
    receipts[5] = Receipt::ReturnData(vec![0u8; 7]);
    assert_eq!(
        decode_base_snapshot(&receipts),
        Err(DecodeError::MalformedValue)
    );
    // Owner state tag out of range.
    let mut receipts = main_batch(owner_uninitialized(), 1, 2, [0u8; 32], authorities(&[]), 3);
    receipts[2] = Receipt::ReturnData(be8(9));
    assert_eq!(
        decode_base_snapshot(&receipts),
        Err(DecodeError::MalformedValue)
    );
    // Authority list whose length does not match its count.
    let mut receipts = main_batch(owner_uninitialized(), 1, 2, [0u8; 32], authorities(&[]), 3);
    let mut bad = be8(2);
    bad.extend_from_slice(&[5u8; 32]);
    receipts[11] = Receipt::ReturnData(bad);
    assert_eq!(
        decode_base_snapshot(&receipts),
        Err(DecodeError::MalformedValue)
    );
}

#[test]
fn first_return_datum_of_a_segment_wins() {
    let receipts = vec![Receipt::Call, Receipt::ReturnData(be8(5)), Receipt::ReturnData(be8(9))];
    let segs = segment_returns(&receipts);
    assert_eq!(segs, vec![Some(be8(5))]);
}

#[test]
fn contract_owner_can_be_a_contract() {
    let mut owner = be8(1);
    owner.extend_from_slice(&be8(1));
    owner.extend_from_slice(&[8u8; 32]);
    let receipts = main_batch(owner, 1, 2, [0u8; 32], authorities(&[]), 3);
    let snap = decode_base_snapshot(&receipts).unwrap();
    assert_eq!(
        snap.authority,
        Some(Identity::ContractId(fuel_vrf::types::ContractId { bytes: [8u8; 32] }))
    );
}
