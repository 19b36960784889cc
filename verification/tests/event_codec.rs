use fuel_vrf::events::{
    decode_event, decode_events, encode_callback, encode_event, encode_fulfill, encode_request,
    encode_reset, encode_response, Callback, Event, Fulfill, Request, Reset, Response,
};
use fuel_vrf::text::{dec_str, derivation_path, hex_str};
use fuel_vrf::types::{
    randomness_to_bytes64, signature_to_parts, Address, Bits256, ContractError, ContractId,
    FulfillersKeys, Identity, Vrf, B512, MAX_AUTHORITIES,
};

fn seed(b: u8) -> Bits256 {
    Bits256 { bytes: [b; 32] }
}

fn sixty_four_distinct_bytes() -> B512 {
    let mut first = [0u8; 32];
    let mut second = [0u8; 32];
    for i in 0..32 {
        first[i] = i as u8;
        second[i] = 32 + i as u8;
    }
    B512 { first: Bits256 { bytes: first }, second: Bits256 { bytes: second } }
}

#[test]
fn request_entry_wire_form() {
    let r = Request {
        no: 5,
        seed: seed(7),
        client: Identity::Address(Address { bytes: [9u8; 32] }),
    };
    let entry = encode_request(&r);
    let mut expected = 0u64.to_be_bytes().to_vec();
    expected.extend_from_slice(&5u64.to_be_bytes());
    expected.extend_from_slice(&[7u8; 32]);
    expected.extend_from_slice(&0u64.to_be_bytes());
    expected.extend_from_slice(&[9u8; 32]);
    assert_eq!(entry, expected);
}

#[test]
fn every_variant_round_trips() {
    let events = vec![
        Event::Request(Request {
            no: 123,
            seed: seed(1),
            client: Identity::ContractId(ContractId { bytes: [2u8; 32] }),
        }),
        Event::Response(Response {
            seed: seed(3),
            authority: Address { bytes: [4u8; 32] },
            randomness: sixty_four_distinct_bytes(),
        }),
        Event::Fulfill(Fulfill { seed: seed(5), randomness: sixty_four_distinct_bytes() }),
        Event::Reset(Reset { seed: seed(6) }),
        Event::Callback(Callback {
            seed: seed(7),
            randomness: sixty_four_distinct_bytes(),
            client: ContractId { bytes: [8u8; 32] },
        }),
    ];
    for e in events {
        let entry = encode_event(&e);
        assert_eq!(decode_event(&entry), Some(e));
    }
}

#[test]
fn request_then_fulfill_with_interleaved_junk() {
    let s = seed(0xaa);
    let req = Request { no: 1, seed: s, client: Identity::Address(Address { bytes: [1u8; 32] }) };
    let ful = Fulfill { seed: s, randomness: sixty_four_distinct_bytes() };
    // An entry that matches no known schema: unknown tag.
    let junk = 99u64.to_be_bytes().to_vec();
    let entries = vec![encode_request(&req), junk, encode_fulfill(&ful)];
    let events = decode_events(&entries);
    // Two recognized events, in the original order, both with the seed.
    assert_eq!(events.len(), 2);
    assert!(matches!(events[0], Event::Request(_)));
    assert!(matches!(events[1], Event::Fulfill(_)));
    assert_eq!(events[0].seed(), &s);
    assert_eq!(events[1].seed(), &s);
}

#[test]
fn randomness_survives_the_codec_bit_for_bit() {
    let original = sixty_four_distinct_bytes();
    let s = seed(0x55);
    let req = Request { no: 2, seed: s, client: Identity::Address(Address { bytes: [0u8; 32] }) };
    let ful = Fulfill { seed: s, randomness: original };
    let entries = vec![encode_request(&req), encode_fulfill(&ful)];
    let events = decode_events(&entries);
    assert_eq!(events.len(), 2);
    let decoded = match events[1] {
        Event::Fulfill(f) => f,
        _ => panic!("second event must be the fulfillment"),
    };
    assert_eq!(
        randomness_to_bytes64(&decoded.randomness).to_vec(),
        randomness_to_bytes64(&original).to_vec()
    );
}

#[test]
fn unknown_and_short_entries_are_skipped() {
    let entries = vec![
        vec![],
        vec![1, 2, 3],
        9u64.to_be_bytes().to_vec(),
        // Known tag but wrong width.
        {
            let mut e = 3u64.to_be_bytes().to_vec();
            e.extend_from_slice(&[0u8; 31]);
            e
        },
        encode_reset(&Reset { seed: seed(0x11) }),
    ];
    let events = decode_events(&entries);
    assert_eq!(events.len(), 1);
    assert_eq!(events[0], Event::Reset(Reset { seed: seed(0x11) }));
}

#[test]
fn response_entry_round_trips() {
    let r = Response {
        seed: seed(0x42),
        authority: Address { bytes: [0x99; 32] },
        randomness: sixty_four_distinct_bytes(),
    };
    let decoded = decode_event(&encode_response(&r));
    assert_eq!(decoded, Some(Event::Response(r)));
}

#[test]
fn callback_entry_round_trips() {
    let c = Callback {
        seed: seed(0x21),
        randomness: sixty_four_distinct_bytes(),
        client: ContractId { bytes: [0x77; 32] },
    };
    let decoded = decode_event(&encode_callback(&c));
    assert_eq!(decoded, Some(Event::Callback(c)));
}

#[test]
fn reset_rendering_names_the_seed() {
    let r = Reset { seed: seed(0xab) };
    assert_eq!(r.render(), format!("Reset: seed={}", "ab".repeat(32)));
    assert_eq!(
        Event::Reset(r).render(),
        format!("Event: Reset: seed={}", "ab".repeat(32))
    );
}

#[test]
fn request_rendering_names_all_fields() {
    let r = Request {
        no: 12345,
        seed: seed(0x01),
        client: Identity::Address(Address { bytes: [0x02; 32] }),
    };
    assert_eq!(
        r.render(),
        format!(
            "Request: no=12345, seed={}, client={}",
            "01".repeat(32),
            "02".repeat(32)
        )
    );
}

#[test]
fn fulfill_rendering_names_all_fields() {
    let f = Fulfill { seed: seed(0x0f), randomness: sixty_four_distinct_bytes() };
    let hex64: String =
        (0u8..64).map(|b| format!("{:02x}", b)).collect::<Vec<_>>().join("");
    assert_eq!(
        f.render(),
        format!("Fulfill: seed={}, randomness={}", "0f".repeat(32), hex64)
    );
}

#[test]
fn hex_and_decimal_renderings() {
    assert_eq!(hex_str(&[]), "");
    assert_eq!(hex_str(&[0x00, 0x0a, 0xff]), "000aff");
    assert_eq!(dec_str(0), "0");
    assert_eq!(dec_str(10), "10");
    assert_eq!(dec_str(18_446_744_073_709_551_615), "18446744073709551615");
}

#[test]
fn derivation_path_is_keyed_by_account_index() {
    assert_eq!(derivation_path(0), "m/44'/1179993420'/0'/0/0");
    assert_eq!(derivation_path(42), "m/44'/1179993420'/42'/0/0");
}

#[test]
fn fulfillers_keys_stop_at_first_zero_slot() {
    let zero = Address { bytes: [0u8; 32] };
    let a = Address { bytes: [1u8; 32] };
    let b = Address { bytes: [2u8; 32] };
    let mut keys = [zero; MAX_AUTHORITIES];
    keys[0] = a;
    keys[1] = b;
    // A zero entry hides everything after it.
    keys[3] = a;
    let fk = FulfillersKeys { keys };
    assert!(!fk.is_empty());
    assert_eq!(fk.iter(), vec![a, b]);
    let empty = FulfillersKeys { keys: [zero; MAX_AUTHORITIES] };
    assert!(empty.is_empty());
    assert!(empty.iter().is_empty());
    // All slots used: the full array comes back.
    let full = FulfillersKeys { keys: [b; MAX_AUTHORITIES] };
    assert_eq!(full.iter().len(), MAX_AUTHORITIES);
}

#[test]
fn randomness_bytes_concatenate_the_words() {
    let r = sixty_four_distinct_bytes();
    let bytes = randomness_to_bytes64(&r);
    for i in 0..64 {
        assert_eq!(bytes[i], i as u8);
    }
}

#[test]
fn signature_splits_into_halves() {
    let mut sig = [0u8; 64];
    for i in 0..64 {
        sig[i] = (100 + i) as u8;
    }
    let (fst, snd) = signature_to_parts(&sig);
    assert_eq!(fst.bytes[0], 100);
    assert_eq!(fst.bytes[31], 131);
    assert_eq!(snd.bytes[0], 132);
    assert_eq!(snd.bytes[31], 163);
}

#[test]
fn contract_ids_include_the_proxy_target() {
    let id = ContractId { bytes: [1u8; 32] };
    let target = ContractId { bytes: [2u8; 32] };
    let plain = Vrf::new(id, None);
    assert_eq!(plain.contract_ids(), vec![id]);
    let proxied = Vrf::new(id, Some(target));
    assert_eq!(proxied.contract_ids(), vec![id, target]);
}

#[test]
fn contract_error_messages() {
    assert_eq!(
        ContractError::AssetNotConfigured.message(),
        "the asset is not configured"
    );
    assert_eq!(ContractError::SeedInUse.message(), "seed is in use");
    assert_eq!(ContractError::ZeroFee.message(), "zero fee is not allowed");
    assert_eq!(ContractError::Fulfilled.message(), "request is fulfilled");
    assert_eq!(ContractError::UnFulfilled.message(), "request is unfulfilled");
}
