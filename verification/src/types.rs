//! Plain data model shared by the driver, the status aggregator and the
//! event codec. On-chain values (addresses, asset ids, seeds, randomness)
//! are held as fixed-size byte arrays so that every function reading them
//! can be verified.

use vstd::prelude::*;

verus! {

/// 32-byte word: a request seed or any raw 256-bit on-chain value.
#[derive(Clone, Copy, Debug, PartialEq, Eq)]
pub struct Bits256 {
    pub bytes: [u8; 32],
}

impl View for Bits256 {
    type V = Seq<u8>;

    open spec fn view(&self) -> Seq<u8> {
        self.bytes@
    }
}

/// 32-byte account address.
#[derive(Clone, Copy, Debug, PartialEq, Eq)]
pub struct Address {
    pub bytes: [u8; 32],
}

impl View for Address {
    type V = Seq<u8>;

    open spec fn view(&self) -> Seq<u8> {
        self.bytes@
    }
}

/// 32-byte contract id.
#[derive(Clone, Copy, Debug, PartialEq, Eq)]
pub struct ContractId {
    pub bytes: [u8; 32],
}

impl View for ContractId {
    type V = Seq<u8>;

    open spec fn view(&self) -> Seq<u8> {
        self.bytes@
    }
}

/// 32-byte asset id; fees and balances are accounted per asset.
#[derive(Clone, Copy, Debug, PartialEq, Eq)]
pub struct AssetId {
    pub bytes: [u8; 32],
}

impl View for AssetId {
    type V = Seq<u8>;

    open spec fn view(&self) -> Seq<u8> {
        self.bytes@
    }
}

/// Compares two 32-byte arrays for equality.
pub fn bytes32_eq(a: &[u8; 32], b: &[u8; 32]) -> (r: bool)
    ensures
        r <==> a@ == b@,
{
    let mut i: usize = 0;
    while i < 32
        invariant
            i <= 32,
            forall|j: int| 0 <= j < i ==> a@[j] == b@[j],
        decreases 32 - i,
    {
        if a[i] != b[i] {
            return false;
        }
        i = i + 1;
    }
    assert(a@ =~= b@);
    true
}

/// Aggregated 512-bit randomness as it is delivered on-chain: two
/// 256-bit words.
#[derive(Clone, Copy, Debug, PartialEq, Eq)]
pub struct B512 {
    pub first: Bits256,
    pub second: Bits256,
}

impl B512 {
    /// The 64 bytes of the value, first word then second.
    pub open spec fn bytes(&self) -> Seq<u8> {
        self.first@ + self.second@
    }
}

/// Concatenates the two words of a 512-bit randomness value into the
/// canonical 64-byte form.
pub fn randomness_to_bytes64(randomness: &B512) -> (out: [u8; 64])
    ensures
        out@ == randomness.bytes(),
{
    let mut out = [0u8; 64];
    let mut i: usize = 0;
    while i < 32
        invariant
            i <= 32,
            out@.len() == 64,
            forall|j: int| 0 <= j < i ==> out@[j] == randomness.first@[j],
        decreases 32 - i,
    {
        out[i] = randomness.first.bytes[i];
        i = i + 1;
    }
    let mut k: usize = 0;
    while k < 32
        invariant
            k <= 32,
            out@.len() == 64,
            forall|j: int| 0 <= j < 32 ==> out@[j] == randomness.first@[j],
            forall|j: int| 0 <= j < k ==> out@[32 + j] == randomness.second@[j],
        decreases 32 - k,
    {
        out[32 + k] = randomness.second.bytes[k];
        k = k + 1;
    }
    assert(out@ =~= randomness.first@ + randomness.second@);
    out
}

/// An identity on chain: a plain account address or a contract id.
#[derive(Clone, Copy, Debug, PartialEq, Eq)]
pub enum Identity {
    Address(Address),
    ContractId(ContractId),
}

/// The view of a 32-byte zero value, used as the "slot unused" sentinel
/// in the on-chain fulfillment-authority array.
pub open spec fn zero32() -> Seq<u8> {
    Seq::new(32, |i: int| 0u8)
}

/// Tests whether an address is the all-zero sentinel.
pub fn is_zero_address(a: &Address) -> (r: bool)
    ensures
        r <==> a@ == zero32(),
{
    let mut i: usize = 0;
    while i < 32
        invariant
            i <= 32,
            forall|j: int| 0 <= j < i ==> a@[j] == 0u8,
        decreases 32 - i,
    {
        if a.bytes[i] != 0 {
            assert(a@ != zero32()) by {
                assert(a@[i as int] != zero32()[i as int]);
            }
            return false;
        }
        i = i + 1;
    }
    assert(a@ =~= zero32());
    true
}

/// Upper bound on the number of fulfillment authorities the contract keeps.
pub const MAX_AUTHORITIES: usize = 10;

/// The on-chain fulfillment-authority array: a fixed-size block in which
/// an all-zero address marks an unused slot. The used entries are the
/// longest prefix of non-zero addresses.
#[derive(Clone, Copy, Debug, PartialEq, Eq)]
pub struct FulfillersKeys {
    pub keys: [Address; MAX_AUTHORITIES],
}

/// The used entries of a fulfillment-authority array: everything before
/// the first all-zero slot.
pub open spec fn active_prefix(s: Seq<Address>) -> Seq<Address>
    decreases s.len(),
{
    if s.len() == 0 {
        s
    } else if s[0]@ == zero32() {
        Seq::empty()
    } else {
        seq![s[0]] + active_prefix(s.drop_first())
    }
}

/// If the first `k` entries are non-zero and entry `k` (when present) is
/// zero, the used entries are exactly the first `k`.
pub proof fn lemma_active_prefix_take(s: Seq<Address>, k: int)
    requires
        0 <= k <= s.len(),
        forall|j: int| 0 <= j < k ==> s[j]@ != zero32(),
        k < s.len() ==> s[k]@ == zero32(),
    ensures
        active_prefix(s) == s.take(k),
    decreases s.len(),
{
    if s.len() == 0 {
        assert(active_prefix(s) =~= s.take(k));
    } else if s[0]@ == zero32() {
        assert(active_prefix(s) =~= s.take(k));
    } else {
        lemma_active_prefix_take(s.drop_first(), k - 1);
        assert(s.take(k) =~= seq![s[0]] + s.drop_first().take(k - 1));
    }
}

impl FulfillersKeys {
    /// True when no slot is used, that is when the first slot already
    /// holds the zero sentinel.
    pub fn is_empty(&self) -> (r: bool)
        ensures
            r <==> self.keys@[0]@ == zero32(),
    {
        is_zero_address(&self.keys[0])
    }

    /// The used entries, in slot order: the prefix before the first
    /// all-zero slot.
    pub fn iter(&self) -> (out: Vec<Address>)
        ensures
            out@ == active_prefix(self.keys@),
    {
        let mut out: Vec<Address> = Vec::new();
        let mut i: usize = 0;
        while i < MAX_AUTHORITIES
            invariant
                i <= MAX_AUTHORITIES,
                forall|j: int| 0 <= j < i ==> self.keys@[j]@ != zero32(),
                out@ == self.keys@.take(i as int),
            decreases MAX_AUTHORITIES - i,
        {
            if is_zero_address(&self.keys[i]) {
                proof {
                    lemma_active_prefix_take(self.keys@, i as int);
                }
                return out;
            }
            out.push(self.keys[i]);
            assert(out@ =~= self.keys@.take(i as int + 1));
            i = i + 1;
        }
        proof {
            lemma_active_prefix_take(self.keys@, MAX_AUTHORITIES as int);
        }
        out
    }
}

/// A request in the `Fulfilled` state: the aggregated 64-byte randomness
/// and the authorities that contributed to it.
#[derive(Clone, Copy, Debug, PartialEq, Eq)]
pub struct Fulfilled {
    pub randomness: B512,
    pub keys: FulfillersKeys,
}

/// State of one randomness request: below threshold, or fulfilled. Once
/// fulfilled a request never reverts.
#[derive(Clone, Copy, Debug, PartialEq, Eq)]
pub enum RandomnessState {
    Unfulfilled,
    Fulfilled(Fulfilled),
}

/// One randomness request as the contract stores it.
#[derive(Clone, Copy, Debug, PartialEq, Eq)]
pub struct Randomness {
    /// Sequence number assigned by the chain, monotonically increasing.
    pub no: u64,
    /// Caller-supplied 32-byte correlation seed.
    pub seed: Bits256,
    /// Who requested the randomness.
    pub client: Identity,
    /// Current request state.
    pub state: RandomnessState,
}

/// Errors the VRF contract itself can return from a call.
#[derive(Clone, Copy, Debug, PartialEq, Eq)]
pub enum ContractError {
    ContractNotConfigured,
    AssetNotConfigured,
    NotAuthorized,
    RemainingAssets,
    NonZeroFee,
    ZeroAuthority,
    ZeroFee,
    NoFeePaid,
    WrongFeePaid,
    SeedInUse,
    NoAmountSpecified,
    NotEnoughFunds,
    UnknownRequest,
    InvalidResponse,
    Responded,
    Fulfilled,
    UnFulfilled,
}

impl ContractError {
    /// The canonical one-line description of each contract error.
    pub open spec fn spec_message(&self) -> Seq<char> {
        match self {
            ContractError::ContractNotConfigured => "contract is not configured"@,
            ContractError::AssetNotConfigured => "the asset is not configured"@,
            ContractError::NotAuthorized => "not authorized"@,
            ContractError::RemainingAssets => "withdraw asset fees before changing the asset"@,
            ContractError::NonZeroFee => "set fee to 0 when disabling the asset"@,
            ContractError::ZeroAuthority => "zero authority is not allowed"@,
            ContractError::ZeroFee => "zero fee is not allowed"@,
            ContractError::NoFeePaid => "client must pay the fee"@,
            ContractError::WrongFeePaid => "client must pay the correct fee"@,
            ContractError::SeedInUse => "seed is in use"@,
            ContractError::NoAmountSpecified => "you should specify an amount"@,
            ContractError::NotEnoughFunds => "not enough funds to withdraw"@,
            ContractError::UnknownRequest => "request seed is unknown"@,
            ContractError::InvalidResponse => "randomness response is invalid"@,
            ContractError::Responded => "an authority is already responded"@,
            ContractError::Fulfilled => "request is fulfilled"@,
            ContractError::UnFulfilled => "request is unfulfilled"@,
        }
    }

    /// Human-readable description of the error.
    pub fn message(&self) -> (msg: &'static str)
        ensures
            msg@ == self.spec_message(),
    {
        match self {
            ContractError::ContractNotConfigured => "contract is not configured",
            ContractError::AssetNotConfigured => "the asset is not configured",
            ContractError::NotAuthorized => "not authorized",
            ContractError::RemainingAssets => "withdraw asset fees before changing the asset",
            ContractError::NonZeroFee => "set fee to 0 when disabling the asset",
            ContractError::ZeroAuthority => "zero authority is not allowed",
            ContractError::ZeroFee => "zero fee is not allowed",
            ContractError::NoFeePaid => "client must pay the fee",
            ContractError::WrongFeePaid => "client must pay the correct fee",
            ContractError::SeedInUse => "seed is in use",
            ContractError::NoAmountSpecified => "you should specify an amount",
            ContractError::NotEnoughFunds => "not enough funds to withdraw",
            ContractError::UnknownRequest => "request seed is unknown",
            ContractError::InvalidResponse => "randomness response is invalid",
            ContractError::Responded => "an authority is already responded",
            ContractError::Fulfilled => "request is fulfilled",
            ContractError::UnFulfilled => "request is unfulfilled",
        }
    }
}

/// Client-side handle of one VRF deployment: the published contract id
/// and, when the deployment sits behind a proxy, the resolved target id.
#[derive(Clone, Copy, Debug, PartialEq, Eq)]
pub struct Vrf {
    pub contract_id: ContractId,
    pub target_contract_id: Option<ContractId>,
}

impl Vrf {
    /// Builds the handle from the published id and the proxy target the
    /// collaborator resolved (or none, when the proxy lookup found none).
    pub fn new(contract_id: ContractId, target_contract_id: Option<ContractId>) -> (v: Vrf)
        ensures
            v.contract_id == contract_id,
            v.target_contract_id == target_contract_id,
    {
        Vrf { contract_id, target_contract_id }
    }

    /// Every contract id a call may touch: the published id, then the
    /// proxy target when one is configured.
    pub fn contract_ids(&self) -> (ids: Vec<ContractId>)
        ensures
            self.target_contract_id matches Some(t) ==> ids@ == seq![self.contract_id, t],
            self.target_contract_id is None ==> ids@ == seq![self.contract_id],
    {
        let mut ids: Vec<ContractId> = Vec::new();
        ids.push(self.contract_id);
        if let Some(target_id) = self.target_contract_id {
            ids.push(target_id);
            assert(ids@ =~= seq![self.contract_id, target_id]);
        } else {
            assert(ids@ =~= seq![self.contract_id]);
        }
        ids
    }
}

/// Splits a 64-byte signature into its two 256-bit halves.
pub fn signature_to_parts(s: &[u8; 64]) -> (r: (Bits256, Bits256))
    ensures
        r.0@ == s@.subrange(0, 32),
        r.1@ == s@.subrange(32, 64),
{
    let mut fst = [0u8; 32];
    let mut snd = [0u8; 32];
    let mut i: usize = 0;
    while i < 32
        invariant
            i <= 32,
            fst@.len() == 32,
            snd@.len() == 32,
            forall|j: int| 0 <= j < i ==> fst@[j] == s@[j],
            forall|j: int| 0 <= j < i ==> snd@[j] == s@[32 + j],
        decreases 32 - i,
    {
        fst[i] = s[i];
        snd[i] = s[32 + i];
        i = i + 1;
    }
    assert(fst@ =~= s@.subrange(0, 32));
    assert(snd@ =~= s@.subrange(32, 64));
    (Bits256 { bytes: fst }, Bits256 { bytes: snd })
}

} // verus!
