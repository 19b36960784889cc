//! Canonical human-readable renderings. Each event variant renders to one
//! line that carries all of its identifying fields (seed and, depending on
//! the variant, sequence number, requester, authority or randomness), with
//! byte values in lower-case hex. Also builds the fixed hierarchical
//! derivation path that the wallet collaborator derives signing keys with.

use vstd::prelude::*;
use vstd::string::StringExecFns;

use crate::events::Callback;
use crate::events::Event;
use crate::events::Fulfill;
use crate::events::Request;
use crate::events::Reset;
use crate::events::Response;
use crate::types::Identity;

verus! {

/// The character for one digit value below 16, lower case.
pub open spec fn digit_char(d: int) -> char
    recommends
        0 <= d < 16,
{
    if d == 0 {
        '0'
    } else if d == 1 {
        '1'
    } else if d == 2 {
        '2'
    } else if d == 3 {
        '3'
    } else if d == 4 {
        '4'
    } else if d == 5 {
        '5'
    } else if d == 6 {
        '6'
    } else if d == 7 {
        '7'
    } else if d == 8 {
        '8'
    } else if d == 9 {
        '9'
    } else if d == 10 {
        'a'
    } else if d == 11 {
        'b'
    } else if d == 12 {
        'c'
    } else if d == 13 {
        'd'
    } else if d == 14 {
        'e'
    } else {
        'f'
    }
}

/// One digit below 16 as a string.
fn digit_str(d: u8) -> (r: &'static str)
    requires
        d < 16,
    ensures
        r@ == seq![digit_char(d as int)],
{
    match d {
        0 => {
            proof {
                reveal_strlit("0");
            }
            "0"
        },
        1 => {
            proof {
                reveal_strlit("1");
            }
            "1"
        },
        2 => {
            proof {
                reveal_strlit("2");
            }
            "2"
        },
        3 => {
            proof {
                reveal_strlit("3");
            }
            "3"
        },
        4 => {
            proof {
                reveal_strlit("4");
            }
            "4"
        },
        5 => {
            proof {
                reveal_strlit("5");
            }
            "5"
        },
        6 => {
            proof {
                reveal_strlit("6");
            }
            "6"
        },
        7 => {
            proof {
                reveal_strlit("7");
            }
            "7"
        },
        8 => {
            proof {
                reveal_strlit("8");
            }
            "8"
        },
        9 => {
            proof {
                reveal_strlit("9");
            }
            "9"
        },
        10 => {
            proof {
                reveal_strlit("a");
            }
            "a"
        },
        11 => {
            proof {
                reveal_strlit("b");
            }
            "b"
        },
        12 => {
            proof {
                reveal_strlit("c");
            }
            "c"
        },
        13 => {
            proof {
                reveal_strlit("d");
            }
            "d"
        },
        14 => {
            proof {
                reveal_strlit("e");
            }
            "e"
        },
        _ => {
            proof {
                reveal_strlit("f");
            }
            "f"
        },
    }
}

/// Lower-case hex of a byte string: two characters for each byte, in order.
pub open spec fn hex_of(s: Seq<u8>) -> Seq<char>
    decreases s.len(),
{
    if s.len() == 0 {
        Seq::empty()
    } else {
        hex_of(s.drop_last()) + seq![
            digit_char(s.last() as int / 16),
            digit_char(s.last() as int % 16),
        ]
    }
}

/// Renders a byte string as lower-case hex.
pub fn hex_str(bytes: &[u8]) -> (s: String)
    ensures
        s@ == hex_of(bytes@),
{
    let mut s = String::new();
    let n = bytes.len();
    let mut i: usize = 0;
    while i < n
        invariant
            i <= n == bytes@.len(),
            s@ == hex_of(bytes@.take(i as int)),
        decreases n - i,
    {
        let b = bytes[i];
        s.append(digit_str(b / 16));
        s.append(digit_str(b % 16));
        proof {
            assert(bytes@.take(i as int + 1).drop_last() =~= bytes@.take(i as int));
            assert(bytes@.take(i as int + 1).last() == bytes@[i as int]);
            assert(s@ =~= hex_of(bytes@.take(i as int + 1)));
        }
        i = i + 1;
    }
    proof {
        assert(bytes@.take(n as int) =~= bytes@);
    }
    s
}

/// Decimal rendering of a number, most significant digit first, no
/// leading zeros (a single zero for zero).
pub open spec fn dec_of(n: nat) -> Seq<char>
    decreases n,
{
    if n < 10 {
        seq![digit_char(n as int)]
    } else {
        dec_of(n / 10) + seq![digit_char((n % 10) as int)]
    }
}

/// Renders a number in decimal.
pub fn dec_str(n: u64) -> (s: String)
    ensures
        s@ == dec_of(n as nat),
    decreases n,
{
    if n < 10 {
        let s = String::from_str(digit_str(n as u8));
        proof {
            assert(s@ =~= dec_of(n as nat));
        }
        s
    } else {
        let mut s = dec_str(n / 10);
        s.append(digit_str((n % 10) as u8));
        proof {
            assert(s@ =~= dec_of(n as nat));
        }
        s
    }
}

/// The 32 bytes identifying either kind of identity.
pub open spec fn identity_bytes(id: Identity) -> Seq<u8> {
    match id {
        Identity::Address(a) => a@,
        Identity::ContractId(c) => c@,
    }
}

/// Renders the 32 bytes of an identity as hex.
fn identity_str(id: &Identity) -> (s: String)
    ensures
        s@ == hex_of(identity_bytes(*id)),
{
    match id {
        Identity::Address(a) => hex_str(a.bytes.as_slice()),
        Identity::ContractId(c) => hex_str(c.bytes.as_slice()),
    }
}

/// Canonical line for a request event: sequence number, seed, requester.
pub open spec fn spec_render_request(r: Request) -> Seq<char> {
    "Request: no="@ + dec_of(r.no as nat) + ", seed="@ + hex_of(r.seed@) + ", client="@ + hex_of(
        identity_bytes(r.client),
    )
}

/// Canonical line for a response event: seed, authority, randomness share.
pub open spec fn spec_render_response(r: Response) -> Seq<char> {
    "Response: seed="@ + hex_of(r.seed@) + ", authority="@ + hex_of(r.authority@)
        + ", randomness="@ + hex_of(r.randomness.bytes())
}

/// Canonical line for a fulfillment event: seed and randomness value.
pub open spec fn spec_render_fulfill(f: Fulfill) -> Seq<char> {
    "Fulfill: seed="@ + hex_of(f.seed@) + ", randomness="@ + hex_of(f.randomness.bytes())
}

/// Canonical line for a reset event: the seed.
pub open spec fn spec_render_reset(r: Reset) -> Seq<char> {
    "Reset: seed="@ + hex_of(r.seed@)
}

/// Canonical line for a callback event: seed, randomness, consuming contract.
pub open spec fn spec_render_callback(c: Callback) -> Seq<char> {
    "Callback: seed="@ + hex_of(c.seed@) + ", randomness="@ + hex_of(c.randomness.bytes())
        + ", contract_id="@ + hex_of(c.client@)
}

/// Canonical line for any event: the variant line under one prefix.
pub open spec fn spec_render_event(e: Event) -> Seq<char> {
    "Event: "@ + match e {
        Event::Request(x) => spec_render_request(x),
        Event::Response(x) => spec_render_response(x),
        Event::Fulfill(x) => spec_render_fulfill(x),
        Event::Reset(x) => spec_render_reset(x),
        Event::Callback(x) => spec_render_callback(x),
    }
}

impl Request {
    /// The canonical human-readable line for this event.
    pub fn render(&self) -> (s: String)
        ensures
            s@ == spec_render_request(*self),
    {
        let mut s = String::from_str("Request: no=");
        s.append(dec_str(self.no).as_str());
        s.append(", seed=");
        s.append(hex_str(self.seed.bytes.as_slice()).as_str());
        s.append(", client=");
        s.append(identity_str(&self.client).as_str());
        s
    }
}

impl Response {
    /// The canonical human-readable line for this event.
    pub fn render(&self) -> (s: String)
        ensures
            s@ == spec_render_response(*self),
    {
        let mut s = String::from_str("Response: seed=");
        s.append(hex_str(self.seed.bytes.as_slice()).as_str());
        s.append(", authority=");
        s.append(hex_str(self.authority.bytes.as_slice()).as_str());
        s.append(", randomness=");
        let r64 = crate::types::randomness_to_bytes64(&self.randomness);
        s.append(hex_str(r64.as_slice()).as_str());
        s
    }
}

impl Fulfill {
    /// The canonical human-readable line for this event.
    pub fn render(&self) -> (s: String)
        ensures
            s@ == spec_render_fulfill(*self),
    {
        let mut s = String::from_str("Fulfill: seed=");
        s.append(hex_str(self.seed.bytes.as_slice()).as_str());
        s.append(", randomness=");
        let r64 = crate::types::randomness_to_bytes64(&self.randomness);
        s.append(hex_str(r64.as_slice()).as_str());
        s
    }
}

impl Reset {
    /// The canonical human-readable line for this event.
    pub fn render(&self) -> (s: String)
        ensures
            s@ == spec_render_reset(*self),
    {
        let mut s = String::from_str("Reset: seed=");
        s.append(hex_str(self.seed.bytes.as_slice()).as_str());
        s
    }
}

impl Callback {
    /// The canonical human-readable line for this event.
    pub fn render(&self) -> (s: String)
        ensures
            s@ == spec_render_callback(*self),
    {
        let mut s = String::from_str("Callback: seed=");
        s.append(hex_str(self.seed.bytes.as_slice()).as_str());
        s.append(", randomness=");
        let r64 = crate::types::randomness_to_bytes64(&self.randomness);
        s.append(hex_str(r64.as_slice()).as_str());
        s.append(", contract_id=");
        s.append(hex_str(self.client.bytes.as_slice()).as_str());
        s
    }
}

impl Event {
    /// The canonical human-readable line for this event, with all of its
    /// identifying fields.
    pub fn render(&self) -> (s: String)
        ensures
            s@ == spec_render_event(*self),
    {
        let mut s = String::from_str("Event: ");
        let tail = match self {
            Event::Request(x) => x.render(),
            Event::Response(x) => x.render(),
            Event::Fulfill(x) => x.render(),
            Event::Reset(x) => x.render(),
            Event::Callback(x) => x.render(),
        };
        s.append(tail.as_str());
        s
    }
}

/// The hierarchical derivation path for the wallet account at `index`:
/// a fixed coin-type-scoped path keyed by the account index alone.
pub open spec fn spec_derivation_path(index: u64) -> Seq<char> {
    "m/44'/1179993420'/"@ + dec_of(index as nat) + "'/0/0"@
}

/// Builds the derivation path for the account at `index`.
pub fn derivation_path(index: u64) -> (s: String)
    ensures
        s@ == spec_derivation_path(index),
{
    let mut s = String::from_str("m/44'/1179993420'/");
    s.append(dec_str(index).as_str());
    s.append("'/0/0");
    s
}

} // verus!
