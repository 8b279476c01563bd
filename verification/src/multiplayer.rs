//! Room codes of multiplayer sessions: nonzero numbers, drawn at random
//! from 1000 to 9999.
use vstd::prelude::*;
use vstd::std_specs::convert::TryFromSpecImpl;
use crate::text::{decimal_digits, format_u64};
use crate::webrtc::{RandomID, SessionKey, WebRTCSessionManager};

verus! {

/// Calls `thread_rng().gen_range(1000..=9999)`: a number drawn from that
/// range, as `rand`'s `Rng::gen_range` documents; which one is up to chance.
#[verifier::external_body]
fn random_room_number() -> (r: u16)
    ensures
        1000 <= r <= 9999,
{
    rand::Rng::gen_range(&mut rand::thread_rng(), 1000u16..=9999)
}

/// A room code: never zero.
#[derive(Clone, Copy, Debug, PartialEq, Eq, Hash)]
pub struct RoomCode {
    code: u16,
}

/// Zero is no room code.
#[derive(Clone, Copy, Debug, PartialEq, Eq)]
pub struct ZeroRoomCode;

impl View for RoomCode {
    type V = u16;

    closed spec fn view(&self) -> u16 {
        self.code
    }
}

impl RoomCode {
    #[verifier::type_invariant]
    closed spec fn nonzero(self) -> bool {
        self.code != 0
    }

    /// The code as a number.
    pub fn get(&self) -> (r: u16)
        ensures
            r == self@,
            r != 0,
    {
        proof {
            use_type_invariant(self);
        }
        self.code
    }

    /// The code in decimal, as it is shown to players.
    pub fn to_string(&self) -> (r: String)
        ensures
            r@ == decimal_digits(self@ as nat),
    {
        format_u64(self.code as u64)
    }
}

impl TryFrom<u16> for RoomCode {
    type Error = ZeroRoomCode;

    /// A code exactly when `value` is not zero.
    fn try_from(value: u16) -> (r: Result<RoomCode, ZeroRoomCode>)
        ensures
            r is Ok <==> value != 0,
            r matches Ok(c) ==> c@ == value,
    {
        if value == 0 {
            Err(ZeroRoomCode)
        } else {
            Ok(RoomCode { code: value })
        }
    }
}

impl TryFromSpecImpl<u16> for RoomCode {
    open spec fn obeys_try_from_spec() -> bool {
        true
    }

    closed spec fn try_from_spec(v: u16) -> Result<RoomCode, ZeroRoomCode> {
        if v == 0 {
            Err(ZeroRoomCode)
        } else {
            Ok(RoomCode { code: v })
        }
    }
}

impl RandomID for RoomCode {
    fn generate() -> (r: RoomCode)
        ensures
            1000 <= r@ <= 9999,
    {
        RoomCode { code: random_room_number() }
    }
}

impl SessionKey for RoomCode {
    fn same_key(&self, other: &Self) -> (r: bool) {
        self.code == other.code
    }

    fn duplicate(&self) -> (r: Self) {
        *self
    }
}

/// The multiplayer rooms of the game, by room code.
pub type Multiplayer = WebRTCSessionManager<RoomCode>;

} // verus!
