//! The states that a reservation goes through, with their wire numbers and
//! the labels of the database enumeration `rsvp.reservation_status`.

use vstd::prelude::*;

verus! {

/// The state of a reservation.
#[derive(Clone, Copy, Debug, PartialEq, Eq, Structural)]
pub enum ReservationStatus {
    Unknown,
    Pending,
    Confirmed,
    Blocked,
}

impl ReservationStatus {
    /// The number that stands for the state on the wire.
    pub open spec fn spec_code(self) -> i32 {
        match self {
            ReservationStatus::Unknown => 0,
            ReservationStatus::Pending => 1,
            ReservationStatus::Confirmed => 2,
            ReservationStatus::Blocked => 3,
        }
    }

    /// The state that a wire number stands for, if any.
    pub open spec fn spec_from_i32(v: i32) -> Option<ReservationStatus> {
        if v == 0 {
            Some(ReservationStatus::Unknown)
        } else if v == 1 {
            Some(ReservationStatus::Pending)
        } else if v == 2 {
            Some(ReservationStatus::Confirmed)
        } else if v == 3 {
            Some(ReservationStatus::Blocked)
        } else {
            None
        }
    }

    /// The label of the state in the database enumeration.
    pub open spec fn label(self) -> Seq<char> {
        match self {
            ReservationStatus::Unknown => "unknown"@,
            ReservationStatus::Pending => "pending"@,
            ReservationStatus::Confirmed => "confirmed"@,
            ReservationStatus::Blocked => "blocked"@,
        }
    }

    /// The wire number of the state.
    pub fn code(&self) -> (r: i32)
        ensures
            r == self.spec_code(),
    {
        match self {
            ReservationStatus::Unknown => 0,
            ReservationStatus::Pending => 1,
            ReservationStatus::Confirmed => 2,
            ReservationStatus::Blocked => 3,
        }
    }

    /// The state with the given wire number; `None` for a number that names none.
    pub fn from_i32(v: i32) -> (r: Option<ReservationStatus>)
        ensures
            r == Self::spec_from_i32(v),
    {
        if v == 0 {
            Some(ReservationStatus::Unknown)
        } else if v == 1 {
            Some(ReservationStatus::Pending)
        } else if v == 2 {
            Some(ReservationStatus::Confirmed)
        } else if v == 3 {
            Some(ReservationStatus::Blocked)
        } else {
            None
        }
    }

    /// The state with the given wire number, or `Pending` for a number that
    /// names none.
    pub fn from_i32_or_pending(v: i32) -> (r: ReservationStatus)
        ensures
            r == (match Self::spec_from_i32(v) {
                Some(s) => s,
                None => ReservationStatus::Pending,
            }),
    {
        Self::from_i32(v).unwrap_or(ReservationStatus::Pending)
    }

    /// The label of the state, as the database enumeration spells it.
    pub fn to_string(&self) -> (r: String)
        ensures
            r@ == self.label(),
    {
        match self {
            ReservationStatus::Unknown => String::from_str("unknown"),
            ReservationStatus::Pending => String::from_str("pending"),
            ReservationStatus::Confirmed => String::from_str("confirmed"),
            ReservationStatus::Blocked => String::from_str("blocked"),
        }
    }
}

/// Every state is found again from its wire number, and every wire number
/// that names a state names it with that number.
pub proof fn lemma_status_code_round_trip(s: ReservationStatus, v: i32)
    ensures
        ReservationStatus::spec_from_i32(s.spec_code()) == Some(s),
        ReservationStatus::spec_from_i32(v) matches Some(t) ==> t.spec_code() == v,
{
}

/// Distinct states have distinct labels.
pub proof fn lemma_status_labels_distinct(a: ReservationStatus, b: ReservationStatus)
    requires
        a != b,
    ensures
        a.label() != b.label(),
{
    reveal_strlit("unknown");
    reveal_strlit("pending");
    reveal_strlit("confirmed");
    reveal_strlit("blocked");
    assert(a.label()[0] != b.label()[0] || a.label().len() != b.label().len());
}

} // verus!
