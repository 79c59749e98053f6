//! A reservation record: how a pending one is made, when it is valid, and
//! the time range that it covers.

use core::ops::Range;
use vstd::prelude::*;

use crate::error::ReservationError;
use crate::status::ReservationStatus;
use crate::time::{
    convert_to_timestamp, convert_to_utc_time, utc_before, utc_representable, Timestamp, UtcTime,
};

verus! {

/// A reservation of a resource by a user for a time range, as the service
/// exchanges it.
#[derive(Clone, Debug)]
pub struct Reservation {
    pub id: String,
    pub user_id: String,
    pub resource_id: String,
    pub start_time: Option<Timestamp>,
    pub end_time: Option<Timestamp>,
    pub notes: String,
    pub status: i32,
}

/// The instant that a wire timestamp stands for, its nanoseconds read unsigned.
pub open spec fn instant_of(ts: Timestamp) -> UtcTime {
    UtcTime { seconds: ts.seconds, nanos: ts.nanos as u32 }
}

/// Whether a wire timestamp stands for an instant.
pub open spec fn readable(ts: Timestamp) -> bool {
    utc_representable(ts.seconds, ts.nanos as u32)
}

impl Reservation {
    /// Whether validation gets as far as reading the two times: both ids are
    /// given and both times are present.
    pub open spec fn reaches_times(self) -> bool {
        &&& self.user_id@.len() > 0
        &&& self.resource_id@.len() > 0
        &&& self.start_time is Some
        &&& self.end_time is Some
    }

    /// Whether every time that is present stands for an instant.
    pub open spec fn times_readable(self) -> bool {
        &&& (self.start_time matches Some(t) ==> readable(t))
        &&& (self.end_time matches Some(t) ==> readable(t))
    }

    /// The outcome of validation: the user id must be given, then the
    /// resource id, then both times, and the start must come strictly before
    /// the end.
    pub open spec fn validation(self) -> Result<(), ReservationError> {
        if self.user_id@.len() == 0 {
            Err(ReservationError::InvalidUserId(self.user_id))
        } else if self.resource_id@.len() == 0 {
            Err(ReservationError::InvalidResourceId(self.resource_id))
        } else if self.start_time is None || self.end_time is None {
            Err(ReservationError::InvalidTime)
        } else if !utc_before(instant_of(self.start_time->0), instant_of(self.end_time->0)) {
            Err(ReservationError::InvalidTime)
        } else {
            Ok(())
        }
    }

    /// The time range of a reservation whose two times are present.
    pub open spec fn timespan(self) -> Range<UtcTime> {
        Range { start: instant_of(self.start_time->0), end: instant_of(self.end_time->0) }
    }

    /// Whether this is the pending reservation that `new_pending` makes of
    /// these ids, note and times.
    pub open spec fn is_pending_of(
        self,
        uid: Seq<char>,
        rid: Seq<char>,
        note: Seq<char>,
        start: UtcTime,
        end: UtcTime,
    ) -> bool {
        &&& self.id@ == Seq::<char>::empty()
        &&& self.user_id@ == uid
        &&& self.resource_id@ == rid
        &&& self.start_time == Some(Timestamp { seconds: start.seconds, nanos: start.nanos as i32 })
        &&& self.end_time == Some(Timestamp { seconds: end.seconds, nanos: end.nanos as i32 })
        &&& self.notes@ == note
        &&& self.status == ReservationStatus::Pending.spec_code()
    }

    /// A new pending reservation, with no id yet.
    pub fn new_pending(uid: &str, rid: &str, note: &str, start_time: UtcTime, end_time: UtcTime) -> (r:
        Reservation)
        ensures
            r.is_pending_of(uid@, rid@, note@, start_time, end_time),
    {
        Reservation {
            id: String::new(),
            user_id: uid.to_owned(),
            resource_id: rid.to_owned(),
            start_time: Some(convert_to_timestamp(start_time)),
            end_time: Some(convert_to_timestamp(end_time)),
            notes: note.to_owned(),
            status: ReservationStatus::Pending.code(),
        }
    }

    /// Whether validation gets as far as reading the two times.
    pub fn reads_times(&self) -> (r: bool)
        ensures
            r == self.reaches_times(),
    {
        !self.user_id.as_str().is_empty() && !self.resource_id.as_str().is_empty()
            && self.start_time.is_some() && self.end_time.is_some()
    }

    /// Whether every time that is present stands for an instant.
    pub fn has_readable_times(&self) -> (r: bool)
        ensures
            r == self.times_readable(),
    {
        let start_ok = match &self.start_time {
            Some(t) => UtcTime::from_timestamp(t.seconds, t.nanos as u32).is_some(),
            None => true,
        };
        let end_ok = match &self.end_time {
            Some(t) => UtcTime::from_timestamp(t.seconds, t.nanos as u32).is_some(),
            None => true,
        };
        start_ok && end_ok
    }

    /// Checks that the reservation can be stored: a user id, a resource id,
    /// and a start strictly before the end. Times that stand for no instant
    /// are left out once validation gets as far as reading them.
    pub fn validate(&self) -> (r: Result<(), ReservationError>)
        requires
            self.reaches_times() ==> self.times_readable(),
        ensures
            r == self.validation(),
    {
        if self.user_id.as_str().is_empty() {
            return Err(ReservationError::InvalidUserId(self.user_id.clone()));
        }
        if self.resource_id.as_str().is_empty() {
            return Err(ReservationError::InvalidResourceId(self.resource_id.clone()));
        }
        if self.start_time.is_none() || self.end_time.is_none() {
            return Err(ReservationError::InvalidTime);
        }
        let start_time = convert_to_utc_time(self.start_time.unwrap());
        let end_time = convert_to_utc_time(self.end_time.unwrap());
        if !start_time.is_before(&end_time) {
            return Err(ReservationError::InvalidTime);
        }
        Ok(())
    }

    /// The time range from the start to the end of the reservation.
    pub fn get_timespan(&self) -> (r: Range<UtcTime>)
        requires
            self.start_time is Some,
            self.end_time is Some,
            self.times_readable(),
        ensures
            r == self.timespan(),
    {
        let start_time = convert_to_utc_time(self.start_time.unwrap());
        let end_time = convert_to_utc_time(self.end_time.unwrap());
        Range { start: start_time, end: end_time }
    }
}

/// One end of a stored time range.
#[derive(Clone, Copy, Debug, PartialEq, Eq, Structural)]
pub enum RangeBound<T> {
    Included(T),
    Excluded(T),
    Unbounded,
}

impl<T> RangeBound<T> {
    /// The point at which the range stops, whether or not it belongs to the range.
    pub open spec fn point(self) -> Option<T> {
        match self {
            RangeBound::Included(v) => Some(v),
            RangeBound::Excluded(v) => Some(v),
            RangeBound::Unbounded => None,
        }
    }
}

/// A time range reduced to its two end points, each absent where the range
/// is unbounded on that side.
#[derive(Clone, Copy, Debug, PartialEq, Eq, Structural)]
pub struct NaiveRange<T> {
    pub start: Option<T>,
    pub end: Option<T>,
}

impl<T> NaiveRange<T> {
    /// The end points of a range, whether included or excluded.
    pub fn from_bounds(start: RangeBound<T>, end: RangeBound<T>) -> (r: NaiveRange<T>)
        ensures
            r.start == start.point(),
            r.end == end.point(),
    {
        let start = match start {
            RangeBound::Included(v) => Some(v),
            RangeBound::Excluded(v) => Some(v),
            RangeBound::Unbounded => None,
        };
        let end = match end {
            RangeBound::Included(v) => Some(v),
            RangeBound::Excluded(v) => Some(v),
            RangeBound::Unbounded => None,
        };
        NaiveRange { start, end }
    }
}

/// What the service stores for a new reservation: the ids, the time range,
/// the note, and the label of the status.
#[derive(Debug)]
pub struct ReserveRequest {
    pub user_id: String,
    pub resource_id: String,
    pub timespan: Range<UtcTime>,
    pub note: String,
    pub status: String,
}

/// The status that a stored reservation gets from its wire number:
/// `Pending` where the number names no status.
pub open spec fn stored_status(code: i32) -> ReservationStatus {
    match ReservationStatus::spec_from_i32(code) {
        Some(s) => s,
        None => ReservationStatus::Pending,
    }
}

impl Reservation {
    /// A reservation as read back from a stored row: its time range must be
    /// bounded on both sides.
    pub fn from_row_values(
        id: String,
        user_id: String,
        resource_id: String,
        timespan: NaiveRange<UtcTime>,
        notes: String,
        status: i32,
    ) -> (r: Reservation)
        requires
            timespan.start is Some,
            timespan.end is Some,
        ensures
            r.id == id,
            r.user_id == user_id,
            r.resource_id == resource_id,
            r.start_time == Some(
                Timestamp {
                    seconds: timespan.start->0.seconds,
                    nanos: timespan.start->0.nanos as i32,
                },
            ),
            r.end_time == Some(
                Timestamp { seconds: timespan.end->0.seconds, nanos: timespan.end->0.nanos as i32 },
            ),
            r.notes == notes,
            r.status == status,
    {
        let start = timespan.start.unwrap();
        let end = timespan.end.unwrap();
        Reservation {
            id,
            user_id,
            resource_id,
            start_time: Some(convert_to_timestamp(start)),
            end_time: Some(convert_to_timestamp(end)),
            notes,
            status,
        }
    }

    /// What to store for this reservation, once it is valid: the ids, the
    /// time range, the note, and the label of its status (`pending` where its
    /// number names no status). A reservation that is not valid gives back
    /// the validation error.
    pub fn reserve_request(&self) -> (r: Result<ReserveRequest, ReservationError>)
        requires
            self.reaches_times() ==> self.times_readable(),
        ensures
            match self.validation() {
                Err(e) => r == Err::<ReserveRequest, ReservationError>(e),
                Ok(_) => r matches Ok(q) && {
                    &&& q.user_id@ == self.user_id@
                    &&& q.resource_id@ == self.resource_id@
                    &&& q.timespan == self.timespan()
                    &&& q.note@ == self.notes@
                    &&& q.status@ == stored_status(self.status).label()
                },
            },
    {
        self.validate()?;
        let status = ReservationStatus::from_i32_or_pending(self.status);
        Ok(
            ReserveRequest {
                user_id: self.user_id.clone(),
                resource_id: self.resource_id.clone(),
                timespan: self.get_timespan(),
                note: self.notes.clone(),
                status: status.to_string(),
            },
        )
    }

    /// The reservation with the id that the store gave it.
    pub fn with_id(self, id: String) -> (r: Reservation)
        ensures
            r == (Reservation { id, ..self }),
    {
        let mut r = self;
        r.id = id;
        r
    }
}

/// A pending reservation made of instants is valid exactly when both ids are
/// given and the start comes strictly before the end; the first missing id
/// is the one reported.
pub proof fn lemma_pending_validation(
    r: Reservation,
    uid: Seq<char>,
    rid: Seq<char>,
    note: Seq<char>,
    start: UtcTime,
    end: UtcTime,
)
    requires
        r.is_pending_of(uid, rid, note, start, end),
        utc_representable(start.seconds, start.nanos),
        utc_representable(end.seconds, end.nanos),
    ensures
        r.times_readable(),
        r.timespan() == (Range { start, end }),
        r.validation() == (if uid.len() == 0 {
            Err(ReservationError::InvalidUserId(r.user_id))
        } else if rid.len() == 0 {
            Err(ReservationError::InvalidResourceId(r.resource_id))
        } else if !utc_before(start, end) {
            Err(ReservationError::InvalidTime)
        } else {
            Ok(())
        }),
{
    crate::time::lemma_timestamp_round_trip(start);
    crate::time::lemma_timestamp_round_trip(end);
}

/// A reservation read back from a row whose end points are instants covers
/// exactly the time range between those end points.
pub proof fn lemma_row_timespan_round_trip(r: Reservation, start: UtcTime, end: UtcTime)
    requires
        r.start_time == Some(Timestamp { seconds: start.seconds, nanos: start.nanos as i32 }),
        r.end_time == Some(Timestamp { seconds: end.seconds, nanos: end.nanos as i32 }),
        utc_representable(start.seconds, start.nanos),
        utc_representable(end.seconds, end.nanos),
    ensures
        r.times_readable(),
        r.timespan() == (Range { start, end }),
{
    crate::time::lemma_timestamp_round_trip(start);
    crate::time::lemma_timestamp_round_trip(end);
}

/// Validation reads only the user id, the resource id and the two times:
/// reservations that agree on these are validated alike, whatever their id,
/// note and status.
pub proof fn lemma_validation_reads_ids_and_times(r1: Reservation, r2: Reservation)
    requires
        r1.user_id == r2.user_id,
        r1.resource_id == r2.resource_id,
        r1.start_time == r2.start_time,
        r1.end_time == r2.end_time,
    ensures
        r1.validation() == r2.validation(),
        r1.reaches_times() == r2.reaches_times(),
        r1.times_readable() == r2.times_readable(),
{
}

/// A reservation that validates, under the condition on which validation is
/// defined, has a time range that can be read, and it is non-empty.
pub proof fn lemma_validated_timespan(r: Reservation)
    requires
        r.reaches_times() ==> r.times_readable(),
        r.validation() is Ok,
    ensures
        r.start_time is Some,
        r.end_time is Some,
        r.times_readable(),
        utc_before(r.timespan().start, r.timespan().end),
{
}

/// A new reservation is stored with the status that its number names, and
/// as pending only where the number names none: every status is kept
/// through its own number.
pub proof fn lemma_stored_status_keeps_status(code: i32, s: ReservationStatus)
    ensures
        ReservationStatus::spec_from_i32(code) == Some(s) ==> stored_status(code) == s,
        stored_status(s.spec_code()) == s,
        ReservationStatus::spec_from_i32(code) is None ==> stored_status(code)
            == ReservationStatus::Pending,
        stored_status(code) == ReservationStatus::Pending ==> (code == 1 || ReservationStatus::spec_from_i32(code) is None),
        (0 <= code <= 3) == (ReservationStatus::spec_from_i32(code) is Some),
{
}

/// A valid reservation starts strictly before it ends: its start second is
/// never later than its end second, and outside leap seconds the start lies
/// fewer nanoseconds after the epoch than the end.
pub proof fn lemma_valid_start_precedes_end(r: Reservation)
    requires
        r.validation() is Ok,
    ensures
        r.start_time is Some,
        r.end_time is Some,
        r.start_time->0.seconds <= r.end_time->0.seconds,
        (r.timespan().start.nanos < 1_000_000_000 && r.timespan().end.nanos < 1_000_000_000) ==> (
        r.start_time->0.seconds as int) * 1_000_000_000 + r.timespan().start.nanos < (
        r.end_time->0.seconds as int) * 1_000_000_000 + r.timespan().end.nanos,
{
    crate::time::lemma_utc_before_is_chronological(r.timespan().start, r.timespan().end);
}

} // verus!
