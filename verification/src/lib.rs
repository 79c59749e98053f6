//! Reservation records, their validation, and the reading of the conflict
//! reports that the database gives back when two reservations overlap.

pub mod conflict;
pub mod detail;
pub mod error;
pub mod reservation;
pub mod status;
pub mod time;

pub use conflict::{ReservationConflict, ReservationConflictInfo, ReservationWindow};
pub use detail::ParseInfo;
pub use error::{DatabaseErrorFields, ReservationError};
pub use reservation::{NaiveRange, RangeBound, Reservation, ReserveRequest};
pub use status::ReservationStatus;
pub use time::{convert_to_timestamp, convert_to_utc_time, Timestamp, UtcTime};
pub use vstd::hash_map::StringHashMap;
