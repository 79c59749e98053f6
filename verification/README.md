# reservation

A library for a resource reservation service, verified with Verus.

- `src/time.rs`: wire timestamps and UTC instants, and the range of instants
  that a UTC date-time can hold.
- `src/status.rs`: the states of a reservation, their wire numbers and labels.
- `src/reservation.rs`: making a pending reservation, validating it, its time
  range, reading one back from a stored row, and what is stored for a new one.
- `src/detail.rs`: the grammar of the detail line that PostgreSQL writes when
  the exclusion constraint refuses an overlapping reservation.
- `src/conflict.rs`: the two windows (resource, start, end) of such a line.
- `src/error.rs`: the service's errors, and how a failed database call is
  classified.

`app/` holds the asynchronous service over a PostgreSQL pool, the conversions
to and from chrono and sqlx values, and the error type with its messages.
