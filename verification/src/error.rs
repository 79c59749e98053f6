//! The errors of the reservation service, and how a failed database call is
//! told apart: a refused overlapping reservation, or any other failure.

use sqlx::postgres::PgDatabaseError;
use vstd::prelude::*;

use crate::conflict::ReservationConflictInfo;

verus! {

/// The error type of the `sqlx` database layer, carried through unread.
#[verifier::external_type_specification]
#[verifier::external_body]
pub struct ExSqlxError(sqlx::Error);

/// Why a reservation was refused or could not be stored.
#[derive(Debug)]
pub enum ReservationError {
    Unknown,
    InvalidTime,
    InvalidUserId(String),
    ConflictReservation(ReservationConflictInfo),
    InvalidResourceId(String),
    DBError(sqlx::Error),
}

/// What PostgreSQL reports of a failed statement: the SQLSTATE code, and the
/// schema, table and detail line where it gives them.
#[derive(Clone, Debug)]
pub struct DatabaseErrorFields {
    pub code: String,
    pub schema: Option<String>,
    pub table: Option<String>,
    pub detail: Option<String>,
}

/// Whether the report is that of the exclusion constraint of the
/// reservations table (SQLSTATE 23P01 in `rsvp.reservations`), which refuses
/// a reservation that overlaps another of the same resource.
pub open spec fn is_reservation_conflict(f: DatabaseErrorFields) -> bool {
    &&& f.code@ == "23P01"@
    &&& f.schema matches Some(s) && s@ == "rsvp"@
    &&& f.table matches Some(t) && t@ == "reservations"@
}

/// What PostgreSQL reported of the failed call `e`: its code, schema, table
/// and detail line, or `None` where `e` is no database error or the database
/// error is not PostgreSQL's.
pub uninterp spec fn pg_report_of(e: sqlx::Error) -> Option<DatabaseErrorFields>;

/// Calls `sqlx::Error::as_database_error` and, where the error comes from
/// PostgreSQL, `try_downcast_ref::<PgDatabaseError>` and its `code`, `schema`,
/// `table` and `detail`. The contract claims only that the outcome depends on
/// the error alone (it is named `pg_report_of`); what sqlx reads out of the
/// error is left unsaid.
#[verifier::external_body]
fn database_error_fields(e: &sqlx::Error) -> (r: Option<DatabaseErrorFields>)
    ensures
        r == pg_report_of(*e),
{
    match e.as_database_error() {
        Some(d) => match d.try_downcast_ref::<PgDatabaseError>() {
            Some(pg) => Some(
                DatabaseErrorFields {
                    code: pg.code().to_owned(),
                    schema: pg.schema().map(str::to_owned),
                    table: pg.table().map(str::to_owned),
                    detail: pg.detail().map(str::to_owned),
                },
            ),
            None => None,
        },
        None => None,
    }
}

/// Whether the two strings hold the same text.
fn same_text(a: &String, b: &str) -> (r: bool)
    ensures
        r == (a@ == b@),
{
    let b = String::from_str(b);
    *a == b
}

impl DatabaseErrorFields {
    /// Whether the report is that of the exclusion constraint of the reservations table.
    pub fn is_reservation_conflict(&self) -> (r: bool)
        ensures
            r == is_reservation_conflict(*self),
    {
        if !same_text(&self.code, "23P01") {
            return false;
        }
        let in_schema = match &self.schema {
            Some(s) => same_text(s, "rsvp"),
            None => false,
        };
        let in_table = match &self.table {
            Some(t) => same_text(t, "reservations"),
            None => false,
        };
        in_schema && in_table
    }
}

/// Whether `r` is what the failed database call `e` becomes when PostgreSQL
/// reported `report` of it (`None` where it is no PostgreSQL error): the
/// reading of the detail line for a refused overlapping reservation, and `e`
/// itself kept as a database error otherwise, also where that detail line is
/// missing.
pub open spec fn classifies(
    e: sqlx::Error,
    report: Option<DatabaseErrorFields>,
    r: ReservationError,
) -> bool {
    match report {
        Some(f) => if is_reservation_conflict(f) {
            match f.detail {
                Some(d) => r matches ReservationError::ConflictReservation(info) && info.describes(
                    d@,
                ),
                None => r == ReservationError::DBError(e),
            }
        } else {
            r == ReservationError::DBError(e)
        },
        None => r == ReservationError::DBError(e),
    }
}

impl ReservationError {
    /// The error for a failed database call, given what PostgreSQL reported
    /// of it (`None` where it is no PostgreSQL error): an overlapping
    /// reservation becomes a conflict, read from the detail line; anything
    /// else is kept as a database error.
    pub fn from_database_fields(e: sqlx::Error, fields: Option<DatabaseErrorFields>) -> (r:
        ReservationError)
        requires
            fields matches Some(f) ==> (is_reservation_conflict(f) ==> f.detail is Some),
        ensures
            match fields {
                Some(f) => if is_reservation_conflict(f) {
                    r matches ReservationError::ConflictReservation(info) && info.describes(
                        f.detail->0@,
                    )
                } else {
                    r == ReservationError::DBError(e)
                },
                None => r == ReservationError::DBError(e),
            },
    {
        match fields {
            Some(f) => {
                if f.is_reservation_conflict() {
                    match f.detail {
                        Some(detail) => ReservationError::ConflictReservation(
                            ReservationConflictInfo::parse(detail.as_str()),
                        ),
                        None => ReservationError::DBError(e),
                    }
                } else {
                    ReservationError::DBError(e)
                }
            },
            None => ReservationError::DBError(e),
        }
    }

    /// The error for a failed database call: a refused overlapping
    /// reservation becomes a conflict read from its detail line; anything else
    /// is kept as a database error. Two cases are kept as database errors
    /// rather than refused: a refused overlap whose detail line PostgreSQL left
    /// out, and a database error that does not come from PostgreSQL.
    pub fn from_db_error(e: sqlx::Error) -> (r: ReservationError)
        ensures
            r is DBError || r is ConflictReservation,
            r matches ReservationError::DBError(x) ==> x == e,
            classifies(e, pg_report_of(e), r),
    {
        let fields = database_error_fields(&e);
        let ghost report = fields;
        let ghost err = e;
        let r = match fields {
            Some(f) => {
                if f.is_reservation_conflict() && f.detail.is_none() {
                    ReservationError::DBError(e)
                } else {
                    Self::from_database_fields(e, Some(f))
                }
            },
            None => Self::from_database_fields(e, None),
        };
        assert(classifies(err, report, r));
        r
    }
}

} // verus!
