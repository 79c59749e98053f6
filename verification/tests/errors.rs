use reservation::{DatabaseErrorFields, ReservationConflictInfo, ReservationError};

const DETAIL: &str = "Key (resource_id, timespan)=(ocean-view-room-713, [\"2022-12-26 22:00:00+00\",\"2022-12-30 19:00:00+00\")) conflicts with existing key (resource_id, timespan)=(ocean-view-room-713, [\"2022-12-25 22:00:00+00\",\"2022-12-28 19:00:00+00\")).";

fn fields(code: &str, schema: Option<&str>, table: Option<&str>, detail: Option<&str>) -> DatabaseErrorFields {
    DatabaseErrorFields {
        code: code.to_string(),
        schema: schema.map(|s| s.to_string()),
        table: table.map(|s| s.to_string()),
        detail: detail.map(|s| s.to_string()),
    }
}

#[test]
fn overlap_becomes_a_conflict() {
    let f = fields("23P01", Some("rsvp"), Some("reservations"), Some(DETAIL));
    assert!(f.is_reservation_conflict());
    match ReservationError::from_database_fields(sqlx::Error::RowNotFound, Some(f)) {
        ReservationError::ConflictReservation(ReservationConflictInfo::Parsed(c)) => {
            assert_eq!(c.old.rid, "ocean-view-room-713");
        }
        other => panic!("unexpected {:?}", other),
    }
    let f = fields("23P01", Some("rsvp"), Some("reservations"), Some("garbled"));
    match ReservationError::from_database_fields(sqlx::Error::RowNotFound, Some(f)) {
        ReservationError::ConflictReservation(ReservationConflictInfo::Unparsed(s)) => assert_eq!(s, "garbled"),
        other => panic!("unexpected {:?}", other),
    }
}

#[test]
fn other_failures_stay_database_errors() {
    for f in [
        fields("23505", Some("rsvp"), Some("reservations"), Some(DETAIL)),
        fields("23P01", Some("public"), Some("reservations"), Some(DETAIL)),
        fields("23P01", Some("rsvp"), None, Some(DETAIL)),
        fields("23P01", None, Some("reservations"), Some(DETAIL)),
    ] {
        assert!(!f.is_reservation_conflict());
        assert!(matches!(
            ReservationError::from_database_fields(sqlx::Error::RowNotFound, Some(f)),
            ReservationError::DBError(sqlx::Error::RowNotFound)
        ));
    }
    assert!(matches!(
        ReservationError::from_database_fields(sqlx::Error::PoolTimedOut, None),
        ReservationError::DBError(sqlx::Error::PoolTimedOut)
    ));
    assert!(matches!(ReservationError::from_db_error(sqlx::Error::RowNotFound), ReservationError::DBError(sqlx::Error::RowNotFound)));
}
