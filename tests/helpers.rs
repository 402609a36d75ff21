use webserver::error::{ApiError, AuthError, DatabaseError, MeetingsError, ReqError, TaskErrorKind};
use webserver::helpers::{
    check_created_at, check_due_date, check_meeting_dates, parse_and_validate_created_at,
    parse_and_validate_due_date, parse_meeting_date, validate_meeting_dates,
};
use webserver::timestamp::month_length;
use webserver::Timestamp;

fn at(y: i32, mo: u32, d: u32, h: u32, mi: u32, s: u32) -> Timestamp {
    Timestamp::new(y, mo, d, h, mi, s).unwrap()
}

#[test]
fn created_at_in_the_past_is_its_midnight() {
    let now = at(2025, 3, 10, 15, 45, 0);
    let r = check_created_at(Some("09-03-2025".to_string()), now).unwrap();
    assert_eq!(r, at(2025, 3, 9, 0, 0, 0));
    let same_day = check_created_at(Some("10-03-2025".to_string()), now).unwrap();
    assert_eq!(same_day, at(2025, 3, 10, 0, 0, 0));
}

#[test]
fn created_at_equal_to_now_is_accepted() {
    let now = at(2025, 3, 10, 0, 0, 0);
    assert_eq!(check_created_at(Some("10-03-2025".to_string()), now).unwrap(), now);
}

#[test]
fn created_at_absent_is_now() {
    let now = at(2025, 3, 10, 15, 45, 0);
    assert_eq!(check_created_at(None, now).unwrap(), now);
}

#[test]
fn created_at_in_the_future_is_refused() {
    let now = at(2025, 3, 10, 15, 45, 0);
    let e = check_created_at(Some("11-03-2025".to_string()), now).unwrap_err();
    assert_eq!(e.kind, TaskErrorKind::FutureCreationDate);
    assert_eq!(e.value, "11-03-2025");
    let real = parse_and_validate_created_at(Some("01-01-3000".to_string())).unwrap_err();
    assert_eq!(real.kind, TaskErrorKind::FutureCreationDate);
}

#[test]
fn malformed_dates_are_refused() {
    let now = at(2025, 3, 10, 15, 45, 0);
    for text in ["2025-03-09", "32-01-2025", "29-02-2025", "", "09-03-2025 10:00"] {
        let e = check_created_at(Some(text.to_string()), now).unwrap_err();
        assert_eq!(e.kind, TaskErrorKind::InvalidFormat, "{}", text);
        assert_eq!(e.value, text);
    }
    assert_eq!(check_due_date(Some("x".to_string()), now).unwrap_err().kind, TaskErrorKind::InvalidFormat);
}

#[test]
fn leap_day_is_a_valid_date() {
    let now = at(2025, 3, 10, 15, 45, 0);
    assert_eq!(check_created_at(Some("29-02-2024".to_string()), now).unwrap(), at(2024, 2, 29, 0, 0, 0));
}

#[test]
fn due_date_in_the_past_is_refused() {
    let now = at(2025, 3, 10, 15, 45, 0);
    let e = check_due_date(Some("10-03-2025".to_string()), now).unwrap_err();
    assert_eq!(e.kind, TaskErrorKind::PastDueDate);
    let real = parse_and_validate_due_date(Some("01-01-2000".to_string())).unwrap_err();
    assert_eq!(real.kind, TaskErrorKind::PastDueDate);
}

#[test]
fn due_date_absent_is_none() {
    let now = at(2025, 3, 10, 15, 45, 0);
    assert_eq!(check_due_date(None, now).unwrap(), None);
    assert_eq!(parse_and_validate_due_date(None).unwrap(), None);
}

#[test]
fn due_date_in_the_future_is_its_midnight() {
    let now = at(2025, 3, 10, 15, 45, 0);
    assert_eq!(check_due_date(Some("11-03-2025".to_string()), now).unwrap(), Some(at(2025, 3, 11, 0, 0, 0)));
    assert_eq!(
        parse_and_validate_due_date(Some("25-12-2099".to_string())).unwrap(),
        Some(at(2099, 12, 25, 0, 0, 0))
    );
}

#[test]
fn meeting_rules_in_order() {
    let now = at(2025, 3, 10, 12, 0, 0);
    let past = at(2025, 3, 10, 11, 0, 0);
    let soon = at(2025, 3, 10, 13, 0, 0);
    let later = at(2025, 3, 10, 14, 0, 0);
    assert_eq!(check_meeting_dates(past, past, now), Err(MeetingsError::InvalidStartDate));
    assert_eq!(check_meeting_dates(past, later, now), Err(MeetingsError::InvalidStartDate));
    assert_eq!(check_meeting_dates(soon, past, now), Err(MeetingsError::InvalidEndDate));
    assert_eq!(check_meeting_dates(later, soon, now), Err(MeetingsError::InvalidDateRange));
    assert_eq!(check_meeting_dates(soon, soon, now), Err(MeetingsError::InvalidDateRange));
    assert_eq!(check_meeting_dates(soon, later, now), Ok(()));
    assert_eq!(check_meeting_dates(now, later, now), Ok(()));
    assert_eq!(validate_meeting_dates(past, later), Err(MeetingsError::InvalidStartDate));
    assert_eq!(validate_meeting_dates(at(3025, 2, 5, 14, 30, 0), at(3025, 2, 5, 16, 30, 0)), Ok(()));
}

#[test]
fn meeting_dates_are_read_to_the_minute() {
    assert_eq!(parse_meeting_date("05-02-3025 14:30".to_string()).unwrap(), at(3025, 2, 5, 14, 30, 0));
    let e = parse_meeting_date("05-02-3025".to_string()).unwrap_err();
    assert_eq!(e.kind, TaskErrorKind::InvalidFormat);
    assert_eq!(e.value, "05-02-3025");
    assert!(parse_meeting_date("05-02-3025 25:00".to_string()).is_err());
}

#[test]
fn timestamps_check_the_calendar() {
    assert!(Timestamp::new(2023, 2, 29, 0, 0, 0).is_none());
    assert!(Timestamp::new(2024, 2, 29, 0, 0, 0).is_some());
    assert!(Timestamp::new(2024, 4, 31, 0, 0, 0).is_none());
    assert!(Timestamp::new(2024, 13, 1, 0, 0, 0).is_none());
    assert!(Timestamp::new(2024, 1, 1, 24, 0, 0).is_none());
    assert_eq!(month_length(1900, 2), 28);
    assert_eq!(month_length(2000, 2), 29);
    assert!(at(2024, 1, 1, 0, 0, 0).is_before(&at(2024, 1, 1, 0, 0, 1)));
    assert!(!at(2024, 1, 1, 0, 0, 1).is_before(&at(2024, 1, 1, 0, 0, 1)));
    assert!(at(2023, 12, 31, 23, 59, 59).is_before(&at(2024, 1, 1, 0, 0, 0)));
}

#[test]
fn errors_map_to_status_codes() {
    assert_eq!(ApiError::from_database(DatabaseError::NotFound).status_code(), 404);
    assert_eq!(ApiError::DatabaseApiError(DatabaseError::PermissionDenied).status_code(), 403);
    assert_eq!(ApiError::DatabaseApiError(DatabaseError::TaskNotFound).status_code(), 404);
    assert_eq!(
        ApiError::DatabaseApiError(DatabaseError::InvalidMeetingDates(MeetingsError::InvalidEndDate)).status_code(),
        400
    );
    assert_eq!(DatabaseError::StoreFull.status_code(), 500);
    assert_eq!(ApiError::AuthorizationError(AuthError::InvalidCredentials).status_code(), 401);
    assert_eq!(ApiError::ReqwestError(ReqError::RequestError).status_code(), 502);
    assert_eq!(MeetingsError::InvalidDateRange.message(), "End date must be after start date");
}

#[test]
fn absent_created_at_uses_the_clock() {
    let before = webserver::Timestamp::new(2026, 1, 1, 0, 0, 0).unwrap();
    let t = parse_and_validate_created_at(None).unwrap();
    assert!(before.is_before(&t));
}

#[test]
fn each_meeting_error_has_its_message() {
    assert_eq!(MeetingsError::InvalidStartDate.message(), "Start date cannot be in the past");
    assert_eq!(MeetingsError::InvalidEndDate.message(), "End date cannot be in the past");
    assert_eq!(MeetingsError::InvalidDateRange.message(), "End date must be after start date");
}
