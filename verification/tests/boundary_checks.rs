use school_ledger::admin::{client_matches_filter, ClientStatusFilter};
use school_ledger::classes::{normalize_period, validate_create_class, CreateClassRequest};
use school_ledger::dashboard::count_overdue_clients;
use school_ledger::dates::DateYmd;
use school_ledger::guardians::{validate_update_guardian, UpdateGuardianRequest};
use school_ledger::model::LedgerError;
use school_ledger::people::{
    normalize_person_type, validate_create_person, validate_role_input, CreatePersonRequest,
    RoleInputRequest,
};
use school_ledger::reports::share_expiry_days;
use school_ledger::students::registration_suggestion;
use school_ledger::teachers::{validate_update_teacher_role, UpdateTeacherRoleRequest};
use school_ledger::terms::validate_term_fields;
use school_ledger::auth::Role;

fn ymd(year: i32, month: u32, day: u32) -> DateYmd {
    DateYmd { year, month, day }
}

#[test]
fn class_period_defaults_to_morning() {
    assert_eq!(normalize_period(None).unwrap(), "matutino");
    assert_eq!(normalize_period(Some(" NOTURNO ")).unwrap(), "noturno");
    assert_eq!(normalize_period(Some("madrugada")), Err(LedgerError::Validation));
}

#[test]
fn class_creation_requires_name_and_grade() {
    let ok = CreateClassRequest {
        name: "Turma A".to_string(),
        grade: "1 ano".to_string(),
        year: Some(2026),
        period: None,
    };
    assert_eq!(validate_create_class(&ok).unwrap(), "matutino");
    let empty = CreateClassRequest {
        name: "".to_string(),
        grade: "1 ano".to_string(),
        year: None,
        period: None,
    };
    assert_eq!(validate_create_class(&empty), Err(LedgerError::Validation));
}

#[test]
fn term_fields_check_year_range_and_default_order() {
    assert_eq!(validate_term_fields(&"Bimestre 1".to_string(), 2026, None), Ok(1));
    assert_eq!(validate_term_fields(&"Bimestre 1".to_string(), 2026, Some(3)), Ok(3));
    assert_eq!(
        validate_term_fields(&"Bimestre 1".to_string(), 1999, None),
        Err(LedgerError::Validation)
    );
    assert_eq!(
        validate_term_fields(&"B".to_string(), 2026, None),
        Err(LedgerError::Validation)
    );
}

#[test]
fn teacher_role_updates_parse_known_roles() {
    let ok = UpdateTeacherRoleRequest { role: " Staff ".to_string() };
    assert_eq!(validate_update_teacher_role(&ok), Ok(Role::Staff));
    let short = UpdateTeacherRoleRequest { role: "ab".to_string() };
    assert_eq!(validate_update_teacher_role(&short), Err(LedgerError::Validation));
}

#[test]
fn guardian_updates_need_a_name() {
    let ok = UpdateGuardianRequest {
        full_name: "Ana Lima".to_string(),
        phone: None,
        email: None,
        document: None,
        notes: None,
        is_active: true,
    };
    assert_eq!(validate_update_guardian(&ok), Ok(()));
    let bad = UpdateGuardianRequest { full_name: "A".to_string(), ..ok };
    assert_eq!(validate_update_guardian(&bad), Err(LedgerError::Validation));
}

#[test]
fn person_kinds_form_a_closed_set() {
    assert_eq!(normalize_person_type(" FINANCIAL_GUARDIAN ").unwrap(), "financial_guardian");
    assert_eq!(normalize_person_type("alien"), Err(LedgerError::Validation));
    let req = CreatePersonRequest {
        full_name: "Carlos".to_string(),
        person_type: "supplier".to_string(),
        email: None,
        phone: None,
        document: None,
        notes: None,
        is_active: None,
    };
    assert_eq!(validate_create_person(&req).unwrap(), "supplier");
    let role = RoleInputRequest { role_code: " Pickup_Authorized ".to_string() };
    assert_eq!(validate_role_input(&role).unwrap(), "pickup_authorized");
}

#[test]
fn share_links_default_and_clamp_their_expiry() {
    assert_eq!(share_expiry_days(None), 30);
    assert_eq!(share_expiry_days(Some(0)), 1);
    assert_eq!(share_expiry_days(Some(700)), 365);
    assert_eq!(share_expiry_days(Some(14)), 14);
}

#[test]
fn registration_suggestions_pad_the_sequence() {
    assert_eq!(registration_suggestion(2025, 7).registration, "20250008");
    assert_eq!(registration_suggestion(2025, 0).registration, "20250001");
    assert_eq!(registration_suggestion(2025, 9999).registration, "202510000");
}

#[test]
fn overdue_clients_are_counted_against_today() {
    let today = ymd(2025, 6, 15);
    let dates = vec![ymd(2025, 6, 14), ymd(2025, 6, 15), ymd(2025, 7, 1), ymd(2024, 1, 1)];
    assert_eq!(count_overdue_clients(&dates, today), 2);
    assert!(client_matches_filter(&ClientStatusFilter::All, &ymd(2024, 1, 1), &today));
    assert!(client_matches_filter(&ClientStatusFilter::Overdue, &ymd(2024, 1, 1), &today));
    assert!(!client_matches_filter(&ClientStatusFilter::Overdue, &ymd(2025, 6, 15), &today));
    assert!(client_matches_filter(&ClientStatusFilter::OnTime, &ymd(2025, 6, 15), &today));
}
