use school_ledger::auth::{
    normalize_role, role_to_person_type, tenant_claims_role, validate_login, validate_register,
    Claims, LoginRequest, RegisterRequest, Role,
};
use school_ledger::config::AppConfig;
use school_ledger::model::{
    normalize_account_type, normalize_billing_mode, normalize_category_flow,
    normalize_counterparty_kind, AccountKind, BillingMode, CategoryFlow, CounterpartyKind,
    LedgerError,
};
use school_ledger::platform::{platform_login_check, PlatformAuthState, PlatformLoginRequest};
use school_ledger::text::normalize_optional_text;

#[test]
fn optional_text_trims_and_drops_blanks() {
    assert_eq!(normalize_optional_text(Some("  x y  ".to_string())), Some("x y".to_string()));
    assert_eq!(normalize_optional_text(Some("   ".to_string())), None);
    assert_eq!(normalize_optional_text(None), None);
}

#[test]
fn account_kinds_parse_case_insensitively() {
    assert_eq!(normalize_account_type("  CASH "), Ok(AccountKind::Cash));
    assert_eq!(normalize_account_type("current"), Ok(AccountKind::Current));
    assert_eq!(normalize_account_type("savings"), Err(LedgerError::Validation));
}

#[test]
fn counterparty_kinds_and_category_flows_parse() {
    assert_eq!(normalize_counterparty_kind("Vendor"), Ok(CounterpartyKind::Vendor));
    assert_eq!(normalize_counterparty_kind("payer"), Ok(CounterpartyKind::Payer));
    assert_eq!(normalize_counterparty_kind("BOTH"), Ok(CounterpartyKind::Both));
    assert_eq!(normalize_counterparty_kind("x"), Err(LedgerError::Validation));
    assert_eq!(normalize_category_flow("payable"), Ok(CategoryFlow::Payable));
    assert_eq!(normalize_category_flow("receivable"), Ok(CategoryFlow::Receivable));
    assert_eq!(normalize_category_flow("none"), Err(LedgerError::Validation));
}

#[test]
fn billing_mode_defaults_to_school_booklet() {
    assert_eq!(normalize_billing_mode(None), Ok(BillingMode::SchoolBooklet));
    assert_eq!(normalize_billing_mode(Some(" Provider_Boleto ")), Ok(BillingMode::ProviderBoleto));
    assert_eq!(
        normalize_billing_mode(Some("school_booklet_pix")),
        Ok(BillingMode::SchoolBookletPix)
    );
    assert_eq!(normalize_billing_mode(Some("carnet")), Err(LedgerError::Validation));
}

#[test]
fn roles_parse_and_map_to_person_types() {
    assert_eq!(normalize_role(" ADMIN "), Ok(Role::Admin));
    assert_eq!(normalize_role("owner"), Ok(Role::Owner));
    assert_eq!(normalize_role("pupil"), Err(LedgerError::Validation));
    assert_eq!(role_to_person_type("teacher"), "teacher");
    assert_eq!(role_to_person_type("admin"), "staff");
}

#[test]
fn tenant_claims_need_the_tenant_scope() {
    let claims = Claims {
        sub: "u".to_string(),
        tenant_id: Some("t".to_string()),
        role: "staff".to_string(),
        scope: "platform".to_string(),
        exp: 0,
    };
    assert_eq!(tenant_claims_role(&claims), Err(LedgerError::Forbidden));
    let good = Claims { scope: "tenant".to_string(), ..claims };
    assert_eq!(tenant_claims_role(&good), Ok(Role::Staff));
    let missing = Claims { tenant_id: None, ..good };
    assert_eq!(tenant_claims_role(&missing), Err(LedgerError::Forbidden));
}

#[test]
fn registration_checks_email_and_password() {
    let ok = RegisterRequest {
        school_name: "Escola Modelo".to_string(),
        school_code: "em".to_string(),
        email: "dona@escola.example".to_string(),
        password: "longenough".to_string(),
    };
    assert_eq!(validate_register(&ok), Ok(()));
    let bad_email = RegisterRequest { email: "not-an-email".to_string(), ..ok };
    assert_eq!(validate_register(&bad_email), Err(LedgerError::Validation));
    let short_password = RegisterRequest {
        school_name: "Escola Modelo".to_string(),
        school_code: "em".to_string(),
        email: "dona@escola.example".to_string(),
        password: "short".to_string(),
    };
    assert_eq!(validate_register(&short_password), Err(LedgerError::Validation));
}

#[test]
fn login_checks_its_fields() {
    let ok = LoginRequest {
        school_code: "escola".to_string(),
        email: "a@b.example".to_string(),
        password: "x".to_string(),
    };
    assert_eq!(validate_login(&ok), Ok(()));
    let short_code = LoginRequest { school_code: "ab".to_string(), ..ok };
    assert_eq!(validate_login(&short_code), Err(LedgerError::Validation));
}

#[test]
fn platform_login_compares_normalized_email() {
    let state = PlatformAuthState {
        jwt_secret: "segredo-de-teste".to_string(),
        platform_admin_email: "admin@platform.local".to_string(),
        platform_admin_password: "admin123456".to_string(),
    };
    let ok = PlatformLoginRequest {
        email: "Admin@Platform.LOCAL".to_string(),
        password: "admin123456".to_string(),
    };
    assert_eq!(platform_login_check(&state, &ok), Ok(()));
    let wrong = PlatformLoginRequest {
        email: "admin@platform.local".to_string(),
        password: "senha-errada".to_string(),
    };
    assert_eq!(platform_login_check(&state, &wrong), Err(LedgerError::Forbidden));
    let invalid = PlatformLoginRequest { email: "nope".to_string(), password: "x".to_string() };
    assert_eq!(platform_login_check(&state, &invalid), Err(LedgerError::Validation));
}

#[test]
fn config_defaults_fill_the_blanks() {
    let c = AppConfig::assemble("db://x".to_string(), "s".to_string(), None, None, None);
    assert_eq!(c.platform_admin_email, "admin@platform.local");
    assert_eq!(c.platform_admin_password, "admin123456");
    assert_eq!(c.bind_addr, "0.0.0.0:3333");
    let c2 = AppConfig::assemble(
        "db://x".to_string(),
        "s".to_string(),
        Some("root@x".to_string()),
        None,
        Some("127.0.0.1:1".to_string()),
    );
    assert_eq!(c2.platform_admin_email, "root@x");
    assert_eq!(c2.bind_addr, "127.0.0.1:1");
}
