use school_ledger::auth::{Principal, Role};
use school_ledger::dates::DateYmd;
use school_ledger::ledger::Ledger;
use school_ledger::model::{AccountKind, CategoryFlow, CounterpartyKind, PayableStatus};
use school_ledger::obligations::CreatePayableRequest;
use school_ledger::registry::{
    CreateFinancialAccountRequest, CreateFinancialCategoryRequest,
    CreateFinancialCounterpartyRequest,
};

fn ymd(year: i32, month: u32, day: u32) -> DateYmd {
    DateYmd { year, month, day }
}

fn admin(tenant: u128) -> Principal {
    Principal { tenant, user: 1, role: Role::Admin }
}

#[test]
fn listings_resolve_names_and_balances() {
    let mut ledger = Ledger::new();
    let p = admin(1);
    let vendor = ledger
        .create_financial_counterparty(
            &p,
            CreateFinancialCounterpartyRequest {
                name: " Papelaria Central ".to_string(),
                kind: "vendor".to_string(),
            },
        )
        .unwrap();
    let category = ledger
        .create_financial_category(
            &p,
            CreateFinancialCategoryRequest {
                name: "Material".to_string(),
                flow: "payable".to_string(),
            },
        )
        .unwrap();
    ledger
        .create_financial_account(
            &p,
            CreateFinancialAccountRequest {
                name: "Conta Corrente".to_string(),
                account_type: "current".to_string(),
                initial_balance_cents: Some(123),
            },
        )
        .unwrap();
    ledger
        .create_payable(
            &p,
            CreatePayableRequest {
                description: "Cadernos".to_string(),
                vendor_person_id: None,
                vendor_counterparty_id: Some(vendor),
                category_id: Some(category),
                due_date: ymd(2025, 8, 1),
                amount_cents: 4_200,
            },
        )
        .unwrap();

    let accounts = ledger.list_financial_accounts(&p).unwrap();
    assert_eq!(accounts.len(), 1);
    assert_eq!(accounts[0].name, "Conta Corrente");
    assert_eq!(accounts[0].account_type, AccountKind::Current);
    assert_eq!(accounts[0].current_balance_cents, 123);

    let counterparties = ledger.list_financial_counterparties(&p).unwrap();
    assert_eq!(counterparties.len(), 1);
    assert_eq!(counterparties[0].name, "Papelaria Central");
    assert_eq!(counterparties[0].kind, CounterpartyKind::Vendor);

    let categories = ledger.list_financial_categories(&p).unwrap();
    assert_eq!(categories.len(), 1);
    assert_eq!(categories[0].flow, CategoryFlow::Payable);

    let payables = ledger.list_payables(&p).unwrap();
    assert_eq!(payables.len(), 1);
    assert_eq!(payables[0].description, "Cadernos");
    assert_eq!(payables[0].vendor_name, Some("Papelaria Central".to_string()));
    assert_eq!(payables[0].category, Some("Material".to_string()));
    assert_eq!(payables[0].status, PayableStatus::Pending);

    let empty = ledger.list_payables(&admin(2)).unwrap();
    assert!(empty.is_empty());
}

#[test]
fn receivable_listing_falls_back_to_legacy_names() {
    let mut ledger = Ledger::new();
    let p = Principal { tenant: 1, user: 1, role: Role::Staff };
    let creator = admin(1);
    let student = ledger.add_student(1, "Ana".to_string(), None);
    ledger
        .create_contract(
            &creator,
            school_ledger::contracts::CreateFinancialContractRequest {
                student_id: student,
                payer_person_id: None,
                recipient_person_ids: Vec::new(),
                description: "Plano".to_string(),
                total_amount_cents: 2_000,
                installments_count: 2,
                first_due_date: ymd(2025, 1, 1),
                due_day: None,
                billing_mode: None,
                school_pix_key: None,
                school_payment_instructions: None,
            },
        )
        .unwrap();
    let receivables = ledger.list_receivables(&p).unwrap();
    assert_eq!(receivables.len(), 2);
    assert_eq!(receivables[0].payer_name, Some("Ana".to_string()));
    assert_eq!(receivables[0].category, Some("mensalidade".to_string()));
}
