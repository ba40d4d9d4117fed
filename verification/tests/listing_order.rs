use school_ledger::auth::{Principal, Role};
use school_ledger::contracts::CreateFinancialContractRequest;
use school_ledger::dates::DateYmd;
use school_ledger::ledger::Ledger;
use school_ledger::model::PayableStatus;
use school_ledger::obligations::{CreatePayableRequest, CreateTransferRequest, MarkPayablePaidRequest};
use school_ledger::registry::CreateFinancialAccountRequest;
use school_ledger::school::FinancialGuardianStatementQuery;

fn ymd(year: i32, month: u32, day: u32) -> DateYmd {
    DateYmd { year, month, day }
}

fn admin(tenant: u128) -> Principal {
    Principal { tenant, user: 1, role: Role::Admin }
}

fn account(ledger: &mut Ledger, p: &Principal, name: &str) -> u128 {
    ledger
        .create_financial_account(
            p,
            CreateFinancialAccountRequest {
                name: name.to_string(),
                account_type: "current".to_string(),
                initial_balance_cents: None,
            },
        )
        .unwrap()
}

fn payable(ledger: &mut Ledger, p: &Principal, due: DateYmd) -> u128 {
    ledger
        .create_payable(
            p,
            CreatePayableRequest {
                description: "Despesa".to_string(),
                vendor_person_id: None,
                vendor_counterparty_id: None,
                category_id: None,
                due_date: due,
                amount_cents: 1_000,
            },
        )
        .unwrap()
}

#[test]
fn accounts_list_in_name_byte_order() {
    let mut ledger = Ledger::new();
    let p = admin(1);
    account(&mut ledger, &p, "Bravo");
    account(&mut ledger, &p, "Alpha");
    let listed = ledger.list_financial_accounts(&p).unwrap();
    let names: Vec<String> = listed.iter().map(|a| a.name.clone()).collect();
    assert_eq!(names, vec!["Alpha".to_string(), "Bravo".to_string()]);
}

#[test]
fn payables_list_settled_first_then_by_due_date() {
    let mut ledger = Ledger::new();
    let p = admin(1);
    let acct = account(&mut ledger, &p, "Conta");
    let late = payable(&mut ledger, &p, ymd(2025, 9, 1));
    let early = payable(&mut ledger, &p, ymd(2025, 3, 1));
    let paid = payable(&mut ledger, &p, ymd(2025, 6, 1));
    ledger
        .mark_payable_paid(
            &p,
            paid,
            MarkPayablePaidRequest { account_id: acct, paid_at: None },
            ymd(2025, 6, 2),
        )
        .unwrap();
    let listed = ledger.list_payables(&p).unwrap();
    let ids: Vec<u128> = listed.iter().map(|x| x.id).collect();
    assert_eq!(ids, vec![paid, early, late]);
    assert_eq!(listed[0].status, PayableStatus::Paid);
}

#[test]
fn transfers_list_newest_date_first() {
    let mut ledger = Ledger::new();
    let p = admin(1);
    let a = account(&mut ledger, &p, "Origem");
    let b = account(&mut ledger, &p, "Destino");
    let older = ledger
        .create_transfer(
            &p,
            CreateTransferRequest {
                from_account_id: a,
                to_account_id: b,
                transfer_date: ymd(2025, 1, 10),
                amount_cents: 100,
                note: None,
            },
        )
        .unwrap();
    let newer = ledger
        .create_transfer(
            &p,
            CreateTransferRequest {
                from_account_id: a,
                to_account_id: b,
                transfer_date: ymd(2025, 5, 10),
                amount_cents: 100,
                note: None,
            },
        )
        .unwrap();
    let listed = ledger.list_transfers(&p).unwrap();
    let ids: Vec<u128> = listed.iter().map(|x| x.id).collect();
    assert_eq!(ids, vec![newer, older]);
}

#[test]
fn contract_view_sorts_recipients_and_installments() {
    let mut ledger = Ledger::new();
    let p = admin(1);
    assert!(ledger.register_tenant(1, "Escola".to_string(), "esc".to_string()));
    let older_guardian = ledger.add_person(1, "Avo".to_string(), None, true, true);
    let newer_guardian = ledger.add_person(1, "Pai".to_string(), None, true, true);
    let student = ledger.add_student(1, "Aluno".to_string(), None);
    assert!(older_guardian < newer_guardian);
    let contract = ledger
        .create_contract(
            &p,
            CreateFinancialContractRequest {
                student_id: student,
                payer_person_id: None,
                recipient_person_ids: vec![newer_guardian, older_guardian],
                description: "Plano".to_string(),
                total_amount_cents: 9_000,
                installments_count: 3,
                first_due_date: ymd(2025, 2, 1),
                due_day: None,
                billing_mode: None,
                school_pix_key: None,
                school_payment_instructions: None,
            },
        )
        .unwrap();
    assert_eq!(ledger.contracts[0].recipients, vec![newer_guardian, older_guardian]);
    ledger.installments.swap(0, 2);
    let view = ledger.load_contract_response(1, contract).unwrap();
    assert_eq!(view.recipient_person_ids, vec![older_guardian, newer_guardian]);
    let numbers: Vec<u32> = view.installments.iter().map(|x| x.installment_number).collect();
    assert_eq!(numbers, vec![1, 2, 3]);
}

#[test]
fn statement_items_come_newest_due_first() {
    let mut ledger = Ledger::new();
    let p = admin(1);
    let guardian = ledger.add_person(1, "Pai".to_string(), None, true, true);
    let student = ledger.add_student(1, "Aluno".to_string(), None);
    ledger
        .create_contract(
            &p,
            CreateFinancialContractRequest {
                student_id: student,
                payer_person_id: Some(guardian),
                recipient_person_ids: Vec::new(),
                description: "Plano".to_string(),
                total_amount_cents: 9_000,
                installments_count: 3,
                first_due_date: ymd(2025, 1, 15),
                due_day: None,
                billing_mode: None,
                school_pix_key: None,
                school_payment_instructions: None,
            },
        )
        .unwrap();
    let stmt = ledger
        .get_financial_guardian_statement(
            &p,
            guardian,
            &FinancialGuardianStatementQuery { date_from: None, date_to: None },
        )
        .unwrap();
    let dues: Vec<DateYmd> = stmt.items.iter().map(|x| x.due_date).collect();
    assert_eq!(dues, vec![ymd(2025, 3, 15), ymd(2025, 2, 15), ymd(2025, 1, 15)]);
    assert_eq!(stmt.items[0].student_name, Some("Aluno".to_string()));
}
