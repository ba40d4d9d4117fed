use school_ledger::auth::{Principal, Role};
use school_ledger::dates::DateYmd;
use school_ledger::ledger::Ledger;
use school_ledger::model::{
    Direction, LedgerError, OriginKind, PayableStatus, ReceivableStatus,
};
use school_ledger::obligations::{
    CreatePayableRequest, CreateReceivableRequest, CreateTransferRequest, MarkPayablePaidRequest,
    MarkReceivableReceivedRequest,
};
use school_ledger::registry::{
    CreateFinancialAccountRequest, CreateFinancialCategoryRequest,
    CreateFinancialCounterpartyRequest,
};

fn ymd(year: i32, month: u32, day: u32) -> DateYmd {
    DateYmd { year, month, day }
}

fn admin(tenant: u128) -> Principal {
    Principal { tenant, user: 900, role: Role::Admin }
}

fn account_request(name: &str, kind: &str, initial: i64) -> CreateFinancialAccountRequest {
    CreateFinancialAccountRequest {
        name: name.to_string(),
        account_type: kind.to_string(),
        initial_balance_cents: Some(initial),
    }
}

fn payable_request(description: &str, amount: i64) -> CreatePayableRequest {
    CreatePayableRequest {
        description: description.to_string(),
        vendor_person_id: None,
        vendor_counterparty_id: None,
        category_id: None,
        due_date: ymd(2025, 6, 10),
        amount_cents: amount,
    }
}

#[test]
fn account_creation_is_gated_and_validated() {
    let mut ledger = Ledger::new();
    let teacher = Principal { tenant: 1, user: 2, role: Role::Teacher };
    assert_eq!(
        ledger.create_financial_account(&teacher, account_request("Caixa", "cash", 0)),
        Err(LedgerError::Forbidden)
    );
    assert_eq!(
        ledger.create_financial_account(&admin(1), account_request("C", "cash", 0)),
        Err(LedgerError::Validation)
    );
    assert_eq!(
        ledger.create_financial_account(&admin(1), account_request("Caixa", "piggy", 0)),
        Err(LedgerError::Validation)
    );
    let id = ledger
        .create_financial_account(&admin(1), account_request("  Caixa  ", "cash", 5000))
        .unwrap();
    assert_eq!(ledger.accounts.len(), 1);
    assert_eq!(ledger.accounts[0].name, "Caixa");
    assert_eq!(ledger.account_balance_cents(1, id), Ok(5000));
    assert_eq!(ledger.account_balance_cents(2, id), Err(LedgerError::NotFound));
}

#[test]
fn counterparty_and_category_kinds_are_checked_on_use() {
    let mut ledger = Ledger::new();
    let p = admin(1);
    let payer_only = ledger
        .create_financial_counterparty(
            &p,
            CreateFinancialCounterpartyRequest {
                name: "Pagador".to_string(),
                kind: "payer".to_string(),
            },
        )
        .unwrap();
    let both = ledger
        .create_financial_counterparty(
            &p,
            CreateFinancialCounterpartyRequest {
                name: "Misto".to_string(),
                kind: "both".to_string(),
            },
        )
        .unwrap();
    let receivable_cat = ledger
        .create_financial_category(
            &p,
            CreateFinancialCategoryRequest {
                name: "Mensalidades".to_string(),
                flow: "receivable".to_string(),
            },
        )
        .unwrap();

    let mut req = payable_request("Conta de luz", 1000);
    req.vendor_counterparty_id = Some(payer_only);
    assert_eq!(ledger.create_payable(&p, req), Err(LedgerError::Validation));

    let mut req = payable_request("Conta de luz", 1000);
    req.vendor_counterparty_id = Some(both);
    assert!(ledger.create_payable(&p, req).is_ok());

    let mut req = payable_request("Conta de luz", 1000);
    req.category_id = Some(receivable_cat);
    assert_eq!(ledger.create_payable(&p, req), Err(LedgerError::Validation));
}

#[test]
fn payable_amounts_must_be_positive_and_bounded() {
    let mut ledger = Ledger::new();
    let p = admin(1);
    assert_eq!(
        ledger.create_payable(&p, payable_request("Agua", 0)),
        Err(LedgerError::Validation)
    );
    assert_eq!(
        ledger.create_payable(&p, payable_request("Agua", 2_000_000_000_000_000)),
        Err(LedgerError::Validation)
    );
    assert!(ledger.create_payable(&p, payable_request("Agua", 1)).is_ok());
}

#[test]
fn settling_a_payable_twice_reports_a_conflict() {
    let mut ledger = Ledger::new();
    let p = admin(1);
    let account = ledger
        .create_financial_account(&p, account_request("Conta", "current", 100_000))
        .unwrap();
    let payable = ledger.create_payable(&p, payable_request("Material", 2_500)).unwrap();
    let today = ymd(2025, 6, 15);

    let first = ledger.mark_payable_paid(
        &p,
        payable,
        MarkPayablePaidRequest { account_id: account, paid_at: None },
        today,
    );
    assert_eq!(first, Ok(()));
    assert_eq!(ledger.movements.len(), 1);
    assert_eq!(ledger.movements[0].direction, Direction::Debit);
    assert_eq!(ledger.movements[0].origin_kind, OriginKind::PayablePayment);
    assert_eq!(ledger.movements[0].origin, payable);
    assert_eq!(ledger.movements[0].amount_cents, 2_500);
    assert_eq!(ledger.movements[0].date, today);
    assert_eq!(ledger.payables[0].status, PayableStatus::Paid);
    assert_eq!(ledger.payables[0].paid_on, Some(today));

    let second = ledger.mark_payable_paid(
        &p,
        payable,
        MarkPayablePaidRequest { account_id: account, paid_at: None },
        today,
    );
    assert_eq!(second, Err(LedgerError::Conflict));
    assert_eq!(ledger.movements.len(), 1);

    assert_eq!(ledger.account_balance_cents(1, account), Ok(100_000 - 2_500));
}

#[test]
fn settling_distinguishes_missing_from_settled() {
    let mut ledger = Ledger::new();
    let p = admin(1);
    let account = ledger
        .create_financial_account(&p, account_request("Conta", "current", 0))
        .unwrap();
    assert_eq!(
        ledger.mark_payable_paid(
            &p,
            424242,
            MarkPayablePaidRequest { account_id: account, paid_at: None },
            ymd(2025, 1, 1),
        ),
        Err(LedgerError::NotFound)
    );
    assert_eq!(
        ledger.mark_payable_paid(
            &p,
            424242,
            MarkPayablePaidRequest { account_id: 999, paid_at: None },
            ymd(2025, 1, 1),
        ),
        Err(LedgerError::Validation)
    );
}

#[test]
fn receivable_settlement_posts_a_credit_and_uses_the_clock() {
    let mut ledger = Ledger::new();
    let p = admin(1);
    let account = ledger
        .create_financial_account(&p, account_request("Conta", "current", 0))
        .unwrap();
    let receivable = ledger
        .create_receivable(
            &p,
            CreateReceivableRequest {
                description: "Mensalidade".to_string(),
                payer_person_id: None,
                payer_counterparty_id: None,
                category_id: None,
                due_date: ymd(2025, 2, 1),
                amount_cents: 7_500,
            },
        )
        .unwrap();
    let r = ledger.mark_receivable_received_now(
        &p,
        receivable,
        MarkReceivableReceivedRequest { account_id: account, received_at: None },
    );
    assert_eq!(r, Ok(()));
    assert_eq!(ledger.movements.len(), 1);
    assert_eq!(ledger.movements[0].direction, Direction::Credit);
    assert_eq!(ledger.receivables[0].status, ReceivableStatus::Received);
    assert!(ledger.receivables[0].received_on.is_some());
    assert_eq!(ledger.account_balance_cents(1, account), Ok(7_500));
}

#[test]
fn transfer_posts_two_opposite_movements_of_the_same_amount() {
    let mut ledger = Ledger::new();
    let p = admin(1);
    let from = ledger
        .create_financial_account(&p, account_request("Origem", "current", 50_000))
        .unwrap();
    let to = ledger
        .create_financial_account(&p, account_request("Destino", "cash", 1_000))
        .unwrap();

    assert_eq!(
        ledger.create_transfer(
            &p,
            CreateTransferRequest {
                from_account_id: from,
                to_account_id: from,
                transfer_date: ymd(2025, 5, 2),
                amount_cents: 100,
                note: None,
            },
        ),
        Err(LedgerError::Validation)
    );

    let transfer = ledger
        .create_transfer(
            &p,
            CreateTransferRequest {
                from_account_id: from,
                to_account_id: to,
                transfer_date: ymd(2025, 5, 2),
                amount_cents: 12_345,
                note: Some("  caixa do mes  ".to_string()),
            },
        )
        .unwrap();

    assert_eq!(ledger.movements.len(), 2);
    let debit = &ledger.movements[0];
    let credit = &ledger.movements[1];
    assert_eq!(debit.direction, Direction::Debit);
    assert_eq!(debit.account, from);
    assert_eq!(debit.origin_kind, OriginKind::TransferOut);
    assert_eq!(credit.direction, Direction::Credit);
    assert_eq!(credit.account, to);
    assert_eq!(credit.origin_kind, OriginKind::TransferIn);
    assert_eq!(debit.amount_cents, credit.amount_cents);
    assert_eq!(debit.origin, transfer);
    assert_eq!(credit.origin, transfer);
    assert_eq!(ledger.transfers[0].note, Some("caixa do mes".to_string()));

    assert_eq!(ledger.account_balance_cents(1, from), Ok(50_000 - 12_345));
    assert_eq!(ledger.account_balance_cents(1, to), Ok(1_000 + 12_345));
}

#[test]
fn balance_is_rederived_from_all_movements() {
    let mut ledger = Ledger::new();
    let p = admin(1);
    let account = ledger
        .create_financial_account(&p, account_request("Conta", "current", 10_000))
        .unwrap();
    let other = ledger
        .create_financial_account(&p, account_request("Outra", "cash", 0))
        .unwrap();
    for i in 0..5 {
        let payable = ledger
            .create_payable(&p, payable_request("Despesa mensal", 1_000 + i))
            .unwrap();
        ledger
            .mark_payable_paid(
                &p,
                payable,
                MarkPayablePaidRequest { account_id: account, paid_at: Some(ymd(2025, 3, 1)) },
                ymd(2025, 3, 1),
            )
            .unwrap();
    }
    ledger
        .create_transfer(
            &p,
            CreateTransferRequest {
                from_account_id: other,
                to_account_id: account,
                transfer_date: ymd(2025, 3, 2),
                amount_cents: 2_000,
                note: None,
            },
        )
        .unwrap();
    let debits: i64 = (0..5).map(|i| 1_000 + i).sum();
    assert_eq!(
        ledger.account_balance_cents(1, account),
        Ok((10_000 - debits + 2_000) as i128)
    );
    assert_eq!(ledger.account_balance_cents(1, other), Ok(-2_000));
}

#[test]
fn tenants_never_see_each_other() {
    let mut ledger = Ledger::new();
    let a = admin(1);
    let b = admin(2);
    let account_a = ledger
        .create_financial_account(&a, account_request("Conta A", "current", 0))
        .unwrap();
    let payable_a = ledger.create_payable(&a, payable_request("Despesa", 100)).unwrap();
    assert_eq!(
        ledger.mark_payable_paid(
            &b,
            payable_a,
            MarkPayablePaidRequest { account_id: account_a, paid_at: None },
            ymd(2025, 1, 1),
        ),
        Err(LedgerError::Validation)
    );
    assert_eq!(ledger.account_balance_cents(2, account_a), Err(LedgerError::NotFound));
    let listed = ledger.list_payables(&b).unwrap();
    assert!(listed.is_empty());
}
