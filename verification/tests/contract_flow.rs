use school_ledger::auth::{Principal, Role};
use school_ledger::contracts::CreateFinancialContractRequest;
use school_ledger::dates::DateYmd;
use school_ledger::instruments::{EncoderConfig, MarkInstallmentPaidRequest};
use school_ledger::ledger::Ledger;
use school_ledger::model::{
    BillingMode, InstallmentStatus, LedgerError, ReceivableSource, ReceivableStatus,
};
use school_ledger::obligations::MarkReceivableReceivedRequest;
use school_ledger::pix::{crc16_ccitt_false, pix_crc_matches};
use school_ledger::registry::CreateFinancialAccountRequest;
use school_ledger::school::{
    FinancialGuardianStatementQuery, UpdateContractTemplateRequest,
};

fn ymd(year: i32, month: u32, day: u32) -> DateYmd {
    DateYmd { year, month, day }
}

fn staff(tenant: u128) -> Principal {
    Principal { tenant, user: 700, role: Role::Staff }
}

fn admin(tenant: u128) -> Principal {
    Principal { tenant, user: 800, role: Role::Admin }
}

fn encoder_config() -> EncoderConfig {
    EncoderConfig {
        boleto_base_url: "http://localhost:3333/boletos/".to_string(),
        pix_merchant_name: "Escola Modelo".to_string(),
        pix_merchant_city: "Sao Paulo".to_string(),
    }
}

fn contract_request(
    student: u128,
    payer: Option<u128>,
    total: i64,
    count: i32,
    first: DateYmd,
    mode: &str,
    key: Option<&str>,
) -> CreateFinancialContractRequest {
    CreateFinancialContractRequest {
        student_id: student,
        payer_person_id: payer,
        recipient_person_ids: Vec::new(),
        description: "Plano anual".to_string(),
        total_amount_cents: total,
        installments_count: count,
        first_due_date: first,
        due_day: None,
        billing_mode: Some(mode.to_string()),
        school_pix_key: key.map(|k| k.to_string()),
        school_payment_instructions: None,
    }
}

#[test]
fn contract_generates_installments_and_shadow_receivables() {
    let mut ledger = Ledger::new();
    let p = staff(1);
    let student = ledger.add_student(1, "Maria Souza".to_string(), None);
    let contract = ledger
        .create_contract(
            &p,
            contract_request(student, None, 29_999, 3, ymd(2025, 1, 31), "school_booklet", None),
        )
        .unwrap();
    assert_eq!(ledger.installments.len(), 3);
    assert_eq!(ledger.receivables.len(), 3);
    let amounts: Vec<i64> = ledger.installments.iter().map(|x| x.amount_cents).collect();
    assert_eq!(amounts, vec![10_000, 10_000, 9_999]);
    let dues: Vec<DateYmd> = ledger.installments.iter().map(|x| x.due_date).collect();
    assert_eq!(dues, vec![ymd(2025, 1, 31), ymd(2025, 2, 28), ymd(2025, 3, 31)]);
    for (i, inst) in ledger.installments.iter().enumerate() {
        assert_eq!(inst.number as usize, i + 1);
        assert_eq!(inst.contract, contract);
        assert_eq!(inst.status, InstallmentStatus::Pending);
        let shadow = &ledger.receivables[i];
        assert_eq!(shadow.installment, Some(inst.id));
        assert_eq!(shadow.amount_cents, inst.amount_cents);
        assert_eq!(shadow.due_date, inst.due_date);
        assert_eq!(shadow.source, ReceivableSource::Installment);
        assert_eq!(shadow.status, ReceivableStatus::Pending);
        assert_eq!(shadow.payer_name_legacy, Some("Maria Souza".to_string()));
        assert_eq!(shadow.category_legacy, Some("mensalidade".to_string()));
    }
    assert_eq!(
        ledger.receivables[0].description,
        "Parcela 1/3 - Plano anual (Maria Souza)"
    );
}

#[test]
fn contract_validation_rejects_bad_inputs() {
    let mut ledger = Ledger::new();
    let p = staff(1);
    let student = ledger.add_student(1, "Aluno".to_string(), None);
    assert_eq!(
        ledger.create_contract(
            &p,
            contract_request(student, None, 10_000, 0, ymd(2025, 1, 1), "school_booklet", None),
        ),
        Err(LedgerError::Validation)
    );
    assert_eq!(
        ledger.create_contract(
            &p,
            contract_request(student, None, 0, 1, ymd(2025, 1, 1), "school_booklet", None),
        ),
        Err(LedgerError::Validation)
    );
    assert_eq!(
        ledger.create_contract(
            &p,
            contract_request(student, None, 10_000, 1, ymd(2025, 1, 1), "fax", None),
        ),
        Err(LedgerError::Validation)
    );
    assert_eq!(
        ledger.create_contract(
            &p,
            contract_request(
                student,
                None,
                10_000,
                1,
                ymd(2025, 1, 1),
                "school_booklet_pix",
                None,
            ),
        ),
        Err(LedgerError::Validation)
    );
    assert_eq!(
        ledger.create_contract(
            &p,
            contract_request(777, None, 10_000, 1, ymd(2025, 1, 1), "school_booklet", None),
        ),
        Err(LedgerError::Validation)
    );
    assert_eq!(
        ledger.create_contract(
            &p,
            contract_request(student, None, 100, 201, ymd(2025, 1, 1), "school_booklet", None),
        ),
        Err(LedgerError::Validation)
    );
    assert_eq!(ledger.contracts.len(), 0);
    assert_eq!(ledger.installments.len(), 0);
}

#[test]
fn contract_payer_must_be_a_financial_guardian() {
    let mut ledger = Ledger::new();
    let p = staff(1);
    let student = ledger.add_student(1, "Aluno".to_string(), None);
    let plain = ledger.add_person(1, "Visitante".to_string(), None, true, false);
    let guardian = ledger.add_person(1, "Pai".to_string(), None, true, true);
    assert_eq!(
        ledger.create_contract(
            &p,
            contract_request(
                student,
                Some(plain),
                10_000,
                1,
                ymd(2025, 1, 1),
                "school_booklet",
                None,
            ),
        ),
        Err(LedgerError::Validation)
    );
    assert!(ledger
        .create_contract(
            &p,
            contract_request(
                student,
                Some(guardian),
                10_000,
                1,
                ymd(2025, 1, 1),
                "school_booklet",
                None,
            ),
        )
        .is_ok());
    assert_eq!(ledger.receivables[0].payer_person, Some(guardian));
}

#[test]
fn end_to_end_pix_contract_produces_checked_instruments() {
    let mut ledger = Ledger::new();
    let p = staff(1);
    assert!(ledger.register_tenant(1, "Escola Modelo".to_string(), "escola-modelo".to_string()));
    let guardian = ledger.add_person(1, "Jose Pai".to_string(), Some("jose@pais.example".to_string()), true, true);
    let student = ledger.add_student(1, "Joana".to_string(), None);
    let contract = ledger
        .create_contract(
            &p,
            contract_request(
                student,
                Some(guardian),
                10_000,
                1,
                ymd(2025, 3, 1),
                "school_booklet_pix",
                Some("abc@bank"),
            ),
        )
        .unwrap();
    assert_eq!(ledger.installments.len(), 1);
    assert_eq!(ledger.installments[0].amount_cents, 10_000);
    assert_eq!(ledger.installments[0].due_date, ymd(2025, 3, 1));

    ledger.generate_boletos(&p, contract, &encoder_config()).unwrap();
    let inst = &ledger.installments[0];
    let code = inst.boleto_code.clone().unwrap();
    assert!(code.starts_with("CRN-PIX-20250301-"));
    assert_eq!(code.len(), "CRN-PIX-20250301-".len() + 8);
    assert!(inst.boleto_url.is_none());
    let payload = inst.pix_payload.clone().unwrap();
    assert!(pix_crc_matches(&payload));
    let cut = payload.len() - 4;
    assert!(payload[cut..].chars().all(|c| c.is_ascii_hexdigit()));
    assert_eq!(
        payload[cut..],
        format!("{:04X}", crc16_ccitt_false(&payload[..cut]))
    );
    assert!(payload.contains("0108abc@bank"));
    assert!(payload.contains("5406100.00"));
    assert!(payload.contains("5913ESCOLA MODELO"));

    let view = ledger.load_contract_response(1, contract).unwrap();
    assert_eq!(view.student_name, "Joana");
    assert_eq!(view.school_code, "escola-modelo");
    assert_eq!(view.installments.len(), 1);
    assert_eq!(view.installments[0].pix_copy_paste, Some(payload));
}

#[test]
fn provider_mode_builds_links_from_the_base_url() {
    let mut ledger = Ledger::new();
    let p = staff(1);
    let student = ledger.add_student(1, "Aluno".to_string(), None);
    let contract = ledger
        .create_contract(
            &p,
            contract_request(student, None, 5_000, 1, ymd(2025, 2, 10), "provider_boleto", None),
        )
        .unwrap();
    ledger.generate_boletos(&p, contract, &encoder_config()).unwrap();
    let inst = &ledger.installments[0];
    let code = inst.boleto_code.clone().unwrap();
    assert!(code.starts_with("BLT-20250210-"));
    let url = inst.boleto_url.clone().unwrap();
    assert_eq!(url, format!("http://localhost:3333/boletos/{code}"));
    assert_eq!(
        inst.boleto_pdf_url.clone().unwrap(),
        format!("http://localhost:3333/boletos/{code}.pdf")
    );
    assert!(inst.pix_payload.is_none());
}

#[test]
fn settling_the_shadow_receivable_marks_the_installment_paid() {
    let mut ledger = Ledger::new();
    let p = admin(1);
    let student = ledger.add_student(1, "Aluno".to_string(), None);
    let account = ledger
        .create_financial_account(
            &p,
            CreateFinancialAccountRequest {
                name: "Conta".to_string(),
                account_type: "current".to_string(),
                initial_balance_cents: None,
            },
        )
        .unwrap();
    ledger
        .create_contract(
            &p,
            contract_request(student, None, 6_000, 2, ymd(2025, 1, 5), "school_booklet", None),
        )
        .unwrap();
    let shadow = ledger.receivables[0].id;
    let today = ymd(2025, 1, 20);
    let settler = staff(1);
    ledger
        .mark_receivable_received(
            &settler,
            shadow,
            MarkReceivableReceivedRequest { account_id: account, received_at: None },
            today,
        )
        .unwrap();
    assert_eq!(ledger.installments[0].status, InstallmentStatus::Paid);
    assert_eq!(ledger.installments[0].paid_on, Some(today));
    assert_eq!(ledger.installments[1].status, InstallmentStatus::Pending);
    assert_eq!(ledger.movements.len(), 1);
    assert_eq!(ledger.account_balance_cents(1, account), Ok(3_000));

    let again = ledger.mark_receivable_received(
        &p,
        shadow,
        MarkReceivableReceivedRequest { account_id: account, received_at: None },
        today,
    );
    assert_eq!(again, Err(LedgerError::Conflict));
    assert_eq!(ledger.movements.len(), 1);
}

#[test]
fn marking_an_installment_paid_cascades_to_its_receivable() {
    let mut ledger = Ledger::new();
    let p = staff(1);
    let student = ledger.add_student(1, "Aluno".to_string(), None);
    let contract = ledger
        .create_contract(
            &p,
            contract_request(student, None, 6_000, 2, ymd(2025, 1, 5), "school_booklet", None),
        )
        .unwrap();
    let inst = ledger.installments[0].id;
    let today = ymd(2025, 2, 2);
    ledger
        .mark_installment_paid(
            &p,
            contract,
            inst,
            MarkInstallmentPaidRequest { paid_at: Some(ymd(2025, 2, 1)) },
            today,
        )
        .unwrap();
    assert_eq!(ledger.installments[0].status, InstallmentStatus::Paid);
    assert_eq!(ledger.installments[0].paid_on, Some(ymd(2025, 2, 1)));
    assert_eq!(ledger.receivables[0].status, ReceivableStatus::Received);
    assert_eq!(ledger.receivables[0].received_on, Some(ymd(2025, 2, 1)));
    assert_eq!(ledger.movements.len(), 0);
}

#[test]
fn notification_run_logs_each_pair_and_stamps_installments() {
    let mut ledger = Ledger::new();
    let p = staff(1);
    let student = ledger.add_student(1, "Aluno".to_string(), None);
    let with_email = ledger.add_person(
        1,
        "Mae".to_string(),
        Some("mae@pais.example".to_string()),
        true,
        true,
    );
    let without_email = ledger.add_person(1, "Tio".to_string(), None, true, true);
    let mut req = contract_request(student, None, 9_000, 3, ymd(2025, 4, 1), "school_booklet", None);
    req.recipient_person_ids = vec![with_email, without_email];
    let contract = ledger.create_contract(&p, req).unwrap();
    let today = ymd(2025, 4, 15);
    let result = ledger.send_boletos_email(&p, contract, today).unwrap();
    assert_eq!(result.sent_to, 1);
    assert_eq!(result.installments_sent, 3);
    assert_eq!(ledger.email_logs.len(), 3);
    for log in ledger.email_logs.iter() {
        assert_eq!(log.recipient_person, with_email);
        assert_eq!(log.recipient_email, "mae@pais.example");
        assert_eq!(log.contract, contract);
        assert_eq!(log.sent_on, today);
    }
    assert!(ledger.installments.iter().all(|x| x.emailed_on == Some(today)));
}

#[test]
fn statement_totals_are_recomputed_from_receivables() {
    let mut ledger = Ledger::new();
    let p = admin(1);
    let guardian = ledger.add_person(1, "Pai".to_string(), None, true, true);
    let student = ledger.add_student(1, "Aluno".to_string(), None);
    let account = ledger
        .create_financial_account(
            &p,
            CreateFinancialAccountRequest {
                name: "Conta".to_string(),
                account_type: "current".to_string(),
                initial_balance_cents: None,
            },
        )
        .unwrap();
    ledger
        .create_contract(
            &p,
            contract_request(student, Some(guardian), 9_000, 3, ymd(2025, 1, 10), "school_booklet", None),
        )
        .unwrap();
    let first = ledger.receivables[0].id;
    ledger
        .mark_receivable_received(
            &p,
            first,
            MarkReceivableReceivedRequest { account_id: account, received_at: None },
            ymd(2025, 1, 12),
        )
        .unwrap();
    let stmt = ledger
        .get_financial_guardian_statement(
            &p,
            guardian,
            &FinancialGuardianStatementQuery { date_from: None, date_to: None },
        )
        .unwrap();
    assert_eq!(stmt.person_name, "Pai");
    assert_eq!(stmt.items.len(), 3);
    assert_eq!(stmt.total_paid_cents, 3_000);
    assert_eq!(stmt.total_open_cents, 6_000);
    assert_eq!(stmt.pending_balance_total_cents, 6_000);

    let ranged = ledger
        .get_financial_guardian_statement(
            &p,
            guardian,
            &FinancialGuardianStatementQuery {
                date_from: Some(ymd(2025, 2, 1)),
                date_to: Some(ymd(2025, 2, 28)),
            },
        )
        .unwrap();
    assert_eq!(ranged.items.len(), 1);
    assert_eq!(ranged.total_paid_cents, 0);
    assert_eq!(ranged.total_open_cents, 3_000);
    assert_eq!(ranged.pending_balance_total_cents, 6_000);
}

#[test]
fn contract_template_falls_back_and_validates_updates() {
    let mut ledger = Ledger::new();
    let p = admin(1);
    assert!(ledger.register_tenant(1, "Escola".to_string(), "esc".to_string()));
    let initial = ledger.get_contract_template(&p).unwrap();
    assert!(initial.template.starts_with("CONTRATO DE PRESTACAO"));
    assert!(initial.template.contains("{{school_name}}"));

    assert_eq!(
        ledger.update_contract_template(
            &p,
            UpdateContractTemplateRequest {
                template: "curto".to_string(),
                school_city: None,
                school_signature_name: None,
            },
        ),
        Err(LedgerError::Validation)
    );

    assert_eq!(
        ledger.update_contract_template(
            &p,
            UpdateContractTemplateRequest {
                template: "ã".repeat(19),
                school_city: None,
                school_signature_name: None,
            },
        ),
        Err(LedgerError::Validation)
    );
    ledger
        .update_contract_template(
            &p,
            UpdateContractTemplateRequest {
                template: "ã".repeat(20),
                school_city: None,
                school_signature_name: None,
            },
        )
        .unwrap();

    let long = "Contrato personalizado da escola, valido para o ano letivo corrente.";
    ledger
        .update_contract_template(
            &p,
            UpdateContractTemplateRequest {
                template: format!("  {long}  "),
                school_city: Some(" Sao Paulo ".to_string()),
                school_signature_name: Some("   ".to_string()),
            },
        )
        .unwrap();
    let stored = ledger.get_contract_template(&p).unwrap();
    assert_eq!(stored.template, long);
    assert_eq!(stored.school_city, Some("Sao Paulo".to_string()));
    assert_eq!(stored.school_signature_name, None);
}

#[test]
fn billing_mode_is_stored_on_the_contract() {
    let mut ledger = Ledger::new();
    let p = staff(1);
    let student = ledger.add_student(1, "Aluno".to_string(), None);
    ledger
        .create_contract(
            &p,
            contract_request(student, None, 1_000, 1, ymd(2025, 1, 1), " School_Booklet ", None),
        )
        .unwrap();
    assert_eq!(ledger.contracts[0].billing_mode, BillingMode::SchoolBooklet);
}

#[test]
fn plain_booklet_mode_gets_only_a_reference_code() {
    let mut ledger = Ledger::new();
    let p = staff(1);
    let student = ledger.add_student(1, "Aluno".to_string(), None);
    let contract = ledger
        .create_contract(
            &p,
            contract_request(student, None, 4_000, 2, ymd(2025, 7, 20), "school_booklet", None),
        )
        .unwrap();
    ledger.generate_boletos(&p, contract, &encoder_config()).unwrap();
    for inst in ledger.installments.iter() {
        let code = inst.boleto_code.clone().unwrap();
        assert!(code.starts_with("CRN-2025"));
        assert!(!code.starts_with("CRN-PIX"));
        assert!(inst.boleto_url.is_none());
        assert!(inst.pix_payload.is_none());
    }
}

#[test]
fn fixed_due_day_clamps_through_the_schedule() {
    let mut ledger = Ledger::new();
    let p = staff(1);
    let student = ledger.add_student(1, "Aluno".to_string(), None);
    let mut req = contract_request(student, None, 6_000, 3, ymd(2025, 3, 15), "school_booklet", None);
    req.due_day = Some(31);
    ledger.create_contract(&p, req).unwrap();
    let dues: Vec<DateYmd> = ledger.installments.iter().map(|x| x.due_date).collect();
    assert_eq!(dues, vec![ymd(2025, 3, 31), ymd(2025, 4, 30), ymd(2025, 5, 31)]);
}
