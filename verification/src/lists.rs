//! Tenant-scoped listings: obligations with their resolved display
//! names, the reference registries with derived balances, transfers,
//! and the assembled contract view, each returned in its listing
//! order.

use vstd::prelude::*;
use vstd::string::StringExecFns;
use vstd::utf8::encode_utf8;
use crate::auth::{can_operate, Principal};
use crate::contracts::student_display_string;
use crate::dates::{
    date_before, date_le_exec, lemma_date_le_antisymmetric, lemma_date_le_total,
    lemma_date_le_trans, DateYmd,
};
use crate::ledger::{
    balance_spec, find_record, has_record, lemma_record_found, of_tenant, record_at, Ledger,
    LedgerRecord,
};
use crate::model::{
    BillingMode, ContractStatus, Id, Installment, InstallmentStatus, LedgerError, Payable,
    PayableStatus, Receivable, ReceivableSource, ReceivableStatus,
};
use crate::ordering::{
    lemma_lex_le_total, lemma_lex_le_trans, lex_le, ordered, sort_rows, str_lex_le, ViewOrder,
};
use crate::registry::{
    FinancialAccountResponse, FinancialCategoryResponse, FinancialCounterpartyResponse,
};
use crate::text::clone_opt_string;

verus! {

/// A payable as reported to callers, with its resolved vendor and
/// category names.
pub struct PayableResponse {
    pub id: Id,
    pub description: String,
    pub vendor_person_id: Option<Id>,
    pub vendor_counterparty_id: Option<Id>,
    pub vendor_name: Option<String>,
    pub category_id: Option<Id>,
    pub category: Option<String>,
    pub due_date: DateYmd,
    pub amount_cents: i64,
    pub status: PayableStatus,
    pub account_id: Option<Id>,
    pub paid_on: Option<DateYmd>,
}

/// A receivable as reported to callers, with its resolved payer and
/// category names.
pub struct ReceivableResponse {
    pub id: Id,
    pub description: String,
    pub payer_person_id: Option<Id>,
    pub payer_counterparty_id: Option<Id>,
    pub payer_name: Option<String>,
    pub category_id: Option<Id>,
    pub category: Option<String>,
    pub due_date: DateYmd,
    pub amount_cents: i64,
    pub status: ReceivableStatus,
    pub source_type: ReceivableSource,
    pub contract_id: Option<Id>,
    pub installment_id: Option<Id>,
    pub student_id: Option<Id>,
    pub account_id: Option<Id>,
    pub received_on: Option<DateYmd>,
}

/// A transfer as reported to callers.
pub struct TransferResponse {
    pub id: Id,
    pub from_account_id: Id,
    pub to_account_id: Id,
    pub transfer_date: DateYmd,
    pub amount_cents: i64,
    pub note: Option<String>,
}

/// One installment inside the contract view.
pub struct InstallmentResponse {
    pub id: Id,
    pub installment_number: u32,
    pub due_date: DateYmd,
    pub amount_cents: i64,
    pub status: InstallmentStatus,
    pub boleto_code: Option<String>,
    pub boleto_url: Option<String>,
    pub boleto_pdf_url: Option<String>,
    pub pix_copy_paste: Option<String>,
    pub payment_instructions: Option<String>,
    pub emailed_on: Option<DateYmd>,
    pub paid_on: Option<DateYmd>,
}

/// A contract with its school context, student name and installments.
pub struct ContractResponse {
    pub id: Id,
    pub tenant_id: Id,
    pub student_id: Id,
    pub student_name: String,
    pub school_name: String,
    pub school_code: String,
    pub school_city: Option<String>,
    pub school_signature_name: Option<String>,
    pub payer_person_id: Option<Id>,
    pub recipient_person_ids: Vec<Id>,
    pub description: String,
    pub total_amount_cents: i64,
    pub installments_count: u32,
    pub first_due_date: DateYmd,
    pub due_day: Option<i32>,
    pub billing_mode: BillingMode,
    pub school_pix_key: Option<String>,
    pub school_payment_instructions: Option<String>,
    pub status: ContractStatus,
    pub installments: Vec<InstallmentResponse>,
}

// ---------------------------------------------------------------------
// What each listing row holds
// ---------------------------------------------------------------------
/// The stored name of an optionally referenced person.
pub open spec fn person_name_string(l: Ledger, tenant: Id, id: Option<Id>) -> Option<String> {
    match id {
        None => None,
        Some(x) => if has_record(l.people@, tenant, x) {
            Some(l.people@[record_at(l.people@, tenant, x)].name)
        } else {
            None
        },
    }
}

/// The stored name of an optionally referenced counterparty.
pub open spec fn counterparty_name_string(l: Ledger, tenant: Id, id: Option<Id>) -> Option<
    String,
> {
    match id {
        None => None,
        Some(x) => if has_record(l.counterparties@, tenant, x) {
            Some(l.counterparties@[record_at(l.counterparties@, tenant, x)].name)
        } else {
            None
        },
    }
}

/// The stored name of an optionally referenced category.
pub open spec fn category_name_string(l: Ledger, tenant: Id, id: Option<Id>) -> Option<String> {
    match id {
        None => None,
        Some(x) => if has_record(l.categories@, tenant, x) {
            Some(l.categories@[record_at(l.categories@, tenant, x)].name)
        } else {
            None
        },
    }
}

/// The vendor name shown for a payable: the person's current name,
/// then the counterparty's, then the stored legacy text.
pub open spec fn vendor_display_string(l: Ledger, tenant: Id, x: Payable) -> Option<String> {
    match person_name_string(l, tenant, x.vendor_person) {
        Some(n) => Some(n),
        None => match counterparty_name_string(l, tenant, x.vendor_counterparty) {
            Some(n) => Some(n),
            None => x.vendor_name_legacy,
        },
    }
}

/// The payer name shown for a receivable, resolved the same way.
pub open spec fn payer_display_string(l: Ledger, tenant: Id, x: Receivable) -> Option<String> {
    match person_name_string(l, tenant, x.payer_person) {
        Some(n) => Some(n),
        None => match counterparty_name_string(l, tenant, x.payer_counterparty) {
            Some(n) => Some(n),
            None => x.payer_name_legacy,
        },
    }
}

/// The category name shown for an obligation: the registered name,
/// then the stored legacy text.
pub open spec fn category_display_string(
    l: Ledger,
    tenant: Id,
    id: Option<Id>,
    legacy: Option<String>,
) -> Option<String> {
    match category_name_string(l, tenant, id) {
        Some(n) => Some(n),
        None => legacy,
    }
}

/// The caller view of one payable.
pub open spec fn payable_view(l: Ledger, tenant: Id, x: Payable) -> PayableResponse {
    PayableResponse {
        id: x.id,
        description: x.description,
        vendor_person_id: x.vendor_person,
        vendor_counterparty_id: x.vendor_counterparty,
        vendor_name: vendor_display_string(l, tenant, x),
        category_id: x.category,
        category: category_display_string(l, tenant, x.category, x.category_legacy),
        due_date: x.due_date,
        amount_cents: x.amount_cents,
        status: x.status,
        account_id: x.account,
        paid_on: x.paid_on,
    }
}

/// The caller view of one receivable.
pub open spec fn receivable_view(l: Ledger, tenant: Id, x: Receivable) -> ReceivableResponse {
    ReceivableResponse {
        id: x.id,
        description: x.description,
        payer_person_id: x.payer_person,
        payer_counterparty_id: x.payer_counterparty,
        payer_name: payer_display_string(l, tenant, x),
        category_id: x.category,
        category: category_display_string(l, tenant, x.category, x.category_legacy),
        due_date: x.due_date,
        amount_cents: x.amount_cents,
        status: x.status,
        source_type: x.source,
        contract_id: x.contract,
        installment_id: x.installment,
        student_id: x.student,
        account_id: x.account,
        received_on: x.received_on,
    }
}

/// The caller view of one account, with its derived balance.
pub open spec fn account_view(l: Ledger, a: crate::model::Account) -> FinancialAccountResponse {
    FinancialAccountResponse {
        id: a.id,
        name: a.name,
        account_type: a.kind,
        initial_balance_cents: a.initial_balance_cents,
        current_balance_cents: balance_spec(a, l.movements@) as i128,
        is_active: a.active,
    }
}

/// The caller view of one counterparty.
pub open spec fn counterparty_view(c: crate::model::Counterparty) -> FinancialCounterpartyResponse {
    FinancialCounterpartyResponse { id: c.id, name: c.name, kind: c.kind, is_active: c.active }
}

/// The caller view of one category.
pub open spec fn category_view(c: crate::model::Category) -> FinancialCategoryResponse {
    FinancialCategoryResponse { id: c.id, name: c.name, flow: c.flow, is_active: c.active }
}

/// The caller view of one transfer.
pub open spec fn transfer_view(t: crate::model::Transfer) -> TransferResponse {
    TransferResponse {
        id: t.id,
        from_account_id: t.from_account,
        to_account_id: t.to_account,
        transfer_date: t.date,
        amount_cents: t.amount_cents,
        note: t.note,
    }
}

/// The caller view of one installment inside a contract.
pub open spec fn installment_view(x: Installment) -> InstallmentResponse {
    InstallmentResponse {
        id: x.id,
        installment_number: x.number,
        due_date: x.due_date,
        amount_cents: x.amount_cents,
        status: x.status,
        boleto_code: x.boleto_code,
        boleto_url: x.boleto_url,
        boleto_pdf_url: x.boleto_pdf_url,
        pix_copy_paste: x.pix_payload,
        payment_instructions: x.payment_instructions,
        emailed_on: x.emailed_on,
        paid_on: x.paid_on,
    }
}

// ---------------------------------------------------------------------
// How each listing is ordered
// ---------------------------------------------------------------------
/// The rank of a payable status in listing order: settled rows first,
/// as the stored status words sort.
pub open spec fn payable_status_rank(s: PayableStatus) -> int {
    match s {
        PayableStatus::Paid => 0,
        PayableStatus::Pending => 1,
    }
}

/// The rank of a receivable status in listing order: pending rows
/// first, as the stored status words sort.
pub open spec fn receivable_status_rank(s: ReceivableStatus) -> int {
    match s {
        ReceivableStatus::Pending => 0,
        ReceivableStatus::Received => 1,
    }
}

/// The rank of an active flag in listing order: active rows first.
pub open spec fn active_rank(active: bool) -> int {
    if active {
        0
    } else {
        1
    }
}

impl ViewOrder for InstallmentResponse {
    /// Installments are listed by their schedule number, ascending.
    open spec fn leq(a: InstallmentResponse, b: InstallmentResponse) -> bool {
        a.installment_number <= b.installment_number
    }

    fn leq_exec(a: &InstallmentResponse, b: &InstallmentResponse) -> bool {
        a.installment_number <= b.installment_number
    }

    proof fn leq_total(a: InstallmentResponse, b: InstallmentResponse) {
    }

    proof fn leq_trans(a: InstallmentResponse, b: InstallmentResponse, c: InstallmentResponse) {
    }
}

impl ViewOrder for PayableResponse {
    /// Payables are listed by status, then due date ascending, newest
    /// record first among equals.
    open spec fn leq(a: PayableResponse, b: PayableResponse) -> bool {
        ||| payable_status_rank(a.status) < payable_status_rank(b.status)
        ||| (payable_status_rank(a.status) == payable_status_rank(b.status) && (date_before(
            a.due_date,
            b.due_date,
        ) || (a.due_date == b.due_date && a.id >= b.id)))
    }

    fn leq_exec(a: &PayableResponse, b: &PayableResponse) -> bool {
        let ra: u8 = match a.status {
            PayableStatus::Paid => 0,
            PayableStatus::Pending => 1,
        };
        let rb: u8 = match b.status {
            PayableStatus::Paid => 0,
            PayableStatus::Pending => 1,
        };
        ra < rb || (ra == rb && ((date_le_exec(&a.due_date, &b.due_date) && a.due_date
            != b.due_date) || (a.due_date == b.due_date && a.id >= b.id)))
    }

    proof fn leq_total(a: PayableResponse, b: PayableResponse) {
        lemma_date_le_total(a.due_date, b.due_date);
        if crate::dates::date_le(a.due_date, b.due_date) && crate::dates::date_le(
            b.due_date,
            a.due_date,
        ) {
            lemma_date_le_antisymmetric(a.due_date, b.due_date);
        }
    }

    proof fn leq_trans(a: PayableResponse, b: PayableResponse, c: PayableResponse) {
        lemma_date_le_total(a.due_date, b.due_date);
        lemma_date_le_total(b.due_date, c.due_date);
        lemma_date_le_total(a.due_date, c.due_date);
        if crate::dates::date_le(a.due_date, b.due_date) && crate::dates::date_le(
            b.due_date,
            c.due_date,
        ) {
            lemma_date_le_trans(a.due_date, b.due_date, c.due_date);
        }
        if crate::dates::date_le(a.due_date, c.due_date) && crate::dates::date_le(
            c.due_date,
            a.due_date,
        ) {
            lemma_date_le_antisymmetric(a.due_date, c.due_date);
        }
    }
}

impl ViewOrder for ReceivableResponse {
    /// Receivables are listed by status, then due date ascending,
    /// newest record first among equals.
    open spec fn leq(a: ReceivableResponse, b: ReceivableResponse) -> bool {
        ||| receivable_status_rank(a.status) < receivable_status_rank(b.status)
        ||| (receivable_status_rank(a.status) == receivable_status_rank(b.status) && (date_before(
            a.due_date,
            b.due_date,
        ) || (a.due_date == b.due_date && a.id >= b.id)))
    }

    fn leq_exec(a: &ReceivableResponse, b: &ReceivableResponse) -> bool {
        let ra: u8 = match a.status {
            ReceivableStatus::Pending => 0,
            ReceivableStatus::Received => 1,
        };
        let rb: u8 = match b.status {
            ReceivableStatus::Pending => 0,
            ReceivableStatus::Received => 1,
        };
        ra < rb || (ra == rb && ((date_le_exec(&a.due_date, &b.due_date) && a.due_date
            != b.due_date) || (a.due_date == b.due_date && a.id >= b.id)))
    }

    proof fn leq_total(a: ReceivableResponse, b: ReceivableResponse) {
        lemma_date_le_total(a.due_date, b.due_date);
        if crate::dates::date_le(a.due_date, b.due_date) && crate::dates::date_le(
            b.due_date,
            a.due_date,
        ) {
            lemma_date_le_antisymmetric(a.due_date, b.due_date);
        }
    }

    proof fn leq_trans(a: ReceivableResponse, b: ReceivableResponse, c: ReceivableResponse) {
        lemma_date_le_total(a.due_date, b.due_date);
        lemma_date_le_total(b.due_date, c.due_date);
        lemma_date_le_total(a.due_date, c.due_date);
        if crate::dates::date_le(a.due_date, b.due_date) && crate::dates::date_le(
            b.due_date,
            c.due_date,
        ) {
            lemma_date_le_trans(a.due_date, b.due_date, c.due_date);
        }
        if crate::dates::date_le(a.due_date, c.due_date) && crate::dates::date_le(
            c.due_date,
            a.due_date,
        ) {
            lemma_date_le_antisymmetric(a.due_date, c.due_date);
        }
    }
}

impl ViewOrder for TransferResponse {
    /// Transfers are listed newest first: by date descending, newest
    /// record first among equals.
    open spec fn leq(a: TransferResponse, b: TransferResponse) -> bool {
        date_before(b.transfer_date, a.transfer_date) || (a.transfer_date == b.transfer_date
            && a.id >= b.id)
    }

    fn leq_exec(a: &TransferResponse, b: &TransferResponse) -> bool {
        (date_le_exec(&b.transfer_date, &a.transfer_date) && a.transfer_date != b.transfer_date)
            || (a.transfer_date == b.transfer_date && a.id >= b.id)
    }

    proof fn leq_total(a: TransferResponse, b: TransferResponse) {
        lemma_date_le_total(a.transfer_date, b.transfer_date);
        if crate::dates::date_le(a.transfer_date, b.transfer_date) && crate::dates::date_le(
            b.transfer_date,
            a.transfer_date,
        ) {
            lemma_date_le_antisymmetric(a.transfer_date, b.transfer_date);
        }
    }

    proof fn leq_trans(a: TransferResponse, b: TransferResponse, c: TransferResponse) {
        lemma_date_le_total(a.transfer_date, b.transfer_date);
        lemma_date_le_total(b.transfer_date, c.transfer_date);
        lemma_date_le_total(a.transfer_date, c.transfer_date);
        if crate::dates::date_le(c.transfer_date, b.transfer_date) && crate::dates::date_le(
            b.transfer_date,
            a.transfer_date,
        ) {
            lemma_date_le_trans(c.transfer_date, b.transfer_date, a.transfer_date);
        }
        if crate::dates::date_le(a.transfer_date, c.transfer_date) && crate::dates::date_le(
            c.transfer_date,
            a.transfer_date,
        ) {
            lemma_date_le_antisymmetric(a.transfer_date, c.transfer_date);
        }
    }
}

impl ViewOrder for ContractResponse {
    /// Contracts are listed newest first.
    open spec fn leq(a: ContractResponse, b: ContractResponse) -> bool {
        a.id >= b.id
    }

    fn leq_exec(a: &ContractResponse, b: &ContractResponse) -> bool {
        a.id >= b.id
    }

    proof fn leq_total(a: ContractResponse, b: ContractResponse) {
    }

    proof fn leq_trans(a: ContractResponse, b: ContractResponse, c: ContractResponse) {
    }
}

impl ViewOrder for FinancialAccountResponse {
    /// Accounts are listed active first, then by name, byte by byte.
    open spec fn leq(a: FinancialAccountResponse, b: FinancialAccountResponse) -> bool {
        ||| active_rank(a.is_active) < active_rank(b.is_active)
        ||| (active_rank(a.is_active) == active_rank(b.is_active) && lex_le(
            encode_utf8(a.name@),
            encode_utf8(b.name@),
        ))
    }

    fn leq_exec(a: &FinancialAccountResponse, b: &FinancialAccountResponse) -> bool {
        (a.is_active && !b.is_active) || (a.is_active == b.is_active && str_lex_le(
            a.name.as_str(),
            b.name.as_str(),
        ))
    }

    proof fn leq_total(a: FinancialAccountResponse, b: FinancialAccountResponse) {
        lemma_lex_le_total(encode_utf8(a.name@), encode_utf8(b.name@));
    }

    proof fn leq_trans(
        a: FinancialAccountResponse,
        b: FinancialAccountResponse,
        c: FinancialAccountResponse,
    ) {
        if lex_le(encode_utf8(a.name@), encode_utf8(b.name@)) && lex_le(
            encode_utf8(b.name@),
            encode_utf8(c.name@),
        ) {
            lemma_lex_le_trans(encode_utf8(a.name@), encode_utf8(b.name@), encode_utf8(c.name@));
        }
    }
}

impl ViewOrder for FinancialCounterpartyResponse {
    /// Counterparties are listed active first, then by name, byte by
    /// byte.
    open spec fn leq(a: FinancialCounterpartyResponse, b: FinancialCounterpartyResponse) -> bool {
        ||| active_rank(a.is_active) < active_rank(b.is_active)
        ||| (active_rank(a.is_active) == active_rank(b.is_active) && lex_le(
            encode_utf8(a.name@),
            encode_utf8(b.name@),
        ))
    }

    fn leq_exec(a: &FinancialCounterpartyResponse, b: &FinancialCounterpartyResponse) -> bool {
        (a.is_active && !b.is_active) || (a.is_active == b.is_active && str_lex_le(
            a.name.as_str(),
            b.name.as_str(),
        ))
    }

    proof fn leq_total(a: FinancialCounterpartyResponse, b: FinancialCounterpartyResponse) {
        lemma_lex_le_total(encode_utf8(a.name@), encode_utf8(b.name@));
    }

    proof fn leq_trans(
        a: FinancialCounterpartyResponse,
        b: FinancialCounterpartyResponse,
        c: FinancialCounterpartyResponse,
    ) {
        if lex_le(encode_utf8(a.name@), encode_utf8(b.name@)) && lex_le(
            encode_utf8(b.name@),
            encode_utf8(c.name@),
        ) {
            lemma_lex_le_trans(encode_utf8(a.name@), encode_utf8(b.name@), encode_utf8(c.name@));
        }
    }
}

impl ViewOrder for FinancialCategoryResponse {
    /// Categories are listed active first, then by name, byte by byte.
    open spec fn leq(a: FinancialCategoryResponse, b: FinancialCategoryResponse) -> bool {
        ||| active_rank(a.is_active) < active_rank(b.is_active)
        ||| (active_rank(a.is_active) == active_rank(b.is_active) && lex_le(
            encode_utf8(a.name@),
            encode_utf8(b.name@),
        ))
    }

    fn leq_exec(a: &FinancialCategoryResponse, b: &FinancialCategoryResponse) -> bool {
        (a.is_active && !b.is_active) || (a.is_active == b.is_active && str_lex_le(
            a.name.as_str(),
            b.name.as_str(),
        ))
    }

    proof fn leq_total(a: FinancialCategoryResponse, b: FinancialCategoryResponse) {
        lemma_lex_le_total(encode_utf8(a.name@), encode_utf8(b.name@));
    }

    proof fn leq_trans(
        a: FinancialCategoryResponse,
        b: FinancialCategoryResponse,
        c: FinancialCategoryResponse,
    ) {
        if lex_le(encode_utf8(a.name@), encode_utf8(b.name@)) && lex_le(
            encode_utf8(b.name@),
            encode_utf8(c.name@),
        ) {
            lemma_lex_le_trans(encode_utf8(a.name@), encode_utf8(b.name@), encode_utf8(c.name@));
        }
    }
}

// ---------------------------------------------------------------------
// Name resolution
// ---------------------------------------------------------------------
impl Ledger {
    /// Resolves the registered name of an optional person reference.
    fn resolve_person_name(&self, tenant: Id, id: Option<Id>) -> (r: Option<String>)
        requires
            self.wf(),
        ensures
            r == person_name_string(*self, tenant, id),
    {
        match id {
            None => None,
            Some(x) => match find_record(&self.people, tenant, x) {
                None => None,
                Some(k) => {
                    proof {
                        lemma_record_found(self.people@, tenant, x, k as int);
                    }
                    Some(self.people[k].name.clone())
                },
            },
        }
    }

    /// Resolves the registered name of an optional counterparty
    /// reference.
    fn resolve_counterparty_name(&self, tenant: Id, id: Option<Id>) -> (r: Option<String>)
        requires
            self.wf(),
        ensures
            r == counterparty_name_string(*self, tenant, id),
    {
        match id {
            None => None,
            Some(x) => match find_record(&self.counterparties, tenant, x) {
                None => None,
                Some(k) => {
                    proof {
                        lemma_record_found(self.counterparties@, tenant, x, k as int);
                    }
                    Some(self.counterparties[k].name.clone())
                },
            },
        }
    }

    /// Resolves the registered name of an optional category reference.
    fn resolve_category_name(&self, tenant: Id, id: Option<Id>) -> (r: Option<String>)
        requires
            self.wf(),
        ensures
            r == category_name_string(*self, tenant, id),
    {
        match id {
            None => None,
            Some(x) => match find_record(&self.categories, tenant, x) {
                None => None,
                Some(k) => {
                    proof {
                        lemma_record_found(self.categories@, tenant, x, k as int);
                    }
                    Some(self.categories[k].name.clone())
                },
            },
        }
    }

    /// Builds the caller view of one payable, resolving the vendor and
    /// category names with their legacy fallbacks.
    fn payable_response(&self, tenant: Id, x: &Payable) -> (r: PayableResponse)
        requires
            self.wf(),
        ensures
            r == payable_view(*self, tenant, *x),
    {
        let vendor_name: Option<String> = match self.resolve_person_name(tenant, x.vendor_person) {
            Some(n) => Some(n),
            None => match self.resolve_counterparty_name(tenant, x.vendor_counterparty) {
                Some(n) => Some(n),
                None => clone_opt_string(&x.vendor_name_legacy),
            },
        };
        let category: Option<String> = match self.resolve_category_name(tenant, x.category) {
            Some(n) => Some(n),
            None => clone_opt_string(&x.category_legacy),
        };
        PayableResponse {
            id: x.id,
            description: x.description.clone(),
            vendor_person_id: x.vendor_person,
            vendor_counterparty_id: x.vendor_counterparty,
            vendor_name,
            category_id: x.category,
            category,
            due_date: x.due_date,
            amount_cents: x.amount_cents,
            status: x.status,
            account_id: x.account,
            paid_on: x.paid_on,
        }
    }

    /// Builds the caller view of one receivable, resolving the payer
    /// and category names with their legacy fallbacks.
    fn receivable_response(&self, tenant: Id, x: &Receivable) -> (r: ReceivableResponse)
        requires
            self.wf(),
        ensures
            r == receivable_view(*self, tenant, *x),
    {
        let payer_name: Option<String> = match self.resolve_person_name(tenant, x.payer_person) {
            Some(n) => Some(n),
            None => match self.resolve_counterparty_name(tenant, x.payer_counterparty) {
                Some(n) => Some(n),
                None => clone_opt_string(&x.payer_name_legacy),
            },
        };
        let category: Option<String> = match self.resolve_category_name(tenant, x.category) {
            Some(n) => Some(n),
            None => clone_opt_string(&x.category_legacy),
        };
        ReceivableResponse {
            id: x.id,
            description: x.description.clone(),
            payer_person_id: x.payer_person,
            payer_counterparty_id: x.payer_counterparty,
            payer_name,
            category_id: x.category,
            category,
            due_date: x.due_date,
            amount_cents: x.amount_cents,
            status: x.status,
            source_type: x.source,
            contract_id: x.contract,
            installment_id: x.installment,
            student_id: x.student,
            account_id: x.account,
            received_on: x.received_on,
        }
    }

    /// Lists the tenant's payables with resolved names: exactly one
    /// row per payable of the tenant, ordered by status, due date
    /// ascending and newest first among equals.
    #[verifier::loop_isolation(false)]
    pub fn list_payables(&self, p: &Principal) -> (r: Result<Vec<PayableResponse>, LedgerError>)
        requires
            self.wf(),
        ensures
            !can_operate(p.role) ==> r == Err::<Vec<PayableResponse>, LedgerError>(
                LedgerError::Forbidden,
            ),
            can_operate(p.role) ==> ({
                let rows = of_tenant(self.payables@, p.tenant).map_values(
                    |x: Payable| payable_view(*self, p.tenant, x),
                );
                &&& r is Ok
                &&& r->Ok_0@.len() == rows.len()
                &&& r->Ok_0@.to_multiset() == rows.to_multiset()
                &&& ordered(r->Ok_0@)
            }),
    {
        if !p.may_operate() {
            return Err(LedgerError::Forbidden);
        }
        let n = self.payables.len();
        let mut out: Vec<PayableResponse> = Vec::new();
        let mut i: usize = 0;
        while i < n
            invariant
                0 <= i <= n,
                out@ == of_tenant(self.payables@.take(i as int), p.tenant).map_values(
                    |x: Payable| payable_view(*self, p.tenant, x),
                ),
            decreases n - i,
        {
            proof {
                assert(self.payables@.take(i + 1).drop_last() =~= self.payables@.take(i as int));
                assert(self.payables@.take(i + 1).last() == self.payables@[i as int]);
            }
            let x = &self.payables[i];
            if x.etenant() == p.tenant {
                let resp = self.payable_response(p.tenant, x);
                out.push(resp);
            }
            i = i + 1;
            proof {
                assert(out@ =~= of_tenant(self.payables@.take(i as int), p.tenant).map_values(
                    |x: Payable| payable_view(*self, p.tenant, x),
                ));
            }
        }
        proof {
            assert(self.payables@.take(n as int) =~= self.payables@);
        }
        Ok(sort_rows(out))
    }

    /// Lists the tenant's receivables with resolved names: exactly one
    /// row per receivable of the tenant, ordered by status, due date
    /// ascending and newest first among equals.
    #[verifier::loop_isolation(false)]
    pub fn list_receivables(&self, p: &Principal) -> (r: Result<
        Vec<ReceivableResponse>,
        LedgerError,
    >)
        requires
            self.wf(),
        ensures
            !can_operate(p.role) ==> r == Err::<Vec<ReceivableResponse>, LedgerError>(
                LedgerError::Forbidden,
            ),
            can_operate(p.role) ==> ({
                let rows = of_tenant(self.receivables@, p.tenant).map_values(
                    |x: Receivable| receivable_view(*self, p.tenant, x),
                );
                &&& r is Ok
                &&& r->Ok_0@.len() == rows.len()
                &&& r->Ok_0@.to_multiset() == rows.to_multiset()
                &&& ordered(r->Ok_0@)
            }),
    {
        if !p.may_operate() {
            return Err(LedgerError::Forbidden);
        }
        let n = self.receivables.len();
        let mut out: Vec<ReceivableResponse> = Vec::new();
        let mut i: usize = 0;
        while i < n
            invariant
                0 <= i <= n,
                out@ == of_tenant(self.receivables@.take(i as int), p.tenant).map_values(
                    |x: Receivable| receivable_view(*self, p.tenant, x),
                ),
            decreases n - i,
        {
            proof {
                assert(self.receivables@.take(i + 1).drop_last() =~= self.receivables@.take(
                    i as int,
                ));
                assert(self.receivables@.take(i + 1).last() == self.receivables@[i as int]);
            }
            let x = &self.receivables[i];
            if x.etenant() == p.tenant {
                let resp = self.receivable_response(p.tenant, x);
                out.push(resp);
            }
            i = i + 1;
            proof {
                assert(out@ =~= of_tenant(self.receivables@.take(i as int), p.tenant).map_values(
                    |x: Receivable| receivable_view(*self, p.tenant, x),
                ));
            }
        }
        proof {
            assert(self.receivables@.take(n as int) =~= self.receivables@);
        }
        Ok(sort_rows(out))
    }

    /// Lists the tenant's accounts with their derived balances:
    /// exactly one row per account, active rows first, then by name in
    /// byte order.
    #[verifier::loop_isolation(false)]
    pub fn list_financial_accounts(&self, p: &Principal) -> (r: Result<
        Vec<FinancialAccountResponse>,
        LedgerError,
    >)
        requires
            self.wf(),
        ensures
            !can_operate(p.role) ==> r == Err::<Vec<FinancialAccountResponse>, LedgerError>(
                LedgerError::Forbidden,
            ),
            can_operate(p.role) ==> ({
                let rows = of_tenant(self.accounts@, p.tenant).map_values(
                    |a: crate::model::Account| account_view(*self, a),
                );
                &&& r is Ok
                &&& r->Ok_0@.len() == rows.len()
                &&& r->Ok_0@.to_multiset() == rows.to_multiset()
                &&& ordered(r->Ok_0@)
            }),
    {
        if !p.may_operate() {
            return Err(LedgerError::Forbidden);
        }
        let n = self.accounts.len();
        let mut out: Vec<FinancialAccountResponse> = Vec::new();
        let mut i: usize = 0;
        while i < n
            invariant
                0 <= i <= n,
                out@ == of_tenant(self.accounts@.take(i as int), p.tenant).map_values(
                    |a: crate::model::Account| account_view(*self, a),
                ),
            decreases n - i,
        {
            proof {
                assert(self.accounts@.take(i + 1).drop_last() =~= self.accounts@.take(i as int));
                assert(self.accounts@.take(i + 1).last() == self.accounts@[i as int]);
            }
            let x = &self.accounts[i];
            if x.etenant() == p.tenant {
                proof {
                    lemma_record_found(
                        self.accounts@,
                        p.tenant,
                        self.accounts@[i as int].id,
                        i as int,
                    );
                }
                let balance = match self.account_balance_cents(p.tenant, x.eid()) {
                    Ok(b) => b,
                    Err(_) => {
                        proof {
                            assert(false);
                        }
                        0
                    },
                };
                out.push(
                    FinancialAccountResponse {
                        id: x.id,
                        name: x.name.clone(),
                        account_type: x.kind,
                        initial_balance_cents: x.initial_balance_cents,
                        current_balance_cents: balance,
                        is_active: x.active,
                    },
                );
            }
            i = i + 1;
            proof {
                assert(out@ =~= of_tenant(self.accounts@.take(i as int), p.tenant).map_values(
                    |a: crate::model::Account| account_view(*self, a),
                ));
            }
        }
        proof {
            assert(self.accounts@.take(n as int) =~= self.accounts@);
        }
        Ok(sort_rows(out))
    }

    /// Lists the tenant's counterparties: exactly one row per
    /// counterparty, active rows first, then by name in byte order.
    #[verifier::loop_isolation(false)]
    pub fn list_financial_counterparties(&self, p: &Principal) -> (r: Result<
        Vec<FinancialCounterpartyResponse>,
        LedgerError,
    >)
        requires
            self.wf(),
        ensures
            !can_operate(p.role) ==> r == Err::<Vec<FinancialCounterpartyResponse>, LedgerError>(
                LedgerError::Forbidden,
            ),
            can_operate(p.role) ==> ({
                let rows = of_tenant(self.counterparties@, p.tenant).map_values(
                    |c: crate::model::Counterparty| counterparty_view(c),
                );
                &&& r is Ok
                &&& r->Ok_0@.len() == rows.len()
                &&& r->Ok_0@.to_multiset() == rows.to_multiset()
                &&& ordered(r->Ok_0@)
            }),
    {
        if !p.may_operate() {
            return Err(LedgerError::Forbidden);
        }
        let n = self.counterparties.len();
        let mut out: Vec<FinancialCounterpartyResponse> = Vec::new();
        let mut i: usize = 0;
        while i < n
            invariant
                0 <= i <= n,
                out@ == of_tenant(self.counterparties@.take(i as int), p.tenant).map_values(
                    |c: crate::model::Counterparty| counterparty_view(c),
                ),
            decreases n - i,
        {
            proof {
                assert(self.counterparties@.take(i + 1).drop_last() =~= self.counterparties@.take(
                    i as int,
                ));
                assert(self.counterparties@.take(i + 1).last() == self.counterparties@[i as int]);
            }
            let x = &self.counterparties[i];
            if x.etenant() == p.tenant {
                out.push(
                    FinancialCounterpartyResponse {
                        id: x.id,
                        name: x.name.clone(),
                        kind: x.kind,
                        is_active: x.active,
                    },
                );
            }
            i = i + 1;
            proof {
                assert(out@ =~= of_tenant(self.counterparties@.take(i as int), p.tenant).map_values(
                    |c: crate::model::Counterparty| counterparty_view(c),
                ));
            }
        }
        proof {
            assert(self.counterparties@.take(n as int) =~= self.counterparties@);
        }
        Ok(sort_rows(out))
    }

    /// Lists the tenant's categories: exactly one row per category,
    /// active rows first, then by name in byte order.
    #[verifier::loop_isolation(false)]
    pub fn list_financial_categories(&self, p: &Principal) -> (r: Result<
        Vec<FinancialCategoryResponse>,
        LedgerError,
    >)
        requires
            self.wf(),
        ensures
            !can_operate(p.role) ==> r == Err::<Vec<FinancialCategoryResponse>, LedgerError>(
                LedgerError::Forbidden,
            ),
            can_operate(p.role) ==> ({
                let rows = of_tenant(self.categories@, p.tenant).map_values(
                    |c: crate::model::Category| category_view(c),
                );
                &&& r is Ok
                &&& r->Ok_0@.len() == rows.len()
                &&& r->Ok_0@.to_multiset() == rows.to_multiset()
                &&& ordered(r->Ok_0@)
            }),
    {
        if !p.may_operate() {
            return Err(LedgerError::Forbidden);
        }
        let n = self.categories.len();
        let mut out: Vec<FinancialCategoryResponse> = Vec::new();
        let mut i: usize = 0;
        while i < n
            invariant
                0 <= i <= n,
                out@ == of_tenant(self.categories@.take(i as int), p.tenant).map_values(
                    |c: crate::model::Category| category_view(c),
                ),
            decreases n - i,
        {
            proof {
                assert(self.categories@.take(i + 1).drop_last() =~= self.categories@.take(
                    i as int,
                ));
                assert(self.categories@.take(i + 1).last() == self.categories@[i as int]);
            }
            let x = &self.categories[i];
            if x.etenant() == p.tenant {
                out.push(
                    FinancialCategoryResponse {
                        id: x.id,
                        name: x.name.clone(),
                        flow: x.flow,
                        is_active: x.active,
                    },
                );
            }
            i = i + 1;
            proof {
                assert(out@ =~= of_tenant(self.categories@.take(i as int), p.tenant).map_values(
                    |c: crate::model::Category| category_view(c),
                ));
            }
        }
        proof {
            assert(self.categories@.take(n as int) =~= self.categories@);
        }
        Ok(sort_rows(out))
    }

    /// Lists the tenant's transfers: exactly one row per transfer,
    /// newest first by date, newest record first among equals.
    #[verifier::loop_isolation(false)]
    pub fn list_transfers(&self, p: &Principal) -> (r: Result<Vec<TransferResponse>, LedgerError>)
        requires
            self.wf(),
        ensures
            !can_operate(p.role) ==> r == Err::<Vec<TransferResponse>, LedgerError>(
                LedgerError::Forbidden,
            ),
            can_operate(p.role) ==> ({
                let rows = of_tenant(self.transfers@, p.tenant).map_values(
                    |t: crate::model::Transfer| transfer_view(t),
                );
                &&& r is Ok
                &&& r->Ok_0@.len() == rows.len()
                &&& r->Ok_0@.to_multiset() == rows.to_multiset()
                &&& ordered(r->Ok_0@)
            }),
    {
        if !p.may_operate() {
            return Err(LedgerError::Forbidden);
        }
        let n = self.transfers.len();
        let mut out: Vec<TransferResponse> = Vec::new();
        let mut i: usize = 0;
        while i < n
            invariant
                0 <= i <= n,
                out@ == of_tenant(self.transfers@.take(i as int), p.tenant).map_values(
                    |t: crate::model::Transfer| transfer_view(t),
                ),
            decreases n - i,
        {
            proof {
                assert(self.transfers@.take(i + 1).drop_last() =~= self.transfers@.take(i as int));
                assert(self.transfers@.take(i + 1).last() == self.transfers@[i as int]);
            }
            let x = &self.transfers[i];
            if x.etenant() == p.tenant {
                out.push(
                    TransferResponse {
                        id: x.id,
                        from_account_id: x.from_account,
                        to_account_id: x.to_account,
                        transfer_date: x.date,
                        amount_cents: x.amount_cents,
                        note: clone_opt_string(&x.note),
                    },
                );
            }
            i = i + 1;
            proof {
                assert(out@ =~= of_tenant(self.transfers@.take(i as int), p.tenant).map_values(
                    |t: crate::model::Transfer| transfer_view(t),
                ));
            }
        }
        proof {
            assert(self.transfers@.take(n as int) =~= self.transfers@);
        }
        Ok(sort_rows(out))
    }

    /// Assembles the full view of one contract: its school context,
    /// the student's display name, its installments ordered by
    /// schedule number, and its recipients ordered by identifier.
    #[verifier::loop_isolation(false)]
    pub fn load_contract_response(&self, tenant: Id, contract_id: Id) -> (r: Result<
        ContractResponse,
        LedgerError,
    >)
        requires
            self.wf(),
        ensures
            !has_record(self.contracts@, tenant, contract_id) ==> r == Err::<
                ContractResponse,
                LedgerError,
            >(LedgerError::NotFound),
            has_record(self.contracts@, tenant, contract_id) && !has_record(
                self.tenants@,
                tenant,
                tenant,
            ) ==> r == Err::<ContractResponse, LedgerError>(LedgerError::NotFound),
            ({
                let c = self.contracts@[record_at(self.contracts@, tenant, contract_id)];
                has_record(self.contracts@, tenant, contract_id) && has_record(
                    self.tenants@,
                    tenant,
                    tenant,
                ) && !has_record(self.students@, tenant, c.student) ==> r == Err::<
                    ContractResponse,
                    LedgerError,
                >(LedgerError::NotFound)
            }),
            ({
                let c = self.contracts@[record_at(self.contracts@, tenant, contract_id)];
                let ts = self.tenants@[record_at(self.tenants@, tenant, tenant)];
                let insts = contract_installments(self.installments@, tenant, contract_id);
                has_record(self.contracts@, tenant, contract_id) && has_record(
                    self.tenants@,
                    tenant,
                    tenant,
                ) && has_record(self.students@, tenant, c.student) ==> {
                    &&& r is Ok
                    &&& r->Ok_0.id == c.id
                    &&& r->Ok_0.tenant_id == tenant
                    &&& r->Ok_0.student_id == c.student
                    &&& r->Ok_0.student_name == student_display_string(*self, tenant, c.student)
                    &&& r->Ok_0.school_name == ts.school_name
                    &&& r->Ok_0.school_code == ts.school_code
                    &&& r->Ok_0.school_city == ts.school_city
                    &&& r->Ok_0.school_signature_name == ts.school_signature_name
                    &&& r->Ok_0.payer_person_id == c.payer_person
                    &&& r->Ok_0.recipient_person_ids@.to_multiset() == c.recipients@.to_multiset()
                    &&& ordered(r->Ok_0.recipient_person_ids@)
                    &&& r->Ok_0.description == c.description
                    &&& r->Ok_0.total_amount_cents == c.total_amount_cents
                    &&& r->Ok_0.installments_count == c.installments_count
                    &&& r->Ok_0.first_due_date == c.first_due_date
                    &&& r->Ok_0.due_day == c.due_day
                    &&& r->Ok_0.billing_mode == c.billing_mode
                    &&& r->Ok_0.school_pix_key == c.school_pix_key
                    &&& r->Ok_0.school_payment_instructions == c.school_payment_instructions
                    &&& r->Ok_0.status == c.status
                    &&& r->Ok_0.installments@.len() == insts.len()
                    &&& r->Ok_0.installments@.to_multiset() == insts.map_values(
                        |x: Installment| installment_view(x),
                    ).to_multiset()
                    &&& ordered(r->Ok_0.installments@)
                }
            }),
    {
        let cidx = match find_record(&self.contracts, tenant, contract_id) {
            None => {
                return Err(LedgerError::NotFound);
            },
            Some(i) => i,
        };
        proof {
            lemma_record_found(self.contracts@, tenant, contract_id, cidx as int);
        }
        let tidx = match find_record(&self.tenants, tenant, tenant) {
            None => {
                return Err(LedgerError::NotFound);
            },
            Some(i) => i,
        };
        proof {
            lemma_record_found(self.tenants@, tenant, tenant, tidx as int);
        }
        let student_id = self.contracts[cidx].student;
        let sidx = match find_record(&self.students, tenant, student_id) {
            None => {
                return Err(LedgerError::NotFound);
            },
            Some(i) => i,
        };
        proof {
            lemma_record_found(self.students@, tenant, student_id, sidx as int);
        }
        let n = self.installments.len();
        let mut raw: Vec<InstallmentResponse> = Vec::new();
        let mut i: usize = 0;
        while i < n
            invariant
                0 <= i <= n,
                raw@ == contract_installments(
                    self.installments@.take(i as int),
                    tenant,
                    contract_id,
                ).map_values(|x: Installment| installment_view(x)),
            decreases n - i,
        {
            proof {
                assert(self.installments@.take(i + 1).drop_last() =~= self.installments@.take(
                    i as int,
                ));
                assert(self.installments@.take(i + 1).last() == self.installments@[i as int]);
            }
            let x = &self.installments[i];
            if x.etenant() == tenant && x.contract == contract_id {
                raw.push(
                    InstallmentResponse {
                        id: x.id,
                        installment_number: x.number,
                        due_date: x.due_date,
                        amount_cents: x.amount_cents,
                        status: x.status,
                        boleto_code: clone_opt_string(&x.boleto_code),
                        boleto_url: clone_opt_string(&x.boleto_url),
                        boleto_pdf_url: clone_opt_string(&x.boleto_pdf_url),
                        pix_copy_paste: clone_opt_string(&x.pix_payload),
                        payment_instructions: clone_opt_string(&x.payment_instructions),
                        emailed_on: x.emailed_on,
                        paid_on: x.paid_on,
                    },
                );
            }
            i = i + 1;
            proof {
                assert(raw@ =~= contract_installments(
                    self.installments@.take(i as int),
                    tenant,
                    contract_id,
                ).map_values(|x: Installment| installment_view(x)));
            }
        }
        proof {
            assert(self.installments@.take(n as int) =~= self.installments@);
        }
        let installments = sort_rows(raw);
        let c = &self.contracts[cidx];
        let ts = &self.tenants[tidx];
        let recipients = sort_rows(copy_ids(&c.recipients));
        Ok(
            ContractResponse {
                id: c.id,
                tenant_id: tenant,
                student_id: c.student,
                student_name: self.student_name_of(tenant, sidx),
                school_name: ts.school_name.clone(),
                school_code: ts.school_code.clone(),
                school_city: clone_opt_string(&ts.school_city),
                school_signature_name: clone_opt_string(&ts.school_signature_name),
                payer_person_id: c.payer_person,
                recipient_person_ids: recipients,
                description: c.description.clone(),
                total_amount_cents: c.total_amount_cents,
                installments_count: c.installments_count,
                first_due_date: c.first_due_date,
                due_day: c.due_day,
                billing_mode: c.billing_mode,
                school_pix_key: clone_opt_string(&c.school_pix_key),
                school_payment_instructions: clone_opt_string(&c.school_payment_instructions),
                status: c.status,
                installments,
            },
        )
    }

    /// Lists the tenant's contracts, each assembled with its school
    /// context and installments, newest contract first.
    #[verifier::loop_isolation(false)]
    pub fn list_contracts(&self, p: &Principal) -> (r: Result<Vec<ContractResponse>, LedgerError>)
        requires
            self.wf(),
        ensures
            !can_operate(p.role) ==> r == Err::<Vec<ContractResponse>, LedgerError>(
                LedgerError::Forbidden,
            ),
            can_operate(p.role) && r is Ok ==> ({
                let sel = of_tenant(self.contracts@, p.tenant);
                &&& r->Ok_0@.len() == sel.len()
                &&& ordered(r->Ok_0@)
                &&& forall|i: int|
                    0 <= i < r->Ok_0@.len() ==> (#[trigger] r->Ok_0@[i]).tenant_id == p.tenant
                &&& forall|i: int|
                    0 <= i < r->Ok_0@.len() ==> exists|j: int|
                        0 <= j < sel.len() && (#[trigger] r->Ok_0@[i]).id == sel[j].id
                &&& forall|j: int|
                    0 <= j < sel.len() ==> exists|i: int|
                        0 <= i < r->Ok_0@.len() && r->Ok_0@[i].id == (#[trigger] sel[j]).id
            }),
            can_operate(p.role) && r is Err ==> r == Err::<Vec<ContractResponse>, LedgerError>(
                LedgerError::NotFound,
            ),
    {
        if !p.may_operate() {
            return Err(LedgerError::Forbidden);
        }
        let n = self.contracts.len();
        let mut out: Vec<ContractResponse> = Vec::new();
        let mut i: usize = 0;
        while i < n
            invariant
                0 <= i <= n,
                out@.len() == of_tenant(self.contracts@.take(i as int), p.tenant).len(),
                forall|k: int|
                    0 <= k < out@.len() ==> (#[trigger] out@[k]).id == of_tenant(
                        self.contracts@.take(i as int),
                        p.tenant,
                    )[k].id && out@[k].tenant_id == p.tenant,
            decreases n - i,
        {
            proof {
                assert(self.contracts@.take(i + 1).drop_last() =~= self.contracts@.take(i as int));
                assert(self.contracts@.take(i + 1).last() == self.contracts@[i as int]);
            }
            let x = &self.contracts[i];
            if x.etenant() == p.tenant {
                match self.load_contract_response(p.tenant, x.eid()) {
                    Ok(resp) => {
                        proof {
                            lemma_record_found(
                                self.contracts@,
                                p.tenant,
                                self.contracts@[i as int].id,
                                i as int,
                            );
                        }
                        out.push(resp);
                    },
                    Err(_) => {
                        return Err(LedgerError::NotFound);
                    },
                }
            }
            i = i + 1;
        }
        proof {
            assert(self.contracts@.take(n as int) =~= self.contracts@);
        }
        let ghost built = out@;
        let ghost sel = of_tenant(self.contracts@, p.tenant);
        let sorted = sort_rows(out);
        proof {
            broadcast use vstd::seq_lib::group_to_multiset_ensures;

            assert forall|i: int|
                0 <= i < sorted@.len() implies (#[trigger] sorted@[i]).tenant_id == p.tenant by {
                assert(sorted@.to_multiset().contains(sorted@[i]));
                assert(built.to_multiset().contains(sorted@[i]));
                assert(built.contains(sorted@[i]));
                let k = choose|k: int| 0 <= k < built.len() && built[k] == sorted@[i];
                assert(built[k].tenant_id == p.tenant);
            }
            assert forall|i: int|
                0 <= i < sorted@.len() implies exists|j: int|
                0 <= j < sel.len() && (#[trigger] sorted@[i]).id == sel[j].id by {
                assert(sorted@.to_multiset().contains(sorted@[i]));
                assert(built.to_multiset().contains(sorted@[i]));
                assert(built.contains(sorted@[i]));
                let k = choose|k: int| 0 <= k < built.len() && built[k] == sorted@[i];
                assert(built[k].id == sel[k].id);
            }
            assert forall|j: int|
                0 <= j < sel.len() implies exists|i: int|
                0 <= i < sorted@.len() && sorted@[i].id == (#[trigger] sel[j]).id by {
                assert(built.to_multiset().contains(built[j]));
                assert(sorted@.to_multiset().contains(built[j]));
                assert(sorted@.contains(built[j]));
                let k = choose|k: int| 0 <= k < sorted@.len() && sorted@[k] == built[j];
                assert(sorted@[k].id == sel[j].id);
            }
        }
        Ok(sorted)
    }
}

/// The installments of one contract, in stored (schedule) order.
pub open spec fn contract_installments(insts: Seq<Installment>, tenant: Id, contract: Id) -> Seq<
    Installment,
>
    decreases insts.len(),
{
    if insts.len() == 0 {
        Seq::empty()
    } else {
        let rest = contract_installments(insts.drop_last(), tenant, contract);
        if insts.last().tenant == tenant && insts.last().contract == contract {
            rest.push(insts.last())
        } else {
            rest
        }
    }
}

/// Copies a list of identifiers.
pub fn copy_ids(v: &Vec<Id>) -> (r: Vec<Id>)
    ensures
        r@ == v@,
{
    let n = v.len();
    let mut out: Vec<Id> = Vec::new();
    let mut i: usize = 0;
    while i < n
        invariant
            n == v@.len(),
            0 <= i <= n,
            out@ == v@.take(i as int),
        decreases n - i,
    {
        out.push(v[i]);
        proof {
            assert(out@ =~= v@.take(i + 1));
        }
        i = i + 1;
    }
    proof {
        assert(v@.take(n as int) =~= v@);
    }
    out
}

} // verus!
