//! The ledger's records and closed value sets, and the parsers that
//! admit them at the boundary.

use vstd::prelude::*;
use crate::dates::DateYmd;
use crate::text::{lower_of, lowercased, str_eq, trim_of, trimmed};

verus! {

/// A record or tenant identifier.
pub type Id = u128;

/// How a failed operation is reported: a role gate, an invalid input,
/// a missing or foreign-tenant record, or an obligation that is no
/// longer pending.
#[derive(Clone, Copy, Debug, PartialEq, Eq, Structural)]
pub enum LedgerError {
    Forbidden,
    Validation,
    NotFound,
    Conflict,
}

/// Kind of a financial account.
#[derive(Clone, Copy, Debug, PartialEq, Eq, Structural)]
pub enum AccountKind {
    Current,
    Cash,
}

/// Kind of a counterparty.
#[derive(Clone, Copy, Debug, PartialEq, Eq, Structural)]
pub enum CounterpartyKind {
    Vendor,
    Payer,
    Both,
}

/// Flow a category may be used for.
#[derive(Clone, Copy, Debug, PartialEq, Eq, Structural)]
pub enum CategoryFlow {
    Payable,
    Receivable,
    Both,
}

/// How a contract's installments are billed.
#[derive(Clone, Copy, Debug, PartialEq, Eq, Structural)]
pub enum BillingMode {
    ProviderBoleto,
    SchoolBooklet,
    SchoolBookletPix,
}

/// Direction of a ledger movement.
#[derive(Clone, Copy, Debug, PartialEq, Eq, Structural)]
pub enum Direction {
    Credit,
    Debit,
}

/// Provenance of a ledger movement.
#[derive(Clone, Copy, Debug, PartialEq, Eq, Structural)]
pub enum OriginKind {
    PayablePayment,
    ReceivablePayment,
    TransferIn,
    TransferOut,
}

/// Lifecycle of a payable.
#[derive(Clone, Copy, Debug, PartialEq, Eq, Structural)]
pub enum PayableStatus {
    Pending,
    Paid,
}

/// Lifecycle of a receivable.
#[derive(Clone, Copy, Debug, PartialEq, Eq, Structural)]
pub enum ReceivableStatus {
    Pending,
    Received,
}

/// Lifecycle of an installment.
#[derive(Clone, Copy, Debug, PartialEq, Eq, Structural)]
pub enum InstallmentStatus {
    Pending,
    Overdue,
    Paid,
}

/// Where a receivable came from.
#[derive(Clone, Copy, Debug, PartialEq, Eq, Structural)]
pub enum ReceivableSource {
    Manual,
    Installment,
}

/// Lifecycle of a contract.
#[derive(Clone, Copy, Debug, PartialEq, Eq, Structural)]
pub enum ContractStatus {
    Active,
}

/// A financial account of a tenant. Its balance is never stored: it is
/// derived from the initial balance and the account's movements.
#[derive(Clone, Debug)]
pub struct Account {
    pub id: Id,
    pub tenant: Id,
    pub name: String,
    pub kind: AccountKind,
    pub initial_balance_cents: i64,
    pub active: bool,
}

/// One append-only ledger posting against exactly one account.
#[derive(Clone, Debug)]
pub struct Movement {
    pub id: Id,
    pub tenant: Id,
    pub account: Id,
    pub direction: Direction,
    pub origin_kind: OriginKind,
    pub origin: Id,
    pub date: DateYmd,
    pub amount_cents: i64,
    pub note: Option<String>,
}

/// A vendor, payer or mixed counterparty of a tenant.
#[derive(Clone, Debug)]
pub struct Counterparty {
    pub id: Id,
    pub tenant: Id,
    pub name: String,
    pub kind: CounterpartyKind,
    pub active: bool,
}

/// A payable or receivable category of a tenant.
#[derive(Clone, Debug)]
pub struct Category {
    pub id: Id,
    pub tenant: Id,
    pub name: String,
    pub flow: CategoryFlow,
    pub active: bool,
}

/// A single-leg obligation the tenant owes.
#[derive(Clone, Debug)]
pub struct Payable {
    pub id: Id,
    pub tenant: Id,
    pub description: String,
    pub vendor_person: Option<Id>,
    pub vendor_counterparty: Option<Id>,
    pub vendor_name_legacy: Option<String>,
    pub category: Option<Id>,
    pub category_legacy: Option<String>,
    pub due_date: DateYmd,
    pub amount_cents: i64,
    pub status: PayableStatus,
    pub account: Option<Id>,
    pub paid_on: Option<DateYmd>,
}

/// A single-leg obligation owed to the tenant.
#[derive(Clone, Debug)]
pub struct Receivable {
    pub id: Id,
    pub tenant: Id,
    pub description: String,
    pub payer_person: Option<Id>,
    pub payer_counterparty: Option<Id>,
    pub payer_name_legacy: Option<String>,
    pub category: Option<Id>,
    pub category_legacy: Option<String>,
    pub due_date: DateYmd,
    pub amount_cents: i64,
    pub status: ReceivableStatus,
    pub source: ReceivableSource,
    pub contract: Option<Id>,
    pub installment: Option<Id>,
    pub student: Option<Id>,
    pub account: Option<Id>,
    pub received_on: Option<DateYmd>,
}

/// An installment contract for a student.
#[derive(Clone, Debug)]
pub struct Contract {
    pub id: Id,
    pub tenant: Id,
    pub student: Id,
    pub payer_person: Option<Id>,
    pub recipients: Vec<Id>,
    pub description: String,
    pub total_amount_cents: i64,
    pub installments_count: u32,
    pub first_due_date: DateYmd,
    pub due_day: Option<i32>,
    pub billing_mode: BillingMode,
    pub school_pix_key: Option<String>,
    pub school_payment_instructions: Option<String>,
    pub status: ContractStatus,
}

/// One scheduled slice of a contract's total.
#[derive(Clone, Debug)]
pub struct Installment {
    pub id: Id,
    pub tenant: Id,
    pub contract: Id,
    pub number: u32,
    pub due_date: DateYmd,
    pub amount_cents: i64,
    pub status: InstallmentStatus,
    pub boleto_code: Option<String>,
    pub boleto_url: Option<String>,
    pub boleto_pdf_url: Option<String>,
    pub pix_payload: Option<String>,
    pub payment_instructions: Option<String>,
    pub emailed_on: Option<DateYmd>,
    pub paid_on: Option<DateYmd>,
}

/// A money transfer between two accounts of one tenant.
#[derive(Clone, Debug)]
pub struct Transfer {
    pub id: Id,
    pub tenant: Id,
    pub from_account: Id,
    pub to_account: Id,
    pub date: DateYmd,
    pub amount_cents: i64,
    pub note: Option<String>,
}

/// One logged payment-instrument notification.
#[derive(Clone, Debug)]
pub struct EmailLog {
    pub id: Id,
    pub tenant: Id,
    pub contract: Id,
    pub installment: Id,
    pub recipient_person: Id,
    pub recipient_email: String,
    pub installment_number: u32,
    pub sent_on: DateYmd,
}

/// A person the financial core may reference: a vendor, a payer or a
/// financial guardian.
#[derive(Clone, Debug)]
pub struct PersonEntry {
    pub id: Id,
    pub tenant: Id,
    pub name: String,
    pub email: Option<String>,
    pub active: bool,
    pub financial_guardian: bool,
}

/// A student the contracts may reference.
#[derive(Clone, Debug)]
pub struct StudentEntry {
    pub id: Id,
    pub tenant: Id,
    pub name: String,
    pub person: Option<Id>,
}

/// Parses an account kind; unknown values are rejected.
pub fn normalize_account_type(value: &str) -> (r: Result<AccountKind, LedgerError>)
    ensures
        ({
            let n = lower_of(trim_of(value@));
            if n == "current"@ {
                r == Ok::<AccountKind, LedgerError>(AccountKind::Current)
            } else if n == "cash"@ {
                r == Ok::<AccountKind, LedgerError>(AccountKind::Cash)
            } else {
                r == Err::<AccountKind, LedgerError>(LedgerError::Validation)
            }
        }),
{
    let n = lowercased(trimmed(value));
    if str_eq(n.as_str(), "current") {
        Ok(AccountKind::Current)
    } else if str_eq(n.as_str(), "cash") {
        Ok(AccountKind::Cash)
    } else {
        Err(LedgerError::Validation)
    }
}

/// Parses a counterparty kind; unknown values are rejected.
pub fn normalize_counterparty_kind(value: &str) -> (r: Result<CounterpartyKind, LedgerError>)
    ensures
        ({
            let n = lower_of(trim_of(value@));
            if n == "vendor"@ {
                r == Ok::<CounterpartyKind, LedgerError>(CounterpartyKind::Vendor)
            } else if n == "payer"@ {
                r == Ok::<CounterpartyKind, LedgerError>(CounterpartyKind::Payer)
            } else if n == "both"@ {
                r == Ok::<CounterpartyKind, LedgerError>(CounterpartyKind::Both)
            } else {
                r == Err::<CounterpartyKind, LedgerError>(LedgerError::Validation)
            }
        }),
{
    let n = lowercased(trimmed(value));
    if str_eq(n.as_str(), "vendor") {
        Ok(CounterpartyKind::Vendor)
    } else if str_eq(n.as_str(), "payer") {
        Ok(CounterpartyKind::Payer)
    } else if str_eq(n.as_str(), "both") {
        Ok(CounterpartyKind::Both)
    } else {
        Err(LedgerError::Validation)
    }
}

/// Parses a category flow; unknown values are rejected.
pub fn normalize_category_flow(value: &str) -> (r: Result<CategoryFlow, LedgerError>)
    ensures
        ({
            let n = lower_of(trim_of(value@));
            if n == "payable"@ {
                r == Ok::<CategoryFlow, LedgerError>(CategoryFlow::Payable)
            } else if n == "receivable"@ {
                r == Ok::<CategoryFlow, LedgerError>(CategoryFlow::Receivable)
            } else if n == "both"@ {
                r == Ok::<CategoryFlow, LedgerError>(CategoryFlow::Both)
            } else {
                r == Err::<CategoryFlow, LedgerError>(LedgerError::Validation)
            }
        }),
{
    let n = lowercased(trimmed(value));
    if str_eq(n.as_str(), "payable") {
        Ok(CategoryFlow::Payable)
    } else if str_eq(n.as_str(), "receivable") {
        Ok(CategoryFlow::Receivable)
    } else if str_eq(n.as_str(), "both") {
        Ok(CategoryFlow::Both)
    } else {
        Err(LedgerError::Validation)
    }
}

/// Parses a billing mode; an absent value defaults to the plain school
/// booklet, an unknown one is rejected.
pub fn normalize_billing_mode(mode: Option<&str>) -> (r: Result<BillingMode, LedgerError>)
    ensures
        mode is None ==> r == Ok::<BillingMode, LedgerError>(BillingMode::SchoolBooklet),
        mode is Some ==> ({
            let n = lower_of(trim_of(mode->0@));
            if n == "provider_boleto"@ {
                r == Ok::<BillingMode, LedgerError>(BillingMode::ProviderBoleto)
            } else if n == "school_booklet"@ {
                r == Ok::<BillingMode, LedgerError>(BillingMode::SchoolBooklet)
            } else if n == "school_booklet_pix"@ {
                r == Ok::<BillingMode, LedgerError>(BillingMode::SchoolBookletPix)
            } else {
                r == Err::<BillingMode, LedgerError>(LedgerError::Validation)
            }
        }),
{
    match mode {
        None => Ok(BillingMode::SchoolBooklet),
        Some(value) => {
            let n = lowercased(trimmed(value));
            if str_eq(n.as_str(), "provider_boleto") {
                Ok(BillingMode::ProviderBoleto)
            } else if str_eq(n.as_str(), "school_booklet") {
                Ok(BillingMode::SchoolBooklet)
            } else if str_eq(n.as_str(), "school_booklet_pix") {
                Ok(BillingMode::SchoolBookletPix)
            } else {
                Err(LedgerError::Validation)
            }
        },
    }
}

} // verus!
