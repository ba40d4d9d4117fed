//! Obligations and settlement: payables, receivables, the conditional
//! pending-to-settled transition, and inter-account transfers.

use vstd::prelude::*;
use vstd::string::StringExecFns;
use crate::auth::{can_manage, can_operate, Principal};
use crate::dates::{valid_date, DateYmd};
use crate::ledger::{
    find_record, has_record, lemma_can_mint, lemma_pairing_push_receivable,
    lemma_pairing_update_installment, lemma_pairing_update_receivable, lemma_push_fresh,
    lemma_record_found, record_at, Ledger, LedgerRecord,
};
use crate::model::{
    CategoryFlow, CounterpartyKind, Direction, Id, InstallmentStatus, LedgerError, Movement,
    OriginKind, Payable, PayableStatus, Receivable, ReceivableSource, ReceivableStatus,
};
use crate::money::MAX_AMOUNT_CENTS;
use crate::registry::{same_directory, same_flows, same_refs};
use crate::text::{trim_of, trimmed};

verus! {

/// Request to record a payable.
pub struct CreatePayableRequest {
    pub description: String,
    pub vendor_person_id: Option<Id>,
    pub vendor_counterparty_id: Option<Id>,
    pub category_id: Option<Id>,
    pub due_date: DateYmd,
    pub amount_cents: i64,
}

/// Request to record a receivable.
pub struct CreateReceivableRequest {
    pub description: String,
    pub payer_person_id: Option<Id>,
    pub payer_counterparty_id: Option<Id>,
    pub category_id: Option<Id>,
    pub due_date: DateYmd,
    pub amount_cents: i64,
}

/// Request to settle a payable against an account.
pub struct MarkPayablePaidRequest {
    pub account_id: Id,
    pub paid_at: Option<DateYmd>,
}

/// Request to settle a receivable against an account.
pub struct MarkReceivableReceivedRequest {
    pub account_id: Id,
    pub received_at: Option<DateYmd>,
}

/// Whether the person exists for the tenant and is active.
pub open spec fn person_ok(l: Ledger, tenant: Id, id: Id) -> bool {
    has_record(l.people@, tenant, id) && l.people@[record_at(l.people@, tenant, id)].active
}

/// Whether the counterparty exists for the tenant, is active and fits
/// the expected kind (its own kind, or `Both`).
pub open spec fn counterparty_ok(l: Ledger, tenant: Id, id: Id, expected: CounterpartyKind) -> bool {
    &&& has_record(l.counterparties@, tenant, id)
    &&& ({
        let c = l.counterparties@[record_at(l.counterparties@, tenant, id)];
        c.active && (c.kind == CounterpartyKind::Both || c.kind == expected)
    })
}

/// Whether the category exists for the tenant, is active and fits the
/// expected flow (its own flow, or `Both`).
pub open spec fn category_ok(l: Ledger, tenant: Id, id: Id, expected: CategoryFlow) -> bool {
    &&& has_record(l.categories@, tenant, id)
    &&& ({
        let c = l.categories@[record_at(l.categories@, tenant, id)];
        c.active && (c.flow == CategoryFlow::Both || c.flow == expected)
    })
}

/// Whether an optional reference passes its check.
pub open spec fn opt_person_ok(l: Ledger, tenant: Id, id: Option<Id>) -> bool {
    id is Some ==> person_ok(l, tenant, id->0)
}

/// Whether an optional counterparty reference passes its check.
pub open spec fn opt_counterparty_ok(
    l: Ledger,
    tenant: Id,
    id: Option<Id>,
    expected: CounterpartyKind,
) -> bool {
    id is Some ==> counterparty_ok(l, tenant, id->0, expected)
}

/// Whether an optional category reference passes its check.
pub open spec fn opt_category_ok(l: Ledger, tenant: Id, id: Option<Id>, expected: CategoryFlow) -> bool {
    id is Some ==> category_ok(l, tenant, id->0, expected)
}

impl Ledger {
    /// Decides whether the person exists for the tenant and is active.
    fn check_person(&self, tenant: Id, id: Id) -> (r: bool)
        requires
            self.wf(),
        ensures
            r == person_ok(*self, tenant, id),
    {
        match find_record(&self.people, tenant, id) {
            None => false,
            Some(i) => {
                proof {
                    lemma_record_found(self.people@, tenant, id, i as int);
                }
                self.people[i].active
            },
        }
    }

    /// Decides whether the counterparty exists, is active and fits.
    fn check_counterparty(&self, tenant: Id, id: Id, expected: CounterpartyKind) -> (r: bool)
        requires
            self.wf(),
        ensures
            r == counterparty_ok(*self, tenant, id, expected),
    {
        match find_record(&self.counterparties, tenant, id) {
            None => false,
            Some(i) => {
                proof {
                    lemma_record_found(self.counterparties@, tenant, id, i as int);
                }
                let c = &self.counterparties[i];
                c.active && (c.kind == CounterpartyKind::Both || c.kind == expected)
            },
        }
    }

    /// Decides whether the category exists, is active and fits.
    fn check_category(&self, tenant: Id, id: Id, expected: CategoryFlow) -> (r: bool)
        requires
            self.wf(),
        ensures
            r == category_ok(*self, tenant, id, expected),
    {
        match find_record(&self.categories, tenant, id) {
            None => false,
            Some(i) => {
                proof {
                    lemma_record_found(self.categories@, tenant, id, i as int);
                }
                let c = &self.categories[i];
                c.active && (c.flow == CategoryFlow::Both || c.flow == expected)
            },
        }
    }

    /// Records a payable: only owners and admins may; the description
    /// must hold at least two characters, the amount must be positive
    /// and within range, the due date real, and every named reference
    /// must belong to the tenant, be active and fit its role.
    pub fn create_payable(&mut self, p: &Principal, req: CreatePayableRequest) -> (r: Result<
        Id,
        LedgerError,
    >)
        requires
            old(self).wf(),
        ensures
            final(self).wf(),
            ({
                if !can_manage(p.role) {
                    r == Err::<Id, LedgerError>(LedgerError::Forbidden) && *final(self) == *old(
                        self,
                    )
                } else if req.description@.len() < 2 {
                    r == Err::<Id, LedgerError>(LedgerError::Validation) && *final(self) == *old(
                        self,
                    )
                } else if !(1 <= req.amount_cents && req.amount_cents <= MAX_AMOUNT_CENTS) {
                    r == Err::<Id, LedgerError>(LedgerError::Validation) && *final(self) == *old(
                        self,
                    )
                } else if !valid_date(req.due_date) {
                    r == Err::<Id, LedgerError>(LedgerError::Validation) && *final(self) == *old(
                        self,
                    )
                } else if !opt_person_ok(*old(self), p.tenant, req.vendor_person_id) {
                    r == Err::<Id, LedgerError>(LedgerError::Validation) && *final(self) == *old(
                        self,
                    )
                } else if !opt_counterparty_ok(
                    *old(self),
                    p.tenant,
                    req.vendor_counterparty_id,
                    CounterpartyKind::Vendor,
                ) {
                    r == Err::<Id, LedgerError>(LedgerError::Validation) && *final(self) == *old(
                        self,
                    )
                } else if !opt_category_ok(
                    *old(self),
                    p.tenant,
                    req.category_id,
                    CategoryFlow::Payable,
                ) {
                    r == Err::<Id, LedgerError>(LedgerError::Validation) && *final(self) == *old(
                        self,
                    )
                } else {
                    &&& r == Ok::<Id, LedgerError>(old(self).next_id)
                    &&& final(self).payables@ == old(self).payables@.push(
                        final(self).payables@.last(),
                    )
                    &&& final(self).payables@.last() == (Payable {
                        id: old(self).next_id,
                        tenant: p.tenant,
                        description: final(self).payables@.last().description,
                        vendor_person: req.vendor_person_id,
                        vendor_counterparty: req.vendor_counterparty_id,
                        vendor_name_legacy: None,
                        category: req.category_id,
                        category_legacy: None,
                        due_date: req.due_date,
                        amount_cents: req.amount_cents,
                        status: PayableStatus::Pending,
                        account: None,
                        paid_on: None,
                    })
                    &&& final(self).payables@.last().description@ == trim_of(req.description@)
                    &&& final(self).next_id == old(self).next_id + 1
                    &&& final(self).receivables == old(self).receivables
                    &&& final(self).contracts == old(self).contracts
                    &&& final(self).installments == old(self).installments
                    &&& same_directory(*old(self), *final(self))
                    &&& same_refs(*old(self), *final(self))
                    &&& same_flows(*old(self), *final(self))
                }
            }),
    {
        if !p.may_manage() {
            return Err(LedgerError::Forbidden);
        }
        if self.description_too_short(&req.description) {
            return Err(LedgerError::Validation);
        }
        if req.amount_cents < 1 || req.amount_cents > MAX_AMOUNT_CENTS {
            return Err(LedgerError::Validation);
        }
        if !req.due_date.is_valid() {
            return Err(LedgerError::Validation);
        }
        if let Some(id) = req.vendor_person_id {
            if !self.check_person(p.tenant, id) {
                return Err(LedgerError::Validation);
            }
        }
        if let Some(id) = req.vendor_counterparty_id {
            if !self.check_counterparty(p.tenant, id, CounterpartyKind::Vendor) {
                return Err(LedgerError::Validation);
            }
        }
        if let Some(id) = req.category_id {
            if !self.check_category(p.tenant, id, CategoryFlow::Payable) {
                return Err(LedgerError::Validation);
            }
        }
        let description = String::from_str(trimmed(req.description.as_str()));
        proof {
            lemma_can_mint(*self);
        }
        let id = self.mint_id();
        let entry = Payable {
            id,
            tenant: p.tenant,
            description,
            vendor_person: req.vendor_person_id,
            vendor_counterparty: req.vendor_counterparty_id,
            vendor_name_legacy: None,
            category: req.category_id,
            category_legacy: None,
            due_date: req.due_date,
            amount_cents: req.amount_cents,
            status: PayableStatus::Pending,
            account: None,
            paid_on: None,
        };
        proof {
            lemma_push_fresh(self.payables@, entry, id);
        }
        self.payables.push(entry);
        Ok(id)
    }

    /// Whether the raw description of a request is shorter than two
    /// characters.
    fn description_too_short(&self, description: &String) -> (r: bool)
        ensures
            r == (description@.len() < 2),
    {
        description.as_str().unicode_len() < 2
    }

    /// Records a manual receivable: the mirror image of
    /// [`Self::create_payable`], checking the payer references and the
    /// receivable category flow.
    pub fn create_receivable(&mut self, p: &Principal, req: CreateReceivableRequest) -> (r: Result<
        Id,
        LedgerError,
    >)
        requires
            old(self).wf(),
        ensures
            final(self).wf(),
            ({
                if !can_manage(p.role) {
                    r == Err::<Id, LedgerError>(LedgerError::Forbidden) && *final(self) == *old(
                        self,
                    )
                } else if req.description@.len() < 2 {
                    r == Err::<Id, LedgerError>(LedgerError::Validation) && *final(self) == *old(
                        self,
                    )
                } else if !(1 <= req.amount_cents && req.amount_cents <= MAX_AMOUNT_CENTS) {
                    r == Err::<Id, LedgerError>(LedgerError::Validation) && *final(self) == *old(
                        self,
                    )
                } else if !valid_date(req.due_date) {
                    r == Err::<Id, LedgerError>(LedgerError::Validation) && *final(self) == *old(
                        self,
                    )
                } else if !opt_person_ok(*old(self), p.tenant, req.payer_person_id) {
                    r == Err::<Id, LedgerError>(LedgerError::Validation) && *final(self) == *old(
                        self,
                    )
                } else if !opt_counterparty_ok(
                    *old(self),
                    p.tenant,
                    req.payer_counterparty_id,
                    CounterpartyKind::Payer,
                ) {
                    r == Err::<Id, LedgerError>(LedgerError::Validation) && *final(self) == *old(
                        self,
                    )
                } else if !opt_category_ok(
                    *old(self),
                    p.tenant,
                    req.category_id,
                    CategoryFlow::Receivable,
                ) {
                    r == Err::<Id, LedgerError>(LedgerError::Validation) && *final(self) == *old(
                        self,
                    )
                } else {
                    &&& r == Ok::<Id, LedgerError>(old(self).next_id)
                    &&& final(self).receivables@ == old(self).receivables@.push(
                        final(self).receivables@.last(),
                    )
                    &&& final(self).receivables@.last() == (Receivable {
                        id: old(self).next_id,
                        tenant: p.tenant,
                        description: final(self).receivables@.last().description,
                        payer_person: req.payer_person_id,
                        payer_counterparty: req.payer_counterparty_id,
                        payer_name_legacy: None,
                        category: req.category_id,
                        category_legacy: None,
                        due_date: req.due_date,
                        amount_cents: req.amount_cents,
                        status: ReceivableStatus::Pending,
                        source: ReceivableSource::Manual,
                        contract: None,
                        installment: None,
                        student: None,
                        account: None,
                        received_on: None,
                    })
                    &&& final(self).receivables@.last().description@ == trim_of(req.description@)
                    &&& final(self).next_id == old(self).next_id + 1
                    &&& final(self).payables == old(self).payables
                    &&& final(self).contracts == old(self).contracts
                    &&& final(self).installments == old(self).installments
                    &&& same_directory(*old(self), *final(self))
                    &&& same_refs(*old(self), *final(self))
                    &&& same_flows(*old(self), *final(self))
                }
            }),
    {
        if !p.may_manage() {
            return Err(LedgerError::Forbidden);
        }
        if self.description_too_short(&req.description) {
            return Err(LedgerError::Validation);
        }
        if req.amount_cents < 1 || req.amount_cents > MAX_AMOUNT_CENTS {
            return Err(LedgerError::Validation);
        }
        if !req.due_date.is_valid() {
            return Err(LedgerError::Validation);
        }
        if let Some(id) = req.payer_person_id {
            if !self.check_person(p.tenant, id) {
                return Err(LedgerError::Validation);
            }
        }
        if let Some(id) = req.payer_counterparty_id {
            if !self.check_counterparty(p.tenant, id, CounterpartyKind::Payer) {
                return Err(LedgerError::Validation);
            }
        }
        if let Some(id) = req.category_id {
            if !self.check_category(p.tenant, id, CategoryFlow::Receivable) {
                return Err(LedgerError::Validation);
            }
        }
        let description = String::from_str(trimmed(req.description.as_str()));
        proof {
            lemma_can_mint(*self);
        }
        let id = self.mint_id();
        let entry = Receivable {
            id,
            tenant: p.tenant,
            description,
            payer_person: req.payer_person_id,
            payer_counterparty: req.payer_counterparty_id,
            payer_name_legacy: None,
            category: req.category_id,
            category_legacy: None,
            due_date: req.due_date,
            amount_cents: req.amount_cents,
            status: ReceivableStatus::Pending,
            source: ReceivableSource::Manual,
            contract: None,
            installment: None,
            student: None,
            account: None,
            received_on: None,
        };
        proof {
            lemma_push_fresh(self.receivables@, entry, id);
            lemma_pairing_push_receivable(self.installments@, self.receivables@, entry);
        }
        self.receivables.push(entry);
        Ok(id)
    }
}

/// A payable after settlement: paid, bound to the settlement account,
/// stamped with the settlement date, everything else untouched.
pub open spec fn settled_payable(x: Payable, account_id: Id, d: DateYmd) -> Payable {
    Payable {
        id: x.id,
        tenant: x.tenant,
        description: x.description,
        vendor_person: x.vendor_person,
        vendor_counterparty: x.vendor_counterparty,
        vendor_name_legacy: x.vendor_name_legacy,
        category: x.category,
        category_legacy: x.category_legacy,
        due_date: x.due_date,
        amount_cents: x.amount_cents,
        status: PayableStatus::Paid,
        account: Some(account_id),
        paid_on: Some(d),
    }
}

/// A receivable after settlement: received, bound to the settlement
/// account, stamped with the settlement date, everything else
/// untouched.
pub open spec fn settled_receivable(x: Receivable, account_id: Id, d: DateYmd) -> Receivable {
    Receivable {
        id: x.id,
        tenant: x.tenant,
        description: x.description,
        payer_person: x.payer_person,
        payer_counterparty: x.payer_counterparty,
        payer_name_legacy: x.payer_name_legacy,
        category: x.category,
        category_legacy: x.category_legacy,
        due_date: x.due_date,
        amount_cents: x.amount_cents,
        status: ReceivableStatus::Received,
        source: x.source,
        contract: x.contract,
        installment: x.installment,
        student: x.student,
        account: Some(account_id),
        received_on: x.received_on,
    }
}

/// An installment after its linked receivable settles: paid, with the
/// paid date set only when it was still unset (first settlement wins).
pub open spec fn paid_installment(x: crate::model::Installment, d: DateYmd) -> crate::model::Installment {
    crate::model::Installment {
        id: x.id,
        tenant: x.tenant,
        contract: x.contract,
        number: x.number,
        due_date: x.due_date,
        amount_cents: x.amount_cents,
        status: InstallmentStatus::Paid,
        boleto_code: x.boleto_code,
        boleto_url: x.boleto_url,
        boleto_pdf_url: x.boleto_pdf_url,
        pix_payload: x.pix_payload,
        payment_instructions: x.payment_instructions,
        emailed_on: x.emailed_on,
        paid_on: if x.paid_on is Some {
            x.paid_on
        } else {
            Some(d)
        },
    }
}

/// Whether a movement has the given fields.
pub open spec fn movement_matches(
    m: Movement,
    id: Id,
    tenant: Id,
    account: Id,
    direction: Direction,
    origin_kind: OriginKind,
    origin: Id,
    date: DateYmd,
    amount: i64,
) -> bool {
    &&& m.id == id
    &&& m.tenant == tenant
    &&& m.account == account
    &&& m.direction == direction
    &&& m.origin_kind == origin_kind
    &&& m.origin == origin
    &&& m.date == date
    &&& m.amount_cents == amount
}

/// The settlement gate for a payable: owners, admins and staff may
/// settle, the account must exist for the tenant, the payable must
/// exist, and it must still be pending, in that order.
pub open spec fn payable_settle_gate(l: Ledger, p: Principal, payable_id: Id, account_id: Id) -> Option<LedgerError> {
    if !can_operate(p.role) {
        Some(LedgerError::Forbidden)
    } else if !has_record(l.accounts@, p.tenant, account_id) {
        Some(LedgerError::Validation)
    } else if !has_record(l.payables@, p.tenant, payable_id) {
        Some(LedgerError::NotFound)
    } else if l.payables@[record_at(l.payables@, p.tenant, payable_id)].status
        != PayableStatus::Pending {
        Some(LedgerError::Conflict)
    } else {
        None
    }
}

/// The settlement gate for a receivable, in the same order.
pub open spec fn receivable_settle_gate(
    l: Ledger,
    p: Principal,
    receivable_id: Id,
    account_id: Id,
) -> Option<LedgerError> {
    if !can_operate(p.role) {
        Some(LedgerError::Forbidden)
    } else if !has_record(l.accounts@, p.tenant, account_id) {
        Some(LedgerError::Validation)
    } else if !has_record(l.receivables@, p.tenant, receivable_id) {
        Some(LedgerError::NotFound)
    } else if l.receivables@[record_at(l.receivables@, p.tenant, receivable_id)].status
        != ReceivableStatus::Pending {
        Some(LedgerError::Conflict)
    } else {
        None
    }
}

/// What a successful payable settlement does: the one payable flips to
/// paid and exactly one debit movement is posted, with everything else
/// untouched.
pub open spec fn payable_settled_post(
    pre: Ledger,
    post: Ledger,
    p: Principal,
    payable_id: Id,
    account_id: Id,
    d: DateYmd,
) -> bool {
    let k = record_at(pre.payables@, p.tenant, payable_id);
    &&& post.payables@ == pre.payables@.update(
        k,
        settled_payable(pre.payables@[k], account_id, d),
    )
    &&& post.movements@ == pre.movements@.push(post.movements@.last())
    &&& movement_matches(
        post.movements@.last(),
        pre.next_id,
        p.tenant,
        account_id,
        Direction::Debit,
        OriginKind::PayablePayment,
        payable_id,
        d,
        pre.payables@[k].amount_cents,
    )
    &&& post.next_id == pre.next_id + 1
    &&& post.receivables == pre.receivables
    &&& post.contracts == pre.contracts
    &&& post.installments == pre.installments
    &&& post.transfers == pre.transfers
    &&& post.email_logs == pre.email_logs
    &&& same_directory(pre, post)
    &&& same_refs(pre, post)
}

/// What a successful receivable settlement does: the one receivable
/// flips to received, exactly one credit movement is posted, and a
/// linked installment, if it exists, flips to paid with its paid date
/// set only if previously unset.
pub open spec fn receivable_settled_post(
    pre: Ledger,
    post: Ledger,
    p: Principal,
    receivable_id: Id,
    account_id: Id,
    d: DateYmd,
) -> bool {
    let k = record_at(pre.receivables@, p.tenant, receivable_id);
    let rec = pre.receivables@[k];
    &&& post.receivables@ == pre.receivables@.update(
        k,
        settled_receivable_with_date(rec, account_id, d),
    )
    &&& post.movements@ == pre.movements@.push(post.movements@.last())
    &&& movement_matches(
        post.movements@.last(),
        pre.next_id,
        p.tenant,
        account_id,
        Direction::Credit,
        OriginKind::ReceivablePayment,
        receivable_id,
        d,
        rec.amount_cents,
    )
    &&& post.next_id == pre.next_id + 1
    &&& (if rec.installment is Some && has_record(pre.installments@, p.tenant, rec.installment->0) {
        post.installments@ == pre.installments@.update(
            record_at(pre.installments@, p.tenant, rec.installment->0),
            paid_installment(
                pre.installments@[record_at(pre.installments@, p.tenant, rec.installment->0)],
                d,
            ),
        )
    } else {
        post.installments == pre.installments
    })
    &&& post.payables == pre.payables
    &&& post.contracts == pre.contracts
    &&& post.transfers == pre.transfers
    &&& post.email_logs == pre.email_logs
    &&& same_directory(pre, post)
    &&& same_refs(pre, post)
}

/// A settled receivable stamped with the settlement date.
pub open spec fn settled_receivable_with_date(x: Receivable, account_id: Id, d: DateYmd) -> Receivable {
    Receivable {
        received_on: Some(d),
        ..settled_receivable(x, account_id, d)
    }
}

impl Ledger {
    /// Settles a payable: flips it from pending to paid and posts the
    /// matching debit movement, atomically. A repeated settlement of
    /// the same payable reports a conflict and changes nothing.
    pub fn mark_payable_paid(
        &mut self,
        p: &Principal,
        payable_id: Id,
        req: MarkPayablePaidRequest,
        today: DateYmd,
    ) -> (r: Result<(), LedgerError>)
        requires
            old(self).wf(),
            valid_date(today),
        ensures
            final(self).wf(),
            ({
                let d = if req.paid_at is Some {
                    req.paid_at->0
                } else {
                    today
                };
                if req.paid_at is Some && !valid_date(req.paid_at->0) {
                    r == Err::<(), LedgerError>(LedgerError::Validation) && *final(self) == *old(
                        self,
                    )
                } else if payable_settle_gate(*old(self), *p, payable_id, req.account_id) is Some {
                    r == Err::<(), LedgerError>(
                        payable_settle_gate(*old(self), *p, payable_id, req.account_id)->0,
                    ) && *final(self) == *old(self)
                } else {
                    r == Ok::<(), LedgerError>(()) && payable_settled_post(
                        *old(self),
                        *final(self),
                        *p,
                        payable_id,
                        req.account_id,
                        d,
                    )
                }
            }),
    {
        let d: DateYmd = match req.paid_at {
            Some(given) => {
                if !given.is_valid() {
                    return Err(LedgerError::Validation);
                }
                given
            },
            None => today,
        };
        if !p.may_operate() {
            return Err(LedgerError::Forbidden);
        }
        if find_record(&self.accounts, p.tenant, req.account_id).is_none() {
            proof {
                assert(payable_settle_gate(*old(self), *p, payable_id, req.account_id) == Some(
                    LedgerError::Validation,
                ));
            }
            return Err(LedgerError::Validation);
        }
        let idx = match find_record(&self.payables, p.tenant, payable_id) {
            None => {
                return Err(LedgerError::NotFound);
            },
            Some(i) => i,
        };
        proof {
            lemma_record_found(self.payables@, p.tenant, payable_id, idx as int);
        }
        let pending = match self.payables[idx].status {
            PayableStatus::Pending => true,
            PayableStatus::Paid => false,
        };
        if !pending {
            return Err(LedgerError::Conflict);
        }
        let amount = self.payables[idx].amount_cents;
        let updated = Payable {
            id: self.payables[idx].id,
            tenant: self.payables[idx].tenant,
            description: self.payables[idx].description.clone(),
            vendor_person: self.payables[idx].vendor_person,
            vendor_counterparty: self.payables[idx].vendor_counterparty,
            vendor_name_legacy: crate::text::clone_opt_string(&self.payables[idx].vendor_name_legacy),
            category: self.payables[idx].category,
            category_legacy: crate::text::clone_opt_string(&self.payables[idx].category_legacy),
            due_date: self.payables[idx].due_date,
            amount_cents: amount,
            status: PayableStatus::Paid,
            account: Some(req.account_id),
            paid_on: Some(d),
        };
        proof {
            crate::ledger::lemma_ids_update(
                self.payables@,
                idx as int,
                updated,
                self.next_id,
            );
            lemma_can_mint(*self);
        }
        self.payables[idx] = updated;
        let mid = self.mint_id();
        let movement = Movement {
            id: mid,
            tenant: p.tenant,
            account: req.account_id,
            direction: Direction::Debit,
            origin_kind: OriginKind::PayablePayment,
            origin: payable_id,
            date: d,
            amount_cents: amount,
            note: Some(String::from_str("Baixa de conta a pagar")),
        };
        proof {
            crate::ledger::lemma_ids_below_weaken(self.movements@, old(self).next_id, mid);
            lemma_push_fresh(self.movements@, movement, mid);
        }
        self.movements.push(movement);
        Ok(())
    }

    /// Settles a receivable: flips it from pending to received, posts
    /// the matching credit movement, and marks a linked installment
    /// paid, atomically. A repeated settlement reports a conflict and
    /// changes nothing.
    pub fn mark_receivable_received(
        &mut self,
        p: &Principal,
        receivable_id: Id,
        req: MarkReceivableReceivedRequest,
        today: DateYmd,
    ) -> (r: Result<(), LedgerError>)
        requires
            old(self).wf(),
            valid_date(today),
        ensures
            final(self).wf(),
            ({
                let d = if req.received_at is Some {
                    req.received_at->0
                } else {
                    today
                };
                if req.received_at is Some && !valid_date(req.received_at->0) {
                    r == Err::<(), LedgerError>(LedgerError::Validation) && *final(self) == *old(
                        self,
                    )
                } else if receivable_settle_gate(
                    *old(self),
                    *p,
                    receivable_id,
                    req.account_id,
                ) is Some {
                    r == Err::<(), LedgerError>(
                        receivable_settle_gate(*old(self), *p, receivable_id, req.account_id)->0,
                    ) && *final(self) == *old(self)
                } else {
                    r == Ok::<(), LedgerError>(()) && receivable_settled_post(
                        *old(self),
                        *final(self),
                        *p,
                        receivable_id,
                        req.account_id,
                        d,
                    )
                }
            }),
    {
        let d: DateYmd = match req.received_at {
            Some(given) => {
                if !given.is_valid() {
                    return Err(LedgerError::Validation);
                }
                given
            },
            None => today,
        };
        if !p.may_operate() {
            return Err(LedgerError::Forbidden);
        }
        if find_record(&self.accounts, p.tenant, req.account_id).is_none() {
            proof {
                assert(receivable_settle_gate(*old(self), *p, receivable_id, req.account_id)
                    == Some(LedgerError::Validation));
            }
            return Err(LedgerError::Validation);
        }
        let idx = match find_record(&self.receivables, p.tenant, receivable_id) {
            None => {
                return Err(LedgerError::NotFound);
            },
            Some(i) => i,
        };
        proof {
            lemma_record_found(self.receivables@, p.tenant, receivable_id, idx as int);
        }
        let pending = match self.receivables[idx].status {
            ReceivableStatus::Pending => true,
            ReceivableStatus::Received => false,
        };
        if !pending {
            return Err(LedgerError::Conflict);
        }
        let amount = self.receivables[idx].amount_cents;
        let link = self.receivables[idx].installment;
        let updated = Receivable {
            id: self.receivables[idx].id,
            tenant: self.receivables[idx].tenant,
            description: self.receivables[idx].description.clone(),
            payer_person: self.receivables[idx].payer_person,
            payer_counterparty: self.receivables[idx].payer_counterparty,
            payer_name_legacy: crate::text::clone_opt_string(
                &self.receivables[idx].payer_name_legacy,
            ),
            category: self.receivables[idx].category,
            category_legacy: crate::text::clone_opt_string(&self.receivables[idx].category_legacy),
            due_date: self.receivables[idx].due_date,
            amount_cents: amount,
            status: ReceivableStatus::Received,
            source: self.receivables[idx].source,
            contract: self.receivables[idx].contract,
            installment: link,
            student: self.receivables[idx].student,
            account: Some(req.account_id),
            received_on: Some(d),
        };
        proof {
            crate::ledger::lemma_ids_update(
                self.receivables@,
                idx as int,
                updated,
                self.next_id,
            );
            lemma_pairing_update_receivable(
                self.installments@,
                self.receivables@,
                idx as int,
                updated,
            );
            lemma_can_mint(*self);
        }
        self.receivables[idx] = updated;
        let mid = self.mint_id();
        let movement = Movement {
            id: mid,
            tenant: p.tenant,
            account: req.account_id,
            direction: Direction::Credit,
            origin_kind: OriginKind::ReceivablePayment,
            origin: receivable_id,
            date: d,
            amount_cents: amount,
            note: Some(String::from_str("Baixa de conta a receber")),
        };
        proof {
            crate::ledger::lemma_ids_below_weaken(self.movements@, old(self).next_id, mid);
            lemma_push_fresh(self.movements@, movement, mid);
        }
        self.movements.push(movement);
        if let Some(installment_id) = link {
            if let Some(k2) = find_record(&self.installments, p.tenant, installment_id) {
                proof {
                    lemma_record_found(self.installments@, p.tenant, installment_id, k2 as int);
                }
                let inst = &self.installments[k2];
                let updated_inst = crate::model::Installment {
                    id: inst.id,
                    tenant: inst.tenant,
                    contract: inst.contract,
                    number: inst.number,
                    due_date: inst.due_date,
                    amount_cents: inst.amount_cents,
                    status: InstallmentStatus::Paid,
                    boleto_code: crate::text::clone_opt_string(&inst.boleto_code),
                    boleto_url: crate::text::clone_opt_string(&inst.boleto_url),
                    boleto_pdf_url: crate::text::clone_opt_string(&inst.boleto_pdf_url),
                    pix_payload: crate::text::clone_opt_string(&inst.pix_payload),
                    payment_instructions: crate::text::clone_opt_string(
                        &inst.payment_instructions,
                    ),
                    emailed_on: inst.emailed_on,
                    paid_on: match inst.paid_on {
                        Some(existing) => Some(existing),
                        None => Some(d),
                    },
                };
                proof {
                    crate::ledger::lemma_ids_update(
                        self.installments@,
                        k2 as int,
                        updated_inst,
                        self.next_id,
                    );
                    lemma_pairing_update_installment(
                        self.installments@,
                        self.receivables@,
                        k2 as int,
                        updated_inst,
                    );
                }
                self.installments[k2] = updated_inst;
            }
        }
        Ok(())
    }
}

/// Request to move money between two accounts of the tenant.
pub struct CreateTransferRequest {
    pub from_account_id: Id,
    pub to_account_id: Id,
    pub transfer_date: DateYmd,
    pub amount_cents: i64,
    pub note: Option<String>,
}

/// What a successful transfer does: one transfer record and exactly
/// two movements — a debit on the source and a credit on the target,
/// both of the same amount and tagged with the transfer's identifier.
pub open spec fn transfer_post(
    pre: Ledger,
    post: Ledger,
    p: Principal,
    from: Id,
    to: Id,
    date: DateYmd,
    amount: i64,
) -> bool {
    let t = post.transfers@.last();
    let m1 = post.movements@[post.movements@.len() - 2];
    let m2 = post.movements@.last();
    &&& post.transfers@ == pre.transfers@.push(t)
    &&& t.id == pre.next_id
    &&& t.tenant == p.tenant
    &&& t.from_account == from
    &&& t.to_account == to
    &&& t.date == date
    &&& t.amount_cents == amount
    &&& post.movements@ == pre.movements@.push(m1).push(m2)
    &&& movement_matches(
        m1,
        (pre.next_id + 1) as Id,
        p.tenant,
        from,
        Direction::Debit,
        OriginKind::TransferOut,
        pre.next_id,
        date,
        amount,
    )
    &&& movement_matches(
        m2,
        (pre.next_id + 2) as Id,
        p.tenant,
        to,
        Direction::Credit,
        OriginKind::TransferIn,
        pre.next_id,
        date,
        amount,
    )
    &&& post.next_id == pre.next_id + 3
    &&& post.payables == pre.payables
    &&& post.receivables == pre.receivables
    &&& post.contracts == pre.contracts
    &&& post.installments == pre.installments
    &&& post.email_logs == pre.email_logs
    &&& same_directory(pre, post)
    &&& same_refs(pre, post)
}

impl Ledger {
    /// Records a transfer between two distinct accounts of the tenant
    /// and posts its two movements atomically: the amount leaving one
    /// account is exactly the amount entering the other.
    pub fn create_transfer(&mut self, p: &Principal, req: CreateTransferRequest) -> (r: Result<
        Id,
        LedgerError,
    >)
        requires
            old(self).wf(),
        ensures
            final(self).wf(),
            ({
                if !can_manage(p.role) {
                    r == Err::<Id, LedgerError>(LedgerError::Forbidden) && *final(self) == *old(
                        self,
                    )
                } else if !(1 <= req.amount_cents && req.amount_cents <= MAX_AMOUNT_CENTS) {
                    r == Err::<Id, LedgerError>(LedgerError::Validation) && *final(self) == *old(
                        self,
                    )
                } else if !valid_date(req.transfer_date) {
                    r == Err::<Id, LedgerError>(LedgerError::Validation) && *final(self) == *old(
                        self,
                    )
                } else if req.from_account_id == req.to_account_id {
                    r == Err::<Id, LedgerError>(LedgerError::Validation) && *final(self) == *old(
                        self,
                    )
                } else if !has_record(old(self).accounts@, p.tenant, req.from_account_id) {
                    r == Err::<Id, LedgerError>(LedgerError::Validation) && *final(self) == *old(
                        self,
                    )
                } else if !has_record(old(self).accounts@, p.tenant, req.to_account_id) {
                    r == Err::<Id, LedgerError>(LedgerError::Validation) && *final(self) == *old(
                        self,
                    )
                } else {
                    &&& r == Ok::<Id, LedgerError>(old(self).next_id)
                    &&& transfer_post(
                        *old(self),
                        *final(self),
                        *p,
                        req.from_account_id,
                        req.to_account_id,
                        req.transfer_date,
                        req.amount_cents,
                    )
                    &&& ((req.note is None || trim_of(req.note->0@).len() == 0)
                        ==> final(self).transfers@.last().note is None)
                    &&& ((req.note is Some && trim_of(req.note->0@).len() != 0)
                        ==> final(self).transfers@.last().note is Some
                        && final(self).transfers@.last().note->0@ == trim_of(req.note->0@))
                }
            }),
    {
        if !p.may_manage() {
            return Err(LedgerError::Forbidden);
        }
        if req.amount_cents < 1 || req.amount_cents > MAX_AMOUNT_CENTS {
            return Err(LedgerError::Validation);
        }
        if !req.transfer_date.is_valid() {
            return Err(LedgerError::Validation);
        }
        if req.from_account_id == req.to_account_id {
            return Err(LedgerError::Validation);
        }
        if find_record(&self.accounts, p.tenant, req.from_account_id).is_none() {
            return Err(LedgerError::Validation);
        }
        if find_record(&self.accounts, p.tenant, req.to_account_id).is_none() {
            return Err(LedgerError::Validation);
        }
        let note = crate::text::normalize_optional_text(req.note);
        proof {
            lemma_can_mint(*self);
        }
        let tid = self.mint_id();
        let transfer = crate::model::Transfer {
            id: tid,
            tenant: p.tenant,
            from_account: req.from_account_id,
            to_account: req.to_account_id,
            date: req.transfer_date,
            amount_cents: req.amount_cents,
            note,
        };
        proof {
            lemma_push_fresh(self.transfers@, transfer, tid);
        }
        self.transfers.push(transfer);
        proof {
            lemma_can_mint(*self);
        }
        let m1id = self.mint_id();
        let m1 = Movement {
            id: m1id,
            tenant: p.tenant,
            account: req.from_account_id,
            direction: Direction::Debit,
            origin_kind: OriginKind::TransferOut,
            origin: tid,
            date: req.transfer_date,
            amount_cents: req.amount_cents,
            note: Some(String::from_str("Transferência enviada")),
        };
        proof {
            crate::ledger::lemma_ids_below_weaken(self.movements@, old(self).next_id, m1id);
            lemma_push_fresh(self.movements@, m1, m1id);
        }
        self.movements.push(m1);
        proof {
            lemma_can_mint(*self);
        }
        let m2id = self.mint_id();
        let m2 = Movement {
            id: m2id,
            tenant: p.tenant,
            account: req.to_account_id,
            direction: Direction::Credit,
            origin_kind: OriginKind::TransferIn,
            origin: tid,
            date: req.transfer_date,
            amount_cents: req.amount_cents,
            note: Some(String::from_str("Transferência recebida")),
        };
        proof {
            lemma_push_fresh(self.movements@, m2, m2id);
        }
        self.movements.push(m2);
        Ok(tid)
    }
}

impl Ledger {
    /// Settles a payable against the clock: the settlement date
    /// defaults to the current date when none is supplied.
    pub fn mark_payable_paid_now(
        &mut self,
        p: &Principal,
        payable_id: Id,
        req: MarkPayablePaidRequest,
    ) -> (r: Result<(), LedgerError>)
        requires
            old(self).wf(),
        ensures
            final(self).wf(),
            ({
                if req.paid_at is Some && !valid_date(req.paid_at->0) {
                    r == Err::<(), LedgerError>(LedgerError::Validation) && *final(self) == *old(
                        self,
                    )
                } else if payable_settle_gate(*old(self), *p, payable_id, req.account_id) is Some {
                    r == Err::<(), LedgerError>(
                        payable_settle_gate(*old(self), *p, payable_id, req.account_id)->0,
                    ) && *final(self) == *old(self)
                } else {
                    r == Ok::<(), LedgerError>(()) && exists|d: DateYmd|
                        valid_date(d) && (req.paid_at is Some ==> d == req.paid_at->0)
                            && #[trigger] payable_settled_post(
                            *old(self),
                            *final(self),
                            *p,
                            payable_id,
                            req.account_id,
                            d,
                        )
                }
            }),
    {
        let today = crate::dates::current_date();
        self.mark_payable_paid(p, payable_id, req, today)
    }

    /// Settles a receivable against the clock: the settlement date
    /// defaults to the current date when none is supplied.
    pub fn mark_receivable_received_now(
        &mut self,
        p: &Principal,
        receivable_id: Id,
        req: MarkReceivableReceivedRequest,
    ) -> (r: Result<(), LedgerError>)
        requires
            old(self).wf(),
        ensures
            final(self).wf(),
            ({
                if req.received_at is Some && !valid_date(req.received_at->0) {
                    r == Err::<(), LedgerError>(LedgerError::Validation) && *final(self) == *old(
                        self,
                    )
                } else if receivable_settle_gate(
                    *old(self),
                    *p,
                    receivable_id,
                    req.account_id,
                ) is Some {
                    r == Err::<(), LedgerError>(
                        receivable_settle_gate(*old(self), *p, receivable_id, req.account_id)->0,
                    ) && *final(self) == *old(self)
                } else {
                    r == Ok::<(), LedgerError>(()) && exists|d: DateYmd|
                        valid_date(d) && (req.received_at is Some ==> d == req.received_at->0)
                            && #[trigger] receivable_settled_post(
                            *old(self),
                            *final(self),
                            *p,
                            receivable_id,
                            req.account_id,
                            d,
                        )
                }
            }),
    {
        let today = crate::dates::current_date();
        self.mark_receivable_received(p, receivable_id, req, today)
    }
}

/// Law: a transfer's two movements change the two balances by exactly
/// the transferred amount and in opposite directions — the source's
/// debit total and the target's credit total each grow by the amount,
/// every other account's sums stay put, so nothing is created or lost
/// across the pair.
pub proof fn lemma_transfer_conserves(
    ms: Seq<Movement>,
    m1: Movement,
    m2: Movement,
    from: Id,
    to: Id,
    amount: i64,
)
    requires
        from != to,
        m1.account == from,
        m1.direction == Direction::Debit,
        m1.amount_cents == amount,
        m2.account == to,
        m2.direction == Direction::Credit,
        m2.amount_cents == amount,
    ensures
        crate::ledger::movement_sum(ms.push(m1).push(m2), from) == crate::ledger::movement_sum(
            ms,
            from,
        ) - amount,
        crate::ledger::movement_sum(ms.push(m1).push(m2), to) == crate::ledger::movement_sum(
            ms,
            to,
        ) + amount,
        forall|a: Id|
            a != from && a != to ==> crate::ledger::movement_sum(ms.push(m1).push(m2), a)
                == crate::ledger::movement_sum(ms, a),
        crate::ledger::debit_sum(ms.push(m1).push(m2), from) == crate::ledger::debit_sum(ms, from)
            + amount,
        crate::ledger::credit_sum(ms.push(m1).push(m2), to) == crate::ledger::credit_sum(ms, to)
            + amount,
        crate::ledger::credit_sum(ms.push(m1).push(m2), from) == crate::ledger::credit_sum(
            ms,
            from,
        ),
        crate::ledger::debit_sum(ms.push(m1).push(m2), to) == crate::ledger::debit_sum(ms, to),
{
    let s1 = ms.push(m1);
    let s2 = s1.push(m2);
    assert(s2.drop_last() =~= s1);
    assert(s1.drop_last() =~= ms);
    assert(s2.last() == m2 && s1.last() == m1);
    assert forall|a: Id| true implies {
        &&& #[trigger] crate::ledger::movement_sum(s2, a) == crate::ledger::movement_sum(ms, a)
            + crate::ledger::signed_delta(m1, a) + crate::ledger::signed_delta(m2, a)
        &&& crate::ledger::credit_sum(s2, a) == crate::ledger::credit_sum(ms, a) + (
        if m1.account == a && m1.direction == Direction::Credit {
            m1.amount_cents as int
        } else {
            0
        }) + (if m2.account == a && m2.direction == Direction::Credit {
            m2.amount_cents as int
        } else {
            0
        })
        &&& crate::ledger::debit_sum(s2, a) == crate::ledger::debit_sum(ms, a) + (
        if m1.account == a && m1.direction == Direction::Debit {
            m1.amount_cents as int
        } else {
            0
        }) + (if m2.account == a && m2.direction == Direction::Debit {
            m2.amount_cents as int
        } else {
            0
        })
    } by {
        assert(crate::ledger::movement_sum(s2, a) == crate::ledger::movement_sum(s1, a)
            + crate::ledger::signed_delta(m2, a));
        assert(crate::ledger::movement_sum(s1, a) == crate::ledger::movement_sum(ms, a)
            + crate::ledger::signed_delta(m1, a));
        assert(crate::ledger::credit_sum(s2, a) == crate::ledger::credit_sum(s1, a) + (
        if m2.account == a && m2.direction == Direction::Credit {
            m2.amount_cents as int
        } else {
            0
        }));
        assert(crate::ledger::credit_sum(s1, a) == crate::ledger::credit_sum(ms, a) + (
        if m1.account == a && m1.direction == Direction::Credit {
            m1.amount_cents as int
        } else {
            0
        }));
        assert(crate::ledger::debit_sum(s2, a) == crate::ledger::debit_sum(s1, a) + (
        if m2.account == a && m2.direction == Direction::Debit {
            m2.amount_cents as int
        } else {
            0
        }));
        assert(crate::ledger::debit_sum(s1, a) == crate::ledger::debit_sum(ms, a) + (
        if m1.account == a && m1.direction == Direction::Debit {
            m1.amount_cents as int
        } else {
            0
        }));
    }
}

/// Law: settling the same payable twice fails. After one successful
/// settlement the payable is no longer pending, so a repeated call
/// reports a conflict and leaves every record, including the movement
/// ledger, untouched.
pub proof fn lemma_settle_payable_twice(
    pre: Ledger,
    mid: Ledger,
    p: Principal,
    payable_id: Id,
    account_id: Id,
    d: DateYmd,
)
    requires
        pre.wf(),
        mid.wf(),
        payable_settle_gate(pre, p, payable_id, account_id) is None,
        payable_settled_post(pre, mid, p, payable_id, account_id, d),
    ensures
        payable_settle_gate(mid, p, payable_id, account_id) == Some(LedgerError::Conflict),
{
    let k = record_at(pre.payables@, p.tenant, payable_id);
    assert(0 <= k < pre.payables@.len() && pre.payables@[k].record_id() == payable_id
        && pre.payables@[k].record_tenant() == p.tenant);
    let x = settled_payable(pre.payables@[k], account_id, d);
    assert(mid.payables@[k] == x);
    lemma_record_found(mid.payables@, p.tenant, payable_id, k);
    assert(has_record(mid.accounts@, p.tenant, account_id)) by {
        assert(mid.accounts == pre.accounts);
        assert(has_record(pre.accounts@, p.tenant, account_id));
    }
}

/// Law: settling the same receivable twice fails, in the same way.
pub proof fn lemma_settle_receivable_twice(
    pre: Ledger,
    mid: Ledger,
    p: Principal,
    receivable_id: Id,
    account_id: Id,
    d: DateYmd,
)
    requires
        pre.wf(),
        mid.wf(),
        receivable_settle_gate(pre, p, receivable_id, account_id) is None,
        receivable_settled_post(pre, mid, p, receivable_id, account_id, d),
    ensures
        receivable_settle_gate(mid, p, receivable_id, account_id) == Some(LedgerError::Conflict),
{
    let k = record_at(pre.receivables@, p.tenant, receivable_id);
    assert(0 <= k < pre.receivables@.len() && pre.receivables@[k].record_id() == receivable_id
        && pre.receivables@[k].record_tenant() == p.tenant);
    let x = settled_receivable_with_date(pre.receivables@[k], account_id, d);
    assert(mid.receivables@[k] == x);
    lemma_record_found(mid.receivables@, p.tenant, receivable_id, k);
    assert(has_record(mid.accounts@, p.tenant, account_id)) by {
        assert(mid.accounts == pre.accounts);
        assert(has_record(pre.accounts@, p.tenant, account_id));
    }
}

} // verus!
