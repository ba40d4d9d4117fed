//! Tenant-level financial views: the stored contract template and the
//! guardian statement over receivables.

use vstd::prelude::*;
use vstd::string::StringExecFns;
use crate::auth::{can_manage, can_operate, Principal};
use crate::contracts::student_display_string;
use crate::dates::{
    date_before, date_le, date_le_exec, lemma_date_le_antisymmetric, lemma_date_le_total,
    lemma_date_le_trans, DateYmd,
};
use crate::ordering::{ordered, sort_rows, ViewOrder};
use crate::ledger::{
    find_record, has_record, lemma_record_found, record_at, Ledger, LedgerRecord, TenantSettings,
};
use crate::model::{Id, LedgerError, Receivable, ReceivableStatus};
use crate::money::MAX_AMOUNT_CENTS;
use crate::text::{clone_opt_string, normalize_optional_text, trim_of, trimmed};

verus! {

/// The stored contract template and the school identity around it.
pub struct ContractTemplateResponse {
    pub school_name: String,
    pub school_code: String,
    pub school_city: Option<String>,
    pub school_signature_name: Option<String>,
    pub template: String,
}

/// Request to replace the stored contract template.
pub struct UpdateContractTemplateRequest {
    pub template: String,
    pub school_city: Option<String>,
    pub school_signature_name: Option<String>,
}

/// The fallback contract template used when a tenant stored none.
pub open spec fn default_template_chars() -> Seq<char> {
    "CONTRATO DE PRESTACAO DE SERVICOS EDUCACIONAIS\n\nEscola: {{school_name}} ({{school_code}})\nCidade: {{school_city}}\nData: {{date}}\n\nAluno(a): {{student_name}}\nResponsavel financeiro: {{payer_name}}\n\nPlano contratado: {{description}}\nValor total: R$ {{total_amount}}\nQuantidade de parcelas: {{installments_count}}\nPrimeiro vencimento: {{first_due_date}}\n\nAs partes acima identificadas acordam com as condicoes de prestacao de servicos educacionais e pagamento das mensalidades.\n\nAssinaturas:\n\n____________________________________\nResponsavel Financeiro\n\n____________________________________\nEscola - {{school_signature_name}}\n"@
}

/// The default contract template offered when a tenant stored none.
pub fn default_financial_contract_template() -> (r: String)
    ensures
        r@ == default_template_chars(),
{
    String::from_str(
        "CONTRATO DE PRESTACAO DE SERVICOS EDUCACIONAIS\n\nEscola: {{school_name}} ({{school_code}})\nCidade: {{school_city}}\nData: {{date}}\n\nAluno(a): {{student_name}}\nResponsavel financeiro: {{payer_name}}\n\nPlano contratado: {{description}}\nValor total: R$ {{total_amount}}\nQuantidade de parcelas: {{installments_count}}\nPrimeiro vencimento: {{first_due_date}}\n\nAs partes acima identificadas acordam com as condicoes de prestacao de servicos educacionais e pagamento das mensalidades.\n\nAssinaturas:\n\n____________________________________\nResponsavel Financeiro\n\n____________________________________\nEscola - {{school_signature_name}}\n",
    )
}

impl Ledger {
    /// Reads a tenant's contract template, falling back to the default
    /// when none was stored.
    pub fn get_contract_template(&self, p: &Principal) -> (r: Result<
        ContractTemplateResponse,
        LedgerError,
    >)
        requires
            self.wf(),
        ensures
            !can_operate(p.role) ==> r == Err::<ContractTemplateResponse, LedgerError>(
                LedgerError::Forbidden,
            ),
            can_operate(p.role) && !has_record(self.tenants@, p.tenant, p.tenant) ==> r == Err::<
                ContractTemplateResponse,
                LedgerError,
            >(LedgerError::NotFound),
            can_operate(p.role) && has_record(self.tenants@, p.tenant, p.tenant) ==> ({
                let ts = self.tenants@[record_at(self.tenants@, p.tenant, p.tenant)];
                &&& r is Ok
                &&& r->Ok_0.school_name == ts.school_name
                &&& r->Ok_0.school_code == ts.school_code
                &&& r->Ok_0.school_city == ts.school_city
                &&& r->Ok_0.school_signature_name == ts.school_signature_name
                &&& (ts.financial_contract_template is Some ==> r->Ok_0.template
                    == ts.financial_contract_template->0)
                &&& (ts.financial_contract_template is None ==> r->Ok_0.template@
                    == default_template_chars())
            }),
    {
        if !p.may_operate() {
            return Err(LedgerError::Forbidden);
        }
        let idx = match find_record(&self.tenants, p.tenant, p.tenant) {
            None => {
                return Err(LedgerError::NotFound);
            },
            Some(i) => i,
        };
        proof {
            lemma_record_found(self.tenants@, p.tenant, p.tenant, idx as int);
        }
        let ts = &self.tenants[idx];
        let template = match &ts.financial_contract_template {
            Some(t) => t.clone(),
            None => default_financial_contract_template(),
        };
        Ok(
            ContractTemplateResponse {
                school_name: ts.school_name.clone(),
                school_code: ts.school_code.clone(),
                school_city: clone_opt_string(&ts.school_city),
                school_signature_name: clone_opt_string(&ts.school_signature_name),
                template,
            },
        )
    }

    /// Replaces a tenant's contract template: only owners and admins
    /// may, and the trimmed template needs at least forty bytes. The
    /// school city and signature name are normalized alongside.
    pub fn update_contract_template(&mut self, p: &Principal, req: UpdateContractTemplateRequest)
        -> (r: Result<(), LedgerError>)
        requires
            old(self).wf(),
        ensures
            final(self).wf(),
            ({
                if !can_manage(p.role) {
                    r == Err::<(), LedgerError>(LedgerError::Forbidden) && *final(self) == *old(
                        self,
                    )
                } else if vstd::utf8::encode_utf8(trim_of(req.template@)).len() < 40 {
                    r == Err::<(), LedgerError>(LedgerError::Validation) && *final(self) == *old(
                        self,
                    )
                } else if !has_record(old(self).tenants@, p.tenant, p.tenant) {
                    r == Err::<(), LedgerError>(LedgerError::NotFound) && *final(self) == *old(
                        self,
                    )
                } else {
                    let k = record_at(old(self).tenants@, p.tenant, p.tenant);
                    let ts = final(self).tenants@[k];
                    &&& r == Ok::<(), LedgerError>(())
                    &&& final(self).tenants@ == old(self).tenants@.update(k, ts)
                    &&& ts.tenant == p.tenant
                    &&& ts.school_name == old(self).tenants@[k].school_name
                    &&& ts.school_code == old(self).tenants@[k].school_code
                    &&& ts.financial_contract_template is Some
                    &&& ts.financial_contract_template->0@ == trim_of(req.template@)
                    &&& ((req.school_city is None || trim_of(req.school_city->0@).len() == 0)
                        ==> ts.school_city is None)
                    &&& (req.school_city is Some && trim_of(req.school_city->0@).len() != 0
                        ==> ts.school_city is Some && ts.school_city->0@ == trim_of(
                        req.school_city->0@,
                    ))
                    &&& ((req.school_signature_name is None || trim_of(
                        req.school_signature_name->0@,
                    ).len() == 0) ==> ts.school_signature_name is None)
                    &&& (req.school_signature_name is Some && trim_of(
                        req.school_signature_name->0@,
                    ).len() != 0 ==> ts.school_signature_name is Some
                        && ts.school_signature_name->0@ == trim_of(req.school_signature_name->0@))
                    &&& final(self).people == old(self).people
                    &&& final(self).students == old(self).students
                    &&& crate::registry::same_refs(*old(self), *final(self))
                    &&& crate::registry::same_obligations(*old(self), *final(self))
                    &&& crate::registry::same_flows(*old(self), *final(self))
                    &&& final(self).next_id == old(self).next_id
                }
            }),
    {
        if !p.may_manage() {
            return Err(LedgerError::Forbidden);
        }
        let trimmed_template = String::from_str(trimmed(req.template.as_str()));
        if trimmed_template.as_str().as_bytes().len() < 40 {
            return Err(LedgerError::Validation);
        }
        let idx = match find_record(&self.tenants, p.tenant, p.tenant) {
            None => {
                return Err(LedgerError::NotFound);
            },
            Some(i) => i,
        };
        proof {
            lemma_record_found(self.tenants@, p.tenant, p.tenant, idx as int);
        }
        let city = normalize_optional_text(req.school_city);
        let signature = normalize_optional_text(req.school_signature_name);
        let updated = TenantSettings {
            tenant: self.tenants[idx].tenant,
            school_name: self.tenants[idx].school_name.clone(),
            school_code: self.tenants[idx].school_code.clone(),
            school_city: city,
            school_signature_name: signature,
            financial_contract_template: Some(trimmed_template),
        };
        proof {
            let t0 = self.tenants@;
            let t1 = t0.update(idx as int, updated);
            assert forall|i: int, j: int|
                0 <= i < j < t1.len() implies (#[trigger] t1[i]).record_id() != (
            #[trigger] t1[j]).record_id() by {
                assert(t1[i].record_id() == t0[i].record_id());
                assert(t1[j].record_id() == t0[j].record_id());
            }
        }
        self.tenants[idx] = updated;
        Ok(())
    }
}

/// Statement query bounds, both ends optional and inclusive.
pub struct FinancialGuardianStatementQuery {
    pub date_from: Option<DateYmd>,
    pub date_to: Option<DateYmd>,
}

/// One receivable on a guardian's statement.
pub struct FinancialGuardianStatementItem {
    pub receivable_id: Id,
    pub description: String,
    pub student_id: Option<Id>,
    pub student_name: Option<String>,
    pub due_date: DateYmd,
    pub amount_cents: i64,
    pub status: ReceivableStatus,
    pub received_on: Option<DateYmd>,
}

/// A guardian's financial statement: the person, the receivables in
/// range, and the recomputed totals.
pub struct FinancialGuardianStatementResponse {
    pub person_id: Id,
    pub person_name: String,
    pub person_email: Option<String>,
    pub total_paid_cents: i128,
    pub total_open_cents: i128,
    pub pending_balance_total_cents: i128,
    pub items: Vec<FinancialGuardianStatementItem>,
}

/// Whether a receivable appears on the statement: it belongs to the
/// tenant, names the person as payer, and its due date lies within the
/// optional bounds.
pub open spec fn stmt_selected(
    x: Receivable,
    tenant: Id,
    person: Id,
    from: Option<DateYmd>,
    to: Option<DateYmd>,
) -> bool {
    &&& x.tenant == tenant
    &&& x.payer_person == Some(person)
    &&& (from is Some ==> date_le(from->0, x.due_date))
    &&& (to is Some ==> date_le(x.due_date, to->0))
}

/// The statement's receivables, in stored order.
pub open spec fn stmt_items(
    recs: Seq<Receivable>,
    tenant: Id,
    person: Id,
    from: Option<DateYmd>,
    to: Option<DateYmd>,
) -> Seq<Receivable>
    decreases recs.len(),
{
    if recs.len() == 0 {
        Seq::empty()
    } else {
        let rest = stmt_items(recs.drop_last(), tenant, person, from, to);
        if stmt_selected(recs.last(), tenant, person, from, to) {
            rest.push(recs.last())
        } else {
            rest
        }
    }
}

/// Sum of the amounts of the statement receivables with the given
/// status.
pub open spec fn stmt_total(
    recs: Seq<Receivable>,
    tenant: Id,
    person: Id,
    from: Option<DateYmd>,
    to: Option<DateYmd>,
    status: ReceivableStatus,
) -> int
    decreases recs.len(),
{
    if recs.len() == 0 {
        0
    } else {
        stmt_total(recs.drop_last(), tenant, person, from, to, status) + (if stmt_selected(
            recs.last(),
            tenant,
            person,
            from,
            to,
        ) && recs.last().status == status {
            recs.last().amount_cents as int
        } else {
            0
        })
    }
}

/// One statement row as derived from a receivable: its fields, with
/// the student's display name resolved when the student is registered.
pub open spec fn stmt_item_view(l: Ledger, tenant: Id, x: Receivable) -> FinancialGuardianStatementItem {
    FinancialGuardianStatementItem {
        receivable_id: x.id,
        description: x.description,
        student_id: x.student,
        student_name: match x.student {
            None => None,
            Some(sid) => if has_record(l.students@, tenant, sid) {
                Some(student_display_string(l, tenant, sid))
            } else {
                None
            },
        },
        due_date: x.due_date,
        amount_cents: x.amount_cents,
        status: x.status,
        received_on: x.received_on,
    }
}

impl ViewOrder for FinancialGuardianStatementItem {
    /// Statement rows are listed newest due date first, newest record
    /// first within a day.
    open spec fn leq(a: FinancialGuardianStatementItem, b: FinancialGuardianStatementItem) -> bool {
        date_before(b.due_date, a.due_date) || (a.due_date == b.due_date && a.receivable_id
            >= b.receivable_id)
    }

    fn leq_exec(a: &FinancialGuardianStatementItem, b: &FinancialGuardianStatementItem) -> bool {
        (date_le_exec(&b.due_date, &a.due_date) && a.due_date != b.due_date) || (a.due_date
            == b.due_date && a.receivable_id >= b.receivable_id)
    }

    proof fn leq_total(a: FinancialGuardianStatementItem, b: FinancialGuardianStatementItem) {
        lemma_date_le_total(a.due_date, b.due_date);
        if date_le(a.due_date, b.due_date) && date_le(b.due_date, a.due_date) {
            lemma_date_le_antisymmetric(a.due_date, b.due_date);
        }
    }

    proof fn leq_trans(
        a: FinancialGuardianStatementItem,
        b: FinancialGuardianStatementItem,
        c: FinancialGuardianStatementItem,
    ) {
        lemma_date_le_total(a.due_date, b.due_date);
        lemma_date_le_total(b.due_date, c.due_date);
        lemma_date_le_total(a.due_date, c.due_date);
        if date_le(c.due_date, b.due_date) && date_le(b.due_date, a.due_date) {
            lemma_date_le_trans(c.due_date, b.due_date, a.due_date);
        }
        if date_le(a.due_date, c.due_date) && date_le(c.due_date, a.due_date) {
            lemma_date_le_antisymmetric(a.due_date, c.due_date);
        }
    }
}

/// Sum of the pending amounts owed by the person, regardless of any
/// date range.
pub open spec fn pending_balance(recs: Seq<Receivable>, tenant: Id, person: Id) -> int
    decreases recs.len(),
{
    if recs.len() == 0 {
        0
    } else {
        pending_balance(recs.drop_last(), tenant, person) + (if recs.last().tenant == tenant
            && recs.last().payer_person == Some(person) && recs.last().status
            == ReceivableStatus::Pending {
            recs.last().amount_cents as int
        } else {
            0
        })
    }
}

impl Ledger {
    /// Assembles a financial guardian's statement: the receivables
    /// naming the person as payer within the optional date range,
    /// newest due date first, and the totals recomputed from them —
    /// nothing is read from a cached aggregate.
    #[verifier::loop_isolation(false)]
    pub fn get_financial_guardian_statement(
        &self,
        p: &Principal,
        person_id: Id,
        q: &FinancialGuardianStatementQuery,
    ) -> (r: Result<FinancialGuardianStatementResponse, LedgerError>)
        requires
            self.wf(),
        ensures
            ({
                if !can_operate(p.role) {
                    r == Err::<FinancialGuardianStatementResponse, LedgerError>(
                        LedgerError::Forbidden,
                    )
                } else if !(has_record(self.people@, p.tenant, person_id) && self.people@[record_at(
                    self.people@,
                    p.tenant,
                    person_id,
                )].active) {
                    r == Err::<FinancialGuardianStatementResponse, LedgerError>(
                        LedgerError::Validation,
                    )
                } else {
                    let person = self.people@[record_at(self.people@, p.tenant, person_id)];
                    let items = stmt_items(
                        self.receivables@,
                        p.tenant,
                        person_id,
                        q.date_from,
                        q.date_to,
                    );
                    &&& r is Ok
                    &&& r->Ok_0.person_id == person_id
                    &&& r->Ok_0.person_name == person.name
                    &&& r->Ok_0.person_email == person.email
                    &&& r->Ok_0.total_paid_cents == stmt_total(
                        self.receivables@,
                        p.tenant,
                        person_id,
                        q.date_from,
                        q.date_to,
                        ReceivableStatus::Received,
                    )
                    &&& r->Ok_0.total_open_cents == stmt_total(
                        self.receivables@,
                        p.tenant,
                        person_id,
                        q.date_from,
                        q.date_to,
                        ReceivableStatus::Pending,
                    )
                    &&& r->Ok_0.pending_balance_total_cents == pending_balance(
                        self.receivables@,
                        p.tenant,
                        person_id,
                    )
                    &&& r->Ok_0.items@.len() == items.len()
                    &&& r->Ok_0.items@.to_multiset() == items.map_values(
                        |x: Receivable| stmt_item_view(*self, p.tenant, x),
                    ).to_multiset()
                    &&& ordered(r->Ok_0.items@)
                }
            }),
    {
        if !p.may_operate() {
            return Err(LedgerError::Forbidden);
        }
        let pidx = match find_record(&self.people, p.tenant, person_id) {
            None => {
                return Err(LedgerError::Validation);
            },
            Some(i) => i,
        };
        proof {
            lemma_record_found(self.people@, p.tenant, person_id, pidx as int);
        }
        if !self.people[pidx].active {
            return Err(LedgerError::Validation);
        }
        let n = self.receivables.len();
        let mut items: Vec<FinancialGuardianStatementItem> = Vec::new();
        let mut total_paid: i128 = 0;
        let mut total_open: i128 = 0;
        let mut pending_total: i128 = 0;
        let mut i: usize = 0;
        while i < n
            invariant
                n == self.receivables@.len(),
                0 <= i <= n,
                items@ == stmt_items(
                    self.receivables@.take(i as int),
                    p.tenant,
                    person_id,
                    q.date_from,
                    q.date_to,
                ).map_values(|x: Receivable| stmt_item_view(*self, p.tenant, x)),
                total_paid == stmt_total(
                    self.receivables@.take(i as int),
                    p.tenant,
                    person_id,
                    q.date_from,
                    q.date_to,
                    ReceivableStatus::Received,
                ),
                total_open == stmt_total(
                    self.receivables@.take(i as int),
                    p.tenant,
                    person_id,
                    q.date_from,
                    q.date_to,
                    ReceivableStatus::Pending,
                ),
                pending_total == pending_balance(
                    self.receivables@.take(i as int),
                    p.tenant,
                    person_id,
                ),
                0 <= total_paid <= i * MAX_AMOUNT_CENTS,
                0 <= total_open <= i * MAX_AMOUNT_CENTS,
                0 <= pending_total <= i * MAX_AMOUNT_CENTS,
            decreases n - i,
        {
            proof {
                assert(self.receivables@.take(i + 1).drop_last() =~= self.receivables@.take(
                    i as int,
                ));
                assert(self.receivables@.take(i + 1).last() == self.receivables@[i as int]);
                assert((i as int) * MAX_AMOUNT_CENTS + MAX_AMOUNT_CENTS == (i + 1)
                    * MAX_AMOUNT_CENTS) by (nonlinear_arith);
                assert((i + 1) * MAX_AMOUNT_CENTS <= (n as int) * MAX_AMOUNT_CENTS) by (
                nonlinear_arith)
                    requires
                        0 <= i < n,
                ;
                assert((n as int) * MAX_AMOUNT_CENTS
                    < 0x7000_0000_0000_0000_0000_0000_0000_0000) by (nonlinear_arith)
                    requires
                        n <= usize::MAX,
                ;
            }
            let x = &self.receivables[i];
            let is_payer = match x.payer_person {
                Some(pp) => pp == person_id,
                None => false,
            };
            if x.etenant() == p.tenant && is_payer && x.status == ReceivableStatus::Pending {
                pending_total = pending_total + x.amount_cents as i128;
            }
            let in_range = {
                let from_ok = match &q.date_from {
                    Some(f) => date_le_exec(f, &x.due_date),
                    None => true,
                };
                let to_ok = match &q.date_to {
                    Some(t) => date_le_exec(&x.due_date, t),
                    None => true,
                };
                from_ok && to_ok
            };
            if x.etenant() == p.tenant && is_payer && in_range {
                match x.status {
                    ReceivableStatus::Received => {
                        total_paid = total_paid + x.amount_cents as i128;
                    },
                    ReceivableStatus::Pending => {
                        total_open = total_open + x.amount_cents as i128;
                    },
                }
                let student_name: Option<String> = match x.student {
                    Some(sid) => match find_record(&self.students, p.tenant, sid) {
                        Some(k) => {
                            proof {
                                lemma_record_found(self.students@, p.tenant, sid, k as int);
                            }
                            Some(self.student_name_of(p.tenant, k))
                        },
                        None => None,
                    },
                    None => None,
                };
                items.push(
                    FinancialGuardianStatementItem {
                        receivable_id: x.id,
                        description: x.description.clone(),
                        student_id: x.student,
                        student_name,
                        due_date: x.due_date,
                        amount_cents: x.amount_cents,
                        status: x.status,
                        received_on: x.received_on,
                    },
                );
            }
            i = i + 1;
            proof {
                assert(items@ =~= stmt_items(
                    self.receivables@.take(i as int),
                    p.tenant,
                    person_id,
                    q.date_from,
                    q.date_to,
                ).map_values(|x: Receivable| stmt_item_view(*self, p.tenant, x)));
            }
        }
        proof {
            assert(self.receivables@.take(n as int) =~= self.receivables@);
        }
        Ok(
            FinancialGuardianStatementResponse {
                person_id,
                person_name: self.people[pidx].name.clone(),
                person_email: clone_opt_string(&self.people[pidx].email),
                total_paid_cents: total_paid,
                total_open_cents: total_open,
                pending_balance_total_cents: pending_total,
                items: sort_rows(items),
            },
        )
    }
}

} // verus!
