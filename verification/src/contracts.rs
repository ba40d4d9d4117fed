//! Installment contracts: creation generates the installment schedule
//! and the shadow receivables in one atomic step.

use vstd::prelude::*;
use vstd::string::StringExecFns;
use crate::auth::{can_operate, Principal};
use crate::dates::{due_date_for, due_date_spec, valid_date, DateYmd};
use crate::digits::{dec_digits, push_dec};
use crate::ledger::{
    find_record, has_record, ids_below, ids_unique, installments_paired, lemma_can_mint,
    lemma_ids_below_weaken, lemma_push_fresh, lemma_record_found, record_at,
    receivable_links_below, receivable_links_injective, Ledger, LedgerRecord,
};
use crate::model::{
    BillingMode, Contract, ContractStatus, Id, Installment, InstallmentStatus, LedgerError,
    Receivable, ReceivableSource, ReceivableStatus, normalize_billing_mode,
};
use crate::money::{installment_amount, installment_amounts, MAX_AMOUNT_CENTS};
use crate::registry::{same_directory, same_refs};
use crate::text::{clone_opt_string, lower_of, normalize_optional_text, trim_of, trimmed};

verus! {

/// Request to create an installment contract.
pub struct CreateFinancialContractRequest {
    pub student_id: Id,
    pub payer_person_id: Option<Id>,
    pub recipient_person_ids: Vec<Id>,
    pub description: String,
    pub total_amount_cents: i64,
    pub installments_count: i32,
    pub first_due_date: DateYmd,
    pub due_day: Option<i32>,
    pub billing_mode: Option<String>,
    pub school_pix_key: Option<String>,
    pub school_payment_instructions: Option<String>,
}

/// Whether the person exists for the tenant and carries the financial
/// guardian role.
pub open spec fn financial_person_ok(l: Ledger, tenant: Id, id: Id) -> bool {
    has_record(l.people@, tenant, id) && l.people@[record_at(
        l.people@,
        tenant,
        id,
    )].financial_guardian
}

/// Whether an optional payer reference passes its check.
pub open spec fn opt_financial_person_ok(l: Ledger, tenant: Id, id: Option<Id>) -> bool {
    id is Some ==> financial_person_ok(l, tenant, id->0)
}

/// Whether every named recipient passes the financial guardian check.
pub open spec fn recipients_ok(l: Ledger, tenant: Id, ids: Seq<Id>) -> bool {
    forall|j: int| 0 <= j < ids.len() ==> financial_person_ok(l, tenant, #[trigger] ids[j])
}

/// The display name of a student: the linked person's name when one is
/// linked and registered, else the student record's own name.
pub open spec fn student_display_name(l: Ledger, tenant: Id, student_id: Id) -> Seq<char>
    recommends
        has_record(l.students@, tenant, student_id),
{
    student_display_string(l, tenant, student_id)@
}

/// The stored string a student's display name is read from.
pub open spec fn student_display_string(l: Ledger, tenant: Id, student_id: Id) -> String
    recommends
        has_record(l.students@, tenant, student_id),
{
    let s = l.students@[record_at(l.students@, tenant, student_id)];
    if s.person is Some && has_record(l.people@, tenant, s.person->0) {
        l.people@[record_at(l.people@, tenant, s.person->0)].name
    } else {
        s.name
    }
}

/// `s` with later duplicates dropped, keeping first occurrences.
pub open spec fn dedup_ids(s: Seq<Id>) -> Seq<Id>
    decreases s.len(),
{
    if s.len() == 0 {
        Seq::empty()
    } else {
        let rest = dedup_ids(s.drop_last());
        if s.drop_last().contains(s.last()) {
            rest
        } else {
            rest.push(s.last())
        }
    }
}

/// Deduplication keeps exactly the members of the original sequence.
pub proof fn lemma_dedup_members(s: Seq<Id>, x: Id)
    ensures
        dedup_ids(s).contains(x) == s.contains(x),
    decreases s.len(),
{
    if s.len() > 0 {
        let t = s.drop_last();
        lemma_dedup_members(t, x);
        let rest = dedup_ids(t);
        assert(s.contains(x) == (t.contains(x) || x == s.last())) by {
            if t.contains(x) {
                let k = choose|k: int| 0 <= k < t.len() && t[k] == x;
                assert(s[k] == x);
            }
            if x == s.last() {
                assert(s[s.len() - 1] == x);
            }
            if s.contains(x) && x != s.last() {
                let k = choose|k: int| 0 <= k < s.len() && s[k] == x;
                assert(k < s.len() - 1);
                assert(t[k] == x);
            }
        }
        if t.contains(s.last()) {
            assert(dedup_ids(s) == rest);
        } else {
            assert(dedup_ids(s) == rest.push(s.last()));
            assert(rest.push(s.last()).contains(x) == (rest.contains(x) || x == s.last())) by {
                if rest.contains(x) {
                    let k = choose|k: int| 0 <= k < rest.len() && rest[k] == x;
                    assert(rest.push(s.last())[k] == x);
                }
                if x == s.last() {
                    assert(rest.push(s.last())[rest.len() as int] == x);
                }
                if rest.push(s.last()).contains(x) && x != s.last() {
                    let k = choose|k: int|
                        0 <= k < rest.push(s.last()).len() && rest.push(s.last())[k] == x;
                    assert(k < rest.len());
                    assert(rest[k] == x);
                }
            }
        }
    }
}

/// Whether `x` occurs in the vector.
fn id_in(v: &Vec<Id>, x: Id) -> (r: bool)
    ensures
        r == v@.contains(x),
{
    let n = v.len();
    let mut i: usize = 0;
    while i < n
        invariant
            n == v@.len(),
            0 <= i <= n,
            forall|k: int| 0 <= k < i ==> v@[k] != x,
        decreases n - i,
    {
        if v[i] == x {
            assert(v@.contains(x));
            return true;
        }
        i = i + 1;
    }
    assert(!v@.contains(x));
    false
}

/// Drops later duplicates from a list of identifiers.
fn dedup_id_vec(v: &Vec<Id>) -> (r: Vec<Id>)
    ensures
        r@ == dedup_ids(v@),
{
    let n = v.len();
    let mut out: Vec<Id> = Vec::new();
    let mut i: usize = 0;
    while i < n
        invariant
            n == v@.len(),
            0 <= i <= n,
            out@ == dedup_ids(v@.take(i as int)),
        decreases n - i,
    {
        proof {
            assert(v@.take(i + 1).drop_last() =~= v@.take(i as int));
            assert(v@.take(i + 1).last() == v@[i as int]);
            lemma_dedup_members(v@.take(i as int), v@[i as int]);
        }
        if !id_in(&out, v[i]) {
            out.push(v[i]);
        }
        i = i + 1;
    }
    proof {
        assert(v@.take(n as int) =~= v@);
    }
    out
}

/// The description of the shadow receivable of installment `i` out of
/// `count`: the slice position, the contract description and the
/// student's name.
pub open spec fn receivable_desc(i: int, count: int, desc: Seq<char>, student: Seq<char>) -> Seq<
    char,
> {
    "Parcela "@ + dec_digits(i) + "/"@ + dec_digits(count) + " - "@ + desc + " ("@ + student
        + ")"@
}

/// The parsed billing mode of the optional request field.
pub open spec fn spec_billing_mode(o: Option<String>) -> Option<BillingMode> {
    match o {
        None => Some(BillingMode::SchoolBooklet),
        Some(s) => {
            let n = lower_of(trim_of(s@));
            if n == "provider_boleto"@ {
                Some(BillingMode::ProviderBoleto)
            } else if n == "school_booklet"@ {
                Some(BillingMode::SchoolBooklet)
            } else if n == "school_booklet_pix"@ {
                Some(BillingMode::SchoolBookletPix)
            } else {
                None
            }
        },
    }
}

/// The normalized view of an optional text field: dropped when absent
/// or blank, trimmed otherwise.
pub open spec fn normalized_is_none(o: Option<String>) -> bool {
    o is None || trim_of(o->0@).len() == 0
}

/// Whether the whole installment schedule stays within the supported
/// year range.
pub open spec fn schedule_in_range(first: DateYmd, count: int) -> bool
    recommends
        valid_date(first),
        count >= 1,
{
    first.year + (first.month - 1 + count - 1) / 12 <= crate::dates::YEAR_MAX
}

/// Whether every generated slice of `total` over `count` is positive.
pub open spec fn amounts_all_positive(total: int, count: int) -> bool {
    forall|i: int| 0 <= i < count ==> installment_amount(total, count, i) >= 1
}

/// Whether an installment carries exactly the generated fields.
pub open spec fn inst_matches(
    x: Installment,
    id: Id,
    tenant: Id,
    contract: Id,
    number: u32,
    due: DateYmd,
    amount: int,
) -> bool {
    &&& x.id == id
    &&& x.tenant == tenant
    &&& x.contract == contract
    &&& x.number == number
    &&& x.due_date == due
    &&& x.amount_cents == amount
    &&& x.status == InstallmentStatus::Pending
    &&& x.boleto_code is None
    &&& x.boleto_url is None
    &&& x.boleto_pdf_url is None
    &&& x.pix_payload is None
    &&& x.payment_instructions is None
    &&& x.emailed_on is None
    &&& x.paid_on is None
}

/// What a successful contract creation does: one contract, `count`
/// installments with the generated schedule, and one pending shadow
/// receivable per installment, all appended atomically.
pub open spec fn contract_created_post(
    pre: Ledger,
    post: Ledger,
    p: Principal,
    req: CreateFinancialContractRequest,
    mode: BillingMode,
) -> bool {
    let cid = pre.next_id;
    let count = req.installments_count as int;
    let total = req.total_amount_cents as int;
    let c = post.contracts@.last();
    let student = student_display_name(pre, p.tenant, req.student_id);
    let ni = pre.installments@.len() as int;
    let nr = pre.receivables@.len() as int;
    &&& post.contracts@ == pre.contracts@.push(c)
    &&& c.id == cid
    &&& c.tenant == p.tenant
    &&& c.student == req.student_id
    &&& c.payer_person == req.payer_person_id
    &&& c.recipients@ == dedup_ids(req.recipient_person_ids@)
    &&& c.description@ == trim_of(req.description@)
    &&& c.total_amount_cents == req.total_amount_cents
    &&& c.installments_count == req.installments_count as u32
    &&& c.first_due_date == req.first_due_date
    &&& c.due_day == req.due_day
    &&& c.billing_mode == mode
    &&& (normalized_is_none(req.school_pix_key) ==> c.school_pix_key is None)
    &&& (!normalized_is_none(req.school_pix_key) ==> c.school_pix_key is Some
        && c.school_pix_key->0@ == trim_of(req.school_pix_key->0@))
    &&& (normalized_is_none(req.school_payment_instructions)
        ==> c.school_payment_instructions is None)
    &&& (!normalized_is_none(req.school_payment_instructions)
        ==> c.school_payment_instructions is Some && c.school_payment_instructions->0@ == trim_of(
        req.school_payment_instructions->0@,
    ))
    &&& c.status == ContractStatus::Active
    &&& post.installments@.len() == ni + count
    &&& post.installments@.take(ni) == pre.installments@
    &&& forall|i: int|
        0 <= i < count ==> inst_matches(
            #[trigger] post.installments@[ni + i],
            (cid + 1 + 2 * i) as Id,
            p.tenant,
            cid,
            (i + 1) as u32,
            due_date_spec(req.first_due_date, i, req.due_day),
            installment_amount(total, count, i),
        )
    &&& post.receivables@.len() == nr + count
    &&& post.receivables@.take(nr) == pre.receivables@
    &&& forall|i: int|
        0 <= i < count ==> {
            let r = #[trigger] post.receivables@[nr + i];
            &&& r.id == (cid + 2 + 2 * i) as Id
            &&& r.tenant == p.tenant
            &&& r.description@ == receivable_desc(i + 1, count, trim_of(req.description@), student)
            &&& r.payer_person == req.payer_person_id
            &&& r.payer_counterparty is None
            &&& r.payer_name_legacy is Some && r.payer_name_legacy->0@ == student
            &&& r.category is None
            &&& r.category_legacy is Some && r.category_legacy->0@ == "mensalidade"@
            &&& r.due_date == due_date_spec(req.first_due_date, i, req.due_day)
            &&& r.amount_cents == installment_amount(total, count, i)
            &&& r.status == ReceivableStatus::Pending
            &&& r.source == ReceivableSource::Installment
            &&& r.contract == Some(cid)
            &&& r.installment == Some((cid + 1 + 2 * i) as Id)
            &&& r.student == Some(req.student_id)
            &&& r.account is None
            &&& r.received_on is None
        }
    &&& post.next_id == pre.next_id + 1 + 2 * count
    &&& post.payables == pre.payables
    &&& post.movements == pre.movements
    &&& post.transfers == pre.transfers
    &&& post.email_logs == pre.email_logs
    &&& same_directory(pre, post)
    &&& same_refs(pre, post)
}

/// The pairing and link bounds survive appending one installment and
/// its freshly linked shadow receivable.
proof fn lemma_pairing_push_pair(
    insts: Seq<Installment>,
    recs: Seq<Receivable>,
    x: Installment,
    y: Receivable,
    bound: Id,
)
    requires
        installments_paired(insts, recs),
        receivable_links_injective(recs),
        receivable_links_below(recs, bound),
        y.installment == Some(x.id),
        x.id >= bound,
        x.id < Id::MAX,
    ensures
        installments_paired(insts.push(x), recs.push(y)),
        receivable_links_injective(recs.push(y)),
        receivable_links_below(recs.push(y), (x.id + 1) as Id),
{
    let ti = insts.push(x);
    let tr = recs.push(y);
    assert forall|i: int| 0 <= i < ti.len() implies exists|j: int|
        0 <= j < tr.len() && (#[trigger] tr[j]).installment == Some((#[trigger] ti[i]).id) by {
        if i < insts.len() {
            assert(ti[i] == insts[i]);
            let j = choose|j: int|
                0 <= j < recs.len() && (#[trigger] recs[j]).installment == Some(insts[i].id);
            assert(tr[j] == recs[j]);
        } else {
            assert(ti[i] == x);
            assert(tr[recs.len() as int] == y);
        }
    }
    assert forall|j1: int, j2: int|
        0 <= j1 < j2 < tr.len() && (#[trigger] tr[j1]).installment is Some implies (
    #[trigger] tr[j2]).installment != tr[j1].installment by {
        if j2 < recs.len() {
            assert(tr[j1] == recs[j1] && tr[j2] == recs[j2]);
        } else {
            assert(tr[j2] == y && tr[j1] == recs[j1]);
        }
    }
    assert forall|j: int|
        0 <= j < tr.len() && (#[trigger] tr[j]).installment is Some implies tr[j].installment->0
        < x.id + 1 by {
        if j < recs.len() {
            assert(tr[j] == recs[j]);
        } else {
            assert(tr[j] == y);
        }
    }
}

impl Ledger {
    /// Resolves a student's display name.
    pub(crate) fn student_name_of(&self, tenant: Id, idx: usize) -> (r: String)
        requires
            self.wf(),
            idx < self.students@.len(),
            self.students@[idx as int].record_tenant() == tenant,
            record_at(self.students@, tenant, self.students@[idx as int].id) == idx,
        ensures
            r == student_display_string(*self, tenant, self.students@[idx as int].id),
            r@ == student_display_name(*self, tenant, self.students@[idx as int].id),
    {
        let student = &self.students[idx];
        match student.person {
            Some(pid) => match find_record(&self.people, tenant, pid) {
                Some(k) => {
                    proof {
                        lemma_record_found(self.people@, tenant, pid, k as int);
                    }
                    self.people[k].name.clone()
                },
                None => student.name.clone(),
            },
            None => student.name.clone(),
        }
    }

    /// Creates a contract and materializes its installment schedule:
    /// `count` installments whose amounts sum exactly to the total
    /// (the last absorbs the rounding remainder), each paired with a
    /// pending shadow receivable. Any failed check aborts before
    /// anything is written.
    #[verifier::loop_isolation(false)]
    pub fn create_contract(&mut self, p: &Principal, req: CreateFinancialContractRequest) -> (r:
        Result<Id, LedgerError>)
        requires
            old(self).wf(),
        ensures
            final(self).wf(),
            ({
                let total = req.total_amount_cents as int;
                let count = req.installments_count as int;
                if !can_operate(p.role) {
                    r == Err::<Id, LedgerError>(LedgerError::Forbidden) && *final(self) == *old(
                        self,
                    )
                } else if req.description@.len() < 2 {
                    r == Err::<Id, LedgerError>(LedgerError::Validation) && *final(self) == *old(
                        self,
                    )
                } else if req.installments_count < 1 {
                    r == Err::<Id, LedgerError>(LedgerError::Validation) && *final(self) == *old(
                        self,
                    )
                } else if !(1 <= req.total_amount_cents && req.total_amount_cents
                    <= MAX_AMOUNT_CENTS) {
                    r == Err::<Id, LedgerError>(LedgerError::Validation) && *final(self) == *old(
                        self,
                    )
                } else if spec_billing_mode(req.billing_mode) is None {
                    r == Err::<Id, LedgerError>(LedgerError::Validation) && *final(self) == *old(
                        self,
                    )
                } else if spec_billing_mode(req.billing_mode) == Some(BillingMode::SchoolBookletPix)
                    && normalized_is_none(req.school_pix_key) {
                    r == Err::<Id, LedgerError>(LedgerError::Validation) && *final(self) == *old(
                        self,
                    )
                } else if !valid_date(req.first_due_date) {
                    r == Err::<Id, LedgerError>(LedgerError::Validation) && *final(self) == *old(
                        self,
                    )
                } else if !schedule_in_range(req.first_due_date, count) {
                    r == Err::<Id, LedgerError>(LedgerError::Validation) && *final(self) == *old(
                        self,
                    )
                } else if !has_record(old(self).students@, p.tenant, req.student_id) {
                    r == Err::<Id, LedgerError>(LedgerError::Validation) && *final(self) == *old(
                        self,
                    )
                } else if !opt_financial_person_ok(*old(self), p.tenant, req.payer_person_id) {
                    r == Err::<Id, LedgerError>(LedgerError::Validation) && *final(self) == *old(
                        self,
                    )
                } else if !recipients_ok(*old(self), p.tenant, req.recipient_person_ids@) {
                    r == Err::<Id, LedgerError>(LedgerError::Validation) && *final(self) == *old(
                        self,
                    )
                } else if !amounts_all_positive(total, count) {
                    r == Err::<Id, LedgerError>(LedgerError::Validation) && *final(self) == *old(
                        self,
                    )
                } else {
                    r == Ok::<Id, LedgerError>(old(self).next_id) && contract_created_post(
                        *old(self),
                        *final(self),
                        *p,
                        req,
                        spec_billing_mode(req.billing_mode)->0,
                    )
                }
            }),
    {
        if !p.may_operate() {
            return Err(LedgerError::Forbidden);
        }
        if req.description.as_str().unicode_len() < 2 {
            return Err(LedgerError::Validation);
        }
        if req.installments_count < 1 {
            return Err(LedgerError::Validation);
        }
        if req.total_amount_cents < 1 || req.total_amount_cents > MAX_AMOUNT_CENTS {
            return Err(LedgerError::Validation);
        }
        let mode_in: Option<&str> = match &req.billing_mode {
            None => None,
            Some(s) => Some(s.as_str()),
        };
        let mode = match normalize_billing_mode(mode_in) {
            Ok(m) => m,
            Err(_) => {
                return Err(LedgerError::Validation);
            },
        };
        let pix_key = normalize_optional_text(clone_opt_string(&req.school_pix_key));
        let instructions = normalize_optional_text(
            clone_opt_string(&req.school_payment_instructions),
        );
        let pix_missing = match (&mode, &pix_key) {
            (BillingMode::SchoolBookletPix, None) => true,
            _ => false,
        };
        if pix_missing {
            return Err(LedgerError::Validation);
        }
        if !req.first_due_date.is_valid() {
            return Err(LedgerError::Validation);
        }
        let horizon: i64 = (req.first_due_date.year as i64) + ((req.first_due_date.month as i64)
            - 1 + (req.installments_count as i64) - 1) / 12;
        if horizon > crate::dates::YEAR_MAX as i64 {
            return Err(LedgerError::Validation);
        }
        let sidx = match find_record(&self.students, p.tenant, req.student_id) {
            None => {
                return Err(LedgerError::Validation);
            },
            Some(i) => i,
        };
        proof {
            lemma_record_found(self.students@, p.tenant, req.student_id, sidx as int);
        }
        if let Some(payer) = req.payer_person_id {
            match find_record(&self.people, p.tenant, payer) {
                None => {
                    return Err(LedgerError::Validation);
                },
                Some(k) => {
                    proof {
                        lemma_record_found(self.people@, p.tenant, payer, k as int);
                    }
                    if !self.people[k].financial_guardian {
                        return Err(LedgerError::Validation);
                    }
                },
            }
        }
        let nrec = req.recipient_person_ids.len();
        let mut ri: usize = 0;
        while ri < nrec
            invariant
                self.wf(),
                *self == *old(self),
                nrec == req.recipient_person_ids@.len(),
                0 <= ri <= nrec,
                forall|j: int|
                    0 <= j < ri ==> financial_person_ok(
                        *old(self),
                        p.tenant,
                        #[trigger] req.recipient_person_ids@[j],
                    ),
            decreases nrec - ri,
        {
            match find_record(&self.people, p.tenant, req.recipient_person_ids[ri]) {
                None => {
                    return Err(LedgerError::Validation);
                },
                Some(k) => {
                    proof {
                        lemma_record_found(
                            self.people@,
                            p.tenant,
                            req.recipient_person_ids@[ri as int],
                            k as int,
                        );
                    }
                    if !self.people[k].financial_guardian {
                        return Err(LedgerError::Validation);
                    }
                },
            }
            ri = ri + 1;
        }
        let count: u32 = req.installments_count as u32;
        let amounts = installment_amounts(req.total_amount_cents, count);
        let namt = amounts.len();
        let mut ai: usize = 0;
        while ai < namt
            invariant
                *self == *old(self),
                namt == amounts@.len(),
                amounts@.len() == count,
                count == req.installments_count as u32,
                0 <= ai <= namt,
                forall|i: int|
                    0 <= i < amounts@.len() ==> amounts@[i] == installment_amount(
                        req.total_amount_cents as int,
                        count as int,
                        i,
                    ),
                forall|i: int| 0 <= i < ai ==> #[trigger] amounts@[i] >= 1,
            decreases namt - ai,
        {
            if amounts[ai] < 1 {
                proof {
                    assert(installment_amount(
                        req.total_amount_cents as int,
                        req.installments_count as int,
                        ai as int,
                    ) < 1);
                    assert(!amounts_all_positive(
                        req.total_amount_cents as int,
                        req.installments_count as int,
                    ));
                }
                return Err(LedgerError::Validation);
            }
            ai = ai + 1;
        }
        assert(amounts_all_positive(req.total_amount_cents as int, req.installments_count as int));

        let student_name = self.student_name_of(p.tenant, sidx);
        let description = String::from_str(trimmed(req.description.as_str()));
        let desc_keep = description.clone();
        let recipients = dedup_id_vec(&req.recipient_person_ids);
        proof {
            lemma_can_mint(*self);
        }
        let cid = self.mint_id();
        let contract = Contract {
            id: cid,
            tenant: p.tenant,
            student: req.student_id,
            payer_person: req.payer_person_id,
            recipients,
            description,
            total_amount_cents: req.total_amount_cents,
            installments_count: count,
            first_due_date: req.first_due_date,
            due_day: req.due_day,
            billing_mode: mode,
            school_pix_key: pix_key,
            school_payment_instructions: instructions,
            status: ContractStatus::Active,
        };
        let ghost contract_snap = contract;
        proof {
            lemma_push_fresh(self.contracts@, contract, cid);
        }
        self.contracts.push(contract);

        let ghost pre = *old(self);
        let ghost ni = pre.installments@.len() as int;
        let ghost nr = pre.receivables@.len() as int;
        let ghost student_view = student_display_name(pre, p.tenant, req.student_id);
        let mut i: u32 = 0;
        while i < count
            invariant
                1 <= count,
                count == req.installments_count as u32,
                1 <= req.installments_count,
                0 <= i <= count,
                amounts@.len() == count,
                forall|k: int|
                    0 <= k < amounts@.len() ==> amounts@[k] == installment_amount(
                        req.total_amount_cents as int,
                        count as int,
                        k,
                    ),
                1 <= req.total_amount_cents <= MAX_AMOUNT_CENTS,
                forall|k: int| 0 <= k < amounts@.len() ==> 1 <= #[trigger] amounts@[k] <= MAX_AMOUNT_CENTS,
                valid_date(req.first_due_date),
                schedule_in_range(req.first_due_date, count as int),
                pre == *old(self),
                pre.wf(),
                pre.next_id < Id::MAX - 0x1_0000_0000_0000,
                student_view == student_display_name(pre, p.tenant, req.student_id),
                student_name@ == student_view,
                desc_keep@ == trim_of(req.description@),
                ni == pre.installments@.len(),
                nr == pre.receivables@.len(),
                cid == pre.next_id,
                self.next_id == cid + 1 + 2 * i,
                self.contracts@ == pre.contracts@.push(contract_snap),
                ids_unique(self.contracts@),
                ids_below(self.contracts@, (cid + 1) as Id),
                self.installments@.len() == ni + i,
                self.installments@.take(ni) == pre.installments@,
                forall|k: int|
                    0 <= k < i ==> inst_matches(
                        #[trigger] self.installments@[ni + k],
                        (cid + 1 + 2 * k) as Id,
                        p.tenant,
                        cid,
                        (k + 1) as u32,
                        due_date_spec(req.first_due_date, k, req.due_day),
                        installment_amount(req.total_amount_cents as int, count as int, k),
                    ),
                self.receivables@.len() == nr + i,
                self.receivables@.take(nr) == pre.receivables@,
                forall|k: int|
                    0 <= k < i ==> {
                        let r = #[trigger] self.receivables@[nr + k];
                        &&& r.id == (cid + 2 + 2 * k) as Id
                        &&& r.tenant == p.tenant
                        &&& r.description@ == receivable_desc(
                            k + 1,
                            count as int,
                            trim_of(req.description@),
                            student_view,
                        )
                        &&& r.payer_person == req.payer_person_id
                        &&& r.payer_counterparty is None
                        &&& r.payer_name_legacy is Some && r.payer_name_legacy->0@ == student_view
                        &&& r.category is None
                        &&& r.category_legacy is Some && r.category_legacy->0@ == "mensalidade"@
                        &&& r.due_date == due_date_spec(req.first_due_date, k, req.due_day)
                        &&& r.amount_cents == installment_amount(
                            req.total_amount_cents as int,
                            count as int,
                            k,
                        )
                        &&& r.status == ReceivableStatus::Pending
                        &&& r.source == ReceivableSource::Installment
                        &&& r.contract == Some(cid)
                        &&& r.installment == Some((cid + 1 + 2 * k) as Id)
                        &&& r.student == Some(req.student_id)
                        &&& r.account is None
                        &&& r.received_on is None
                    },
                ids_unique(self.installments@),
                ids_below(self.installments@, self.next_id),
                ids_unique(self.receivables@),
                ids_below(self.receivables@, self.next_id),
                forall|k: int|
                    0 <= k < self.installments@.len() ==> {
                        let x = #[trigger] self.installments@[k];
                        &&& 1 <= x.amount_cents <= MAX_AMOUNT_CENTS
                        &&& valid_date(x.due_date)
                    },
                forall|k: int|
                    0 <= k < self.receivables@.len() ==> {
                        let x = #[trigger] self.receivables@[k];
                        &&& 1 <= x.amount_cents <= MAX_AMOUNT_CENTS
                        &&& valid_date(x.due_date)
                    },
                installments_paired(self.installments@, self.receivables@),
                receivable_links_injective(self.receivables@),
                receivable_links_below(self.receivables@, self.next_id),
                self.tenants == pre.tenants,
                self.people == pre.people,
                self.students == pre.students,
                self.accounts == pre.accounts,
                self.counterparties == pre.counterparties,
                self.categories == pre.categories,
                self.movements == pre.movements,
                self.payables == pre.payables,
                self.transfers == pre.transfers,
                self.email_logs == pre.email_logs,
            decreases count - i,
        {
            let due = due_date_for(req.first_due_date, i as i32, req.due_day);
            proof {
                vstd::arithmetic::div_mod::lemma_div_is_ordered(
                    req.first_due_date.month - 1 + i as int,
                    req.first_due_date.month - 1 + count as int - 1,
                    12,
                );
                assert(valid_date(due));
            }
            let amount = amounts[i as usize];
            let iid = self.next_id;
            self.next_id = iid + 1;
            let inst = Installment {
                id: iid,
                tenant: p.tenant,
                contract: cid,
                number: i + 1,
                due_date: due,
                amount_cents: amount,
                status: InstallmentStatus::Pending,
                boleto_code: None,
                boleto_url: None,
                boleto_pdf_url: None,
                pix_payload: None,
                payment_instructions: None,
                emailed_on: None,
                paid_on: None,
            };
            let mut desc = String::from_str("Parcela ");
            push_dec(&mut desc, (i + 1) as u64);
            desc.append("/");
            push_dec(&mut desc, count as u64);
            desc.append(" - ");
            desc.append(desc_keep.as_str());
            desc.append(" (");
            desc.append(student_name.as_str());
            desc.append(")");
            proof {
                assert(desc@ =~= receivable_desc(
                    i as int + 1,
                    count as int,
                    trim_of(req.description@),
                    student_view,
                ));
            }
            let rid = self.next_id;
            self.next_id = rid + 1;
            let recv = Receivable {
                id: rid,
                tenant: p.tenant,
                description: desc,
                payer_person: req.payer_person_id,
                payer_counterparty: None,
                payer_name_legacy: Some(student_name.clone()),
                category: None,
                category_legacy: Some(String::from_str("mensalidade")),
                due_date: due,
                amount_cents: amount,
                status: ReceivableStatus::Pending,
                source: ReceivableSource::Installment,
                contract: Some(cid),
                installment: Some(iid),
                student: Some(req.student_id),
                account: None,
                received_on: None,
            };
            proof {
                lemma_push_fresh(self.installments@, inst, iid);
                crate::ledger::lemma_ids_below_weaken(self.installments@.push(inst), (iid + 1) as Id, self.next_id);
                lemma_pairing_push_pair(self.installments@, self.receivables@, inst, recv, iid);
                crate::ledger::lemma_links_below_weaken(self.receivables@.push(recv), (iid + 1) as Id, self.next_id);
                crate::ledger::lemma_ids_below_weaken(self.receivables@, iid, rid);
                lemma_push_fresh(self.receivables@, recv, rid);
            }
            self.installments.push(inst);
            self.receivables.push(recv);
            proof {
                assert(self.installments@.take(ni) =~= pre.installments@);
                assert(self.receivables@.take(nr) =~= pre.receivables@);
            }
            i = i + 1;
        }
        proof {
            crate::ledger::lemma_ids_below_weaken(self.contracts@, (cid + 1) as Id, self.next_id);
            crate::ledger::lemma_ids_below_weaken(self.people@, pre.next_id, self.next_id);
            crate::ledger::lemma_ids_below_weaken(self.students@, pre.next_id, self.next_id);
            crate::ledger::lemma_ids_below_weaken(self.accounts@, pre.next_id, self.next_id);
            crate::ledger::lemma_ids_below_weaken(
                self.counterparties@,
                pre.next_id,
                self.next_id,
            );
            crate::ledger::lemma_ids_below_weaken(self.categories@, pre.next_id, self.next_id);
            crate::ledger::lemma_ids_below_weaken(self.movements@, pre.next_id, self.next_id);
            crate::ledger::lemma_ids_below_weaken(self.payables@, pre.next_id, self.next_id);
            crate::ledger::lemma_ids_below_weaken(self.transfers@, pre.next_id, self.next_id);
            crate::ledger::lemma_ids_below_weaken(self.email_logs@, pre.next_id, self.next_id);
            assert(contract_created_post(
                pre,
                *self,
                *p,
                req,
                spec_billing_mode(req.billing_mode)->0,
            ));
        }
        Ok(cid)
    }
}

} // verus!
