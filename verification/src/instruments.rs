//! Payment instruments for a contract's open installments: boleto
//! reference codes, provider links, PIX payloads, the notification
//! log, and marking single installments paid.

use vstd::prelude::*;
use vstd::string::StringExecFns;
use crate::auth::{can_operate, Principal};
use crate::contracts::student_display_name;
use crate::dates::{push_yyyymmdd, valid_date, yyyymmdd_spec, DateYmd};
use crate::digits::{hex_prefix_lower, push_hex_prefix_lower};
use crate::ledger::{
    find_record, has_record, lemma_can_mint, lemma_ids_update, lemma_pairing_update_installment,
    lemma_pairing_update_receivable, lemma_push_fresh, lemma_record_found, record_at,
    receivable_links_injective, Ledger, LedgerRecord,
};
use crate::model::{
    BillingMode, EmailLog, Id, Installment, InstallmentStatus, LedgerError, Receivable,
    ReceivableStatus,
};
use crate::pix::{
    build_school_pix_payload, pix_prefix_spec, sanitize_desc_spec, sanitize_field_spec,
    txid_chars, with_crc,
};
use crate::text::{clone_opt_string, trim_of, upper_of};

verus! {

/// The explicit configuration the encoders need: the base link for
/// provider boletos and the merchant strings used as PIX fallbacks.
pub struct EncoderConfig {
    pub boleto_base_url: String,
    pub pix_merchant_name: String,
    pub pix_merchant_city: String,
}

/// Request to mark one installment paid.
pub struct MarkInstallmentPaidRequest {
    pub paid_at: Option<DateYmd>,
}

/// How many recipients and open installments a notification run
/// reached.
pub struct SendEmailResult {
    pub sent_to: usize,
    pub installments_sent: usize,
}

/// The code prefix of each billing mode.
pub open spec fn boleto_prefix(mode: BillingMode) -> Seq<char> {
    match mode {
        BillingMode::ProviderBoleto => "BLT"@,
        BillingMode::SchoolBooklet => "CRN"@,
        BillingMode::SchoolBookletPix => "CRN-PIX"@,
    }
}

/// The deterministic reference code of an installment: the mode's
/// prefix, the due date stamp, and the first eight hex digits of the
/// installment's identifier.
pub open spec fn boleto_code_chars(mode: BillingMode, due: DateYmd, id: Id) -> Seq<char> {
    boleto_prefix(mode) + "-"@ + yyyymmdd_spec(due) + "-"@ + hex_prefix_lower(id, 8)
}

/// `s` with its trailing slashes removed.
pub open spec fn trim_slashes(s: Seq<char>) -> Seq<char>
    decreases s.len(),
{
    if s.len() > 0 && s.last() == '/' {
        trim_slashes(s.drop_last())
    } else {
        s
    }
}

/// The provider link of a code under a base address.
pub open spec fn boleto_url_chars(base: Seq<char>, code: Seq<char>) -> Seq<char> {
    trim_slashes(base) + "/"@ + code
}

/// The complete PIX payload for an installment, from the raw inputs.
pub open spec fn pix_payload_for(
    key: Seq<char>,
    amount: int,
    id: Id,
    desc: Seq<char>,
    merchant_name: Seq<char>,
    merchant_city: Seq<char>,
) -> Seq<char> {
    with_crc(
        pix_prefix_spec(
            trim_of(key),
            amount,
            txid_chars(id),
            sanitize_desc_spec(upper_of(trim_of(desc)), 50),
            sanitize_field_spec(upper_of(trim_of(merchant_name)), 25, "ESCOLA"@),
            sanitize_field_spec(upper_of(trim_of(merchant_city)), 15, "CIDADE"@),
        ),
    )
}

/// Whether instrument generation touches this installment: it belongs
/// to the tenant and contract and is still pending or overdue.
pub open spec fn inst_selected(x: Installment, tenant: Id, contract: Id) -> bool {
    x.tenant == tenant && x.contract == contract && (x.status == InstallmentStatus::Pending
        || x.status == InstallmentStatus::Overdue)
}

/// Whether every selected installment's due date can be stamped as
/// eight digits.
pub open spec fn instruments_encodable(insts: Seq<Installment>, tenant: Id, contract: Id) -> bool {
    forall|j: int|
        0 <= j < insts.len() && inst_selected(#[trigger] insts[j], tenant, contract) ==> 0
            <= insts[j].due_date.year <= 9999
}

/// How instrument generation rewrites one selected installment: the
/// schedule fields survive, the code is the deterministic reference
/// code, and links and payload are filled according to the billing
/// mode.
pub open spec fn instrumented(
    o: Installment,
    n: Installment,
    mode: BillingMode,
    key: Option<String>,
    instr: Option<String>,
    pixdesc: Seq<char>,
    base_url: Seq<char>,
    merchant_name: Seq<char>,
    merchant_city: Seq<char>,
) -> bool {
    let code = boleto_code_chars(mode, o.due_date, o.id);
    &&& n.id == o.id
    &&& n.tenant == o.tenant
    &&& n.contract == o.contract
    &&& n.number == o.number
    &&& n.due_date == o.due_date
    &&& n.amount_cents == o.amount_cents
    &&& n.status == o.status
    &&& n.emailed_on == o.emailed_on
    &&& n.paid_on == o.paid_on
    &&& n.boleto_code is Some && n.boleto_code->0@ == code
    &&& (instr is None ==> n.payment_instructions is None)
    &&& (instr is Some ==> n.payment_instructions is Some && n.payment_instructions->0@
        == instr->0@)
    &&& match mode {
        BillingMode::ProviderBoleto => {
            &&& n.boleto_url is Some && n.boleto_url->0@ == boleto_url_chars(base_url, code)
            &&& n.boleto_pdf_url is Some && n.boleto_pdf_url->0@ == boleto_url_chars(
                base_url,
                code,
            ) + ".pdf"@
            &&& n.pix_payload is None
        },
        BillingMode::SchoolBooklet => {
            &&& n.boleto_url is None
            &&& n.boleto_pdf_url is None
            &&& n.pix_payload is None
        },
        BillingMode::SchoolBookletPix => {
            &&& n.boleto_url is None
            &&& n.boleto_pdf_url is None
            &&& (key is None ==> n.pix_payload is None)
            &&& (key is Some ==> n.pix_payload is Some && n.pix_payload->0@ == pix_payload_for(
                key->0@,
                o.amount_cents as int,
                o.id,
                pixdesc,
                merchant_name,
                merchant_city,
            ))
        },
    }
}

/// Removes the trailing slashes of a base address.
fn trim_trailing_slashes(s: &str) -> (r: String)
    ensures
        r@ == trim_slashes(s@),
{
    let n = s.unicode_len();
    proof {
        assert(s@.take(n as int) =~= s@);
    }
    let mut k: usize = n;
    while k > 0 && s.get_char(k - 1) == '/'
        invariant
            n == s@.len(),
            0 <= k <= n,
            trim_slashes(s@) == trim_slashes(s@.take(k as int)),
        decreases k,
    {
        proof {
            assert(s@.take(k as int).last() == s@[k - 1]);
            assert(s@.take(k as int).drop_last() =~= s@.take(k - 1));
        }
        k = k - 1;
    }
    proof {
        if k > 0 {
            assert(s@.take(k as int).last() == s@[k - 1]);
        }
        assert(trim_slashes(s@.take(k as int)) == s@.take(k as int));
    }
    let cut = s.substring_char(0, k);
    String::from_str(cut)
}

impl Ledger {
    /// Generates payment instruments for every pending or overdue
    /// installment of a contract: the reference code always, provider
    /// links or the checksummed PIX payload according to the billing
    /// mode, and the contract's payment instructions.
    #[verifier::loop_isolation(false)]
    pub fn generate_boletos(&mut self, p: &Principal, contract_id: Id, cfg: &EncoderConfig) -> (r:
        Result<(), LedgerError>)
        requires
            old(self).wf(),
        ensures
            final(self).wf(),
            ({
                let cidx = record_at(old(self).contracts@, p.tenant, contract_id);
                let c = old(self).contracts@[cidx];
                if !can_operate(p.role) {
                    r == Err::<(), LedgerError>(LedgerError::Forbidden) && *final(self) == *old(
                        self,
                    )
                } else if !has_record(old(self).contracts@, p.tenant, contract_id) {
                    r == Err::<(), LedgerError>(LedgerError::NotFound) && *final(self) == *old(
                        self,
                    )
                } else if !has_record(old(self).students@, p.tenant, c.student) {
                    r == Err::<(), LedgerError>(LedgerError::NotFound) && *final(self) == *old(
                        self,
                    )
                } else if !instruments_encodable(old(self).installments@, p.tenant, contract_id) {
                    r == Err::<(), LedgerError>(LedgerError::Validation) && *final(self) == *old(
                        self,
                    )
                } else {
                    let student = student_display_name(*old(self), p.tenant, c.student);
                    let pixdesc = student + " - "@ + c.description@;
                    &&& r == Ok::<(), LedgerError>(())
                    &&& final(self).installments@.len() == old(self).installments@.len()
                    &&& forall|j: int|
                        0 <= j < old(self).installments@.len() && inst_selected(
                            #[trigger] old(self).installments@[j],
                            p.tenant,
                            contract_id,
                        ) ==> instrumented(
                            old(self).installments@[j],
                            final(self).installments@[j],
                            c.billing_mode,
                            c.school_pix_key,
                            c.school_payment_instructions,
                            pixdesc,
                            cfg.boleto_base_url@,
                            cfg.pix_merchant_name@,
                            cfg.pix_merchant_city@,
                        )
                    &&& forall|j: int|
                        0 <= j < old(self).installments@.len() && !inst_selected(
                            #[trigger] old(self).installments@[j],
                            p.tenant,
                            contract_id,
                        ) ==> final(self).installments@[j] == old(self).installments@[j]
                    &&& final(self).next_id == old(self).next_id
                    &&& final(self).contracts == old(self).contracts
                    &&& final(self).receivables == old(self).receivables
                    &&& final(self).payables == old(self).payables
                    &&& final(self).movements == old(self).movements
                    &&& final(self).transfers == old(self).transfers
                    &&& final(self).email_logs == old(self).email_logs
                    &&& crate::registry::same_directory(*old(self), *final(self))
                    &&& crate::registry::same_refs(*old(self), *final(self))
                }
            }),
    {
        if !p.may_operate() {
            return Err(LedgerError::Forbidden);
        }
        let cidx = match find_record(&self.contracts, p.tenant, contract_id) {
            None => {
                return Err(LedgerError::NotFound);
            },
            Some(i) => i,
        };
        proof {
            lemma_record_found(self.contracts@, p.tenant, contract_id, cidx as int);
        }
        let student_id = self.contracts[cidx].student;
        let sidx = match find_record(&self.students, p.tenant, student_id) {
            None => {
                return Err(LedgerError::NotFound);
            },
            Some(i) => i,
        };
        proof {
            lemma_record_found(self.students@, p.tenant, student_id, sidx as int);
        }
        let n = self.installments.len();
        let mut j: usize = 0;
        while j < n
            invariant
                n == self.installments@.len(),
                0 <= j <= n,
                forall|k: int|
                    0 <= k < j && inst_selected(
                        #[trigger] self.installments@[k],
                        p.tenant,
                        contract_id,
                    ) ==> 0 <= self.installments@[k].due_date.year <= 9999,
            decreases n - j,
        {
            let x = &self.installments[j];
            if x.etenant() == p.tenant && x.contract == contract_id && (match x.status {
                InstallmentStatus::Pending => true,
                InstallmentStatus::Overdue => true,
                InstallmentStatus::Paid => false,
            }) {
                if x.due_date.year < 0 || x.due_date.year > 9999 {
                    return Err(LedgerError::Validation);
                }
            }
            j = j + 1;
        }
        let mode = self.contracts[cidx].billing_mode;
        let key = clone_opt_string(&self.contracts[cidx].school_pix_key);
        let instr = clone_opt_string(&self.contracts[cidx].school_payment_instructions);
        let student_name = self.student_name_of(p.tenant, sidx);
        let mut pixdesc = student_name;
        pixdesc.append(" - ");
        pixdesc.append(self.contracts[cidx].description.as_str());
        let base = trim_trailing_slashes(cfg.boleto_base_url.as_str());
        let ghost pre = *old(self);
        let mut i: usize = 0;
        while i < n
            invariant
                n == self.installments@.len(),
                self.installments@.len() == pre.installments@.len(),
                0 <= i <= n,
                pre == *old(self),
                self.tenants == pre.tenants,
                self.people == pre.people,
                self.students == pre.students,
                self.accounts == pre.accounts,
                self.counterparties == pre.counterparties,
                self.categories == pre.categories,
                self.movements == pre.movements,
                self.payables == pre.payables,
                self.receivables == pre.receivables,
                self.contracts == pre.contracts,
                self.transfers == pre.transfers,
                self.email_logs == pre.email_logs,
                self.next_id == pre.next_id,
                self.wf(),
                mode == pre.contracts@[record_at(pre.contracts@, p.tenant, contract_id)].billing_mode,
                key == pre.contracts@[record_at(pre.contracts@, p.tenant, contract_id)].school_pix_key,
                instr == pre.contracts@[record_at(
                    pre.contracts@,
                    p.tenant,
                    contract_id,
                )].school_payment_instructions,
                pixdesc@ == student_display_name(pre, p.tenant, pre.contracts@[record_at(
                    pre.contracts@,
                    p.tenant,
                    contract_id,
                )].student) + " - "@ + pre.contracts@[record_at(
                    pre.contracts@,
                    p.tenant,
                    contract_id,
                )].description@,
                base@ == trim_slashes(cfg.boleto_base_url@),
                forall|k: int|
                    i <= k < n ==> #[trigger] self.installments@[k] == pre.installments@[k],
                forall|k: int|
                    0 <= k < i && inst_selected(
                        #[trigger] pre.installments@[k],
                        p.tenant,
                        contract_id,
                    ) ==> instrumented(
                        pre.installments@[k],
                        self.installments@[k],
                        mode,
                        key,
                        instr,
                        pixdesc@,
                        cfg.boleto_base_url@,
                        cfg.pix_merchant_name@,
                        cfg.pix_merchant_city@,
                    ),
                forall|k: int|
                    0 <= k < i && !inst_selected(
                        #[trigger] pre.installments@[k],
                        p.tenant,
                        contract_id,
                    ) ==> self.installments@[k] == pre.installments@[k],
                instruments_encodable(pre.installments@, p.tenant, contract_id),
            decreases n - i,
        {
            let selected = {
                let x = &self.installments[i];
                x.etenant() == p.tenant && x.contract == contract_id && (match x.status {
                    InstallmentStatus::Pending => true,
                    InstallmentStatus::Overdue => true,
                    InstallmentStatus::Paid => false,
                })
            };
            if selected {
                let due = self.installments[i].due_date;
                let iid = self.installments[i].id;
                let amount = self.installments[i].amount_cents;
                let mut code = match mode {
                    BillingMode::ProviderBoleto => String::from_str("BLT"),
                    BillingMode::SchoolBooklet => String::from_str("CRN"),
                    BillingMode::SchoolBookletPix => String::from_str("CRN-PIX"),
                };
                code.append("-");
                push_yyyymmdd(&mut code, due);
                code.append("-");
                push_hex_prefix_lower(&mut code, iid, 8);
                proof {
                    assert(code@ =~= boleto_code_chars(mode, due, iid));
                }
                let (url, pdf, pix): (Option<String>, Option<String>, Option<String>) = match mode {
                    BillingMode::ProviderBoleto => {
                        let mut link = base.clone();
                        link.append("/");
                        link.append(code.as_str());
                        let mut pdf_link = link.clone();
                        pdf_link.append(".pdf");
                        proof {
                            assert(link@ =~= boleto_url_chars(cfg.boleto_base_url@, code@));
                            assert(pdf_link@ =~= boleto_url_chars(cfg.boleto_base_url@, code@)
                                + ".pdf"@);
                        }
                        (Some(link), Some(pdf_link), None)
                    },
                    BillingMode::SchoolBooklet => (None, None, None),
                    BillingMode::SchoolBookletPix => {
                        let payload: Option<String> = match &key {
                            Some(k) => Some(
                                build_school_pix_payload(
                                    k.as_str(),
                                    amount,
                                    iid,
                                    pixdesc.as_str(),
                                    cfg.pix_merchant_name.as_str(),
                                    cfg.pix_merchant_city.as_str(),
                                ),
                            ),
                            None => None,
                        };
                        (None, None, payload)
                    },
                };
                let updated = Installment {
                    id: iid,
                    tenant: self.installments[i].tenant,
                    contract: self.installments[i].contract,
                    number: self.installments[i].number,
                    due_date: due,
                    amount_cents: amount,
                    status: self.installments[i].status,
                    boleto_code: Some(code),
                    boleto_url: url,
                    boleto_pdf_url: pdf,
                    pix_payload: pix,
                    payment_instructions: clone_opt_string(&instr),
                    emailed_on: self.installments[i].emailed_on,
                    paid_on: self.installments[i].paid_on,
                };
                proof {
                    lemma_ids_update(self.installments@, i as int, updated, self.next_id);
                    lemma_pairing_update_installment(
                        self.installments@,
                        self.receivables@,
                        i as int,
                        updated,
                    );
                }
                self.installments[i] = updated;
            }
            i = i + 1;
        }
        Ok(())
    }
}

/// The contract recipients that can actually be notified: registered
/// people of the tenant with an email on file, in recipient order.
pub open spec fn emailable_recipients(l: Ledger, tenant: Id, ids: Seq<Id>) -> Seq<Id>
    decreases ids.len(),
{
    if ids.len() == 0 {
        Seq::empty()
    } else {
        let rest = emailable_recipients(l, tenant, ids.drop_last());
        let id = ids.last();
        if has_record(l.people@, tenant, id) && l.people@[record_at(
            l.people@,
            tenant,
            id,
        )].email is Some {
            rest.push(id)
        } else {
            rest
        }
    }
}

/// The positions of the pending or overdue installments of a contract.
pub open spec fn selected_positions(insts: Seq<Installment>, tenant: Id, contract: Id) -> Seq<int>
    decreases insts.len(),
{
    if insts.len() == 0 {
        Seq::empty()
    } else {
        let rest = selected_positions(insts.drop_last(), tenant, contract);
        if inst_selected(insts.last(), tenant, contract) {
            rest.push(insts.len() - 1)
        } else {
            rest
        }
    }
}

/// Every selected position indexes a selected installment.
pub proof fn lemma_selected_positions_bounds(insts: Seq<Installment>, tenant: Id, contract: Id)
    ensures
        forall|k: int|
            0 <= k < selected_positions(insts, tenant, contract).len() ==> {
                let pos = #[trigger] selected_positions(insts, tenant, contract)[k];
                &&& 0 <= pos < insts.len()
                &&& inst_selected(insts[pos], tenant, contract)
            },
    decreases insts.len(),
{
    if insts.len() > 0 {
        lemma_selected_positions_bounds(insts.drop_last(), tenant, contract);
        let rest = selected_positions(insts.drop_last(), tenant, contract);
        let whole = selected_positions(insts, tenant, contract);
        assert forall|k: int| 0 <= k < whole.len() implies {
            let pos = #[trigger] whole[k];
            &&& 0 <= pos < insts.len()
            &&& inst_selected(insts[pos], tenant, contract)
        } by {
            if k < rest.len() {
                assert(whole[k] == rest[k]);
                assert(insts[rest[k]] == insts.drop_last()[rest[k]]);
            } else {
                assert(whole[k] == insts.len() - 1);
            }
        }
    }
}

/// An installment after a notification run: only its emailed stamp is
/// set.
pub open spec fn emailed_installment(x: Installment, d: DateYmd) -> Installment {
    Installment { emailed_on: Some(d), ..x }
}

/// An installment marked paid directly: the paid date is overwritten.
pub open spec fn force_paid_installment(x: Installment, d: DateYmd) -> Installment {
    Installment { status: InstallmentStatus::Paid, paid_on: Some(d), ..x }
}

/// The cascade to a linked receivable: received, with the received
/// date set only when it was still unset.
pub open spec fn cascaded_receivable(x: Receivable, d: DateYmd) -> Receivable {
    Receivable {
        status: ReceivableStatus::Received,
        received_on: if x.received_on is Some {
            x.received_on
        } else {
            Some(d)
        },
        ..x
    }
}

/// Whether some receivable of the tenant points at the installment.
pub open spec fn has_link(recs: Seq<Receivable>, tenant: Id, iid: Id) -> bool {
    exists|j: int|
        0 <= j < recs.len() && (#[trigger] recs[j]).tenant == tenant && recs[j].installment
            == Some(iid)
}

/// The index of the tenant's receivable pointing at the installment.
pub open spec fn link_at(recs: Seq<Receivable>, tenant: Id, iid: Id) -> int {
    choose|j: int|
        0 <= j < recs.len() && (#[trigger] recs[j]).tenant == tenant && recs[j].installment
            == Some(iid)
}

/// With injective links, a matching receivable index is the chosen one.
pub proof fn lemma_link_found(recs: Seq<Receivable>, tenant: Id, iid: Id, j: int)
    requires
        receivable_links_injective(recs),
        0 <= j < recs.len(),
        recs[j].tenant == tenant,
        recs[j].installment == Some(iid),
    ensures
        has_link(recs, tenant, iid),
        link_at(recs, tenant, iid) == j,
{
    assert(has_link(recs, tenant, iid));
    let c = link_at(recs, tenant, iid);
    if c != j {
        if c < j {
            assert(recs[c].installment != recs[j].installment || false);
        } else {
            assert(recs[j].installment != recs[c].installment || false);
        }
    }
}

/// Copies a list of identifiers.
fn clone_id_vec(v: &Vec<Id>) -> (r: Vec<Id>)
    ensures
        r@ == v@,
{
    let n = v.len();
    let mut out: Vec<Id> = Vec::new();
    let mut i: usize = 0;
    while i < n
        invariant
            n == v@.len(),
            0 <= i <= n,
            out@ == v@.take(i as int),
        decreases n - i,
    {
        out.push(v[i]);
        proof {
            assert(out@ =~= v@.take(i + 1));
        }
        i = i + 1;
    }
    proof {
        assert(v@.take(n as int) =~= v@);
    }
    out
}

impl Ledger {
    /// Finds the tenant's receivable pointing at an installment.
    fn find_by_link(&self, tenant: Id, iid: Id) -> (r: Option<usize>)
        ensures
            r is Some ==> 0 <= r->0 < self.receivables@.len()
                && self.receivables@[r->0 as int].tenant == tenant
                && self.receivables@[r->0 as int].installment == Some(iid),
            r is None ==> !has_link(self.receivables@, tenant, iid),
    {
        let n = self.receivables.len();
        let mut i: usize = 0;
        while i < n
            invariant
                n == self.receivables@.len(),
                0 <= i <= n,
                forall|k: int|
                    0 <= k < i ==> !((#[trigger] self.receivables@[k]).tenant == tenant
                        && self.receivables@[k].installment == Some(iid)),
            decreases n - i,
        {
            let rec = &self.receivables[i];
            let linked = match rec.installment {
                Some(x) => x == iid,
                None => false,
            };
            if rec.etenant() == tenant && linked {
                return Some(i);
            }
            i = i + 1;
        }
        None
    }

    /// Logs a payment-instrument notification for every notifiable
    /// recipient and every open installment of the contract, stamping
    /// the installments as emailed, and reports how many of each were
    /// reached. The notification itself is a logged side effect.
    #[verifier::loop_isolation(false)]
    #[verifier::rlimit(60)]
    pub fn send_boletos_email(&mut self, p: &Principal, contract_id: Id, today: DateYmd) -> (r:
        Result<SendEmailResult, LedgerError>)
        requires
            old(self).wf(),
            valid_date(today),
        ensures
            final(self).wf(),
            ({
                let cidx = record_at(old(self).contracts@, p.tenant, contract_id);
                let c = old(self).contracts@[cidx];
                if !can_operate(p.role) {
                    r == Err::<SendEmailResult, LedgerError>(LedgerError::Forbidden) && *final(self)
                        == *old(self)
                } else if !has_record(old(self).contracts@, p.tenant, contract_id) {
                    r == Err::<SendEmailResult, LedgerError>(LedgerError::NotFound) && *final(self)
                        == *old(self)
                } else {
                    let recips = emailable_recipients(*old(self), p.tenant, c.recipients@);
                    let m = selected_positions(
                        old(self).installments@,
                        p.tenant,
                        contract_id,
                    ).len();
                    &&& r is Ok
                    &&& r->Ok_0.sent_to == recips.len()
                    &&& r->Ok_0.installments_sent == m
                    &&& final(self).email_logs@.len() == old(self).email_logs@.len() + recips.len()
                        * m
                    &&& final(self).email_logs@.take(old(self).email_logs@.len() as int) == old(
                        self,
                    ).email_logs@
                    &&& forall|k: int|
                        old(self).email_logs@.len() <= k < final(self).email_logs@.len() ==> {
                            let lg = #[trigger] final(self).email_logs@[k];
                            &&& lg.tenant == p.tenant
                            &&& lg.contract == contract_id
                            &&& lg.sent_on == today
                            &&& recips.contains(lg.recipient_person)
                            &&& exists|j: int|
                                0 <= j < old(self).installments@.len() && inst_selected(
                                    #[trigger] old(self).installments@[j],
                                    p.tenant,
                                    contract_id,
                                ) && lg.installment == old(self).installments@[j].id
                                    && lg.installment_number == old(self).installments@[j].number
                        }
                    &&& forall|a: int, b: int|
                        0 <= a < recips.len() && 0 <= b < m ==> {
                            let lg = #[trigger] final(self).email_logs@[old(
                                self,
                            ).email_logs@.len() + a * m + b];
                            let pos = selected_positions(
                                old(self).installments@,
                                p.tenant,
                                contract_id,
                            )[b];
                            &&& lg.recipient_person == recips[a]
                            &&& lg.installment == old(self).installments@[pos].id
                        }
                    &&& final(self).installments@.len() == old(self).installments@.len()
                    &&& forall|j: int|
                        0 <= j < old(self).installments@.len()
                            ==> #[trigger] final(self).installments@[j] == (if inst_selected(
                            old(self).installments@[j],
                            p.tenant,
                            contract_id,
                        ) && recips.len() > 0 {
                            emailed_installment(old(self).installments@[j], today)
                        } else {
                            old(self).installments@[j]
                        })
                    &&& final(self).contracts == old(self).contracts
                    &&& final(self).receivables == old(self).receivables
                    &&& final(self).payables == old(self).payables
                    &&& final(self).movements == old(self).movements
                    &&& final(self).transfers == old(self).transfers
                    &&& crate::registry::same_directory(*old(self), *final(self))
                    &&& crate::registry::same_refs(*old(self), *final(self))
                }
            }),
    {
        if !p.may_operate() {
            return Err(LedgerError::Forbidden);
        }
        let cidx = match find_record(&self.contracts, p.tenant, contract_id) {
            None => {
                return Err(LedgerError::NotFound);
            },
            Some(i) => i,
        };
        proof {
            lemma_record_found(self.contracts@, p.tenant, contract_id, cidx as int);
        }
        let rec_ids = clone_id_vec(&self.contracts[cidx].recipients);
        let nrec = rec_ids.len();
        let mut recips: Vec<Id> = Vec::new();
        let mut a: usize = 0;
        while a < nrec
            invariant
                nrec == rec_ids@.len(),
                0 <= a <= nrec,
                recips@ == emailable_recipients(*self, p.tenant, rec_ids@.take(a as int)),
                forall|k: int|
                    0 <= k < recips@.len() ==> has_record(
                        self.people@,
                        p.tenant,
                        #[trigger] recips@[k],
                    ) && self.people@[record_at(self.people@, p.tenant, recips@[k])].email is Some,
            decreases nrec - a,
        {
            proof {
                assert(rec_ids@.take(a + 1).drop_last() =~= rec_ids@.take(a as int));
                assert(rec_ids@.take(a + 1).last() == rec_ids@[a as int]);
            }
            match find_record(&self.people, p.tenant, rec_ids[a]) {
                None => {},
                Some(k) => {
                    proof {
                        lemma_record_found(self.people@, p.tenant, rec_ids@[a as int], k as int);
                    }
                    if self.people[k].email.is_some() {
                        recips.push(rec_ids[a]);
                    }
                },
            }
            a = a + 1;
        }
        proof {
            assert(rec_ids@.take(nrec as int) =~= rec_ids@);
        }
        let n = self.installments.len();
        let mut sel: Vec<usize> = Vec::new();
        let mut j: usize = 0;
        while j < n
            invariant
                n == self.installments@.len(),
                0 <= j <= n,
                sel@.len() == selected_positions(
                    self.installments@.take(j as int),
                    p.tenant,
                    contract_id,
                ).len(),
                forall|k: int|
                    0 <= k < sel@.len() ==> #[trigger] sel@[k] as int == selected_positions(
                        self.installments@.take(j as int),
                        p.tenant,
                        contract_id,
                    )[k],
                forall|k: int|
                    0 <= k < sel@.len() ==> #[trigger] sel@[k] < j && inst_selected(
                        self.installments@[sel@[k] as int],
                        p.tenant,
                        contract_id,
                    ),
            decreases n - j,
        {
            proof {
                assert(self.installments@.take(j + 1).drop_last() =~= self.installments@.take(
                    j as int,
                ));
                assert(self.installments@.take(j + 1).last() == self.installments@[j as int]);
            }
            let x = &self.installments[j];
            if x.etenant() == p.tenant && x.contract == contract_id && (match x.status {
                InstallmentStatus::Pending => true,
                InstallmentStatus::Overdue => true,
                InstallmentStatus::Paid => false,
            }) {
                sel.push(j);
            }
            j = j + 1;
        }
        proof {
            assert(self.installments@.take(n as int) =~= self.installments@);
        }
        let sent_to = recips.len();
        let m = sel.len();
        let ghost pre = *old(self);
        let ghost logs0 = pre.email_logs@.len() as int;
        let ghost positions = selected_positions(pre.installments@, p.tenant, contract_id);
        proof {
            lemma_selected_positions_bounds(pre.installments@, p.tenant, contract_id);
            assert(forall|k: int|
                0 <= k < sel@.len() ==> #[trigger] sel@[k] as int == positions[k]);
        }
        let mut ai: usize = 0;
        while ai < sent_to
            invariant
                sent_to == recips@.len(),
                m == sel@.len(),
                recips@ == emailable_recipients(pre, p.tenant, pre.contracts@[record_at(
                    pre.contracts@,
                    p.tenant,
                    contract_id,
                )].recipients@),
                m == selected_positions(pre.installments@, p.tenant, contract_id).len(),
                forall|k: int|
                    0 <= k < recips@.len() ==> has_record(
                        pre.people@,
                        p.tenant,
                        #[trigger] recips@[k],
                    ) && pre.people@[record_at(pre.people@, p.tenant, recips@[k])].email is Some,
                forall|k: int|
                    0 <= k < sel@.len() ==> #[trigger] sel@[k] < pre.installments@.len()
                        && inst_selected(
                        pre.installments@[sel@[k] as int],
                        p.tenant,
                        contract_id,
                    ),
                positions == selected_positions(pre.installments@, p.tenant, contract_id),
                forall|k: int| 0 <= k < sel@.len() ==> #[trigger] sel@[k] as int == positions[k],
                forall|a2: int, b2: int|
                    0 <= a2 < ai && 0 <= b2 < m ==> {
                        let lg = #[trigger] self.email_logs@[logs0 + a2 * m + b2];
                        &&& lg.recipient_person == recips@[a2]
                        &&& lg.installment == pre.installments@[positions[b2]].id
                    },
                0 <= ai <= sent_to,
                pre == *old(self),
                self.wf(),
                self.tenants == pre.tenants,
                self.people == pre.people,
                self.students == pre.students,
                self.accounts == pre.accounts,
                self.counterparties == pre.counterparties,
                self.categories == pre.categories,
                self.movements == pre.movements,
                self.payables == pre.payables,
                self.receivables == pre.receivables,
                self.contracts == pre.contracts,
                self.installments == pre.installments,
                self.transfers == pre.transfers,
                self.email_logs@.len() == logs0 + ai * m,
                self.email_logs@.take(logs0) == pre.email_logs@,
                forall|k: int|
                    logs0 <= k < self.email_logs@.len() ==> {
                        let lg = #[trigger] self.email_logs@[k];
                        &&& lg.tenant == p.tenant
                        &&& lg.contract == contract_id
                        &&& lg.sent_on == today
                        &&& recips@.contains(lg.recipient_person)
                        &&& exists|jj: int|
                            0 <= jj < pre.installments@.len() && inst_selected(
                                #[trigger] pre.installments@[jj],
                                p.tenant,
                                contract_id,
                            ) && lg.installment == pre.installments@[jj].id
                                && lg.installment_number == pre.installments@[jj].number
                    },
            decreases sent_to - ai,
        {
            let pid = recips[ai];
            let pidx = match find_record(&self.people, p.tenant, pid) {
                None => {
                    proof {
                        assert(false);
                    }
                    0
                },
                Some(k) => k,
            };
            proof {
                lemma_record_found(self.people@, p.tenant, pid, pidx as int);
            }
            let email = match &self.people[pidx].email {
                Some(e) => e.clone(),
                None => {
                    proof {
                        assert(false);
                    }
                    String::new()
                },
            };
            let mut bi: usize = 0;
            while bi < m
                invariant
                    0 <= bi <= m,
                    0 <= ai < sent_to,
                    pid == recips@[ai as int],
                    self.wf(),
                    pre == *old(self),
                    self.tenants == pre.tenants,
                    self.people == pre.people,
                    self.students == pre.students,
                    self.accounts == pre.accounts,
                    self.counterparties == pre.counterparties,
                    self.categories == pre.categories,
                    self.movements == pre.movements,
                    self.payables == pre.payables,
                    self.receivables == pre.receivables,
                    self.contracts == pre.contracts,
                    self.installments == pre.installments,
                    self.transfers == pre.transfers,
                    self.email_logs@.len() == logs0 + ai * m + bi,
                    self.email_logs@.take(logs0) == pre.email_logs@,
                    forall|k: int|
                        logs0 <= k < self.email_logs@.len() ==> {
                            let lg = #[trigger] self.email_logs@[k];
                            &&& lg.tenant == p.tenant
                            &&& lg.contract == contract_id
                            &&& lg.sent_on == today
                            &&& recips@.contains(lg.recipient_person)
                            &&& exists|jj: int|
                                0 <= jj < pre.installments@.len() && inst_selected(
                                    #[trigger] pre.installments@[jj],
                                    p.tenant,
                                    contract_id,
                                ) && lg.installment == pre.installments@[jj].id
                                    && lg.installment_number == pre.installments@[jj].number
                        },
                    forall|a2: int, b2: int|
                        0 <= a2 < ai && 0 <= b2 < m ==> {
                            let lg = #[trigger] self.email_logs@[logs0 + a2 * m + b2];
                            &&& lg.recipient_person == recips@[a2]
                            &&& lg.installment == pre.installments@[positions[b2]].id
                        },
                    forall|b2: int|
                        0 <= b2 < bi ==> {
                            let lg = #[trigger] self.email_logs@[logs0 + ai * m + b2];
                            &&& lg.recipient_person == recips@[ai as int]
                            &&& lg.installment == pre.installments@[positions[b2]].id
                        },
                decreases m - bi,
            {
                let pos = sel[bi];
                let inst_id = self.installments[pos].id;
                let inst_number = self.installments[pos].number;
                proof {
                    lemma_can_mint(*self);
                }
                let lid = self.mint_id();
                let log = EmailLog {
                    id: lid,
                    tenant: p.tenant,
                    contract: contract_id,
                    installment: inst_id,
                    recipient_person: pid,
                    recipient_email: email.clone(),
                    installment_number: inst_number,
                    sent_on: today,
                };
                proof {
                    lemma_push_fresh(self.email_logs@, log, lid);
                    assert(recips@.contains(pid)) by {
                        assert(recips@[ai as int] == pid);
                    }
                }
                self.email_logs.push(log);
                proof {
                    assert(self.email_logs@.take(logs0) =~= pre.email_logs@);
                    assert forall|a2: int, b2: int|
                        0 <= a2 < ai && 0 <= b2 < m implies {
                        let lg = #[trigger] self.email_logs@[logs0 + a2 * m + b2];
                        &&& lg.recipient_person == recips@[a2]
                        &&& lg.installment == pre.installments@[positions[b2]].id
                    } by {
                        assert(a2 * m + b2 < ai * m + bi) by (nonlinear_arith)
                            requires
                                0 <= a2 < ai,
                                0 <= b2 < m,
                                0 <= bi,
                        ;
                    }
                }
                bi = bi + 1;
            }
            proof {
                assert forall|a2: int, b2: int|
                    0 <= a2 < ai + 1 && 0 <= b2 < m implies {
                    let lg = #[trigger] self.email_logs@[logs0 + a2 * m + b2];
                    &&& lg.recipient_person == recips@[a2]
                    &&& lg.installment == pre.installments@[positions[b2]].id
                } by {
                    if a2 == ai {
                        assert(a2 * m == ai * m);
                    }
                }
            }
            ai = ai + 1;
            proof {
                assert((ai - 1) * m + m == ai * m) by (nonlinear_arith)
                    requires
                        ai >= 1,
                ;
            }
        }
        if sent_to > 0 {
            let mut j2: usize = 0;
            while j2 < n
                invariant
                    n == self.installments@.len(),
                    self.installments@.len() == pre.installments@.len(),
                    0 <= j2 <= n,
                    sent_to > 0,
                    valid_date(today),
                    pre == *old(self),
                    self.wf(),
                    self.tenants == pre.tenants,
                    self.people == pre.people,
                    self.students == pre.students,
                    self.accounts == pre.accounts,
                    self.counterparties == pre.counterparties,
                    self.categories == pre.categories,
                    self.movements == pre.movements,
                    self.payables == pre.payables,
                    self.receivables == pre.receivables,
                    self.contracts == pre.contracts,
                    self.transfers == pre.transfers,
                    self.email_logs@.len() == logs0 + sent_to * m,
                    self.email_logs@.take(logs0) == pre.email_logs@,
                    forall|a2: int, b2: int|
                        0 <= a2 < sent_to && 0 <= b2 < m ==> {
                            let lg = #[trigger] self.email_logs@[logs0 + a2 * m + b2];
                            &&& lg.recipient_person == recips@[a2]
                            &&& lg.installment == pre.installments@[positions[b2]].id
                        },
                    forall|k: int|
                        logs0 <= k < self.email_logs@.len() ==> {
                            let lg = #[trigger] self.email_logs@[k];
                            &&& lg.tenant == p.tenant
                            &&& lg.contract == contract_id
                            &&& lg.sent_on == today
                            &&& recips@.contains(lg.recipient_person)
                            &&& exists|jj: int|
                                0 <= jj < pre.installments@.len() && inst_selected(
                                    #[trigger] pre.installments@[jj],
                                    p.tenant,
                                    contract_id,
                                ) && lg.installment == pre.installments@[jj].id
                                    && lg.installment_number == pre.installments@[jj].number
                        },
                    forall|k: int|
                        0 <= k < j2 ==> #[trigger] self.installments@[k] == (if inst_selected(
                            pre.installments@[k],
                            p.tenant,
                            contract_id,
                        ) {
                            emailed_installment(pre.installments@[k], today)
                        } else {
                            pre.installments@[k]
                        }),
                    forall|k: int|
                        j2 <= k < n ==> #[trigger] self.installments@[k]
                            == pre.installments@[k],
                decreases n - j2,
            {
                let selected = {
                    let x = &self.installments[j2];
                    x.etenant() == p.tenant && x.contract == contract_id && (match x.status {
                        InstallmentStatus::Pending => true,
                        InstallmentStatus::Overdue => true,
                        InstallmentStatus::Paid => false,
                    })
                };
                if selected {
                    let x = &self.installments[j2];
                    let updated = Installment {
                        id: x.id,
                        tenant: x.tenant,
                        contract: x.contract,
                        number: x.number,
                        due_date: x.due_date,
                        amount_cents: x.amount_cents,
                        status: x.status,
                        boleto_code: clone_opt_string(&x.boleto_code),
                        boleto_url: clone_opt_string(&x.boleto_url),
                        boleto_pdf_url: clone_opt_string(&x.boleto_pdf_url),
                        pix_payload: clone_opt_string(&x.pix_payload),
                        payment_instructions: clone_opt_string(&x.payment_instructions),
                        emailed_on: Some(today),
                        paid_on: x.paid_on,
                    };
                    proof {
                        lemma_ids_update(self.installments@, j2 as int, updated, self.next_id);
                        lemma_pairing_update_installment(
                            self.installments@,
                            self.receivables@,
                            j2 as int,
                            updated,
                        );
                    }
                    self.installments[j2] = updated;
                }
                j2 = j2 + 1;
            }
        }
        Ok(SendEmailResult { sent_to, installments_sent: m })
    }

    /// Marks one installment of a contract paid on the given date and
    /// cascades to its linked shadow receivable, whose received date is
    /// set only if previously unset. A missing installment changes
    /// nothing beyond the contract check.
    pub fn mark_installment_paid(
        &mut self,
        p: &Principal,
        contract_id: Id,
        installment_id: Id,
        req: MarkInstallmentPaidRequest,
        today: DateYmd,
    ) -> (r: Result<(), LedgerError>)
        requires
            old(self).wf(),
            valid_date(today),
        ensures
            final(self).wf(),
            ({
                let d = if req.paid_at is Some {
                    req.paid_at->0
                } else {
                    today
                };
                if !can_operate(p.role) {
                    r == Err::<(), LedgerError>(LedgerError::Forbidden) && *final(self) == *old(
                        self,
                    )
                } else if req.paid_at is Some && !valid_date(req.paid_at->0) {
                    r == Err::<(), LedgerError>(LedgerError::Validation) && *final(self) == *old(
                        self,
                    )
                } else if !has_record(old(self).contracts@, p.tenant, contract_id) {
                    r == Err::<(), LedgerError>(LedgerError::NotFound) && *final(self) == *old(
                        self,
                    )
                } else {
                    let iat = record_at(old(self).installments@, p.tenant, installment_id);
                    let touched = has_record(old(self).installments@, p.tenant, installment_id)
                        && old(self).installments@[iat].contract == contract_id;
                    let lat = link_at(old(self).receivables@, p.tenant, installment_id);
                    &&& r == Ok::<(), LedgerError>(())
                    &&& (touched ==> final(self).installments@ == old(
                        self,
                    ).installments@.update(
                        iat,
                        force_paid_installment(old(self).installments@[iat], d),
                    ))
                    &&& (!touched ==> final(self).installments == old(self).installments)
                    &&& (has_link(old(self).receivables@, p.tenant, installment_id) ==> final(self).receivables@ == old(self).receivables@.update(
                        lat,
                        cascaded_receivable(old(self).receivables@[lat], d),
                    ))
                    &&& (!has_link(old(self).receivables@, p.tenant, installment_id) ==> final(self).receivables == old(self).receivables)
                    &&& final(self).next_id == old(self).next_id
                    &&& final(self).contracts == old(self).contracts
                    &&& final(self).payables == old(self).payables
                    &&& final(self).movements == old(self).movements
                    &&& final(self).transfers == old(self).transfers
                    &&& final(self).email_logs == old(self).email_logs
                    &&& crate::registry::same_directory(*old(self), *final(self))
                    &&& crate::registry::same_refs(*old(self), *final(self))
                }
            }),
    {
        if !p.may_operate() {
            return Err(LedgerError::Forbidden);
        }
        let d: DateYmd = match req.paid_at {
            Some(given) => {
                if !given.is_valid() {
                    return Err(LedgerError::Validation);
                }
                given
            },
            None => today,
        };
        if find_record(&self.contracts, p.tenant, contract_id).is_none() {
            return Err(LedgerError::NotFound);
        }
        if let Some(k) = find_record(&self.installments, p.tenant, installment_id) {
            proof {
                lemma_record_found(self.installments@, p.tenant, installment_id, k as int);
            }
            if self.installments[k].contract == contract_id {
                let x = &self.installments[k];
                let updated = Installment {
                    id: x.id,
                    tenant: x.tenant,
                    contract: x.contract,
                    number: x.number,
                    due_date: x.due_date,
                    amount_cents: x.amount_cents,
                    status: InstallmentStatus::Paid,
                    boleto_code: clone_opt_string(&x.boleto_code),
                    boleto_url: clone_opt_string(&x.boleto_url),
                    boleto_pdf_url: clone_opt_string(&x.boleto_pdf_url),
                    pix_payload: clone_opt_string(&x.pix_payload),
                    payment_instructions: clone_opt_string(&x.payment_instructions),
                    emailed_on: x.emailed_on,
                    paid_on: Some(d),
                };
                proof {
                    lemma_ids_update(self.installments@, k as int, updated, self.next_id);
                    lemma_pairing_update_installment(
                        self.installments@,
                        self.receivables@,
                        k as int,
                        updated,
                    );
                }
                self.installments[k] = updated;
            }
        }
        if let Some(k2) = self.find_by_link(p.tenant, installment_id) {
            proof {
                lemma_link_found(self.receivables@, p.tenant, installment_id, k2 as int);
            }
            let x = &self.receivables[k2];
            let updated = Receivable {
                id: x.id,
                tenant: x.tenant,
                description: x.description.clone(),
                payer_person: x.payer_person,
                payer_counterparty: x.payer_counterparty,
                payer_name_legacy: clone_opt_string(&x.payer_name_legacy),
                category: x.category,
                category_legacy: clone_opt_string(&x.category_legacy),
                due_date: x.due_date,
                amount_cents: x.amount_cents,
                status: ReceivableStatus::Received,
                source: x.source,
                contract: x.contract,
                installment: x.installment,
                student: x.student,
                account: x.account,
                received_on: match x.received_on {
                    Some(existing) => Some(existing),
                    None => Some(d),
                },
            };
            proof {
                lemma_ids_update(self.receivables@, k2 as int, updated, self.next_id);
                lemma_pairing_update_receivable(
                    self.installments@,
                    self.receivables@,
                    k2 as int,
                    updated,
                );
            }
            self.receivables[k2] = updated;
        }
        Ok(())
    }
}

} // verus!
