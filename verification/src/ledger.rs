//! The tenant-scoped store: reference registries, the append-only
//! movement ledger, and the derived account balances.

use vstd::prelude::*;
use crate::dates::valid_date;
use crate::model::{
    Account, Category, Contract, Counterparty, Direction, EmailLog, Id, Installment, Movement,
    Payable, PersonEntry, Receivable, StudentEntry, Transfer,
};
use crate::money::MAX_AMOUNT_CENTS;

verus! {

/// Per-tenant school settings the financial core consults: identity
/// strings and the stored contract template.
#[derive(Clone, Debug)]
pub struct TenantSettings {
    pub tenant: Id,
    pub school_name: String,
    pub school_code: String,
    pub school_city: Option<String>,
    pub school_signature_name: Option<String>,
    pub financial_contract_template: Option<String>,
}

/// Anything the store keeps under a tenant-scoped identifier.
pub trait LedgerRecord: Sized {
    /// The record's identifier.
    spec fn record_id(&self) -> Id;

    /// The tenant the record belongs to.
    spec fn record_tenant(&self) -> Id;

    /// Reads the record's identifier.
    fn eid(&self) -> (r: Id)
        ensures
            r == self.record_id(),
    ;

    /// Reads the record's tenant.
    fn etenant(&self) -> (r: Id)
        ensures
            r == self.record_tenant(),
    ;
}

impl LedgerRecord for Account {
    open spec fn record_id(&self) -> Id {
        self.id
    }

    open spec fn record_tenant(&self) -> Id {
        self.tenant
    }

    fn eid(&self) -> Id {
        self.id
    }

    fn etenant(&self) -> Id {
        self.tenant
    }
}

impl LedgerRecord for Movement {
    open spec fn record_id(&self) -> Id {
        self.id
    }

    open spec fn record_tenant(&self) -> Id {
        self.tenant
    }

    fn eid(&self) -> Id {
        self.id
    }

    fn etenant(&self) -> Id {
        self.tenant
    }
}

impl LedgerRecord for Counterparty {
    open spec fn record_id(&self) -> Id {
        self.id
    }

    open spec fn record_tenant(&self) -> Id {
        self.tenant
    }

    fn eid(&self) -> Id {
        self.id
    }

    fn etenant(&self) -> Id {
        self.tenant
    }
}

impl LedgerRecord for Category {
    open spec fn record_id(&self) -> Id {
        self.id
    }

    open spec fn record_tenant(&self) -> Id {
        self.tenant
    }

    fn eid(&self) -> Id {
        self.id
    }

    fn etenant(&self) -> Id {
        self.tenant
    }
}

impl LedgerRecord for Payable {
    open spec fn record_id(&self) -> Id {
        self.id
    }

    open spec fn record_tenant(&self) -> Id {
        self.tenant
    }

    fn eid(&self) -> Id {
        self.id
    }

    fn etenant(&self) -> Id {
        self.tenant
    }
}

impl LedgerRecord for Receivable {
    open spec fn record_id(&self) -> Id {
        self.id
    }

    open spec fn record_tenant(&self) -> Id {
        self.tenant
    }

    fn eid(&self) -> Id {
        self.id
    }

    fn etenant(&self) -> Id {
        self.tenant
    }
}

impl LedgerRecord for Contract {
    open spec fn record_id(&self) -> Id {
        self.id
    }

    open spec fn record_tenant(&self) -> Id {
        self.tenant
    }

    fn eid(&self) -> Id {
        self.id
    }

    fn etenant(&self) -> Id {
        self.tenant
    }
}

impl LedgerRecord for Installment {
    open spec fn record_id(&self) -> Id {
        self.id
    }

    open spec fn record_tenant(&self) -> Id {
        self.tenant
    }

    fn eid(&self) -> Id {
        self.id
    }

    fn etenant(&self) -> Id {
        self.tenant
    }
}

impl LedgerRecord for Transfer {
    open spec fn record_id(&self) -> Id {
        self.id
    }

    open spec fn record_tenant(&self) -> Id {
        self.tenant
    }

    fn eid(&self) -> Id {
        self.id
    }

    fn etenant(&self) -> Id {
        self.tenant
    }
}

impl LedgerRecord for EmailLog {
    open spec fn record_id(&self) -> Id {
        self.id
    }

    open spec fn record_tenant(&self) -> Id {
        self.tenant
    }

    fn eid(&self) -> Id {
        self.id
    }

    fn etenant(&self) -> Id {
        self.tenant
    }
}

impl LedgerRecord for PersonEntry {
    open spec fn record_id(&self) -> Id {
        self.id
    }

    open spec fn record_tenant(&self) -> Id {
        self.tenant
    }

    fn eid(&self) -> Id {
        self.id
    }

    fn etenant(&self) -> Id {
        self.tenant
    }
}

impl LedgerRecord for StudentEntry {
    open spec fn record_id(&self) -> Id {
        self.id
    }

    open spec fn record_tenant(&self) -> Id {
        self.tenant
    }

    fn eid(&self) -> Id {
        self.id
    }

    fn etenant(&self) -> Id {
        self.tenant
    }
}

impl LedgerRecord for TenantSettings {
    open spec fn record_id(&self) -> Id {
        self.tenant
    }

    open spec fn record_tenant(&self) -> Id {
        self.tenant
    }

    fn eid(&self) -> Id {
        self.tenant
    }

    fn etenant(&self) -> Id {
        self.tenant
    }
}

/// Whether some record of `tenant` with identifier `id` is in `s`.
pub open spec fn has_record<T: LedgerRecord>(s: Seq<T>, tenant: Id, id: Id) -> bool {
    exists|k: int|
        0 <= k < s.len() && (#[trigger] s[k]).record_id() == id && s[k].record_tenant() == tenant
}

/// The index of the record of `tenant` with identifier `id` in `s`.
pub open spec fn record_at<T: LedgerRecord>(s: Seq<T>, tenant: Id, id: Id) -> int {
    choose|k: int|
        0 <= k < s.len() && (#[trigger] s[k]).record_id() == id && s[k].record_tenant() == tenant
}

/// Whether the record identifiers in `s` are pairwise distinct.
pub open spec fn ids_unique<T: LedgerRecord>(s: Seq<T>) -> bool {
    forall|i: int, j: int|
        0 <= i < j < s.len() ==> (#[trigger] s[i]).record_id() != (#[trigger] s[j]).record_id()
}

/// Whether every record identifier in `s` is below `bound`.
pub open spec fn ids_below<T: LedgerRecord>(s: Seq<T>, bound: Id) -> bool {
    forall|i: int| 0 <= i < s.len() ==> (#[trigger] s[i]).record_id() < bound
}

/// With distinct identifiers, a matching index is the chosen one.
pub proof fn lemma_record_found<T: LedgerRecord>(s: Seq<T>, tenant: Id, id: Id, k: int)
    requires
        ids_unique(s),
        0 <= k < s.len(),
        s[k].record_id() == id,
        s[k].record_tenant() == tenant,
    ensures
        has_record(s, tenant, id),
        record_at(s, tenant, id) == k,
{
    assert(has_record(s, tenant, id));
    let c = record_at(s, tenant, id);
    if c != k {
        assert(s[c].record_id() == s[k].record_id());
        if c < k {
            assert(false);
        } else {
            assert(false);
        }
    }
}

/// Appending a record with a fresh identifier keeps identifiers
/// distinct and bounded.
pub proof fn lemma_push_fresh<T: LedgerRecord>(s: Seq<T>, x: T, bound: Id)
    requires
        ids_unique(s),
        ids_below(s, bound),
        x.record_id() == bound,
        bound < Id::MAX,
    ensures
        ids_unique(s.push(x)),
        ids_below(s.push(x), (bound + 1) as Id),
{
    let t = s.push(x);
    assert forall|i: int, j: int|
        0 <= i < j < t.len() implies (#[trigger] t[i]).record_id() != (
    #[trigger] t[j]).record_id() by {
        if j < s.len() {
            assert(t[i] == s[i] && t[j] == s[j]);
        } else {
            assert(t[j] == x && t[i] == s[i]);
        }
    }
    assert forall|i: int| 0 <= i < t.len() implies (#[trigger] t[i]).record_id() < bound + 1 by {
        if i < s.len() {
            assert(t[i] == s[i]);
        } else {
            assert(t[i] == x);
        }
    }
}

/// How many identifier-minting records the store holds: everything
/// except the tenant settings, whose identifiers callers choose.
pub open spec fn total_records(l: Ledger) -> nat {
    l.people@.len() + l.students@.len() + l.accounts@.len() + l.counterparties@.len()
        + l.categories@.len() + l.movements@.len() + l.payables@.len() + l.receivables@.len()
        + l.contracts@.len() + l.installments@.len() + l.transfers@.len() + l.email_logs@.len()
}

/// A well-formed store always has a next identifier to mint.
pub proof fn lemma_can_mint(l: Ledger)
    requires
        l.wf(),
    ensures
        l.next_id < Id::MAX - 0x1_0000_0000_0000,
{
    broadcast use vstd::std_specs::vec::axiom_spec_len;

    assert(vstd::std_specs::vec::spec_vec_len(&l.people) <= usize::MAX);
    assert(vstd::std_specs::vec::spec_vec_len(&l.students) <= usize::MAX);
    assert(vstd::std_specs::vec::spec_vec_len(&l.accounts) <= usize::MAX);
    assert(vstd::std_specs::vec::spec_vec_len(&l.counterparties) <= usize::MAX);
    assert(vstd::std_specs::vec::spec_vec_len(&l.categories) <= usize::MAX);
    assert(vstd::std_specs::vec::spec_vec_len(&l.movements) <= usize::MAX);
    assert(vstd::std_specs::vec::spec_vec_len(&l.payables) <= usize::MAX);
    assert(vstd::std_specs::vec::spec_vec_len(&l.receivables) <= usize::MAX);
    assert(vstd::std_specs::vec::spec_vec_len(&l.contracts) <= usize::MAX);
    assert(vstd::std_specs::vec::spec_vec_len(&l.installments) <= usize::MAX);
    assert(vstd::std_specs::vec::spec_vec_len(&l.transfers) <= usize::MAX);
    assert(vstd::std_specs::vec::spec_vec_len(&l.email_logs) <= usize::MAX);
}

/// Whether every installment has a shadow receivable pointing at it.
pub open spec fn installments_paired(insts: Seq<Installment>, recs: Seq<Receivable>) -> bool {
    forall|i: int|
        0 <= i < insts.len() ==> exists|j: int|
            0 <= j < recs.len() && (#[trigger] recs[j]).installment == Some(
                (#[trigger] insts[i]).id,
            )
}

/// Whether every installment link of a receivable names an identifier
/// below the bound.
pub open spec fn receivable_links_below(recs: Seq<Receivable>, bound: Id) -> bool {
    forall|j: int|
        0 <= j < recs.len() && (#[trigger] recs[j]).installment is Some ==> recs[j].installment->0
            < bound
}

/// Whether no two receivables point at the same installment.
pub open spec fn receivable_links_injective(recs: Seq<Receivable>) -> bool {
    forall|j1: int, j2: int|
        0 <= j1 < j2 < recs.len() && (#[trigger] recs[j1]).installment is Some ==> (
        #[trigger] recs[j2]).installment != recs[j1].installment
}

/// The pairing survives appending a receivable that points at no
/// installment.
pub proof fn lemma_pairing_push_receivable(
    insts: Seq<Installment>,
    recs: Seq<Receivable>,
    x: Receivable,
)
    requires
        installments_paired(insts, recs),
        receivable_links_injective(recs),
        x.installment is None,
    ensures
        installments_paired(insts, recs.push(x)),
        receivable_links_injective(recs.push(x)),
{
    let t = recs.push(x);
    assert forall|i: int| 0 <= i < insts.len() implies exists|j: int|
        0 <= j < t.len() && (#[trigger] t[j]).installment == Some((#[trigger] insts[i]).id) by {
        let j = choose|j: int|
            0 <= j < recs.len() && (#[trigger] recs[j]).installment == Some(insts[i].id);
        assert(t[j] == recs[j]);
    }
    assert forall|j1: int, j2: int|
        0 <= j1 < j2 < t.len() && (#[trigger] t[j1]).installment is Some implies (
    #[trigger] t[j2]).installment != t[j1].installment by {
        if j2 < recs.len() {
            assert(t[j1] == recs[j1] && t[j2] == recs[j2]);
        } else {
            assert(t[j1] == recs[j1] && t[j2] == x);
        }
    }
}

/// The pairing survives replacing an installment without changing its
/// identifier.
pub proof fn lemma_pairing_update_installment(
    insts: Seq<Installment>,
    recs: Seq<Receivable>,
    k: int,
    x: Installment,
)
    requires
        installments_paired(insts, recs),
        0 <= k < insts.len(),
        x.id == insts[k].id,
    ensures
        installments_paired(insts.update(k, x), recs),
{
    let t = insts.update(k, x);
    assert forall|i: int| 0 <= i < t.len() implies exists|j: int|
        0 <= j < recs.len() && (#[trigger] recs[j]).installment == Some((#[trigger] t[i]).id) by {
        assert(t[i].id == insts[i].id);
        let j = choose|j: int|
            0 <= j < recs.len() && (#[trigger] recs[j]).installment == Some(insts[i].id);
        assert(recs[j].installment == Some(t[i].id));
    }
}

/// The pairing survives replacing a receivable without changing which
/// installment it points at.
pub proof fn lemma_pairing_update_receivable(
    insts: Seq<Installment>,
    recs: Seq<Receivable>,
    k: int,
    x: Receivable,
)
    requires
        installments_paired(insts, recs),
        receivable_links_injective(recs),
        0 <= k < recs.len(),
        x.installment == recs[k].installment,
    ensures
        installments_paired(insts, recs.update(k, x)),
        receivable_links_injective(recs.update(k, x)),
{
    let t = recs.update(k, x);
    assert forall|i: int| 0 <= i < insts.len() implies exists|j: int|
        0 <= j < t.len() && (#[trigger] t[j]).installment == Some((#[trigger] insts[i]).id) by {
        let j = choose|j: int|
            0 <= j < recs.len() && (#[trigger] recs[j]).installment == Some(insts[i].id);
        assert(t[j].installment == recs[j].installment);
    }
    assert forall|j1: int, j2: int|
        0 <= j1 < j2 < t.len() && (#[trigger] t[j1]).installment is Some implies (
    #[trigger] t[j2]).installment != t[j1].installment by {
        assert(t[j1].installment == recs[j1].installment);
        assert(t[j2].installment == recs[j2].installment);
    }
}

/// A bound on record identifiers may be weakened upward.
pub proof fn lemma_ids_below_weaken<T: LedgerRecord>(s: Seq<T>, b1: Id, b2: Id)
    requires
        ids_below(s, b1),
        b1 <= b2,
    ensures
        ids_below(s, b2),
{
    assert forall|i: int| 0 <= i < s.len() implies (#[trigger] s[i]).record_id() < b2 by {
        assert(s[i].record_id() < b1);
    }
}

/// Replacing a record without changing its identifier keeps the
/// identifiers distinct and bounded.
pub proof fn lemma_ids_update<T: LedgerRecord>(s: Seq<T>, k: int, x: T, bound: Id)
    requires
        ids_unique(s),
        ids_below(s, bound),
        0 <= k < s.len(),
        x.record_id() == s[k].record_id(),
    ensures
        ids_unique(s.update(k, x)),
        ids_below(s.update(k, x), bound),
{
    let t = s.update(k, x);
    assert forall|i: int, j: int|
        0 <= i < j < t.len() implies (#[trigger] t[i]).record_id() != (
    #[trigger] t[j]).record_id() by {
        assert(t[i].record_id() == s[i].record_id());
        assert(t[j].record_id() == s[j].record_id());
    }
    assert forall|i: int| 0 <= i < t.len() implies (#[trigger] t[i]).record_id() < bound by {
        assert(t[i].record_id() == s[i].record_id());
    }
}

/// A bound on receivable links may be weakened upward.
pub proof fn lemma_links_below_weaken(recs: Seq<Receivable>, b1: Id, b2: Id)
    requires
        receivable_links_below(recs, b1),
        b1 <= b2,
    ensures
        receivable_links_below(recs, b2),
{
    assert forall|j: int|
        0 <= j < recs.len() && (#[trigger] recs[j]).installment is Some implies recs[j].installment->0
        < b2 by {
        assert(recs[j].installment->0 < b1);
    }
}

/// A record stays found when another record is appended.
pub proof fn lemma_has_record_push<T: LedgerRecord>(s: Seq<T>, x: T, tenant: Id, id: Id)
    requires
        has_record(s, tenant, id),
    ensures
        has_record(s.push(x), tenant, id),
{
    let k = choose|k: int|
        0 <= k < s.len() && (#[trigger] s[k]).record_id() == id && s[k].record_tenant() == tenant;
    assert(s.push(x)[k] == s[k]);
}

/// Finds the record of `tenant` with identifier `id`, if it is there.
pub fn find_record<T: LedgerRecord>(v: &Vec<T>, tenant: Id, id: Id) -> (r: Option<usize>)
    ensures
        r is Some ==> 0 <= r->0 < v.len() && v@[r->0 as int].record_id() == id
            && v@[r->0 as int].record_tenant() == tenant,
        r is None ==> !has_record(v@, tenant, id),
{
    let n = v.len();
    let mut i: usize = 0;
    while i < n
        invariant
            n == v@.len(),
            0 <= i <= n,
            forall|k: int|
                0 <= k < i ==> !((#[trigger] v@[k]).record_id() == id && v@[k].record_tenant()
                    == tenant),
        decreases n - i,
    {
        let rec = &v[i];
        if rec.eid() == id && rec.etenant() == tenant {
            return Some(i);
        }
        i = i + 1;
    }
    None
}

/// The records of `tenant` in `s`, in stored order.
pub open spec fn of_tenant<T: LedgerRecord>(s: Seq<T>, tenant: Id) -> Seq<T>
    decreases s.len(),
{
    if s.len() == 0 {
        Seq::empty()
    } else {
        let rest = of_tenant(s.drop_last(), tenant);
        if s.last().record_tenant() == tenant {
            rest.push(s.last())
        } else {
            rest
        }
    }
}

// ---------------------------------------------------------------------
// Balance arithmetic
// ---------------------------------------------------------------------
/// What one movement contributes to the balance of `account`: its
/// amount for a credit, the negated amount for a debit, nothing when it
/// belongs to another account.
pub open spec fn signed_delta(m: Movement, account: Id) -> int {
    if m.account == account {
        if m.direction == Direction::Credit {
            m.amount_cents as int
        } else {
            -(m.amount_cents as int)
        }
    } else {
        0
    }
}

/// The summed contribution of `ms` to the balance of `account`.
pub open spec fn movement_sum(ms: Seq<Movement>, account: Id) -> int
    decreases ms.len(),
{
    if ms.len() == 0 {
        0
    } else {
        movement_sum(ms.drop_last(), account) + signed_delta(ms.last(), account)
    }
}

/// Sum of the credit amounts of `ms` posted to `account`.
pub open spec fn credit_sum(ms: Seq<Movement>, account: Id) -> int
    decreases ms.len(),
{
    if ms.len() == 0 {
        0
    } else {
        credit_sum(ms.drop_last(), account) + (if ms.last().account == account && ms.last().direction
            == Direction::Credit {
            ms.last().amount_cents as int
        } else {
            0
        })
    }
}

/// Sum of the debit amounts of `ms` posted to `account`.
pub open spec fn debit_sum(ms: Seq<Movement>, account: Id) -> int
    decreases ms.len(),
{
    if ms.len() == 0 {
        0
    } else {
        debit_sum(ms.drop_last(), account) + (if ms.last().account == account && ms.last().direction
            == Direction::Debit {
            ms.last().amount_cents as int
        } else {
            0
        })
    }
}

/// The derived balance of account `a` under movements `ms`: the initial
/// balance plus all credits minus all debits.
pub open spec fn balance_spec(a: Account, ms: Seq<Movement>) -> int {
    a.initial_balance_cents + movement_sum(ms, a.id)
}

/// Law: the signed movement sum is exactly the credit total minus the
/// debit total.
pub proof fn lemma_sum_is_credits_minus_debits(ms: Seq<Movement>, account: Id)
    ensures
        movement_sum(ms, account) == credit_sum(ms, account) - debit_sum(ms, account),
    decreases ms.len(),
{
    if ms.len() > 0 {
        lemma_sum_is_credits_minus_debits(ms.drop_last(), account);
    }
}

/// Law: an account's derived balance is its initial balance plus the
/// sum of its credits minus the sum of its debits, recomputed from the
/// movements alone.
pub proof fn lemma_balance_formula(a: Account, ms: Seq<Movement>)
    ensures
        balance_spec(a, ms) == a.initial_balance_cents + credit_sum(ms, a.id) - debit_sum(
            ms,
            a.id,
        ),
{
    lemma_sum_is_credits_minus_debits(ms, a.id);
}

/// Removing one movement removes exactly its contribution.
pub proof fn lemma_movement_sum_remove(ms: Seq<Movement>, i: int, account: Id)
    requires
        0 <= i < ms.len(),
    ensures
        movement_sum(ms, account) == movement_sum(ms.remove(i), account) + signed_delta(
            ms[i],
            account,
        ),
    decreases ms.len(),
{
    if i == ms.len() - 1 {
        assert(ms.remove(i) =~= ms.drop_last());
    } else {
        lemma_movement_sum_remove(ms.drop_last(), i, account);
        assert(ms.remove(i).drop_last() =~= ms.drop_last().remove(i));
        assert(ms.remove(i).last() == ms.last());
    }
}

/// Law: the balance sum does not depend on the order of the movements;
/// any two sequences holding the same multiset of postings sum alike.
pub proof fn lemma_movement_sum_permutation(s1: Seq<Movement>, s2: Seq<Movement>, account: Id)
    requires
        s1.to_multiset() == s2.to_multiset(),
    ensures
        movement_sum(s1, account) == movement_sum(s2, account),
    decreases s1.len(),
{
    broadcast use vstd::seq_lib::group_to_multiset_ensures;

    s1.to_multiset_ensures();
    s2.to_multiset_ensures();
    if s1.len() == 0 {
        assert(s2.to_multiset().len() == 0);
        assert(s2.len() == 0);
    } else {
        let x = s1.last();
        assert(s1 == s1.drop_last().push(x));
        assert(s1.to_multiset().count(x) > 0);
        assert(s2.to_multiset().count(x) > 0);
        assert(s2.contains(x));
        let j = choose|j: int| 0 <= j < s2.len() && s2[j] == x;
        lemma_movement_sum_remove(s2, j, account);
        assert(s1.drop_last().to_multiset() =~= s1.to_multiset().remove(x));
        assert(s2.remove(j).to_multiset() =~= s2.to_multiset().remove(x));
        lemma_movement_sum_permutation(s1.drop_last(), s2.remove(j), account);
    }
}

/// Every partial movement sum is bounded by the number of movements
/// times the largest accepted amount.
pub proof fn lemma_movement_sum_bound(ms: Seq<Movement>, account: Id)
    requires
        forall|i: int|
            0 <= i < ms.len() ==> 1 <= (#[trigger] ms[i]).amount_cents <= MAX_AMOUNT_CENTS,
    ensures
        -(ms.len() as int) * MAX_AMOUNT_CENTS <= movement_sum(ms, account) <= (ms.len() as int)
            * MAX_AMOUNT_CENTS,
    decreases ms.len(),
{
    if ms.len() == 0 {
    } else {
        lemma_movement_sum_bound(ms.drop_last(), account);
        let n = ms.len() as int;
        assert((n - 1) * MAX_AMOUNT_CENTS + MAX_AMOUNT_CENTS == n * MAX_AMOUNT_CENTS) by (
        nonlinear_arith);
    }
}

// ---------------------------------------------------------------------
// The store
// ---------------------------------------------------------------------
/// The tenant-scoped financial store. Every mutation validates before
/// writing, identifiers are minted from one counter, and balances are
/// always derived from the append-only movement list.
pub struct Ledger {
    pub tenants: Vec<TenantSettings>,
    pub people: Vec<PersonEntry>,
    pub students: Vec<StudentEntry>,
    pub accounts: Vec<Account>,
    pub counterparties: Vec<Counterparty>,
    pub categories: Vec<Category>,
    pub movements: Vec<Movement>,
    pub payables: Vec<Payable>,
    pub receivables: Vec<Receivable>,
    pub contracts: Vec<Contract>,
    pub installments: Vec<Installment>,
    pub transfers: Vec<Transfer>,
    pub email_logs: Vec<EmailLog>,
    pub next_id: Id,
}

impl Ledger {
    /// Well-formedness: fresh identifiers are available, identifiers
    /// are distinct, amounts are positive and bounded, dates are real,
    /// movements refer to existing accounts of their tenant, and every
    /// installment is paired with exactly one shadow receivable.
    pub open spec fn wf(self) -> bool {
        &&& self.next_id as int <= 1 + total_records(self) as int
        &&& ids_unique(self.tenants@)
        &&& ids_unique(self.people@) && ids_below(self.people@, self.next_id)
        &&& ids_unique(self.students@) && ids_below(self.students@, self.next_id)
        &&& ids_unique(self.accounts@) && ids_below(self.accounts@, self.next_id)
        &&& ids_unique(self.counterparties@) && ids_below(self.counterparties@, self.next_id)
        &&& ids_unique(self.categories@) && ids_below(self.categories@, self.next_id)
        &&& ids_unique(self.movements@) && ids_below(self.movements@, self.next_id)
        &&& ids_unique(self.payables@) && ids_below(self.payables@, self.next_id)
        &&& ids_unique(self.receivables@) && ids_below(self.receivables@, self.next_id)
        &&& ids_unique(self.contracts@) && ids_below(self.contracts@, self.next_id)
        &&& ids_unique(self.installments@) && ids_below(self.installments@, self.next_id)
        &&& ids_unique(self.transfers@) && ids_below(self.transfers@, self.next_id)
        &&& ids_unique(self.email_logs@) && ids_below(self.email_logs@, self.next_id)
        &&& forall|i: int|
            0 <= i < self.accounts@.len() ==> -MAX_AMOUNT_CENTS <= (
            #[trigger] self.accounts@[i]).initial_balance_cents <= MAX_AMOUNT_CENTS
        &&& forall|i: int|
            0 <= i < self.movements@.len() ==> {
                let m = #[trigger] self.movements@[i];
                &&& 1 <= m.amount_cents <= MAX_AMOUNT_CENTS
                &&& valid_date(m.date)
                &&& has_record(self.accounts@, m.tenant, m.account)
            }
        &&& forall|i: int|
            0 <= i < self.payables@.len() ==> {
                let x = #[trigger] self.payables@[i];
                &&& 1 <= x.amount_cents <= MAX_AMOUNT_CENTS
                &&& valid_date(x.due_date)
            }
        &&& forall|i: int|
            0 <= i < self.receivables@.len() ==> {
                let x = #[trigger] self.receivables@[i];
                &&& 1 <= x.amount_cents <= MAX_AMOUNT_CENTS
                &&& valid_date(x.due_date)
            }
        &&& forall|i: int|
            0 <= i < self.installments@.len() ==> {
                let x = #[trigger] self.installments@[i];
                &&& 1 <= x.amount_cents <= MAX_AMOUNT_CENTS
                &&& valid_date(x.due_date)
            }
        &&& forall|i: int|
            0 <= i < self.contracts@.len() ==> {
                let c = #[trigger] self.contracts@[i];
                &&& 1 <= c.total_amount_cents <= MAX_AMOUNT_CENTS
                &&& c.installments_count >= 1
                &&& valid_date(c.first_due_date)
            }
        &&& forall|i: int|
            0 <= i < self.transfers@.len() ==> {
                let t = #[trigger] self.transfers@[i];
                &&& 1 <= t.amount_cents <= MAX_AMOUNT_CENTS
                &&& t.from_account != t.to_account
            }
        &&& installments_paired(self.installments@, self.receivables@)
        &&& receivable_links_injective(self.receivables@)
        &&& receivable_links_below(self.receivables@, self.next_id)
    }

    /// An empty store.
    pub fn new() -> (l: Ledger)
        ensures
            l.wf(),
            l.tenants@.len() == 0,
            l.people@.len() == 0,
            l.students@.len() == 0,
            l.accounts@.len() == 0,
            l.counterparties@.len() == 0,
            l.categories@.len() == 0,
            l.movements@.len() == 0,
            l.payables@.len() == 0,
            l.receivables@.len() == 0,
            l.contracts@.len() == 0,
            l.installments@.len() == 0,
            l.transfers@.len() == 0,
            l.email_logs@.len() == 0,
    {
        Ledger {
            tenants: Vec::new(),
            people: Vec::new(),
            students: Vec::new(),
            accounts: Vec::new(),
            counterparties: Vec::new(),
            categories: Vec::new(),
            movements: Vec::new(),
            payables: Vec::new(),
            receivables: Vec::new(),
            contracts: Vec::new(),
            installments: Vec::new(),
            transfers: Vec::new(),
            email_logs: Vec::new(),
            next_id: 1,
        }
    }

    /// Mints the next record identifier.
    pub(crate) fn mint_id(&mut self) -> (id: Id)
        requires
            old(self).next_id < Id::MAX,
        ensures
            id == old(self).next_id,
            final(self).next_id == old(self).next_id + 1,
            final(self).tenants == old(self).tenants,
            final(self).people == old(self).people,
            final(self).students == old(self).students,
            final(self).accounts == old(self).accounts,
            final(self).counterparties == old(self).counterparties,
            final(self).categories == old(self).categories,
            final(self).movements == old(self).movements,
            final(self).payables == old(self).payables,
            final(self).receivables == old(self).receivables,
            final(self).contracts == old(self).contracts,
            final(self).installments == old(self).installments,
            final(self).transfers == old(self).transfers,
            final(self).email_logs == old(self).email_logs,
    {
        let id = self.next_id;
        self.next_id = self.next_id + 1;
        id
    }
}

} // verus!
