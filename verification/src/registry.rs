//! Reference registries: accounts, counterparties and categories, the
//! collaborator directory, and the balance query over the movement
//! ledger.

use vstd::prelude::*;
use crate::auth::{can_manage, Principal};
use crate::ledger::{
    balance_spec, find_record, has_record, ids_unique, lemma_movement_sum_bound, lemma_push_fresh,
    lemma_record_found, movement_sum, record_at, Ledger, LedgerRecord, TenantSettings,
};
use crate::model::{
    Account, AccountKind, Category, CategoryFlow, Counterparty, CounterpartyKind, Id, LedgerError,
    PersonEntry, StudentEntry, normalize_account_type, normalize_category_flow,
    normalize_counterparty_kind,
};
use crate::money::MAX_AMOUNT_CENTS;
use crate::text::{lower_of, trim_of, trimmed};

verus! {

/// Request to open a financial account.
pub struct CreateFinancialAccountRequest {
    pub name: String,
    pub account_type: String,
    pub initial_balance_cents: Option<i64>,
}

/// Request to register a counterparty.
pub struct CreateFinancialCounterpartyRequest {
    pub name: String,
    pub kind: String,
}

/// Request to register a category.
pub struct CreateFinancialCategoryRequest {
    pub name: String,
    pub flow: String,
}

/// An account as reported to callers, with its derived balance.
pub struct FinancialAccountResponse {
    pub id: Id,
    pub name: String,
    pub account_type: AccountKind,
    pub initial_balance_cents: i64,
    pub current_balance_cents: i128,
    pub is_active: bool,
}

/// A counterparty as reported to callers.
pub struct FinancialCounterpartyResponse {
    pub id: Id,
    pub name: String,
    pub kind: CounterpartyKind,
    pub is_active: bool,
}

/// A category as reported to callers.
pub struct FinancialCategoryResponse {
    pub id: Id,
    pub name: String,
    pub flow: CategoryFlow,
    pub is_active: bool,
}

/// Whether the tenant settings, people and students are untouched.
pub open spec fn same_directory(pre: Ledger, post: Ledger) -> bool {
    &&& post.tenants == pre.tenants
    &&& post.people == pre.people
    &&& post.students == pre.students
}

/// Whether the payables, receivables, contracts and installments are
/// untouched.
pub open spec fn same_obligations(pre: Ledger, post: Ledger) -> bool {
    &&& post.payables == pre.payables
    &&& post.receivables == pre.receivables
    &&& post.contracts == pre.contracts
    &&& post.installments == pre.installments
}

/// Whether the movement ledger, transfers and email log are untouched.
pub open spec fn same_flows(pre: Ledger, post: Ledger) -> bool {
    &&& post.movements == pre.movements
    &&& post.transfers == pre.transfers
    &&& post.email_logs == pre.email_logs
}

/// Whether the three reference registries are untouched.
pub open spec fn same_refs(pre: Ledger, post: Ledger) -> bool {
    &&& post.accounts == pre.accounts
    &&& post.counterparties == pre.counterparties
    &&& post.categories == pre.categories
}

/// Appending a settings record whose identifier is below the bound and
/// absent so far keeps the registry well-formed.
proof fn lemma_push_settings(s: Seq<TenantSettings>, x: TenantSettings)
    requires
        ids_unique(s),
        !has_record(s, x.tenant, x.tenant),
    ensures
        ids_unique(s.push(x)),
{
    let t = s.push(x);
    assert forall|i: int, j: int|
        0 <= i < j < t.len() implies (#[trigger] t[i]).record_id() != (
    #[trigger] t[j]).record_id() by {
        if j < s.len() {
            assert(t[i] == s[i] && t[j] == s[j]);
        } else {
            assert(t[j] == x && t[i] == s[i]);
            if s[i].record_id() == x.tenant {
                assert(s[i].record_tenant() == s[i].tenant);
                assert(has_record(s, x.tenant, x.tenant));
            }
        }
    }
}

impl Ledger {
    /// Registers a tenant's school settings: collaborator data the
    /// financial core consults but does not manage. Rejected when the
    /// tenant is already registered.
    pub fn register_tenant(&mut self, tenant: Id, school_name: String, school_code: String) -> (r:
        bool)
        requires
            old(self).wf(),
        ensures
            final(self).wf(),
            !r ==> *final(self) == *old(self),
            r == !has_record(old(self).tenants@, tenant, tenant),
            r ==> final(self).tenants@ == old(self).tenants@.push(final(self).tenants@.last())
                && final(self).tenants@.last() == (TenantSettings {
                tenant,
                school_name,
                school_code,
                school_city: None,
                school_signature_name: None,
                financial_contract_template: None,
            }),
            r ==> final(self).people == old(self).people && final(self).students == old(
                self,
            ).students && same_refs(*old(self), *final(self)) && same_obligations(
                *old(self),
                *final(self),
            ) && same_flows(*old(self), *final(self)),
            has_record(final(self).tenants@, tenant, tenant) || !r,
    {
        if let Some(_) = find_record(&self.tenants, tenant, tenant) {
            return false;
        }
        let entry = TenantSettings {
            tenant,
            school_name,
            school_code,
            school_city: None,
            school_signature_name: None,
            financial_contract_template: None,
        };
        proof {
            lemma_push_settings(self.tenants@, entry);
        }
        self.tenants.push(entry);
        true
    }

    /// Adds a person to the collaborator directory the financial core
    /// consults, and returns the minted identifier.
    pub fn add_person(
        &mut self,
        tenant: Id,
        name: String,
        email: Option<String>,
        active: bool,
        financial_guardian: bool,
    ) -> (id: Id)
        requires
            old(self).wf(),
        ensures
            final(self).wf(),
            id == old(self).next_id,
            final(self).people@ == old(self).people@.push(final(self).people@.last()),
            final(self).people@.last() == (PersonEntry {
                id,
                tenant,
                name,
                email,
                active,
                financial_guardian,
            }),
            final(self).tenants == old(self).tenants,
            final(self).students == old(self).students,
            same_refs(*old(self), *final(self)),
            same_obligations(*old(self), *final(self)),
            same_flows(*old(self), *final(self)),
            has_record(final(self).people@, tenant, id),
    {
        proof {
            crate::ledger::lemma_can_mint(*self);
        }
        let id = self.mint_id();
        let entry = PersonEntry { id, tenant, name, email, active, financial_guardian };
        proof {
            lemma_push_fresh(self.people@, entry, id);
        }
        self.people.push(entry);
        proof {
            lemma_record_found(self.people@, tenant, id, self.people@.len() - 1);
        }
        id
    }

    /// Adds a student to the collaborator directory, and returns the
    /// minted identifier.
    pub fn add_student(&mut self, tenant: Id, name: String, person: Option<Id>) -> (id: Id)
        requires
            old(self).wf(),
        ensures
            final(self).wf(),
            id == old(self).next_id,
            final(self).students@ == old(self).students@.push(final(self).students@.last()),
            final(self).students@.last() == (StudentEntry { id, tenant, name, person }),
            final(self).tenants == old(self).tenants,
            final(self).people == old(self).people,
            same_refs(*old(self), *final(self)),
            same_obligations(*old(self), *final(self)),
            same_flows(*old(self), *final(self)),
            has_record(final(self).students@, tenant, id),
    {
        proof {
            crate::ledger::lemma_can_mint(*self);
        }
        let id = self.mint_id();
        let entry = StudentEntry { id, tenant, name, person };
        proof {
            lemma_push_fresh(self.students@, entry, id);
        }
        self.students.push(entry);
        proof {
            lemma_record_found(self.students@, tenant, id, self.students@.len() - 1);
        }
        id
    }

    /// Opens a financial account: only owners and admins may, the name
    /// must hold at least two characters, the kind must be a known one
    /// and the opening balance must be within the accepted range.
    pub fn create_financial_account(
        &mut self,
        p: &Principal,
        req: CreateFinancialAccountRequest,
    ) -> (r: Result<Id, LedgerError>)
        requires
            old(self).wf(),
        ensures
            final(self).wf(),
            ({
                let n = lower_of(trim_of(req.account_type@));
                let init = if req.initial_balance_cents is Some {
                    req.initial_balance_cents->0
                } else {
                    0
                };
                if !can_manage(p.role) {
                    r == Err::<Id, LedgerError>(LedgerError::Forbidden) && *final(self) == *old(self)
                } else if req.name@.len() < 2 {
                    r == Err::<Id, LedgerError>(LedgerError::Validation) && *final(self) == *old(self)
                } else if n != "current"@ && n != "cash"@ {
                    r == Err::<Id, LedgerError>(LedgerError::Validation) && *final(self) == *old(self)
                } else if !(-MAX_AMOUNT_CENTS <= init && init <= MAX_AMOUNT_CENTS) {
                    r == Err::<Id, LedgerError>(LedgerError::Validation) && *final(self) == *old(self)
                } else {
                    &&& r == Ok::<Id, LedgerError>(old(self).next_id)
                    &&& final(self).accounts@ == old(self).accounts@.push(
                        final(self).accounts@.last(),
                    )
                    &&& final(self).accounts@.last() == (Account {
                        id: old(self).next_id,
                        tenant: p.tenant,
                        name: final(self).accounts@.last().name,
                        kind: if n == "current"@ {
                            AccountKind::Current
                        } else {
                            AccountKind::Cash
                        },
                        initial_balance_cents: init,
                        active: true,
                    })
                    &&& final(self).accounts@.last().name@ == trim_of(req.name@)
                    &&& final(self).counterparties == old(self).counterparties
                    &&& final(self).categories == old(self).categories
                    &&& same_directory(*old(self), *final(self))
                    &&& same_obligations(*old(self), *final(self))
                    &&& same_flows(*old(self), *final(self))
                    &&& has_record(final(self).accounts@, p.tenant, old(self).next_id)
                }
            }),
    {
        if !p.may_manage() {
            return Err(LedgerError::Forbidden);
        }
        if self.req_name_too_short(&req.name) {
            return Err(LedgerError::Validation);
        }
        let kind = match normalize_account_type(req.account_type.as_str()) {
            Ok(k) => k,
            Err(e) => {
                return Err(e);
            },
        };
        let init: i64 = match req.initial_balance_cents {
            Some(v) => v,
            None => 0,
        };
        if init < -MAX_AMOUNT_CENTS || init > MAX_AMOUNT_CENTS {
            return Err(LedgerError::Validation);
        }
        let name = String::from_str(trimmed(req.name.as_str()));
        proof {
            crate::ledger::lemma_can_mint(*self);
        }
        let id = self.mint_id();
        let account = Account {
            id,
            tenant: p.tenant,
            name,
            kind,
            initial_balance_cents: init,
            active: true,
        };
        proof {
            lemma_push_fresh(self.accounts@, account, id);
        }
        self.accounts.push(account);
        proof {
            assert forall|i: int| 0 <= i < self.movements@.len() implies has_record(
                self.accounts@,
                (#[trigger] self.movements@[i]).tenant,
                self.movements@[i].account,
            ) by {
                crate::ledger::lemma_has_record_push(
                    old(self).accounts@,
                    account,
                    self.movements@[i].tenant,
                    self.movements@[i].account,
                );
            }
        }
        proof {
            lemma_record_found(self.accounts@, p.tenant, id, self.accounts@.len() - 1);
        }
        Ok(id)
    }

    /// Whether the raw name of a create request is shorter than two
    /// characters.
    fn req_name_too_short(&self, name: &String) -> (r: bool)
        ensures
            r == (name@.len() < 2),
    {
        name.as_str().unicode_len() < 2
    }

    /// Registers a counterparty: only owners and admins may, the name
    /// must hold at least two characters and the kind must be a known
    /// one.
    pub fn create_financial_counterparty(
        &mut self,
        p: &Principal,
        req: CreateFinancialCounterpartyRequest,
    ) -> (r: Result<Id, LedgerError>)
        requires
            old(self).wf(),
        ensures
            final(self).wf(),
            ({
                let n = lower_of(trim_of(req.kind@));
                if !can_manage(p.role) {
                    r == Err::<Id, LedgerError>(LedgerError::Forbidden) && *final(self) == *old(self)
                } else if req.name@.len() < 2 {
                    r == Err::<Id, LedgerError>(LedgerError::Validation) && *final(self) == *old(self)
                } else if n != "vendor"@ && n != "payer"@ && n != "both"@ {
                    r == Err::<Id, LedgerError>(LedgerError::Validation) && *final(self) == *old(self)
                } else {
                    &&& r == Ok::<Id, LedgerError>(old(self).next_id)
                    &&& final(self).counterparties@ == old(self).counterparties@.push(
                        final(self).counterparties@.last(),
                    )
                    &&& final(self).counterparties@.last() == (Counterparty {
                        id: old(self).next_id,
                        tenant: p.tenant,
                        name: final(self).counterparties@.last().name,
                        kind: if n == "vendor"@ {
                            CounterpartyKind::Vendor
                        } else if n == "payer"@ {
                            CounterpartyKind::Payer
                        } else {
                            CounterpartyKind::Both
                        },
                        active: true,
                    })
                    &&& final(self).counterparties@.last().name@ == trim_of(req.name@)
                    &&& final(self).accounts == old(self).accounts
                    &&& final(self).categories == old(self).categories
                    &&& same_directory(*old(self), *final(self))
                    &&& same_obligations(*old(self), *final(self))
                    &&& same_flows(*old(self), *final(self))
                }
            }),
    {
        if !p.may_manage() {
            return Err(LedgerError::Forbidden);
        }
        if self.req_name_too_short(&req.name) {
            return Err(LedgerError::Validation);
        }
        let kind = match normalize_counterparty_kind(req.kind.as_str()) {
            Ok(k) => k,
            Err(e) => {
                return Err(e);
            },
        };
        let name = String::from_str(trimmed(req.name.as_str()));
        proof {
            crate::ledger::lemma_can_mint(*self);
        }
        let id = self.mint_id();
        let entry = Counterparty { id, tenant: p.tenant, name, kind, active: true };
        proof {
            lemma_push_fresh(self.counterparties@, entry, id);
        }
        self.counterparties.push(entry);
        Ok(id)
    }

    /// Registers a category: only owners and admins may, the name must
    /// hold at least two characters and the flow must be a known one.
    pub fn create_financial_category(
        &mut self,
        p: &Principal,
        req: CreateFinancialCategoryRequest,
    ) -> (r: Result<Id, LedgerError>)
        requires
            old(self).wf(),
        ensures
            final(self).wf(),
            ({
                let n = lower_of(trim_of(req.flow@));
                if !can_manage(p.role) {
                    r == Err::<Id, LedgerError>(LedgerError::Forbidden) && *final(self) == *old(self)
                } else if req.name@.len() < 2 {
                    r == Err::<Id, LedgerError>(LedgerError::Validation) && *final(self) == *old(self)
                } else if n != "payable"@ && n != "receivable"@ && n != "both"@ {
                    r == Err::<Id, LedgerError>(LedgerError::Validation) && *final(self) == *old(self)
                } else {
                    &&& r == Ok::<Id, LedgerError>(old(self).next_id)
                    &&& final(self).categories@ == old(self).categories@.push(
                        final(self).categories@.last(),
                    )
                    &&& final(self).categories@.last() == (Category {
                        id: old(self).next_id,
                        tenant: p.tenant,
                        name: final(self).categories@.last().name,
                        flow: if n == "payable"@ {
                            CategoryFlow::Payable
                        } else if n == "receivable"@ {
                            CategoryFlow::Receivable
                        } else {
                            CategoryFlow::Both
                        },
                        active: true,
                    })
                    &&& final(self).categories@.last().name@ == trim_of(req.name@)
                    &&& final(self).accounts == old(self).accounts
                    &&& final(self).counterparties == old(self).counterparties
                    &&& same_directory(*old(self), *final(self))
                    &&& same_obligations(*old(self), *final(self))
                    &&& same_flows(*old(self), *final(self))
                }
            }),
    {
        if !p.may_manage() {
            return Err(LedgerError::Forbidden);
        }
        if self.req_name_too_short(&req.name) {
            return Err(LedgerError::Validation);
        }
        let flow = match normalize_category_flow(req.flow.as_str()) {
            Ok(k) => k,
            Err(e) => {
                return Err(e);
            },
        };
        let name = String::from_str(trimmed(req.name.as_str()));
        proof {
            crate::ledger::lemma_can_mint(*self);
        }
        let id = self.mint_id();
        let entry = Category { id, tenant: p.tenant, name, flow, active: true };
        proof {
            lemma_push_fresh(self.categories@, entry, id);
        }
        self.categories.push(entry);
        Ok(id)
    }

    /// Derives the balance of one account: the initial balance plus
    /// every credit minus every debit posted to it.
    pub fn account_balance_cents(&self, tenant: Id, account_id: Id) -> (r: Result<
        i128,
        LedgerError,
    >)
        requires
            self.wf(),
        ensures
            !has_record(self.accounts@, tenant, account_id) ==> r == Err::<i128, LedgerError>(
                LedgerError::NotFound,
            ),
            has_record(self.accounts@, tenant, account_id) ==> r == Ok::<i128, LedgerError>(
                balance_spec(
                    self.accounts@[record_at(self.accounts@, tenant, account_id)],
                    self.movements@,
                ) as i128,
            ),
    {
        let found = find_record(&self.accounts, tenant, account_id);
        let idx = match found {
            None => {
                return Err(LedgerError::NotFound);
            },
            Some(i) => i,
        };
        proof {
            lemma_record_found(self.accounts@, tenant, account_id, idx as int);
        }
        let account = &self.accounts[idx];
        let n = self.movements.len();
        let mut sum: i128 = account.initial_balance_cents as i128;
        let mut i: usize = 0;
        while i < n
            invariant
                self.wf(),
                n == self.movements@.len(),
                0 <= i <= n,
                0 <= idx < self.accounts@.len(),
                account == self.accounts@[idx as int],
                sum == account.initial_balance_cents + movement_sum(
                    self.movements@.take(i as int),
                    account.id,
                ),
                -MAX_AMOUNT_CENTS <= account.initial_balance_cents <= MAX_AMOUNT_CENTS,
            decreases n - i,
        {
            proof {
                lemma_movement_sum_bound(self.movements@.take(i as int), account.id);
                lemma_movement_sum_bound(self.movements@.take(i + 1), account.id);
                assert(self.movements@.take(i + 1).drop_last() =~= self.movements@.take(i as int));
                assert((i as int) * MAX_AMOUNT_CENTS <= (n as int) * MAX_AMOUNT_CENTS && (i + 1)
                    * MAX_AMOUNT_CENTS <= (n as int) * MAX_AMOUNT_CENTS) by (nonlinear_arith)
                    requires
                        0 <= i < n,
                        MAX_AMOUNT_CENTS > 0,
                ;
                assert((n as int) * MAX_AMOUNT_CENTS < 0x7000_0000_0000_0000_0000_0000_0000_0000)
                    by (nonlinear_arith)
                    requires
                        n <= usize::MAX,
                ;
            }
            let m = &self.movements[i];
            if m.account == account.id {
                match m.direction {
                    crate::model::Direction::Credit => {
                        sum = sum + m.amount_cents as i128;
                    },
                    crate::model::Direction::Debit => {
                        sum = sum - m.amount_cents as i128;
                    },
                }
            }
            i = i + 1;
        }
        proof {
            assert(self.movements@.take(n as int) =~= self.movements@);
        }
        Ok(sum)
    }
}

} // verus!
