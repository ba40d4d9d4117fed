//! Platform-administration views over tenant billing: the client
//! status filter and its classification rule.

use vstd::prelude::*;
use crate::dates::{date_le, date_le_exec, DateYmd};

verus! {

/// Which clients a listing asks for.
#[derive(Clone, Copy, Debug, PartialEq, Eq, Structural)]
pub enum ClientStatusFilter {
    All,
    OnTime,
    Overdue,
}

/// Query selecting clients by billing status.
pub struct ListClientsQuery {
    pub status: ClientStatusFilter,
}

/// Whether a client with the given billing due date is overdue today:
/// its due date lies strictly before today.
pub open spec fn client_overdue(billing_due: DateYmd, today: DateYmd) -> bool {
    !date_le(today, billing_due)
}

/// Decides whether a client passes the status filter.
pub fn client_matches_filter(
    filter: &ClientStatusFilter,
    billing_due: &DateYmd,
    today: &DateYmd,
) -> (r: bool)
    ensures
        *filter == ClientStatusFilter::All ==> r,
        *filter == ClientStatusFilter::OnTime ==> r == !client_overdue(*billing_due, *today),
        *filter == ClientStatusFilter::Overdue ==> r == client_overdue(*billing_due, *today),
{
    match filter {
        ClientStatusFilter::All => true,
        ClientStatusFilter::OnTime => date_le_exec(today, billing_due),
        ClientStatusFilter::Overdue => !date_le_exec(today, billing_due),
    }
}

} // verus!
