//! Port assignment: one distinct port per listener, drawn in sequence from
//! the bottom of the configured range.

use vstd::prelude::*;

verus! {

/// Where the catch-all listener's port comes from: a fixed port, the first
/// or the last port of the configured range, or no catch-all listener at
/// all.
#[derive(Debug, Clone, PartialEq, Eq, Structural)]
pub enum CatchAllPort {
    Fixed(u16),
    First,
    Last,
    Disabled,
}

/// The ports the listeners bind: one optional catch-all port, one port for
/// the default project, and one port per known project, in the registry's
/// order.
pub struct PortAssignment {
    pub catch_all: Option<u16>,
    pub default_port: u16,
    pub project_ports: Vec<u16>,
}

/// Assigns ports starting from the range's lower bound. A `Fixed` catch-all
/// takes its configured port and a `Last` catch-all the range's upper
/// bound, neither moving the cursor; a `First` catch-all takes the lower
/// bound and advances the cursor by one. The default project then takes the
/// cursor's port and each known project the next one in sequence, so the
/// default's and the projects' ports are pairwise distinct, and with the
/// `First` policy distinct from the catch-all's too.
pub fn assign_ports(
    range_start: u16,
    range_end: u16,
    policy: &CatchAllPort,
    n_projects: usize,
) -> (r: PortAssignment)
    requires
        range_start as int + 1 + n_projects as int <= u16::MAX as int,
    ensures
        (match policy {
            CatchAllPort::Fixed(p) => r.catch_all == Some(*p) && r.default_port == range_start,
            CatchAllPort::First => r.catch_all == Some(range_start) && r.default_port
                == range_start as int + 1,
            CatchAllPort::Last => r.catch_all == Some(range_end) && r.default_port == range_start,
            CatchAllPort::Disabled => r.catch_all is None && r.default_port == range_start,
        }),
        r.project_ports@.len() == n_projects,
        forall|i: int| 0 <= i < n_projects ==> r.project_ports@[i] == r.default_port as int + 1 + i,
        forall|i: int, j: int|
            0 <= i < j < n_projects ==> r.project_ports@[i] != r.project_ports@[j],
        forall|i: int| 0 <= i < n_projects ==> r.project_ports@[i] != r.default_port,
{
    let catch_all: Option<u16>;
    let default_port: u16;
    match policy {
        CatchAllPort::Fixed(p) => {
            catch_all = Some(*p);
            default_port = range_start;
        },
        CatchAllPort::First => {
            catch_all = Some(range_start);
            default_port = range_start + 1;
        },
        CatchAllPort::Last => {
            catch_all = Some(range_end);
            default_port = range_start;
        },
        CatchAllPort::Disabled => {
            catch_all = None;
            default_port = range_start;
        },
    }
    let mut project_ports: Vec<u16> = Vec::new();
    let mut i: usize = 0;
    while i < n_projects
        invariant
            i <= n_projects,
            default_port as int <= range_start as int + 1,
            range_start as int + 1 + n_projects as int <= u16::MAX as int,
            project_ports@.len() == i,
            forall|k: int| 0 <= k < i ==> project_ports@[k] == default_port as int + 1 + k,
        decreases n_projects - i,
    {
        let port: u16 = default_port + 1 + (i as u16);
        project_ports.push(port);
        i += 1;
    }
    PortAssignment { catch_all, default_port, project_ports }
}

/// With the `First` policy every listener's port is its own: the catch-all
/// takes the range's first port, the default project the next, and the
/// known projects the following ones, one each, with no two equal.
pub proof fn lemma_first_policy_ports_distinct(r: PortAssignment, range_start: u16)
    requires
        r.catch_all == Some(range_start),
        r.default_port == range_start as int + 1,
        forall|i: int|
            0 <= i < r.project_ports@.len() ==> r.project_ports@[i] == r.default_port as int + 1
                + i,
    ensures
        r.default_port != range_start,
        forall|i: int|
            0 <= i < r.project_ports@.len() ==> r.project_ports@[i] != range_start
                && r.project_ports@[i] != r.default_port,
        forall|i: int, j: int|
            0 <= i < j < r.project_ports@.len() ==> r.project_ports@[i] != r.project_ports@[j],
{
}

} // verus!
