//! The configuration of a whole cluster.

use crate::config::host::{Host, HostRole};
use crate::config::network::NetworkConfig;
use crate::config::storage::StorageConfig;
use crate::error::{report_aggregate, views, ErrorView, ValidationError};
use crate::validation::traits::{
    as_findings, failures, fault, lemma_no_failures, validate_each, Validate,
};
use vstd::prelude::*;

verus! {

/// A cluster: its hosts, its storage and its network.
#[derive(Debug)]
pub struct ServerConfig {
    pub name: String,
    pub hosts: Vec<Host>,
    pub storage: StorageConfig,
    pub network: NetworkConfig,
}

/// At least one of `hosts` is a manager.
pub open spec fn has_manager(hosts: Seq<Host>) -> bool {
    exists|i: int| 0 <= i < hosts.len() && (#[trigger] hosts[i]).role == HostRole::Manager
}

/// Executable test for [`has_manager`].
pub fn check_has_manager(hosts: &Vec<Host>) -> (found: bool)
    ensures
        found == has_manager(hosts@),
{
    let mut i: usize = 0;
    while i < hosts.len()
        invariant
            i <= hosts@.len(),
            forall|j: int| 0 <= j < i ==> (#[trigger] hosts@[j]).role != HostRole::Manager,
        decreases hosts@.len() - i,
    {
        if hosts[i].role == HostRole::Manager {
            return true;
        }
        i = i + 1;
    }
    false
}

impl ServerConfig {
    /// What is wrong with the set of roles, if anything.
    pub open spec fn manager_findings(&self) -> Seq<ErrorView> {
        if has_manager(self.hosts@) {
            Seq::empty()
        } else {
            seq![ErrorView::NoManagerHost]
        }
    }

    /// Everything that is wrong with the cluster, in the order of the
    /// checks: the missing manager, the failures of the hosts in the order
    /// of the hosts, the failure of the storage, the failure of the
    /// network.
    pub open spec fn findings(&self) -> Seq<ErrorView> {
        self.manager_findings() + failures(self.hosts@) + as_findings(fault(self.storage))
            + as_findings(fault(self.network))
    }
}

impl Validate for ServerConfig {
    /// A cluster is valid when it has a manager and every host, the
    /// storage and the network are valid. The name is not constrained.
    open spec fn is_valid(&self) -> bool {
        &&& has_manager(self.hosts@)
        &&& forall|i: int| 0 <= i < self.hosts@.len() ==> (#[trigger] self.hosts@[i]).is_valid()
        &&& self.storage.is_valid()
        &&& self.network.is_valid()
    }

    open spec fn failure(&self) -> ErrorView {
        ErrorView::MultipleErrors(self.findings())
    }

    /// Makes all four checks, whatever the others find, and gathers every
    /// failure into one aggregate. Without a manager among the hosts, the
    /// aggregate begins with `NoManagerHost`.
    fn validate(&self) -> (r: Result<(), ValidationError>)
        ensures
            !has_manager(self.hosts@) ==> (r matches Err(e) && e@ matches ErrorView::MultipleErrors(
                errors,
            ) && errors.len() >= 1 && errors[0] == ErrorView::NoManagerHost),
    {
        let mut errors: Vec<ValidationError> = Vec::new();
        if !check_has_manager(&self.hosts) {
            errors.push(ValidationError::NoManagerHost);
        }
        assert(views(errors@) =~= self.manager_findings());
        validate_each(&self.hosts, &mut errors);
        let ghost upto_hosts = views(errors@);
        match self.storage.validate() {
            Ok(_) => {},
            Err(e) => {
                errors.push(e);
            },
        }
        let ghost upto_storage = views(errors@);
        assert(upto_storage =~= upto_hosts + as_findings(fault(self.storage)));
        match self.network.validate() {
            Ok(_) => {},
            Err(e) => {
                errors.push(e);
            },
        }
        proof {
            assert(views(errors@) =~= upto_storage + as_findings(fault(self.network)));
            lemma_no_failures(self.hosts@);
        }
        report_aggregate(errors)
    }
}

} // verus!
