//! A machine of the cluster.

use crate::error::{
    report_single_or_aggregate, single_or_aggregate, views, ErrorView, ValidationError,
};
use crate::text::chars::{alphanumeric, is_alphanumeric, to_chars};
use crate::validation::rules::{ip_address_fault, is_ipv4_address, validate_ip_address};
use crate::validation::traits::Validate;
use vstd::prelude::*;

verus! {

/// A machine of the cluster, by name and address.
#[derive(Debug)]
pub struct Host {
    pub hostname: String,
    pub ip_address: String,
    pub role: HostRole,
    pub enabled: bool,
}

/// What a host does in the cluster.
#[derive(Debug, Clone, Copy, PartialEq, Eq, Structural)]
pub enum HostRole {
    Manager,
    Storage,
    Client,
    Gateway,
}

/// `c` may occur in a hostname: an ASCII letter, an ASCII digit or `-`.
pub open spec fn is_hostname_char(c: char) -> bool {
    is_alphanumeric(c) || c == '-'
}

/// `s` is a hostname: 1 to 253 characters, each a letter, a digit or `-`,
/// and neither the first nor the last a `-`.
pub open spec fn is_hostname(s: Seq<char>) -> bool {
    &&& 1 <= s.len() <= 253
    &&& s.first() != '-'
    &&& s.last() != '-'
    &&& forall|i: int| 0 <= i < s.len() ==> is_hostname_char(#[trigger] s[i])
}

/// `s` is a single letter or digit, or else a letter or digit, then up to
/// 251 letters, digits or `-`, then a letter or digit.
pub open spec fn matches_hostname_pattern(s: Seq<char>) -> bool {
    ||| s.len() == 1 && is_alphanumeric(s[0])
    ||| {
        &&& 2 <= s.len() <= 253
        &&& is_alphanumeric(s.first())
        &&& is_alphanumeric(s.last())
        &&& forall|i: int| 1 <= i < s.len() - 1 ==> is_hostname_char(#[trigger] s[i])
    }
}

/// The hostnames are exactly the texts of that pattern: an empty text, one
/// over 253 characters, one that begins or ends with `-`, and one with any
/// other character are not hostnames.
pub proof fn lemma_hostname_pattern(s: Seq<char>)
    ensures
        is_hostname(s) <==> matches_hostname_pattern(s),
{
}

/// Executable test for [`is_hostname`].
pub fn check_hostname(hostname: &str) -> (ok: bool)
    ensures
        ok == is_hostname(hostname@),
{
    let chars: Vec<char> = to_chars(hostname);
    let n: usize = chars.len();
    if n == 0 || n > 253 || chars[0] == '-' || chars[n - 1] == '-' {
        return false;
    }
    let mut i: usize = 0;
    while i < n
        invariant
            i <= n,
            n == chars@.len(),
            chars@ == hostname@,
            forall|j: int| 0 <= j < i ==> is_hostname_char(#[trigger] chars@[j]),
        decreases n - i,
    {
        let c: char = chars[i];
        if !(alphanumeric(c) || c == '-') {
            return false;
        }
        i = i + 1;
    }
    true
}

impl Host {
    /// What is wrong with the hostname, if anything.
    pub open spec fn hostname_findings(&self) -> Seq<ErrorView> {
        if is_hostname(self.hostname@) {
            Seq::empty()
        } else {
            seq![
                ErrorView::InvalidHostname {
                    hostname: self.hostname@,
                    reason: "Invalid hostname format"@,
                },
            ]
        }
    }

    /// What is wrong with the address, if anything, with the reason that
    /// the address check gives.
    pub open spec fn address_findings(&self) -> Seq<ErrorView> {
        if is_ipv4_address(self.ip_address@) {
            Seq::empty()
        } else {
            seq![
                ErrorView::InvalidIpAddress {
                    ip: self.ip_address@,
                    reason: ip_address_fault(self.ip_address@),
                },
            ]
        }
    }

    /// Everything that is wrong with the host: the hostname first, then
    /// the address.
    pub open spec fn findings(&self) -> Seq<ErrorView> {
        self.hostname_findings() + self.address_findings()
    }
}

impl Validate for Host {
    /// A host is valid when its hostname is a hostname and its address is
    /// a dotted quad. Role and `enabled` are not constrained.
    open spec fn is_valid(&self) -> bool {
        is_hostname(self.hostname@) && is_ipv4_address(self.ip_address@)
    }

    open spec fn failure(&self) -> ErrorView {
        single_or_aggregate(self.findings())
    }

    /// Checks hostname and address independently of each other. One
    /// failure is returned as it is; when both checks fail, the result is
    /// an aggregate of exactly two errors, the hostname's before the
    /// address's.
    fn validate(&self) -> (r: Result<(), ValidationError>)
        ensures
            !is_hostname(self.hostname@) && !is_ipv4_address(self.ip_address@) ==> (r matches Err(
                e,
            ) && e@ == ErrorView::MultipleErrors(
                seq![
                    ErrorView::InvalidHostname {
                        hostname: self.hostname@,
                        reason: "Invalid hostname format"@,
                    },
                    ErrorView::InvalidIpAddress {
                        ip: self.ip_address@,
                        reason: ip_address_fault(self.ip_address@),
                    },
                ],
            )),
    {
        let mut errors: Vec<ValidationError> = Vec::new();
        if !check_hostname(self.hostname.as_str()) {
            errors.push(
                ValidationError::InvalidHostname {
                    hostname: self.hostname.clone(),
                    reason: "Invalid hostname format".to_string(),
                },
            );
        }
        match validate_ip_address(self.ip_address.as_str()) {
            Ok(_) => {},
            Err(reason) => {
                errors.push(
                    ValidationError::InvalidIpAddress { ip: self.ip_address.clone(), reason },
                );
            },
        }
        assert(views(errors@) =~= self.findings());
        assert(self.findings().len() == 2 ==> self.findings() =~= seq![
            self.hostname_findings()[0],
            self.address_findings()[0],
        ]);
        report_single_or_aggregate(errors)
    }
}

} // verus!
