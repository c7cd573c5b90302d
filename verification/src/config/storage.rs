//! Filesystems and the storage of the cluster.

use crate::error::{
    report_aggregate, report_single_or_aggregate, single_or_aggregate, views, ErrorView,
    ValidationError,
};
use crate::text::chars::{alphanumeric, is_alphanumeric, to_chars};
use crate::types::byte_size::ByteSize;
use crate::validation::traits::{failures, lemma_no_failures, validate_each, Validate};
use vstd::prelude::*;

verus! {

/// The storage of the cluster: its filesystems, in order.
#[derive(Debug)]
pub struct StorageConfig {
    pub filesystems: Vec<Filesystem>,
    pub default_size: ByteSize,
}

/// One filesystem and where it is mounted.
#[derive(Debug)]
pub struct Filesystem {
    pub name: String,
    pub mount_point: String,
    pub size: ByteSize,
}

/// `c` may occur in the name of a filesystem: an ASCII letter, an ASCII
/// digit or `_`.
pub open spec fn is_filesystem_name_char(c: char) -> bool {
    is_alphanumeric(c) || c == '_'
}

/// `s` has between 1 and 64 characters.
pub open spec fn has_filesystem_name_length(s: Seq<char>) -> bool {
    1 <= s.len() <= 64
}

/// `s` is the name of a filesystem: 1 to 64 characters, each a letter, a
/// digit or `_`.
pub open spec fn is_filesystem_name(s: Seq<char>) -> bool {
    &&& has_filesystem_name_length(s)
    &&& forall|i: int| 0 <= i < s.len() ==> is_filesystem_name_char(#[trigger] s[i])
}

/// Why `s` is not the name of a filesystem: its length, or else a
/// character in it.
pub open spec fn filesystem_name_fault(s: Seq<char>) -> Seq<char>
    recommends
        !is_filesystem_name(s),
{
    if !has_filesystem_name_length(s) {
        "Name must be 1–64 characters"@
    } else {
        "Only alphanumeric characters and underscore allowed"@
    }
}

/// `s` is a mount point: it begins with `/`.
pub open spec fn is_mount_point(s: Seq<char>) -> bool {
    s.len() > 0 && s.first() == '/'
}

/// Executable test for [`is_filesystem_name_char`] on every character.
fn check_filesystem_name_chars(chars: &Vec<char>) -> (ok: bool)
    ensures
        ok == forall|i: int| 0 <= i < chars@.len() ==> is_filesystem_name_char(#[trigger] chars@[i]),
{
    let n: usize = chars.len();
    let mut i: usize = 0;
    while i < n
        invariant
            i <= n,
            n == chars@.len(),
            forall|j: int| 0 <= j < i ==> is_filesystem_name_char(#[trigger] chars@[j]),
        decreases n - i,
    {
        let c: char = chars[i];
        if !(alphanumeric(c) || c == '_') {
            return false;
        }
        i = i + 1;
    }
    true
}

/// Executable test for [`is_mount_point`].
pub fn check_mount_point(path: &str) -> (ok: bool)
    ensures
        ok == is_mount_point(path@),
{
    let mut rest = path.chars();
    match rest.next() {
        Some(c) => c == '/',
        None => false,
    }
}

impl Filesystem {
    /// What is wrong with the name, if anything.
    pub open spec fn name_findings(&self) -> Seq<ErrorView> {
        if is_filesystem_name(self.name@) {
            Seq::empty()
        } else {
            seq![
                ErrorView::InvalidFilesystemName {
                    name: self.name@,
                    reason: filesystem_name_fault(self.name@),
                },
            ]
        }
    }

    /// What is wrong with the mount point, if anything.
    pub open spec fn mount_point_findings(&self) -> Seq<ErrorView> {
        if is_mount_point(self.mount_point@) {
            Seq::empty()
        } else {
            seq![
                ErrorView::InvalidMountPoint {
                    path: self.mount_point@,
                    reason: "Mount point must start with '/'"@,
                },
            ]
        }
    }

    /// Everything that is wrong with the filesystem: the name first, then
    /// the mount point.
    pub open spec fn findings(&self) -> Seq<ErrorView> {
        self.name_findings() + self.mount_point_findings()
    }
}

impl Validate for Filesystem {
    /// A filesystem is valid when its name is a filesystem name and its
    /// mount point begins with `/`. The size is not constrained.
    open spec fn is_valid(&self) -> bool {
        is_filesystem_name(self.name@) && is_mount_point(self.mount_point@)
    }

    open spec fn failure(&self) -> ErrorView {
        single_or_aggregate(self.findings())
    }

    /// Checks name and mount point independently of each other. One
    /// failure is returned as it is; when both checks fail, the result is
    /// an aggregate of the two, the name's first.
    fn validate(&self) -> (r: Result<(), ValidationError>) {
        let mut errors: Vec<ValidationError> = Vec::new();
        let chars: Vec<char> = to_chars(self.name.as_str());
        if chars.len() == 0 || chars.len() > 64 {
            errors.push(
                ValidationError::InvalidFilesystemName {
                    name: self.name.clone(),
                    reason: "Name must be 1–64 characters".to_string(),
                },
            );
        } else if !check_filesystem_name_chars(&chars) {
            errors.push(
                ValidationError::InvalidFilesystemName {
                    name: self.name.clone(),
                    reason: "Only alphanumeric characters and underscore allowed".to_string(),
                },
            );
        }
        if !check_mount_point(self.mount_point.as_str()) {
            errors.push(
                ValidationError::InvalidMountPoint {
                    path: self.mount_point.clone(),
                    reason: "Mount point must start with '/'".to_string(),
                },
            );
        }
        assert(views(errors@) =~= self.findings());
        report_single_or_aggregate(errors)
    }
}

impl Validate for StorageConfig {
    /// Storage is valid when it has at least one filesystem and each of
    /// its filesystems is valid. The default size is not constrained.
    open spec fn is_valid(&self) -> bool {
        &&& self.filesystems@.len() > 0
        &&& forall|i: int|
            0 <= i < self.filesystems@.len() ==> (#[trigger] self.filesystems@[i]).is_valid()
    }

    open spec fn failure(&self) -> ErrorView {
        if self.filesystems@.len() == 0 {
            ErrorView::NoFilesystems
        } else {
            ErrorView::MultipleErrors(failures(self.filesystems@))
        }
    }

    /// Without filesystems the result is `NoFilesystems`, whatever the
    /// other fields hold. Otherwise every filesystem is validated and all
    /// failures are gathered, in the order of the filesystems, into one
    /// aggregate.
    fn validate(&self) -> (r: Result<(), ValidationError>)
        ensures
            self.filesystems@.len() == 0 ==> (r matches Err(e) && e@ == ErrorView::NoFilesystems),
    {
        if self.filesystems.len() == 0 {
            return Err(ValidationError::NoFilesystems);
        }
        let mut errors: Vec<ValidationError> = Vec::new();
        validate_each(&self.filesystems, &mut errors);
        proof {
            lemma_no_failures(self.filesystems@);
        }
        report_aggregate(errors)
    }
}

} // verus!
