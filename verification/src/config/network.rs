//! Network interfaces.

use crate::error::{report_aggregate, ErrorView, ValidationError};
use crate::text::chars::{digit, is_digit, is_letter, letter, to_chars};
use crate::validation::traits::{failures, lemma_no_failures, validate_each, Validate};
use vstd::prelude::*;

verus! {

/// The network of the cluster: its interfaces, in order.
#[derive(Debug)]
pub struct NetworkConfig {
    pub interfaces: Vec<NetworkInterface>,
}

/// One network interface.
#[derive(Debug)]
pub struct NetworkInterface {
    pub name: String,
    pub network_type: NetworkType,
    pub speed_gbps: u32,
}

/// The kind of fabric behind an interface.
#[derive(Debug, Clone, Copy, PartialEq, Eq, Structural)]
pub enum NetworkType {
    Ethernet,
    Infiniband,
    OmniPath,
}

/// `s` is an interface name: one or more ASCII letters followed by one or
/// more ASCII digits, and nothing else.
pub open spec fn is_interface_name(s: Seq<char>) -> bool {
    exists|k: int| #[trigger] splits_into_letters_and_digits(s, k)
}

/// The first `k` characters of `s` are letters, the others are digits, and
/// there is at least one of each.
pub open spec fn splits_into_letters_and_digits(s: Seq<char>, k: int) -> bool {
    &&& 0 < k < s.len()
    &&& forall|i: int| 0 <= i < k ==> is_letter(#[trigger] s[i])
    &&& forall|i: int| k <= i < s.len() ==> is_digit(#[trigger] s[i])
}

/// The length of the longest run of letters that `s` begins with.
pub open spec fn letter_run(s: Seq<char>) -> nat
    decreases s.len(),
{
    if s.len() > 0 && is_letter(s.first()) {
        1 + letter_run(s.drop_first())
    } else {
        0
    }
}

/// Why `s` is not an interface name: its run of leading letters is empty
/// or is all of `s`, or else something other than a digit follows the run.
pub open spec fn interface_name_fault(s: Seq<char>) -> Seq<char>
    recommends
        !is_interface_name(s),
{
    if letter_run(s) == 0 || letter_run(s) == s.len() {
        "Must start with letters and end with digits"@
    } else {
        "Invalid character"@
    }
}

/// The run of leading letters ends at `k` when the first `k` characters
/// are letters and the next one, if there is one, is not.
pub proof fn lemma_letter_run(s: Seq<char>, k: int)
    requires
        0 <= k <= s.len(),
        forall|i: int| 0 <= i < k ==> is_letter(#[trigger] s[i]),
        k < s.len() ==> !is_letter(s[k]),
    ensures
        letter_run(s) == k,
    decreases k,
{
    if k > 0 {
        lemma_letter_run(s.drop_first(), k - 1);
    }
}

/// An interface name splits only at the end of its run of leading letters.
pub proof fn lemma_interface_name_split(s: Seq<char>, k: int)
    requires
        splits_into_letters_and_digits(s, k),
    ensures
        letter_run(s) == k,
{
    lemma_letter_run(s, k);
}

/// A text is no interface name when its run of leading letters is empty
/// or is the whole text, or when the character at `at`, somewhere after
/// the run, is not a digit.
pub proof fn lemma_not_interface_name(s: Seq<char>, at: int)
    requires
        letter_run(s) == 0 || letter_run(s) == s.len() || (letter_run(s) <= at < s.len()
            && !is_digit(s[at])),
    ensures
        !is_interface_name(s),
{
    assert forall|k: int| !splits_into_letters_and_digits(s, k) by {
        if splits_into_letters_and_digits(s, k) {
            lemma_interface_name_split(s, k);
        }
    }
}

impl Validate for NetworkInterface {
    /// An interface is valid when its name is an interface name. Type and
    /// speed are not constrained.
    open spec fn is_valid(&self) -> bool {
        is_interface_name(self.name@)
    }

    open spec fn failure(&self) -> ErrorView {
        ErrorView::InvalidNetworkInterface {
            name: self.name@,
            reason: interface_name_fault(self.name@),
        }
    }

    /// Scans the name from the left: first the run of letters, which must
    /// be neither empty nor the whole name, then digits to the end.
    fn validate(&self) -> (r: Result<(), ValidationError>) {
        let chars: Vec<char> = to_chars(self.name.as_str());
        let n: usize = chars.len();
        let mut i: usize = 0;
        while i < n && letter(chars[i])
            invariant
                i <= n,
                n == chars@.len(),
                forall|j: int| 0 <= j < i ==> is_letter(#[trigger] chars@[j]),
            decreases n - i,
        {
            i = i + 1;
        }
        let run: usize = i;
        proof {
            lemma_letter_run(chars@, run as int);
        }
        if run == 0 || run == n {
            proof {
                lemma_not_interface_name(chars@, run as int);
            }
            return Err(
                ValidationError::InvalidNetworkInterface {
                    name: self.name.clone(),
                    reason: "Must start with letters and end with digits".to_string(),
                },
            );
        }
        while i < n
            invariant
                0 < run <= i <= n,
                run < n,
                n == chars@.len(),
                chars@ == self.name@,
                letter_run(chars@) == run,
                forall|j: int| 0 <= j < run ==> is_letter(#[trigger] chars@[j]),
                forall|j: int| run <= j < i ==> is_digit(#[trigger] chars@[j]),
            decreases n - i,
        {
            if !digit(chars[i]) {
                proof {
                    lemma_not_interface_name(chars@, i as int);
                }
                return Err(
                    ValidationError::InvalidNetworkInterface {
                        name: self.name.clone(),
                        reason: "Invalid character".to_string(),
                    },
                );
            }
            i = i + 1;
        }
        assert(splits_into_letters_and_digits(chars@, run as int));
        Ok(())
    }
}

impl Validate for NetworkConfig {
    /// A network is valid when each of its interfaces is. A network
    /// without interfaces is valid.
    open spec fn is_valid(&self) -> bool {
        forall|i: int|
            0 <= i < self.interfaces@.len() ==> (#[trigger] self.interfaces@[i]).is_valid()
    }

    open spec fn failure(&self) -> ErrorView {
        ErrorView::MultipleErrors(failures(self.interfaces@))
    }

    /// Validates every interface and gathers all failures, in the order
    /// of the interfaces, into one aggregate.
    fn validate(&self) -> (r: Result<(), ValidationError>) {
        let mut errors: Vec<ValidationError> = Vec::new();
        validate_each(&self.interfaces, &mut errors);
        proof {
            lemma_no_failures(self.interfaces@);
        }
        report_aggregate(errors)
    }
}

} // verus!
