//! The error taxonomy shared by every validator.

use vstd::prelude::*;

verus! {

/// One validation failure, or an ordered collection of them.
#[derive(Debug)]
pub enum ValidationError {
    /// The hostname of a host is not a hostname.
    InvalidHostname { hostname: String, reason: String },
    /// The address of a host is not a dotted quad.
    InvalidIpAddress { ip: String, reason: String },
    /// The name of a filesystem is too short, too long or holds a
    /// character that is not allowed.
    InvalidFilesystemName { name: String, reason: String },
    /// The mount point of a filesystem does not begin with `/`.
    InvalidMountPoint { path: String, reason: String },
    /// The name of a network interface is not letters followed by digits.
    InvalidNetworkInterface { name: String, reason: String },
    /// A text is not the text of a size.
    InvalidByteSize { input: String, reason: String },
    /// No host of the cluster is a manager.
    NoManagerHost,
    /// The storage has no filesystem.
    NoFilesystems,
    /// A field that must hold something holds nothing.
    EmptyConfiguration { field: String },
    /// Several failures, in the order in which they were found. An
    /// aggregate may hold aggregates.
    MultipleErrors(Vec<ValidationError>),
}

/// The mathematical model of a [`ValidationError`]: the same tree, with
/// every string replaced by its sequence of characters.
pub enum ErrorView {
    InvalidHostname { hostname: Seq<char>, reason: Seq<char> },
    InvalidIpAddress { ip: Seq<char>, reason: Seq<char> },
    InvalidFilesystemName { name: Seq<char>, reason: Seq<char> },
    InvalidMountPoint { path: Seq<char>, reason: Seq<char> },
    InvalidNetworkInterface { name: Seq<char>, reason: Seq<char> },
    InvalidByteSize { input: Seq<char>, reason: Seq<char> },
    NoManagerHost,
    NoFilesystems,
    EmptyConfiguration { field: Seq<char> },
    MultipleErrors(Seq<ErrorView>),
}

impl View for ValidationError {
    type V = ErrorView;

    open spec fn view(&self) -> ErrorView
        decreases self,
    {
        match self {
            ValidationError::InvalidHostname { hostname, reason } => ErrorView::InvalidHostname {
                hostname: hostname@,
                reason: reason@,
            },
            ValidationError::InvalidIpAddress { ip, reason } => ErrorView::InvalidIpAddress {
                ip: ip@,
                reason: reason@,
            },
            ValidationError::InvalidFilesystemName { name, reason } => {
                ErrorView::InvalidFilesystemName { name: name@, reason: reason@ }
            },
            ValidationError::InvalidMountPoint { path, reason } => ErrorView::InvalidMountPoint {
                path: path@,
                reason: reason@,
            },
            ValidationError::InvalidNetworkInterface { name, reason } => {
                ErrorView::InvalidNetworkInterface { name: name@, reason: reason@ }
            },
            ValidationError::InvalidByteSize { input, reason } => ErrorView::InvalidByteSize {
                input: input@,
                reason: reason@,
            },
            ValidationError::NoManagerHost => ErrorView::NoManagerHost,
            ValidationError::NoFilesystems => ErrorView::NoFilesystems,
            ValidationError::EmptyConfiguration { field } => ErrorView::EmptyConfiguration {
                field: field@,
            },
            ValidationError::MultipleErrors(errors) => ErrorView::MultipleErrors(
                Seq::new(
                    errors@.len(),
                    |i: int|
                        if 0 <= i < errors@.len() {
                            errors@[i].view()
                        } else {
                            arbitrary()
                        },
                ),
            ),
        }
    }
}

/// The models of a list of errors, in order.
pub open spec fn views(errors: Seq<ValidationError>) -> Seq<ErrorView> {
    errors.map_values(|e: ValidationError| e@)
}

/// An aggregate is modelled by the models of the errors that it holds.
pub proof fn lemma_view_of_aggregate(errors: Vec<ValidationError>)
    ensures
        ValidationError::MultipleErrors(errors)@ == ErrorView::MultipleErrors(views(errors@)),
{
    reveal_with_fuel(<ValidationError as View>::view, 2);
    assert(ValidationError::MultipleErrors(errors)@->MultipleErrors_0 =~= views(errors@));
}

/// The text of a single failure about `value`: the label, the value
/// between single quotes, a colon and a space, and the reason.
pub open spec fn labelled(label: Seq<char>, value: Seq<char>, reason: Seq<char>) -> Seq<char> {
    label + seq!['\''] + value + seq!['\'', ':', ' '] + reason
}

impl ErrorView {
    /// The message of the error. A single failure has a message of one
    /// line, without a line break at its end. An aggregate is flattened:
    /// it has one line for each single failure that it holds at any depth,
    /// in order, each ended by a line break.
    pub open spec fn message(self) -> Seq<char>
        decreases self,
    {
        match self {
            ErrorView::InvalidHostname { hostname, reason } => labelled(
                "Invalid hostname "@,
                hostname,
                reason,
            ),
            ErrorView::InvalidIpAddress { ip, reason } => labelled(
                "Invalid IP address "@,
                ip,
                reason,
            ),
            ErrorView::InvalidFilesystemName { name, reason } => labelled(
                "Invalid filesystem name "@,
                name,
                reason,
            ),
            ErrorView::InvalidMountPoint { path, reason } => labelled(
                "Invalid mount point "@,
                path,
                reason,
            ),
            ErrorView::InvalidNetworkInterface { name, reason } => labelled(
                "Invalid network interface "@,
                name,
                reason,
            ),
            ErrorView::InvalidByteSize { input, reason } => labelled(
                "Invalid byte size "@,
                input,
                reason,
            ),
            ErrorView::NoManagerHost => "At least one Manager host is required"@,
            ErrorView::NoFilesystems => "Storage configuration must have at least one filesystem"@,
            ErrorView::EmptyConfiguration { field } => "Configuration field '"@ + field
                + "' cannot be empty"@,
            ErrorView::MultipleErrors(errors) => lines(errors),
        }
    }
}

/// The lines of `errors`: the message of every single failure among them,
/// in order and each followed by a line break. An aggregate among them
/// gives the lines of its own errors and nothing more, so nesting leaves
/// no trace and no line is empty.
pub open spec fn lines(errors: Seq<ErrorView>) -> Seq<char>
    decreases errors,
{
    if errors.len() == 0 {
        Seq::empty()
    } else {
        lines(errors.drop_last()) + match errors.last() {
            ErrorView::MultipleErrors(inner) => lines(inner),
            single => single.message() + seq!['\n'],
        }
    }
}

/// The lines of two lists, one after the other, are the lines of the one
/// followed by the lines of the other.
pub proof fn lemma_lines_concat(first: Seq<ErrorView>, second: Seq<ErrorView>)
    ensures
        lines(first + second) == lines(first) + lines(second),
    decreases second.len(),
{
    if second.len() > 0 {
        lemma_lines_concat(first, second.drop_last());
        assert((first + second).drop_last() =~= first + second.drop_last());
    }
}

/// Display flattens: an aggregate inside a list reads as its own errors
/// would in its place.
pub proof fn lemma_lines_flatten(
    before: Seq<ErrorView>,
    inner: Seq<ErrorView>,
    after: Seq<ErrorView>,
)
    ensures
        lines(before + seq![ErrorView::MultipleErrors(inner)] + after) == lines(
            before + inner + after,
        ),
{
    let nested = seq![ErrorView::MultipleErrors(inner)];
    assert(lines(nested) =~= lines(inner)) by {
        reveal_with_fuel(lines, 2);
    }
    lemma_lines_concat(before, nested);
    lemma_lines_concat(before + nested, after);
    lemma_lines_concat(before, inner);
    lemma_lines_concat(before + inner, after);
}

/// How the failures found in one entity are reported: a single failure as
/// it is, several as an aggregate in the order in which they were found.
pub open spec fn single_or_aggregate(findings: Seq<ErrorView>) -> ErrorView
    recommends
        findings.len() > 0,
{
    if findings.len() == 1 {
        findings[0]
    } else {
        ErrorView::MultipleErrors(findings)
    }
}

/// Reports the failures found in one entity: `Ok` when there are none, the
/// failure itself when there is one, and an aggregate of all of them
/// otherwise.
pub fn report_single_or_aggregate(errors: Vec<ValidationError>) -> (r: Result<
    (),
    ValidationError,
>)
    ensures
        match r {
            Ok(_) => errors@.len() == 0,
            Err(e) => errors@.len() > 0 && e@ == single_or_aggregate(views(errors@)),
        },
{
    let mut errors = errors;
    if errors.len() == 0 {
        Ok(())
    } else if errors.len() == 1 {
        Err(errors.remove(0))
    } else {
        proof {
            lemma_view_of_aggregate(errors);
        }
        Err(ValidationError::MultipleErrors(errors))
    }
}

/// Reports the failures gathered over a collection: `Ok` when there are
/// none, and otherwise an aggregate of them in the order in which they
/// were found, also when there is only one.
pub fn report_aggregate(errors: Vec<ValidationError>) -> (r: Result<(), ValidationError>)
    ensures
        match r {
            Ok(_) => errors@.len() == 0,
            Err(e) => errors@.len() > 0 && e@ == ErrorView::MultipleErrors(views(errors@)),
        },
{
    if errors.len() == 0 {
        Ok(())
    } else {
        proof {
            lemma_view_of_aggregate(errors);
        }
        Err(ValidationError::MultipleErrors(errors))
    }
}

/// Writes out a failure about `value`.
fn labelled_text(label: &str, value: &str, reason: &str) -> (s: String)
    ensures
        s@ == labelled(label@, value@, reason@),
{
    proof {
        reveal_strlit("'");
        reveal_strlit("': ");
    }
    let mut s: String = label.to_string();
    s.append("'");
    s.append(value);
    s.append("': ");
    s.append(reason);
    s
}

impl ValidationError {
    /// The message of the error, for display: one line for a single
    /// failure, and for an aggregate one line for each single failure in
    /// it, in order.
    pub fn message(&self) -> (s: String)
        ensures
            s@ == self@.message(),
        decreases self,
    {
        match self {
            ValidationError::InvalidHostname { hostname, reason } => labelled_text(
                "Invalid hostname ",
                hostname.as_str(),
                reason.as_str(),
            ),
            ValidationError::InvalidIpAddress { ip, reason } => labelled_text(
                "Invalid IP address ",
                ip.as_str(),
                reason.as_str(),
            ),
            ValidationError::InvalidFilesystemName { name, reason } => labelled_text(
                "Invalid filesystem name ",
                name.as_str(),
                reason.as_str(),
            ),
            ValidationError::InvalidMountPoint { path, reason } => labelled_text(
                "Invalid mount point ",
                path.as_str(),
                reason.as_str(),
            ),
            ValidationError::InvalidNetworkInterface { name, reason } => labelled_text(
                "Invalid network interface ",
                name.as_str(),
                reason.as_str(),
            ),
            ValidationError::InvalidByteSize { input, reason } => labelled_text(
                "Invalid byte size ",
                input.as_str(),
                reason.as_str(),
            ),
            ValidationError::NoManagerHost => "At least one Manager host is required".to_string(),
            ValidationError::NoFilesystems => {
                "Storage configuration must have at least one filesystem".to_string()
            },
            ValidationError::EmptyConfiguration { field } => {
                let mut s: String = "Configuration field '".to_string();
                s.append(field.as_str());
                s.append("' cannot be empty");
                s
            },
            ValidationError::MultipleErrors(errors) => {
                proof {
                    lemma_view_of_aggregate(*errors);
                }
                let mut out: String = String::new();
                push_lines(errors, &mut out);
                out
            },
        }
    }
}

/// Appends the lines of `errors` to `out`: one line for each single
/// failure, in order, whatever the nesting.
fn push_lines(errors: &Vec<ValidationError>, out: &mut String)
    ensures
        final(out)@ == old(out)@ + lines(views(errors@)),
    decreases errors,
{
    proof {
        reveal_strlit("\n");
    }
    let ghost before = out@;
    let mut i: usize = 0;
    while i < errors.len()
        invariant
            i <= errors@.len(),
            "\n"@ == seq!['\n'],
            out@ == before + lines(views(errors@).take(i as int)),
        decreases errors@.len() - i,
    {
        assert(views(errors@).take(i + 1).drop_last() =~= views(errors@).take(i as int));
        match &errors[i] {
            ValidationError::MultipleErrors(inner) => {
                proof {
                    lemma_view_of_aggregate(*inner);
                }
                push_lines(inner, out);
            },
            single => {
                let line: String = single.message();
                out.append(line.as_str());
                out.append("\n");
            },
        }
        i = i + 1;
    }
    assert(views(errors@).take(i as int) =~= views(errors@));
}

} // verus!
