//! The capability that every entity of a configuration implements.

use crate::error::{views, ErrorView, ValidationError};
use vstd::prelude::*;

verus! {

/// An entity that can be checked against its invariant.
pub trait Validate {
    /// The invariant of the entity.
    spec fn is_valid(&self) -> bool;

    /// The error that validation reports for an entity that breaks its
    /// invariant.
    spec fn failure(&self) -> ErrorView;

    /// Checks the entity: `Ok` exactly when it is valid, and otherwise the
    /// error that [`Validate::failure`] describes.
    fn validate(&self) -> (r: Result<(), ValidationError>)
        ensures
            match r {
                Ok(_) => self.is_valid(),
                Err(e) => !self.is_valid() && e@ == self.failure(),
            },
    ;
}

/// What validation reports of `item`, if anything.
pub open spec fn fault<T: Validate>(item: T) -> Option<ErrorView> {
    if item.is_valid() {
        None
    } else {
        Some(item.failure())
    }
}

/// `fault` as a list of at most one failure.
pub open spec fn as_findings(fault: Option<ErrorView>) -> Seq<ErrorView> {
    match fault {
        Some(failure) => seq![failure],
        None => Seq::empty(),
    }
}

/// The failures of the items that are not valid, in the order of the items.
pub open spec fn failures<T: Validate>(items: Seq<T>) -> Seq<ErrorView> {
    items.filter_map(|item: T| fault(item))
}

/// No items have no failures, and one more item adds its failure, if it
/// has one, after those of the items before it.
pub proof fn lemma_failures_push<T: Validate>(items: Seq<T>, item: T)
    ensures
        failures(Seq::<T>::empty()) == Seq::<ErrorView>::empty(),
        failures(items.push(item)) == failures(items) + as_findings(fault(item)),
{
    assert(items.push(item).drop_last() =~= items);
}

/// Every item is valid exactly when there are no failures.
pub proof fn lemma_no_failures<T: Validate>(items: Seq<T>)
    ensures
        failures(items).len() == 0 <==> forall|i: int|
            0 <= i < items.len() ==> (#[trigger] items[i]).is_valid(),
        failures(items).len() <= items.len(),
    decreases items.len(),
{
    if items.len() > 0 {
        lemma_no_failures(items.drop_last());
        if failures(items).len() == 0 {
            assert forall|i: int| 0 <= i < items.len() implies (#[trigger] items[i]).is_valid() by {
                if i < items.len() - 1 {
                    assert(items.drop_last()[i] == items[i]);
                }
            }
        }
    }
}

/// Validates every item of `items` and appends the failures to `errors`,
/// in the order of the items.
pub fn validate_each<T: Validate>(items: &Vec<T>, errors: &mut Vec<ValidationError>)
    ensures
        views(final(errors)@) == views(old(errors)@) + failures(items@),
{
    let ghost before = views(errors@);
    let mut i: usize = 0;
    while i < items.len()
        invariant
            i <= items@.len(),
            views(errors@) == before + failures(items@.take(i as int)),
        decreases items@.len() - i,
    {
        let ghost seen = views(errors@);
        proof {
            assert(items@.take(i + 1) =~= items@.take(i as int).push(items@[i as int]));
            lemma_failures_push(items@.take(i as int), items@[i as int]);
        }
        match items[i].validate() {
            Ok(_) => {},
            Err(e) => {
                errors.push(e);
                assert(views(errors@) =~= seen.push(e@));
            },
        }
        i = i + 1;
    }
    assert(items@.take(i as int) =~= items@);
}

} // verus!
