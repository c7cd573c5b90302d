//! Splitting text on a separator character.
//!
//! [`split`] and [`join`] are inverse to each other on lists of parts that
//! do not hold the separator, which is what makes [`split`] *the* split:
//! see [`lemma_split_is_sound`] and [`lemma_split_of_join`].

use vstd::prelude::*;

verus! {

/// `sep` does not occur in `s`.
pub open spec fn free_of(s: Seq<char>, sep: char) -> bool {
    forall|i: int| 0 <= i < s.len() ==> #[trigger] s[i] != sep
}

/// The parts of `s` that its occurrences of `sep` delimit, in order.
///
/// A text with `n` separators has `n + 1` parts; a part is empty where two
/// separators are adjacent, or where one begins or ends the text.
pub open spec fn split(s: Seq<char>, sep: char) -> Seq<Seq<char>>
    decreases s.len(),
{
    if s.len() == 0 {
        seq![Seq::empty()]
    } else {
        let parts = split(s.drop_last(), sep);
        if s.last() == sep {
            parts.push(Seq::empty())
        } else {
            parts.drop_last().push(parts.last().push(s.last()))
        }
    }
}

/// The parts, written one after another with `sep` between neighbours.
pub open spec fn join(parts: Seq<Seq<char>>, sep: char) -> Seq<char>
    decreases parts.len(),
{
    if parts.len() == 0 {
        Seq::empty()
    } else if parts.len() == 1 {
        parts[0]
    } else {
        join(parts.drop_last(), sep).push(sep) + parts.last()
    }
}

/// Splitting yields at least one part, no part holds the separator, and
/// joining the parts gives the text back.
pub proof fn lemma_split_is_sound(s: Seq<char>, sep: char)
    ensures
        split(s, sep).len() >= 1,
        forall|k: int| 0 <= k < split(s, sep).len() ==> free_of(#[trigger] split(s, sep)[k], sep),
        join(split(s, sep), sep) == s,
    decreases s.len(),
{
    if s.len() > 0 {
        let parts = split(s.drop_last(), sep);
        let whole = split(s, sep);
        lemma_split_is_sound(s.drop_last(), sep);
        if s.last() == sep {
            assert(whole.drop_last() =~= parts);
        } else {
            if parts.len() > 1 {
                assert(whole.drop_last() =~= parts.drop_last());
            }
            assert(join(whole, sep) =~= join(parts, sep).push(s.last()));
        }
    }
}

/// Appending text without a separator lengthens the last part.
pub proof fn lemma_split_append(s: Seq<char>, t: Seq<char>, sep: char)
    requires
        free_of(t, sep),
    ensures
        split(s + t, sep) == split(s, sep).drop_last().push(split(s, sep).last() + t),
    decreases t.len(),
{
    lemma_split_is_sound(s, sep);
    if t.len() > 0 {
        let shorter = t.drop_last();
        lemma_split_append(s, shorter, sep);
        assert((s + t).drop_last() =~= s + shorter);
        assert(split(s + shorter, sep).last().push(t.last()) =~= split(s, sep).last() + t);
    }
}

/// A non-empty list of parts, none of which holds the separator, is what
/// splitting their join gives.
pub proof fn lemma_split_of_join(parts: Seq<Seq<char>>, sep: char)
    requires
        parts.len() >= 1,
        forall|k: int| 0 <= k < parts.len() ==> free_of(#[trigger] parts[k], sep),
    ensures
        split(join(parts, sep), sep) == parts,
    decreases parts.len(),
{
    if parts.len() == 1 {
        lemma_split_append(Seq::empty(), parts[0], sep);
    } else {
        let init = parts.drop_last();
        lemma_split_of_join(init, sep);
        let upto = join(init, sep).push(sep);
        assert(upto.drop_last() =~= join(init, sep));
        lemma_split_append(upto, parts.last(), sep);
    }
}

/// Where each part of `s` begins and ends: the `k`-th pair `(from, to)`
/// delimits the `k`-th part of [`split`], as `s[from..to]`.
pub fn split_bounds(s: &[char], sep: char) -> (bounds: Vec<(usize, usize)>)
    ensures
        bounds@.len() == split(s@, sep).len(),
        forall|k: int|
            0 <= k < bounds@.len() ==> {
                &&& (#[trigger] bounds@[k]).0 <= bounds@[k].1 <= s@.len()
                &&& s@.subrange(bounds@[k].0 as int, bounds@[k].1 as int) == split(s@, sep)[k]
            },
{
    let n: usize = s.len();
    let mut bounds: Vec<(usize, usize)> = Vec::new();
    let mut start: usize = 0;
    let mut i: usize = 0;
    while i < n
        invariant
            n == s@.len(),
            start <= i <= n,
            bounds@.len() + 1 == split(s@.take(i as int), sep).len(),
            split(s@.take(i as int), sep).last() == s@.subrange(start as int, i as int),
            forall|k: int|
                0 <= k < bounds@.len() ==> {
                    &&& (#[trigger] bounds@[k]).0 <= bounds@[k].1 <= i
                    &&& s@.subrange(bounds@[k].0 as int, bounds@[k].1 as int) == split(
                        s@.take(i as int),
                        sep,
                    )[k]
                },
        decreases n - i,
    {
        assert(s@.take(i + 1).drop_last() =~= s@.take(i as int));
        if s[i] == sep {
            bounds.push((start, i));
            start = i + 1;
        }
        i = i + 1;
    }
    assert(s@.take(n as int) =~= s@);
    bounds.push((start, n));
    bounds
}

} // verus!
