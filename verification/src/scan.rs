//! Counting what stands at the start of a sequence: the whitespace in front
//! of a text, the items that a filter drops in front of the one it yields.
use vstd::prelude::*;

verus! {

/// How many items at the start of `items` are of the class `class`.
pub open spec fn leading<A>(items: Seq<A>, class: spec_fn(A) -> bool) -> nat
    decreases items.len(),
{
    if items.len() > 0 && class(items[0]) {
        1 + leading(items.drop_first(), class)
    } else {
        0
    }
}

/// The leading items of a class end at the first item that is not of it, or
/// where the sequence ends.
pub proof fn lemma_leading_ends_at<A>(items: Seq<A>, class: spec_fn(A) -> bool, n: int)
    requires
        0 <= n <= items.len(),
        forall|i: int| 0 <= i < n ==> class(#[trigger] items[i]),
        n < items.len() ==> !class(items[n]),
    ensures
        leading(items, class) == n,
    decreases n,
{
    if n > 0 {
        lemma_leading_ends_at(items.drop_first(), class, n - 1);
    }
}

/// The leading items of a class are of that class, there are no more of them
/// than items, and the first behind them is not of the class.
pub proof fn lemma_leading_bounds<A>(items: Seq<A>, class: spec_fn(A) -> bool)
    ensures
        leading(items, class) <= items.len(),
        forall|i: int| 0 <= i < leading(items, class) ==> class(#[trigger] items[i]),
        leading(items, class) < items.len() ==> !class(items[leading(items, class) as int]),
    decreases items.len(),
{
    if items.len() > 0 && class(items[0]) {
        lemma_leading_bounds(items.drop_first(), class);
        assert forall|i: int| 0 <= i < leading(items, class) implies class(#[trigger] items[i]) by {
            if i > 0 {
                assert(items[i] == items.drop_first()[i - 1]);
            }
        }
    }
}

/// Behind the leading items of a class no item of it leads.
pub proof fn lemma_leading_skipped<A>(items: Seq<A>, class: spec_fn(A) -> bool)
    ensures
        leading(items.skip(leading(items, class) as int), class) == 0,
{
    lemma_leading_bounds(items, class);
}

} // verus!
