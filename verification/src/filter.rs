//! Adapters: a source of tokens behind a filter that drops the tokens of one
//! category and lets everything else through as it is.
use crate::scan::{leading, lemma_leading_ends_at};
use crate::stream::{item_view, Item, MetaResult, TokenSource};
use vstd::prelude::*;

verus! {

/// A test on tokens: says which tokens an adapter drops.
pub trait TokenPredicate<T: View> {
    /// Whether `token` is dropped.
    spec fn excluded(&self, token: T::V) -> bool;

    /// Tests one token.
    fn excludes(&self, token: &T) -> (out: bool)
        ensures
            out == self.excluded(token@),
    ;
}

/// Whether an item passes the filter: every error does, and every token that
/// the predicate does not exclude.
pub open spec fn passes<T: View, P: TokenPredicate<T>>(predicate: P, item: Item<T::V>) -> bool {
    match item {
        Ok(meta) => !predicate.excluded(meta.token),
        Err(_) => true,
    }
}

/// The items that pass the filter, in their order, each as it was.
pub open spec fn surviving<T: View, P: TokenPredicate<T>>(
    predicate: P,
    items: Seq<Item<T::V>>,
) -> Seq<Item<T::V>> {
    items.filter(|item: Item<T::V>| passes::<T, P>(predicate, item))
}

/// What passes of a sequence is its first item, where that passes, followed
/// by what passes of the rest.
pub proof fn lemma_surviving_unfolds<T: View, P: TokenPredicate<T>>(
    predicate: P,
    items: Seq<Item<T::V>>,
)
    requires
        items.len() > 0,
    ensures
        surviving::<T, P>(predicate, items) == if passes::<T, P>(predicate, items[0]) {
            seq![items[0]] + surviving::<T, P>(predicate, items.drop_first())
        } else {
            surviving::<T, P>(predicate, items.drop_first())
        },
{
    let keep = |item: Item<T::V>| passes::<T, P>(predicate, item);
    let head = seq![items[0]];
    assert(items =~= head + items.drop_first());
    Seq::filter_distributes_over_add(head, items.drop_first(), keep);
    reveal_with_fuel(Seq::filter, 2);
    assert(head.drop_last() =~= Seq::<Item<T::V>>::empty());
    if keep(items[0]) {
        assert(head.filter(keep) =~= head);
    } else {
        assert(head.filter(keep) =~= Seq::<Item<T::V>>::empty());
        assert(Seq::<Item<T::V>>::empty() + items.drop_first().filter(keep)
            =~= items.drop_first().filter(keep));
    }
}

/// Nothing passes of nothing.
pub proof fn lemma_surviving_of_none<T: View, P: TokenPredicate<T>>(predicate: P)
    ensures
        surviving::<T, P>(predicate, Seq::empty()) == Seq::<Item<T::V>>::empty(),
{
    reveal_with_fuel(Seq::filter, 1);
}

/// A source behind a filter. It is a source itself, so adapters stack.
pub struct Filter<S, P> {
    inner: S,
    predicate: P,
}

impl<S, P> Filter<S, P> {
    /// The source that is filtered.
    pub closed spec fn inner(&self) -> S {
        self.inner
    }

    /// The predicate that says which tokens are dropped.
    pub closed spec fn predicate(&self) -> P {
        self.predicate
    }

    /// Puts `inner` behind a filter that drops what `predicate` excludes.
    pub fn wrap(inner: S, predicate: P) -> (filter: Self)
        ensures
            filter.inner() == inner,
            filter.predicate() == predicate,
    {
        Filter { inner, predicate }
    }

    /// Takes the filter away and hands out the source as far as it was
    /// pulled.
    pub fn into_inner(self) -> (inner: S)
        ensures
            inner == self.inner(),
    {
        self.inner
    }
}

/// How many items at the start of `items` the filter drops before one
/// passes or the items end.
pub open spec fn dropped_in_front<T: View, P: TokenPredicate<T>>(
    predicate: P,
    items: Seq<Item<T::V>>,
) -> nat {
    leading(items, |item: Item<T::V>| !passes::<T, P>(predicate, item))
}

impl<'a, T: View, S: TokenSource<'a, T>, P: TokenPredicate<T>> TokenSource<'a, T> for Filter<S, P> {
    open spec fn pending(&self) -> Seq<Item<T::V>> {
        surviving::<T, P>(self.predicate(), self.inner().pending())
    }

    /// Pulls the inner source until an item passes or the source ends, and no
    /// further. An error passes at once and unchanged; a token that passes
    /// keeps its position and its lexeme.
    fn next_token(&mut self) -> (item: Option<MetaResult<'a, T>>)
        ensures
            final(self).predicate() == old(self).predicate(),
            ({
                let items = old(self).inner().pending();
                let dropped = dropped_in_front::<T, P>(old(self).predicate(), items);
                match item {
                    Some(found) => {
                        &&& dropped < items.len()
                        &&& item_view(found) == items[dropped as int]
                        &&& final(self).inner().pending() == items.skip(dropped as int + 1)
                    },
                    None => dropped == items.len() && final(self).inner().pending().len() == 0,
                }
            }),
    {
        let ghost items = self.inner().pending();
        let ghost class = |item: Item<T::V>| !passes::<T, P>(self.predicate(), item);
        let ghost mut pulled: int = 0;
        proof {
            assert(items.skip(0) =~= items);
        }
        loop
            invariant
                self.predicate() == old(self).predicate(),
                items == old(self).inner().pending(),
                class == (|item: Item<T::V>| !passes::<T, P>(old(self).predicate(), item)),
                0 <= pulled <= items.len(),
                self.inner().pending() == items.skip(pulled),
                forall|i: int| 0 <= i < pulled ==> class(#[trigger] items[i]),
                surviving::<T, P>(self.predicate(), self.inner().pending()) == surviving::<T, P>(
                    old(self).predicate(),
                    items,
                ),
            decreases self.inner().pending().len(),
        {
            let ghost before = self.inner().pending();
            let next = self.inner.next_token();
            proof {
                if before.len() > 0 {
                    lemma_surviving_unfolds::<T, P>(self.predicate(), before);
                    assert(before.drop_first() =~= items.skip(pulled + 1));
                    assert(before[0] == items[pulled]);
                } else {
                    lemma_surviving_of_none::<T, P>(self.predicate());
                    assert(self.inner().pending() =~= Seq::<Item<T::V>>::empty());
                }
            }
            match next {
                Some(Ok(meta)) => {
                    if !self.predicate.excludes(&meta.token) {
                        proof {
                            lemma_leading_ends_at(items, class, pulled);
                        }
                        return Some(Ok(meta));
                    }
                },
                Some(Err(e)) => {
                    proof {
                        lemma_leading_ends_at(items, class, pulled);
                    }
                    return Some(Err(e));
                },
                None => {
                    proof {
                        lemma_leading_ends_at(items, class, pulled);
                    }
                    return None;
                },
            }
            proof {
                pulled = pulled + 1;
            }
        }
    }
}

} // verus!
