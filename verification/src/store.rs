//! Lists of live things, and the one place where they change.
//!
//! The rules of a tick only read the lists and say what is to go and what is
//! to come. What they say is carried out afterwards, all at once, so that no
//! rule ever meets a thing that another rule has already taken away.

use vstd::prelude::*;

verus! {

/// Whether `places` lists places below `bound` in rising order, none of them
/// twice.
pub open spec fn is_listing(places: Seq<usize>, bound: int) -> bool {
    &&& forall|a: int, b: int| 0 <= a < b < places.len() ==> places[a] < places[b]
    &&& forall|a: int| 0 <= a < places.len() ==> (#[trigger] places[a]) < bound
}

/// Adds `place` to a list of lower places.
pub(crate) fn list(places: &mut Vec<usize>, place: usize)
    requires
        is_listing(old(places)@, place as int),
    ensures
        is_listing(final(places)@, place + 1),
        forall|v: usize| final(places)@.contains(v) <==> old(places)@.contains(v) || v == place,
{
    places.push(place);
    assert(places@[places.len() - 1] == place);
    assert forall|v: usize| old(places)@.contains(v) implies places@.contains(v) by {
        let k = choose|k: int| 0 <= k < old(places)@.len() && old(places)@[k] == v;
        assert(places@[k] == v);
    }
}

/// A list of `count` marks, none of them set.
pub fn unmarked(count: usize) -> (marks: Vec<bool>)
    ensures
        marks@ == Seq::new(count as nat, |j: int| false),
{
    let mut marks: Vec<bool> = Vec::new();
    let mut n: usize = 0;
    while n < count
        invariant
            n <= count,
            marks.len() == n,
            forall|j: int| 0 <= j < n ==> !marks[j],
        decreases count - n,
    {
        marks.push(false);
        n += 1;
    }
    marks
}

/// What is left of `items`, from the place `from` on, once the things at the
/// places listed in `gone` are taken away. A place listed twice, or one that
/// `items` does not have, changes nothing.
pub open spec fn survivors<T>(items: Seq<T>, gone: Seq<usize>, from: int) -> Seq<T>
    decreases items.len() - from,
{
    if from < 0 || from >= items.len() {
        Seq::empty()
    } else if gone.contains(from as usize) {
        survivors(items, gone, from + 1)
    } else {
        seq![items[from]] + survivors(items, gone, from + 1)
    }
}

/// Takes away the things at the places listed in `gone`; the others keep
/// their order.
pub fn despawn<T>(items: &mut Vec<T>, gone: &Vec<usize>)
    ensures
        final(items)@ == survivors(old(items)@, gone@, 0),
{
    let count = items.len();
    let mut marks = unmarked(count);
    let mut g: usize = 0;
    while g < gone.len()
        invariant
            g <= gone.len(),
            marks.len() == count,
            forall|i: int|
                0 <= i < count ==> (#[trigger] marks[i] <==> gone@.subrange(0, g as int).contains(
                    i as usize,
                )),
        decreases gone.len() - g,
    {
        let place = gone[g];
        let ghost before = gone@.subrange(0, g as int);
        let ghost after = gone@.subrange(0, g + 1);
        assert(after =~= before.push(place));
        assert forall|v: usize| after.contains(v) <==> before.contains(v) || v == place by {
            if before.contains(v) {
                let k = choose|k: int| 0 <= k < before.len() && before[k] == v;
                assert(after[k] == v);
            }
            if v == place {
                assert(after[g as int] == v);
            }
        }
        if place < count {
            marks[place] = true;
        }
        g += 1;
    }
    assert(gone@.subrange(0, gone.len() as int) =~= gone@);
    let mut stack: Vec<T> = Vec::new();
    let mut i: usize = count;
    while i > 0
        invariant
            i <= count,
            count == old(items).len(),
            marks.len() == count,
            forall|k: int| 0 <= k < count ==> (#[trigger] marks[k] <==> gone@.contains(k as usize)),
            items@ == old(items)@.subrange(0, i as int),
            stack.len() == survivors(old(items)@, gone@, i as int).len(),
            forall|k: int|
                0 <= k < stack.len() ==> #[trigger] stack[k] == survivors(
                    old(items)@,
                    gone@,
                    i as int,
                )[stack.len() - 1 - k],
        decreases i,
    {
        let ghost rest = survivors(old(items)@, gone@, i as int);
        i -= 1;
        let item = items.pop();
        assert(items@ =~= old(items)@.subrange(0, i as int));
        match item {
            Some(item) => {
                if !marks[i] {
                    stack.push(item);
                    assert(survivors(old(items)@, gone@, i as int) == seq![old(items)@[i as int]]
                        + rest);
                }
            },
            None => {},
        }
    }
    let ghost all = survivors(old(items)@, gone@, 0);
    let total = stack.len();
    while stack.len() > 0
        invariant
            total == all.len(),
            items.len() + stack.len() == total,
            forall|k: int| 0 <= k < items.len() ==> #[trigger] items[k] == all[k],
            forall|k: int| 0 <= k < stack.len() ==> #[trigger] stack[k] == all[total - 1 - k],
        decreases stack.len(),
    {
        match stack.pop() {
            Some(item) => {
                items.push(item);
            },
            None => {},
        }
    }
    assert(items@ =~= all);
}

/// Adds the things in `new` at the end, in their order.
pub fn spawn<T>(items: &mut Vec<T>, new: Vec<T>)
    ensures
        final(items)@ == old(items)@ + new@,
{
    let mut new = new;
    items.append(&mut new);
}

/// Whatever is left was there before, at a place that is not listed. The
/// place is returned.
pub proof fn lemma_survivor_was_not_listed<T>(
    items: Seq<T>,
    gone: Seq<usize>,
    from: int,
    k: int,
) -> (place: int)
    requires
        0 <= from,
        0 <= k < survivors(items, gone, from).len(),
    ensures
        from <= place < items.len(),
        !gone.contains(place as usize),
        survivors(items, gone, from)[k] == items[place],
    decreases items.len() - from,
{
    if gone.contains(from as usize) {
        lemma_survivor_was_not_listed(items, gone, from + 1, k)
    } else if k == 0 {
        from
    } else {
        lemma_survivor_was_not_listed(items, gone, from + 1, k - 1)
    }
}

/// Whatever is at a place that is not listed is left. Its new place is
/// returned.
pub proof fn lemma_unlisted_survives<T>(
    items: Seq<T>,
    gone: Seq<usize>,
    from: int,
    place: int,
) -> (k: int)
    requires
        0 <= from <= place < items.len(),
        !gone.contains(place as usize),
    ensures
        0 <= k < survivors(items, gone, from).len(),
        survivors(items, gone, from)[k] == items[place],
    decreases items.len() - from,
{
    if from == place {
        0
    } else if gone.contains(from as usize) {
        lemma_unlisted_survives(items, gone, from + 1, place)
    } else {
        lemma_unlisted_survives(items, gone, from + 1, place) + 1
    }
}

/// Where one thing goes, the others stay as they are: what is left is the
/// list without that one thing.
pub proof fn lemma_one_gone<T>(items: Seq<T>, place: usize)
    requires
        place < items.len() <= usize::MAX,
    ensures
        survivors(items, seq![place], 0) == items.remove(place as int),
{
    lemma_one_gone_from(items, place, 0);
    assert(items.subrange(0, items.len() as int) =~= items);
    assert(items.remove(place as int) =~= items.remove(place as int).subrange(
        0,
        items.len() - 1,
    ));
}

proof fn lemma_one_gone_from<T>(items: Seq<T>, place: usize, from: int)
    requires
        place < items.len() <= usize::MAX,
        0 <= from <= items.len(),
    ensures
        survivors(items, seq![place], from) == if from <= place {
            items.remove(place as int).subrange(from, items.len() - 1)
        } else {
            items.subrange(from, items.len() as int)
        },
    decreases items.len() - from,
{
    let gone = seq![place];
    assert(gone[0] == place);
    if from < items.len() {
        lemma_one_gone_from(items, place, from + 1);
        assert(gone.contains(from as usize) <==> from == place);
        if from == place {
            assert(items.remove(place as int).subrange(from, items.len() - 1) =~= items.subrange(
                from + 1,
                items.len() as int,
            ));
        } else if from < place {
            assert(items.remove(place as int).subrange(from, items.len() - 1) =~= seq![items[from]]
                + items.remove(place as int).subrange(from + 1, items.len() - 1));
        } else {
            assert(items.subrange(from, items.len() as int) =~= seq![items[from]] + items.subrange(
                from + 1,
                items.len() as int,
            ));
        }
    } else {
        assert(items.subrange(from, items.len() as int) =~= Seq::<T>::empty());
    }
}

/// When one thing breaks into pieces, the list afterwards holds one thing
/// less than before and the pieces more.
pub proof fn lemma_count_after_split<T>(items: Seq<T>, place: usize, pieces: Seq<T>)
    requires
        place < items.len() <= usize::MAX,
    ensures
        (survivors(items, seq![place], 0) + pieces).len() == items.len() - 1 + pieces.len(),
{
    lemma_one_gone(items, place);
}

} // verus!
