//! Splitting a collection of subscriptions in two, order kept: the joining
//! of a collection hands those driven by OS threads to a loop of their own.
use vstd::prelude::*;

verus! {

/// The items of `s` whose mark in `marks` equals `want`, in order.
pub open spec fn marked<X>(s: Seq<X>, marks: Seq<bool>, want: bool) -> Seq<X>
    decreases s.len(),
{
    if s.len() == 0 {
        s
    } else if marks[s.len() - 1] == want {
        marked(s.drop_last(), marks.drop_last(), want).push(s.last())
    } else {
        marked(s.drop_last(), marks.drop_last(), want)
    }
}

/// Law: the split loses and duplicates nothing: the two parts together hold
/// as many items as the whole.
pub proof fn law_split_keeps_count<X>(s: Seq<X>, marks: Seq<bool>)
    requires
        marks.len() == s.len(),
    ensures
        marked(s, marks, false).len() + marked(s, marks, true).len() == s.len(),
    decreases s.len(),
{
    if s.len() > 0 {
        law_split_keeps_count(s.drop_last(), marks.drop_last());
    }
}

/// Moves the items whose mark is set out of `items`, in order, and returns
/// them; the unmarked ones stay, in order.
pub fn split_off_marked<X>(items: &mut Vec<X>, marks: &Vec<bool>) -> (moved: Vec<X>)
    requires
        marks@.len() == old(items)@.len(),
    ensures
        final(items)@ == marked(old(items)@, marks@, false),
        moved@ == marked(old(items)@, marks@, true),
{
    let mut rest: Vec<X> = Vec::new();
    std::mem::swap(&mut rest, items);
    let ghost all = rest@;
    let mut moved: Vec<X> = Vec::new();
    let n = rest.len();
    let mut i: usize = 0;
    proof {
        assert(all.take(0) =~= Seq::<X>::empty());
    }
    while i < n
        invariant
            0 <= i <= n,
            n == all.len(),
            marks@.len() == n,
            rest@ == all.skip(i as int),
            items@ == marked(all.take(i as int), marks@.take(i as int), false),
            moved@ == marked(all.take(i as int), marks@.take(i as int), true),
        decreases n - i,
    {
        let ghost prev = rest@;
        let x = rest.remove(0);
        proof {
            assert(x == all[i as int]);
            assert(rest@ =~= all.skip(i + 1));
            assert(all.take(i + 1).drop_last() =~= all.take(i as int));
            assert(marks@.take(i + 1).drop_last() =~= marks@.take(i as int));
            assert(all.take(i + 1).last() == x);
            assert(marks@.take(i + 1)[i as int] == marks@[i as int]);
        }
        if marks[i] {
            moved.push(x);
        } else {
            items.push(x);
        }
        i = i + 1;
    }
    proof {
        assert(all.take(n as int) =~= all);
        assert(marks@.take(n as int) =~= marks@);
    }
    moved
}

} // verus!
