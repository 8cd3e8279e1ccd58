//! Child processes: which background-launched ones are gone, and when a kiosk
//! child ends the compositor.

use vstd::prelude::*;

verus! {

/// What polling a background-launched child showed. A child that cannot be
/// waited for counts as gone.
#[derive(Clone, Copy, Debug, PartialEq, Eq, Structural)]
pub enum ChildPoll {
    Running,
    Exited,
    Failed,
}

/// The children that are still running, in their order.
pub open spec fn running(pids: Seq<u32>, polls: Seq<ChildPoll>) -> Seq<u32>
    decreases pids.len(),
{
    if pids.len() == 0 {
        Seq::empty()
    } else {
        let rest = running(pids.drop_last(), polls);
        if polls[pids.len() - 1] == ChildPoll::Running {
            rest.push(pids.last())
        } else {
            rest
        }
    }
}

/// The children that are gone, in their order.
pub open spec fn gone(pids: Seq<u32>, polls: Seq<ChildPoll>) -> Seq<u32>
    decreases pids.len(),
{
    if pids.len() == 0 {
        Seq::empty()
    } else {
        let rest = gone(pids.drop_last(), polls);
        if polls[pids.len() - 1] == ChildPoll::Running {
            rest
        } else {
            rest.push(pids.last())
        }
    }
}

/// Keeps the children that are still running and returns the others; `polls`
/// holds what polling each child showed.
pub fn reap(pids: &mut Vec<u32>, polls: &Vec<ChildPoll>) -> (exited: Vec<u32>)
    requires
        old(pids)@.len() == polls@.len(),
    ensures
        final(pids)@ == running(old(pids)@, polls@),
        exited@ == gone(old(pids)@, polls@),
{
    let ghost all = pids@;
    let mut kept: Vec<u32> = Vec::new();
    let mut exited: Vec<u32> = Vec::new();
    let mut i: usize = 0;
    assert(all.take(0) =~= Seq::<u32>::empty());
    while i < pids.len()
        invariant
            pids@ == all,
            all.len() == polls@.len(),
            i <= all.len(),
            kept@ == running(all.take(i as int), polls@),
            exited@ == gone(all.take(i as int), polls@),
        decreases all.len() - i,
    {
        proof {
            assert(all.take(i + 1).drop_last() =~= all.take(i as int));
            assert(all.take(i + 1).last() == all[i as int]);
        }
        if polls[i] == ChildPoll::Running {
            kept.push(pids[i]);
        } else {
            exited.push(pids[i]);
        }
        i = i + 1;
    }
    assert(all.take(all.len() as int) =~= all);
    *pids = kept;
    exited
}

/// No child is lost and none is counted twice: each is either still running
/// or gone.
pub proof fn law_every_child_is_accounted_for(pids: Seq<u32>, polls: Seq<ChildPoll>)
    requires
        pids.len() == polls.len(),
    ensures
        pids.to_multiset() == running(pids, polls).to_multiset().add(
            gone(pids, polls).to_multiset(),
        ),
{
    lemma_accounted_for(pids, polls);
}

proof fn lemma_accounted_for(pids: Seq<u32>, polls: Seq<ChildPoll>)
    ensures
        pids.to_multiset() == running(pids, polls).to_multiset().add(
            gone(pids, polls).to_multiset(),
        ),
    decreases pids.len(),
{
    broadcast use vstd::seq_lib::group_to_multiset_ensures;

    if pids.len() > 0 {
        lemma_accounted_for(pids.drop_last(), polls);
        assert(pids =~= pids.drop_last().push(pids.last()));
        assert(pids.to_multiset() =~= running(pids, polls).to_multiset().add(
            gone(pids, polls).to_multiset(),
        ));
    } else {
        assert(pids.to_multiset() =~= running(pids, polls).to_multiset().add(
            gone(pids, polls).to_multiset(),
        ));
    }
}

/// What polling a kiosk child showed. A child that a signal ended has no exit
/// code.
#[derive(Clone, Copy, Debug, PartialEq, Eq, Structural)]
pub enum KioskPoll {
    Running,
    Exited(Option<i32>),
    Failed,
}

/// The exit code that the compositor ends with because of its kiosk child, if
/// it ends: the child's own, or 1 where the child has none.
pub fn kiosk_exit(poll: KioskPoll) -> (r: Option<i32>)
    ensures
        r == match poll {
            KioskPoll::Running => None::<i32>,
            KioskPoll::Exited(Some(code)) => Some(code),
            KioskPoll::Exited(None) => Some(1i32),
            KioskPoll::Failed => Some(1i32),
        },
{
    match poll {
        KioskPoll::Running => None,
        KioskPoll::Exited(Some(code)) => Some(code),
        KioskPoll::Exited(None) => Some(1),
        KioskPoll::Failed => Some(1),
    }
}

/// A child is sorted by its own poll and by nothing else: the children are
/// sorted the same wherever the list is cut, and a single child is kept if it
/// is running and returned if it is not. Both lists keep the order.
pub proof fn law_children_are_sorted_one_by_one(
    pid: u32,
    poll: ChildPoll,
    a: Seq<u32>,
    a_polls: Seq<ChildPoll>,
    b: Seq<u32>,
    b_polls: Seq<ChildPoll>,
)
    requires
        a.len() == a_polls.len(),
        b.len() == b_polls.len(),
    ensures
        running(seq![pid], seq![poll]) == if poll == ChildPoll::Running {
            seq![pid]
        } else {
            Seq::<u32>::empty()
        },
        gone(seq![pid], seq![poll]) == if poll == ChildPoll::Running {
            Seq::<u32>::empty()
        } else {
            seq![pid]
        },
        running(a + b, a_polls + b_polls) == running(a, a_polls) + running(b, b_polls),
        gone(a + b, a_polls + b_polls) == gone(a, a_polls) + gone(b, b_polls),
    decreases b.len(),
{
    assert(seq![pid].drop_last() =~= Seq::<u32>::empty());
    reveal_with_fuel(running, 2);
    reveal_with_fuel(gone, 2);
    if b.len() == 0 {
        assert(a + b =~= a);
        assert(a_polls + b_polls =~= a_polls);
    } else {
        let n = b.len() - 1;
        law_children_are_sorted_one_by_one(pid, poll, a, a_polls, b.drop_last(), b_polls.take(n));
        assert((a + b).drop_last() =~= a + b.drop_last());
        lemma_polls_beyond(
            a + b.drop_last(),
            a_polls + b_polls.take(n),
            a_polls + b_polls,
        );
        lemma_polls_beyond(b.drop_last(), b_polls.take(n), b_polls);
        assert((a + b).last() == b.last());
        assert(running(a + b, a_polls + b_polls) =~= running(a, a_polls) + running(b, b_polls));
        assert(gone(a + b, a_polls + b_polls) =~= gone(a, a_polls) + gone(b, b_polls));
    }
}

/// Only the polls of the children themselves count.
proof fn lemma_polls_beyond(pids: Seq<u32>, polls: Seq<ChildPoll>, more: Seq<ChildPoll>)
    requires
        pids.len() <= polls.len() <= more.len(),
        forall|i: int| 0 <= i < pids.len() ==> #[trigger] polls[i] == more[i],
    ensures
        running(pids, polls) == running(pids, more),
        gone(pids, polls) == gone(pids, more),
    decreases pids.len(),
{
    if pids.len() > 0 {
        lemma_polls_beyond(pids.drop_last(), polls, more);
        assert(polls[pids.len() - 1] == more[pids.len() - 1]);
    }
}

/// A child that is running is kept and one that is not is returned; where no
/// process id stands twice, no child is both.
pub proof fn law_each_child_by_its_own_poll(pids: Seq<u32>, polls: Seq<ChildPoll>, i: int)
    requires
        pids.len() == polls.len(),
        0 <= i < pids.len(),
    ensures
        polls[i] == ChildPoll::Running ==> running(pids, polls).contains(pids[i]),
        polls[i] != ChildPoll::Running ==> gone(pids, polls).contains(pids[i]),
        pids.no_duplicates() ==> {
            &&& running(pids, polls).contains(pids[i]) <==> polls[i] == ChildPoll::Running
            &&& gone(pids, polls).contains(pids[i]) <==> polls[i] != ChildPoll::Running
        },
{
    lemma_sorted(pids, polls, pids[i]);
    let (r, g) = (running(pids, polls), gone(pids, polls));
    if pids.no_duplicates() {
        if r.contains(pids[i]) {
            let j = choose|j: int|
                0 <= j < pids.len() && #[trigger] pids[j] == pids[i] && polls[j]
                    == ChildPoll::Running;
            assert(i == j);
        }
        if g.contains(pids[i]) {
            let j = choose|j: int|
                0 <= j < pids.len() && #[trigger] pids[j] == pids[i] && polls[j]
                    != ChildPoll::Running;
            assert(i == j);
        }
    }
}

proof fn lemma_sorted(pids: Seq<u32>, polls: Seq<ChildPoll>, pid: u32)
    requires
        pids.len() <= polls.len(),
    ensures
        running(pids, polls).contains(pid) <==> exists|j: int|
            0 <= j < pids.len() && #[trigger] pids[j] == pid && polls[j] == ChildPoll::Running,
        gone(pids, polls).contains(pid) <==> exists|j: int|
            0 <= j < pids.len() && #[trigger] pids[j] == pid && polls[j] != ChildPoll::Running,
    decreases pids.len(),
{
    if pids.len() > 0 {
        let rest = pids.drop_last();
        let n = pids.len() - 1;
        lemma_sorted(rest, polls, pid);
        assert(forall|j: int| 0 <= j < n ==> rest[j] == pids[j]);
        let (r0, g0) = (running(rest, polls), gone(rest, polls));
        assert(r0.push(pids[n]).contains(pid) <==> r0.contains(pid) || pids[n] == pid) by {
            lemma_push_contains(r0, pids[n], pid);
        }
        assert(g0.push(pids[n]).contains(pid) <==> g0.contains(pid) || pids[n] == pid) by {
            lemma_push_contains(g0, pids[n], pid);
        }
        assert(r0.contains(pid) ==> exists|j: int|
            0 <= j < pids.len() && #[trigger] pids[j] == pid && polls[j] == ChildPoll::Running) by {
            if r0.contains(pid) {
                let j = choose|j: int|
                    0 <= j < rest.len() && #[trigger] rest[j] == pid && polls[j]
                        == ChildPoll::Running;
                assert(pids[j] == pid);
            }
        }
        assert(g0.contains(pid) ==> exists|j: int|
            0 <= j < pids.len() && #[trigger] pids[j] == pid && polls[j] != ChildPoll::Running) by {
            if g0.contains(pid) {
                let j = choose|j: int|
                    0 <= j < rest.len() && #[trigger] rest[j] == pid && polls[j]
                        != ChildPoll::Running;
                assert(pids[j] == pid);
            }
        }
        if exists|j: int|
            0 <= j < pids.len() && #[trigger] pids[j] == pid && polls[j] == ChildPoll::Running {
            let j = choose|j: int|
                0 <= j < pids.len() && #[trigger] pids[j] == pid && polls[j] == ChildPoll::Running;
            if j < n {
                assert(rest[j] == pid);
            }
        }
        if exists|j: int|
            0 <= j < pids.len() && #[trigger] pids[j] == pid && polls[j] != ChildPoll::Running {
            let j = choose|j: int|
                0 <= j < pids.len() && #[trigger] pids[j] == pid && polls[j] != ChildPoll::Running;
            if j < n {
                assert(rest[j] == pid);
            }
        }
    }
}

proof fn lemma_push_contains(list: Seq<u32>, last: u32, pid: u32)
    ensures
        list.push(last).contains(pid) <==> list.contains(pid) || last == pid,
{
    let all = list.push(last);
    if list.contains(pid) {
        let i = choose|i: int| 0 <= i < list.len() && list[i] == pid;
        assert(all[i] == pid);
    }
    if last == pid {
        assert(all[list.len() as int] == pid);
    }
    if all.contains(pid) && last != pid {
        let i = choose|i: int| 0 <= i < all.len() && all[i] == pid;
        assert(list[i] == pid);
    }
}

/// A kiosk child ends the compositor exactly when it no longer runs, with the
/// child's own exit code wherever it has one, and else with a failure.
pub proof fn law_kiosk_ends_the_compositor(poll: KioskPoll, exit: Option<i32>)
    requires
        call_ensures(kiosk_exit, (poll,), exit),
    ensures
        exit is None <==> poll == KioskPoll::Running,
        forall|code: i32| poll == KioskPoll::Exited(Some(code)) ==> exit == Some(code),
        poll is Failed || poll == KioskPoll::Exited(None) ==> exit == Some(1i32),
{
}

/// Reaping keeps each child that runs and returns each that does not, whatever
/// its place in the list. No child is lost, and none is made up.
pub proof fn law_reaping_sorts_each_child(
    pids: &mut Vec<u32>,
    polls: &Vec<ChildPoll>,
    exited: Vec<u32>,
    i: int,
)
    requires
        call_ensures(reap, (pids, polls), exited),
        old(pids)@.len() == polls@.len(),
        0 <= i < polls@.len(),
    ensures
        polls@[i] == ChildPoll::Running ==> final(pids)@.contains(old(pids)@[i]),
        polls@[i] != ChildPoll::Running ==> exited@.contains(old(pids)@[i]),
        old(pids)@.no_duplicates() ==> (exited@.contains(old(pids)@[i]) <==> polls@[i]
            != ChildPoll::Running) && (final(pids)@.contains(old(pids)@[i]) <==> polls@[i]
            == ChildPoll::Running),
        old(pids)@.to_multiset() == final(pids)@.to_multiset().add(exited@.to_multiset()),
{
    law_each_child_by_its_own_poll(old(pids)@, polls@, i);
    law_every_child_is_accounted_for(old(pids)@, polls@);
}

} // verus!
