use vstd::prelude::*;

use crate::deferred::{run, Signal};

verus! {

/// Running more looks at the state channel keeps the executions built so far
/// and builds any later one from a version at least as new.
proof fn lemma_run_extends(sigs: Seq<Signal>, n: int)
    requires
        0 <= n <= sigs.len(),
    ensures
        run(sigs.take(n)).version <= run(sigs).version,
        run(sigs.take(n)).launched.len() <= run(sigs).launched.len(),
        forall|k: int|
            0 <= k < run(sigs.take(n)).launched.len() ==> run(sigs).launched[k] == run(
                sigs.take(n),
            ).launched[k],
        forall|k: int|
            run(sigs.take(n)).launched.len() <= k < run(sigs).launched.len() ==> run(
                sigs,
            ).launched[k] >= run(sigs.take(n)).version,
    decreases sigs.len(),
{
    if n == sigs.len() {
        assert(sigs.take(n) =~= sigs);
    } else {
        let p = sigs.drop_last();
        lemma_run_extends(p, n);
        assert(p.take(n) =~= sigs.take(n));
        lemma_version_bound(p);
    }
}

/// Every execution was built from a version no newer than the current one.
proof fn lemma_version_bound(sigs: Seq<Signal>)
    ensures
        forall|k: int|
            0 <= k < run(sigs).launched.len() ==> #[trigger] run(sigs).launched[k] <= run(
                sigs,
            ).version,
    decreases sigs.len(),
{
    if sigs.len() > 0 {
        let p = sigs.drop_last();
        lemma_version_bound(p);
        let a = run(p);
        let b = run(sigs);
        assert(b == a.next(sigs.last()));
        assert forall|k: int| 0 <= k < b.launched.len() implies #[trigger] b.launched[k] <= b.version by {
            if k < a.launched.len() {
                assert(a.launched[k] <= a.version);
            }
        }
    }
}

/// Between two updates with nothing but updates in between, no execution is
/// built and each update adds one version.
proof fn lemma_updates_only(sigs: Seq<Signal>, i: int, m: int)
    requires
        0 <= i < m <= sigs.len(),
        forall|q: int| i <= q < m ==> #[trigger] sigs[q] == Signal::Update,
    ensures
        run(sigs.take(m)).launched == run(sigs.take(i)).launched,
        run(sigs.take(m)).version == run(sigs.take(i)).version + (m - i),
        !run(sigs.take(m)).running,
    decreases m - i,
{
    let t = sigs.take(m);
    assert(t.drop_last() =~= sigs.take(m - 1));
    assert(t.last() == sigs[m - 1]);
    if m - 1 > i {
        lemma_updates_only(sigs, i, m - 1);
    }
}

/// A state that is superseded before any execution starts is never seen.
///
/// Take the looks at a stateful task's state channel in order. If the looks
/// at positions `i` through `j` (with `i < j`) all found a new state value,
/// then no execution of the task is ever built from the state as it stood
/// after the update at `i`: that state was overtaken before the task was
/// started again. Every execution starts from the newest state.
pub proof fn lemma_superseded_never_launched(sigs: Seq<Signal>, i: int, j: int)
    requires
        0 <= i < j < sigs.len(),
        forall|m: int| i <= m <= j ==> #[trigger] sigs[m] == Signal::Update,
    ensures
        !run(sigs).launched.contains(run(sigs.take(i + 1)).version),
{
    let c = run(sigs.take(i + 1)).version;
    lemma_updates_only(sigs, i, i + 1);
    lemma_updates_only(sigs, i, j + 1);
    lemma_version_bound(sigs.take(i));
    lemma_run_extends(sigs, j + 1);
    let before = run(sigs.take(i)).launched;
    let all = run(sigs).launched;
    assert forall|k: int| 0 <= k < all.len() implies all[k] != c by {
        if k < before.len() {
            assert(all[k] == before[k]);
            assert(before[k] <= run(sigs.take(i)).version);
        }
    }
}

/// Every execution is built from the state that was current when it started:
/// after any looks at the state channel, the last execution built (if one is
/// in flight) carries the current version.
pub proof fn lemma_running_is_current(sigs: Seq<Signal>)
    ensures
        run(sigs).running ==> run(sigs).launched.len() > 0 && run(sigs).launched.last() == run(
            sigs,
        ).version,
    decreases sigs.len(),
{
    if sigs.len() > 0 {
        lemma_running_is_current(sigs.drop_last());
    }
}

} // verus!
