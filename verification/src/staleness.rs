//! Whether an artifact must be rebuilt.
//!
//! Times are read from the file system by the caller and handed in as
//! numbers: nanoseconds since the epoch. A file that is not there has no time.
use vstd::prelude::*;
use crate::target::ArtifactInfo;

verus! {

/// When something last happened.
#[derive(Clone, Copy, Debug, PartialEq, Eq, Structural)]
pub enum LastRun {
    /// It never happened.
    Never,
    /// It happened then.
    Time(u128),
}

/// Whether every entry of `times` is a time.
pub open spec fn all_known(times: Seq<LastRun>) -> bool {
    forall|i: int| 0 <= i < times.len() ==> #[trigger] times[i] is Time
}

/// The latest of `times`: `Never` for no times and when one of them is
/// `Never`, else the greatest.
pub open spec fn latest(times: Seq<LastRun>) -> LastRun
    decreases times.len(),
{
    if times.len() == 0 {
        LastRun::Never
    } else if times.len() == 1 {
        times[0]
    } else {
        match (latest(times.drop_last()), times.last()) {
            (LastRun::Time(a), LastRun::Time(b)) => if b > a {
                LastRun::Time(b)
            } else {
                LastRun::Time(a)
            },
            _ => LastRun::Never,
        }
    }
}

/// The earliest of `times`: `Never` for no times and when one of them is
/// `Never`, else the least.
pub open spec fn earliest(times: Seq<LastRun>) -> LastRun
    decreases times.len(),
{
    if times.len() == 0 {
        LastRun::Never
    } else if times.len() == 1 {
        times[0]
    } else {
        match (earliest(times.drop_last()), times.last()) {
            (LastRun::Time(a), LastRun::Time(b)) => if b < a {
                LastRun::Time(b)
            } else {
                LastRun::Time(a)
            },
            _ => LastRun::Never,
        }
    }
}

/// The latest time is a time exactly when there are times and all are
/// known; it is then one of them and none is later.
pub proof fn lemma_latest(times: Seq<LastRun>)
    ensures
        latest(times) is Time <==> times.len() > 0 && all_known(times),
        latest(times) is Time ==> times.contains(latest(times)) && forall|i: int|
            0 <= i < times.len() ==> (#[trigger] times[i])->Time_0 <= latest(times)->Time_0,
    decreases times.len(),
{
    if times.len() > 1 {
        let front = times.drop_last();
        lemma_latest(front);
        if latest(times) is Time {
            assert(all_known(times)) by {
                assert forall|i: int| 0 <= i < times.len() implies #[trigger] times[i] is Time by {
                    if i < front.len() {
                        assert(front[i] == times[i]);
                    }
                }
            }
            if latest(times) == times.last() {
                assert(times[times.len() - 1] == latest(times));
            } else {
                let k = choose|k: int| 0 <= k < front.len() && front[k] == latest(front);
                assert(times[k] == latest(times));
            }
            assert forall|i: int| 0 <= i < times.len() implies (#[trigger] times[i])->Time_0
                <= latest(times)->Time_0 by {
                if i < front.len() {
                    assert(front[i] == times[i]);
                }
            }
        } else if all_known(times) {
            assert(times[times.len() - 1] is Time);
            assert forall|i: int| 0 <= i < front.len() implies #[trigger] front[i] is Time by {
                assert(front[i] == times[i]);
            }
        }
    } else if times.len() == 1 {
        assert(times[0] == latest(times));
    }
}

/// The earliest time is a time exactly when there are times and all are
/// known; it is then one of them and none is earlier.
pub proof fn lemma_earliest(times: Seq<LastRun>)
    ensures
        earliest(times) is Time <==> times.len() > 0 && all_known(times),
        earliest(times) is Time ==> times.contains(earliest(times)) && forall|i: int|
            0 <= i < times.len() ==> (#[trigger] times[i])->Time_0 >= earliest(times)->Time_0,
    decreases times.len(),
{
    if times.len() > 1 {
        let front = times.drop_last();
        lemma_earliest(front);
        if earliest(times) is Time {
            assert(all_known(times)) by {
                assert forall|i: int| 0 <= i < times.len() implies #[trigger] times[i] is Time by {
                    if i < front.len() {
                        assert(front[i] == times[i]);
                    }
                }
            }
            if earliest(times) == times.last() {
                assert(times[times.len() - 1] == earliest(times));
            } else {
                let k = choose|k: int| 0 <= k < front.len() && front[k] == earliest(front);
                assert(times[k] == earliest(times));
            }
            assert forall|i: int| 0 <= i < times.len() implies (#[trigger] times[i])->Time_0
                >= earliest(times)->Time_0 by {
                if i < front.len() {
                    assert(front[i] == times[i]);
                }
            }
        } else if all_known(times) {
            assert(times[times.len() - 1] is Time);
            assert forall|i: int| 0 <= i < front.len() implies #[trigger] front[i] is Time by {
                assert(front[i] == times[i]);
            }
        }
    } else if times.len() == 1 {
        assert(times[0] == earliest(times));
    }
}

/// The latest of `times`.
pub fn latest_update_time(times: Vec<LastRun>) -> (r: LastRun)
    ensures
        r == latest(times@),
{
    if times.len() == 0 {
        return LastRun::Never;
    }
    let mut acc = times[0];
    let mut i: usize = 1;
    assert(times@.take(1) =~= seq![times@[0]]);
    while i < times.len()
        invariant
            1 <= i <= times.len(),
            acc == latest(times@.take(i as int)),
        decreases times.len() - i,
    {
        proof {
            assert(times@.take(i as int + 1).drop_last() == times@.take(i as int));
            assert(times@.take(i as int + 1).last() == times@[i as int]);
        }
        acc = match (acc, times[i]) {
            (LastRun::Time(a), LastRun::Time(b)) => if b > a {
                LastRun::Time(b)
            } else {
                LastRun::Time(a)
            },
            _ => LastRun::Never,
        };
        i += 1;
    }
    assert(times@.take(times.len() as int) == times@);
    acc
}

/// The earliest of `times`.
pub fn earliest_update_time(times: Vec<LastRun>) -> (r: LastRun)
    ensures
        r == earliest(times@),
{
    if times.len() == 0 {
        return LastRun::Never;
    }
    let mut acc = times[0];
    let mut i: usize = 1;
    assert(times@.take(1) =~= seq![times@[0]]);
    while i < times.len()
        invariant
            1 <= i <= times.len(),
            acc == earliest(times@.take(i as int)),
        decreases times.len() - i,
    {
        proof {
            assert(times@.take(i as int + 1).drop_last() == times@.take(i as int));
            assert(times@.take(i as int + 1).last() == times@[i as int]);
        }
        acc = match (acc, times[i]) {
            (LastRun::Time(a), LastRun::Time(b)) => if b < a {
                LastRun::Time(b)
            } else {
                LastRun::Time(a)
            },
            _ => LastRun::Never,
        };
        i += 1;
    }
    assert(times@.take(times.len() as int) == times@);
    acc
}

/// When the artifact was last built: the earliest time of its outputs where
/// it declares outputs, so that a missing output counts as never built;
/// else the time of its sentinel.
pub open spec fn last_built(declares_outputs: bool, sentinel: LastRun, outputs: Seq<LastRun>) -> LastRun {
    if declares_outputs {
        earliest(outputs)
    } else {
        sentinel
    }
}

/// When the artifact was last built, from the time of its sentinel and the
/// times of the files its declared outputs match.
pub fn last_run(artifact_info: &ArtifactInfo, sentinel: LastRun, outputs: Vec<LastRun>) -> (r:
    LastRun)
    ensures
        r == last_built(artifact_info.updates_paths is Some, sentinel, outputs@),
{
    match &artifact_info.updates_paths {
        Some(_) => earliest_update_time(outputs),
        None => sentinel,
    }
}

/// Whether a requirement was satisfied after `built`, or never.
pub open spec fn newer_or_missing(required: LastRun, built: u128) -> bool {
    match required {
        LastRun::Never => true,
        LastRun::Time(t) => t > built,
    }
}

/// Whether an artifact must be rebuilt. One without declared inputs always
/// must. One with declared inputs must if it has no sentinel, if it was
/// never built, if the latest of its inputs that exist is later than its
/// last build, or if a target it requires was satisfied after its last
/// build or never.
pub open spec fn stale(
    declares_inputs: bool,
    sentinel: LastRun,
    built: LastRun,
    inputs: LastRun,
    required: Seq<LastRun>,
) -> bool {
    !declares_inputs || sentinel is Never || match built {
        LastRun::Never => true,
        LastRun::Time(t) => (inputs is Time && inputs->Time_0 > t) || exists|i: int|
            0 <= i < required.len() && newer_or_missing(#[trigger] required[i], t),
    }
}

/// Whether the artifact must be rebuilt, from the time of its sentinel,
/// the time of its last build, the latest time of the inputs that exist
/// and, for each target it requires, the time of that target's sentinel.
pub fn should_rerun(
    artifact_info: &ArtifactInfo,
    sentinel: LastRun,
    built: LastRun,
    inputs: LastRun,
    required: &Vec<LastRun>,
) -> (r: bool)
    ensures
        r == stale(artifact_info.if_files_changed is Some, sentinel, built, inputs, required@),
{
    if artifact_info.if_files_changed.is_none() {
        return true;
    }
    if let LastRun::Never = sentinel {
        return true;
    }
    match built {
        LastRun::Never => true,
        LastRun::Time(t) => {
            if let LastRun::Time(changed) = inputs {
                if changed > t {
                    return true;
                }
            }
            let mut i: usize = 0;
            while i < required.len()
                invariant
                    i <= required.len(),
                    artifact_info.if_files_changed is Some,
                    sentinel is Time,
                    built == LastRun::Time(t),
                    !(inputs is Time && inputs->Time_0 > t),
                    forall|k: int| 0 <= k < i ==> !newer_or_missing(#[trigger] required@[k], t),
                decreases required.len() - i,
            {
                match required[i] {
                    LastRun::Never => {
                        assert(newer_or_missing(required@[i as int], t));
                        return true;
                    },
                    LastRun::Time(r) => {
                        if r > t {
                            assert(newer_or_missing(required@[i as int], t));
                            return true;
                        }
                    },
                }
                i += 1;
            }
            false
        },
    }
}

/// Building is idempotent: an artifact with declared inputs that has its
/// sentinel and was built, whose inputs are no later than the build and
/// whose requirements were all satisfied no later than the build, need not
/// be rebuilt.
pub proof fn lemma_up_to_date(sentinel: u128, built: u128, inputs: LastRun, required: Seq<LastRun>)
    requires
        inputs is Time ==> inputs->Time_0 <= built,
        forall|i: int|
            0 <= i < required.len() ==> (#[trigger] required[i]) is Time && required[i]->Time_0
                <= built,
    ensures
        !stale(true, LastRun::Time(sentinel), LastRun::Time(built), inputs, required),
{
}

/// A change forces a rebuild: an input later than the last build, or a
/// requirement satisfied after it or never, makes the artifact stale.
pub proof fn lemma_change_forces_rebuild(
    sentinel: LastRun,
    built: LastRun,
    inputs: LastRun,
    required: Seq<LastRun>,
    i: int,
)
    requires
        built is Time,
        (inputs is Time && inputs->Time_0 > built->Time_0) || (0 <= i < required.len()
            && newer_or_missing(required[i], built->Time_0)),
    ensures
        stale(true, sentinel, built, inputs, required),
{
}

} // verus!
