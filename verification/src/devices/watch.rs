//! Semantic device events and the projection of devices lost while in use.

use crate::audio::backend::{DeviceId, Direction};
use crate::devices::snapshot::{lemma_filter_none, snapshot_contains, DeviceSnapshot};
use vstd::prelude::*;

verus! {

#[derive(Debug, PartialEq, Eq)]
pub enum DeviceEvent {
    Added { id: DeviceId, dir: Direction },
    Removed { id: DeviceId, dir: Direction },
    DefaultChanged { dir: Direction, new: DeviceId },
    DeviceLost { id: DeviceId, dir: Direction },
}

impl Clone for DeviceEvent {
    fn clone(&self) -> (r: Self)
        ensures
            r == *self,
    {
        match self {
            DeviceEvent::Added { id, dir } => DeviceEvent::Added { id: id.clone(), dir: *dir },
            DeviceEvent::Removed { id, dir } => DeviceEvent::Removed { id: id.clone(), dir: *dir },
            DeviceEvent::DefaultChanged { dir, new } => DeviceEvent::DefaultChanged {
                dir: *dir,
                new: new.clone(),
            },
            DeviceEvent::DeviceLost { id, dir } => DeviceEvent::DeviceLost {
                id: id.clone(),
                dir: *dir,
            },
        }
    }
}

/// A device in use is lost when the snapshot no longer lists it in its direction.
pub open spec fn is_lost(next: DeviceSnapshot, used: (DeviceId, Direction)) -> bool {
    !snapshot_contains(next, used.0@, used.1)
}

/// `DeviceLost` for every device in use (in order) that is missing from the new snapshot.
pub open spec fn lost_events(in_use: Seq<(DeviceId, Direction)>, next: DeviceSnapshot) -> Seq<
    DeviceEvent,
> {
    in_use.filter(|u: (DeviceId, Direction)| is_lost(next, u)).map_values(
        |u: (DeviceId, Direction)| DeviceEvent::DeviceLost { id: u.0, dir: u.1 },
    )
}

/// Devices in use that vanished from the new snapshot -> `DeviceLost`.
pub fn project_lost(in_use: &[(DeviceId, Direction)], next: &DeviceSnapshot) -> (r: Vec<DeviceEvent>)
    ensures
        r@ == lost_events(in_use@, *next),
{
    let mut out: Vec<DeviceEvent> = Vec::new();
    let n = in_use.len();
    for i in 0..n
        invariant
            n == in_use@.len(),
            out@ == in_use@.take(i as int).filter(|u: (DeviceId, Direction)| is_lost(*next, u)).map_values(
                |u: (DeviceId, Direction)| DeviceEvent::DeviceLost { id: u.0, dir: u.1 },
            ),
    {
        let (id, dir) = &in_use[i];
        let ghost pred = |u: (DeviceId, Direction)| is_lost(*next, u);
        let ghost f = |u: (DeviceId, Direction)| DeviceEvent::DeviceLost { id: u.0, dir: u.1 };
        reveal_with_fuel(Seq::<_>::filter, 1);
        assert(in_use@.take(i + 1).drop_last() =~= in_use@.take(i as int));
        assert(in_use@.take(i + 1).last() == in_use@[i as int]);
        if !next.contains(id, *dir) {
            out.push(DeviceEvent::DeviceLost { id: id.clone(), dir: *dir });
            assert(out@ =~= in_use@.take(i + 1).filter(pred).map_values(f));
        } else {
            assert(out@ =~= in_use@.take(i + 1).filter(pred).map_values(f));
        }
    }
    assert(in_use@.take(n as int) =~= in_use@);
    out
}

/// A device still listed is never reported lost, and nothing is reported
/// when every device in use is still present.
pub proof fn law_present_devices_never_lost(in_use: Seq<(DeviceId, Direction)>, next: DeviceSnapshot)
    requires
        forall|i: int| 0 <= i < in_use.len() ==> snapshot_contains(next, (#[trigger] in_use[i]).0@, in_use[i].1),
    ensures
        lost_events(in_use, next).len() == 0,
{
    let pred = |u: (DeviceId, Direction)| is_lost(next, u);
    assert forall|i: int| 0 <= i < in_use.len() implies !pred(in_use[i]) by {}
    lemma_filter_none(in_use, pred);
}

/// A device in use is reported lost exactly when the new snapshot's list for
/// its direction (inputs for an input, outputs for an output) has no device
/// with its identifier; so a device still listed there is never reported
/// lost, and every reported loss names a device in use.
pub proof fn law_lost_exactly_when_missing_from_its_list(in_use: Seq<(DeviceId, Direction)>, next: DeviceSnapshot)
    ensures
        forall|used: (DeviceId, Direction)|
            #[trigger] is_lost(next, used) <==> (used.1 == Direction::Input && !exists|k: int|
                0 <= k < next.inputs@.len() && #[trigger] next.inputs@[k].id@ == used.0@) || (used.1
                == Direction::Output && !exists|k: int|
                0 <= k < next.outputs@.len() && #[trigger] next.outputs@[k].id@ == used.0@),
        forall|i: int|
            0 <= i < in_use.len() && in_use[i].1 == Direction::Output && (exists|k: int|
                0 <= k < next.outputs@.len() && #[trigger] next.outputs@[k].id@ == in_use[i].0@)
                ==> !in_use.filter(|u: (DeviceId, Direction)| is_lost(next, u)).contains(#[trigger] in_use[i]),
        lost_events(in_use, next).len() == in_use.filter(|u: (DeviceId, Direction)| is_lost(next, u)).len(),
{
    let pred = |u: (DeviceId, Direction)| is_lost(next, u);
    assert forall|i: int|
        0 <= i < in_use.len() && in_use[i].1 == Direction::Output && (exists|k: int|
            0 <= k < next.outputs@.len() && #[trigger] next.outputs@[k].id@ == in_use[i].0@)
            implies !in_use.filter(pred).contains(#[trigger] in_use[i]) by {
        if in_use.filter(pred).contains(in_use[i]) {
            let k = choose|k: int| 0 <= k < in_use.filter(pred).len() && in_use.filter(pred)[k] == in_use[i];
            in_use.lemma_filter_pred(pred, k);
        }
    }
}

} // verus!
