//! Device snapshots and their diff. A snapshot is never mutated in place:
//! a refresh produces new lists.

use crate::audio::backend::{find_device, has_id, DeviceId, DeviceInfo, Direction};
use crate::devices::watch::DeviceEvent;
use vstd::prelude::*;

verus! {

#[derive(Debug, PartialEq)]
pub struct DeviceSnapshot {
    pub inputs: Vec<DeviceInfo>,
    pub outputs: Vec<DeviceInfo>,
}

impl Clone for DeviceSnapshot {
    fn clone(&self) -> (r: Self)
        ensures
            r.inputs@ == self.inputs@,
            r.outputs@ == self.outputs@,
    {
        let inputs = self.inputs.clone();
        let outputs = self.outputs.clone();
        assert(inputs@ =~= self.inputs@);
        assert(outputs@ =~= self.outputs@);
        DeviceSnapshot { inputs, outputs }
    }
}

/// The device list of a snapshot in one direction.
pub open spec fn list_for(snap: DeviceSnapshot, dir: Direction) -> Seq<DeviceInfo> {
    match dir {
        Direction::Input => snap.inputs@,
        Direction::Output => snap.outputs@,
    }
}

/// The snapshot lists a device with this identifier in this direction.
pub open spec fn snapshot_contains(snap: DeviceSnapshot, id: Seq<char>, dir: Direction) -> bool {
    has_id(list_for(snap, dir), id)
}

/// A snapshot contains a device in a direction exactly when that direction's
/// own list has a device with the identifier: inputs are looked up among the
/// inputs, outputs among the outputs.
pub proof fn law_contains_looks_in_its_direction(snap: DeviceSnapshot, id: Seq<char>)
    ensures
        snapshot_contains(snap, id, Direction::Input) <==> exists|k: int|
            0 <= k < snap.inputs@.len() && #[trigger] snap.inputs@[k].id@ == id,
        snapshot_contains(snap, id, Direction::Output) <==> exists|k: int|
            0 <= k < snap.outputs@.len() && #[trigger] snap.outputs@[k].id@ == id,
{
}

/// Identifier of the first device marked default, if any.
pub open spec fn first_default(list: Seq<DeviceInfo>) -> Option<DeviceId>
    decreases list.len(),
{
    if list.len() == 0 {
        None
    } else if list[0].is_default {
        Some(list[0].id)
    } else {
        first_default(list.drop_first())
    }
}

/// Identifier text of an optional device identifier.
pub open spec fn id_text(id: Option<DeviceId>) -> Option<Seq<char>> {
    match id {
        Some(i) => Some(i@),
        None => None,
    }
}

impl DeviceSnapshot {
    pub fn contains(&self, id: &DeviceId, dir: Direction) -> (r: bool)
        ensures
            r == snapshot_contains(*self, id@, dir),
    {
        let list = match dir {
            Direction::Input => &self.inputs,
            Direction::Output => &self.outputs,
        };
        find_device(list.as_slice(), id).is_some()
    }

    fn default_of(list: &[DeviceInfo]) -> (r: Option<&DeviceId>)
        ensures
            r is None <==> first_default(list@) is None,
            r matches Some(id) ==> first_default(list@) == Some(*id),
    {
        let n = list.len();
        assert(list@.subrange(0, n as int) =~= list@);
        for i in 0..n
            invariant
                n == list@.len(),
                first_default(list@) == first_default(list@.subrange(i as int, n as int)),
        {
            let ghost rest = list@.subrange(i as int, n as int);
            assert(rest[0] == list@[i as int]);
            assert(rest.drop_first() =~= list@.subrange(i + 1, n as int));
            if list[i].is_default {
                return Some(&list[i].id);
            }
        }
        None
    }
}

/// `Added` for each current device (in order) whose identifier was not listed before.
pub open spec fn added_events(previous: Seq<DeviceInfo>, current: Seq<DeviceInfo>, dir: Direction) -> Seq<
    DeviceEvent,
> {
    current.filter(|d: DeviceInfo| !has_id(previous, d.id@)).map_values(
        |d: DeviceInfo| DeviceEvent::Added { id: d.id, dir },
    )
}

/// `Removed` for each previous device (in order) whose identifier is no longer listed.
pub open spec fn removed_events(previous: Seq<DeviceInfo>, current: Seq<DeviceInfo>, dir: Direction) -> Seq<
    DeviceEvent,
> {
    previous.filter(|d: DeviceInfo| !has_id(current, d.id@)).map_values(
        |d: DeviceInfo| DeviceEvent::Removed { id: d.id, dir },
    )
}

/// `DefaultChanged` when the default device changed to a new one (a default
/// that disappeared without replacement is not reported).
pub open spec fn default_events(previous: Seq<DeviceInfo>, current: Seq<DeviceInfo>, dir: Direction) -> Seq<
    DeviceEvent,
> {
    let p = first_default(previous);
    let c = first_default(current);
    if id_text(p) != id_text(c) && c is Some {
        seq![DeviceEvent::DefaultChanged { dir, new: c->0 }]
    } else {
        Seq::empty()
    }
}

/// Events of one direction: additions, then removals, then the default change.
pub open spec fn direction_events(previous: Seq<DeviceInfo>, current: Seq<DeviceInfo>, dir: Direction) -> Seq<
    DeviceEvent,
> {
    added_events(previous, current, dir) + removed_events(previous, current, dir) + default_events(
        previous,
        current,
        dir,
    )
}

/// The diff of two snapshots: input events, then output events.
pub open spec fn snapshot_diff(prev: DeviceSnapshot, next: DeviceSnapshot) -> Seq<DeviceEvent> {
    direction_events(prev.inputs@, next.inputs@, Direction::Input) + direction_events(
        prev.outputs@,
        next.outputs@,
        Direction::Output,
    )
}

/// Appends the events of a list that keep (by identifier) relative to another list.
fn push_unmatched(
    out: &mut Vec<DeviceEvent>,
    scan: &Vec<DeviceInfo>,
    other: &Vec<DeviceInfo>,
    dir: Direction,
    added: bool,
)
    ensures
        added ==> final(out)@ == old(out)@ + added_events(other@, scan@, dir),
        !added ==> final(out)@ == old(out)@ + removed_events(scan@, other@, dir),
{
    let ghost start = out@;
    let ghost pred = |d: DeviceInfo| !has_id(other@, d.id@);
    let ghost f = |d: DeviceInfo|
        if added {
            DeviceEvent::Added { id: d.id, dir }
        } else {
            DeviceEvent::Removed { id: d.id, dir }
        };
    let n = scan.len();
    for i in 0..n
        invariant
            n == scan@.len(),
            out@ == start + scan@.take(i as int).filter(pred).map_values(f),
            start == old(out)@,
            pred == |d: DeviceInfo| !has_id(other@, d.id@),
            f == |d: DeviceInfo|
                if added {
                    DeviceEvent::Added { id: d.id, dir }
                } else {
                    DeviceEvent::Removed { id: d.id, dir }
                },
    {
        reveal_with_fuel(Seq::<_>::filter, 1);
        assert(scan@.take(i + 1).drop_last() =~= scan@.take(i as int));
        assert(scan@.take(i + 1).last() == scan@[i as int]);
        let device = &scan[i];
        if find_device(other.as_slice(), &device.id).is_none() {
            let id = device.id.clone();
            if added {
                out.push(DeviceEvent::Added { id, dir });
            } else {
                out.push(DeviceEvent::Removed { id, dir });
            }
            assert(out@ =~= start + scan@.take(i + 1).filter(pred).map_values(f));
        } else {
            assert(out@ =~= start + scan@.take(i + 1).filter(pred).map_values(f));
        }
    }
    assert(scan@.take(n as int) =~= scan@);
    if added {
        assert(scan@.filter(pred).map_values(f) =~= added_events(other@, scan@, dir));
    } else {
        assert(scan@.filter(pred).map_values(f) =~= removed_events(scan@, other@, dir));
    }
}

/// Diff of two snapshots: `Added`, `Removed` and `DefaultChanged` per
/// direction (inputs first). Does not change its arguments.
pub fn diff_snapshots(prev: &DeviceSnapshot, next: &DeviceSnapshot) -> (r: Vec<DeviceEvent>)
    ensures
        r@ == snapshot_diff(*prev, *next),
{
    let mut out: Vec<DeviceEvent> = Vec::new();
    push_unmatched(&mut out, &next.inputs, &prev.inputs, Direction::Input, true);
    push_unmatched(&mut out, &prev.inputs, &next.inputs, Direction::Input, false);
    push_default_change(&mut out, &prev.inputs, &next.inputs, Direction::Input);
    push_unmatched(&mut out, &next.outputs, &prev.outputs, Direction::Output, true);
    push_unmatched(&mut out, &prev.outputs, &next.outputs, Direction::Output, false);
    push_default_change(&mut out, &prev.outputs, &next.outputs, Direction::Output);
    assert(out@ =~= snapshot_diff(*prev, *next));
    out
}

fn push_default_change(out: &mut Vec<DeviceEvent>, previous: &Vec<DeviceInfo>, current: &Vec<DeviceInfo>, dir: Direction)
    ensures
        final(out)@ == old(out)@ + default_events(previous@, current@, dir),
{
    let previous_default = DeviceSnapshot::default_of(previous.as_slice());
    let current_default = DeviceSnapshot::default_of(current.as_slice());
    let changed = match (previous_default, current_default) {
        (Some(p), Some(c)) => !(*p == *c),
        (None, None) => false,
        _ => true,
    };
    if changed {
        if let Some(new) = current_default {
            out.push(DeviceEvent::DefaultChanged { dir, new: new.clone() });
            assert(out@ =~= old(out)@ + default_events(previous@, current@, dir));
            return;
        }
    }
    assert(out@ =~= old(out)@ + default_events(previous@, current@, dir));
}

/// A filter that rejects every element is empty.
pub proof fn lemma_filter_none<T>(s: Seq<T>, pred: spec_fn(T) -> bool)
    requires
        forall|i: int| 0 <= i < s.len() ==> !pred(#[trigger] s[i]),
    ensures
        s.filter(pred).len() == 0,
    decreases s.len(),
{
    reveal_with_fuel(Seq::<_>::filter, 1);
    if s.len() > 0 {
        let d = s.drop_last();
        assert forall|i: int| 0 <= i < d.len() implies !pred(#[trigger] d[i]) by {
            assert(d[i] == s[i]);
        }
        lemma_filter_none(d, pred);
        assert(!pred(s.last()));
    }
}

/// Comparing a snapshot with itself reports nothing.
pub proof fn law_diff_of_unchanged_snapshot_is_empty(snap: DeviceSnapshot)
    ensures
        snapshot_diff(snap, snap).len() == 0,
{
    lemma_direction_events_same(snap.inputs@, Direction::Input);
    lemma_direction_events_same(snap.outputs@, Direction::Output);
}

proof fn lemma_direction_events_same(list: Seq<DeviceInfo>, dir: Direction)
    ensures
        direction_events(list, list, dir).len() == 0,
{
    let pred = |d: DeviceInfo| !has_id(list, d.id@);
    assert forall|i: int| 0 <= i < list.len() implies !pred(#[trigger] list[i]) by {
        assert(list[i].id@ == list[i].id@);
    }
    lemma_filter_none(list, pred);
}

/// An identifier is reported added exactly when the new list has it and the
/// old list does not, and reported removed exactly when the old list has it
/// and the new one does not.
pub proof fn law_diff_added_removed_exact(previous: Seq<DeviceInfo>, current: Seq<DeviceInfo>, dir: Direction, id: Seq<char>)
    ensures
        (exists|k: int| 0 <= k < added_events(previous, current, dir).len() && (#[trigger] added_events(previous, current, dir)[k])->Added_id@ == id)
            <==> (has_id(current, id) && !has_id(previous, id)),
        (exists|k: int| 0 <= k < removed_events(previous, current, dir).len() && (#[trigger] removed_events(previous, current, dir)[k])->Removed_id@ == id)
            <==> (has_id(previous, id) && !has_id(current, id)),
{
    let padd = |d: DeviceInfo| !has_id(previous, d.id@);
    let prem = |d: DeviceInfo| !has_id(current, d.id@);
    lemma_filter_members(current, padd, id);
    lemma_filter_members(previous, prem, id);
    let a = added_events(previous, current, dir);
    let fa = current.filter(padd);
    assert forall|k: int| 0 <= k < a.len() implies (#[trigger] a[k])->Added_id@ == fa[k].id@ by {}
    let r = removed_events(previous, current, dir);
    let fr = previous.filter(prem);
    assert forall|k: int| 0 <= k < r.len() implies (#[trigger] r[k])->Removed_id@ == fr[k].id@ by {}
    if has_id(current, id) && !has_id(previous, id) {
        let k = choose|k: int| 0 <= k < fa.len() && #[trigger] fa[k].id@ == id;
        assert(a[k]->Added_id@ == id);
    }
    if has_id(previous, id) && !has_id(current, id) {
        let k = choose|k: int| 0 <= k < fr.len() && #[trigger] fr[k].id@ == id;
        assert(r[k]->Removed_id@ == id);
    }
}

/// An identifier occurs in a filtered device list exactly when some device
/// with it passes the filter; for filters on the identifier alone, exactly when
/// the list has it and it passes.
proof fn lemma_filter_members(s: Seq<DeviceInfo>, pred: spec_fn(DeviceInfo) -> bool, id: Seq<char>)
    requires
        forall|a: DeviceInfo, b: DeviceInfo| a.id@ == b.id@ ==> pred(a) == pred(b),
    ensures
        (exists|k: int| 0 <= k < s.filter(pred).len() && #[trigger] s.filter(pred)[k].id@ == id)
            <==> (has_id(s, id) && forall|d: DeviceInfo| d.id@ == id ==> pred(d)),
    decreases s.len(),
{
    reveal_with_fuel(Seq::<_>::filter, 1);
    if s.len() == 0 {
    } else {
        let d = s.drop_last();
        lemma_filter_members(d, pred, id);
        let fd = d.filter(pred);
        let fs = s.filter(pred);
        if has_id(d, id) {
            let k = choose|k: int| 0 <= k < d.len() && #[trigger] d[k].id@ == id;
            assert(s[k].id@ == id);
        }
        if has_id(s, id) && !has_id(d, id) {
            let k = choose|k: int| 0 <= k < s.len() && #[trigger] s[k].id@ == id;
            if k < d.len() {
                assert(d[k].id@ == id);
            }
            assert(s.last().id@ == id);
        }
        if has_id(s, id) && s.last().id@ != id {
            let k = choose|k: int| 0 <= k < s.len() && #[trigger] s[k].id@ == id;
            assert(d[k].id@ == id);
        }
        if exists|k: int| 0 <= k < fd.len() && #[trigger] fd[k].id@ == id {
            let k = choose|k: int| 0 <= k < fd.len() && #[trigger] fd[k].id@ == id;
            assert(fs[k] == fd[k]);
        }
        if pred(s.last()) {
            assert(fs == fd.push(s.last()));
            if exists|k: int| 0 <= k < fs.len() && #[trigger] fs[k].id@ == id {
                let k = choose|k: int| 0 <= k < fs.len() && #[trigger] fs[k].id@ == id;
                if k < fd.len() {
                    assert(fd[k].id@ == id);
                }
            }
            if s.last().id@ == id {
                assert(fs[fd.len() as int].id@ == id);
            }
        } else {
            assert(fs == fd);
        }
    }
}

} // verus!
