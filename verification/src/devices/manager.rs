//! The device manager holds the current snapshot, which is replaced whole on
//! each refresh, and answers queries on it. It is not on the audio data path.

use crate::audio::backend::{find_device, first_with_id, AudioBackend, AudioError, DeviceId, DeviceInfo, Direction};
use crate::devices::classify::{classify, use_of, DeviceUse};
use crate::devices::snapshot::{list_for, DeviceSnapshot};
use vstd::prelude::*;

verus! {

pub struct DeviceManager<B: AudioBackend> {
    backend: B,
    current: DeviceSnapshot,
}

/// The first device of a list that is marked default, if any.
pub open spec fn default_device(list: Seq<DeviceInfo>) -> Option<DeviceInfo>
    decreases list.len(),
{
    if list.len() == 0 {
        None
    } else if list[0].is_default {
        Some(list[0])
    } else {
        default_device(list.drop_first())
    }
}

/// The devices of a list (in order) whose use in this direction is `u`.
pub open spec fn devices_of_use(list: Seq<DeviceInfo>, dir: Direction, u: DeviceUse) -> Seq<DeviceInfo> {
    list.filter(|d: DeviceInfo| use_of(d.is_virtual, dir) == u)
}

/// The snapshot made of a listing of inputs and one of outputs: the error of
/// the input listing if it failed, else that of the output listing if it
/// failed, else both lists as they came.
pub fn snapshot_from_listings(
    inputs: Result<Vec<DeviceInfo>, AudioError>,
    outputs: Result<Vec<DeviceInfo>, AudioError>,
) -> (r: Result<DeviceSnapshot, AudioError>)
    ensures
        inputs matches Err(e) ==> r == Err::<DeviceSnapshot, AudioError>(e),
        (inputs is Ok && outputs is Err) ==> r == Err::<DeviceSnapshot, AudioError>(outputs->Err_0),
        (inputs is Ok && outputs is Ok) ==> (r is Ok && r->Ok_0.inputs@ == inputs->Ok_0@
            && r->Ok_0.outputs@ == outputs->Ok_0@),
{
    match inputs {
        Err(e) => Err(e),
        Ok(inputs) => match outputs {
            Err(e) => Err(e),
            Ok(outputs) => Ok(DeviceSnapshot { inputs, outputs }),
        },
    }
}

/// Lists both directions through the backend; the lists themselves are
/// whatever the backend reports. Inputs are listed first, and outputs only
/// when that succeeded; `snapshot_from_listings` makes the result.
fn list_both<B: AudioBackend>(backend: &B) -> Result<DeviceSnapshot, AudioError> {
    match backend.list_inputs() {
        Err(e) => Err(e),
        Ok(inputs) => snapshot_from_listings(Ok(inputs), backend.list_outputs()),
    }
}

fn first_default_in(list: &Vec<DeviceInfo>) -> (r: Option<&DeviceInfo>)
    ensures
        r is None <==> default_device(list@) is None,
        r matches Some(d) ==> default_device(list@) == Some(*d),
{
    let n = list.len();
    assert(list@.subrange(0, n as int) =~= list@);
    for i in 0..n
        invariant
            n == list@.len(),
            default_device(list@) == default_device(list@.subrange(i as int, n as int)),
    {
        let ghost rest = list@.subrange(i as int, n as int);
        assert(rest[0] == list@[i as int]);
        assert(rest.drop_first() =~= list@.subrange(i + 1, n as int));
        if list[i].is_default {
            return Some(&list[i]);
        }
    }
    None
}

fn push_of_use<'a>(out: &mut Vec<&'a DeviceInfo>, list: &'a Vec<DeviceInfo>, dir: Direction, u: DeviceUse)
    ensures
        final(out)@.map_values(|d: &DeviceInfo| *d) == old(out)@.map_values(|d: &DeviceInfo| *d)
            + devices_of_use(list@, dir, u),
{
    let ghost start = out@.map_values(|d: &DeviceInfo| *d);
    let ghost pred = |d: DeviceInfo| use_of(d.is_virtual, dir) == u;
    let n = list.len();
    for i in 0..n
        invariant
            n == list@.len(),
            out@.map_values(|d: &DeviceInfo| *d) == start + list@.take(i as int).filter(pred),
            start == old(out)@.map_values(|d: &DeviceInfo| *d),
            pred == |d: DeviceInfo| use_of(d.is_virtual, dir) == u,
    {
        reveal_with_fuel(Seq::<_>::filter, 1);
        assert(list@.take(i + 1).drop_last() =~= list@.take(i as int));
        assert(list@.take(i + 1).last() == list@[i as int]);
        let d = &list[i];
        if classify(d, dir) == u {
            let ghost before = out@;
            out.push(d);
            assert(out@ == before.push(d));
            assert(out@.map_values(|d: &DeviceInfo| *d) =~= before.map_values(|d: &DeviceInfo| *d).push(*d));
            assert(out@.map_values(|d: &DeviceInfo| *d) =~= start + list@.take(i + 1).filter(pred));
        } else {
            assert(list@.take(i + 1).filter(pred) =~= list@.take(i as int).filter(pred));
        }
    }
    assert(list@.take(n as int) =~= list@);
}

impl<B: AudioBackend> DeviceManager<B> {
    /// The snapshot the manager currently holds.
    pub closed spec fn current(&self) -> DeviceSnapshot {
        self.current
    }

    /// The backend the manager lists devices through.
    pub closed spec fn backend_spec(&self) -> B {
        self.backend
    }

    /// A manager over `backend` holding the snapshot of a listing, or the
    /// listing's error.
    pub fn from_listing(backend: B, listing: Result<DeviceSnapshot, AudioError>) -> (r: Result<Self, AudioError>)
        ensures
            listing matches Ok(s) ==> r matches Ok(m) && m.backend_spec() == backend && m.current() == s,
            listing matches Err(e) ==> r == Err::<Self, AudioError>(e),
    {
        match listing {
            Ok(current) => Ok(Self { backend, current }),
            Err(e) => Err(e),
        }
    }

    /// Takes a new listing: on success it becomes the whole current snapshot
    /// (a copy is returned); on failure nothing changes and the error is
    /// returned.
    pub fn apply_listing(&mut self, listing: Result<DeviceSnapshot, AudioError>) -> (r: Result<DeviceSnapshot, AudioError>)
        ensures
            final(self).backend_spec() == old(self).backend_spec(),
            listing matches Ok(s) ==> r matches Ok(t) && t == s && final(self).current().inputs@ == s.inputs@
                && final(self).current().outputs@ == s.outputs@,
            listing matches Err(e) ==> r == Err::<DeviceSnapshot, AudioError>(e) && final(self).current()
                == old(self).current(),
    {
        match listing {
            Ok(next) => {
                self.current = next.clone();
                Ok(next)
            },
            Err(e) => Err(e),
        }
    }

    /// Lists the devices of both directions once; fails with the backend's
    /// error if either listing fails.
    pub fn new(backend: B) -> (r: Result<Self, AudioError>)
        ensures
            r matches Ok(m) ==> m.backend_spec() == backend,
    {
        let listing = list_both(&backend);
        Self::from_listing(backend, listing)
    }

    /// Lists again and returns the new snapshot. The manager holds a copy of
    /// it as its whole new current snapshot; the previous snapshot's lists are
    /// never changed in place. On failure nothing changes.
    pub fn refresh(&mut self) -> (r: Result<DeviceSnapshot, AudioError>)
        ensures
            final(self).backend_spec() == old(self).backend_spec(),
            r matches Ok(s) ==> final(self).current().inputs@ == s.inputs@ && final(self).current().outputs@
                == s.outputs@,
            r is Err ==> final(self).current() == old(self).current(),
    {
        let listing = list_both(&self.backend);
        self.apply_listing(listing)
    }

    pub fn snapshot(&self) -> (r: &DeviceSnapshot)
        ensures
            *r == self.current(),
    {
        &self.current
    }

    /// The first device marked default in the given direction.
    pub fn default_for(&self, dir: Direction) -> (r: Option<&DeviceInfo>)
        ensures
            r is None <==> default_device(list_for(self.current(), dir)) is None,
            r matches Some(d) ==> default_device(list_for(self.current(), dir)) == Some(*d),
    {
        let list = match dir {
            Direction::Input => &self.current.inputs,
            Direction::Output => &self.current.outputs,
        };
        first_default_in(list)
    }

    /// All devices whose use is `u`: matching inputs in order, then matching outputs.
    pub fn pick_use(&self, u: DeviceUse) -> (r: Vec<&DeviceInfo>)
        ensures
            r@.map_values(|d: &DeviceInfo| *d) == devices_of_use(self.current().inputs@, Direction::Input, u)
                + devices_of_use(self.current().outputs@, Direction::Output, u),
    {
        let mut out: Vec<&DeviceInfo> = Vec::new();
        assert(out@.map_values(|d: &DeviceInfo| *d) =~= Seq::<DeviceInfo>::empty());
        push_of_use(&mut out, &self.current.inputs, Direction::Input, u);
        push_of_use(&mut out, &self.current.outputs, Direction::Output, u);
        out
    }

    /// The first device with this identifier in the given direction.
    pub fn resolve(&self, id: &DeviceId, dir: Direction) -> (r: Option<&DeviceInfo>)
        ensures
            r is None <==> first_with_id(list_for(self.current(), dir), id@) is None,
            r matches Some(d) ==> first_with_id(list_for(self.current(), dir), id@) == Some(*d),
    {
        let list = match dir {
            Direction::Input => &self.current.inputs,
            Direction::Output => &self.current.outputs,
        };
        find_device(list.as_slice(), id)
    }
}

} // verus!
