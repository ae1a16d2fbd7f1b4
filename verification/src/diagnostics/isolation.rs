//! First line of defence: structural isolation checked before start.

use crate::audio::backend::DeviceId;
use vstd::prelude::*;

verus! {

/// One link of the pipeline: audio is captured from `source` and played to `sink`.
#[derive(Debug, PartialEq, Eq)]
pub struct LinkRoute {
    pub source: DeviceId,
    pub sink: DeviceId,
    pub source_is_virtual: bool,
    pub sink_is_virtual: bool,
}

impl Clone for LinkRoute {
    fn clone(&self) -> (r: Self)
        ensures
            r == *self,
    {
        LinkRoute {
            source: self.source.clone(),
            sink: self.sink.clone(),
            source_is_virtual: self.source_is_virtual,
            sink_is_virtual: self.sink_is_virtual,
        }
    }
}

#[derive(Debug, PartialEq, Eq)]
pub enum IsolationError {
    SourceSinkOverlap { device: String },
    OutputIsVirtualCaptureSource { device: String },
}

impl Clone for IsolationError {
    fn clone(&self) -> (r: Self)
        ensures
            r == *self,
    {
        match self {
            IsolationError::SourceSinkOverlap { device } => IsolationError::SourceSinkOverlap {
                device: device.clone(),
            },
            IsolationError::OutputIsVirtualCaptureSource { device } => {
                IsolationError::OutputIsVirtualCaptureSource { device: device.clone() }
            },
        }
    }
}

/// Some link captures from the device that link `i` plays to.
pub open spec fn sink_is_a_source(links: Seq<LinkRoute>, i: int) -> bool {
    exists|j: int| 0 <= j < links.len() && #[trigger] links[j].source@ == links[i].sink@
}

/// Some link captures from a virtual device with this identifier.
pub open spec fn is_virtual_source(links: Seq<LinkRoute>, id: Seq<char>) -> bool {
    exists|j: int| 0 <= j < links.len() && #[trigger] links[j].source@ == id && links[j].source_is_virtual
}

/// The error reported for link `i`: playing into a virtual device that is also
/// captured as a virtual source would feed the output back into the capture.
pub open spec fn isolation_error_for(links: Seq<LinkRoute>, i: int) -> IsolationError {
    if links[i].sink_is_virtual && is_virtual_source(links, links[i].sink@) {
        IsolationError::OutputIsVirtualCaptureSource { device: links[i].sink.0 }
    } else {
        IsolationError::SourceSinkOverlap { device: links[i].sink.0 }
    }
}

/// No link plays into a device that some link captures from.
pub open spec fn isolated(links: Seq<LinkRoute>) -> bool {
    forall|i: int| 0 <= i < links.len() ==> !sink_is_a_source(links, i)
}

/// Rejects link sets where a sink is also a source; the first offending link
/// (in order) decides the error.
pub fn validate_isolation(links: &[LinkRoute]) -> (r: Result<(), IsolationError>)
    ensures
        r is Ok <==> isolated(links@),
        r matches Err(e) ==> exists|i: int|
            0 <= i < links@.len() && sink_is_a_source(links@, i) && (forall|k: int|
                0 <= k < i ==> !sink_is_a_source(links@, k)) && e == isolation_error_for(
                links@,
                i,
            ),
{
    let n = links.len();
    for i in 0..n
        invariant
            n == links@.len(),
            forall|k: int| 0 <= k < i ==> !sink_is_a_source(links@, k),
    {
        let mut feeds = false;
        let mut virtual_feed = false;
        for j in 0..n
            invariant
                n == links@.len(),
                0 <= i < n,
                feeds == exists|m: int| 0 <= m < j && #[trigger] links@[m].source@ == links@[i as int].sink@,
                virtual_feed == exists|m: int|
                    0 <= m < j && #[trigger] links@[m].source@ == links@[i as int].sink@
                        && links@[m].source_is_virtual,
        {
            if links[j].source == links[i].sink {
                feeds = true;
                if links[j].source_is_virtual {
                    virtual_feed = true;
                }
            }
        }
        if feeds {
            assert(sink_is_a_source(links@, i as int));
            if links[i].sink_is_virtual && virtual_feed {
                return Err(
                    IsolationError::OutputIsVirtualCaptureSource { device: links[i].sink.0.clone() },
                );
            }
            return Err(IsolationError::SourceSinkOverlap { device: links[i].sink.0.clone() });
        }
    }
    Ok(())
}

/// The kind of error reported for an offending link: feeding back into a
/// virtual capture source exactly when its sink is virtual and some link
/// captures from that same device as a virtual source; a plain overlap
/// otherwise. Either way it names the link's sink.
pub proof fn law_isolation_error_kind(links: Seq<LinkRoute>, i: int)
    requires
        0 <= i < links.len(),
    ensures
        (isolation_error_for(links, i) is OutputIsVirtualCaptureSource) <==> (links[i].sink_is_virtual
            && exists|j: int|
            0 <= j < links.len() && #[trigger] links[j].source@ == links[i].sink@ && links[j].source_is_virtual),
        isolation_error_for(links, i) matches IsolationError::OutputIsVirtualCaptureSource { device } ==> device
            == links[i].sink.0,
        isolation_error_for(links, i) matches IsolationError::SourceSinkOverlap { device } ==> device
            == links[i].sink.0,
{
}

/// Isolation law: a link set is accepted exactly when no link plays into a
/// device that any link captures from.
pub proof fn law_isolation_accepts_iff_disjoint(links: Seq<LinkRoute>)
    ensures
        isolated(links) <==> forall|i: int, j: int|
            0 <= i < links.len() && 0 <= j < links.len() ==> links[j].source@ != links[i].sink@,
{
    if isolated(links) {
        assert forall|i: int, j: int|
            0 <= i < links.len() && 0 <= j < links.len() implies links[j].source@
            != links[i].sink@ by {
            assert(!sink_is_a_source(links, i));
        }
    }
}

} // verus!
