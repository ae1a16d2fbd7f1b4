//! Route matrix: built once at start, read-only while running.

use crate::audio::backend::{find_device, first_with_id, lemma_first_with_id_has_id, DeviceId, DeviceInfo};
use crate::diagnostics::isolation::{
    isolated, isolation_error_for, sink_is_a_source, validate_isolation as diag_validate_isolation,
    IsolationError, LinkRoute,
};
use crate::engine::control::{SourceLang, TranslateMode};
use crate::text::concat_str;
use vstd::prelude::*;
use vstd::string::StringExecFns;

verus! {

#[derive(Debug, Clone, Copy, PartialEq, Eq, Structural)]
pub enum LinkKind {
    Uplink,
    Downlink,
}

/// One active link: its direction, the listener's language and its two devices.
#[derive(Debug, PartialEq, Eq)]
pub struct LinkRole {
    pub kind: LinkKind,
    pub target_lang: String,
    pub source: SourceLang,
    pub in_dev: DeviceId,
    pub out_dev: DeviceId,
}

impl Clone for LinkRole {
    fn clone(&self) -> (r: Self)
        ensures
            r == *self,
    {
        LinkRole {
            kind: self.kind,
            target_lang: self.target_lang.clone(),
            source: self.source.clone(),
            in_dev: self.in_dev.clone(),
            out_dev: self.out_dev.clone(),
        }
    }
}

#[derive(Debug, PartialEq, Eq)]
pub struct RouteMatrix {
    pub uplink: Option<LinkRole>,
    pub downlink: Option<LinkRole>,
}

/// What the user asked for one direction.
#[derive(Debug, PartialEq, Eq)]
pub struct LinkIntent {
    pub in_dev: DeviceId,
    pub out_dev: DeviceId,
    pub target_lang: String,
    pub source: SourceLang,
}

#[derive(Debug, PartialEq, Eq)]
pub struct RouteSpec {
    pub mode: TranslateMode,
    pub uplink: LinkIntent,
    pub downlink: LinkIntent,
}

#[derive(Debug, PartialEq, Eq)]
pub enum RouteError {
    DeviceNotFound(String),
    SourceSinkOverlap(String),
    VirtualLoopback(String),
}

impl RouteError {
    /// Human-readable description of the error.
    pub fn message(&self) -> (r: String)
        ensures
            r@ == match self {
                RouteError::DeviceNotFound(d) => "设备未找到: "@ + d@,
                RouteError::SourceSinkOverlap(d) => "物理隔离冲突: 注入设备 "@ + d@
                    + " 与采集设备相同/重叠，拒绝启动"@,
                RouteError::VirtualLoopback(d) => "输出回流虚拟采集设备 "@ + d@ + "，可能形成自激环路"@,
            },
    {
        match self {
            RouteError::DeviceNotFound(d) => concat_str("设备未找到: ", d.as_str()),
            RouteError::SourceSinkOverlap(d) => {
                let mut s = concat_str("物理隔离冲突: 注入设备 ", d.as_str());
                s.append(" 与采集设备相同/重叠，拒绝启动");
                s
            },
            RouteError::VirtualLoopback(d) => {
                let mut s = concat_str("输出回流虚拟采集设备 ", d.as_str());
                s.append("，可能形成自激环路");
                s
            },
        }
    }
}

/// Route error corresponding to an isolation error.
pub open spec fn route_error_of(error: IsolationError) -> RouteError {
    match error {
        IsolationError::SourceSinkOverlap { device } => RouteError::SourceSinkOverlap(device),
        IsolationError::OutputIsVirtualCaptureSource { device } => RouteError::VirtualLoopback(
            device,
        ),
    }
}

impl From<IsolationError> for RouteError {
    fn from(error: IsolationError) -> (r: Self) {
        match error {
            IsolationError::SourceSinkOverlap { device } => RouteError::SourceSinkOverlap(device),
            IsolationError::OutputIsVirtualCaptureSource { device } => {
                RouteError::VirtualLoopback(device)
            },
        }
    }
}

impl vstd::std_specs::convert::FromSpecImpl<IsolationError> for RouteError {
    open spec fn obeys_from_spec() -> bool {
        true
    }

    open spec fn from_spec(v: IsolationError) -> RouteError {
        route_error_of(v)
    }
}

/// Which links the mode lights: (uplink, downlink).
pub open spec fn active_links_spec(mode: TranslateMode) -> (bool, bool) {
    match mode {
        TranslateMode::Bidirectional => (true, true),
        TranslateMode::UplinkOnly => (true, false),
        TranslateMode::DownlinkOnly => (false, true),
    }
}

pub fn active_links(mode: TranslateMode) -> (r: (bool, bool))
    ensures
        r == active_links_spec(mode),
{
    match mode {
        TranslateMode::Bidirectional => (true, true),
        TranslateMode::UplinkOnly => (true, false),
        TranslateMode::DownlinkOnly => (false, true),
    }
}

/// Looks a device up by identifier: the first match, or `DeviceNotFound`.
pub fn find<'a>(devices: &'a [DeviceInfo], id: &DeviceId) -> (r: Result<&'a DeviceInfo, RouteError>)
    ensures
        match r {
            Ok(d) => first_with_id(devices@, id@) == Some(*d),
            Err(e) => first_with_id(devices@, id@) is None && e == RouteError::DeviceNotFound(
                id.0,
            ),
        },
{
    match find_device(devices, id) {
        Some(device) => Ok(device),
        None => Err(RouteError::DeviceNotFound(id.0.clone())),
    }
}

/// The first device of the requested, active links that is not in the list,
/// checked uplink input, uplink output, downlink input, downlink output.
pub open spec fn first_missing_device(spec: RouteSpec, devices: Seq<DeviceInfo>) -> Option<
    DeviceId,
> {
    let (up, down) = active_links_spec(spec.mode);
    if up && first_with_id(devices, spec.uplink.in_dev@) is None {
        Some(spec.uplink.in_dev)
    } else if up && first_with_id(devices, spec.uplink.out_dev@) is None {
        Some(spec.uplink.out_dev)
    } else if down && first_with_id(devices, spec.downlink.in_dev@) is None {
        Some(spec.downlink.in_dev)
    } else if down && first_with_id(devices, spec.downlink.out_dev@) is None {
        Some(spec.downlink.out_dev)
    } else {
        None
    }
}

/// The matrix a spec asks for: the active links only; the downlink always
/// leaves the source language to the model (its target is the local listener).
pub open spec fn routes_for(spec: RouteSpec) -> RouteMatrix {
    let (up, down) = active_links_spec(spec.mode);
    RouteMatrix {
        uplink: if up {
            Some(
                LinkRole {
                    kind: LinkKind::Uplink,
                    target_lang: spec.uplink.target_lang,
                    source: spec.uplink.source,
                    in_dev: spec.uplink.in_dev,
                    out_dev: spec.uplink.out_dev,
                },
            )
        } else {
            None
        },
        downlink: if down {
            Some(
                LinkRole {
                    kind: LinkKind::Downlink,
                    target_lang: spec.downlink.target_lang,
                    source: SourceLang::Auto,
                    in_dev: spec.downlink.in_dev,
                    out_dev: spec.downlink.out_dev,
                },
            )
        } else {
            None
        },
    }
}

/// Builds the route matrix for the mode, after checking that every device of
/// an active link exists.
pub fn build_routes(spec: &RouteSpec, devices: &[DeviceInfo]) -> (r: Result<RouteMatrix, RouteError>)
    ensures
        match first_missing_device(*spec, devices@) {
            Some(id) => r == Err::<RouteMatrix, RouteError>(RouteError::DeviceNotFound(id.0)),
            None => r == Ok::<RouteMatrix, RouteError>(routes_for(*spec)),
        },
{
    let (uplink_active, downlink_active) = active_links(spec.mode);
    let uplink = if uplink_active {
        find(devices, &spec.uplink.in_dev)?;
        find(devices, &spec.uplink.out_dev)?;
        Some(
            LinkRole {
                kind: LinkKind::Uplink,
                target_lang: spec.uplink.target_lang.clone(),
                source: spec.uplink.source.clone(),
                in_dev: spec.uplink.in_dev.clone(),
                out_dev: spec.uplink.out_dev.clone(),
            },
        )
    } else {
        None
    };
    let downlink = if downlink_active {
        find(devices, &spec.downlink.in_dev)?;
        find(devices, &spec.downlink.out_dev)?;
        Some(
            LinkRole {
                kind: LinkKind::Downlink,
                target_lang: spec.downlink.target_lang.clone(),
                source: SourceLang::Auto,
                in_dev: spec.downlink.in_dev.clone(),
                out_dev: spec.downlink.out_dev.clone(),
            },
        )
    } else {
        None
    };
    Ok(RouteMatrix { uplink, downlink })
}

/// The active roles of a matrix, uplink first.
pub open spec fn roles_of(matrix: RouteMatrix) -> Seq<LinkRole> {
    (if matrix.uplink is Some {
        seq![matrix.uplink->0]
    } else {
        Seq::empty()
    }) + (if matrix.downlink is Some {
        seq![matrix.downlink->0]
    } else {
        Seq::empty()
    })
}

/// The first device of the roles (input before output, role by role) that is not in the list.
pub open spec fn first_missing_role_device(roles: Seq<LinkRole>, devices: Seq<DeviceInfo>) -> Option<
    DeviceId,
>
    decreases roles.len(),
{
    if roles.len() == 0 {
        None
    } else if first_with_id(devices, roles[0].in_dev@) is None {
        Some(roles[0].in_dev)
    } else if first_with_id(devices, roles[0].out_dev@) is None {
        Some(roles[0].out_dev)
    } else {
        first_missing_role_device(roles.drop_first(), devices)
    }
}

/// Link description of a role whose devices are both in the list.
pub open spec fn route_of(role: LinkRole, devices: Seq<DeviceInfo>) -> LinkRoute {
    LinkRoute {
        source: role.in_dev,
        sink: role.out_dev,
        source_is_virtual: first_with_id(devices, role.in_dev@)->0.is_virtual,
        sink_is_virtual: first_with_id(devices, role.out_dev@)->0.is_virtual,
    }
}

/// Checks the matrix's devices exist, then the isolation of its links: no
/// link may play into a device that some link captures from.
pub fn validate_isolation(matrix: &RouteMatrix, devices: &[DeviceInfo]) -> (r: Result<(), RouteError>)
    ensures
        ({
            let roles = roles_of(*matrix);
            let links = roles.map_values(|role: LinkRole| route_of(role, devices@));
            match first_missing_role_device(roles, devices@) {
                Some(id) => r == Err::<(), RouteError>(RouteError::DeviceNotFound(id.0)),
                None => {
                    &&& r is Ok <==> isolated(links)
                    &&& r matches Err(e) ==> exists|i: int|
                        0 <= i < links.len() && sink_is_a_source(links, i) && (forall|k: int|
                            0 <= k < i ==> !sink_is_a_source(links, k)) && e == route_error_of(
                            isolation_error_for(links, i),
                        )
                },
            }
        }),
{
    let ghost roles = roles_of(*matrix);
    let ghost links_spec = roles.map_values(|role: LinkRole| route_of(role, devices@));
    let mut links: Vec<LinkRoute> = Vec::new();
    let mut roles_exec: Vec<&LinkRole> = Vec::new();
    if let Some(role) = &matrix.uplink {
        roles_exec.push(role);
    }
    if let Some(role) = &matrix.downlink {
        roles_exec.push(role);
    }
    assert(roles_exec@.map_values(|r: &LinkRole| *r) =~= roles);
    let n = roles_exec.len();
    assert(roles.subrange(0, n as int) =~= roles);
    for i in 0..n
        invariant
            n == roles.len(),
            roles_exec@.map_values(|r: &LinkRole| *r) == roles,
            roles == roles_of(*matrix),
            links_spec == roles.map_values(|role: LinkRole| route_of(role, devices@)),
            links@ == links_spec.take(i as int),
            first_missing_role_device(roles, devices@) == first_missing_role_device(
                roles.subrange(i as int, n as int),
                devices@,
            ),
    {
        let role = roles_exec[i];
        assert(*role == roles[i as int]);
        let ghost rest = roles.subrange(i as int, n as int);
        assert(rest[0] == roles[i as int]);
        assert(rest.drop_first() =~= roles.subrange(i + 1, n as int));
        let source = find(devices, &role.in_dev)?;
        let sink = find(devices, &role.out_dev)?;
        links.push(
            LinkRoute {
                source: role.in_dev.clone(),
                sink: role.out_dev.clone(),
                source_is_virtual: source.is_virtual,
                sink_is_virtual: sink.is_virtual,
            },
        );
        assert(links@ =~= links_spec.take(i + 1));
    }
    assert(links@ =~= links_spec);
    assert(roles.subrange(n as int, n as int) =~= Seq::<LinkRole>::empty());
    match diag_validate_isolation(links.as_slice()) {
        Ok(()) => Ok(()),
        Err(error) => Err(RouteError::from(error)),
    }
}

/// The mode alone decides which links exist in a successfully built matrix,
/// and every built link gets the listener's language of its intent.
/// A built route keeps what the user asked for: the uplink role carries the
/// uplink intent's devices, target and source language (a locked source
/// stays locked); the downlink role carries the downlink intent's devices and
/// target, with the source left to the model. Bidirectional lights both links,
/// uplink-only only the uplink, downlink-only only the downlink.
pub proof fn law_routes_keep_intents(spec: RouteSpec)
    ensures
        routes_for(spec).uplink matches Some(up) ==> up.kind == LinkKind::Uplink && up.source == spec.uplink.source
            && up.in_dev == spec.uplink.in_dev && up.out_dev == spec.uplink.out_dev && up.target_lang
            == spec.uplink.target_lang,
        routes_for(spec).downlink matches Some(down) ==> down.kind == LinkKind::Downlink && down.source
            == SourceLang::Auto && down.in_dev == spec.downlink.in_dev && down.out_dev == spec.downlink.out_dev
            && down.target_lang == spec.downlink.target_lang,
        spec.mode == TranslateMode::Bidirectional ==> routes_for(spec).uplink is Some && routes_for(
            spec,
        ).downlink is Some,
        spec.mode == TranslateMode::UplinkOnly ==> routes_for(spec).uplink is Some && routes_for(
            spec,
        ).downlink is None,
        spec.mode == TranslateMode::DownlinkOnly ==> routes_for(spec).uplink is None && routes_for(
            spec,
        ).downlink is Some,
{
}

/// Building routes fails exactly when a device of an active link is not in
/// the device list (the uplink's devices count only when the uplink is
/// lit, the downlink's only when the downlink is), and the error names a
/// device of an active link that is missing.
pub proof fn law_routes_need_listed_devices(spec: RouteSpec, devices: Seq<DeviceInfo>)
    ensures
        first_missing_device(spec, devices) is None <==> ((spec.mode != TranslateMode::DownlinkOnly) ==> (exists|k: int|
            0 <= k < devices.len() && #[trigger] devices[k].id@ == spec.uplink.in_dev@) && (exists|k: int|
            0 <= k < devices.len() && #[trigger] devices[k].id@ == spec.uplink.out_dev@)) && ((spec.mode
            != TranslateMode::UplinkOnly) ==> (exists|k: int|
            0 <= k < devices.len() && #[trigger] devices[k].id@ == spec.downlink.in_dev@) && (exists|k: int|
            0 <= k < devices.len() && #[trigger] devices[k].id@ == spec.downlink.out_dev@)),
        first_missing_device(spec, devices) matches Some(id) ==> !(exists|k: int|
            0 <= k < devices.len() && #[trigger] devices[k].id@ == id@) && ((spec.mode
            != TranslateMode::DownlinkOnly && (id == spec.uplink.in_dev || id == spec.uplink.out_dev)) || (
        spec.mode != TranslateMode::UplinkOnly && (id == spec.downlink.in_dev || id == spec.downlink.out_dev))),
{
    lemma_first_with_id_has_id(devices, spec.uplink.in_dev@);
    lemma_first_with_id_has_id(devices, spec.uplink.out_dev@);
    lemma_first_with_id_has_id(devices, spec.downlink.in_dev@);
    lemma_first_with_id_has_id(devices, spec.downlink.out_dev@);
}

pub proof fn law_mode_decides_links(spec: RouteSpec)
    ensures
        routes_for(spec).uplink is Some <==> active_links_spec(spec.mode).0,
        routes_for(spec).downlink is Some <==> active_links_spec(spec.mode).1,
        routes_for(spec).uplink matches Some(up) ==> up.target_lang == spec.uplink.target_lang
            && up.kind == LinkKind::Uplink,
        routes_for(spec).downlink matches Some(down) ==> down.target_lang
            == spec.downlink.target_lang && down.source == SourceLang::Auto && down.kind
            == LinkKind::Downlink,
{
}

} // verus!
