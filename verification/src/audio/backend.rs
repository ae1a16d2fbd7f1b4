//! Platform-neutral audio backend interface and device descriptions.
//! Every platform difference stays inside the backend implementations.

use crate::audio::ring::{AudioConsumer, AudioProducer};
use crate::text::{concat_str, seq_contains};
use std::sync::mpsc::{Receiver, RecvTimeoutError, TryRecvError};
use std::time::Duration;
use vstd::prelude::*;
use vstd::string::StrSliceExecFns;

verus! {

/// Errors raised while talking to an audio backend.
#[derive(Debug)]
pub enum AudioError {
    DeviceNotFound(String),
    OpenStream(String),
}

impl AudioError {
    /// Human-readable description of the error.
    pub fn message(&self) -> (r: String)
        ensures
            r@ == match self {
                AudioError::DeviceNotFound(d) => "设备未找到: "@ + d@,
                AudioError::OpenStream(d) => "打开音频流失败: "@ + d@,
            },
    {
        match self {
            AudioError::DeviceNotFound(d) => concat_str("设备未找到: ", d.as_str()),
            AudioError::OpenStream(d) => concat_str("打开音频流失败: ", d.as_str()),
        }
    }
}

/// Platform-specific unique device identifier.
#[derive(Debug)]
pub struct DeviceId(pub String);

impl View for DeviceId {
    type V = Seq<char>;

    open spec fn view(&self) -> Seq<char> {
        self.0@
    }
}

impl Clone for DeviceId {
    fn clone(&self) -> (r: Self)
        ensures
            r == *self,
    {
        DeviceId(self.0.clone())
    }
}

impl PartialEq for DeviceId {
    fn eq(&self, other: &Self) -> (r: bool) {
        self.0 == other.0
    }
}

impl Eq for DeviceId {}

impl vstd::std_specs::cmp::PartialEqSpecImpl for DeviceId {
    open spec fn obeys_eq_spec() -> bool {
        true
    }

    open spec fn eq_spec(&self, other: &Self) -> bool {
        self@ == other@
    }
}

/// Description of one audio device as reported by a backend.
#[derive(Debug)]
pub struct DeviceInfo {
    pub id: DeviceId,
    pub name: String,
    pub is_default: bool,
    /// The name matches a known virtual device (VB-Audio/CABLE, BlackHole, ...).
    pub is_virtual: bool,
}

impl Clone for DeviceInfo {
    fn clone(&self) -> (r: Self)
        ensures
            r == *self,
    {
        DeviceInfo {
            id: self.id.clone(),
            name: self.name.clone(),
            is_default: self.is_default,
            is_virtual: self.is_virtual,
        }
    }
}

impl PartialEq for DeviceInfo {
    fn eq(&self, other: &Self) -> (r: bool) {
        self.id == other.id && self.name == other.name && self.is_default == other.is_default
            && self.is_virtual == other.is_virtual
    }
}

impl vstd::std_specs::cmp::PartialEqSpecImpl for DeviceInfo {
    open spec fn obeys_eq_spec() -> bool {
        true
    }

    open spec fn eq_spec(&self, other: &Self) -> bool {
        &&& self.id@ == other.id@
        &&& self.name@ == other.name@
        &&& self.is_default == other.is_default
        &&& self.is_virtual == other.is_virtual
    }
}

/// Device direction: input captures, output plays.
#[derive(Debug, Clone, Copy, PartialEq, Eq, Structural)]
pub enum Direction {
    Input,
    Output,
}

/// Raw device change event emitted by a backend: a full snapshot of both lists.
#[derive(Debug)]
pub enum RawDeviceEvent {
    ListChanged { inputs: Vec<DeviceInfo>, outputs: Vec<DeviceInfo> },
}

/// Receiving end of the stream of raw device events that a backend pushes
/// from its own thread; consumers poll it at low frequency.
pub struct DeviceWatchHandle {
    rx: Receiver<RawDeviceEvent>,
}

/// Declares `std::sync::mpsc::Receiver` so that the watch handle can hold one.
#[verifier::external_type_specification]
#[verifier::external_body]
#[verifier::reject_recursive_types(T)]
pub struct ExReceiver<T>(Receiver<T>);

/// Declares `std::sync::mpsc::TryRecvError`.
#[verifier::external_type_specification]
#[verifier::external_body]
pub struct ExTryRecvError(TryRecvError);

/// Declares `std::sync::mpsc::RecvTimeoutError`.
#[verifier::external_type_specification]
#[verifier::external_body]
pub struct ExRecvTimeoutError(RecvTimeoutError);

/// Calls `Receiver::try_recv`. Whether an event is waiting depends on other
/// threads, so nothing is promised about which outcome comes back.
#[verifier::external_body]
fn channel_try_recv(rx: &Receiver<RawDeviceEvent>) -> Result<RawDeviceEvent, TryRecvError> {
    rx.try_recv()
}

/// Calls `Receiver::recv_timeout`. Whether an event arrives in time depends on
/// other threads and the clock, so nothing is promised about the outcome.
#[verifier::external_body]
fn channel_recv_timeout(rx: &Receiver<RawDeviceEvent>, duration: Duration) -> Result<
    RawDeviceEvent,
    RecvTimeoutError,
> {
    rx.recv_timeout(duration)
}

impl DeviceWatchHandle {
    /// The channel the handle reads from.
    pub closed spec fn receiver(&self) -> Receiver<RawDeviceEvent> {
        self.rx
    }

    pub fn new(rx: Receiver<RawDeviceEvent>) -> (r: Self)
        ensures
            r.receiver() == rx,
    {
        Self { rx }
    }

    /// Takes the next pending event, if one is waiting; never blocks.
    pub fn try_recv(&self) -> Option<RawDeviceEvent> {
        match channel_try_recv(&self.rx) {
            Ok(event) => Some(event),
            Err(_) => None,
        }
    }

    /// Waits at most `duration` for the next event.
    pub fn recv_timeout(&self, duration: Duration) -> Option<RawDeviceEvent> {
        match channel_recv_timeout(&self.rx, duration) {
            Ok(event) => Some(event),
            Err(_) => None,
        }
    }
}

/// Requested stream parameters.
#[derive(Debug, Clone, Copy)]
pub struct StreamCfg {
    pub sample_rate: u32,
    pub channels: u16,
    /// Expected samples per callback (per channel).
    pub frame_size: usize,
}

/// An input stream pushes captured PCM into its ring buffer; holding it keeps capture running.
pub trait InputStream: Send {
    /// The sample rate actually negotiated with the device.
    fn actual_sample_rate(&self) -> u32;
}

/// An output stream pulls PCM from its ring buffer and plays it.
pub trait OutputStream: Send {
    fn actual_sample_rate(&self) -> u32;
}

/// Platform audio backend, implemented once per platform.
pub trait AudioBackend: Send + Sync {
    fn list_inputs(&self) -> Result<Vec<DeviceInfo>, AudioError>;

    fn list_outputs(&self) -> Result<Vec<DeviceInfo>, AudioError>;

    /// Opens an input stream; returns the stream handle and the consumer of the captured samples.
    fn open_input(&self, id: &DeviceId, cfg: StreamCfg) -> Result<
        (Box<dyn InputStream>, AudioConsumer),
        AudioError,
    >;

    /// Opens an output stream; returns the stream handle and the producer of the samples to play.
    fn open_output(&self, id: &DeviceId, cfg: StreamCfg) -> Result<
        (Box<dyn OutputStream>, AudioProducer),
        AudioError,
    >;

    /// Subscribes to device additions and removals.
    fn watch_devices(&self) -> Result<DeviceWatchHandle, AudioError>;
}

/// The first device in the list with this identifier, if any.
pub open spec fn first_with_id(devices: Seq<DeviceInfo>, id: Seq<char>) -> Option<DeviceInfo>
    decreases devices.len(),
{
    if devices.len() == 0 {
        None
    } else if devices[0].id@ == id {
        Some(devices[0])
    } else {
        first_with_id(devices.drop_first(), id)
    }
}

pub proof fn lemma_first_with_id_step(devices: Seq<DeviceInfo>, id: Seq<char>, i: int)
    requires
        0 <= i < devices.len(),
        forall|k: int| 0 <= k < i ==> devices[k].id@ != id,
    ensures
        first_with_id(devices, id) == first_with_id(devices.subrange(i, devices.len() as int), id),
    decreases i,
{
    if i > 0 {
        assert(devices[0].id@ != id);
        let rest = devices.drop_first();
        assert forall|k: int| 0 <= k < i - 1 implies rest[k].id@ != id by {
            assert(rest[k] == devices[k + 1]);
        }
        lemma_first_with_id_step(rest, id, i - 1);
        assert(rest.subrange(i - 1, rest.len() as int) =~= devices.subrange(i, devices.len() as int));
    } else {
        assert(devices.subrange(0, devices.len() as int) =~= devices);
    }
}

pub proof fn lemma_first_with_id_none(devices: Seq<DeviceInfo>, id: Seq<char>)
    requires
        forall|k: int| 0 <= k < devices.len() ==> devices[k].id@ != id,
    ensures
        first_with_id(devices, id) is None,
    decreases devices.len(),
{
    if devices.len() > 0 {
        let rest = devices.drop_first();
        assert forall|k: int| 0 <= k < rest.len() implies rest[k].id@ != id by {
            assert(rest[k] == devices[k + 1]);
        }
        lemma_first_with_id_none(rest, id);
    }
}

/// Some device in the list has this identifier.
pub open spec fn has_id(devices: Seq<DeviceInfo>, id: Seq<char>) -> bool {
    exists|k: int| 0 <= k < devices.len() && #[trigger] devices[k].id@ == id
}

/// A device with the identifier exists exactly when there is a first one, and
/// the first one carries the identifier.
pub proof fn lemma_first_with_id_has_id(devices: Seq<DeviceInfo>, id: Seq<char>)
    ensures
        first_with_id(devices, id) is Some <==> has_id(devices, id),
        first_with_id(devices, id) matches Some(d) ==> d.id@ == id,
    decreases devices.len(),
{
    if devices.len() > 0 {
        let rest = devices.drop_first();
        lemma_first_with_id_has_id(rest, id);
        if has_id(rest, id) {
            let k = choose|k: int| 0 <= k < rest.len() && #[trigger] rest[k].id@ == id;
            assert(devices[k + 1].id@ == id);
        }
        if has_id(devices, id) && devices[0].id@ != id {
            let k = choose|k: int| 0 <= k < devices.len() && #[trigger] devices[k].id@ == id;
            assert(rest[k - 1].id@ == id);
        }
    }
}

/// The first device in the list with this identifier.
pub fn find_device<'a>(devices: &'a [DeviceInfo], id: &DeviceId) -> (r: Option<&'a DeviceInfo>)
    ensures
        r is None <==> first_with_id(devices@, id@) is None,
        r matches Some(d) ==> first_with_id(devices@, id@) == Some(*d),
        r is Some <==> has_id(devices@, id@),
{
    proof {
        lemma_first_with_id_has_id(devices@, id@);
    }
    let n = devices.len();
    for i in 0..n
        invariant
            n == devices@.len(),
            forall|k: int| 0 <= k < i ==> devices@[k].id@ != id@,
    {
        if devices[i].id == *id {
            proof {
                lemma_first_with_id_step(devices@, id@, i as int);
            }
            return Some(&devices[i]);
        }
    }
    proof {
        lemma_first_with_id_none(devices@, id@);
    }
    None
}

/// ASCII lower-casing of one character, as `str::to_ascii_lowercase` does it,
/// given by code point.
pub open spec fn lower_code(c: char) -> u32 {
    let v = c as u32;
    if 65 <= v <= 90 {
        (v + 32) as u32
    } else {
        v
    }
}

/// Code points of the ASCII-lower-cased text.
pub open spec fn lowered(s: Seq<char>) -> Seq<u32> {
    s.map_values(|c: char| lower_code(c))
}

/// Code points of a text, unchanged.
pub open spec fn codes(s: Seq<char>) -> Seq<u32> {
    s.map_values(|c: char| c as u32)
}

/// Whether a device name, compared without regard to ASCII case, contains one
/// of the fragments of known virtual audio devices.
pub open spec fn is_virtual_name(name: Seq<char>) -> bool {
    let l = lowered(name);
    ||| seq_contains(l, codes("blackhole"@))
    ||| seq_contains(l, codes("vb-audio"@))
    ||| seq_contains(l, codes("cable"@))
    ||| seq_contains(l, codes("voicemeeter"@))
}

fn lower_code_exec(c: char) -> (r: u32)
    ensures
        r == lower_code(c),
{
    let v = c as u32;
    if 65 <= v && v <= 90 {
        v + 32
    } else {
        v
    }
}

fn lowered_codes(name: &str) -> (r: Vec<u32>)
    ensures
        r@ == lowered(name@),
{
    let n = name.unicode_len();
    let mut out: Vec<u32> = Vec::new();
    for i in 0..n
        invariant
            n == name@.len(),
            out@ == lowered(name@).take(i as int),
    {
        let c = name.get_char(i);
        out.push(lower_code_exec(c));
        assert(out@ =~= lowered(name@).take(i + 1));
    }
    assert(out@ =~= lowered(name@));
    out
}

fn plain_codes(text: &str) -> (r: Vec<u32>)
    ensures
        r@ == codes(text@),
{
    let n = text.unicode_len();
    let mut out: Vec<u32> = Vec::new();
    for i in 0..n
        invariant
            n == text@.len(),
            out@ == codes(text@).take(i as int),
    {
        let c = text.get_char(i);
        out.push(c as u32);
        assert(out@ =~= codes(text@).take(i + 1));
    }
    assert(out@ =~= codes(text@));
    out
}

/// Whether `needle` occurs as a contiguous run inside `hay`.
fn contains_run(hay: &Vec<u32>, needle: &Vec<u32>) -> (r: bool)
    ensures
        r == seq_contains(hay@, needle@),
{
    let h = hay.len();
    let n = needle.len();
    if n > h {
        return false;
    }
    let mut start: usize = 0;
    loop
        invariant
            h == hay@.len(),
            n == needle@.len(),
            n <= h,
            start <= h - n,
            forall|s: int| 0 <= s < start ==> #[trigger] hay@.subrange(s, s + needle@.len()) != needle@,
        decreases h - n - start,
    {
        let mut k: usize = 0;
        let mut matched = true;
        while k < n
            invariant
                h == hay@.len(),
                n == needle@.len(),
                start + n <= h,
                k <= n,
                matched ==> forall|j: int| 0 <= j < k ==> hay@[start + j] == needle@[j],
                !matched ==> hay@.subrange(start as int, start + n) != needle@,
            decreases n - k,
        {
            if hay[start + k] != needle[k] {
                matched = false;
                assert(hay@.subrange(start as int, start + n)[k as int] != needle@[k as int]);
            }
            k = k + 1;
        }
        if matched {
            assert(hay@.subrange(start as int, start + n) =~= needle@);
            return true;
        }
        if start == h - n {
            return false;
        }
        start = start + 1;
    }
}

/// Whether the name matches a known virtual audio device.
pub fn is_virtual_device_name(name: &str) -> (r: bool)
    ensures
        r == is_virtual_name(name@),
{
    let l = lowered_codes(name);
    let a = contains_run(&l, &plain_codes("blackhole"));
    let b = contains_run(&l, &plain_codes("vb-audio"));
    let c = contains_run(&l, &plain_codes("cable"));
    let d = contains_run(&l, &plain_codes("voicemeeter"));
    a || b || c || d
}

/// Description of a device known by its name, given the name of the default
/// device of its direction: the name is also the identifier, the device is
/// the default when the names match, and virtual when the name says so.
pub fn device_info_from_name(name: String, default_name: &Option<String>) -> (r: DeviceInfo)
    ensures
        r.id@ == name@,
        r.name@ == name@,
        r.is_default == (default_name matches Some(d) && d@ == name@),
        r.is_virtual == is_virtual_name(name@),
{
    let is_default = match default_name {
        Some(d) => *d == name,
        None => false,
    };
    let is_virtual = is_virtual_device_name(name.as_str());
    DeviceInfo { is_virtual, is_default, id: DeviceId(name.clone()), name }
}

} // verus!
