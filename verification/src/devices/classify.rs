//! Device use, decided by direction and the virtual-device flag.

use crate::audio::backend::{DeviceInfo, Direction};
use vstd::prelude::*;

verus! {

#[derive(Debug, Clone, Copy, PartialEq, Eq, Structural)]
pub enum DeviceUse {
    VirtualMic,
    VirtualSpeaker,
    Physical,
}

/// A virtual output is the virtual microphone that receives the translation;
/// a virtual input is the virtual speaker that captures the far side;
/// everything else is physical.
pub open spec fn use_of(is_virtual: bool, dir: Direction) -> DeviceUse {
    if !is_virtual {
        DeviceUse::Physical
    } else if dir == Direction::Output {
        DeviceUse::VirtualMic
    } else {
        DeviceUse::VirtualSpeaker
    }
}

pub fn classify(info: &DeviceInfo, dir: Direction) -> (r: DeviceUse)
    ensures
        r == use_of(info.is_virtual, dir),
{
    match (info.is_virtual, dir) {
        (true, Direction::Output) => DeviceUse::VirtualMic,
        (true, Direction::Input) => DeviceUse::VirtualSpeaker,
        (false, _) => DeviceUse::Physical,
    }
}

} // verus!
