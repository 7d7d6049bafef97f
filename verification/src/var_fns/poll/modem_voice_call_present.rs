//! Whether a modem has a voice call.

use vstd::prelude::*;
use crate::text::str_eq;
use crate::vars::value::VarValue;

verus! {

/// The interface of a modem that can hold voice calls.
pub const VOICE_INTERFACE: &'static str = "org.freedesktop.ModemManager1.Modem.Voice";

/// A device of the modem manager: its object path and its interfaces.
#[derive(Clone, Debug, PartialEq, Eq)]
pub struct ModemDevice {
    pub path: String,
    pub interfaces: Vec<String>,
}

/// The device has the voice interface.
pub open spec fn has_voice(device: ModemDevice) -> bool {
    exists|i: int|
        0 <= i < device.interfaces@.len() && (#[trigger] device.interfaces@[i])@
            == VOICE_INTERFACE@
}

/// The paths of the first `n` devices that have the voice interface.
pub open spec fn voice_paths(devices: Seq<ModemDevice>, n: int) -> Seq<Seq<char>>
    decreases n,
{
    if n <= 0 {
        Seq::empty()
    } else if has_voice(devices[n - 1]) {
        voice_paths(devices, n - 1).push(devices[n - 1].path@)
    } else {
        voice_paths(devices, n - 1)
    }
}

/// The texts of a run of strings.
pub open spec fn path_texts(paths: Seq<String>) -> Seq<Seq<char>> {
    paths.map_values(|p: String| p@)
}

fn device_has_voice(device: &ModemDevice) -> (b: bool)
    ensures
        b == has_voice(*device),
{
    let mut i: usize = 0;
    while i < device.interfaces.len()
        invariant
            i <= device.interfaces.len(),
            forall|j: int| 0 <= j < i ==> (#[trigger] device.interfaces@[j])@ != VOICE_INTERFACE@,
        decreases device.interfaces.len() - i,
    {
        if str_eq(device.interfaces[i].as_str(), VOICE_INTERFACE) {
            return true;
        }
        i += 1;
    }
    false
}

/// The object paths of the devices that have the voice interface, in their order.
pub fn voice_devices(devices: &Vec<ModemDevice>) -> (paths: Vec<String>)
    ensures
        path_texts(paths@) == voice_paths(devices@, devices@.len() as int),
{
    let mut paths: Vec<String> = Vec::new();
    let mut i: usize = 0;
    while i < devices.len()
        invariant
            i <= devices.len(),
            path_texts(paths@) == voice_paths(devices@, i as int),
        decreases devices.len() - i,
    {
        let ghost before = paths@;
        if device_has_voice(&devices[i]) {
            paths.push(devices[i].path.clone());
            assert(path_texts(paths@) =~= path_texts(before).push(devices@[i as int].path@));
        }
        i += 1;
    }
    paths
}

/// Some device has a call.
pub open spec fn any_call(devices_have_calls: Seq<bool>) -> bool {
    exists|i: int| 0 <= i < devices_have_calls.len() && #[trigger] devices_have_calls[i]
}

/// The value of the variable for what the voice devices said: true when some
/// device has a call.
pub fn call_present(devices_have_calls: &Vec<bool>) -> (value: VarValue)
    ensures
        value == VarValue::Bool(any_call(devices_have_calls@)),
{
    let mut i: usize = 0;
    while i < devices_have_calls.len()
        invariant
            i <= devices_have_calls.len(),
            forall|j: int| 0 <= j < i ==> !(#[trigger] devices_have_calls@[j]),
        decreases devices_have_calls.len() - i,
    {
        if devices_have_calls[i] {
            return VarValue::Bool(true);
        }
        i += 1;
    }
    VarValue::Bool(false)
}

} // verus!
