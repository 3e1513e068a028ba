//! Device resolution: which device a stream of a given role captures from.
use vstd::prelude::*;
use crate::dispatch::Role;

verus! {

/// A device as the host enumerates it: its name, when the host could give
/// one, and whether a capture stream can be opened on it.
#[derive(Clone, Debug)]
pub struct DeviceEntry {
    pub name: Option<String>,
    pub capture_capable: bool,
}

/// The device chosen: an entry of the enumeration, or the host's default
/// playback or capture device.
#[derive(Clone, Copy, Debug, PartialEq, Eq, Structural)]
pub enum DeviceChoice {
    Listed(usize),
    DefaultPlayback,
    DefaultCapture,
}

pub open spec fn named(e: DeviceEntry, name: Seq<char>) -> bool {
    match e.name {
        Some(n) => n@ == name,
        None => false,
    }
}

/// An entry of that name, capture-capable when `need_capture` holds.
pub open spec fn fits(e: DeviceEntry, name: Seq<char>, need_capture: bool) -> bool {
    named(e, name) && (!need_capture || e.capture_capable)
}

pub open spec fn has_fit(devs: Seq<DeviceEntry>, name: Seq<char>, need_capture: bool) -> bool {
    exists|i: int| 0 <= i < devs.len() && fits(#[trigger] devs[i], name, need_capture)
}

/// `i` is the first entry that fits.
pub open spec fn is_first_fit(devs: Seq<DeviceEntry>, name: Seq<char>, need_capture: bool, i: int) -> bool {
    &&& 0 <= i < devs.len()
    &&& fits(devs[i], name, need_capture)
    &&& forall|j: int| 0 <= j < i ==> !fits(#[trigger] devs[j], name, need_capture)
}

/// The fallback for a role: the default playback device for the remote
/// side, so that what it plays is captured; the default capture device for
/// the local side.
pub open spec fn role_default(role: Role, has_default_output: bool, has_default_input: bool) -> Option<DeviceChoice> {
    match role {
        Role::Remote => if has_default_output {
            Some(DeviceChoice::DefaultPlayback)
        } else {
            None
        },
        Role::Local => if has_default_input {
            Some(DeviceChoice::DefaultCapture)
        } else {
            None
        },
    }
}

/// What resolution returns: for a requested name, the first capture-capable
/// entry of that name, else the first entry of that name; for no name, or a
/// name that no entry has, the role's default.
pub open spec fn resolution(
    devs: Seq<DeviceEntry>,
    role: Role,
    target: Option<Seq<char>>,
    has_default_output: bool,
    has_default_input: bool,
    r: Option<DeviceChoice>,
) -> bool {
    match target {
        Some(n) => if has_fit(devs, n, true) {
            r matches Some(DeviceChoice::Listed(i)) && is_first_fit(devs, n, true, i as int)
        } else if has_fit(devs, n, false) {
            r matches Some(DeviceChoice::Listed(i)) && is_first_fit(devs, n, false, i as int)
        } else {
            r == role_default(role, has_default_output, has_default_input)
        },
        None => r == role_default(role, has_default_output, has_default_input),
    }
}

pub open spec fn target_view(t: Option<String>) -> Option<Seq<char>> {
    match t {
        Some(s) => Some(s@),
        None => None,
    }
}

fn entry_named(e: &DeviceEntry, name: &String) -> (r: bool)
    ensures
        r == named(*e, name@),
{
    match &e.name {
        Some(n) => *n == *name,
        None => false,
    }
}

fn first_fit(devs: &Vec<DeviceEntry>, name: &String, need_capture: bool) -> (r: Option<usize>)
    ensures
        r matches Some(i) ==> is_first_fit(devs@, name@, need_capture, i as int),
        r is None ==> !has_fit(devs@, name@, need_capture),
{
    let mut i: usize = 0;
    while i < devs.len()
        invariant
            i <= devs@.len(),
            forall|j: int| 0 <= j < i ==> !fits(#[trigger] devs@[j], name@, need_capture),
        decreases devs@.len() - i,
    {
        if entry_named(&devs[i], name) && (!need_capture || devs[i].capture_capable) {
            return Some(i);
        }
        i += 1;
    }
    None
}

/// Chooses the device for a stream of `role`. `devices` is every device the
/// host enumerates, capture and playback; the two flags say whether the
/// host has a default playback and a default capture device. `None` only
/// when neither a named entry nor the role's default exists.
pub fn resolve_device(
    devices: &Vec<DeviceEntry>,
    role: Role,
    target_name: &Option<String>,
    has_default_output: bool,
    has_default_input: bool,
) -> (r: Option<DeviceChoice>)
    ensures
        resolution(devices@, role, target_view(*target_name), has_default_output, has_default_input, r),
{
    if let Some(name) = target_name {
        if let Some(i) = first_fit(devices, name, true) {
            return Some(DeviceChoice::Listed(i));
        }
        if let Some(i) = first_fit(devices, name, false) {
            return Some(DeviceChoice::Listed(i));
        }
    }
    match role {
        Role::Remote => if has_default_output {
            Some(DeviceChoice::DefaultPlayback)
        } else {
            None
        },
        Role::Local => if has_default_input {
            Some(DeviceChoice::DefaultCapture)
        } else {
            None
        },
    }
}

/// A requested name that only playback entries carry, none of them
/// capture-capable, still resolves to an entry of that name, never to a
/// default or to nothing, whatever the role and the defaults.
pub proof fn lemma_playback_name_resolves(
    devs: Seq<DeviceEntry>,
    role: Role,
    name: Seq<char>,
    has_default_output: bool,
    has_default_input: bool,
    r: Option<DeviceChoice>,
)
    requires
        exists|i: int| 0 <= i < devs.len() && named(#[trigger] devs[i], name),
        forall|i: int| 0 <= i < devs.len() && named(#[trigger] devs[i], name) ==> !devs[i].capture_capable,
        resolution(devs, role, Some(name), has_default_output, has_default_input, r),
    ensures
        r matches Some(DeviceChoice::Listed(i)) && 0 <= i < devs.len() && named(devs[i as int], name),
{
    let k = choose|i: int| 0 <= i < devs.len() && named(#[trigger] devs[i], name);
    assert(fits(devs[k], name, false));
    assert(!has_fit(devs, name, true));
}

} // verus!
