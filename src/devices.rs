//! Listing output devices and choosing the default one, over the entries that
//! the system mixer reports.
use vstd::prelude::*;

verus! {

/// An output device as the system mixer reports it.
#[derive(Debug, Clone)]
pub struct DeviceEntry {
    pub index: u32,
    pub name: Option<String>,
    pub description: Option<String>,
}

/// An output device as it is shown to remote callers.
#[derive(Debug, Clone)]
pub struct Device {
    pub id: u32,
    pub name: String,
}

/// Why the default device could not be set.
#[derive(Debug, Clone, Copy, PartialEq, Eq, Structural)]
pub enum SetDeviceError {
    /// No listed device has the requested id.
    NotFound,
    /// The device with the requested id has no name to select it by.
    Unnamed,
}

/// The name shown for a device without a description.
pub open spec fn unknown_name() -> Seq<char> {
    "Unknown"@
}

/// The name shown for an entry: its description, or `Unknown`.
pub open spec fn shown_name(e: DeviceEntry) -> Seq<char> {
    match e.description {
        Some(d) => d@,
        None => unknown_name(),
    }
}

/// The first position in `entries` whose index is `id`, if any.
pub open spec fn is_first_with(entries: Seq<DeviceEntry>, id: u32, k: int) -> bool {
    &&& 0 <= k < entries.len()
    &&& entries[k].index == id
    &&& forall|j: int| 0 <= j < k ==> entries[j].index != id
}

/// The device shown for one mixer entry.
pub fn describe(e: &DeviceEntry) -> (d: Device)
    ensures
        d.id == e.index,
        d.name@ == shown_name(*e),
{
    let name = match &e.description {
        Some(s) => s.clone(),
        None => "Unknown".to_owned(),
    };
    proof {
        reveal_strlit("Unknown");
    }
    Device { id: e.index, name }
}

/// The devices shown for a listing, in the mixer's order.
pub fn list_devices(entries: &Vec<DeviceEntry>) -> (r: Vec<Device>)
    ensures
        r@.len() == entries@.len(),
        forall|i: int|
            0 <= i < r@.len() ==> (#[trigger] r@[i]).id == entries@[i].index && r@[i].name@
                == shown_name(entries@[i]),
{
    let mut r: Vec<Device> = Vec::new();
    let mut i: usize = 0;
    while i < entries.len()
        invariant
            i <= entries@.len(),
            r@.len() == i,
            forall|j: int|
                0 <= j < i ==> (#[trigger] r@[j]).id == entries@[j].index && r@[j].name@
                    == shown_name(entries@[j]),
        decreases entries@.len() - i,
    {
        r.push(describe(&entries[i]));
        i = i + 1;
    }
    r
}

/// Decides a request to make device `id` the default, against the most recent
/// listing. Returns the name to hand to the mixer: that of the first entry with
/// index `id`. Fails with `NotFound` when no entry has that index, and with
/// `Unnamed` when that entry has no name. Nothing is changed either way: the
/// caller acts on the mixer only on success.
pub fn select_device(entries: &Vec<DeviceEntry>, id: u32) -> (r: Result<String, SetDeviceError>)
    ensures
        (r == Err::<String, SetDeviceError>(SetDeviceError::NotFound)) <==> (forall|j: int|
            0 <= j < entries@.len() ==> entries@[j].index != id),
        r is Ok ==> exists|k: int|
            is_first_with(entries@, id, k) && entries@[k].name is Some && r->Ok_0@
                == entries@[k].name->0@,
        r == Err::<String, SetDeviceError>(SetDeviceError::Unnamed) ==> exists|k: int|
            is_first_with(entries@, id, k) && entries@[k].name is None,
        (exists|k: int| is_first_with(entries@, id, k) && entries@[k].name is Some) ==> r is Ok,
{
    let mut i: usize = 0;
    while i < entries.len()
        invariant
            i <= entries@.len(),
            forall|j: int| 0 <= j < i ==> entries@[j].index != id,
        decreases entries@.len() - i,
    {
        if entries[i].index == id {
            assert(is_first_with(entries@, id, i as int));
            return match &entries[i].name {
                Some(n) => Ok(n.clone()),
                None => Err(SetDeviceError::Unnamed),
            };
        }
        i = i + 1;
    }
    Err(SetDeviceError::NotFound)
}

} // verus!
