//! The plain-value model of a discovered device, and the predicate that
//! decides whether a device is a music-capable speaker.

use vstd::prelude::*;
use vstd::string::StringExecFns;

verus! {

/// A discovered device, described by plain values.
///
/// `handle` is the caller's opaque reference to the live device (its position
/// in the caller's table of device handles); control calls planned by this
/// library name the device by that handle. The remaining fields are the
/// device's stable unique identifier, its display (zone) name, its network
/// address, and the service identifiers it advertises.
pub struct DeviceInfo {
    pub handle: usize,
    pub uuid: String,
    pub zone_name: String,
    pub address: String,
    pub service_ids: Vec<String>,
}

/// The mathematical model of a [`DeviceInfo`].
#[verifier::ext_equal]
pub ghost struct DeviceView {
    pub handle: nat,
    pub uuid: Seq<char>,
    pub zone_name: Seq<char>,
    pub address: Seq<char>,
    pub service_ids: Seq<Seq<char>>,
}

impl View for DeviceInfo {
    type V = DeviceView;

    open spec fn view(&self) -> DeviceView {
        DeviceView {
            handle: self.handle as nat,
            uuid: self.uuid@,
            zone_name: self.zone_name@,
            address: self.address@,
            service_ids: self.service_ids.deep_view(),
        }
    }
}

impl DeepView for DeviceInfo {
    type V = DeviceView;

    open spec fn deep_view(&self) -> DeviceView {
        self.view()
    }
}

impl Clone for DeviceInfo {
    fn clone(&self) -> (r: DeviceInfo)
        ensures
            r@ == self@,
    {
        let r = DeviceInfo {
            handle: self.handle,
            uuid: self.uuid.clone(),
            zone_name: self.zone_name.clone(),
            address: self.address.clone(),
            service_ids: self.service_ids.clone(),
        };
        proof {
            assert forall|k: int| 0 <= k < self.service_ids@.len()
                implies r.service_ids.deep_view()[k] == self.service_ids.deep_view()[k] by {
                assert(vstd::pervasive::cloned::<String>(self.service_ids@[k], r.service_ids@[k]));
            }
            assert(r.service_ids.deep_view() =~= self.service_ids.deep_view());
            assert(r@ =~= self@);
        }
        r
    }
}

/// The service identifier that music-capable speakers advertise.
pub open spec fn music_service_id() -> Seq<char> {
    "urn:upnp-org:serviceId:MusicServices"@
}

/// A device is a speaker when its advertised service list carries the
/// music-service identifier.
pub open spec fn spec_is_speaker(d: DeviceView) -> bool {
    d.service_ids.contains(music_service_id())
}

/// Returns true exactly for devices whose advertised services include the
/// music-service identifier.
pub fn is_speaker(device: &DeviceInfo) -> (r: bool)
    ensures
        r == spec_is_speaker(device@),
{
    let target: String = String::from_str("urn:upnp-org:serviceId:MusicServices");
    let mut i: usize = 0;
    while i < device.service_ids.len()
        invariant
            i <= device.service_ids.len(),
            target@ == music_service_id(),
            forall|k: int| 0 <= k < i ==> device@.service_ids[k] != music_service_id(),
        decreases device.service_ids.len() - i,
    {
        if device.service_ids[i] == target {
            assert(device@.service_ids[i as int] == music_service_id());
            return true;
        }
        i = i + 1;
    }
    assert(forall|k: int| 0 <= k < device@.service_ids.len()
        ==> device@.service_ids[k] != music_service_id());
    false
}

} // verus!
