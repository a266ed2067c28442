//! The record type served by the remote smart-device service.

use vstd::prelude::*;

verus! {

/// Mathematical image of one device record: the identifier, and every
/// textual field as a sequence of characters.
pub ghost struct DeviceModel {
    pub id: u32,
    pub name: Seq<char>,
    pub model: Seq<char>,
    pub avg_data_rate: Seq<char>,
    pub data_per_hour: Seq<char>,
    pub namespace_url: Seq<char>,
    pub description: Seq<char>,
    pub protocol: Seq<char>,
}

/// One networked device, exactly as one JSON object of the service's
/// response describes it.
///
/// The two rate fields are held as the JSON number literal that the service
/// sent (for example `"1.5"` or `"36.0"`), so that no precision is decided
/// here; a consumer converts them to its numeric type of choice.
#[derive(Debug)]
pub struct SmartDevice {
    pub id: u32,
    pub name: String,
    pub model: String,
    pub avg_data_rate: String,
    pub data_per_hour: String,
    pub namespace_url: String,
    pub description: String,
    pub protocol: String,
}

impl View for SmartDevice {
    type V = DeviceModel;

    open spec fn view(&self) -> DeviceModel {
        DeviceModel {
            id: self.id,
            name: self.name@,
            model: self.model@,
            avg_data_rate: self.avg_data_rate@,
            data_per_hour: self.data_per_hour@,
            namespace_url: self.namespace_url@,
            description: self.description@,
            protocol: self.protocol@,
        }
    }
}

impl PartialEq for SmartDevice {
    fn eq(&self, other: &SmartDevice) -> (r: bool) {
        self.id == other.id && self.name == other.name && self.model == other.model
            && self.avg_data_rate == other.avg_data_rate
            && self.data_per_hour == other.data_per_hour
            && self.namespace_url == other.namespace_url
            && self.description == other.description && self.protocol == other.protocol
    }
}

impl vstd::std_specs::cmp::PartialEqSpecImpl for SmartDevice {
    open spec fn obeys_eq_spec() -> bool {
        true
    }

    open spec fn eq_spec(&self, other: &SmartDevice) -> bool {
        self@ == other@
    }
}

} // verus!
