//! Messages of the multizone channel.

use vstd::prelude::*;
use crate::shared::{Volume, VolumeModel};

verus! {

/// A multizone notification.
#[derive(Clone, Debug)]
pub enum Multizone {
    DeviceUpdated(DeviceResponse),
}

/// Mathematical image of a [`Multizone`] message.
pub enum MultizoneModel {
    DeviceUpdated(DeviceResponseModel),
}

impl View for Multizone {
    type V = MultizoneModel;

    open spec fn view(&self) -> MultizoneModel {
        match self {
            Multizone::DeviceUpdated(d) => MultizoneModel::DeviceUpdated(d@),
        }
    }
}

/// Mathematical image of a [`DeviceResponse`].
pub struct DeviceResponseModel {
    pub device: DeviceModel,
}

/// The body of a device-updated notification.
#[derive(Clone, Debug)]
pub struct DeviceResponse {
    pub device: Device,
}

impl View for DeviceResponse {
    type V = DeviceResponseModel;

    open spec fn view(&self) -> DeviceResponseModel {
        DeviceResponseModel { device: self.device@ }
    }
}

/// Mathematical image of a [`Device`].
pub struct DeviceModel {
    pub capabilities: u32,
    pub device_id: Seq<char>,
    pub name: Seq<char>,
    pub volume: VolumeModel,
}

/// One device in a multizone group.
#[derive(Clone, Debug)]
pub struct Device {
    pub capabilities: u32,
    pub device_id: String,
    pub name: String,
    pub volume: Volume,
}

impl View for Device {
    type V = DeviceModel;

    open spec fn view(&self) -> DeviceModel {
        DeviceModel {
            capabilities: self.capabilities,
            device_id: self.device_id@,
            name: self.name@,
            volume: self.volume@,
        }
    }
}

} // verus!
