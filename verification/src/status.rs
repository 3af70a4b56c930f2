//! `tp7 status`: what the device reports of itself and its storages over MTP.
use vstd::prelude::*;

use crate::device::Tp7Device;

verus! {

/// The report of `tp7 status`.
#[derive(Debug, Clone)]
pub struct StatusReport {
    pub usb: Tp7Device,
    pub mtp: MtpStatus,
}

/// What the device says of itself over MTP.
#[derive(Debug, Clone)]
pub struct MtpStatus {
    pub manufacturer: String,
    pub model: String,
    pub device_version: String,
    pub serial_number: String,
    pub vendor_extension: Option<String>,
    pub supports_rename: bool,
    pub storage_count: usize,
    pub storages: Vec<StorageStatus>,
}

/// One storage of the device.
#[derive(Debug, Clone)]
pub struct StorageStatus {
    pub id: u64,
    pub description: String,
    pub volume_identifier: String,
    pub max_capacity_bytes: u64,
    pub free_space_bytes: u64,
    pub free_space_objects: Option<u64>,
}

/// The status of one storage from its id, description, volume identifier, capacity
/// and free space (the free object count is not reported).
pub fn storage_status(id: u64, description: String, volume_identifier: String, max_capacity_bytes: u64, free_space_bytes: u64) -> (res: StorageStatus)
    ensures
        res.id == id,
        res.description == description,
        res.volume_identifier == volume_identifier,
        res.max_capacity_bytes == max_capacity_bytes,
        res.free_space_bytes == free_space_bytes,
        res.free_space_objects.is_none(),
{
    StorageStatus {
        id,
        description,
        volume_identifier,
        max_capacity_bytes,
        free_space_bytes,
        free_space_objects: None,
    }
}

/// The MTP status from the device information and its storages; the storage count is
/// the number of storages, and no vendor extension is reported.
pub fn mtp_status(
    manufacturer: String,
    model: String,
    device_version: String,
    serial_number: String,
    supports_rename: bool,
    storages: Vec<StorageStatus>,
) -> (res: MtpStatus)
    ensures
        res.manufacturer == manufacturer,
        res.model == model,
        res.device_version == device_version,
        res.serial_number == serial_number,
        res.vendor_extension.is_none(),
        res.supports_rename == supports_rename,
        res.storage_count == storages@.len(),
        res.storages == storages,
{
    let storage_count = storages.len();
    MtpStatus {
        manufacturer,
        model,
        device_version,
        serial_number,
        vendor_extension: None,
        supports_rename,
        storage_count,
        storages,
    }
}

} // verus!
