//! What the commands read of MTP objects: their metadata and timestamps.
use vstd::prelude::*;

use crate::text::{push_char, push_decimal_padded, spec_decimal_padded};

verus! {

/// The MTP object format code of folders ("Association").
pub const FORMAT_ASSOCIATION: u16 = 0x3001;

/// The association type of generic folders.
pub const ASSOCIATION_GENERIC_FOLDER: u16 = 0x0001;

/// An MTP date and time (`YYYYMMDDThhmmss`).
#[derive(Debug, Clone, Copy, PartialEq, Eq, Structural)]
pub struct DateTime {
    pub year: u16,
    pub month: u8,
    pub day: u8,
    pub hour: u8,
    pub minute: u8,
    pub second: u8,
}

/// Whether every field of a date and time is in its range (the day is not checked
/// against the month).
pub open spec fn datetime_valid(d: DateTime) -> bool {
    d.year <= 9999 && 1 <= d.month <= 12 && 1 <= d.day <= 31 && d.hour <= 23 && d.minute <= 59
        && d.second <= 59
}

/// The MTP string form of a valid date and time.
pub open spec fn spec_datetime_format(d: DateTime) -> Option<Seq<char>> {
    if datetime_valid(d) {
        Some(
            spec_decimal_padded(d.year as nat, 4) + spec_decimal_padded(d.month as nat, 2)
                + spec_decimal_padded(d.day as nat, 2) + seq!['T'] + spec_decimal_padded(
                d.hour as nat,
                2,
            ) + spec_decimal_padded(d.minute as nat, 2) + spec_decimal_padded(d.second as nat, 2),
        )
    } else {
        None
    }
}

impl DateTime {
    /// A date and time, if every field is in range.
    pub fn new(year: u16, month: u8, day: u8, hour: u8, minute: u8, second: u8) -> (res: Option<
        Self,
    >)
        ensures
            match res {
                Some(d) => datetime_valid(d) && d == (DateTime {
                    year,
                    month,
                    day,
                    hour,
                    minute,
                    second,
                }),
                None => !datetime_valid(DateTime { year, month, day, hour, minute, second }),
            },
    {
        let d = DateTime { year, month, day, hour, minute, second };
        if d.is_valid() {
            Some(d)
        } else {
            None
        }
    }

    /// Whether every field is in range.
    pub fn is_valid(&self) -> (res: bool)
        ensures
            res == datetime_valid(*self),
    {
        self.year <= 9999 && 1 <= self.month && self.month <= 12 && 1 <= self.day && self.day
            <= 31 && self.hour <= 23 && self.minute <= 59 && self.second <= 59
    }

    /// The MTP string form `YYYYMMDDThhmmss`, or `None` when a field is out of range.
    pub fn format(&self) -> (res: Option<String>)
        ensures
            match res {
                Some(s) => spec_datetime_format(*self) == Some(s@),
                None => spec_datetime_format(*self).is_none(),
            },
    {
        if !self.is_valid() {
            return None;
        }
        let mut s = String::new();
        push_decimal_padded(&mut s, self.year as u64, 4);
        push_decimal_padded(&mut s, self.month as u64, 2);
        push_decimal_padded(&mut s, self.day as u64, 2);
        push_char(&mut s, 'T');
        push_decimal_padded(&mut s, self.hour as u64, 2);
        push_decimal_padded(&mut s, self.minute as u64, 2);
        push_decimal_padded(&mut s, self.second as u64, 2);
        Some(s)
    }
}

/// Metadata of an object on the device's storage.
#[derive(Debug)]
pub struct ObjectInfo {
    pub handle: u32,
    pub storage_id: u32,
    pub format: u16,
    pub association_type: u16,
    pub parent: u32,
    pub filename: String,
    pub size: u64,
    pub created: Option<DateTime>,
    pub modified: Option<DateTime>,
}

/// Whether an object is a folder.
pub open spec fn is_folder_object(o: ObjectInfo) -> bool {
    o.format == FORMAT_ASSOCIATION || o.association_type == ASSOCIATION_GENERIC_FOLDER
}

impl ObjectInfo {
    /// Whether this object is a folder: its format is Association or its association
    /// type is a generic folder.
    pub fn is_folder(&self) -> (res: bool)
        ensures
            res == is_folder_object(*self),
    {
        self.format == FORMAT_ASSOCIATION || self.association_type == ASSOCIATION_GENERIC_FOLDER
    }
}

} // verus!
