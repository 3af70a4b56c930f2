//! `tp7 stat`: the metadata report of one remote object.
use vstd::prelude::*;

use crate::error::AppError;
use crate::mtp::{ObjectInfo, spec_datetime_format};
use crate::remote::{RemoteObject, RemoteTarget, ResolvedPath, remote_object_matches};
use crate::text::{push_hex_padded, spec_hex_padded};

verus! {

/// The report of `tp7 stat`.
#[derive(Debug)]
pub struct StatReport {
    pub path: String,
    pub object: RemoteObject,
    pub format: String,
    pub format_code: String,
    pub created: Option<String>,
}

/// The report for the resolved path; `format_name` is the name of the object's format
/// code. The root has no metadata.
pub fn stat_report(resolved: ResolvedPath, format_name: String) -> (res: Result<StatReport, AppError>)
    ensures
        match resolved.target {
            RemoteTarget::Root => res matches Err(AppError::RemotePathIsRoot),
            RemoteTarget::Object(o) => res matches Ok(r) && r.path == resolved.path
                && remote_object_matches(r.object, o) && r.format == format_name && r.format_code@
                == "0x"@ + spec_hex_padded(o.format as nat, 4, false) && match o.created {
                Some(d) => match r.created {
                    Some(c) => spec_datetime_format(d) == Some(c@),
                    None => spec_datetime_format(d).is_none(),
                },
                None => r.created.is_none(),
            },
        },
{
    let object = match resolved.target {
        RemoteTarget::Root => {
            return Err(AppError::RemotePathIsRoot);
        },
        RemoteTarget::Object(o) => o,
    };
    let mut format_code = String::from_str("0x");
    push_hex_padded(&mut format_code, object.format as u64, 4, false);
    let created = match object.created {
        Some(d) => d.format(),
        None => None,
    };
    Ok(
        StatReport {
            path: resolved.path,
            object: RemoteObject::from_object(object),
            format: format_name,
            format_code,
            created,
        },
    )
}

} // verus!
