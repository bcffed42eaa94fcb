//! Detection of other local-dev tools (Valet, Herd, DDEV, Lando), so henk
//! coexists rather than fighting them for `.test`, :80 and :443.

use vstd::prelude::*;
use vstd::string::*;

use crate::detect::report::{item, row, DetectionItem, ItemView, Status};

verus! {

/// A tool that owns `.test`.
pub open spec fn test_owner(name: Seq<char>, detected: bool) -> ItemView {
    if detected {
        row(name, Status::Warn, "detected — henk will avoid `.test` to coexist"@)
    } else {
        row(name, Status::Okay, "not detected"@)
    }
}

/// The Valet row.
pub open spec fn valet_of(detected: bool) -> ItemView {
    test_owner("Laravel Valet"@, detected)
}

/// The Herd row.
pub open spec fn herd_of(detected: bool) -> ItemView {
    test_owner("Laravel Herd"@, detected)
}

/// A tool that only matters when it holds the same ports.
pub open spec fn tool_of(name: Seq<char>, detected: bool) -> ItemView {
    if detected {
        row(name, Status::Info, "detected — fine unless it's running on :80/:443"@)
    } else {
        row(name, Status::Okay, "not detected"@)
    }
}

/// Valet is there when its config directory exists or its program is in
/// `$PATH`.
pub fn valet_detected(config_dir: bool, in_path: bool) -> (r: bool)
    ensures
        r == (config_dir || in_path),
{
    config_dir || in_path
}

/// Herd is there when its application exists or its program is in `$PATH`.
pub fn herd_detected(application: bool, in_path: bool) -> (r: bool)
    ensures
        r == (application || in_path),
{
    application || in_path
}

/// The Valet row.
pub fn valet_item(detected: bool) -> (r: DetectionItem)
    ensures
        r@ == valet_of(detected),
{
    if detected {
        item(
            "Laravel Valet",
            Status::Warn,
            "detected — henk will avoid `.test` to coexist".to_owned(),
        )
    } else {
        item("Laravel Valet", Status::Okay, "not detected".to_owned())
    }
}

/// The Herd row.
pub fn herd_item(detected: bool) -> (r: DetectionItem)
    ensures
        r@ == herd_of(detected),
{
    if detected {
        item(
            "Laravel Herd",
            Status::Warn,
            "detected — henk will avoid `.test` to coexist".to_owned(),
        )
    } else {
        item("Laravel Herd", Status::Okay, "not detected".to_owned())
    }
}

/// The DDEV row.
pub fn ddev_item(detected: bool) -> (r: DetectionItem)
    ensures
        r@ == tool_of("DDEV"@, detected),
{
    if detected {
        item(
            "DDEV",
            Status::Info,
            "detected — fine unless it's running on :80/:443".to_owned(),
        )
    } else {
        item("DDEV", Status::Okay, "not detected".to_owned())
    }
}

/// The Lando row.
pub fn lando_item(detected: bool) -> (r: DetectionItem)
    ensures
        r@ == tool_of("Lando"@, detected),
{
    if detected {
        item(
            "Lando",
            Status::Info,
            "detected — fine unless it's running on :80/:443".to_owned(),
        )
    } else {
        item("Lando", Status::Okay, "not detected".to_owned())
    }
}

/// A tool that owns `.test` is a warning when it is there, one that may only
/// hold the same ports a remark. A tool that is not there is fine.
pub proof fn law_other_tools_are_reported(name: Seq<char>, detected: bool)
    ensures
        valet_of(detected).status == (if detected {
            Status::Warn
        } else {
            Status::Okay
        }),
        herd_of(detected).status == valet_of(detected).status,
        valet_of(detected).name == "Laravel Valet"@,
        herd_of(detected).name == "Laravel Herd"@,
        tool_of(name, detected).status == (if detected {
            Status::Info
        } else {
            Status::Okay
        }),
        tool_of(name, detected).name == name,
{
}

} // verus!
