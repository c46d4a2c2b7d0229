//! What a build for a target is made with.
use vstd::prelude::*;
use vstd::string::*;

use crate::text::same_text;

verus! {

/// Whether a build for a target uses jemalloc where it is asked for. Some targets cannot: those
/// where its configuration cannot be set, where it cannot replace the allocator of the process, and
/// where it does not build.
pub open spec fn target_takes_jemalloc(
    arch: Seq<char>,
    os: Seq<char>,
    vendor: Seq<char>,
) -> bool {
    &&& arch != "wasm32"@
    &&& os != "windows"@
    &&& os != "android"@
    &&& os != "bitrig"@
    &&& os != "dragonfly"@
    &&& os != "fuchsia"@
    &&& os != "redox"@
    &&& vendor != "rumprun"@
}

/// Whether a build uses jemalloc.
pub fn uses_jemalloc(
    feature_enabled: bool,
    target_arch: &str,
    target_os: &str,
    target_vendor: &str,
) -> (jemalloc: bool)
    ensures
        jemalloc == (feature_enabled && target_takes_jemalloc(
            target_arch@,
            target_os@,
            target_vendor@,
        )),
{
    feature_enabled && !same_text(target_arch, "wasm32") && !same_text(target_os, "windows")
        && !same_text(target_os, "android") && !same_text(target_os, "bitrig") && !same_text(
        target_os,
        "dragonfly",
    ) && !same_text(target_os, "fuchsia") && !same_text(target_os, "redox") && !same_text(
        target_vendor,
        "rumprun",
    )
}

/// What is known of the source that a build is made from, where it may not be known.
pub fn known_or_unknown(value: Option<&str>) -> (text: String)
    ensures
        text@ == (match value {
            Some(value) => value@,
            None => "unknown"@,
        }),
{
    match value {
        Some(value) => value.to_owned(),
        None => "unknown".to_owned(),
    }
}

} // verus!
