//! Packed protocol version exchanged with the host before any other exported
//! function is trusted.
//!
//! A version is a single `u32` holding `major << 25 | minor << 15 | patch`.
//! The host must match major and minor against the module's build-time
//! version; patch differences are compatible.

use vstd::prelude::*;

verus! {

/// The protocol version this module is built against: major 0, minor 1, patch 0.
pub const ENGINE_VERSION: u32 = (0u32 << 25) | (1u32 << 15) | 0u32;

pub open spec fn spec_make_api_version(major: u32, minor: u32, patch: u32) -> u32 {
    (major << 25) | (minor << 15) | patch
}

pub open spec fn spec_api_version_major(version: u32) -> u32 {
    version >> 25
}

pub open spec fn spec_api_version_minor(version: u32) -> u32 {
    (version >> 15) & 0x3ff
}

pub open spec fn spec_api_version_patch(version: u32) -> u32 {
    version & 0x7fff
}

pub fn make_api_version(major: u32, minor: u32, patch: u32) -> (version: u32)
    ensures
        version == spec_make_api_version(major, minor, patch),
{
    (major << 25) | (minor << 15) | patch
}

pub fn api_version_major(version: u32) -> (major: u32)
    ensures
        major == spec_api_version_major(version),
{
    version >> 25
}

pub fn api_version_minor(version: u32) -> (minor: u32)
    ensures
        minor == spec_api_version_minor(version),
{
    (version >> 15) & 0x3ff
}

pub fn api_version_patch(version: u32) -> (patch: u32)
    ensures
        patch == spec_api_version_patch(version),
{
    version & 0x7fff
}

/// The fields of a version that fit their bit ranges survive packing intact.
pub proof fn lemma_api_version_round_trip(major: u32, minor: u32, patch: u32)
    requires
        major < 0x80,
        minor < 0x400,
        patch < 0x8000,
    ensures
        spec_api_version_major(spec_make_api_version(major, minor, patch)) == major,
        spec_api_version_minor(spec_make_api_version(major, minor, patch)) == minor,
        spec_api_version_patch(spec_make_api_version(major, minor, patch)) == patch,
{
    assert((((major << 25) | (minor << 15) | patch) >> 25) == major) by (bit_vector)
        requires
            major < 0x80,
            minor < 0x400,
            patch < 0x8000,
    ;
    assert(((((major << 25) | (minor << 15) | patch) >> 15) & 0x3ff) == minor) by (bit_vector)
        requires
            major < 0x80,
            minor < 0x400,
            patch < 0x8000,
    ;
    assert((((major << 25) | (minor << 15) | patch) & 0x7fff) == patch) by (bit_vector)
        requires
            major < 0x80,
            minor < 0x400,
            patch < 0x8000,
    ;
}

/// The module's own version unpacks to major 0, minor 1, patch 0.
pub proof fn lemma_engine_version_fields()
    ensures
        spec_api_version_major(ENGINE_VERSION) == 0,
        spec_api_version_minor(ENGINE_VERSION) == 1,
        spec_api_version_patch(ENGINE_VERSION) == 0,
{
    assert((((0u32 << 25) | (1u32 << 15) | 0u32) >> 25) == 0u32) by (bit_vector);
    assert(((((0u32 << 25) | (1u32 << 15) | 0u32) >> 15) & 0x3ff) == 1u32) by (bit_vector);
    assert((((0u32 << 25) | (1u32 << 15) | 0u32) & 0x7fff) == 0u32) by (bit_vector);
}

/// A host version is accepted exactly when its major and minor fields match
/// the module's build-time version.
pub fn api_version_compatible(version: u32) -> (compatible: bool)
    ensures
        compatible == (spec_api_version_major(ENGINE_VERSION) == spec_api_version_major(version)
            && spec_api_version_minor(ENGINE_VERSION) == spec_api_version_minor(version)),
{
    let module_version = ENGINE_VERSION;
    api_version_major(module_version) == api_version_major(version)
        && api_version_minor(module_version) == api_version_minor(version)
}

/// The version the generated boundary reports to the host.
pub fn arete_target_version() -> (version: u32)
    ensures
        version == ENGINE_VERSION,
{
    ENGINE_VERSION
}

} // verus!
