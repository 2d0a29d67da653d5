//! The `process`-like global installed for scripts: a semantic version
//! string assembled from host-supplied numbers, a feature map, and the
//! engine version table. The host hands in plain configuration values; the
//! decimal formatting of the version string is verified here.
use vstd::prelude::*;

verus! {

/// The ASCII decimal digits of `n`, most significant first.
pub open spec fn dec_digits(n: int) -> Seq<u8>
    decreases n,
{
    if n < 10 {
        seq![(0x30 + n) as u8]
    } else {
        dec_digits(n / 10).push((0x30 + n % 10) as u8)
    }
}

/// `MAJOR.MINOR.PATCH` as ASCII bytes.
pub open spec fn version_seq(major: int, minor: int, patch: int) -> Seq<u8> {
    dec_digits(major) + seq![0x2Eu8] + dec_digits(minor) + seq![0x2Eu8] + dec_digits(patch)
}

/// The ASCII decimal rendering of `n`, without sign or padding.
pub fn u32_decimal(n: u32) -> (r: Vec<u8>)
    ensures
        r@ == dec_digits(n as int),
    decreases n,
{
    if n < 10 {
        let mut v: Vec<u8> = Vec::new();
        v.push(0x30u8 + n as u8);
        proof {
            assert(v@ =~= dec_digits(n as int));
        }
        v
    } else {
        let mut v = u32_decimal(n / 10);
        v.push(0x30u8 + (n % 10) as u8);
        v
    }
}

/// Renders `major.minor.patch` as an ASCII semantic version string.
pub fn version_bytes(major: u32, minor: u32, patch: u32) -> (r: Vec<u8>)
    ensures
        r@ == version_seq(major as int, minor as int, patch as int),
{
    let mut r = u32_decimal(major);
    r.push(0x2Eu8);
    let mut minor_digits = u32_decimal(minor);
    r.append(&mut minor_digits);
    r.push(0x2Eu8);
    let mut patch_digits = u32_decimal(patch);
    r.append(&mut patch_digits);
    proof {
        assert(r@ =~= version_seq(major as int, minor as int, patch as int));
    }
    r
}

/// Which optional capabilities this context exposes to scripts.
#[derive(Debug, Clone, Copy, PartialEq, Eq, Structural)]
pub struct ProcessFeatures {
    pub typescript: bool,
    pub test: bool,
}

/// The assembled configuration of the `process` global: `version` and the
/// engine's entry in `versions` hold the same `MAJOR.MINOR.PATCH` ASCII
/// string; `features` mirrors the host flags. Installed atomically on the
/// context, never re-derived piecemeal.
#[derive(Debug)]
pub struct ProcessGlobal {
    pub version: Vec<u8>,
    pub features: ProcessFeatures,
    pub engine_version: Vec<u8>,
}

/// Builds the `process` global from the host application's version numbers
/// and feature flags.
pub fn build_process_global(
    major: u32,
    minor: u32,
    patch: u32,
    ts_supported: bool,
    is_test: bool,
) -> (p: ProcessGlobal)
    ensures
        p.version@ == version_seq(major as int, minor as int, patch as int),
        p.engine_version@ == version_seq(major as int, minor as int, patch as int),
        p.features == (ProcessFeatures { typescript: ts_supported, test: is_test }),
{
    let version = version_bytes(major, minor, patch);
    let engine_version = version_bytes(major, minor, patch);
    ProcessGlobal {
        version,
        features: ProcessFeatures { typescript: ts_supported, test: is_test },
        engine_version,
    }
}

} // verus!
