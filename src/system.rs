//! Checking the machine against the installer's requirements.

use vstd::prelude::*;
use vstd::string::*;
use crate::text::{decimal, decimal_string, join2, join3, text_equal};

verus! {

/// The outcome of a requirements check.
pub struct ValidationResult {
    pub passed: bool,
    pub issues: Vec<String>,
    pub warnings: Vec<String>,
    pub os: String,
    pub ram_gb: u64,
    pub disk_gb: u64,
}

/// What was found on the machine.
pub struct SystemInfo {
    pub node: Option<String>,
    pub git: Option<String>,
    pub python: Option<String>,
    pub os: String,
    pub ram_gb: u64,
    pub disk_gb: u64,
}

/// Whole gibibytes in `bytes`, rounded down.
pub fn whole_gib(bytes: u64) -> (r: u64)
    ensures
        r as int == bytes as int / 1073741824,
{
    bytes / 1024 / 1024 / 1024
}

pub open spec fn ram_issue(ram_gb: u64, min_ram: u64) -> Seq<char> {
    "Insufficient RAM: "@ + decimal(ram_gb as nat) + " GB (found) < "@ + decimal(min_ram as nat)
        + " GB (required)"@
}

pub open spec fn disk_issue(disk_gb: u64, min_disk: u64) -> Seq<char> {
    "Low disk space: "@ + decimal(disk_gb as nat) + " GB (found) < "@ + decimal(min_disk as nat)
        + " GB (required)"@
}

/// One of the systems the installer knows.
pub open spec fn known_os(os: Seq<char>) -> bool {
    os == "windows"@ || os == "macos"@ || os == "linux"@
}

fn requirement_text(head: &str, found: u64, required: u64) -> (r: String)
    ensures
        r@ == head@ + decimal(found as nat) + " GB (found) < "@ + decimal(required as nat) + " GB (required)"@,
{
    let f = decimal_string(found);
    let q = decimal_string(required);
    let a = join3(head, f.as_str(), " GB (found) < ");
    join3(a.as_str(), q.as_str(), " GB (required)")
}

/// Checks the machine's memory and free disk space, in whole gigabytes,
/// against the minimums, and its system name against the known ones. The
/// check passes when nothing is short; an unknown system only warns.
pub fn validate_requirements(min_ram: u64, min_disk: u64, os: String, ram_gb: u64, disk_gb: u64) -> (r: ValidationResult)
    ensures
        r.issues@.len() == (if ram_gb < min_ram { 1int } else { 0 }) + (if disk_gb < min_disk { 1int } else { 0 }),
        ram_gb < min_ram ==> r.issues@[0]@ == ram_issue(ram_gb, min_ram),
        disk_gb < min_disk ==> r.issues@.last()@ == disk_issue(disk_gb, min_disk),
        known_os(os@) ==> r.warnings@.len() == 0,
        !known_os(os@) ==> r.warnings@.len() == 1 && r.warnings@[0]@ == "Unrecognized OS detected: "@ + os@,
        r.passed == (ram_gb >= min_ram && disk_gb >= min_disk),
        r.os == os,
        r.ram_gb == ram_gb,
        r.disk_gb == disk_gb,
{
    let mut issues: Vec<String> = Vec::new();
    let mut warnings: Vec<String> = Vec::new();
    if ram_gb < min_ram {
        issues.push(requirement_text("Insufficient RAM: ", ram_gb, min_ram));
    }
    if disk_gb < min_disk {
        issues.push(requirement_text("Low disk space: ", disk_gb, min_disk));
    }
    let known = text_equal(os.as_str(), "windows") || text_equal(os.as_str(), "macos") || text_equal(
        os.as_str(),
        "linux",
    );
    if !known {
        warnings.push(join2("Unrecognized OS detected: ", os.as_str()));
    }
    let passed = issues.len() == 0;
    ValidationResult { passed, issues, warnings, os, ram_gb, disk_gb }
}

} // verus!
