//! The errors the transformation can report.
//!
//! Every error aborts the whole run: there is no retry and no partial output.
//! The library only returns these values; turning one into a process exit is
//! the caller's concern.

use vstd::prelude::*;

verus! {

/// Why a run of the transformation failed.
#[derive(Debug)]
pub enum WextError {
    /// A metadata element lacked an attribute its variant requires; the
    /// payload is the attribute's name.
    MissingRequiredAttribute(String),
    /// A literal marker the script parser needs (the import statement, the
    /// end of a statement, a placeholder token) was not found; the payload is
    /// the marker text.
    MissingExpectedMarker(String),
    /// More than one manifest candidate was selected.
    AmbiguousManifestSelection,
    /// The pass ended without selecting a manifest.
    NoManifestSelected,
}

/// The descriptive text `message` returns for each error.
pub open spec fn spec_message(e: WextError) -> Seq<char> {
    match e {
        WextError::MissingRequiredAttribute(a) => "missing required attribute: "@ + a@,
        WextError::MissingExpectedMarker(m) => "expected marker not found: "@ + m@,
        WextError::AmbiguousManifestSelection => "multiple manifests were selected, but only one is allowed"@,
        WextError::NoManifestSelected => "no manifest was selected, but one is required"@,
    }
}

impl WextError {
    /// A human-readable description of the failure, naming the attribute or
    /// marker at fault where there is one.
    pub fn message(&self) -> (r: String)
        ensures
            r@ == spec_message(*self),
    {
        match self {
            WextError::MissingRequiredAttribute(a) => {
                let mut m = String::from_str("missing required attribute: ");
                m.append(a.as_str());
                m
            },
            WextError::MissingExpectedMarker(t) => {
                let mut m = String::from_str("expected marker not found: ");
                m.append(t.as_str());
                m
            },
            WextError::AmbiguousManifestSelection => {
                String::from_str("multiple manifests were selected, but only one is allowed")
            },
            WextError::NoManifestSelected => {
                String::from_str("no manifest was selected, but one is required")
            },
        }
    }
}

} // verus!
