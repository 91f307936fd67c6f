//! The capture target: a window/process pair offered for selection.
//!
//! The session only ever reads the target's identifier (to ask the external
//! window-capture capability for a still image) and its display name; both are
//! held here as plain values, while the capability itself stays with the
//! caller.

use vstd::prelude::*;

verus! {

/// A capturable window/process, identified by the window id.
#[derive(Debug, Clone)]
pub struct Process {
    pub id: u32,
    pub name: String,
}

impl Process {
    pub fn new(id: u32, name: String) -> (r: Process)
        ensures
            r.id == id,
            r.name == name,
    {
        Process { id, name }
    }
}

/// Two entries denote the same process exactly when their ids agree, whatever
/// their display names say.
impl PartialEq for Process {
    fn eq(&self, other: &Self) -> (r: bool)
        ensures
            r == (self.id == other.id),
    {
        self.id == other.id
    }
}

impl vstd::std_specs::cmp::PartialEqSpecImpl for Process {
    open spec fn obeys_eq_spec() -> bool {
        true
    }

    open spec fn eq_spec(&self, other: &Self) -> bool {
        self.id == other.id
    }
}

/// The display name of a process entry, built from whichever of the window
/// title and the application name could be read: both joined by a dash, the
/// one that exists, or a placeholder when neither could be.
pub fn process_display_name(app_name: Option<String>, title: Option<String>) -> (r: String)
    ensures
        match (app_name, title) {
            (Some(a), Some(t)) => r@ == a@ + " - "@ + t@,
            (Some(a), None) => r@ == a@,
            (None, Some(t)) => r@ == t@,
            (None, None) => r@ == "Unknown"@,
        },
{
    match (app_name, title) {
        (Some(a), Some(t)) => {
            let mut r = a;
            r.append(" - ");
            r.append(t.as_str());
            r
        },
        (Some(a), None) => a,
        (None, Some(t)) => t,
        (None, None) => String::from_str("Unknown"),
    }
}

} // verus!
