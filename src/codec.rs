//! The value conventions of the slicer's profile files.
use vstd::prelude::*;
use crate::model::{Notes, Status, NotesV, StatusV, opt_str};

verus! {

/// The value of a field stored in the slicer's one-element-array form: the
/// first element, or unset when the array is absent or empty.
pub open spec fn unwrapped(v: Option<Seq<Seq<char>>>) -> Option<Seq<char>> {
    match v {
        Some(s) => if s.len() > 0 {
            Some(s[0])
        } else {
            None
        },
        None => None,
    }
}

pub open spec fn opt_strs(v: Option<Vec<String>>) -> Option<Seq<Seq<char>>> {
    match v {
        Some(s) => Some(s@.map_values(|x: String| x@)),
        None => None,
    }
}

/// Reads a scalar stored as a one-element array.
pub fn unwrap_single(v: Option<Vec<String>>) -> (r: Option<String>)
    ensures
        opt_str(r) == unwrapped(opt_strs(v)),
{
    match v {
        Some(mut s) => {
            if s.len() == 0 {
                None
            } else {
                Some(s.remove(0))
            }
        },
        None => None,
    }
}

/// Writes a scalar in its one-element-array form; unset stays unset.
pub fn wrap_single(o: Option<String>) -> (r: Option<Vec<String>>)
    ensures
        match opt_str(o) {
            Some(s) => opt_strs(r) == Some(seq![s]),
            None => r is None,
        },
{
    match o {
        Some(s) => {
            let v = vec![s];
            assert(v@.map_values(|x: String| x@) =~= seq![v@[0]@]);
            Some(v)
        },
        None => None,
    }
}

/// Whether a changed path names a profile to reconcile: a file whose
/// extension, if it has one, is `json`.
pub fn is_profile_path(extension: Option<&str>, is_dir: bool) -> (r: bool)
    ensures
        r == (!is_dir && match extension {
            Some(e) => e@ == "json"@,
            None => true,
        }),
{
    if is_dir {
        return false;
    }
    match extension {
        Some(e) => String::from_str(e) == String::from_str("json"),
        None => true,
    }
}

/// The slicer keys that the engine merges; every other key of a profile is
/// a static field.
pub open spec fn reconcilable_key(k: Seq<char>) -> bool {
    k == "nozzle_temperature"@ || k == "nozzle_temperature_initial_layer"@ || k == "hot_plate_temp"@
        || k == "hot_plate_temp_initial_layer"@
}

pub fn is_reconcilable_key(k: &str) -> (r: bool)
    ensures
        r == reconcilable_key(k@),
{
    let s = String::from_str(k);
    s == String::from_str("nozzle_temperature") || s == String::from_str("nozzle_temperature_initial_layer")
        || s == String::from_str("hot_plate_temp") || s == String::from_str("hot_plate_temp_initial_layer")
}

pub open spec fn default_notes() -> NotesV {
    NotesV {
        pool_id: None,
        printer_id: None,
        force_push: None,
        force_pull: None,
        dry_run: None,
        last_modified: None,
        status: StatusV::Noop,
        debug: Seq::empty(),
        errors: Seq::empty(),
        desired_local: None,
        desired_remote: None,
    }
}

impl Notes {
    /// Notes of a profile that has never been reconciled: every field unset
    /// and both logs empty.
    pub fn empty() -> (r: Notes)
        ensures
            r@ == default_notes(),
    {
        let r = Notes {
            pool_id: None,
            printer_id: None,
            force_push: None,
            force_pull: None,
            dry_run: None,
            last_modified: None,
            status: Status::Noop,
            debug: Vec::new(),
            errors: Vec::new(),
            desired_local: None,
            desired_remote: None,
        };
        assert(r@.debug =~= Seq::empty());
        assert(r@.errors =~= Seq::empty());
        r
    }
}

} // verus!
