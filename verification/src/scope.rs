//! Scope resolution: one location plus an optional sub-path become the
//! normalized logical prefix that bounds the whole scan.

use vstd::prelude::*;
use crate::tasks::{Error, SubPathError};

verus! {

/// A storage location: identifier plus root filesystem path. Immutable for
/// the duration of a run.
#[derive(Debug, Clone, PartialEq, Eq)]
pub struct Location {
    pub id: i32,
    /// Root path as recorded in the index; may be unset, which is a
    /// configuration error.
    pub path: Option<String>,
}

/// The normalized logical path prefix a run scans under: either an existing
/// entry for the requested sub-path, or a synthetic directory scope covering
/// the whole location.
#[derive(Debug, Clone, PartialEq, Eq)]
pub struct ScopePrefix {
    pub location_id: i32,
    pub path: String,
    pub is_dir: bool,
}

/// Resolves the scope of a run, once, before any page is queried.
///
/// `sub_path_entry` is what the index lookup for the requested sub-path
/// returned: an existing entry, nothing, or a lookup failure. An existing
/// entry is used as is; with nothing found the scan falls back to a synthetic
/// root scope built from the location's root path; a lookup failure or an
/// unset root path is fatal and nothing is ever dispatched.
pub fn resolve_scope(location: &Location, sub_path_entry: Result<Option<ScopePrefix>, SubPathError>) -> (r: Result<
    ScopePrefix,
    Error,
>)
    ensures
        match r {
            Ok(scope) => {
                &&& location.path is Some
                &&& match sub_path_entry {
                    Ok(Some(entry)) => scope == entry,
                    Ok(None) => {
                        &&& scope.location_id == location.id
                        &&& scope.path@ == location.path->Some_0@
                        &&& scope.is_dir == true
                    },
                    Err(_) => false,
                }
            },
            Err(e) => {
                &&& location.path is None <==> e == Error::MissingLocationPath
                &&& (location.path is Some ==> (sub_path_entry matches Err(se) && e
                    == Error::SubPath(se)))
            },
        },
{
    let root = match &location.path {
        Some(p) => p,
        None => {
            return Err(Error::MissingLocationPath);
        },
    };
    match sub_path_entry {
        Err(se) => Err(Error::SubPath(se)),
        Ok(Some(entry)) => Ok(entry),
        Ok(None) => Ok(
            ScopePrefix { location_id: location.id, path: root.clone(), is_dir: true },
        ),
    }
}

} // verus!
