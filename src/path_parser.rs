//! Resolving the optional root argument to a path that exists.

use vstd::prelude::*;
use crate::error::FinderError;

verus! {

/// The root used when none is given: the current directory.
pub const DEFAULT_PATH: &'static str = ".";

/// The characters of the default root.
pub open spec fn default_path() -> Seq<char> {
    seq!['.']
}

/// Relies on `std::path::Path::exists`: whether something is at the path now,
/// as the file system answers; nothing is promised about the answer.
#[verifier::external_body]
fn path_exists(p: &str) -> (r: bool) {
    std::path::Path::new(p).exists()
}

/// The resolver's answer once it is known whether a given path exists: the
/// default root when none is given, the path itself when it exists, else
/// `PathNotFound` with the path.
pub fn resolve<'a>(path: Option<&'a str>, exists: bool) -> (r: Result<&'a str, FinderError>)
    ensures
        path is None ==> (r is Ok && r->Ok_0@ == default_path()),
        path is Some && exists ==> (r is Ok && r->Ok_0@ == path->0@),
        path is Some && !exists ==> (r is Err && r->Err_0 is PathNotFound
            && r->Err_0->PathNotFound_0@ == path->0@),
{
    match path {
        Some(p) => {
            if exists {
                Ok(p)
            } else {
                Err(FinderError::PathNotFound(p.to_string()))
            }
        },
        None => {
            proof {
                reveal_strlit(".");
            }
            Ok(DEFAULT_PATH)
        },
    }
}

/// The default root when no path is given; otherwise the path if it exists
/// now, else `PathNotFound` with the path.
pub fn parse<'a>(path: Option<&'a str>) -> (r: Result<&'a str, FinderError>)
    ensures
        path is None ==> (r is Ok && r->Ok_0@ == default_path()),
        path is Some ==> (r is Ok && r->Ok_0@ == path->0@) || (r is Err && r->Err_0 is PathNotFound
            && r->Err_0->PathNotFound_0@ == path->0@),
{
    let exists = match path {
        Some(p) => path_exists(p),
        None => true,
    };
    resolve(path, exists)
}

} // verus!
