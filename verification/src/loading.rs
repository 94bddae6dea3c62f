//! Getting at the module that a `load` names.
//!
//! Resolving a path and fetching a module are the host's work: they may look at the disk or at
//! documents that are open elsewhere. The functions here take them as arguments and promise
//! something for every outcome.

use vstd::prelude::*;

verus! {

/// Whether `reply` can be the outcome of resolving `path` and fetching what it resolves to: the
/// error of the step that failed, or what was fetched.
pub open spec fn can_load<U, M, E, R: Fn(&str) -> Result<U, E>, L: Fn(&U) -> Result<Option<M>, E>>(
    path: Seq<char>,
    resolve: R,
    fetch: L,
    reply: Result<Option<M>, E>,
) -> bool {
    exists|asked: &str, resolved: Result<U, E>|
        {
            &&& asked@ == path
            &&& #[trigger] call_ensures(resolve, (asked,), resolved)
            &&& match resolved {
                Ok(uri) => call_ensures(fetch, (&uri,), reply),
                Err(error) => reply == Err::<Option<M>, E>(error),
            }
        }
}

/// Resolves `path` and fetches what it resolves to. `Ok(None)` means that there is no such
/// module.
pub fn load_module<U, M, E, R: Fn(&str) -> Result<U, E>, L: Fn(&U) -> Result<Option<M>, E>>(
    path: &str,
    resolve: &R,
    fetch: &L,
) -> (r: Result<Option<M>, E>)
    requires
        forall|p: &str| #[trigger] call_requires(*resolve, (p,)),
        forall|uri: &U| #[trigger] call_requires(*fetch, (uri,)),
    ensures
        can_load(path@, *resolve, *fetch, r),
{
    let resolved = resolve(path);
    let ghost outcome = resolved;
    match resolved {
        Ok(uri) => {
            let reply = fetch(&uri);
            assert(call_ensures(*resolve, (path,), outcome));
            reply
        },
        Err(error) => {
            assert(call_ensures(*resolve, (path,), outcome));
            Err(error)
        },
    }
}

} // verus!
