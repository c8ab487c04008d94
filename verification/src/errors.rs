use vstd::prelude::*;

verus! {

/// The kinds of failure a store operation reports.
///
/// `NotFound`: the requested id does not exist (a normal outcome, not fatal).
/// `Validation`: a malformed creation or update payload (empty name,
/// out-of-range position).
/// `Storage`: the backing store could not complete the operation; no partial
/// mutation is ever committed when it is reported.
#[derive(Clone, Copy, Debug, PartialEq, Eq, Structural)]
pub enum StoreError {
    NotFound,
    Validation,
    Storage,
}

/// The status code each error kind is surfaced as at the transport boundary.
pub fn status_for_error(e: StoreError) -> (code: u16)
    ensures
        e is NotFound ==> code == 404,
        e is Validation ==> code == 400,
        e is Storage ==> code == 500,
{
    match e {
        StoreError::NotFound => 404,
        StoreError::Validation => 400,
        StoreError::Storage => 500,
    }
}

} // verus!
