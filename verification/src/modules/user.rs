use std::sync::{Arc, Mutex};

use vstd::prelude::*;

verus! {

/// std's mutex, carried through unopened.
#[verifier::external_type_specification]
#[verifier::external_body]
#[verifier::reject_recursive_types(T)]
pub struct ExMutex<T: ?Sized>(Mutex<T>);

/// A query to the user store: the slot its answer goes to, and what it asks.
pub enum Querry {
    /// The user of this identifier.
    GetById(Arc<Mutex<Option<String>>>, String),
}

} // verus!
