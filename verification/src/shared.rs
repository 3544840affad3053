//! One byte source behind a lock, for the windows that share it.

use std::sync::Arc;
use std::sync::Mutex;
use std::sync::MutexGuard;
use vstd::prelude::*;

verus! {

/// `std::sync::Mutex`: a lock around a value. What it holds is not seen.
#[verifier::external_type_specification]
#[verifier::external_body]
#[verifier::reject_recursive_types(T)]
pub struct ExMutex<T: ?Sized>(std::sync::Mutex<T>);

/// `std::sync::MutexGuard`: the lock as held. It is let go when the guard
/// goes out of scope.
#[verifier::external_type_specification]
#[verifier::external_body]
#[verifier::reject_recursive_types(T)]
pub struct ExMutexGuard<'a, T: ?Sized + 'a>(std::sync::MutexGuard<'a, T>);

/// `Mutex::new`: a lock that holds `file`.
#[verifier::external_body]
pub(crate) fn new_lock<T>(file: T) -> Mutex<T> {
    Mutex::new(file)
}

/// `Arc::clone`: one more handle on the value that `handle` points to.
#[verifier::external_body]
pub(crate) fn share<V>(handle: &Arc<V>) -> (r: Arc<V>)
    ensures
        r == *handle,
{
    Arc::clone(handle)
}

/// `Mutex::lock`: waits for the lock. `None` where a holder panicked and
/// left the lock poisoned. Nothing is known of the value found inside.
///
/// A thread that holds the lock must not ask for it again: no function of
/// this crate asks for it while it holds it.
#[verifier::external_body]
pub(crate) fn acquire<T>(lock: &Mutex<T>) -> Option<MutexGuard<'_, T>> {
    match lock.lock() {
        Ok(guard) => Some(guard),
        Err(_) => None,
    }
}

/// `MutexGuard::deref_mut`: the value that the held lock protects.
#[verifier::external_body]
pub(crate) fn protected<'a, 'b, T>(guard: &'a mut MutexGuard<'b, T>) -> &'a mut T {
    &mut **guard
}

} // verus!
