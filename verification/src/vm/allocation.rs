//! The generator that heap addresses come from.

use vstd::prelude::*;
use rand::rngs::StdRng;
use rand::{Rng, SeedableRng};
use std::cell::RefCell;
use std::sync::{Arc, Mutex};

verus! {

/// rand's standard generator.
#[verifier::external_type_specification]
#[verifier::external_body]
pub struct ExStdRng(StdRng);

/// std's lock.
#[verifier::external_type_specification]
#[verifier::external_body]
#[verifier::reject_recursive_types(T)]
pub struct ExMutex<T: ?Sized>(Mutex<T>);

/// std's cell with borrows that are checked at run time.
#[verifier::external_type_specification]
#[verifier::external_body]
#[verifier::reject_recursive_types(T)]
pub struct ExRefCell<T: ?Sized>(RefCell<T>);

/// A generator of heap addresses, which several machines may share. Only this
/// module takes numbers from it.
pub struct Generator {
    lock: Arc<Mutex<RefCell<StdRng>>>,
}

impl Clone for Generator {
    fn clone(&self) -> (copy: Generator)
        ensures
            copy == *self,
    {
        Generator { lock: self.lock.clone() }
    }
}

/// The seed that a generator was made with.
pub uninterp spec fn seed_of(generator: Generator) -> u64;

/// `StdRng::seed_from_u64`, behind a lock: a generator that starts from `seed`
/// and can be shared. The contract says which seed that is. It says nothing of
/// the numbers that will come: rand means them to be unpredictable, and does not
/// promise them to stay the same from one of its versions to the next.
#[verifier::external_body]
pub(crate) fn shared_generator(seed: u64) -> (generator: Generator)
    ensures
        seed_of(generator) == seed,
{
    Generator { lock: Arc::new(Mutex::new(RefCell::new(StdRng::seed_from_u64(seed)))) }
}

/// That a generator gave this answer at some time of its life: a number, or
/// `None` where its lock was poisoned.
pub uninterp spec fn gave(generator: Generator, answer: Option<u32>) -> bool;

/// `Rng::gen::<u32>` behind the lock: the next number, any number, or `None`
/// where the lock is poisoned. Which one depends on how many numbers all the
/// machines that share the generator have taken before. The contract says that
/// the answer is one of this generator, and nothing of which one.
#[verifier::external_body]
pub(crate) fn next_word(generator: &Generator) -> (answer: Option<u32>)
    ensures
        gave(*generator, answer),
{
    match generator.lock.lock() {
        Ok(cell) => Some(cell.borrow_mut().gen::<u32>()),
        Err(_) => None,
    }
}

} // verus!
