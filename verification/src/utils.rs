//! Two small tools of the control side: a slot that hands one value from one
//! thread to another, and a value with a hook that runs whenever the value
//! has changed.

use std::sync::{Arc, Mutex};
use vstd::prelude::*;

verus! {

/// `std::sync::Mutex`, as a type whose inside the verifier does not see.
#[verifier::external_type_specification]
#[verifier::external_body]
#[verifier::reject_recursive_types(T)]
pub struct ExMutex<T: ?Sized>(Mutex<T>);

/// `std::sync::Mutex::new`, around an empty slot.
#[verifier::external_body]
fn slot_new<T>() -> (slot: Mutex<Option<T>>) {
    Mutex::new(None)
}

/// `std::sync::Mutex::lock`, and then `value` is put into the slot, in place
/// of what was there. A lock that a panicking thread left poisoned is taken
/// all the same.
#[verifier::external_body]
fn slot_put<T>(slot: &Mutex<Option<T>>, value: T) {
    let mut guard = match slot.lock() {
        Ok(guard) => guard,
        Err(poisoned) => poisoned.into_inner(),
    };
    *guard = Some(value);
}

/// `std::sync::Mutex::lock`, and then `Option::take` on the slot: what the
/// slot held, which it holds no longer. Another thread may have filled or
/// emptied the slot in the meantime, so nothing is stated of what comes back.
/// A lock that a panicking thread left poisoned is taken all the same.
#[verifier::external_body]
fn slot_take<T>(slot: &Mutex<Option<T>>) -> (held: Option<T>) {
    let mut guard = match slot.lock() {
        Ok(guard) => guard,
        Err(poisoned) => poisoned.into_inner(),
    };
    guard.take()
}

/// A slot that hands one value from one thread to another. Its clones share
/// the slot.
#[derive(Clone, Debug)]
#[verifier::reject_recursive_types(T)]
pub struct OneShot<T> {
    slot: Arc<Mutex<Option<T>>>,
}

impl<T> OneShot<T> {
    /// An empty slot.
    pub fn new() -> (r: Self) {
        Self { slot: Arc::new(slot_new()) }
    }

    /// Puts `value` into the slot, in place of a value that nobody took.
    pub fn send(self, value: T) {
        slot_put(&self.slot, value);
    }

    /// Takes the value out of the slot, if one is there.
    pub fn try_recv(&self) -> (r: Option<T>) {
        slot_take(&self.slot)
    }
}

/// A function that may be called with any value.
struct Hook<T, F: Fn(&T)> {
    call: F,
    value: core::marker::PhantomData<T>,
}

impl<T, F: Fn(&T)> Hook<T, F> {
    #[verifier::type_invariant]
    spec fn takes_any_value(&self) -> bool {
        forall|t: &T| call_requires(self.call, (t,))
    }

    fn call_with(&self, data: &T)
        ensures
            call_ensures(self.call, (data,), ()),
    {
        proof {
            use_type_invariant(self);
        }
        (self.call)(data);
    }
}

/// A value, and a hook that is called with the new value whenever the value
/// is changed. The value is changed through `set` only, so no change goes by
/// the hook.
pub struct DerefMutHook<T, F: Fn(&T)> {
    data: T,
    hook: Option<Hook<T, F>>,
}

impl<T, F: Fn(&T)> DerefMutHook<T, F> {
    /// The value that is held.
    pub closed spec fn data(&self) -> T {
        self.data
    }

    /// The hook that is set, if one is.
    pub closed spec fn hook(&self) -> Option<F> {
        match self.hook {
            Some(h) => Some(h.call),
            None => None,
        }
    }

    /// Holds `data`, with no hook.
    pub fn new(data: T) -> (r: Self)
        ensures
            r.data() == data,
            r.hook() is None,
    {
        Self { data, hook: None }
    }

    /// Sets the hook, in place of the one that was set before.
    pub fn set_callback(&mut self, callback: F)
        requires
            forall|t: &T| call_requires(callback, (t,)),
        ensures
            final(self).data() == old(self).data(),
            final(self).hook() == Some(callback),
    {
        self.hook = Some(Hook { call: callback, value: core::marker::PhantomData });
    }

    /// Removes the hook, if there is one.
    pub fn remove_hook(&mut self)
        ensures
            final(self).data() == old(self).data(),
            final(self).hook() is None,
    {
        self.hook = None;
    }

    /// The value, to read.
    pub fn get(&self) -> (r: &T)
        ensures
            *r == self.data(),
    {
        &self.data
    }

    /// Changes the value to `value`, and then calls the hook, if one is set,
    /// once, with the value as it is after the change.
    pub fn set(&mut self, value: T)
        ensures
            final(self).data() == value,
            final(self).hook() == old(self).hook(),
            old(self).hook() matches Some(f) ==> call_ensures(f, (&final(self).data(),), ()),
    {
        self.data = value;
        match &self.hook {
            Some(hook) => {
                hook.call_with(&self.data);
            },
            None => {},
        }
    }
}

} // verus!
