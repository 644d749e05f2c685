//! The parameter store behind its lock, for callers that share it.

use crate::param::{ParamError, TypedValue, Value};
use crate::store::{after_write, consistent, write_result, ParameterStore, StoreMap};
use vstd::prelude::*;
use vstd::rwlock::{RwLock, RwLockPredicate};

verus! {

/// The store with every value set back to its default: what a store is
/// when it is built, and the part of it that no write changes.
pub open spec fn reset_all(store: StoreMap) -> StoreMap {
    Map::new(|name: Seq<char>| store.dom().contains(name), |name: Seq<char>| store[name].reset())
}

/// A write changes at most a value: names, types, defaults and permission
/// masks stay as they were built.
pub proof fn lemma_write_keeps_fixed_parts(store: StoreMap, name: Seq<char>, value: Value)
    ensures
        reset_all(after_write(store, name, value)) == reset_all(store),
{
    assert(reset_all(after_write(store, name, value)) =~= reset_all(store));
}

/// What a write returns does not depend on the values that the store
/// holds: it is what the write would return on the store as it was built.
pub proof fn lemma_write_result_by_fixed_parts(store: StoreMap, name: Seq<char>, value: Value)
    ensures
        write_result(store, name, value) == write_result(reset_all(store), name, value),
{
    assert(store.dom().contains(name) == reset_all(store).dom().contains(name));
    if store.dom().contains(name) {
        assert(reset_all(store)[name] == store[name].reset());
    }
}

/// What the lock keeps true of the store that it guards.
pub struct FixedParameters {
    /// The store as it was built.
    pub initial: StoreMap,
}

impl RwLockPredicate<ParameterStore> for FixedParameters {
    open spec fn inv(self, store: ParameterStore) -> bool {
        consistent(store@) && reset_all(store@) == self.initial
    }
}

/// A parameter store that many callers share. Every access takes the store's
/// one lock for the length of the call and gives it back before it returns,
/// so no caller ever sees a value half written.
///
/// Between two calls another caller may write. A contract here therefore
/// says what holds in every state that the store can be in: the store that
/// was handed to [`SharedParameterStore::new`], with any values of the
/// right types. Which value a read returns, and that a write is kept, is
/// stated exactly one call down, on [`ParameterStore`]: on the copy that
/// [`SharedParameterStore::snapshot`] hands out, and on the store that
/// [`SharedParameterStore::into_inner`] gives back.
pub struct SharedParameterStore {
    lock: RwLock<ParameterStore, FixedParameters>,
}

impl SharedParameterStore {
    /// The store as it was built: every parameter with its default for a
    /// value.
    pub closed spec fn initial(&self) -> StoreMap {
        self.lock.pred().initial
    }

    /// Whether the shared store can be in the state `store`: it holds the
    /// parameters that it was built with, whatever their values.
    pub open spec fn admits(&self, store: StoreMap) -> bool {
        consistent(store) && reset_all(store) == self.initial()
    }

    /// Puts `store` behind a lock.
    pub fn new(store: ParameterStore) -> (r: SharedParameterStore)
        ensures
            r.admits(store@),
    {
        let ghost fixed = FixedParameters { initial: reset_all(store@) };
        proof {
            use_type_invariant(&store);
            store.lemma_consistent();
        }
        SharedParameterStore { lock: RwLock::new(store, Ghost(fixed)) }
    }

    /// The current value of the parameter named `name`, read under the lock.
    /// Whether there is such a parameter, and of which type its value is,
    /// was settled when the store was built.
    pub fn read(&self, name: &str) -> (r: Result<TypedValue, ParamError>)
        ensures
            match r {
                Ok(v) => {
                    &&& self.initial().dom().contains(name@)
                    &&& v@.kind() == self.initial()[name@].kind
                },
                Err(e) => {
                    &&& !self.initial().dom().contains(name@)
                    &&& e == ParamError::NotFound
                },
            },
    {
        let handle = self.lock.acquire_read();
        let r = handle.borrow().read(name);
        proof {
            let store = handle.view()@;
            assert(store.dom().contains(name@) == reset_all(store).dom().contains(name@));
            if store.dom().contains(name@) {
                assert(reset_all(store)[name@] == store[name@].reset());
            }
        }
        handle.release_read();
        r
    }

    /// Writes `value` to the parameter named `name`, under the lock. What
    /// the write returns was settled when the store was built: `NotFound`,
    /// `PermissionDenied` and `TypeMismatch` as for
    /// [`ParameterStore::write`].
    pub fn write(&self, name: &str, value: TypedValue) -> (r: Result<(), ParamError>)
        ensures
            r == write_result(self.initial(), name@, value@),
    {
        let (mut store, handle) = self.lock.acquire_write();
        proof {
            lemma_write_keeps_fixed_parts(store@, name@, value@);
            lemma_write_result_by_fixed_parts(store@, name@, value@);
        }
        let r = store.write(name, value);
        proof {
            use_type_invariant(&store);
            store.lemma_consistent();
        }
        handle.release_write(store);
        r
    }

    /// A copy of the store as it is now, taken under the lock.
    pub fn snapshot(&self) -> (r: ParameterStore)
        ensures
            self.admits(r@),
    {
        let handle = self.lock.acquire_read();
        let r = handle.borrow().clone();
        handle.release_read();
        r
    }

    /// Takes the store out from behind the lock.
    pub fn into_inner(self) -> (r: ParameterStore)
        ensures
            self.admits(r@),
    {
        self.lock.into_inner()
    }
}

} // verus!
