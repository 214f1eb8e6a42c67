use vstd::prelude::*;

use core::marker::PhantomData;

use crate::prefix::{key_prefix, namespace_prefix, NamespaceKey, MAX_NAMESPACE_LEN};
use crate::storage::{ReadonlyStorage, Storage};
use crate::typed::{
    holds, load_result, may_load_result, read_value, require_value, save_result, update_result,
    update_value, write_value,
};
use crate::value::{Error, Storable};

verus! {

/// One value of type `T` kept under a namespace of a store, with writes.
/// Its key is the namespace prefix itself, so no other key of the
/// namespace can be reached through it.
pub struct Singleton<'a, S: Storage, T: Storable> {
    /// The store this value is kept in.
    pub storage: &'a mut S,
    /// The key the value is kept at.
    pub key: NamespaceKey,
    pub data: PhantomData<T>,
}

/// One value of type `T` kept under a namespace of a store, without writes.
pub struct ReadonlySingleton<'a, S: ReadonlyStorage, T: Storable> {
    storage: &'a S,
    key: Vec<u8>,
    data: PhantomData<T>,
}

impl<'a, S: Storage, T: Storable> Singleton<'a, S, T> {
    /// What the underlying store holds.
    pub open spec fn entries(&self) -> Map<Seq<u8>, Seq<u8>> {
        (*self.storage).entries()
    }

    /// The key that the value is kept at.
    pub open spec fn slot(&self) -> Seq<u8> {
        self.key@
    }

    pub fn new(storage: &'a mut S, name: &[u8]) -> (r: Self)
        requires
            name@.len() <= MAX_NAMESPACE_LEN,
        ensures
            r.entries() == old(storage).entries(),
            r.slot() == namespace_prefix(name@),
            final(storage).entries() == final(r.storage).entries(),
    {
        Singleton { storage, key: NamespaceKey::new(name), data: PhantomData }
    }

    /// Encodes `data` and writes it, over whatever was there.
    pub fn save(&mut self, data: &T) -> (r: Result<(), Error>)
        ensures
            final(self).slot() == old(self).slot(),
            save_result(old(self).entries(), final(self).entries(), old(self).slot(), *data, r),
            *final(final(self).storage) == *final(old(self).storage),
    {
        write_value(self.storage, self.key.as_slice(), data)
    }

    /// The value; an error where nothing is there or it does not decode.
    pub fn load(&self) -> (r: Result<T, Error>)
        ensures
            load_result(self.entries(), self.slot(), r),
    {
        require_value(&*self.storage, self.key.as_slice())
    }

    /// The value, `None` where nothing is there; an error where it does not
    /// decode.
    pub fn may_load(&self) -> (r: Result<Option<T>, Error>)
        ensures
            may_load_result(self.entries(), self.slot(), r),
    {
        read_value(&*self.storage, self.key.as_slice())
    }

    /// Loads the value, hands it to `action` and saves what comes back;
    /// nothing is written unless every step succeeds.
    pub fn update<F: Fn(T) -> Result<T, Error>>(&mut self, action: F) -> (r: Result<T, Error>)
        requires
            forall|t: T| holds(old(self).entries(), old(self).slot(), t) ==> call_requires(action, (t,)),
        ensures
            final(self).slot() == old(self).slot(),
            update_result(old(self).entries(), final(self).entries(), old(self).slot(), action, r),
            *final(final(self).storage) == *final(old(self).storage),
    {
        let key = self.key.as_slice();
        assert forall|t: T| holds((*self.storage).entries(), key@, t) implies call_requires(
            action,
            (t,),
        ) by {
            assert(holds(old(self).entries(), old(self).slot(), t));
        }
        update_value(self.storage, key, action)
    }
}

impl<'a, S: ReadonlyStorage, T: Storable> ReadonlySingleton<'a, S, T> {
    /// What the underlying store holds.
    pub closed spec fn entries(&self) -> Map<Seq<u8>, Seq<u8>> {
        (*self.storage).entries()
    }

    /// The key that the value is kept at.
    pub closed spec fn slot(&self) -> Seq<u8> {
        self.key@
    }

    pub fn new(storage: &'a S, name: &[u8]) -> (r: Self)
        requires
            name@.len() <= MAX_NAMESPACE_LEN,
        ensures
            r.entries() == storage.entries(),
            r.slot() == namespace_prefix(name@),
    {
        ReadonlySingleton { storage, key: key_prefix(name), data: PhantomData }
    }

    /// The value; an error where nothing is there or it does not decode.
    pub fn load(&self) -> (r: Result<T, Error>)
        ensures
            load_result(self.entries(), self.slot(), r),
    {
        require_value(self.storage, self.key.as_slice())
    }

    /// The value, `None` where nothing is there; an error where it does not
    /// decode.
    pub fn may_load(&self) -> (r: Result<Option<T>, Error>)
        ensures
            may_load_result(self.entries(), self.slot(), r),
    {
        read_value(self.storage, self.key.as_slice())
    }
}

/// Opens the value kept under `name` in `storage`, with writes.
pub fn singleton<'a, S: Storage, T: Storable>(storage: &'a mut S, name: &[u8]) -> (r: Singleton<
    'a,
    S,
    T,
>)
    requires
        name@.len() <= MAX_NAMESPACE_LEN,
    ensures
        r.entries() == old(storage).entries(),
        r.slot() == namespace_prefix(name@),
        final(storage).entries() == final(r.storage).entries(),
{
    Singleton::new(storage, name)
}

/// Opens the value kept under `name` in `storage`, without writes.
pub fn singleton_read<'a, S: ReadonlyStorage, T: Storable>(
    storage: &'a S,
    name: &[u8],
) -> (r: ReadonlySingleton<'a, S, T>)
    requires
        name@.len() <= MAX_NAMESPACE_LEN,
    ensures
        r.entries() == storage.entries(),
        r.slot() == namespace_prefix(name@),
{
    ReadonlySingleton::new(storage, name)
}

} // verus!
