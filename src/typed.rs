use vstd::prelude::*;

use core::marker::PhantomData;

use crate::storage::{ReadonlyStorage, Storage};
use crate::value::{uninitialized_msg, Error, Storable};

verus! {

/// Reading `key` from `entries` gives nothing.
pub open spec fn absent(entries: Map<Seq<u8>, Seq<u8>>, key: Seq<u8>) -> bool {
    !entries.contains_key(key)
}

/// Reading `key` from `entries` gives `v`.
pub open spec fn holds<T: Storable>(entries: Map<Seq<u8>, Seq<u8>>, key: Seq<u8>, v: T) -> bool {
    entries.contains_key(key) && T::decoding(entries[key]) == Some(v)
}

/// The bytes at `key` in `entries` do not decode as a `T`.
pub open spec fn corrupt<T: Storable>(entries: Map<Seq<u8>, Seq<u8>>, key: Seq<u8>) -> bool {
    entries.contains_key(key) && T::decoding(entries[key]) is None
}

/// What `may_load` returns on `entries`.
pub open spec fn may_load_result<T: Storable>(
    entries: Map<Seq<u8>, Seq<u8>>,
    key: Seq<u8>,
    r: Result<Option<T>, Error>,
) -> bool {
    match r {
        Ok(None) => absent(entries, key),
        Ok(Some(v)) => holds(entries, key, v),
        Err(e) => corrupt::<T>(entries, key) && (e matches Error::Deserialization { kind, source }
            && kind@ == T::short_name() && source@ == T::decode_error(entries[key])),
    }
}

/// What `load` returns on `entries`.
pub open spec fn load_result<T: Storable>(
    entries: Map<Seq<u8>, Seq<u8>>,
    key: Seq<u8>,
    r: Result<T, Error>,
) -> bool {
    match r {
        Ok(v) => holds(entries, key, v),
        Err(e) => {
            ||| absent(entries, key) && (e matches Error::Uninitialized { msg } && msg@
                == uninitialized_msg())
            ||| corrupt::<T>(entries, key) && (e matches Error::Deserialization { kind, source }
                && kind@ == T::short_name() && source@ == T::decode_error(entries[key]))
        },
    }
}

/// What `save` returns and leaves behind, from `before` to `after`.
pub open spec fn save_result<T: Storable>(
    before: Map<Seq<u8>, Seq<u8>>,
    after: Map<Seq<u8>, Seq<u8>>,
    key: Seq<u8>,
    data: T,
    r: Result<(), Error>,
) -> bool {
    match r {
        Ok(_) => data.encoding() is Some && after == before.insert(key, data.encoding().unwrap()),
        Err(e) => data.encoding() is None && after == before && (e matches Error::Serialization {
            kind,
            source,
        } && kind@ == T::short_name() && source@ == data.encode_error()),
    }
}

/// What `update` with `action` returns and leaves behind, from `before` to
/// `after`: the value read is handed to `action`; only its success is
/// written, and only then is anything written.
pub open spec fn update_result<T: Storable, F: Fn(T) -> Result<T, Error>>(
    before: Map<Seq<u8>, Seq<u8>>,
    after: Map<Seq<u8>, Seq<u8>>,
    key: Seq<u8>,
    action: F,
    r: Result<T, Error>,
) -> bool {
    match r {
        Ok(n) => exists|v: T|
            holds(before, key, v) && call_ensures(action, (v,), Ok::<T, Error>(n))
                && n.encoding() is Some && after == before.insert(key, n.encoding().unwrap()),
        Err(e) => after == before && {
            ||| load_result::<T>(before, key, Err(e))
            ||| exists|v: T|
                holds(before, key, v) && #[trigger] call_ensures(action, (v,), Err::<T, Error>(e))
            ||| exists|v: T, n: T|
                holds(before, key, v) && #[trigger] call_ensures(action, (v,), Ok::<T, Error>(n))
                    && n.encoding() is None && (e matches Error::Serialization { kind, source }
                    && kind@ == T::short_name() && source@ == n.encode_error())
        },
    }
}

/// Reads `key` from a store and decodes what it holds.
pub(crate) fn read_value<S: ReadonlyStorage, T: Storable>(storage: &S, key: &[u8]) -> (r: Result<
    Option<T>,
    Error,
>)
    ensures
        may_load_result(storage.entries(), key@, r),
{
    match storage.get(key) {
        Some(d) => match T::from_bytes(d.as_slice()) {
            Ok(v) => Ok(Some(v)),
            Err(source) => Err(Error::Deserialization { kind: T::short_type_name(), source }),
        },
        None => Ok(None),
    }
}

/// Like `read_value`, with nothing there turned into `Error::Uninitialized`.
pub(crate) fn require_value<S: ReadonlyStorage, T: Storable>(storage: &S, key: &[u8]) -> (r: Result<
    T,
    Error,
>)
    ensures
        load_result(storage.entries(), key@, r),
{
    match read_value(storage, key) {
        Ok(Some(v)) => Ok(v),
        Ok(None) => {
            let msg = String::from_str("uninitialized data");
            proof {
                reveal_strlit("uninitialized data");
            }
            Err(Error::Uninitialized { msg })
        },
        Err(e) => Err(e),
    }
}

/// Encodes `data` and writes it at `key`.
pub(crate) fn write_value<S: Storage, T: Storable>(storage: &mut S, key: &[u8], data: &T) -> (r: Result<
    (),
    Error,
>)
    ensures
        save_result(old(storage).entries(), final(storage).entries(), key@, *data, r),
{
    match data.to_bytes() {
        Ok(bz) => {
            storage.set(key, bz.as_slice());
            Ok(())
        },
        Err(source) => Err(Error::Serialization { kind: T::short_type_name(), source }),
    }
}

/// Reads, transforms with `action` and writes back the value at `key`.
pub(crate) fn update_value<S: Storage, T: Storable, F: Fn(T) -> Result<T, Error>>(
    storage: &mut S,
    key: &[u8],
    action: F,
) -> (r: Result<T, Error>)
    requires
        forall|t: T| holds(old(storage).entries(), key@, t) ==> call_requires(action, (t,)),
    ensures
        update_result(old(storage).entries(), final(storage).entries(), key@, action, r),
{
    let input = match require_value::<S, T>(storage, key) {
        Ok(v) => v,
        Err(e) => return Err(e),
    };
    let ghost v = input;
    let res = action(input);
    match res {
        Ok(output) => {
            match write_value(storage, key, &output) {
                Ok(()) => Ok(output),
                Err(e) => {
                    assert(call_ensures(action, (v,), Ok::<T, Error>(output)));
                    Err(e)
                },
            }
        },
        Err(e) => {
            assert(call_ensures(action, (v,), Err::<T, Error>(e)));
            Err(e)
        },
    }
}

/// A typed view of a store, with writes: each key holds one encoded `T`.
pub struct TypedStorage<'a, S: Storage, T: Storable> {
    /// The store this view writes to.
    pub storage: &'a mut S,
    pub data: PhantomData<T>,
}

/// A typed view of a store, without writes.
pub struct ReadonlyTypedStorage<'a, S: ReadonlyStorage, T: Storable> {
    storage: &'a S,
    data: PhantomData<T>,
}

impl<'a, S: Storage, T: Storable> TypedStorage<'a, S, T> {
    /// What the underlying store holds.
    pub open spec fn entries(&self) -> Map<Seq<u8>, Seq<u8>> {
        (*self.storage).entries()
    }

    pub fn new(storage: &'a mut S) -> (r: Self)
        ensures
            r.entries() == old(storage).entries(),
            final(storage).entries() == final(r.storage).entries(),
    {
        TypedStorage { storage, data: PhantomData }
    }

    /// Encodes `data` and writes it at `key`, over whatever was there.
    pub fn save(&mut self, key: &[u8], data: &T) -> (r: Result<(), Error>)
        ensures
            save_result(old(self).entries(), final(self).entries(), key@, *data, r),
            *final(final(self).storage) == *final(old(self).storage),
    {
        write_value(self.storage, key, data)
    }

    /// The value at `key`; an error where nothing is there or it does not
    /// decode.
    pub fn load(&self, key: &[u8]) -> (r: Result<T, Error>)
        ensures
            load_result(self.entries(), key@, r),
    {
        require_value(&*self.storage, key)
    }

    /// The value at `key`, `None` where nothing is there; an error where it
    /// does not decode.
    pub fn may_load(&self, key: &[u8]) -> (r: Result<Option<T>, Error>)
        ensures
            may_load_result(self.entries(), key@, r),
    {
        read_value(&*self.storage, key)
    }

    /// Loads the value at `key`, hands it to `action` and saves what comes
    /// back; nothing is written unless every step succeeds.
    pub fn update<F: Fn(T) -> Result<T, Error>>(&mut self, key: &[u8], action: F) -> (r: Result<
        T,
        Error,
    >)
        requires
            forall|t: T| holds(old(self).entries(), key@, t) ==> call_requires(action, (t,)),
        ensures
            update_result(old(self).entries(), final(self).entries(), key@, action, r),
            *final(final(self).storage) == *final(old(self).storage),
    {
        update_value(self.storage, key, action)
    }
}

impl<'a, S: ReadonlyStorage, T: Storable> ReadonlyTypedStorage<'a, S, T> {
    /// What the underlying store holds.
    pub closed spec fn entries(&self) -> Map<Seq<u8>, Seq<u8>> {
        (*self.storage).entries()
    }

    pub fn new(storage: &'a S) -> (r: Self)
        ensures
            r.entries() == storage.entries(),
    {
        ReadonlyTypedStorage { storage, data: PhantomData }
    }

    /// The value at `key`; an error where nothing is there or it does not
    /// decode.
    pub fn load(&self, key: &[u8]) -> (r: Result<T, Error>)
        ensures
            load_result(self.entries(), key@, r),
    {
        require_value(self.storage, key)
    }

    /// The value at `key`, `None` where nothing is there; an error where it
    /// does not decode.
    pub fn may_load(&self, key: &[u8]) -> (r: Result<Option<T>, Error>)
        ensures
            may_load_result(self.entries(), key@, r),
    {
        read_value(self.storage, key)
    }
}

/// Opens a typed view of `storage`, with writes.
pub fn typed<'a, S: Storage, T: Storable>(storage: &'a mut S) -> (r: TypedStorage<'a, S, T>)
    ensures
        r.entries() == old(storage).entries(),
        final(storage).entries() == final(r.storage).entries(),
{
    TypedStorage::new(storage)
}

/// Opens a typed view of `storage`, without writes.
pub fn typed_read<'a, S: ReadonlyStorage, T: Storable>(storage: &'a S) -> (r: ReadonlyTypedStorage<
    'a,
    S,
    T,
>)
    ensures
        r.entries() == storage.entries(),
{
    ReadonlyTypedStorage::new(storage)
}

} // verus!
