use vstd::prelude::*;

use crate::prefix::{
    lemma_prefixed_keys_distinct, lemma_prefixes_distinct, namespace_prefix, under_prefix,
    MAX_NAMESPACE_LEN,
};
use crate::typed::{absent, holds, load_result, may_load_result, save_result, update_result};
use crate::value::{Error, Storable};

verus! {

/// A value that was saved at a key loads back as that same value.
pub proof fn lemma_save_then_load<T: Storable>(
    before: Map<Seq<u8>, Seq<u8>>,
    after: Map<Seq<u8>, Seq<u8>>,
    key: Seq<u8>,
    v: T,
    saved: Result<(), Error>,
    loaded: Result<T, Error>,
)
    requires
        save_result(before, after, key, v, saved),
        saved is Ok,
        load_result(after, key, loaded),
    ensures
        loaded == Ok::<T, Error>(v),
{
    T::lemma_decode_encode(v);
}

/// At a key that holds nothing, `may_load` gives `None` and `load` fails
/// with `Error::Uninitialized`.
pub proof fn lemma_absent_key<T: Storable>(
    entries: Map<Seq<u8>, Seq<u8>>,
    key: Seq<u8>,
    maybe: Result<Option<T>, Error>,
    loaded: Result<T, Error>,
)
    requires
        absent(entries, key),
        may_load_result(entries, key, maybe),
        load_result(entries, key, loaded),
    ensures
        maybe == Ok::<Option<T>, Error>(None),
        loaded matches Err(Error::Uninitialized { .. }),
{
}

/// A write under one namespace is not seen under another: every key of
/// the second namespace reads as it did before.
pub proof fn lemma_namespace_isolation<T: Storable>(
    entries: Map<Seq<u8>, Seq<u8>>,
    a: Seq<u8>,
    b: Seq<u8>,
    key_a: Seq<u8>,
    bytes: Seq<u8>,
    key_b: Seq<u8>,
    r: Result<Option<T>, Error>,
)
    requires
        a.len() <= MAX_NAMESPACE_LEN,
        b.len() <= MAX_NAMESPACE_LEN,
        a != b,
    ensures
        may_load_result(
            under_prefix(entries.insert(namespace_prefix(a) + key_a, bytes), namespace_prefix(b)),
            key_b,
            r,
        ) == may_load_result(under_prefix(entries, namespace_prefix(b)), key_b, r),
{
    lemma_prefixed_keys_distinct(a, b, key_a, key_b);
}

/// A write to the value kept under one name is not seen by the value kept
/// under another.
pub proof fn lemma_singletons_isolated<T: Storable>(
    entries: Map<Seq<u8>, Seq<u8>>,
    a: Seq<u8>,
    b: Seq<u8>,
    bytes: Seq<u8>,
    r: Result<Option<T>, Error>,
)
    requires
        a.len() <= MAX_NAMESPACE_LEN,
        b.len() <= MAX_NAMESPACE_LEN,
        a != b,
    ensures
        may_load_result(entries.insert(namespace_prefix(a), bytes), namespace_prefix(b), r)
            == may_load_result(entries, namespace_prefix(b), r),
{
    lemma_prefixes_distinct(a, b);
}

/// After an update whose transform succeeded, the key loads as what the
/// transform made of the previous value; after a failed update, the store
/// is as it was.
pub proof fn lemma_update_then_load<T: Storable, F: Fn(T) -> Result<T, Error>>(
    before: Map<Seq<u8>, Seq<u8>>,
    after: Map<Seq<u8>, Seq<u8>>,
    key: Seq<u8>,
    action: F,
    r: Result<T, Error>,
    loaded: Result<T, Error>,
)
    requires
        update_result(before, after, key, action, r),
        load_result(after, key, loaded),
    ensures
        r matches Ok(n) ==> loaded == Ok::<T, Error>(n) && exists|v: T|
            holds(before, key, v) && call_ensures(action, (v,), Ok::<T, Error>(n)),
        r is Err ==> after == before && load_result(before, key, loaded),
{
    if let Ok(n) = r {
        T::lemma_decode_encode(n);
    }
}

/// An update at a key that holds nothing fails with
/// `Error::Uninitialized` and writes nothing.
pub proof fn lemma_update_absent<T: Storable, F: Fn(T) -> Result<T, Error>>(
    before: Map<Seq<u8>, Seq<u8>>,
    after: Map<Seq<u8>, Seq<u8>>,
    key: Seq<u8>,
    action: F,
    r: Result<T, Error>,
)
    requires
        absent(before, key),
        update_result(before, after, key, action, r),
    ensures
        r matches Err(Error::Uninitialized { .. }),
        after == before,
{
}

} // verus!
