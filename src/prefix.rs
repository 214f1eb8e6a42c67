use vstd::prelude::*;

use crate::storage::{concat_bytes, ReadonlyStorage, Storage};

verus! {

/// The longest namespace whose length fits the two-byte header.
pub const MAX_NAMESPACE_LEN: usize = 0xffff;

/// The prefix of a namespace: its length as two big-endian bytes, then the
/// namespace itself.
pub open spec fn namespace_prefix(namespace: Seq<u8>) -> Seq<u8> {
    seq![(namespace.len() / 256) as u8, (namespace.len() % 256) as u8] + namespace
}

/// The view of `entries` seen through a prefix: key `k` stands for
/// `prefix ++ k` in the underlying store.
pub open spec fn under_prefix(entries: Map<Seq<u8>, Seq<u8>>, prefix: Seq<u8>) -> Map<
    Seq<u8>,
    Seq<u8>,
> {
    Map::new(|k: Seq<u8>| entries.contains_key(prefix + k), |k: Seq<u8>| entries[prefix + k])
}

/// Builds the prefix of `namespace`.
pub fn key_prefix(namespace: &[u8]) -> (r: Vec<u8>)
    requires
        namespace@.len() <= MAX_NAMESPACE_LEN,
    ensures
        r@ == namespace_prefix(namespace@),
{
    let n: usize = namespace.len();
    let header: [u8; 2] = [(n / 256) as u8, (n % 256) as u8];
    let r = concat_bytes(&header, namespace);
    assert(header@ =~= seq![(n / 256) as u8, (n % 256) as u8]);
    r
}

/// The prefix of one namespace; only `NamespaceKey::new` makes one, so a
/// handle that holds it cannot be pointed at keys outside its namespace.
pub struct NamespaceKey {
    bytes: Vec<u8>,
}

impl View for NamespaceKey {
    type V = Seq<u8>;

    closed spec fn view(&self) -> Seq<u8> {
        self.bytes@
    }
}

impl NamespaceKey {
    pub fn new(namespace: &[u8]) -> (r: Self)
        requires
            namespace@.len() <= MAX_NAMESPACE_LEN,
        ensures
            r@ == namespace_prefix(namespace@),
    {
        NamespaceKey { bytes: key_prefix(namespace) }
    }

    pub fn as_slice(&self) -> (r: &[u8])
        ensures
            r@ == self@,
    {
        self.bytes.as_slice()
    }
}

/// Keys built under two different namespaces never meet: whatever the keys
/// that follow the prefixes, the full keys differ.
pub proof fn lemma_prefixed_keys_distinct(a: Seq<u8>, b: Seq<u8>, ka: Seq<u8>, kb: Seq<u8>)
    requires
        a.len() <= MAX_NAMESPACE_LEN,
        b.len() <= MAX_NAMESPACE_LEN,
        a != b,
    ensures
        namespace_prefix(a) + ka != namespace_prefix(b) + kb,
{
    let fa = namespace_prefix(a) + ka;
    let fb = namespace_prefix(b) + kb;
    if fa == fb {
        assert(fa[0] == (a.len() / 256) as u8);
        assert(fb[0] == (b.len() / 256) as u8);
        assert(fa[1] == (a.len() % 256) as u8);
        assert(fb[1] == (b.len() % 256) as u8);
        assert(a.len() == b.len());
        assert forall|i: int| 0 <= i < a.len() implies a[i] == b[i] by {
            assert(fa[i + 2] == a[i]);
            assert(fb[i + 2] == b[i]);
        }
        assert(a =~= b);
    }
}

/// Two different namespaces have different prefixes.
pub proof fn lemma_prefixes_distinct(a: Seq<u8>, b: Seq<u8>)
    requires
        a.len() <= MAX_NAMESPACE_LEN,
        b.len() <= MAX_NAMESPACE_LEN,
        a != b,
    ensures
        namespace_prefix(a) != namespace_prefix(b),
{
    lemma_prefixed_keys_distinct(a, b, Seq::empty(), Seq::empty());
    assert(namespace_prefix(a) + Seq::<u8>::empty() =~= namespace_prefix(a));
    assert(namespace_prefix(b) + Seq::<u8>::empty() =~= namespace_prefix(b));
}

/// Writes at a key of one namespace leave what another namespace sees as it
/// was.
pub proof fn lemma_namespaces_isolated(
    entries: Map<Seq<u8>, Seq<u8>>,
    a: Seq<u8>,
    b: Seq<u8>,
    key: Seq<u8>,
    value: Seq<u8>,
)
    requires
        a.len() <= MAX_NAMESPACE_LEN,
        b.len() <= MAX_NAMESPACE_LEN,
        a != b,
    ensures
        under_prefix(entries.insert(namespace_prefix(a) + key, value), namespace_prefix(b))
            == under_prefix(entries, namespace_prefix(b)),
{
    let pb = namespace_prefix(b);
    let after = entries.insert(namespace_prefix(a) + key, value);
    assert forall|k: Seq<u8>| after.contains_key(pb + k) == entries.contains_key(pb + k) by {
        lemma_prefixed_keys_distinct(a, b, key, k);
    }
    assert forall|k: Seq<u8>| entries.contains_key(pb + k) implies after[pb + k] == entries[pb
        + k] by {
        lemma_prefixed_keys_distinct(a, b, key, k);
    }
    assert(under_prefix(after, pb) =~= under_prefix(entries, pb));
}

/// A store seen under a namespace, with writes.
pub struct PrefixedStorage<'a, S: Storage> {
    /// The prefix that every key is placed under.
    pub prefix: NamespaceKey,
    /// The store this view writes to.
    pub storage: &'a mut S,
}

/// A store seen under a namespace, without writes.
pub struct ReadonlyPrefixedStorage<'a, S: ReadonlyStorage> {
    prefix: Vec<u8>,
    storage: &'a S,
}

impl<'a, S: Storage> PrefixedStorage<'a, S> {
    /// The namespace prefix that every key is placed under.
    pub open spec fn prefix_view(&self) -> Seq<u8> {
        self.prefix@
    }

    /// What the underlying store holds.
    pub open spec fn inner(&self) -> Map<Seq<u8>, Seq<u8>> {
        (*self.storage).entries()
    }

    pub fn new(namespace: &[u8], storage: &'a mut S) -> (r: Self)
        requires
            namespace@.len() <= MAX_NAMESPACE_LEN,
        ensures
            r.prefix_view() == namespace_prefix(namespace@),
            r.inner() == old(storage).entries(),
            final(storage).entries() == final(r.storage).entries(),
    {
        PrefixedStorage { prefix: NamespaceKey::new(namespace), storage }
    }
}

impl<'a, S: ReadonlyStorage> ReadonlyPrefixedStorage<'a, S> {
    /// The namespace prefix that every key is placed under.
    pub closed spec fn prefix_view(&self) -> Seq<u8> {
        self.prefix@
    }

    /// What the underlying store holds.
    pub closed spec fn inner(&self) -> Map<Seq<u8>, Seq<u8>> {
        (*self.storage).entries()
    }

    pub fn new(namespace: &[u8], storage: &'a S) -> (r: Self)
        requires
            namespace@.len() <= MAX_NAMESPACE_LEN,
        ensures
            r.prefix_view() == namespace_prefix(namespace@),
            r.inner() == storage.entries(),
    {
        ReadonlyPrefixedStorage { prefix: key_prefix(namespace), storage }
    }
}

impl<'a, S: Storage> ReadonlyStorage for PrefixedStorage<'a, S> {
    open spec fn entries(&self) -> Map<Seq<u8>, Seq<u8>> {
        under_prefix(self.inner(), self.prefix_view())
    }

    fn get(&self, key: &[u8]) -> (r: Option<Vec<u8>>) {
        let full = concat_bytes(self.prefix.as_slice(), key);
        self.storage.get(full.as_slice())
    }
}

impl<'a, S: Storage> Storage for PrefixedStorage<'a, S> {
    fn set(&mut self, key: &[u8], value: &[u8])
        ensures
            final(self).prefix_view() == old(self).prefix_view(),
            final(self).inner() == old(self).inner().insert(old(self).prefix_view() + key@, value@),
            *final(final(self).storage) == *final(old(self).storage),
    {
        let full = concat_bytes(self.prefix.as_slice(), key);
        self.storage.set(full.as_slice(), value);
        proof {
            let p = self.prefix_view();
            assert forall|k: Seq<u8>| #[trigger] (p + k) == p + key@ implies k == key@ by {
                assert(k =~= (p + k).subrange(p.len() as int, (p + k).len() as int));
                assert(key@ =~= (p + key@).subrange(p.len() as int, (p + key@).len() as int));
            }
            assert(self.entries() =~= old(self).entries().insert(key@, value@));
        }
    }
}

impl<'a, S: ReadonlyStorage> ReadonlyStorage for ReadonlyPrefixedStorage<'a, S> {
    open spec fn entries(&self) -> Map<Seq<u8>, Seq<u8>> {
        under_prefix(self.inner(), self.prefix_view())
    }

    fn get(&self, key: &[u8]) -> (r: Option<Vec<u8>>) {
        let full = concat_bytes(self.prefix.as_slice(), key);
        self.storage.get(full.as_slice())
    }
}

/// Opens `storage` under `namespace`, with writes.
pub fn prefixed<'a, S: Storage>(namespace: &[u8], storage: &'a mut S) -> (r: PrefixedStorage<'a, S>)
    requires
        namespace@.len() <= MAX_NAMESPACE_LEN,
    ensures
        r.prefix_view() == namespace_prefix(namespace@),
        r.inner() == old(storage).entries(),
        final(storage).entries() == final(r.storage).entries(),
{
    PrefixedStorage::new(namespace, storage)
}

/// Opens `storage` under `namespace`, without writes.
pub fn prefixed_read<'a, S: ReadonlyStorage>(namespace: &[u8], storage: &'a S) -> (r:
    ReadonlyPrefixedStorage<'a, S>)
    requires
        namespace@.len() <= MAX_NAMESPACE_LEN,
    ensures
        r.prefix_view() == namespace_prefix(namespace@),
        r.inner() == storage.entries(),
{
    ReadonlyPrefixedStorage::new(namespace, storage)
}

} // verus!
