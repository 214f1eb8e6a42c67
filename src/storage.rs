use vstd::prelude::*;

verus! {

/// A raw store, read side: byte keys to byte values.
pub trait ReadonlyStorage {
    /// What the store holds.
    spec fn entries(&self) -> Map<Seq<u8>, Seq<u8>>;

    /// The bytes held at `key`, if any.
    fn get(&self, key: &[u8]) -> (r: Option<Vec<u8>>)
        ensures
            match r {
                Some(v) => self.entries().contains_key(key@) && self.entries()[key@] == v@,
                None => !self.entries().contains_key(key@),
            },
    ;
}

/// A raw store, write side: `set` overwrites whatever was held at `key`.
pub trait Storage: ReadonlyStorage {
    fn set(&mut self, key: &[u8], value: &[u8])
        ensures
            final(self).entries() == old(self).entries().insert(key@, value@),
    ;
}

/// Whether two byte strings are equal.
pub fn bytes_equal(a: &[u8], b: &[u8]) -> (r: bool)
    ensures
        r == (a@ == b@),
{
    if a.len() != b.len() {
        return false;
    }
    let mut i: usize = 0;
    while i < a.len()
        invariant
            a@.len() == b@.len(),
            i <= a@.len(),
            forall|j: int| 0 <= j < i ==> a@[j] == b@[j],
        decreases a@.len() - i,
    {
        if a[i] != b[i] {
            return false;
        }
        i = i + 1;
    }
    assert(a@ =~= b@);
    true
}

/// The concatenation `a ++ b`, as a new vector.
pub fn concat_bytes(a: &[u8], b: &[u8]) -> (r: Vec<u8>)
    ensures
        r@ == a@ + b@,
{
    let mut r: Vec<u8> = Vec::new();
    let mut i: usize = 0;
    while i < a.len()
        invariant
            i <= a@.len(),
            r@ == a@.take(i as int),
        decreases a@.len() - i,
    {
        r.push(a[i]);
        i = i + 1;
        assert(r@ =~= a@.take(i as int));
    }
    let mut j: usize = 0;
    while j < b.len()
        invariant
            i == a@.len(),
            j <= b@.len(),
            r@ == a@ + b@.take(j as int),
        decreases b@.len() - j,
    {
        r.push(b[j]);
        j = j + 1;
        assert(r@ =~= a@ + b@.take(j as int));
    }
    assert(a@.take(i as int) =~= a@);
    assert(b@.take(j as int) =~= b@);
    r
}

/// The map that a log of writes leaves behind: a later write shadows an
/// earlier one at the same key.
pub open spec fn log_entries(log: Seq<(Seq<u8>, Seq<u8>)>) -> Map<Seq<u8>, Seq<u8>>
    decreases log.len(),
{
    if log.len() == 0 {
        Map::empty()
    } else {
        log_entries(log.drop_last()).insert(log.last().0, log.last().1)
    }
}

/// Writes after position `i` that do not touch `k` leave its entry as it
/// was after the first `i` writes.
proof fn lemma_log_untouched(log: Seq<(Seq<u8>, Seq<u8>)>, i: int, k: Seq<u8>)
    requires
        0 <= i <= log.len(),
        forall|j: int| i <= j < log.len() ==> log[j].0 != k,
    ensures
        log_entries(log).contains_key(k) == log_entries(log.take(i)).contains_key(k),
        log_entries(log).contains_key(k) ==> log_entries(log)[k] == log_entries(log.take(i))[k],
    decreases log.len() - i,
{
    if i == log.len() {
        assert(log.take(i) =~= log);
    } else {
        let d = log.drop_last();
        assert(d.take(i) =~= log.take(i));
        lemma_log_untouched(d, i, k);
    }
}

/// A store held in memory: every write is kept in order, and a read finds
/// the latest write at its key.
pub struct MemoryStorage {
    log: Vec<(Vec<u8>, Vec<u8>)>,
}

impl MemoryStorage {
    pub closed spec fn log_view(&self) -> Seq<(Seq<u8>, Seq<u8>)> {
        self.log@.map_values(|e: (Vec<u8>, Vec<u8>)| (e.0@, e.1@))
    }

    /// An empty store.
    pub fn new() -> (r: Self)
        ensures
            r.entries() == Map::<Seq<u8>, Seq<u8>>::empty(),
    {
        let r = MemoryStorage { log: Vec::new() };
        assert(r.log_view() =~= Seq::<(Seq<u8>, Seq<u8>)>::empty());
        r
    }
}

impl ReadonlyStorage for MemoryStorage {
    open spec fn entries(&self) -> Map<Seq<u8>, Seq<u8>> {
        log_entries(self.log_view())
    }

    fn get(&self, key: &[u8]) -> (r: Option<Vec<u8>>) {
        let mut i: usize = self.log.len();
        while i > 0
            invariant
                i <= self.log@.len(),
                forall|j: int| i <= j < self.log@.len() ==> self.log_view()[j].0 != key@,
            decreases i,
        {
            let e = &self.log[i - 1];
            if bytes_equal(e.0.as_slice(), key) {
                proof {
                    let lv = self.log_view();
                    lemma_log_untouched(lv, i as int, key@);
                    assert(lv.take(i as int).drop_last() =~= lv.take(i - 1));
                    assert(lv.take(i as int).last() == lv[i - 1]);
                }
                return Some(e.1.clone());
            }
            i = i - 1;
        }
        proof {
            lemma_log_untouched(self.log_view(), 0, key@);
        }
        None
    }
}

impl Storage for MemoryStorage {
    fn set(&mut self, key: &[u8], value: &[u8]) {
        let ghost before = self.log_view();
        self.log.push((concat_bytes(key, &[]), concat_bytes(value, &[])));
        assert(key@ + Seq::<u8>::empty() =~= key@);
        assert(value@ + Seq::<u8>::empty() =~= value@);
        assert(self.log_view().drop_last() =~= before);
    }
}

} // verus!
