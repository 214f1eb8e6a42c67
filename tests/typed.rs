use vstd::seq::Seq;
use typed_storage::prefix::prefixed;
use typed_storage::storage::{MemoryStorage, ReadonlyStorage, Storage};
use typed_storage::typed::{typed, typed_read, TypedStorage};
use typed_storage::value::{Error, Storable};

#[derive(PartialEq, Debug, Clone)]
struct Data {
    pub name: String,
    pub age: i32,
}

// Stored as: name length (one byte), name, age (four bytes, big-endian).
impl Storable for Data {
    // Ghost items of the trait: only the verifier reads them, so the
    // executable build never calls these bodies.
    fn short_name() -> Seq<char> {
        unreachable!()
    }

    fn encoding(&self) -> Option<Seq<u8>> {
        unreachable!()
    }

    fn decoding(_bytes: Seq<u8>) -> Option<Self> {
        unreachable!()
    }

    fn encode_error(&self) -> Seq<char> {
        unreachable!()
    }

    fn decode_error(_bytes: Seq<u8>) -> Seq<char> {
        unreachable!()
    }

    fn lemma_decode_encode(_v: Self) {}

    fn short_type_name() -> String {
        "Data".to_string()
    }

    fn to_bytes(&self) -> Result<Vec<u8>, String> {
        let name = self.name.as_bytes();
        if name.len() > 255 {
            return Err("name too long".to_string());
        }
        let mut out = vec![name.len() as u8];
        out.extend_from_slice(name);
        out.extend_from_slice(&self.age.to_be_bytes());
        Ok(out)
    }

    fn from_bytes(bytes: &[u8]) -> Result<Self, String> {
        let n = *bytes.first().ok_or("empty input")? as usize;
        if bytes.len() != 1 + n + 4 {
            return Err("bad length".to_string());
        }
        let name = String::from_utf8(bytes[1..1 + n].to_vec()).map_err(|e| e.to_string())?;
        let mut age = [0u8; 4];
        age.copy_from_slice(&bytes[1 + n..]);
        Ok(Data { name, age: i32::from_be_bytes(age) })
    }
}

#[test]
fn store_and_load() {
    let mut store = MemoryStorage::new();
    let mut bucket = TypedStorage::<_, Data>::new(&mut store);

    // check empty data handling
    assert!(bucket.load(b"maria").is_err());
    assert_eq!(bucket.may_load(b"maria").unwrap(), None);

    // save data
    let data = Data {
        name: "Maria".to_string(),
        age: 42,
    };
    bucket.save(b"maria", &data).unwrap();

    // load it properly
    let loaded = bucket.load(b"maria").unwrap();
    assert_eq!(data, loaded);
}

#[test]
fn store_with_prefix() {
    let mut store = MemoryStorage::new();
    let mut space = prefixed(b"data", &mut store);
    let mut bucket = typed::<_, Data>(&mut space);

    // save data
    let data = Data {
        name: "Maria".to_string(),
        age: 42,
    };
    bucket.save(b"maria", &data).unwrap();

    // load it properly
    let loaded = bucket.load(b"maria").unwrap();
    assert_eq!(data, loaded);
}

#[test]
fn readonly_works() {
    let mut store = MemoryStorage::new();
    let mut bucket = typed::<_, Data>(&mut store);

    // save data
    let data = Data {
        name: "Maria".to_string(),
        age: 42,
    };
    bucket.save(b"maria", &data).unwrap();

    let reader = typed_read::<_, Data>(&mut store);

    // check empty data handling
    assert!(reader.load(b"john").is_err());
    assert_eq!(reader.may_load(b"john").unwrap(), None);

    // load it properly
    let loaded = reader.load(b"maria").unwrap();
    assert_eq!(data, loaded);
}

#[test]
fn typed_update_success() {
    let mut store = MemoryStorage::new();
    let mut bucket = typed::<_, Data>(&mut store);

    // initial data
    let init = Data {
        name: "Maria".to_string(),
        age: 42,
    };
    bucket.save(b"maria", &init).unwrap();

    // it's my birthday
    let birthday = |mut d: Data| {
        d.age += 1;
        Ok(d)
    };
    let output = bucket.update(b"maria", &birthday).unwrap();
    let expected = Data {
        name: "Maria".to_string(),
        age: 43,
    };
    assert_eq!(output, expected);

    // load it properly
    let loaded = bucket.load(b"maria").unwrap();
    assert_eq!(loaded, expected);
}

#[test]
fn update_fails_on_error() {
    let mut store = MemoryStorage::new();
    let mut bucket = typed::<_, Data>(&mut store);

    // initial data
    let init = Data {
        name: "Maria".to_string(),
        age: 42,
    };
    bucket.save(b"maria", &init).unwrap();

    // it's my birthday
    let output = bucket.update(b"maria", &|_d| {
        Err(Error::ContractErr {
            msg: "cuz i feel like it".to_string(),
        })
    });
    assert!(output.is_err());

    // load it properly
    let loaded = bucket.load(b"maria").unwrap();
    assert_eq!(loaded, init);
}

#[test]
fn update_fails_on_no_data() {
    let mut store = MemoryStorage::new();
    let mut bucket = typed::<_, Data>(&mut store);

    // it's my birthday
    let output = bucket.update(b"maria", &|mut d: Data| {
        d.age += 1;
        Ok(d)
    });
    assert!(output.is_err());

    // nothing stored
    let loaded = bucket.may_load(b"maria").unwrap();
    assert_eq!(loaded, None);
}

#[test]
fn absent_key_is_uninitialized() {
    let mut store = MemoryStorage::new();
    let bucket = typed::<_, Data>(&mut store);
    match bucket.load(b"nobody") {
        Err(Error::Uninitialized { msg }) => assert_eq!(msg, "uninitialized data"),
        other => panic!("unexpected: {:?}", other),
    }
    assert_eq!(bucket.may_load(b"nobody").unwrap(), None);
}

#[test]
fn update_on_empty_writes_nothing() {
    let mut store = MemoryStorage::new();
    let mut bucket = typed::<_, Data>(&mut store);
    let output = bucket.update(b"maria", &|d: Data| Ok(d));
    assert!(matches!(output, Err(Error::Uninitialized { .. })));
    assert_eq!(store.get(b"maria"), None);
}

#[test]
fn corrupt_bytes_fail_to_decode() {
    let mut store = MemoryStorage::new();
    store.set(b"maria", &[9, 1, 2]);
    let bucket = typed::<_, Data>(&mut store);
    match bucket.may_load(b"maria") {
        Err(Error::Deserialization { kind, source }) => {
            assert_eq!(kind, "Data");
            assert_eq!(source, "bad length");
        }
        other => panic!("unexpected: {:?}", other),
    }
    match bucket.load(b"maria") {
        Err(Error::Deserialization { kind, .. }) => assert_eq!(kind, "Data"),
        other => panic!("unexpected: {:?}", other),
    }
}

#[test]
fn unencodable_value_is_not_saved() {
    let mut store = MemoryStorage::new();
    let mut bucket = typed::<_, Data>(&mut store);
    let data = Data {
        name: "x".repeat(300),
        age: 1,
    };
    match bucket.save(b"long", &data) {
        Err(Error::Serialization { kind, source }) => {
            assert_eq!(kind, "Data");
            assert_eq!(source, "name too long");
        }
        other => panic!("unexpected: {:?}", other),
    }
    assert_eq!(bucket.may_load(b"long").unwrap(), None);
}

#[test]
fn update_propagates_transform_error() {
    let mut store = MemoryStorage::new();
    let mut bucket = typed::<_, Data>(&mut store);
    let init = Data {
        name: "Maria".to_string(),
        age: 42,
    };
    bucket.save(b"maria", &init).unwrap();
    let output = bucket.update(b"maria", &|_d: Data| Err(Error::Unauthorized {}));
    assert!(matches!(output, Err(Error::Unauthorized {})));
}

#[test]
fn namespaces_do_not_see_each_other() {
    let mut store = MemoryStorage::new();
    {
        let mut space = prefixed(b"a", &mut store);
        let mut bucket = typed::<_, Data>(&mut space);
        let data = Data {
            name: "Ann".to_string(),
            age: 7,
        };
        bucket.save(b"k", &data).unwrap();
        assert_eq!(bucket.load(b"k").unwrap(), data);
    }
    let mut other = prefixed(b"b", &mut store);
    let bucket = typed::<_, Data>(&mut other);
    assert_eq!(bucket.may_load(b"k").unwrap(), None);
    // a bare key never reaches a namespaced entry either
    let raw = typed::<_, Data>(&mut store);
    assert_eq!(raw.may_load(b"k").unwrap(), None);
}

#[test]
fn byte_values_round_trip() {
    let mut store = MemoryStorage::new();
    let mut bucket = typed::<_, u8>(&mut store);
    bucket.save(b"n", &200u8).unwrap();
    assert_eq!(bucket.load(b"n").unwrap(), 200u8);
    assert_eq!(store.get(b"n"), Some(vec![200u8]));
}
