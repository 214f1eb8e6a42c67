use vstd::prelude::*;

verus! {

/// What can go wrong when reading or writing a typed value.
#[derive(Debug)]
pub enum Error {
    /// A value was required at a key that holds nothing.
    Uninitialized { msg: String },
    /// The bytes at a key do not decode to the declared type.
    Deserialization { kind: String, source: String },
    /// The value could not be encoded.
    Serialization { kind: String, source: String },
    /// A caller's own logic refused the operation, with a reason.
    ContractErr { msg: String },
    /// A caller's own logic refused the operation for want of permission.
    Unauthorized {},
}

/// The message carried by `Error::Uninitialized`.
pub open spec fn uninitialized_msg() -> Seq<char> {
    "uninitialized data"@
}

/// A type whose values can be kept in a byte store: it has a short name
/// for diagnostics and a codec to and from bytes.
pub trait Storable: Sized {
    /// The short name of the type.
    spec fn short_name() -> Seq<char>;

    /// The bytes that a value is written as; `None` where it cannot be
    /// encoded.
    spec fn encoding(&self) -> Option<Seq<u8>>;

    /// The value that some bytes are read as; `None` where they do not
    /// decode.
    spec fn decoding(bytes: Seq<u8>) -> Option<Self>;

    /// The codec's message where a value cannot be encoded.
    spec fn encode_error(&self) -> Seq<char>;

    /// The codec's message where some bytes do not decode.
    spec fn decode_error(bytes: Seq<u8>) -> Seq<char>;

    /// What the codec owes: a value reads back as itself from its bytes.
    proof fn lemma_decode_encode(v: Self)
        requires
            v.encoding() is Some,
        ensures
            Self::decoding(v.encoding().unwrap()) == Some(v),
    ;

    fn short_type_name() -> (r: String)
        ensures
            r@ == Self::short_name(),
    ;

    /// Encodes the value; the error is the codec's own message.
    fn to_bytes(&self) -> (r: Result<Vec<u8>, String>)
        ensures
            match r {
                Ok(b) => self.encoding() == Some(b@),
                Err(m) => self.encoding() is None && m@ == self.encode_error(),
            },
    ;

    /// Decodes a value; the error is the codec's own message.
    fn from_bytes(bytes: &[u8]) -> (r: Result<Self, String>)
        ensures
            match r {
                Ok(v) => Self::decoding(bytes@) == Some(v),
                Err(m) => Self::decoding(bytes@) is None && m@ == Self::decode_error(bytes@),
            },
    ;
}

/// A byte is stored as itself.
impl Storable for u8 {
    open spec fn short_name() -> Seq<char> {
        "u8"@
    }

    open spec fn encoding(&self) -> Option<Seq<u8>> {
        Some(seq![*self])
    }

    open spec fn decoding(bytes: Seq<u8>) -> Option<u8> {
        if bytes.len() == 1 {
            Some(bytes[0])
        } else {
            None
        }
    }

    open spec fn encode_error(&self) -> Seq<char> {
        Seq::empty()
    }

    open spec fn decode_error(bytes: Seq<u8>) -> Seq<char> {
        "expected exactly one byte"@
    }

    proof fn lemma_decode_encode(v: u8) {
    }

    fn short_type_name() -> (r: String) {
        let r = String::from_str("u8");
        proof {
            reveal_strlit("u8");
        }
        r
    }

    fn to_bytes(&self) -> (r: Result<Vec<u8>, String>) {
        let mut b: Vec<u8> = Vec::new();
        b.push(*self);
        assert(b@ =~= seq![*self]);
        Ok(b)
    }

    fn from_bytes(bytes: &[u8]) -> (r: Result<u8, String>) {
        if bytes.len() == 1 {
            Ok(bytes[0])
        } else {
            let m = String::from_str("expected exactly one byte");
            proof {
                reveal_strlit("expected exactly one byte");
            }
            Err(m)
        }
    }
}

} // verus!
