use vstd::prelude::*;

use crate::json::Json;

verus! {

/// Why a JSON value is not the wire form of a message.
#[derive(Debug, Clone, Copy, PartialEq, Eq, Hash, Structural)]
pub enum DecodeError {
    /// The value is not a JSON object.
    NotAnObject,
    /// A member that the message needs is missing.
    MissingMember,
    /// A member holds a value of the wrong kind.
    WrongMemberType,
    /// A member of the message occurs more than once.
    DuplicateMember,
    /// A response holds both a `result` and an `error` member.
    BothResultAndError,
    /// A response holds neither a `result` nor an `error` member.
    NeitherResultNorError,
}

/// A value that can stand as the params of a call, the result of a response or
/// the data of an error, with its JSON form.
pub trait JsonCodec: Sized {
    /// `j` is the JSON form of `self`.
    spec fn encodes_as(&self, j: Json) -> bool;

    /// What `j` decodes to, if it is the JSON form of some value.
    spec fn decoded(j: Json) -> Option<Self>;

    /// Decoding the JSON form of a value gives that value back.
    proof fn lemma_decode_encoded(v: Self, j: Json)
        requires
            v.encodes_as(j),
        ensures
            Self::decoded(j) == Some(v),
    ;

    fn into_json(self) -> (r: Json)
        ensures
            self.encodes_as(r),
    ;

    fn from_json(j: Json) -> (r: Option<Self>)
        ensures
            r == Self::decoded(j),
    ;
}

/// Any JSON value stands for itself.
impl JsonCodec for Json {
    open spec fn encodes_as(&self, j: Json) -> bool {
        j == *self
    }

    open spec fn decoded(j: Json) -> Option<Json> {
        Some(j)
    }

    proof fn lemma_decode_encoded(v: Json, j: Json) {
    }

    fn into_json(self) -> (r: Json) {
        self
    }

    fn from_json(j: Json) -> (r: Option<Json>) {
        Some(j)
    }
}

/// The unit value is written as `null`.
impl JsonCodec for () {
    open spec fn encodes_as(&self, j: Json) -> bool {
        j == Json::Null
    }

    open spec fn decoded(j: Json) -> Option<()> {
        match j {
            Json::Null => Some(()),
            _ => None,
        }
    }

    proof fn lemma_decode_encoded(v: (), j: Json) {
    }

    fn into_json(self) -> (r: Json) {
        Json::Null
    }

    fn from_json(j: Json) -> (r: Option<()>) {
        match j {
            Json::Null => Some(()),
            _ => None,
        }
    }
}

impl JsonCodec for bool {
    open spec fn encodes_as(&self, j: Json) -> bool {
        j == Json::Bool(*self)
    }

    open spec fn decoded(j: Json) -> Option<bool> {
        match j {
            Json::Bool(b) => Some(b),
            _ => None,
        }
    }

    proof fn lemma_decode_encoded(v: bool, j: Json) {
    }

    fn into_json(self) -> (r: Json) {
        Json::Bool(self)
    }

    fn from_json(j: Json) -> (r: Option<bool>) {
        match j {
            Json::Bool(b) => Some(b),
            _ => None,
        }
    }
}

/// A number decodes as a `u64` when it lies in `0..=u64::MAX`.
impl JsonCodec for u64 {
    open spec fn encodes_as(&self, j: Json) -> bool {
        j == Json::Number(*self as i128)
    }

    open spec fn decoded(j: Json) -> Option<u64> {
        match j {
            Json::Number(n) => if 0 <= n <= u64::MAX {
                Some(n as u64)
            } else {
                None
            },
            _ => None,
        }
    }

    proof fn lemma_decode_encoded(v: u64, j: Json) {
    }

    fn into_json(self) -> (r: Json) {
        Json::Number(self as i128)
    }

    fn from_json(j: Json) -> (r: Option<u64>) {
        match j {
            Json::Number(n) => if 0 <= n && n <= u64::MAX as i128 {
                Some(n as u64)
            } else {
                None
            },
            _ => None,
        }
    }
}

/// A number decodes as an `i64` when it lies in `i64::MIN..=i64::MAX`.
impl JsonCodec for i64 {
    open spec fn encodes_as(&self, j: Json) -> bool {
        j == Json::Number(*self as i128)
    }

    open spec fn decoded(j: Json) -> Option<i64> {
        match j {
            Json::Number(n) => if i64::MIN <= n <= i64::MAX {
                Some(n as i64)
            } else {
                None
            },
            _ => None,
        }
    }

    proof fn lemma_decode_encoded(v: i64, j: Json) {
    }

    fn into_json(self) -> (r: Json) {
        Json::Number(self as i128)
    }

    fn from_json(j: Json) -> (r: Option<i64>) {
        match j {
            Json::Number(n) => if i64::MIN as i128 <= n && n <= i64::MAX as i128 {
                Some(n as i64)
            } else {
                None
            },
            _ => None,
        }
    }
}

impl JsonCodec for String {
    open spec fn encodes_as(&self, j: Json) -> bool {
        j == Json::Str(*self)
    }

    open spec fn decoded(j: Json) -> Option<String> {
        match j {
            Json::Str(s) => Some(s),
            _ => None,
        }
    }

    proof fn lemma_decode_encoded(v: String, j: Json) {
    }

    fn into_json(self) -> (r: Json) {
        Json::Str(self)
    }

    fn from_json(j: Json) -> (r: Option<String>) {
        match j {
            Json::Str(s) => Some(s),
            _ => None,
        }
    }
}

} // verus!

verus! {

/// What the `id` member of a message decodes to: absent or `null` is no id,
/// a number in `0..=u64::MAX` is that id.
pub open spec fn id_decoded(o: Option<Json>) -> Result<Option<u64>, DecodeError> {
    match o {
        None => Ok(None),
        Some(Json::Null) => Ok(None),
        Some(j) => match u64::decoded(j) {
            Some(n) => Ok(Some(n)),
            None => Err(DecodeError::WrongMemberType),
        },
    }
}

pub(crate) fn decode_id(o: Option<Json>) -> (r: Result<Option<u64>, DecodeError>)
    ensures
        r == id_decoded(o),
{
    match o {
        None => Ok(None),
        Some(Json::Null) => Ok(None),
        Some(j) => match u64::from_json(j) {
            Some(n) => Ok(Some(n)),
            None => Err(DecodeError::WrongMemberType),
        },
    }
}

} // verus!
