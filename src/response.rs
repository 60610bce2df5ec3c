use vstd::prelude::*;

use crate::codec::{decode_id, id_decoded, DecodeError, JsonCodec};
use crate::json::{
    has_duplicate, is_version_member, key_count, key_list, lemma_wire_keys, lookup, take_members,
    version_member, version_tag_ok, Json,
};

verus! {

/// The reply to a request: a result or an error, and the id of the request.
/// A response whose id could not be told has no id, written as `null`.
#[derive(PartialEq, Eq, Hash, Debug, Clone)]
pub struct Response<R, E> {
    pub content: ResponseContent<R, E>,
    pub id: Option<u64>,
}

/// Either the result or the error of a response, never both.
#[derive(PartialEq, Eq, Hash, Debug, Clone)]
pub enum ResponseContent<R, E> {
    Result(R),
    Error(ResponseError<E>),
}

/// The error of a response: an integer code, a short message and, if there is
/// any, further data. The code is carried as it is, whatever its range.
#[derive(PartialEq, Eq, Hash, Debug, Clone)]
pub struct ResponseError<D> {
    pub code: i64,
    pub message: String,
    pub data: Option<D>,
}

/// The keys that a response is decoded from.
pub open spec fn response_keys() -> Seq<Seq<char>> {
    seq!["result"@, "error"@, "id"@]
}

/// The keys that an error object is decoded from.
pub open spec fn error_keys() -> Seq<Seq<char>> {
    seq!["code"@, "message"@, "data"@]
}

impl<D: JsonCodec> ResponseError<D> {
    /// `j` is the wire form of `self`: the members `code`, `message` and, only
    /// where there is data, `data`, in that order.
    pub open spec fn encodes_as(&self, j: Json) -> bool {
        match j {
            Json::Object(m) => {
                &&& m@.len() == if self.data is Some { 3int } else { 2int }
                &&& m@[0].0@ == "code"@
                &&& m@[0].1 == Json::Number(self.code as i128)
                &&& m@[1].0@ == "message"@
                &&& m@[1].1 == Json::Str(self.message)
                &&& self.data matches Some(d) ==> m@[2].0@ == "data"@ && d.encodes_as(m@[2].1)
            },
            _ => false,
        }
    }

    /// What a JSON value decodes to as an error object. Members other than
    /// `code`, `message` and `data` are ignored.
    pub open spec fn decoded(j: Json) -> Result<Self, DecodeError> {
        match j {
            Json::Object(m) => if has_duplicate(m@, error_keys()) {
                Err(DecodeError::DuplicateMember)
            } else {
                match lookup(m@, "code"@) {
                    None => Err(DecodeError::MissingMember),
                    Some(cj) => match i64::decoded(cj) {
                        None => Err(DecodeError::WrongMemberType),
                        Some(code) => match lookup(m@, "message"@) {
                            None => Err(DecodeError::MissingMember),
                            Some(Json::Str(message)) => match lookup(m@, "data"@) {
                                None => Ok(ResponseError { code, message, data: None }),
                                Some(dj) => match D::decoded(dj) {
                                    None => Err(DecodeError::WrongMemberType),
                                    Some(d) => Ok(ResponseError { code, message, data: Some(d) }),
                                },
                            },
                            Some(_) => Err(DecodeError::WrongMemberType),
                        },
                    },
                }
            },
            _ => Err(DecodeError::NotAnObject),
        }
    }

    pub fn encode(self) -> (r: Json)
        ensures
            self.encodes_as(r),
    {
        let ResponseError { code, message, data } = self;
        let mut m: Vec<(String, Json)> = Vec::new();
        m.push(("code".to_owned(), Json::Number(code as i128)));
        m.push(("message".to_owned(), Json::Str(message)));
        match data {
            Some(d) => m.push(("data".to_owned(), d.into_json())),
            None => {},
        }
        Json::Object(m)
    }

    pub fn decode(j: Json) -> (r: Result<Self, DecodeError>)
        ensures
            r == Self::decoded(j),
    {
        match j {
            Json::Object(m) => {
                proof {
                    lemma_wire_keys();
                }
                let keys = key_list("code", "message", "data");
                match take_members(m, &keys) {
                    None => Err(DecodeError::DuplicateMember),
                    Some(mut vals) => {
                        let data_j = match vals.pop() {
                            Some(x) => x,
                            None => None,
                        };
                        let message_j = match vals.pop() {
                            Some(x) => x,
                            None => None,
                        };
                        let code_j = match vals.pop() {
                            Some(x) => x,
                            None => None,
                        };
                        match code_j {
                            None => Err(DecodeError::MissingMember),
                            Some(cj) => match i64::from_json(cj) {
                                None => Err(DecodeError::WrongMemberType),
                                Some(code) => match message_j {
                                    None => Err(DecodeError::MissingMember),
                                    Some(Json::Str(message)) => match data_j {
                                        None => Ok(ResponseError { code, message, data: None }),
                                        Some(dj) => match D::from_json(dj) {
                                            None => Err(DecodeError::WrongMemberType),
                                            Some(d) => Ok(
                                                ResponseError { code, message, data: Some(d) },
                                            ),
                                        },
                                    },
                                    Some(_) => Err(DecodeError::WrongMemberType),
                                },
                            },
                        }
                    },
                }
            },
            _ => Err(DecodeError::NotAnObject),
        }
    }
}

impl<R, E> Response<R, E> {
    pub fn new(content: ResponseContent<R, E>, id: Option<u64>) -> (r: Self)
        ensures
            r.content == content,
            r.id == id,
    {
        Response { content, id }
    }
}

impl<R: JsonCodec, E: JsonCodec> Response<R, E> {
    /// `j` is the wire form of `self`: the members `jsonrpc`, then `result` or
    /// `error`, then `id` (`null` where there is no id), in that order.
    pub open spec fn encodes_as(&self, j: Json) -> bool {
        match j {
            Json::Object(m) => {
                &&& m@.len() == 3
                &&& is_version_member(m@[0])
                &&& match self.content {
                    ResponseContent::Result(r) => m@[1].0@ == "result"@ && r.encodes_as(m@[1].1),
                    ResponseContent::Error(e) => m@[1].0@ == "error"@ && e.encodes_as(m@[1].1),
                }
                &&& m@[2].0@ == "id"@
                &&& m@[2].1 == match self.id {
                    Some(n) => Json::Number(n as i128),
                    None => Json::Null,
                }
            },
            _ => false,
        }
    }

    /// What a JSON value decodes to as a response: exactly one of `result` and
    /// `error` must be there. Other members are ignored; the version tag is
    /// not checked.
    pub open spec fn decoded(j: Json) -> Result<Self, DecodeError> {
        match j {
            Json::Object(m) => if has_duplicate(m@, response_keys()) {
                Err(DecodeError::DuplicateMember)
            } else {
                let content: Result<ResponseContent<R, E>, DecodeError> = match (
                    lookup(m@, "result"@),
                    lookup(m@, "error"@),
                ) {
                    (Some(_), Some(_)) => Err(DecodeError::BothResultAndError),
                    (None, None) => Err(DecodeError::NeitherResultNorError),
                    (Some(rj), None) => match R::decoded(rj) {
                        Some(r) => Ok(ResponseContent::Result(r)),
                        None => Err(DecodeError::WrongMemberType),
                    },
                    (None, Some(ej)) => match ResponseError::<E>::decoded(ej) {
                        Ok(e) => Ok(ResponseContent::Error(e)),
                        Err(err) => Err(err),
                    },
                };
                match content {
                    Err(err) => Err(err),
                    Ok(content) => match id_decoded(lookup(m@, "id"@)) {
                        Ok(id) => Ok(Response { content, id }),
                        Err(err) => Err(err),
                    },
                }
            },
            _ => Err(DecodeError::NotAnObject),
        }
    }

    pub fn encode(self) -> (r: Json)
        ensures
            self.encodes_as(r),
    {
        let Response { content, id } = self;
        let mut m: Vec<(String, Json)> = Vec::new();
        m.push(version_member());
        match content {
            ResponseContent::Result(r) => m.push(("result".to_owned(), r.into_json())),
            ResponseContent::Error(e) => m.push(("error".to_owned(), e.encode())),
        }
        let id_j = match id {
            Some(n) => Json::Number(n as i128),
            None => Json::Null,
        };
        m.push(("id".to_owned(), id_j));
        Json::Object(m)
    }

    pub fn decode(j: Json) -> (r: Result<Self, DecodeError>)
        ensures
            r == Self::decoded(j),
    {
        match j {
            Json::Object(m) => {
                proof {
                    lemma_wire_keys();
                }
                let keys = key_list("result", "error", "id");
                match take_members(m, &keys) {
                    None => Err(DecodeError::DuplicateMember),
                    Some(mut vals) => {
                        let id_j = match vals.pop() {
                            Some(x) => x,
                            None => None,
                        };
                        let error_j = match vals.pop() {
                            Some(x) => x,
                            None => None,
                        };
                        let result_j = match vals.pop() {
                            Some(x) => x,
                            None => None,
                        };
                        let content = match (result_j, error_j) {
                            (Some(_), Some(_)) => Err(DecodeError::BothResultAndError),
                            (None, None) => Err(DecodeError::NeitherResultNorError),
                            (Some(rj), None) => match R::from_json(rj) {
                                Some(r) => Ok(ResponseContent::Result(r)),
                                None => Err(DecodeError::WrongMemberType),
                            },
                            (None, Some(ej)) => match ResponseError::<E>::decode(ej) {
                                Ok(e) => Ok(ResponseContent::Error(e)),
                                Err(err) => Err(err),
                            },
                        };
                        match content {
                            Err(err) => Err(err),
                            Ok(content) => match decode_id(id_j) {
                                Ok(id) => Ok(Response { content, id }),
                                Err(err) => Err(err),
                            },
                        }
                    },
                }
            },
            _ => Err(DecodeError::NotAnObject),
        }
    }
}

proof fn lemma_error_members<D: JsonCodec>(v: ResponseError<D>, j: Json)
    requires
        v.encodes_as(j),
    ensures
        j->Object_0@.len() >= 2,
        j->Object_0@.drop_first()[0] == j->Object_0@[1],
        v.data is None ==> j->Object_0@.drop_first().drop_first().len() == 0,
        v.data is Some ==> j->Object_0@.drop_first().drop_first()[0] == j->Object_0@[2]
            && j->Object_0@.drop_first().drop_first().drop_first().len() == 0,
{
}

proof fn lemma_response_members<R: JsonCodec, E: JsonCodec>(v: Response<R, E>, j: Json)
    requires
        v.encodes_as(j),
    ensures
        j->Object_0@.len() == 3,
        j->Object_0@.drop_first()[0] == j->Object_0@[1],
        j->Object_0@.drop_first().drop_first()[0] == j->Object_0@[2],
        j->Object_0@.drop_first().drop_first().drop_first().len() == 0,
{
}

/// Decoding the wire form of an error object gives the same error back.
pub proof fn lemma_error_round_trip<D: JsonCodec>(v: ResponseError<D>, j: Json)
    requires
        v.encodes_as(j),
    ensures
        ResponseError::<D>::decoded(j) == Ok::<ResponseError<D>, DecodeError>(v),
{
    lemma_wire_keys();
    reveal_with_fuel(lookup, 4);
    reveal_with_fuel(key_count, 4);
    let m = j->Object_0@;
    lemma_error_members(v, j);
    if let Some(d) = v.data {
        D::lemma_decode_encoded(d, m[2].1);
    }
    assert(key_count(m, "code"@) == 1);
    assert(key_count(m, "message"@) == 1);
    assert(key_count(m, "data"@) <= 1);
    assert(error_keys()[0] == "code"@);
    assert(error_keys()[1] == "message"@);
    assert(error_keys()[2] == "data"@);
    assert(!has_duplicate(m, error_keys()));
}

/// The wire form of an error object has a `data` member exactly when the
/// error has data, and then the member is the wire form of that data.
pub proof fn lemma_error_data_member<D: JsonCodec>(v: ResponseError<D>, j: Json)
    requires
        v.encodes_as(j),
    ensures
        v.data is None <==> lookup(j->Object_0@, "data"@) is None,
        v.data matches Some(d) ==> d.encodes_as(lookup(j->Object_0@, "data"@)->0),
{
    lemma_wire_keys();
    reveal_with_fuel(lookup, 4);
    lemma_error_members(v, j);
}

/// Decoding the wire form of a response gives the same response back.
pub proof fn lemma_response_round_trip<R: JsonCodec, E: JsonCodec>(v: Response<R, E>, j: Json)
    requires
        v.encodes_as(j),
    ensures
        Response::<R, E>::decoded(j) == Ok::<Response<R, E>, DecodeError>(v),
{
    lemma_wire_keys();
    reveal_with_fuel(lookup, 4);
    reveal_with_fuel(key_count, 4);
    let m = j->Object_0@;
    lemma_response_members(v, j);
    match v.content {
        ResponseContent::Result(r) => {
            R::lemma_decode_encoded(r, m[1].1);
            assert(key_count(m, "result"@) == 1);
            assert(key_count(m, "error"@) == 0);
        },
        ResponseContent::Error(e) => {
            lemma_error_round_trip(e, m[1].1);
            assert(key_count(m, "result"@) == 0);
            assert(key_count(m, "error"@) == 1);
        },
    }
    assert(key_count(m, "id"@) == 1);
    assert(response_keys()[0] == "result"@);
    assert(response_keys()[1] == "error"@);
    assert(response_keys()[2] == "id"@);
    assert(!has_duplicate(m, response_keys()));
}

/// The wire form of a response carries the version tag.
pub proof fn lemma_response_version_tag<R: JsonCodec, E: JsonCodec>(v: Response<R, E>, j: Json)
    requires
        v.encodes_as(j),
    ensures
        version_tag_ok(j),
{
    reveal_with_fuel(lookup, 2);
}

/// An object with both a `result` and an `error` member is no response.
pub proof fn lemma_result_and_error_rejected<R: JsonCodec, E: JsonCodec>(j: Json)
    requires
        j is Object,
        lookup(j->Object_0@, "result"@) is Some,
        lookup(j->Object_0@, "error"@) is Some,
    ensures
        Response::<R, E>::decoded(j) is Err,
        !has_duplicate(j->Object_0@, response_keys()) ==> Response::<R, E>::decoded(j) == Err::<
            Response<R, E>,
            DecodeError,
        >(DecodeError::BothResultAndError),
{
}

/// An object with neither a `result` nor an `error` member is no response.
pub proof fn lemma_neither_result_nor_error_rejected<R: JsonCodec, E: JsonCodec>(j: Json)
    requires
        j is Object,
        lookup(j->Object_0@, "result"@) is None,
        lookup(j->Object_0@, "error"@) is None,
    ensures
        Response::<R, E>::decoded(j) is Err,
        !has_duplicate(j->Object_0@, response_keys()) ==> Response::<R, E>::decoded(j) == Err::<
            Response<R, E>,
            DecodeError,
        >(DecodeError::NeitherResultNorError),
{
}

} // verus!
