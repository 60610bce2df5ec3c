use vstd::prelude::*;

use crate::codec::{decode_id, id_decoded, DecodeError, JsonCodec};
use crate::json::{
    has_duplicate, is_version_member, key_count, key_list, lemma_wire_keys, lookup, take_members, version_member,
    version_tag_ok, Json,
};

verus! {

/// A call of `method` with `params`. A request without an id is written
/// without an `id` member.
#[derive(PartialEq, Eq, Hash, Debug, Clone)]
pub struct Request<P> {
    pub method: String,
    pub params: P,
    pub id: Option<u64>,
}

/// The keys that a request is decoded from.
pub open spec fn request_keys() -> Seq<Seq<char>> {
    seq!["method"@, "params"@, "id"@]
}

impl<P> Request<P> {
    pub fn new(method: &str, params: P, id: Option<u64>) -> (r: Self)
        ensures
            r.method@ == method@,
            r.params == params,
            r.id == id,
    {
        Request { method: method.to_owned(), params, id }
    }
}

impl<P: JsonCodec> Request<P> {
    /// `j` is the wire form of `self`: the members `jsonrpc`, `method`,
    /// `params` and, only where there is an id, `id`, in that order.
    pub open spec fn encodes_as(&self, j: Json) -> bool {
        match j {
            Json::Object(m) => {
                &&& m@.len() == if self.id is Some { 4int } else { 3int }
                &&& is_version_member(m@[0])
                &&& m@[1].0@ == "method"@
                &&& m@[1].1 == Json::Str(self.method)
                &&& m@[2].0@ == "params"@
                &&& self.params.encodes_as(m@[2].1)
                &&& self.id matches Some(n) ==> m@[3].0@ == "id"@ && m@[3].1 == Json::Number(
                    n as i128,
                )
            },
            _ => false,
        }
    }

    /// What a JSON value decodes to as a request. Members other than `method`,
    /// `params` and `id` are ignored; the version tag is not checked.
    pub open spec fn decoded(j: Json) -> Result<Self, DecodeError> {
        match j {
            Json::Object(m) => if has_duplicate(m@, request_keys()) {
                Err(DecodeError::DuplicateMember)
            } else {
                match lookup(m@, "method"@) {
                    None => Err(DecodeError::MissingMember),
                    Some(Json::Str(method)) => match lookup(m@, "params"@) {
                        None => Err(DecodeError::MissingMember),
                        Some(pj) => match P::decoded(pj) {
                            None => Err(DecodeError::WrongMemberType),
                            Some(params) => match id_decoded(lookup(m@, "id"@)) {
                                Ok(id) => Ok(Request { method, params, id }),
                                Err(e) => Err(e),
                            },
                        },
                    },
                    Some(_) => Err(DecodeError::WrongMemberType),
                }
            },
            _ => Err(DecodeError::NotAnObject),
        }
    }

    pub fn encode(self) -> (r: Json)
        ensures
            self.encodes_as(r),
    {
        let Request { method, params, id } = self;
        let mut m: Vec<(String, Json)> = Vec::new();
        m.push(version_member());
        m.push(("method".to_owned(), Json::Str(method)));
        m.push(("params".to_owned(), params.into_json()));
        match id {
            Some(n) => m.push(("id".to_owned(), Json::Number(n as i128))),
            None => {},
        }
        Json::Object(m)
    }

    pub fn decode(j: Json) -> (r: Result<Self, DecodeError>)
        ensures
            r == Self::decoded(j),
    {
        match j {
            Json::Object(m) => {
                proof {
                    lemma_wire_keys();
                }
                let keys = key_list("method", "params", "id");
                match take_members(m, &keys) {
                    None => Err(DecodeError::DuplicateMember),
                    Some(mut vals) => {
                        let id_j = match vals.pop() {
                            Some(x) => x,
                            None => None,
                        };
                        let params_j = match vals.pop() {
                            Some(x) => x,
                            None => None,
                        };
                        let method_j = match vals.pop() {
                            Some(x) => x,
                            None => None,
                        };
                        match method_j {
                            None => Err(DecodeError::MissingMember),
                            Some(Json::Str(method)) => match params_j {
                                None => Err(DecodeError::MissingMember),
                                Some(pj) => match P::from_json(pj) {
                                    None => Err(DecodeError::WrongMemberType),
                                    Some(params) => match decode_id(id_j) {
                                        Ok(id) => Ok(Request { method, params, id }),
                                        Err(e) => Err(e),
                                    },
                                },
                            },
                            Some(_) => Err(DecodeError::WrongMemberType),
                        }
                    },
                }
            },
            _ => Err(DecodeError::NotAnObject),
        }
    }
}

proof fn lemma_request_members<P: JsonCodec>(v: Request<P>, j: Json)
    requires
        v.encodes_as(j),
    ensures
        j->Object_0@.len() >= 3,
        j->Object_0@.drop_first()[0] == j->Object_0@[1],
        j->Object_0@.drop_first().drop_first()[0] == j->Object_0@[2],
        v.id is None ==> j->Object_0@.drop_first().drop_first().drop_first().len() == 0,
        v.id is Some ==> j->Object_0@.drop_first().drop_first().drop_first()[0] == j->Object_0@[3]
            && j->Object_0@.drop_first().drop_first().drop_first().drop_first().len() == 0,
{
}

/// Decoding the wire form of a request gives the same request back.
pub proof fn lemma_request_round_trip<P: JsonCodec>(v: Request<P>, j: Json)
    requires
        v.encodes_as(j),
    ensures
        Request::<P>::decoded(j) == Ok::<Request<P>, DecodeError>(v),
{
    lemma_wire_keys();
    reveal_with_fuel(lookup, 5);
    reveal_with_fuel(key_count, 5);
    let m = j->Object_0@;
    lemma_request_members(v, j);
    P::lemma_decode_encoded(v.params, m[2].1);
    assert(key_count(m, "method"@) == 1);
    assert(key_count(m, "params"@) == 1);
    assert(key_count(m, "id"@) <= 1);
    assert(request_keys()[0] == "method"@);
    assert(request_keys()[1] == "params"@);
    assert(request_keys()[2] == "id"@);
    assert(!has_duplicate(m, request_keys()));
}

/// The wire form of a request carries the version tag.
pub proof fn lemma_request_version_tag<P: JsonCodec>(v: Request<P>, j: Json)
    requires
        v.encodes_as(j),
    ensures
        version_tag_ok(j),
{
    reveal_with_fuel(lookup, 2);
}

/// The wire form of a request has an `id` member exactly when the request
/// has an id, and then the member holds that id.
pub proof fn lemma_request_id_member<P: JsonCodec>(v: Request<P>, j: Json)
    requires
        v.encodes_as(j),
    ensures
        lookup(j->Object_0@, "id"@) == match v.id {
            Some(n) => Some(Json::Number(n as i128)),
            None => None::<Json>,
        },
{
    lemma_wire_keys();
    reveal_with_fuel(lookup, 5);
    lemma_request_members(v, j);
}

} // verus!
