use vstd::prelude::*;

use crate::codec::{DecodeError, JsonCodec};
use crate::json::{
    has_duplicate, is_version_member, key_count, key_pair, lemma_wire_keys, lookup, take_members,
    version_member, version_tag_ok, Json,
};

verus! {

/// A call of `method` with `params` that expects no response. Its wire form
/// never has an `id` member.
#[derive(PartialEq, Eq, Hash, Debug, Clone)]
pub struct Notification<P> {
    pub method: String,
    pub params: P,
}

/// The keys that a notification is decoded from.
pub open spec fn notification_keys() -> Seq<Seq<char>> {
    seq!["method"@, "params"@]
}

impl<P> Notification<P> {
    pub fn new(method: &str, params: P) -> (r: Self)
        ensures
            r.method@ == method@,
            r.params == params,
    {
        Notification { method: method.to_owned(), params }
    }
}

impl<P: JsonCodec> Notification<P> {
    /// `j` is the wire form of `self`: the members `jsonrpc`, `method` and
    /// `params`, in that order, and no others.
    pub open spec fn encodes_as(&self, j: Json) -> bool {
        match j {
            Json::Object(m) => {
                &&& m@.len() == 3
                &&& is_version_member(m@[0])
                &&& m@[1].0@ == "method"@
                &&& m@[1].1 == Json::Str(self.method)
                &&& m@[2].0@ == "params"@
                &&& self.params.encodes_as(m@[2].1)
            },
            _ => false,
        }
    }

    /// What a JSON value decodes to as a notification. Members other than
    /// `method` and `params` are ignored; the version tag is not checked.
    pub open spec fn decoded(j: Json) -> Result<Self, DecodeError> {
        match j {
            Json::Object(m) => if has_duplicate(m@, notification_keys()) {
                Err(DecodeError::DuplicateMember)
            } else {
                match lookup(m@, "method"@) {
                    None => Err(DecodeError::MissingMember),
                    Some(Json::Str(method)) => match lookup(m@, "params"@) {
                        None => Err(DecodeError::MissingMember),
                        Some(pj) => match P::decoded(pj) {
                            None => Err(DecodeError::WrongMemberType),
                            Some(params) => Ok(Notification { method, params }),
                        },
                    },
                    Some(_) => Err(DecodeError::WrongMemberType),
                }
            },
            _ => Err(DecodeError::NotAnObject),
        }
    }

    pub fn encode(self) -> (r: Json)
        ensures
            self.encodes_as(r),
    {
        let Notification { method, params } = self;
        let mut m: Vec<(String, Json)> = Vec::new();
        m.push(version_member());
        m.push(("method".to_owned(), Json::Str(method)));
        m.push(("params".to_owned(), params.into_json()));
        Json::Object(m)
    }

    pub fn decode(j: Json) -> (r: Result<Self, DecodeError>)
        ensures
            r == Self::decoded(j),
    {
        match j {
            Json::Object(m) => {
                proof {
                    lemma_wire_keys();
                }
                let keys = key_pair("method", "params");
                match take_members(m, &keys) {
                    None => Err(DecodeError::DuplicateMember),
                    Some(mut vals) => {
                        let params_j = match vals.pop() {
                            Some(x) => x,
                            None => None,
                        };
                        let method_j = match vals.pop() {
                            Some(x) => x,
                            None => None,
                        };
                        match method_j {
                            None => Err(DecodeError::MissingMember),
                            Some(Json::Str(method)) => match params_j {
                                None => Err(DecodeError::MissingMember),
                                Some(pj) => match P::from_json(pj) {
                                    None => Err(DecodeError::WrongMemberType),
                                    Some(params) => Ok(Notification { method, params }),
                                },
                            },
                            Some(_) => Err(DecodeError::WrongMemberType),
                        }
                    },
                }
            },
            _ => Err(DecodeError::NotAnObject),
        }
    }
}

proof fn lemma_notification_members<P: JsonCodec>(v: Notification<P>, j: Json)
    requires
        v.encodes_as(j),
    ensures
        j->Object_0@.len() == 3,
        j->Object_0@.drop_first()[0] == j->Object_0@[1],
        j->Object_0@.drop_first().drop_first()[0] == j->Object_0@[2],
        j->Object_0@.drop_first().drop_first().drop_first().len() == 0,
{
}

/// Decoding the wire form of a notification gives the same notification back.
pub proof fn lemma_notification_round_trip<P: JsonCodec>(v: Notification<P>, j: Json)
    requires
        v.encodes_as(j),
    ensures
        Notification::<P>::decoded(j) == Ok::<Notification<P>, DecodeError>(v),
{
    lemma_wire_keys();
    reveal_with_fuel(lookup, 4);
    reveal_with_fuel(key_count, 4);
    let m = j->Object_0@;
    lemma_notification_members(v, j);
    P::lemma_decode_encoded(v.params, m[2].1);
    assert(key_count(m, "method"@) == 1);
    assert(key_count(m, "params"@) == 1);
    assert(notification_keys()[0] == "method"@);
    assert(notification_keys()[1] == "params"@);
    assert(!has_duplicate(m, notification_keys()));
}

/// The wire form of a notification carries the version tag.
pub proof fn lemma_notification_version_tag<P: JsonCodec>(v: Notification<P>, j: Json)
    requires
        v.encodes_as(j),
    ensures
        version_tag_ok(j),
{
    reveal_with_fuel(lookup, 2);
}

/// The wire form of a notification has no `id` member.
pub proof fn lemma_notification_has_no_id<P: JsonCodec>(v: Notification<P>, j: Json)
    requires
        v.encodes_as(j),
    ensures
        lookup(j->Object_0@, "id"@) is None,
{
    lemma_wire_keys();
    reveal_with_fuel(lookup, 4);
    lemma_notification_members(v, j);
}

} // verus!
