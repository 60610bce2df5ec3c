use jsonrpc_types::{
    has_version_tag, DecodeError, Json, Notification, Request, Response, ResponseContent,
    ResponseError,
};

fn obj(members: Vec<(&str, Json)>) -> Json {
    Json::Object(members.into_iter().map(|(k, v)| (k.to_string(), v)).collect())
}

fn member<'a>(j: &'a Json, key: &str) -> Option<&'a Json> {
    match j {
        Json::Object(members) => members.iter().find(|(k, _)| k == key).map(|(_, v)| v),
        _ => None,
    }
}

fn keys(j: &Json) -> Vec<String> {
    match j {
        Json::Object(members) => members.iter().map(|(k, _)| k.clone()).collect(),
        _ => Vec::new(),
    }
}

fn s(text: &str) -> Json {
    Json::Str(text.to_string())
}

#[test]
fn round_trip_of_each_message() {
    let r = Request::new("sum", 7i64, Some(u64::MAX));
    assert_eq!(Request::<i64>::decode(r.clone().encode()), Ok(r));
    let n = Notification::new("tick", true);
    assert_eq!(Notification::<bool>::decode(n.clone().encode()), Ok(n));
    let ok = Response::<String, i64>::new(ResponseContent::Result("done".to_string()), Some(0));
    assert_eq!(Response::<String, i64>::decode(ok.clone().encode()), Ok(ok));
    let err = Response::<String, i64>::new(
        ResponseContent::Error(ResponseError { code: i64::MIN, message: String::new(), data: Some(-3) }),
        None,
    );
    assert_eq!(Response::<String, i64>::decode(err.clone().encode()), Ok(err));
}

#[test]
fn version_tag_on_every_message() {
    assert!(has_version_tag(&Request::new("a", (), None).encode()));
    assert!(has_version_tag(&Notification::new("", ()).encode()));
    let resp = Response::<(), ()>::new(ResponseContent::Result(()), None).encode();
    assert!(has_version_tag(&resp));
    assert_eq!(keys(&resp)[0], "jsonrpc");
    assert_eq!(member(&resp, "jsonrpc"), Some(&s("2.0")));
}

#[test]
fn version_tag_check_rejects() {
    assert!(!has_version_tag(&obj(vec![("jsonrpc", s("1.0"))])));
    assert!(!has_version_tag(&obj(vec![("method", s("m"))])));
    assert!(!has_version_tag(&obj(vec![("jsonrpc", Json::Number(2))])));
    assert!(!has_version_tag(&Json::Null));
    assert!(has_version_tag(&obj(vec![("jsonrpc", s("2.0")), ("jsonrpc", s("1.0"))])));
}

#[test]
fn id_member_only_where_there_is_an_id() {
    let n = Notification::new("m", ()).encode();
    assert_eq!(member(&n, "id"), None);
    let r = Request::new("m", (), None).encode();
    assert_eq!(member(&r, "id"), None);
    let r = Request::new("m", (), Some(5)).encode();
    assert_eq!(member(&r, "id"), Some(&Json::Number(5)));
    assert_eq!(keys(&r), vec!["jsonrpc", "method", "params", "id"]);
}

#[test]
fn response_with_both_or_neither_is_rejected() {
    let both = obj(vec![
        ("jsonrpc", s("2.0")),
        ("result", Json::Number(1)),
        ("error", obj(vec![("code", Json::Number(-1)), ("message", s("x"))])),
        ("id", Json::Number(1)),
    ]);
    assert_eq!(Response::<Json, Json>::decode(both), Err(DecodeError::BothResultAndError));
    let neither = obj(vec![("jsonrpc", s("2.0")), ("id", Json::Number(1))]);
    assert_eq!(Response::<Json, Json>::decode(neither), Err(DecodeError::NeitherResultNorError));
}

#[test]
fn error_data_omitted_when_absent() {
    let e = ResponseError::<u64> { code: -1, message: "x".to_string(), data: None }.encode();
    assert_eq!(member(&e, "data"), None);
    assert_eq!(keys(&e), vec!["code", "message"]);
    let e = ResponseError::<u64> { code: -1, message: "x".to_string(), data: Some(7) }.encode();
    assert_eq!(member(&e, "data"), Some(&Json::Number(7)));
}

#[test]
fn subtract_request_scenario() {
    let params = Json::Array(vec![Json::Number(42), Json::Number(23)]);
    let j = Request::new("subtract", params, Some(1)).encode();
    let expected = obj(vec![
        ("jsonrpc", s("2.0")),
        ("method", s("subtract")),
        ("params", Json::Array(vec![Json::Number(42), Json::Number(23)])),
        ("id", Json::Number(1)),
    ]);
    assert_eq!(j, expected);
    let back = Request::<Json>::decode(j).unwrap();
    assert_eq!(
        back,
        Request::new("subtract", Json::Array(vec![Json::Number(42), Json::Number(23)]), Some(1))
    );
}

#[test]
fn method_not_found_scenario() {
    let e = ResponseError::<()> { code: -32601, message: "Method not found".to_string(), data: None };
    let j = Response::<(), ()>::new(ResponseContent::Error(e), None).encode();
    let expected = obj(vec![
        ("jsonrpc", s("2.0")),
        (
            "error",
            obj(vec![("code", Json::Number(-32601)), ("message", s("Method not found"))]),
        ),
        ("id", Json::Null),
    ]);
    assert_eq!(j, expected);
}

#[test]
fn decode_errors() {
    assert_eq!(Request::<()>::decode(Json::Null), Err(DecodeError::NotAnObject));
    assert_eq!(
        Request::<()>::decode(obj(vec![("params", Json::Null)])),
        Err(DecodeError::MissingMember)
    );
    assert_eq!(
        Request::<()>::decode(obj(vec![("method", s("m"))])),
        Err(DecodeError::MissingMember)
    );
    assert_eq!(
        Request::<()>::decode(obj(vec![("method", Json::Number(1)), ("params", Json::Null)])),
        Err(DecodeError::WrongMemberType)
    );
    assert_eq!(
        Request::<()>::decode(obj(vec![("method", s("m")), ("params", Json::Bool(true))])),
        Err(DecodeError::WrongMemberType)
    );
    assert_eq!(
        Request::<()>::decode(obj(vec![
            ("method", s("m")),
            ("params", Json::Null),
            ("id", Json::Number(-1))
        ])),
        Err(DecodeError::WrongMemberType)
    );
    assert_eq!(
        Request::<()>::decode(obj(vec![("method", s("m")), ("method", s("n")), ("params", Json::Null)])),
        Err(DecodeError::DuplicateMember)
    );
    assert_eq!(
        Notification::<()>::decode(obj(vec![("method", s("m"))])),
        Err(DecodeError::MissingMember)
    );
    assert_eq!(
        Response::<(), ()>::decode(obj(vec![("error", obj(vec![("code", Json::Number(1))]))])),
        Err(DecodeError::MissingMember)
    );
    assert_eq!(
        Response::<u64, ()>::decode(obj(vec![("result", s("x"))])),
        Err(DecodeError::WrongMemberType)
    );
    assert_eq!(
        ResponseError::<()>::decode(obj(vec![
            ("code", Json::Number(i64::MAX as i128 + 1)),
            ("message", s("x"))
        ])),
        Err(DecodeError::WrongMemberType)
    );
}

#[test]
fn decode_ignores_other_members_and_null_id() {
    let j = obj(vec![
        ("jsonrpc", s("2.0")),
        ("method", s("m")),
        ("params", Json::Null),
        ("id", Json::Null),
        ("extra", Json::Bool(false)),
    ]);
    assert_eq!(Request::<()>::decode(j), Ok(Request::new("m", (), None)));
    let j = obj(vec![("method", s("m")), ("params", Json::Null), ("id", Json::Number(3))]);
    assert_eq!(Notification::<()>::decode(j), Ok(Notification::new("m", ())));
    let j = obj(vec![("result", Json::Null)]);
    assert_eq!(
        Response::<(), ()>::decode(j),
        Ok(Response::new(ResponseContent::Result(()), None))
    );
}
