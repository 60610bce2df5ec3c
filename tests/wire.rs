use jsonrpc_types::{Json, Notification, Request, Response, ResponseContent, ResponseError};

fn render(j: &Json) -> String {
    match j {
        Json::Null => "null".to_string(),
        Json::Bool(b) => b.to_string(),
        Json::Number(n) => n.to_string(),
        Json::Str(s) => format!("\"{}\"", s.replace('\\', "\\\\").replace('"', "\\\"")),
        Json::Array(items) => {
            let parts: Vec<String> = items.iter().map(render).collect();
            format!("[{}]", parts.join(","))
        }
        Json::Object(members) => {
            let parts: Vec<String> = members
                .iter()
                .map(|(k, v)| format!("\"{}\":{}", k, render(v)))
                .collect();
            format!("{{{}}}", parts.join(","))
        }
    }
}

fn obj(members: Vec<(&str, Json)>) -> Json {
    Json::Object(members.into_iter().map(|(k, v)| (k.to_string(), v)).collect())
}

fn num_list(ns: &[i128]) -> Json {
    Json::Array(ns.iter().map(|n| Json::Number(*n)).collect())
}

fn params_value() -> Json {
    obj(vec![("p0", Json::Number(0)), ("p1", Json::Number(1))])
}

fn version() -> (&'static str, Json) {
    ("jsonrpc", Json::Str("2.0".to_string()))
}

#[test]
fn test_notification_serde() {
    let j = Notification::new("method", ()).encode();
    assert_eq!(render(&j), r#"{"jsonrpc":"2.0","method":"method","params":null}"#);
    assert_eq!(Notification::<()>::decode(j), Ok(Notification::new("method", ())));

    let j = Notification::new("method", num_list(&[0, 1])).encode();
    assert_eq!(render(&j), r#"{"jsonrpc":"2.0","method":"method","params":[0,1]}"#);
    assert_eq!(
        Notification::<Json>::decode(j),
        Ok(Notification::new("method", num_list(&[0, 1])))
    );

    let j = Notification::new("method", params_value()).encode();
    assert_eq!(
        render(&j),
        r#"{"jsonrpc":"2.0","method":"method","params":{"p0":0,"p1":1}}"#
    );
    assert_eq!(
        Notification::<Json>::decode(j),
        Ok(Notification::new("method", params_value()))
    );
}

#[test]
fn test_request_serde() {
    let cases: Vec<(Request<Json>, &str)> = vec![
        (
            Request::new("method", Json::Null, None),
            r#"{"jsonrpc":"2.0","method":"method","params":null}"#,
        ),
        (
            Request::new("method", Json::Null, Some(1)),
            r#"{"jsonrpc":"2.0","method":"method","params":null,"id":1}"#,
        ),
        (
            Request::new("method", num_list(&[0, 1]), None),
            r#"{"jsonrpc":"2.0","method":"method","params":[0,1]}"#,
        ),
        (
            Request::new("method", num_list(&[0, 1]), Some(1)),
            r#"{"jsonrpc":"2.0","method":"method","params":[0,1],"id":1}"#,
        ),
        (
            Request::new("method", params_value(), None),
            r#"{"jsonrpc":"2.0","method":"method","params":{"p0":0,"p1":1}}"#,
        ),
        (
            Request::new("method", params_value(), Some(1)),
            r#"{"jsonrpc":"2.0","method":"method","params":{"p0":0,"p1":1},"id":1}"#,
        ),
    ];
    for (req, text) in cases {
        let id = req.id;
        let j = req.encode();
        assert_eq!(render(&j), text);
        let back = Request::<Json>::decode(j).unwrap();
        assert_eq!(back.method, "method");
        assert_eq!(back.id, id);
        assert_eq!(render(&back.encode()), text);
    }
    let j = Request::new("method", (), Some(1)).encode();
    assert_eq!(Request::<()>::decode(j), Ok(Request::new("method", (), Some(1))));
}

fn error_with(data: Option<Json>) -> ResponseError<Json> {
    ResponseError { code: -1, message: "message".to_string(), data }
}

#[test]
fn test_response_serde() {
    let datas: Vec<(fn() -> Json, &str)> = vec![
        (|| Json::Number(1), "1"),
        (|| num_list(&[1, -1]), "[1,-1]"),
        (params_value, r#"{"p0":0,"p1":1}"#),
    ];
    for (data, text) in datas {
        for id in [Some(1u64), None] {
            let id_text = match id {
                Some(n) => n.to_string(),
                None => "null".to_string(),
            };
            let cases: Vec<(Response<Json, Json>, String)> = vec![
                (
                    Response::new(ResponseContent::Result(data()), id),
                    format!(r#"{{"jsonrpc":"2.0","result":{},"id":{}}}"#, text, id_text),
                ),
                (
                    Response::new(ResponseContent::Error(error_with(Some(data()))), id),
                    format!(
                        r#"{{"jsonrpc":"2.0","error":{{"code":-1,"message":"message","data":{}}},"id":{}}}"#,
                        text, id_text
                    ),
                ),
                (
                    Response::new(ResponseContent::Error(error_with(None)), id),
                    format!(
                        r#"{{"jsonrpc":"2.0","error":{{"code":-1,"message":"message"}},"id":{}}}"#,
                        id_text
                    ),
                ),
            ];
            for (resp, expected) in cases {
                let j = resp.encode();
                assert_eq!(render(&j), expected);
                let back = Response::<Json, Json>::decode(j).unwrap();
                assert_eq!(back.id, id);
                assert_eq!(render(&back.encode()), expected);
            }
        }
    }
    let j = Response::<u64, ()>::new(ResponseContent::Result(1), Some(1)).encode();
    assert_eq!(
        Response::<u64, ()>::decode(j),
        Ok(Response::new(ResponseContent::Result(1), Some(1)))
    );
}
