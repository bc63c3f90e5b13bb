use common_rust::routing::signature::{
    describe, parse_attr, FnShape, Input, Kind, PatShape, Response, TypeShape,
};

fn plain(name: &str) -> TypeShape {
    TypeShape::Path { last: name.to_string(), first_arg: None, text: name.to_string() }
}

fn text_of(ty: &TypeShape) -> String {
    match ty {
        TypeShape::Path { text, .. } | TypeShape::Tuple { text, .. } | TypeShape::Other { text } => text.clone(),
    }
}

/// `name<inner>`, written as the token stream renders it.
fn generic(name: &str, inner: TypeShape) -> TypeShape {
    let text = format!("{name} < {} >", text_of(&inner));
    TypeShape::Path { last: name.to_string(), first_arg: Some(Box::new(inner)), text }
}

/// A path whose last segment is `last`, written `text`.
fn qualified(last: &str, inner: TypeShape, text: &str) -> TypeShape {
    TypeShape::Path { last: last.to_string(), first_arg: Some(Box::new(inner)), text: text.to_string() }
}

fn tuple(elems: Vec<TypeShape>) -> TypeShape {
    let text = format!("({})", elems.iter().map(text_of).collect::<Vec<_>>().join(" , "));
    TypeShape::Tuple { final_elem: elems.into_iter().last().map(Box::new), text }
}

fn bind(name: &str) -> PatShape {
    PatShape::Ident(name.to_string())
}

fn wrapped(inner: PatShape) -> PatShape {
    PatShape::TupleStruct(Some(Box::new(inner)))
}

fn arg(pat: PatShape, ty: TypeShape) -> Input {
    Input::Typed { pat, ty }
}

fn handler(name: &str, inputs: Vec<Input>, output: Option<TypeShape>) -> FnShape {
    FnShape { name: name.to_string(), is_async: true, inputs, output }
}

fn kinds(f: &FnShape) -> Vec<(String, Kind, Option<String>)> {
    describe(f, false).expect("describable").args.into_iter().map(|a| (a.name, a.kind, a.ty)).collect()
}

#[test]
fn extractors_are_read_in_order_and_guards_are_skipped() {
    let f = handler(
        "run",
        vec![
            arg(wrapped(bind("app")), generic("State", generic("Arc", plain("App")))),
            arg(bind("_who"), plain("Operator")),
            arg(wrapped(PatShape::Other), generic("ApiPath", tuple(vec![plain("String"), plain("i64")]))),
            arg(bind("headers"), plain("HeaderMap")),
            arg(wrapped(bind("q")), generic("ApiQuery", plain("RunQuery"))),
            arg(wrapped(bind("body")), generic("Json", plain("CreateTaskRequest"))),
            arg(bind("multipart"), plain("Multipart")),
        ],
        Some(qualified("Result", generic("Json", plain("RunDetail")), "Result < Json < RunDetail > , AppError >")),
    );
    assert_eq!(
        kinds(&f),
        vec![
            ("path".into(), Kind::Path, Some("(String , i64)".into())),
            ("q".into(), Kind::Query, Some("RunQuery".into())),
            ("body".into(), Kind::Body, Some("CreateTaskRequest".into())),
            ("multipart".into(), Kind::Multipart, None),
        ]
    );
}

#[test]
fn a_single_binding_keeps_its_name() {
    let f = handler(
        "task",
        vec![arg(wrapped(bind("id")), generic("ApiPath", plain("String")))],
        Some(generic("Json", plain("TaskDetail"))),
    );
    assert_eq!(kinds(&f), vec![("id".into(), Kind::Path, Some("String".into()))]);
}

fn response(ret: TypeShape) -> Response {
    describe(&handler("h", vec![], Some(ret)), false).expect("describable").response
}

fn json_of(r: Response) -> String {
    match r {
        Response::Json(t) => t,
        other => panic!("expected Json, got {other:?}"),
    }
}

#[test]
fn every_json_wrapping_resolves_to_its_payload() {
    assert_eq!(json_of(response(generic("Json", plain("SessionInfo")))), "SessionInfo");
    assert_eq!(json_of(response(generic("ApiJson", plain("SessionInfo")))), "SessionInfo");
    assert_eq!(
        json_of(response(generic("Result", generic("Json", generic("Vec", plain("TaskSummary")))))),
        "Vec < TaskSummary >"
    );
    assert_eq!(
        json_of(response(qualified("Result", generic("Json", plain("RunPage")), "Result < Json < RunPage > , AppError >"))),
        "RunPage"
    );
    assert_eq!(
        json_of(response(generic("Result", tuple(vec![plain("StatusCode"), generic("Json", plain("TaskCreated"))])))),
        "TaskCreated"
    );
    assert_eq!(
        json_of(response(qualified(
            "Result",
            qualified("Json", plain("X"), "axum :: Json < X >"),
            "std :: result :: Result < axum :: Json < X > , E >"
        ))),
        "X"
    );
}

#[test]
fn status_code_and_unit_are_no_content() {
    assert!(matches!(response(generic("Result", plain("StatusCode"))), Response::NoContent));
    assert!(matches!(response(plain("StatusCode")), Response::NoContent));
    assert!(matches!(response(tuple(vec![])), Response::NoContent));
    assert!(matches!(describe(&handler("h", vec![], None), false).unwrap().response, Response::NoContent));
}

#[test]
fn opaque_returns_are_errors_naming_the_handler() {
    for ret in [
        TypeShape::Other { text: "impl IntoResponse".to_string() },
        plain("Response"),
        plain("Result"),
        qualified("Result", plain("Response"), "Result < Response , AppError >"),
        generic("Html", plain("String")),
        TypeShape::Other { text: "& 'static str".to_string() },
    ] {
        let err = describe(&handler("opaque_one", vec![], Some(ret)), false).expect_err("opaque");
        assert!(err.contains("`opaque_one`"), "{err}");
        assert!(err.contains("opaque"), "{err}");
    }
}

#[test]
fn link_skips_the_return_type() {
    let f = handler(
        "download",
        vec![arg(wrapped(PatShape::Other), generic("ApiPath", tuple(vec![plain("String"), plain("String")])))],
        Some(plain("Result")),
    );
    let d = describe(&f, true).expect("link");
    assert!(matches!(d.response, Response::Link));
    assert_eq!(d.args.len(), 1);
}

#[test]
fn a_wrapper_without_its_payload_type_is_an_error() {
    let f = handler("h", vec![arg(bind("p"), plain("Path"))], Some(generic("Json", plain("X"))));
    let err = describe(&f, false).expect_err("missing T");
    assert!(err.contains("`Path<T>`"), "{err}");
}

#[test]
fn a_non_async_fn_is_an_error() {
    let mut f = handler("h", vec![], Some(generic("Json", plain("X"))));
    f.is_async = false;
    assert!(describe(&f, false).is_err());
}

#[test]
fn attr_grammar() {
    assert!(!parse_attr("").unwrap());
    assert!(parse_attr("link").unwrap());
    assert!(parse_attr("links").is_err());
}

#[test]
fn a_handler_takes_no_self_and_parenthesised_bindings_keep_their_name() {
    let f = handler("h", vec![Input::Receiver], None);
    assert_eq!(describe(&f, false).unwrap_err(), "#[client] on `h`: a handler has no `self`");
    let f = handler(
        "h",
        vec![arg(wrapped(PatShape::Paren(Box::new(bind("inner")))), generic("Query", plain("Q")))],
        None,
    );
    assert_eq!(kinds(&f), vec![("inner".into(), Kind::Query, Some("Q".into()))]);
    assert_eq!(
        parse_attr(" other ").unwrap_err(),
        "#[client]: unknown option `other` — accepted: nothing, or `link`"
    );
}
