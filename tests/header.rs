use jni_bridge::header::{
    classify_param, director_for, normalise, normalise_all, parse_header, Attribute,
    FunctionDecl, HeaderError, HeaderEvent, Param, ParamKind,
};

fn start(name: &str) -> HeaderEvent {
    HeaderEvent::StartElement { local_name: name.to_string(), attributes: vec![] }
}

fn end(name: &str) -> HeaderEvent {
    HeaderEvent::EndElement { local_name: name.to_string() }
}

fn text(t: &str) -> HeaderEvent {
    HeaderEvent::Characters(t.to_string())
}

fn decl(name: &str, params: &[(&str, &str)]) -> FunctionDecl {
    FunctionDecl {
        function_name: name.to_string(),
        function_ret: "void".to_string(),
        function_params: params
            .iter()
            .map(|(n, t)| Param { name: n.to_string(), param_type: t.to_string() })
            .collect(),
        callback_director: String::new(),
        callback_virtuals: vec![],
    }
}

#[test]
fn director_names() {
    assert_eq!(director_for("get_app_id"), "GetAppIdCb");
    assert_eq!(director_for("create_account"), "CreateAccountCb");
    assert_eq!(director_for("_x__y"), "XYCb");
    assert_eq!(director_for(""), "Cb");
}

#[test]
fn parameter_kinds() {
    assert!(matches!(classify_param("void *"), Ok(ParamKind::UserData)));
    assert!(matches!(classify_param("void*"), Ok(ParamKind::UserData)));
    match classify_param("void(*)(void *user_data, FfiResult const *result, int32_t id)") {
        Ok(ParamKind::Callback(g)) => assert_eq!(g, "FfiResult const *result, int32_t id"),
        _ => panic!("callback expected"),
    }
    assert!(matches!(classify_param("AppInfo const *"), Ok(ParamKind::Plain)));
}

#[test]
fn normalise_sorts_parameters() {
    let mut d = decl(
        "get_app_id",
        &[
            ("app_info", "AppInfo const *"),
            ("user_data", "void *"),
            ("o_cb", "void(*)(void *user_data, FfiResult const *result, int32_t id)"),
        ],
    );
    assert!(normalise(&mut d).is_ok());
    assert_eq!(d.callback_director, "GetAppIdCb");
    let params: Vec<(String, String)> =
        d.function_params.iter().map(|p| (p.name.clone(), p.param_type.clone())).collect();
    assert_eq!(
        params,
        vec![
            ("app_info".to_string(), "AppInfo const *".to_string()),
            ("obj".to_string(), "GetAppIdCb *".to_string()),
        ]
    );
    assert_eq!(d.callback_virtuals, vec!["virtual void o_cb(FfiResult const *result, int32_t id) = 0;".to_string()]);
}

#[test]
fn parse_and_normalise_a_document() {
    let member_attrs = vec![
        Attribute { local_name: "kind".to_string(), value: "function".to_string() },
        Attribute { local_name: "id".to_string(), value: "x".to_string() },
    ];
    let events = vec![
        start("doxygen"),
        HeaderEvent::StartElement { local_name: "memberdef".to_string(), attributes: vec![
            Attribute { local_name: "kind".to_string(), value: "typedef".to_string() },
        ] },
        start("name"),
        text("ignored"),
        end("name"),
        end("memberdef"),
        HeaderEvent::StartElement { local_name: "memberdef".to_string(), attributes: member_attrs },
        start("type"),
        text("void"),
        end("type"),
        start("name"),
        text("random_numbers"),
        end("name"),
        start("param"),
        HeaderEvent::Whitespace(" ".to_string()),
        start("type"),
        text("void *"),
        end("type"),
        start("declname"),
        text("user_data"),
        end("declname"),
        end("param"),
        HeaderEvent::Other,
        end("memberdef"),
        end("doxygen"),
        HeaderEvent::EndDocument,
    ];
    let mut decls = parse_header(&events).ok().expect("the document parses");
    assert_eq!(decls.len(), 1);
    assert_eq!(decls[0].function_name, "random_numbers");
    assert_eq!(decls[0].function_ret, "void");
    assert_eq!(decls[0].function_params.len(), 1);
    assert_eq!(decls[0].function_params[0].name, "user_data");
    assert!(normalise_all(&mut decls).is_ok());
    assert_eq!(decls[0].callback_director, "RandomNumbersCb");
    assert_eq!(decls[0].function_params[0].name, "obj");
    assert_eq!(decls[0].function_params[0].param_type, "RandomNumbersCb *");
}

#[test]
fn malformed_documents_are_refused() {
    let attrs = vec![Attribute { local_name: "kind".to_string(), value: "function".to_string() }];
    let member = HeaderEvent::StartElement { local_name: "memberdef".to_string(), attributes: attrs };
    let cut = vec![HeaderEvent::StartElement { local_name: "memberdef".to_string(), attributes: vec![Attribute { local_name: "kind".to_string(), value: "function".to_string() }] }, start("name")];
    assert_eq!(parse_header(&cut).err(), Some(HeaderError::UnexpectedEnd));
    let wrong = vec![member, start("type"), end("type")];
    assert_eq!(parse_header(&wrong).err(), Some(HeaderError::UnexpectedEvent));
    assert_eq!(parse_header(&[]).err(), Some(HeaderError::UnexpectedEnd));
}
