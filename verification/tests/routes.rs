use route_resolver::actix;
use route_resolver::rocket;
use route_resolver::ArgumentIn;
use route_resolver::ArgumentResolver;
use route_resolver::AttrToken;
use route_resolver::AttributeData;
use route_resolver::Dialect;
use route_resolver::ParamDesc;
use route_resolver::PatDesc;
use route_resolver::PathOperation;
use route_resolver::PathOperationResolver;
use route_resolver::PathOperations;
use route_resolver::PathResolver;
use route_resolver::ResolveError;
use route_resolver::ResolvedArg;
use route_resolver::TypeDesc;

fn s(x: &str) -> String {
    x.to_string()
}

#[test]
fn actix_simple_capture() {
    let rp = actix::resolve_path(&Some(s("/users/{id}"))).unwrap();
    assert_eq!(rp.path, "/users/{id}");
    assert_eq!(rp.args, vec![ResolvedArg::Path(s("id"))]);
}

#[test]
fn actix_inline_constraint_stripped() {
    let rp = actix::resolve_path(&Some(s("/users/{id:\\d+}"))).unwrap();
    assert_eq!(rp.path, "/users/{id}");
    assert_eq!(rp.args, vec![ResolvedArg::Path(s("id"))]);
}

#[test]
fn actix_constraint_with_metacharacters() {
    let rp = actix::resolve_path(&Some(s("/v/{tail:\\d+[a-z].*}/end"))).unwrap();
    assert_eq!(rp.path, "/v/{tail}/end");
    assert_eq!(rp.args, vec![ResolvedArg::Path(s("tail"))]);
}

#[test]
fn actix_capture_count_and_order() {
    let rp = actix::resolve_path(&Some(s("/a/{x}/{y}"))).unwrap();
    assert_eq!(rp.path, "/a/{x}/{y}");
    assert_eq!(
        rp.args,
        vec![ResolvedArg::Path(s("x")), ResolvedArg::Path(s("y"))]
    );
}

#[test]
fn actix_anonymous_captures_counted() {
    let rp = actix::resolve_path(&Some(s("/{_:\\d+}/{id}/{_:x}"))).unwrap();
    assert_eq!(rp.path, "/{arg0}/{id}/{arg1}");
    assert_eq!(
        rp.args,
        vec![
            ResolvedArg::Path(s("arg0")),
            ResolvedArg::Path(s("id")),
            ResolvedArg::Path(s("arg1")),
        ]
    );
}

#[test]
fn actix_no_path_gives_none() {
    assert!(actix::resolve_path(&None).is_none());
}

#[test]
fn rocket_three_captures_with_query() {
    let rp = rocket::resolve_path(&Some(s("/hello/<id>/<name>?<colors>"))).unwrap();
    assert_eq!(rp.path, "/hello/{id}/{name}?{colors}");
    assert_eq!(
        rp.args,
        vec![
            ResolvedArg::Path(s("id")),
            ResolvedArg::Path(s("name")),
            ResolvedArg::Query(s("colors")),
        ]
    );
}

#[test]
fn rocket_query_split_is_stable() {
    let rp = rocket::resolve_path(&Some(s("a/<x>?b=<y>"))).unwrap();
    assert_eq!(rp.path, "a/{x}?b={y}");
    assert_eq!(
        rp.args,
        vec![ResolvedArg::Path(s("x")), ResolvedArg::Query(s("y"))]
    );
}

#[test]
fn rocket_anonymous_names_in_order() {
    let rp = rocket::resolve_path(&Some(s("/<_>/<a>/<_>?<_>"))).unwrap();
    assert_eq!(rp.path, "/{arg0}/{a}/{arg1}?{arg2}");
    assert_eq!(
        rp.args,
        vec![
            ResolvedArg::Path(s("arg0")),
            ResolvedArg::Path(s("a")),
            ResolvedArg::Path(s("arg1")),
            ResolvedArg::Query(s("arg2")),
        ]
    );
}

#[test]
fn rocket_anonymous_naming_is_repeatable() {
    let a = rocket::resolve_path(&Some(s("/<_>/<a>/<_>"))).unwrap();
    let b = rocket::resolve_path(&Some(s("/<_>/<a>/<_>"))).unwrap();
    assert_eq!(a.path, b.path);
    assert_eq!(a.args, b.args);
}

#[test]
fn rocket_trailing_segments_capture() {
    let rp = rocket::resolve_path(&Some(s("/files/<path..>"))).unwrap();
    assert_eq!(rp.path, "/files/{path}");
    assert_eq!(rp.args, vec![ResolvedArg::Path(s("path"))]);
}

#[test]
fn rocket_consecutive_and_edge_captures() {
    let rp = rocket::resolve_path(&Some(s("<a><b>"))).unwrap();
    assert_eq!(rp.path, "{a}{b}");
    assert_eq!(
        rp.args,
        vec![ResolvedArg::Path(s("a")), ResolvedArg::Path(s("b"))]
    );
}

#[test]
fn rocket_empty_query_part_dropped() {
    let rp = rocket::resolve_path(&Some(s("a?"))).unwrap();
    assert_eq!(rp.path, "a");
    assert!(rp.args.is_empty());
}

#[test]
fn rocket_empty_path() {
    let rp = rocket::resolve_path(&Some(s(""))).unwrap();
    assert_eq!(rp.path, "");
    assert!(rp.args.is_empty());
}

#[test]
fn classification_is_path_or_query_and_counts_add_up() {
    let rp = rocket::resolve_path(&Some(s("/<a>/<b>?<c>"))).unwrap();
    let paths = rp
        .args
        .iter()
        .filter(|a| matches!(a, ResolvedArg::Path(_)))
        .count();
    let queries = rp
        .args
        .iter()
        .filter(|a| matches!(a, ResolvedArg::Query(_)))
        .count();
    assert_eq!(paths + queries, rp.args.len());
    assert_eq!(paths, 2);
    assert_eq!(queries, 1);
}

fn route_attr(name: &str, toks: Vec<AttrToken>) -> AttributeData {
    AttributeData {
        name: Some(s(name)),
        tokens: toks,
    }
}

#[test]
fn rocket_generic_route_form() {
    let attrs = vec![route_attr(
        "route",
        vec![
            AttrToken::Ident(s("GET")),
            AttrToken::Punct(','),
            AttrToken::Ident(s("uri")),
            AttrToken::Punct('='),
            AttrToken::LitStr(s("/hello")),
        ],
    )];
    let op = rocket::resolve_operation(&attrs).unwrap().unwrap();
    assert_eq!(op.path_operation, PathOperation::Get);
    assert_eq!(op.path, "/hello");
}

#[test]
fn rocket_generic_form_under_any_keyword() {
    let attrs = vec![route_attr(
        "get",
        vec![
            AttrToken::Ident(s("POST")),
            AttrToken::Punct(','),
            AttrToken::Ident(s("uri")),
            AttrToken::Punct('='),
            AttrToken::LitStr(s("/hello")),
        ],
    )];
    let op = rocket::resolve_operation(&attrs).unwrap().unwrap();
    assert_eq!(op.path_operation, PathOperation::Post);
    assert_eq!(op.path, "/hello");
}

#[test]
fn rocket_plain_form_takes_method_from_keyword() {
    let attrs = vec![
        AttributeData {
            name: Some(s("doc")),
            tokens: vec![],
        },
        route_attr("put", vec![AttrToken::LitStr(s("/x"))]),
    ];
    let op = rocket::resolve_operation(&attrs).unwrap().unwrap();
    assert_eq!(op.path_operation, PathOperation::Put);
    assert_eq!(op.path, "/x");
}

#[test]
fn rocket_not_a_route() {
    let attrs = vec![AttributeData {
        name: Some(s("inline")),
        tokens: vec![],
    }];
    assert_eq!(rocket::resolve_operation(&attrs).unwrap(), None);
}

#[test]
fn rocket_malformed_attribute() {
    let attrs = vec![route_attr("get", vec![AttrToken::Punct('=')])];
    assert_eq!(
        rocket::resolve_operation(&attrs),
        Err(ResolveError::MalformedAttribute(0))
    );
}

#[test]
fn rocket_unsupported_method_in_generic_form() {
    let attrs = vec![route_attr(
        "route",
        vec![
            AttrToken::Ident(s("FOO")),
            AttrToken::Punct(','),
            AttrToken::Ident(s("uri")),
            AttrToken::Punct('='),
            AttrToken::LitStr(s("/x")),
        ],
    )];
    assert_eq!(
        rocket::resolve_operation(&attrs),
        Err(ResolveError::UnsupportedOperation(s("foo")))
    );
}

#[test]
fn rocket_route_keyword_without_method_is_unsupported() {
    let attrs = vec![route_attr("route", vec![AttrToken::LitStr(s("/x"))])];
    assert_eq!(
        rocket::resolve_operation(&attrs),
        Err(ResolveError::UnsupportedOperation(s("route")))
    );
}

#[test]
fn actix_operation_from_attribute() {
    let attrs = vec![route_attr("delete", vec![AttrToken::LitStr(s("/users/{id}"))])];
    let op = actix::resolve_operation(&attrs).unwrap().unwrap();
    assert_eq!(op.path_operation, PathOperation::Delete);
    assert_eq!(op.path, "/users/{id}");
}

#[test]
fn actix_malformed_attribute() {
    let attrs = vec![route_attr("get", vec![AttrToken::Ident(s("GET"))])];
    assert_eq!(
        actix::resolve_operation(&attrs),
        Err(ResolveError::MalformedAttribute(0))
    );
}

fn ident_param(name: &str, ty: TypeDesc) -> ParamDesc {
    ParamDesc {
        pat: PatDesc::Ident(s(name)),
        ty,
    }
}

#[test]
fn rocket_binding_strips_references_and_wrappers() {
    let rp = rocket::resolve_path(&Some(s("/hello/<id>/<name>?<colors>")));
    let params = vec![
        ident_param("id", TypeDesc::Named(s("i32"))),
        ident_param("name", TypeDesc::Reference(Box::new(TypeDesc::Named(s("str"))))),
        ident_param(
            "colors",
            TypeDesc::Generic(
                s("Vec"),
                vec![TypeDesc::Reference(Box::new(TypeDesc::Named(s("str"))))],
            ),
        ),
    ];
    let args = rocket::resolve_path_arguments(&params, &rp).unwrap().unwrap();
    assert_eq!(args.len(), 3);
    assert_eq!(args[0].name.as_deref(), Some("id"));
    assert_eq!(args[0].argument_in, ArgumentIn::Path);
    assert_eq!(args[0].ident, "i32");
    assert_eq!(args[1].name.as_deref(), Some("name"));
    assert_eq!(args[1].argument_in, ArgumentIn::Path);
    assert_eq!(args[1].ident, "str");
    assert_eq!(args[2].name.as_deref(), Some("colors"));
    assert_eq!(args[2].argument_in, ArgumentIn::Query);
    assert_eq!(args[2].ident, "str");
}

#[test]
fn rocket_tuple_parameter_flattens_in_order() {
    let rp = rocket::resolve_path(&Some(s("/p/<a>/<b>")));
    let params = vec![ParamDesc {
        pat: PatDesc::Tuple(vec![PatDesc::Ident(s("a")), PatDesc::Ident(s("b"))]),
        ty: TypeDesc::Tuple(vec![TypeDesc::Named(s("i32")), TypeDesc::Named(s("u8"))]),
    }];
    let args = rocket::resolve_path_arguments(&params, &rp).unwrap().unwrap();
    assert_eq!(args.len(), 2);
    assert_eq!(args[0].ident, "i32");
    assert_eq!(args[1].ident, "u8");
}

#[test]
fn rocket_length_mismatch_is_fatal() {
    let rp = rocket::resolve_path(&Some(s("/a/<x>")));
    let params: Vec<ParamDesc> = vec![];
    assert_eq!(
        rocket::resolve_path_arguments(&params, &rp),
        Err(ResolveError::ArgumentCountMismatch(1, 0))
    );
}

#[test]
fn rocket_unrepresentable_parameter_is_fatal() {
    let rp = rocket::resolve_path(&Some(s("/a/<x>")));
    let params = vec![ident_param("x", TypeDesc::Tuple(vec![]))];
    assert_eq!(
        rocket::resolve_path_arguments(&params, &rp),
        Err(ResolveError::UnexpectedParamShape(0))
    );
}

#[test]
fn actix_binds_through_path_wrapper() {
    let rp = actix::resolve_path(&Some(s("/users/{id}")));
    let params = vec![ident_param(
        "id",
        TypeDesc::Generic(s("Path"), vec![TypeDesc::Named(s("i32"))]),
    )];
    let args = actix::resolve_path_arguments(&params, &rp).unwrap().unwrap();
    assert_eq!(args.len(), 1);
    assert_eq!(args[0].name.as_deref(), Some("id"));
    assert_eq!(args[0].argument_in, ArgumentIn::Path);
    assert_eq!(args[0].ident, "i32");
}

#[test]
fn actix_wrapper_over_three_types_expands_in_order() {
    let rp = actix::resolve_path(&Some(s("/{a}/{b}/{c}")));
    let params = vec![ident_param(
        "p",
        TypeDesc::Generic(
            s("Path"),
            vec![
                TypeDesc::Named(s("i32")),
                TypeDesc::Named(s("String")),
                TypeDesc::Named(s("u8")),
            ],
        ),
    )];
    let args = actix::resolve_path_arguments(&params, &rp).unwrap().unwrap();
    assert_eq!(args.len(), 3);
    assert_eq!(args[0].ident, "i32");
    assert_eq!(args[1].ident, "String");
    assert_eq!(args[2].ident, "u8");
}

#[test]
fn actix_wrapper_over_tuple_expands_per_element() {
    let rp = actix::resolve_path(&Some(s("/{a}/{b}")));
    let params = vec![ident_param(
        "p",
        TypeDesc::Generic(
            s("Path"),
            vec![TypeDesc::Tuple(vec![
                TypeDesc::Named(s("i32")),
                TypeDesc::Named(s("String")),
            ])],
        ),
    )];
    let args = actix::resolve_path_arguments(&params, &rp).unwrap().unwrap();
    assert_eq!(args.len(), 2);
    assert_eq!(args[0].ident, "i32");
    assert_eq!(args[1].ident, "String");
}

#[test]
fn actix_no_wrapper_means_no_arguments() {
    let rp = actix::resolve_path(&Some(s("/plain")));
    let params = vec![ident_param("db", TypeDesc::Named(s("Data")))];
    assert_eq!(actix::resolve_path_arguments(&params, &rp), Ok(None));
}

#[test]
fn actix_reference_parameter_is_fatal() {
    let rp = actix::resolve_path(&Some(s("/x")));
    let params = vec![ident_param(
        "r",
        TypeDesc::Reference(Box::new(TypeDesc::Named(s("str")))),
    )];
    assert_eq!(
        actix::resolve_path_arguments(&params, &rp),
        Err(ResolveError::UnexpectedParamShape(0))
    );
}

#[test]
fn facade_resolves_a_rocket_route_end_to_end() {
    let po = PathOperations {
        dialect: Dialect::Rocket,
    };
    let attrs = vec![route_attr(
        "get",
        vec![AttrToken::LitStr(s("/hello/<id>?<colors>"))],
    )];
    let params = vec![
        ident_param("id", TypeDesc::Named(s("i32"))),
        ident_param(
            "colors",
            TypeDesc::Generic(
                s("Vec"),
                vec![TypeDesc::Reference(Box::new(TypeDesc::Named(s("str"))))],
            ),
        ),
    ];
    let res = po.resolve(&attrs, &params).unwrap().unwrap();
    assert_eq!(res.operation.path_operation, PathOperation::Get);
    assert_eq!(res.operation.path, "/hello/<id>?<colors>");
    assert_eq!(res.path.path, "/hello/{id}?{colors}");
    let args = res.arguments.unwrap();
    assert_eq!(args.len(), 2);
    assert_eq!(args[0].ident, "i32");
    assert_eq!(args[1].ident, "str");
}

#[test]
fn facade_resolves_an_actix_route_end_to_end() {
    let po = PathOperations {
        dialect: Dialect::Actix,
    };
    let attrs = vec![route_attr("get", vec![AttrToken::LitStr(s("/users/{id}"))])];
    let params = vec![ident_param(
        "id",
        TypeDesc::Generic(s("Path"), vec![TypeDesc::Named(s("i32"))]),
    )];
    let res = po.resolve(&attrs, &params).unwrap().unwrap();
    assert_eq!(res.operation.path_operation, PathOperation::Get);
    assert_eq!(res.path.path, "/users/{id}");
    let args = res.arguments.unwrap();
    assert_eq!(args.len(), 1);
    assert_eq!(args[0].name.as_deref(), Some("id"));
    assert_eq!(args[0].ident, "i32");
}

#[test]
fn facade_skips_a_non_route() {
    let po = PathOperations {
        dialect: Dialect::Actix,
    };
    let attrs = vec![AttributeData {
        name: Some(s("inline")),
        tokens: vec![],
    }];
    assert!(po.resolve(&attrs, &vec![]).unwrap().is_none());
}

#[test]
fn operation_names_parse_exactly() {
    assert_eq!(PathOperation::from_name("get"), Some(PathOperation::Get));
    assert_eq!(PathOperation::from_name("trace"), Some(PathOperation::Trace));
    assert_eq!(PathOperation::from_name("connect"), Some(PathOperation::Connect));
    assert_eq!(PathOperation::from_name("GET"), None);
    assert_eq!(PathOperation::from_name("head "), None);
    assert_eq!(PathOperation::from_name(""), None);
}

#[test]
fn argument_has_name() {
    let with = route_resolver::Argument {
        name: Some(s("id")),
        argument_in: ArgumentIn::Path,
        ident: s("i32"),
    };
    let without = route_resolver::Argument {
        name: None,
        argument_in: ArgumentIn::Path,
        ident: s("i32"),
    };
    assert!(with.has_name());
    assert!(!without.has_name());
}

#[test]
fn actix_normalization_is_idempotent() {
    let once = actix::resolve_path(&Some(s("/users/{id:\\d+}/{_:x}"))).unwrap();
    let twice = actix::resolve_path(&Some(once.path.clone())).unwrap();
    assert_eq!(twice.path, once.path);
    assert_eq!(twice.args, once.args);
}
