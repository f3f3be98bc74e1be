use test_pretty_log_core::args::AttributeError;
use test_pretty_log_core::args::ErrorKind;
use test_pretty_log_core::args::ErrorSite;
use test_pretty_log_core::args::Meta;
use test_pretty_log_core::args::Value;
use test_pretty_log_core::expand::expand_tracing_init;
use test_pretty_log_core::expand::extract_test_attribute;
use test_pretty_log_core::expand::is_test_attribute;
use test_pretty_log_core::expand::try_test;
use test_pretty_log_core::expand::Attribute;
use test_pretty_log_core::expand::GeneratedFunction;
use test_pretty_log_core::expand::InitCall;
use test_pretty_log_core::expand::ItemFn;
use test_pretty_log_core::expand::TestAttribute;

fn attribute(path: &[&str], tokens: &'static str) -> Attribute<&'static str> {
    Attribute { path: path.iter().map(|segment| segment.to_string()).collect(), tokens }
}

fn function(
    attrs: Vec<Attribute<&'static str>>,
    sig: &'static str,
    block: &'static str,
) -> ItemFn<&'static str> {
    ItemFn { attrs, vis: "", sig, block }
}

fn no_arguments_call() -> InitCall {
    InitCall { env_filter_arg: None, with_ansi_arg: None }
}

#[test]
fn test_paths() {
    assert!(is_test_attribute(&attribute(&["test"], "#[test]")));
    assert!(is_test_attribute(&attribute(&["tokio", "test"], "#[tokio::test]")));
    assert!(is_test_attribute(&attribute(&["core", "prelude", "v1", "test"], "")));
    assert!(!is_test_attribute(&attribute(&["should_panic"], "#[should_panic]")));
    assert!(!is_test_attribute(&attribute(&["test", "case"], "#[test::case]")));
    assert!(!is_test_attribute(&attribute(&["test_case"], "#[test_case(1)]")));
    assert!(!is_test_attribute(&attribute(&["Test"], "#[Test]")));
    assert!(!is_test_attribute(&attribute(&[], "")));
}

#[test]
fn inner_test_attribute_comes_first() {
    let attrs = vec![attribute(&["test"], "#[test]")];
    assert_eq!(
        extract_test_attribute(Some("tokio::test"), &attrs),
        Some(TestAttribute::Inner("tokio::test"))
    );
    assert_eq!(
        extract_test_attribute(Some("tokio::test"), &vec![]),
        Some(TestAttribute::Inner("tokio::test"))
    );
}

#[test]
fn builtin_test_attribute_is_added_once() {
    assert_eq!(extract_test_attribute::<&str>(None, &vec![]), Some(TestAttribute::Builtin));
    assert_eq!(
        extract_test_attribute(None, &vec![attribute(&["should_panic"], "#[should_panic]")]),
        Some(TestAttribute::Builtin)
    );
    assert_eq!(
        extract_test_attribute(
            None,
            &vec![
                attribute(&["should_panic"], "#[should_panic]"),
                attribute(&["tokio", "test"], "#[tokio::test]"),
            ]
        ),
        None
    );
    assert_eq!(extract_test_attribute(None, &vec![attribute(&["test"], "#[test]")]), None);
}

#[test]
fn init_call_carries_the_arguments() {
    assert_eq!(expand_tracing_init(None, None), no_arguments_call());
    assert_eq!(
        expand_tracing_init(Some("debug".to_string()), Some(false)),
        InitCall { env_filter_arg: Some("debug".to_string()), with_ansi_arg: Some(false) }
    );
}

#[test]
fn no_arguments_no_attributes() {
    let input = function(vec![], "fn it_works()", "{ debug!(\"test\"); assert_eq!(2 + 2, 4); }");
    assert_eq!(
        try_test(vec![], input),
        Ok(GeneratedFunction {
            test_attr: Some(TestAttribute::Builtin),
            attrs: vec![],
            vis: "",
            sig: "fn it_works()",
            init: no_arguments_call(),
            block: "{ debug!(\"test\"); assert_eq!(2 + 2, 4); }",
        })
    );
}

#[test]
fn function_identity_is_preserved() {
    let input = function(vec![], "fn with_return_type() -> Result<(), String>", "{ Ok(()) }");
    let output = try_test(vec![], input.clone()).unwrap();
    assert_eq!(output.test_attr, Some(TestAttribute::Builtin));
    assert_eq!(output.attrs, input.attrs);
    assert_eq!(output.vis, input.vis);
    assert_eq!(output.sig, "fn with_return_type() -> Result<(), String>");
    assert_eq!(output.block, "{ Ok(()) }");
    assert_eq!(output.init, no_arguments_call());
}

#[test]
fn color_argument_reaches_the_init_call() {
    let input = function(vec![], "fn trace_with_color_off()", "{ assert!(true); }");
    let output = try_test(
        vec![Meta::NameValue { name: Some("color".to_string()), value: Value::Bool(false) }],
        input,
    )
    .unwrap();
    assert_eq!(output.init, InitCall { env_filter_arg: None, with_ansi_arg: Some(false) });
    assert_eq!(output.test_attr, Some(TestAttribute::Builtin));
}

#[test]
fn default_log_filter_reaches_the_init_call() {
    let input = function(vec![], "fn f()", "{}");
    let output = try_test(
        vec![
            Meta::Path("test"),
            Meta::NameValue {
                name: Some("default_log_filter".to_string()),
                value: Value::Str("my_crate=debug".to_string()),
            },
        ],
        input,
    )
    .unwrap();
    assert_eq!(
        output.init,
        InitCall { env_filter_arg: Some("my_crate=debug".to_string()), with_ansi_arg: None }
    );
    assert_eq!(output.test_attr, Some(TestAttribute::Inner("test")));
}

#[test]
fn builtin_inner_test_without_return_type() {
    let input = function(vec![], "fn without_return_type()", "{ assert_eq!(2 + 2, 4); }");
    let output = try_test(vec![Meta::Path("test")], input).unwrap();
    assert_eq!(output.test_attr, Some(TestAttribute::Inner("test")));
    assert_eq!(output.sig, "fn without_return_type()");
    assert_eq!(output.block, "{ assert_eq!(2 + 2, 4); }");
}

#[test]
fn builtin_inner_test_with_return_type() {
    let input = function(vec![], "fn with_return_type() -> Result<(), String>", "{ Ok(()) }");
    let output = try_test(vec![Meta::Path("test")], input).unwrap();
    assert_eq!(output.test_attr, Some(TestAttribute::Inner("test")));
    assert_eq!(output.sig, "fn with_return_type() -> Result<(), String>");
    assert_eq!(output.block, "{ Ok(()) }");
}

#[test]
fn builtin_inner_test_keeps_should_panic() {
    let should_panic = attribute(&["should_panic"], "#[should_panic(expected = \"success\")]");
    let input = function(vec![should_panic.clone()], "fn with_panic()", "{ panic!(\"success\") }");
    let output = try_test(vec![Meta::Path("test")], input).unwrap();
    assert_eq!(output.test_attr, Some(TestAttribute::Inner("test")));
    assert_eq!(output.attrs, vec![should_panic]);
    assert_eq!(output.block, "{ panic!(\"success\") }");
}

#[test]
fn builtin_inner_test_keeps_parameters() {
    let input = function(
        vec![],
        "fn with_test_args(x: i8, y: i8)",
        "{ assert_eq!(x, -2); assert_eq!(y, -4); }",
    );
    let output = try_test(vec![Meta::Path("test")], input).unwrap();
    assert_eq!(output.sig, "fn with_test_args(x: i8, y: i8)");
    assert_eq!(output.block, "{ assert_eq!(x, -2); assert_eq!(y, -4); }");
}

#[test]
fn tokio_inner_test_without_return_type() {
    let input = function(
        vec![],
        "async fn without_return_type()",
        "{ assert_eq!(async { 2 + 2 }.await, 4); }",
    );
    let output = try_test(vec![Meta::Path("tokio::test")], input).unwrap();
    assert_eq!(output.test_attr, Some(TestAttribute::Inner("tokio::test")));
    assert_eq!(output.sig, "async fn without_return_type()");
    assert_eq!(output.block, "{ assert_eq!(async { 2 + 2 }.await, 4); }");
}

#[test]
fn tokio_inner_test_with_return_type() {
    let input = function(
        vec![],
        "async fn with_return_type() -> Result<(), String>",
        "{ Ok(async { () }.await) }",
    );
    let output = try_test(vec![Meta::Path("tokio::test")], input).unwrap();
    assert_eq!(output.test_attr, Some(TestAttribute::Inner("tokio::test")));
    assert_eq!(output.sig, "async fn with_return_type() -> Result<(), String>");
    assert_eq!(output.block, "{ Ok(async { () }.await) }");
}

#[test]
fn tokio_inner_test_keeps_should_panic() {
    let should_panic = attribute(&["should_panic"], "#[should_panic(expected = \"success\")]");
    let input =
        function(vec![should_panic.clone()], "async fn with_panic()", "{ panic!(\"success\") }");
    let output = try_test(vec![Meta::Path("tokio::test")], input).unwrap();
    assert_eq!(output.test_attr, Some(TestAttribute::Inner("tokio::test")));
    assert_eq!(output.attrs, vec![should_panic]);
}

#[test]
fn tokio_inner_test_keeps_parameters() {
    let input = function(
        vec![],
        "async fn with_test_args(x: i8, y: i8)",
        "{ assert_eq!(async { x }.await, -2); assert_eq!(async { y }.await, -4); }",
    );
    let output = try_test(vec![Meta::Path("tokio::test")], input).unwrap();
    assert_eq!(output.test_attr, Some(TestAttribute::Inner("tokio::test")));
    assert_eq!(output.sig, "async fn with_test_args(x: i8, y: i8)");
}

#[test]
fn existing_test_attribute_is_left_alone() {
    let existing = attribute(&["tokio", "test"], "#[tokio::test]");
    let input = function(vec![existing.clone()], "async fn f()", "{}");
    let output = try_test(vec![], input).unwrap();
    assert_eq!(output.test_attr, None);
    assert_eq!(output.attrs, vec![existing]);
}

#[test]
fn unrecognized_key_fails_the_rewriting() {
    let input = function(vec![], "fn f()", "{}");
    assert_eq!(
        try_test(
            vec![Meta::NameValue {
                name: Some("foo".to_string()),
                value: Value::Str("bar".to_string()),
            }],
            input
        ),
        Err(AttributeError {
            index: 0,
            site: ErrorSite::Path,
            kind: ErrorKind::UnrecognizedAttribute { name: "foo".to_string() },
        })
    );
}

#[test]
fn wrong_literal_fails_the_rewriting() {
    let input = function(vec![], "fn f()", "{}");
    assert_eq!(
        try_test(
            vec![Meta::NameValue {
                name: Some("default_log_filter".to_string()),
                value: Value::Bool(true),
            }],
            input
        ),
        Err(AttributeError { index: 0, site: ErrorSite::Value, kind: ErrorKind::ExpectedString })
    );
}

#[test]
fn attributes_of_a_test_generator_are_kept_in_order() {
    let should_panic = attribute(&["should_panic"], "#[should_panic]");
    let test_case =
        attribute(&["test_case", "test_case"], "#[test_case::test_case(-2, -4; \"my test name\")]");
    let input = function(
        vec![should_panic.clone(), test_case.clone()],
        "fn with_test_args_and_name_and_panic(x: i8, y: i8)",
        "{ assert_eq!(x, 0); }",
    );
    let output = try_test(vec![Meta::Path("test")], input).unwrap();
    assert_eq!(output.test_attr, Some(TestAttribute::Inner("test")));
    assert_eq!(output.attrs, vec![should_panic, test_case]);
    assert_eq!(output.sig, "fn with_test_args_and_name_and_panic(x: i8, y: i8)");
    assert_eq!(output.block, "{ assert_eq!(x, 0); }");
}
