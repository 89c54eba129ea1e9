use tuber::entry::{
    build_tauri_config, build_worker_config, fallback_worker_config, missing_tube_argument,
    worker_entrypoint_name, AttrArg, EntryKind, ErrorSite, LitValue,
};

fn name_value(key: &str, value: LitValue) -> AttrArg {
    AttrArg::NameValue { ident: Some(key.to_string()), value: Some(value) }
}

fn refusal(is_async: bool, args: Vec<AttrArg>) -> (ErrorSite, String) {
    match build_worker_config(is_async, &args) {
        Ok(c) => panic!("accepted with name {}", c.name),
        Err(e) => (e.site, e.message),
    }
}

#[test]
fn worker_name_is_taken_from_its_argument() {
    let args = vec![name_value("name", LitValue::Str("tuber_simple".to_string()))];
    assert_eq!(build_worker_config(true, &args).ok().unwrap().name, "tuber_simple");
}

#[test]
fn worker_name_key_ignores_case() {
    let args = vec![name_value("NaMe", LitValue::Verbatim("w".to_string()))];
    assert_eq!(build_worker_config(true, &args).ok().unwrap().name, "w");
}

#[test]
fn worker_must_be_async() {
    let args = vec![name_value("name", LitValue::Str("w".to_string()))];
    assert_eq!(
        refusal(false, args),
        (ErrorSite::FnToken, "the `async` keyword is missing from the function declaration".to_string())
    );
}

#[test]
fn worker_needs_a_name() {
    assert_eq!(
        refusal(true, vec![]),
        (
            ErrorSite::CallSite,
            "A `name` is required to wire workers up to the main thread. Use `#[tuber::worker(name = \"rồi\")]`"
                .to_string()
        )
    );
}

#[test]
fn worker_name_given_twice_is_refused() {
    let args = vec![
        name_value("name", LitValue::Str("a".to_string())),
        name_value("name", LitValue::Str("b".to_string())),
    ];
    assert_eq!(refusal(true, args), (ErrorSite::ArgValue(1), "`name` set multiple times.".to_string()));
}

#[test]
fn worker_name_must_be_a_string() {
    let args = vec![name_value("name", LitValue::Other)];
    assert_eq!(
        refusal(true, args),
        (ErrorSite::ArgValue(0), "Failed to parse value of `name` as string.".to_string())
    );
}

#[test]
fn worker_argument_value_must_be_a_literal() {
    let args = vec![AttrArg::NameValue { ident: Some("name".to_string()), value: None }];
    assert_eq!(refusal(true, args), (ErrorSite::ArgValue(0), "Must be a literal".to_string()));
}

#[test]
fn worker_argument_key_must_be_an_identifier() {
    let args = vec![AttrArg::NameValue { ident: None, value: Some(LitValue::Other) }];
    assert_eq!(refusal(true, args), (ErrorSite::Arg(0), "Must have specified ident".to_string()));
    let args = vec![AttrArg::Path { ident: None }];
    assert_eq!(refusal(true, args), (ErrorSite::Arg(0), "Must have specified ident".to_string()));
}

#[test]
fn worker_unknown_argument_is_named_in_lower_case() {
    let args = vec![
        name_value("name", LitValue::Str("w".to_string())),
        name_value("Flavor", LitValue::Str("x".to_string())),
    ];
    assert_eq!(
        refusal(true, args),
        (ErrorSite::Arg(1), "Unknown attribute flavor is specified; expected one of: `name`".to_string())
    );
}

#[test]
fn worker_bare_name_needs_an_argument() {
    let args = vec![AttrArg::Path { ident: Some("name".to_string()) }];
    assert_eq!(
        refusal(true, args),
        (ErrorSite::Arg(0), "The `name` attribute requires an argument.".to_string())
    );
    let args = vec![AttrArg::Path { ident: Some("other".to_string()) }];
    assert_eq!(
        refusal(true, args),
        (ErrorSite::Arg(0), "Unknown attribute other is specified; expected one of: `name`".to_string())
    );
}

#[test]
fn worker_list_argument_is_refused() {
    assert_eq!(
        refusal(true, vec![AttrArg::List]),
        (ErrorSite::Arg(0), "Unknown attribute inside the macro".to_string())
    );
}

#[test]
fn tauri_web_takes_no_arguments() {
    assert!(build_tauri_config(&vec![]).is_ok());
    let e = build_tauri_config(&vec![AttrArg::List, AttrArg::List]).unwrap_err();
    assert_eq!(e.site, ErrorSite::Arg(0));
    assert_eq!(e.message, "Unknown attribute inside the macro");
}

#[test]
fn entrypoint_names() {
    assert_eq!(worker_entrypoint_name("tuber_simple"), "__tuber_worker_entrypoint_tuber_simple");
    assert_eq!(fallback_worker_config().name, "rồi");
}

#[test]
fn missing_tube_argument_names_the_attribute() {
    let e = missing_tube_argument(EntryKind::Worker);
    assert_eq!(e.site, ErrorSite::FnName);
    assert_eq!(e.message, "tuber::worker entrypoint must accept a single `Tube<In, Out>` as argument");
    let e = missing_tube_argument(EntryKind::TauriWeb);
    assert_eq!(e.message, "tuber::tauri_web entrypoint must accept a single `Tube<In, Out>` as argument");
}

#[test]
fn worker_upper_case_name_key_is_accepted() {
    let args = vec![name_value("NAME", LitValue::Str("tuber_simple".to_string()))];
    assert_eq!(build_worker_config(true, &args).ok().unwrap().name, "tuber_simple");
}
