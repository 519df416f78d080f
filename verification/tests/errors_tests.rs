use nervusdb::node_payload::{error_payload, napi_err};
use nervusdb::errors::{
    classify_capi_category, classify_err_message, classify_error_text, classify_lowercase_error_text,
    classify_lowercase_message, classify_lowercase_query_message, clear_last_error, map_error_payload,
    set_last_error, ApiError, ErrorClass, LastError, NDB_ERRCAT_COMPATIBILITY, NDB_ERRCAT_EXECUTION, NDB_ERRCAT_NONE,
    NDB_ERRCAT_STORAGE, NDB_ERRCAT_SYNTAX, NDB_ERR_COMPATIBILITY, NDB_ERR_EXECUTION, NDB_ERR_NULL_POINTER,
    NDB_ERR_STORAGE, NDB_ERR_SYNTAX,
};

#[test]
fn classify_err_message_keeps_compatibility_priority() {
    let (code, category) = classify_err_message("compatibility warning with parse token details");
    assert_eq!(code, "NERVUS_COMPATIBILITY");
    assert_eq!(category, "compatibility");
}

#[test]
fn classify_err_message_detects_resource_limit() {
    let (code, category) = classify_err_message(
        "execution error: ResourceLimitExceeded(kind=Timeout, limit=1, observed=10, stage=ReturnOne)",
    );
    assert_eq!(code, "NERVUS_RESOURCE_LIMIT");
    assert_eq!(category, "execution");
}

#[test]
fn classify_expected_prefix_as_syntax_error() {
    let err = ApiError::from_query_message("Expected ')'");
    assert_eq!(err.code, NDB_ERR_SYNTAX);
    assert_eq!(err.category, NDB_ERRCAT_SYNTAX);
}

#[test]
fn classify_maps_syntax_errors() {
    assert_eq!(classify_error_text("syntax error: unexpected token"), ErrorClass::Syntax);
    assert_eq!(classify_error_text("VariableTypeConflict: r"), ErrorClass::Syntax);
    assert_eq!(classify_error_text("Expected ')'"), ErrorClass::Syntax);
}

#[test]
fn classify_maps_storage_errors() {
    assert_eq!(classify_error_text("database is closed"), ErrorClass::Storage);
    assert_eq!(classify_error_text("wal replay failed"), ErrorClass::Storage);
    assert_eq!(classify_error_text("permission denied while opening wal"), ErrorClass::Storage);
    assert_eq!(classify_error_text("io error: disk full"), ErrorClass::Storage);
}

#[test]
fn classify_maps_compatibility_errors() {
    assert_eq!(
        classify_error_text("storage format mismatch: expected epoch 1, found 0"),
        ErrorClass::Compatibility
    );
    assert_eq!(
        classify_error_text("compatibility error while opening snapshot"),
        ErrorClass::Compatibility
    );
}

#[test]
fn classify_prioritizes_compatibility_when_multiple_keywords_exist() {
    assert_eq!(classify_error_text("compatibility parse mismatch"), ErrorClass::Compatibility);
}

#[test]
fn classify_maps_execution_errors_by_default() {
    assert_eq!(classify_error_text("execution failed: unknown function"), ErrorClass::Execution);
    assert_eq!(
        classify_error_text(
            "execution error: ResourceLimitExceeded(kind=Timeout, limit=1, observed=10, stage=ReturnOne)",
        ),
        ErrorClass::Execution
    );
}

fn parse_payload(reason: &str) -> serde_json::Value {
    serde_json::from_str(reason).expect("napi reason should be valid json payload")
}

#[test]
fn napi_err_uses_structured_compatibility_payload() {
    let err = napi_err("storage format mismatch: expected epoch 1, found 0");
    let reason = err.reason;
    assert!(reason.contains("\"category\":\"compatibility\""));
    assert!(reason.contains("\"code\":\"NERVUS_COMPATIBILITY\""));
}

#[test]
fn napi_err_maps_syntax_messages_to_syntax_category() {
    let err = napi_err("syntax error: unexpected token");
    let payload = parse_payload(&err.reason);
    assert_eq!(payload["code"], "NERVUS_SYNTAX");
    assert_eq!(payload["category"], "syntax");
    assert_eq!(payload["message"], "syntax error: unexpected token");
}

#[test]
fn napi_err_maps_expected_prefix_to_syntax_category() {
    let err = napi_err("Expected ')'");
    let payload = parse_payload(&err.reason);
    assert_eq!(payload["code"], "NERVUS_SYNTAX");
    assert_eq!(payload["category"], "syntax");
}

#[test]
fn napi_err_maps_storage_messages_for_fs_failures() {
    let err = napi_err("permission denied while opening wal");
    let payload = parse_payload(&err.reason);
    assert_eq!(payload["code"], "NERVUS_STORAGE");
    assert_eq!(payload["category"], "storage");
}

#[test]
fn napi_err_falls_back_to_execution_category() {
    let err = napi_err("not implemented: expression");
    let payload = parse_payload(&err.reason);
    assert_eq!(payload["code"], "NERVUS_EXECUTION");
    assert_eq!(payload["category"], "execution");
}

#[test]
fn error_payload_escapes_the_message_and_sorts_keys() {
    assert_eq!(
        error_payload("NERVUS_SYNTAX", "syntax", "bad \"quote\"\n"),
        "{\"category\":\"syntax\",\"code\":\"NERVUS_SYNTAX\",\"message\":\"bad \\\"quote\\\"\\n\"}"
    );
}

#[test]
fn payload_uses_the_capi_category_first() {
    assert_eq!(map_error_payload(NDB_ERRCAT_SYNTAX, "anything"), ("NERVUS_SYNTAX", "syntax"));
    assert_eq!(map_error_payload(NDB_ERRCAT_STORAGE, "anything"), ("NERVUS_STORAGE", "storage"));
    assert_eq!(map_error_payload(NDB_ERRCAT_COMPATIBILITY, "x"), ("NERVUS_COMPATIBILITY", "compatibility"));
    // an execution error keeps its category even when its text looks like a syntax error
    assert_eq!(map_error_payload(NDB_ERRCAT_EXECUTION, "syntax error"), ("NERVUS_EXECUTION", "execution"));
    assert_eq!(
        map_error_payload(NDB_ERRCAT_EXECUTION, "ResourceLimitExceeded(kind=Timeout)"),
        ("NERVUS_RESOURCE_LIMIT", "execution")
    );
    // an unknown category falls back to the message
    assert_eq!(map_error_payload(NDB_ERRCAT_NONE, "wal corrupted"), ("NERVUS_STORAGE", "storage"));
}

#[test]
fn capi_category_decides_python_class() {
    assert_eq!(classify_capi_category(NDB_ERRCAT_SYNTAX, "io error"), ErrorClass::Syntax);
    assert_eq!(classify_capi_category(NDB_ERRCAT_STORAGE, "x"), ErrorClass::Storage);
    assert_eq!(classify_capi_category(NDB_ERRCAT_COMPATIBILITY, "x"), ErrorClass::Compatibility);
    assert_eq!(classify_capi_category(NDB_ERRCAT_EXECUTION, "syntax"), ErrorClass::Execution);
    assert_eq!(classify_capi_category(99, "unexpected token"), ErrorClass::Syntax);
}

#[test]
fn query_messages_get_codes_and_categories() {
    let e = ApiError::from_query_message("storage format mismatch");
    assert_eq!((e.code, e.category), (NDB_ERR_COMPATIBILITY, NDB_ERRCAT_COMPATIBILITY));
    let e = ApiError::from_query_message("checkpoint failed");
    assert_eq!((e.code, e.category), (NDB_ERR_STORAGE, NDB_ERRCAT_STORAGE));
    let e = ApiError::from_query_message("division by zero");
    assert_eq!((e.code, e.category), (NDB_ERR_EXECUTION, NDB_ERRCAT_EXECUTION));
    assert_eq!(e.message, "division by zero");
}

#[test]
fn last_error_is_set_and_cleared() {
    let mut slot = LastError::cleared();
    let err = ApiError::null_pointer("db");
    assert_eq!(err.code, NDB_ERR_NULL_POINTER);
    set_last_error(&mut slot, &err);
    assert_eq!(slot.code, err.code);
    assert_eq!(slot.category, err.category);
    assert_eq!(slot.message, err.message);
    clear_last_error(&mut slot);
    assert_eq!(slot.code, 0);
    assert_eq!(slot.category, 0);
    assert_eq!(slot.message, "");
}

#[test]
fn lowercase_classifiers_read_the_lowered_text() {
    assert_eq!(classify_lowercase_message("syntax error: unexpected token"), ("NERVUS_SYNTAX", "syntax"));
    assert_eq!(classify_lowercase_message("expected ')'"), ("NERVUS_SYNTAX", "syntax"));
    // an upper-case prefix is not lowered here
    assert_eq!(classify_lowercase_message("Expected ')'"), ("NERVUS_EXECUTION", "execution"));
    assert_eq!(classify_lowercase_message("resourcelimitexceeded"), ("NERVUS_RESOURCE_LIMIT", "execution"));
    assert_eq!(classify_lowercase_query_message("permission denied"), classify_lowercase_query_message("wal"));
    assert_eq!(classify_lowercase_error_text("storage format mismatch"), classify_error_text("Storage format mismatch"));
}
