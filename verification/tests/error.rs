use native_contracts::NativeError;

#[test]
fn out_of_gas_message() {
    assert_eq!(NativeError::OutOfGas.to_string(), "Out of gas");
}

#[test]
fn internal_message_quotes_the_detail() {
    let error = NativeError::Internal("boom".to_string());
    assert_eq!(error.to_string(), "Internal error \"boom\"");
}

#[test]
fn internal_message_of_empty_detail() {
    let error = NativeError::Internal(String::new());
    assert_eq!(error.to_string(), "Internal error \"\"");
}

#[test]
fn internal_message_escapes_the_detail() {
    let error = NativeError::Internal("bad \"proof\"\n\tat byte 3 \\ end".to_string());
    assert_eq!(
        error.to_string(),
        "Internal error \"bad \\\"proof\\\"\\n\\tat byte 3 \\\\ end\""
    );
}

#[test]
fn internal_message_takes_the_quoted_text_as_it_is() {
    assert_eq!(NativeError::internal_message("\"boom\""), "Internal error \"boom\"");
    assert_eq!(NativeError::internal_message("boom"), "Internal error boom");
    assert_eq!(NativeError::internal_message(""), "Internal error ");
}

#[test]
fn debug_names_the_kind() {
    assert_eq!(format!("{:?}", NativeError::OutOfGas), "OutOfGas");
    assert_eq!(
        format!("{:?}", NativeError::Internal("x".to_string())),
        "Internal(\"x\")"
    );
}
