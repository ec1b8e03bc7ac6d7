use only_cut::errs::Error;

#[test]
fn io_errors_carry_the_io_tag() {
    let err = Error::Io("no such file or directory".to_string());
    assert_eq!(err.kind_tag(), "io");
    assert_eq!(err.message(), "no such file or directory");
}

#[test]
fn utf8_errors_are_prefixed_and_tagged() {
    let err = Error::Utf8("invalid byte at offset 3".to_string());
    assert_eq!(err.kind_tag(), "utf8");
    assert_eq!(
        err.message(),
        "Failed to parse as string: invalid byte at offset 3"
    );
}

#[test]
fn platform_errors_carry_the_tauri_tag() {
    let err = Error::Tauri("resource path not found".to_string());
    assert_eq!(err.kind_tag(), "tauri");
    assert_eq!(err.message(), "resource path not found");
}

#[test]
fn serialized_form_is_tag_then_message() {
    let err = Error::Tauri("could not resolve path".to_string());
    let (tag, message) = err.serialize_parts();
    assert_eq!(tag, "tauri");
    assert_eq!(message, "could not resolve path");
}
