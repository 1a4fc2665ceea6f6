use treemove::boundary::{
    completion_code, validate_args, RawArg, CODE_BAD_ENCODING, CODE_NULL_POINTER,
    CODE_OK, CODE_OPERATION_FAILED,
};
use treemove::model::{FsError, Node};
use treemove::ops::rust_copy;

fn text(s: &str) -> RawArg {
    RawArg::Text(s.to_string())
}

#[test]
fn null_source_pointer_reports_null() {
    assert_eq!(validate_args(&RawArg::Null, &text("dest")), Some(CODE_NULL_POINTER));
    assert_eq!(CODE_NULL_POINTER, -1);
}

#[test]
fn bad_destination_encoding_reports_encoding() {
    assert_eq!(
        validate_args(&text("src"), &RawArg::Malformed),
        Some(CODE_BAD_ENCODING)
    );
    assert_eq!(CODE_BAD_ENCODING, -2);
}

#[test]
fn null_checks_precede_decoding() {
    // a null pointer on either side is reported before any encoding fault,
    // whichever argument carries which
    assert_eq!(
        validate_args(&RawArg::Malformed, &RawArg::Null),
        Some(CODE_NULL_POINTER)
    );
    assert_eq!(validate_args(&RawArg::Null, &RawArg::Malformed), Some(CODE_NULL_POINTER));
    assert_eq!(
        validate_args(&RawArg::Malformed, &text("dest")),
        Some(CODE_BAD_ENCODING)
    );
}

#[test]
fn well_formed_arguments_pass_validation() {
    assert_eq!(validate_args(&text("src"), &text("dest")), None);
}

#[test]
fn completion_codes() {
    assert_eq!(completion_code(true), CODE_OK);
    assert_eq!(completion_code(false), CODE_OPERATION_FAILED);
    assert_eq!(CODE_OK, 0);
    assert_eq!(CODE_OPERATION_FAILED, -3);
}

#[test]
fn failed_operation_collapses_to_one_code() {
    // a copy that fails internally, whatever the cause, is reported as the
    // single failure code
    let src = Node::File { vol: 1, readable: false, data: b"s".to_vec() };
    let mut dst = Node::Dir { vol: 1, entries: vec![] };
    let r = rust_copy(&Some(b"s".to_vec()), &src, &mut dst);
    assert_eq!(r, Err(FsError::PermissionDenied));
    assert_eq!(completion_code(r.is_ok()), CODE_OPERATION_FAILED);
}
