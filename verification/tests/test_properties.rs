use pk11_uri_parser::parse;
use pk11_uri_parser::strutil::{split_str, tidy};

/// A bare scheme is a valid URI: every standard field is absent and the
/// vendor table is empty.
#[test]
fn bare_scheme_yields_empty_mapping() {
    let mapping = parse("pkcs11:").expect("mapping should be valid");
    assert_eq!(mapping.token(), None);
    assert_eq!(mapping.manufacturer(), None);
    assert_eq!(mapping.serial(), None);
    assert_eq!(mapping.model(), None);
    assert_eq!(mapping.library_manufacturer(), None);
    assert_eq!(mapping.library_version(), None);
    assert_eq!(mapping.library_description(), None);
    assert_eq!(mapping.object(), None);
    assert_eq!(mapping.type_(), None);
    assert_eq!(mapping.id(), None);
    assert_eq!(mapping.slot_description(), None);
    assert_eq!(mapping.slot_manufacturer(), None);
    assert_eq!(mapping.slot_id(), None);
    assert_eq!(mapping.pin_source(), None);
    assert_eq!(mapping.pin_value(), None);
    assert_eq!(mapping.module_name(), None);
    assert_eq!(mapping.module_path_(), None);
    assert_eq!(mapping.vendor("token"), None);
    assert_eq!(mapping.vendor("anything"), None);
}

/// Accessors return exactly the substring that followed the `=`.
#[test]
fn accessors_return_exact_values() {
    let mapping = parse("pkcs11:object=my-pubkey;type=public").expect("mapping should be valid");
    assert_eq!(mapping.object(), Some("my-pubkey"));
    assert_eq!(mapping.type_(), Some("public"));
}

/// White space around the `=` of a component is trimmed from both the
/// name and the value.
#[test]
fn whitespace_around_equals_is_trimmed() {
    let mapping = parse("pkcs11: token = foo").expect("mapping should be valid");
    assert_eq!(mapping.token(), Some("foo"));
}

/// Tidying strips newlines and tabs; tidying an already-tidy string is
/// a no-op.
#[test]
fn tidy_is_idempotent() {
    assert_eq!(tidy("pkcs11:\n\ttoken=a;\n\tobject=b"), "pkcs11:token=a;object=b");
    let once = tidy("pkcs11:\n\ttoken=a");
    assert_eq!(tidy(&once), once);
    assert_eq!(tidy("already tidy"), "already tidy");
}

/// Splitting on a delimiter and re-joining with it reproduces the
/// region exactly, empty fragments included.
#[test]
fn split_and_join_round_trip() {
    let region = "a;;b;";
    let parts = split_str(region, ';');
    assert_eq!(parts, vec!["a", "", "b", ""]);
    assert_eq!(parts.join(";"), region);

    let region = "pin-source=file:/etc/token&v=1&v=2";
    let parts = split_str(region, '&');
    assert_eq!(parts, vec!["pin-source=file:/etc/token", "v=1", "v=2"]);
    assert_eq!(parts.join("&"), region);
}

/// The deprecated `x-` vendor prefix still parses (its deprecation is
/// advisory only).
#[test]
fn x_prefixed_vendor_names_still_parse() {
    let mapping = parse("pkcs11:x-muppet=cookie").expect("mapping should be valid");
    assert!(mapping.vendor("x-muppet").expect("x-muppet values").eq(&vec!["cookie"]));
}

/// Vendor names may use alphanumerics, `-` and `_`; anything else in
/// the name is rejected.
#[test]
fn vendor_name_character_set_is_enforced() {
    let mapping = parse("pkcs11:Ab-c_9=x").expect("mapping should be valid");
    assert!(mapping.vendor("Ab-c_9").expect("vendor values").eq(&vec!["x"]));
    parse("pkcs11:a!b=x").expect_err("'!' is not a vendor name character");
    parse("pkcs11:a.b=x").expect_err("'.' is not a vendor name character");
}

/// A vendor value may repeat across path and query: the path occurrence
/// first, then query occurrences in order.
#[test]
fn vendor_values_preserve_insertion_order() {
    let mapping = parse("pkcs11:v=1?v=2&v=3&w=9").expect("mapping should be valid");
    assert!(mapping.vendor("v").expect("v values").eq(&vec!["1", "2", "3"]));
    assert!(mapping.vendor("w").expect("w values").eq(&vec!["9"]));
}

/// An empty value is allowed wherever the common rules pass.
#[test]
fn empty_values_are_allowed() {
    let mapping = parse("pkcs11:serial=;object=x?pin-value=").expect("mapping should be valid");
    assert_eq!(mapping.serial(), Some(""));
    assert_eq!(mapping.object(), Some("x"));
    assert_eq!(mapping.pin_value(), Some(""));
}

/// A `?` with nothing after it leaves the query empty and the parse
/// succeeds.
#[test]
fn trailing_question_mark_is_an_empty_query() {
    let mapping = parse("pkcs11:token=a?").expect("mapping should be valid");
    assert_eq!(mapping.token(), Some("a"));
    let mapping = parse("pkcs11:?").expect("mapping should be valid");
    assert_eq!(mapping.token(), None);
}

/// The scheme match is exact and case-sensitive.
#[test]
fn scheme_match_is_case_sensitive() {
    parse("PKCS11:token=a").expect_err("upper-case scheme should not be valid");
    parse("pkcs11token=a").expect_err("missing colon should not be valid");
}

/// Query values may contain `/` (the `/` restriction is path-only).
#[test]
fn query_values_may_contain_slash() {
    let mapping = parse("pkcs11:?pin-source=file:/etc/pin").expect("mapping should be valid");
    assert_eq!(mapping.pin_source(), Some("file:/etc/pin"));
}

/// A value keeps everything after the first `=`, percent-encoded text
/// included.
#[test]
fn value_keeps_text_after_first_equals() {
    let mapping = parse("pkcs11:id=a=b").expect("mapping should be valid");
    assert_eq!(mapping.id(), Some("a=b"));
}
