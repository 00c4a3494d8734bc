use pk11_uri_parser::parse;

/// A URI without the scheme prefix fails immediately with a zero-length
/// span at offset 0.
#[test]
fn missing_scheme_is_reported_at_offset_zero() {
    let err = parse("https://example.com").expect_err("scheme violation");
    assert_eq!(err.pk11_uri, "https://example.com");
    assert_eq!(err.error_span, (0, 0));
    assert_eq!(
        err.violation,
        "Invalid `pk11-URI`: expected `\"pkcs11:\" pk11-path [ \"?\" pk11-query ]`."
    );
    assert_eq!(err.help, "PKCS#11 URI must start with `pkcs11:`.");
}

/// A component without `=` is malformed, and the span covers it.
#[test]
fn component_without_equals_is_malformed() {
    let err = parse("pkcs11:foo").expect_err("malformed component");
    assert_eq!(err.error_span, (7, 10));
    assert_eq!(err.violation, "Malformed component.");
    assert_eq!(
        err.help,
        "Please refer to RFC7512 for acceptable path|query attribute values."
    );
}

/// A blank attribute name is rejected.
#[test]
fn blank_attribute_name_is_rejected() {
    let err = parse("pkcs11:=foo").expect_err("missing attribute name");
    assert_eq!(err.error_span, (7, 11));
    assert_eq!(err.violation, "Invalid component: Missing attribute name.");
    assert_eq!(
        err.help,
        "The attribute name may not be blank. Refer to the RFC7512 specification for valid attributes."
    );
}

/// A value holding a space is reported with a span covering the whole
/// offending component of the tidied input.
#[test]
fn space_in_value_span_covers_component() {
    let pk11_uri = "pkcs11:object=Private key for Card Authentication;pin-value=123456";
    let err = parse(pk11_uri).expect_err("empty spaces in value violation");
    assert_eq!(err.pk11_uri, pk11_uri);
    assert_eq!(err.error_span, (7, 49));
    assert_eq!(
        err.violation,
        "Invalid component value: Appendix A of [RFC3986] specifies component values may not contain empty spaces."
    );
    assert_eq!(
        err.help,
        "Replace `Private key for Card Authentication` with `Private%20key%20for%20Card%20Authentication`."
    );
}

/// The error carries the tidied URI, and spans index into it.
#[test]
fn formatting_whitespace_is_tidied_before_reporting() {
    let err = parse("pkcs11:\n\ttoken=a b").expect_err("space violation");
    assert_eq!(err.pk11_uri, "pkcs11:token=a b");
    assert_eq!(err.error_span, (7, 16));
}

/// A value holding `#` is rejected with a percent-encoding suggestion.
#[test]
fn hash_in_value_suggests_percent_encoding() {
    let err = parse("pkcs11:token=a#b").expect_err("'#' violation");
    assert_eq!(
        err.violation,
        "Invalid component value: The '#' delimiter must always be percent-encoded."
    );
    assert_eq!(err.help, "Replace `a#b` with `a%23b`.");
}

/// A path value holding `/` is rejected with a percent-encoding
/// suggestion.
#[test]
fn slash_in_path_value_suggests_percent_encoding() {
    let err = parse("pkcs11:token=a/b").expect_err("'/' violation");
    assert_eq!(
        err.violation,
        "Invalid `pk11-pattr`: The general '/' delimiter must always be percent-encoded in a path component."
    );
    assert_eq!(err.help, "Replace `a/b` with `a%2Fb`.");
}

/// A `type` value outside the enumeration lists the allowed values.
#[test]
fn type_value_outside_enumeration_is_reported() {
    let err = parse("pkcs11:type=foo").expect_err("type enumeration violation");
    assert_eq!(
        err.violation,
        "Invalid `pk11-pattr`: `pk11-type` = `\"type\" \"=\" ( \"public\" / \"private\" / \"cert\" / \"secret-key\" / \"data\" )`."
    );
    assert_eq!(
        err.help,
        "Replace `foo` value with one of `public`, `private`, `cert`, `secret-key`, or `data`."
    );
}

/// A malformed `library-version` cites its grammar rule.
#[test]
fn library_version_violation_cites_grammar() {
    let err = parse("pkcs11:library-version=1.").expect_err("trailing dot violation");
    assert_eq!(
        err.violation,
        "Invalid `pk11-pattr`: `pk11-lib-ver` = `\"library-version\" \"=\" 1*DIGIT [ \".\" 1*DIGIT ]`."
    );
    assert_eq!(
        err.help,
        "The `library-version` attribute represents the major and minor version decimal number of the library and its format is `M.N`. The major version is required."
    );
}

/// A non-numeric `slot-id` cites its grammar rule.
#[test]
fn slot_id_violation_cites_grammar() {
    let err = parse("pkcs11:slot-id=-1").expect_err("negative slot-id violation");
    assert_eq!(
        err.violation,
        "Invalid `pk11-pattr`: `pk11-slot-id` = `\"slot-id\" \"=\" 1*DIGIT`."
    );
    assert_eq!(err.help, "The `slot-id` value may only be numeric.");
}

/// A duplicated standard path attribute names the attribute.
#[test]
fn duplicate_standard_path_attribute_is_named() {
    let err = parse("pkcs11:token=foo;token=bar").expect_err("duplicate token violation");
    assert_eq!(err.violation, "Duplicate `pk11-pattr` standard name: \"token\".");
    assert_eq!(
        err.help,
        "A PKCS #11 URI must not contain duplicate attributes of the same name in the URI path component."
    );
    assert_eq!(err.error_span, (17, 26));
}

/// Locating a duplicated component that repeats an earlier one verbatim
/// highlights the first occurrence of the identical text.
#[test]
fn identical_duplicate_component_highlights_first_occurrence() {
    let err = parse("pkcs11:token=foo;token=foo").expect_err("duplicate token violation");
    assert_eq!(err.error_span, (7, 16));
}

/// A duplicated vendor name in the path names the attribute.
#[test]
fn duplicate_vendor_name_in_path_is_named() {
    let err = parse("pkcs11:v=a;v=b").expect_err("duplicate vendor name violation");
    assert_eq!(err.violation, "Duplicate `pk11-v-pattr` vendor-specific name: \"v\".");
    assert_eq!(
        err.help,
        "A PKCS #11 URI must not contain duplicate vendor attributes of the same name in the URI path component."
    );
}

/// A duplicated standard query attribute names the attribute.
#[test]
fn duplicate_standard_query_attribute_is_named() {
    let err = parse("pkcs11:?pin-source=a&pin-source=b").expect_err("duplicate pin-source");
    assert_eq!(err.violation, "Duplicate `pk11-qattr` standard name: \"pin-source\".");
    assert_eq!(
        err.help,
        "A PKCS #11 URI must not contain duplicate standard attributes of the same name in the URI query component."
    );
}

/// A standard query name in the path is a naming collision, with a
/// suggestion to relocate the attribute.
#[test]
fn query_name_in_path_is_a_collision() {
    let err = parse("pkcs11:pin-value=foo").expect_err("query naming collision");
    assert_eq!(err.violation, "Naming collision with standard query component.");
    assert_eq!(err.help, "Move `pin-value` and its value to the PKCS#11 URI query.");
}

/// A standard path name in the query is a naming collision.
#[test]
fn path_name_in_query_is_a_collision() {
    let err = parse("pkcs11:?token=foo").expect_err("path naming collision");
    assert_eq!(err.violation, "Naming collision with standard path component.");
    assert_eq!(err.help, "Move this attribute and its value to the PKCS#11 URI path.");
    assert_eq!(err.error_span, (8, 17));
}

/// A vendor name outside the allowed character set cites the name rule.
#[test]
fn vendor_name_with_bad_characters_is_rejected() {
    let err = parse("pkcs11:bad name=x").expect_err("vendor name character violation");
    assert_eq!(
        err.violation,
        "Invalid vendor-specific component name: expected `1*pk11-v-attr-nm-char`."
    );
    assert_eq!(
        err.help,
        "`bad name` violated vendor-specific attribute name characters consisting solely of alphanumeric, '-', or '_'."
    );
}

/// A trailing `;` makes an empty path component: a misplaced delimiter,
/// located exactly.
#[test]
fn trailing_path_delimiter_is_misplaced() {
    let err = parse("pkcs11:token=a;").expect_err("misplaced ';' violation");
    assert_eq!(err.violation, "Misplaced path delimiter.");
    assert_eq!(err.help, "Remove the misplaced ';' delimiter.");
    assert_eq!(err.error_span, (14, 14));
}

/// A doubled `;` is located at the specific spurious delimiter.
#[test]
fn doubled_path_delimiter_is_located() {
    let err = parse("pkcs11:token=a;;object=b").expect_err("misplaced ';' violation");
    assert_eq!(err.violation, "Misplaced path delimiter.");
    assert_eq!(err.error_span, (15, 15));
}

/// A path region of bare formatting whitespace tidies to nothing and is
/// reported as a misplaced delimiter with a zero-length span at the
/// start of the (empty) tidied path.
#[test]
fn whitespace_only_path_reports_misplaced_delimiter() {
    let err = parse("pkcs11:\n").expect_err("whitespace-only path");
    assert_eq!(err.pk11_uri, "pkcs11:");
    assert_eq!(err.violation, "Misplaced path delimiter.");
    assert_eq!(err.error_span, (7, 7));
}

/// A trailing `&` makes an empty query component: a misplaced delimiter.
#[test]
fn trailing_query_delimiter_is_misplaced() {
    let err = parse("pkcs11:?pin-value=a&").expect_err("misplaced '&' violation");
    assert_eq!(err.violation, "Misplaced query delimiter.");
    assert_eq!(err.help, "Remove the misplaced '&' delimiter.");
    assert_eq!(err.error_span, (19, 19));
}

/// The rendered report shows the tidied URI with a caret underline
/// aligned to the error span.
#[test]
fn render_underlines_the_error_span() {
    let pk11_uri = "pkcs11:object=Private key for Card Authentication;pin-value=123456";
    let err = parse(pk11_uri).expect_err("empty spaces in value violation");
    let expected = format!(
        "{}\n{}{} {}\n\nhelp: {}",
        pk11_uri,
        " ".repeat(7),
        "^".repeat(42),
        "Invalid component value: Appendix A of [RFC3986] specifies component values may not contain empty spaces.",
        "Replace `Private key for Card Authentication` with `Private%20key%20for%20Card%20Authentication`."
    );
    assert_eq!(err.render(), expected);
}

/// A zero-length span still renders one caret.
#[test]
fn render_shows_one_caret_for_an_empty_span() {
    let err = parse("no-scheme").expect_err("scheme violation");
    let rendered = err.render();
    let lines: Vec<&str> = rendered.split('\n').collect();
    assert_eq!(lines[0], "no-scheme");
    assert!(lines[1].starts_with("^ "));
}
