use pk11_uri_parser::advisory::Advisory;
use pk11_uri_parser::parse_with_diagnostics;

/// The deprecated `x-` vendor prefix is reported, but the parse
/// succeeds.
#[test]
fn x_prefix_reports_a_deprecation_advisory() {
    let mut diagnostics = Vec::new();
    let mapping =
        parse_with_diagnostics("pkcs11:x-muppet=cookie", &mut diagnostics).expect("valid mapping");
    assert!(mapping.vendor("x-muppet").is_some());
    assert_eq!(diagnostics.len(), 1);
    assert!(matches!(&diagnostics[0], Advisory::DeprecatedXPrefix { name } if name == "x-muppet"));
}

/// Characters outside the available set are suggested for
/// percent-encoding, one advisory per character with its offset.
#[test]
fn unencoded_characters_are_suggested_for_encoding() {
    let mut diagnostics = Vec::new();
    let mapping = parse_with_diagnostics("pkcs11:x-muppet=cookie<^^>monster!", &mut diagnostics)
        .expect("valid mapping");
    assert!(mapping.vendor("x-muppet").is_some());
    assert_eq!(diagnostics.len(), 5);
    assert!(matches!(&diagnostics[0], Advisory::DeprecatedXPrefix { name } if name == "x-muppet"));
    let expected = [('<', 6), ('^', 7), ('^', 8), ('>', 9)];
    for (k, (ch, at)) in expected.iter().enumerate() {
        match &diagnostics[k + 1] {
            Advisory::SuggestPercentEncoding { attribute, value, offset, character } => {
                assert_eq!(attribute, "x-muppet");
                assert_eq!(value, "cookie<^^>monster!");
                assert_eq!(*offset, *at);
                assert_eq!(*character, *ch);
            },
            other => panic!("unexpected advisory {other:?}"),
        }
    }
}

/// A `%` not followed by two hexadecimal digits is reported as a
/// malformed percent-encoding.
#[test]
fn malformed_percent_encoding_is_reported() {
    let mut diagnostics = Vec::new();
    parse_with_diagnostics("pkcs11:token=a%2", &mut diagnostics).expect("valid mapping");
    assert_eq!(diagnostics.len(), 1);
    assert!(matches!(
        &diagnostics[0],
        Advisory::MalformedPercentEncoding { attribute, value, offset }
            if attribute == "token" && value == "a%2" && *offset == 1
    ));

    let mut diagnostics = Vec::new();
    parse_with_diagnostics("pkcs11:token=%zz", &mut diagnostics).expect("valid mapping");
    assert_eq!(diagnostics.len(), 1);
    assert!(matches!(
        &diagnostics[0],
        Advisory::MalformedPercentEncoding { offset, .. } if *offset == 0
    ));

    let mut diagnostics = Vec::new();
    parse_with_diagnostics("pkcs11:token=%2a%3F", &mut diagnostics).expect("valid mapping");
    assert!(diagnostics.is_empty());
}

/// An `id` value should be wholly percent-encoded.
#[test]
fn id_value_should_be_wholly_percent_encoded() {
    let mut diagnostics = Vec::new();
    parse_with_diagnostics("pkcs11:id=abc", &mut diagnostics).expect("valid mapping");
    assert_eq!(diagnostics.len(), 1);
    assert!(matches!(
        &diagnostics[0],
        Advisory::IdValueNotFullyEncoded { value } if value == "abc"
    ));

    let mut diagnostics = Vec::new();
    parse_with_diagnostics("pkcs11:id=%69%95", &mut diagnostics).expect("valid mapping");
    assert!(diagnostics.is_empty());
}

/// A `module-name` that looks like a filename or path is reported.
#[test]
fn module_name_should_be_bare() {
    let mut diagnostics = Vec::new();
    parse_with_diagnostics("pkcs11:?module-name=libfoo", &mut diagnostics)
        .expect("valid mapping");
    assert_eq!(diagnostics.len(), 1);
    assert!(matches!(
        &diagnostics[0],
        Advisory::ModuleNameNotBare { value } if value == "libfoo"
    ));

    let mut diagnostics = Vec::new();
    parse_with_diagnostics("pkcs11:?module-name=mypkcs11", &mut diagnostics)
        .expect("valid mapping");
    assert!(diagnostics.is_empty());
}

/// The discouraged attribute pairs are reported after the component
/// advisories.
#[test]
fn discouraged_attribute_pairs_are_reported() {
    let mut diagnostics = Vec::new();
    parse_with_diagnostics("pkcs11:?module-name=a&module-path=b", &mut diagnostics)
        .expect("valid mapping");
    assert_eq!(diagnostics.len(), 1);
    assert!(matches!(&diagnostics[0], Advisory::ModuleNameAndPathBothUsed));

    let mut diagnostics = Vec::new();
    parse_with_diagnostics("pkcs11:x-v=a?pin-source=b&pin-value=c", &mut diagnostics)
        .expect("valid mapping");
    assert_eq!(diagnostics.len(), 2);
    assert!(matches!(&diagnostics[0], Advisory::DeprecatedXPrefix { name } if name == "x-v"));
    assert!(matches!(&diagnostics[1], Advisory::PinSourceAndPinValueBothUsed));
}

/// Reserved-available characters need no encoding: the common set in
/// both components, `&` in the path, and `/`, `?`, `|` in the query.
#[test]
fn reserved_available_characters_raise_no_advisory() {
    let mut diagnostics = Vec::new();
    parse_with_diagnostics("pkcs11:token=a:b,c.d~(e)*+='f'[g]@h!i$j&k", &mut diagnostics)
        .expect("valid mapping");
    assert!(diagnostics.is_empty());

    let mut diagnostics = Vec::new();
    parse_with_diagnostics("pkcs11:?pin-source=file:/etc/x?y|z", &mut diagnostics)
        .expect("valid mapping");
    assert!(diagnostics.is_empty());
}

/// A failed parse appends no diagnostics: the error dominates.
#[test]
fn failed_parse_appends_no_diagnostics() {
    let mut diagnostics = vec![Advisory::ModuleNameAndPathBothUsed];
    parse_with_diagnostics("pkcs11:x-v=bad value", &mut diagnostics)
        .expect_err("space violation");
    assert_eq!(diagnostics.len(), 1);

    let mut diagnostics = Vec::new();
    let mapping = parse_with_diagnostics("pkcs11:token=ok", &mut diagnostics)
        .expect("valid mapping");
    assert_eq!(mapping.token(), Some("ok"));
    assert!(diagnostics.is_empty());
}
