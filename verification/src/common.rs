//! Shared validation machinery: the granular validation error (violation
//! plus corrective suggestion, not yet positioned), the builders that
//! produce each error with its exact report texts, the common value rule,
//! and vendor-specific attribute name classification.

use vstd::prelude::*;

use crate::model::{classify_vendor, help_text, path_standard, query_standard,
    unicode_alphanumeric, vendor_name_char, vendor_name_ok, violation_text, AttrKind,
    Classified, Component, Violation};
use crate::strutil::{contains_char, has_char, replace_char, replace_seq, str_eq};

verus! {

/// A parse evaluation's most granular error: a violation description and
/// a corrective suggestion, not yet positioned within the input.  The
/// ghost `model` records which violation the texts describe.
pub struct ValidationErr {
    pub violation: String,
    pub help: String,
    pub model: Ghost<Violation>,
}

impl ValidationErr {
    /// The texts are exactly the report texts of the recorded violation.
    pub open spec fn wf(self) -> bool {
        self.violation@ == violation_text(self.model@) && self.help@ == help_text(self.model@)
    }
}

/// The error for a component with no `=`.
pub fn err_malformed() -> (e: ValidationErr)
    ensures
        e.wf(),
        e.model@ == Violation::Malformed,
{
    ValidationErr {
        violation: String::from_str("Malformed component."),
        help: String::from_str(
            "Please refer to RFC7512 for acceptable path|query attribute values.",
        ),
        model: Ghost(Violation::Malformed),
    }
}

/// The error for a blank attribute name.
pub fn err_missing_name() -> (e: ValidationErr)
    ensures
        e.wf(),
        e.model@ == Violation::MissingName,
{
    ValidationErr {
        violation: String::from_str("Invalid component: Missing attribute name."),
        help: String::from_str(
            "The attribute name may not be blank. Refer to the RFC7512 specification for valid attributes.",
        ),
        model: Ghost(Violation::MissingName),
    }
}

/// The error for a standard path attribute name found outside the path.
pub fn err_path_collision() -> (e: ValidationErr)
    ensures
        e.wf(),
        e.model@ == Violation::PathCollision,
{
    ValidationErr {
        violation: String::from_str("Naming collision with standard path component."),
        help: String::from_str("Move this attribute and its value to the PKCS#11 URI path."),
        model: Ghost(Violation::PathCollision),
    }
}

/// The error for a standard query attribute name found outside the query.
pub fn err_query_collision(name: &str) -> (e: ValidationErr)
    ensures
        e.wf(),
        e.model@ == Violation::QueryCollision(name@),
{
    let mut help = String::from_str("Move `");
    help.append(name);
    help.append("` and its value to the PKCS#11 URI query.");
    ValidationErr {
        violation: String::from_str("Naming collision with standard query component."),
        help,
        model: Ghost(Violation::QueryCollision(name@)),
    }
}

/// The error for a vendor attribute name with a character outside the
/// allowed set.
pub fn err_vendor_name_chars(name: &str) -> (e: ValidationErr)
    ensures
        e.wf(),
        e.model@ == Violation::VendorNameChars(name@),
{
    let mut help = String::from_str("`");
    help.append(name);
    help.append(
        "` violated vendor-specific attribute name characters consisting solely of alphanumeric, '-', or '_'.",
    );
    ValidationErr {
        violation: String::from_str(
            "Invalid vendor-specific component name: expected `1*pk11-v-attr-nm-char`.",
        ),
        help,
        model: Ghost(Violation::VendorNameChars(name@)),
    }
}

/// The suggestion shared by the value-character errors: the value with
/// the offending character percent-encoded.
fn replace_help(value: &str, c: char, rep: &str) -> (h: String)
    ensures
        h@ == "Replace `"@ + value@ + "` with `"@ + replace_seq(value@, c, rep@) + "`."@,
{
    let fixed = replace_char(value, c, rep);
    let mut h = String::from_str("Replace `");
    h.append(value);
    h.append("` with `");
    h.append(fixed.as_str());
    h.append("`.");
    h
}

/// The error for a value holding a literal space.
pub fn err_space_in_value(value: &str) -> (e: ValidationErr)
    ensures
        e.wf(),
        e.model@ == Violation::SpaceInValue(value@),
{
    ValidationErr {
        violation: String::from_str(
            "Invalid component value: Appendix A of [RFC3986] specifies component values may not contain empty spaces.",
        ),
        help: replace_help(value, ' ', "%20"),
        model: Ghost(Violation::SpaceInValue(value@)),
    }
}

/// The error for a value holding a literal `#`.
pub fn err_hash_in_value(value: &str) -> (e: ValidationErr)
    ensures
        e.wf(),
        e.model@ == Violation::HashInValue(value@),
{
    ValidationErr {
        violation: String::from_str(
            "Invalid component value: The '#' delimiter must always be percent-encoded.",
        ),
        help: replace_help(value, '#', "%23"),
        model: Ghost(Violation::HashInValue(value@)),
    }
}

/// The error for a path value holding a literal `/`.
pub fn err_slash_in_path_value(value: &str) -> (e: ValidationErr)
    ensures
        e.wf(),
        e.model@ == Violation::SlashInPathValue(value@),
{
    ValidationErr {
        violation: String::from_str(
            "Invalid `pk11-pattr`: The general '/' delimiter must always be percent-encoded in a path component.",
        ),
        help: replace_help(value, '/', "%2F"),
        model: Ghost(Violation::SlashInPathValue(value@)),
    }
}

/// The error for a `type` value outside its closed enumeration.
pub fn err_type_value(value: &str) -> (e: ValidationErr)
    ensures
        e.wf(),
        e.model@ == Violation::TypeValue(value@),
{
    let mut help = String::from_str("Replace `");
    help.append(value);
    help.append("` value with one of `public`, `private`, `cert`, `secret-key`, or `data`.");
    ValidationErr {
        violation: String::from_str(
            "Invalid `pk11-pattr`: `pk11-type` = `\"type\" \"=\" ( \"public\" / \"private\" / \"cert\" / \"secret-key\" / \"data\" )`.",
        ),
        help,
        model: Ghost(Violation::TypeValue(value@)),
    }
}

/// The error for a malformed `library-version` value.
pub fn err_library_version_value() -> (e: ValidationErr)
    ensures
        e.wf(),
        e.model@ == Violation::LibraryVersionValue,
{
    ValidationErr {
        violation: String::from_str(
            "Invalid `pk11-pattr`: `pk11-lib-ver` = `\"library-version\" \"=\" 1*DIGIT [ \".\" 1*DIGIT ]`.",
        ),
        help: String::from_str(
            "The `library-version` attribute represents the major and minor version decimal number of the library and its format is `M.N`. The major version is required.",
        ),
        model: Ghost(Violation::LibraryVersionValue),
    }
}

/// The error for a non-numeric `slot-id` value.
pub fn err_slot_id_value() -> (e: ValidationErr)
    ensures
        e.wf(),
        e.model@ == Violation::SlotIdValue,
{
    ValidationErr {
        violation: String::from_str(
            "Invalid `pk11-pattr`: `pk11-slot-id` = `\"slot-id\" \"=\" 1*DIGIT`.",
        ),
        help: String::from_str("The `slot-id` value may only be numeric."),
        model: Ghost(Violation::SlotIdValue),
    }
}

/// The error for a standard attribute name assigned twice in its
/// component.  `name` must be the attribute's canonical spelling.
pub fn err_duplicate_standard(comp: Component, name: &str) -> (e: ValidationErr)
    ensures
        e.wf(),
        e.model@ == Violation::DuplicateStandard(comp, name@),
{
    match comp {
        Component::Path => {
            let mut violation = String::from_str("Duplicate `pk11-pattr` standard name: \"");
            violation.append(name);
            violation.append("\".");
            ValidationErr {
                violation,
                help: String::from_str(
                    "A PKCS #11 URI must not contain duplicate attributes of the same name in the URI path component.",
                ),
                model: Ghost(Violation::DuplicateStandard(comp, name@)),
            }
        },
        Component::Query => {
            let mut violation = String::from_str("Duplicate `pk11-qattr` standard name: \"");
            violation.append(name);
            violation.append("\".");
            ValidationErr {
                violation,
                help: String::from_str(
                    "A PKCS #11 URI must not contain duplicate standard attributes of the same name in the URI query component.",
                ),
                model: Ghost(Violation::DuplicateStandard(comp, name@)),
            }
        },
    }
}

/// The error for a vendor attribute name assigned twice in the path.
pub fn err_duplicate_vendor_in_path(name: &str) -> (e: ValidationErr)
    ensures
        e.wf(),
        e.model@ == Violation::DuplicateVendorInPath(name@),
{
    let mut violation = String::from_str("Duplicate `pk11-v-pattr` vendor-specific name: \"");
    violation.append(name);
    violation.append("\".");
    ValidationErr {
        violation,
        help: String::from_str(
            "A PKCS #11 URI must not contain duplicate vendor attributes of the same name in the URI path component.",
        ),
        model: Ghost(Violation::DuplicateVendorInPath(name@)),
    }
}

/// Values of both path and query components must not contain literal
/// spaces or the `#` character.
pub fn common_validation(value: &str) -> (r: Option<ValidationErr>)
    ensures
        match r {
            None => !has_char(value@, ' ') && !has_char(value@, '#'),
            Some(e) => e.wf() && (if has_char(value@, ' ') {
                e.model@ == Violation::SpaceInValue(value@)
            } else {
                has_char(value@, '#') && e.model@ == Violation::HashInValue(value@)
            }),
        },
{
    if contains_char(value, ' ') {
        return Some(err_space_in_value(value));
    }
    if contains_char(value, '#') {
        return Some(err_hash_in_value(value));
    }
    None
}

/// Relies on `char::is_alphanumeric` for the Unicode alphanumeric
/// classification, which the library leaves uninterpreted; its
/// documentation plainly includes the ASCII letters and digits.
#[verifier::external_body]
pub(crate) fn char_is_alphanumeric(c: char) -> (r: bool)
    ensures
        r == unicode_alphanumeric(c),
        ('a' <= c && c <= 'z') || ('A' <= c && c <= 'Z') || ('0' <= c && c <= '9') ==> r,
{
    c.is_alphanumeric()
}

/// Whether every character of the non-empty name is an allowed vendor
/// attribute name character.
fn check_vendor_name(name: &str) -> (r: bool)
    ensures
        r == vendor_name_ok(name@),
{
    let n = name.unicode_len();
    if n == 0 {
        return false;
    }
    let mut i: usize = 0;
    while i < n
        invariant
            n == name@.len(),
            n >= 1,
            0 <= i <= n,
            forall|k: int| 0 <= k < i ==> vendor_name_char(#[trigger] name@[k]),
        decreases n - i,
    {
        let c = name.get_char(i);
        if !(char_is_alphanumeric(c) || c == '-' || c == '_') {
            return false;
        }
        i = i + 1;
    }
    true
}

/// A validated vendor-specific attribute name: a non-standard name that
/// obeys the `1*pk11-v-attr-nm-char` rule.
pub struct VendorAttribute<'a>(pub &'a str);

/// Whether a trimmed name spells one of the standard path attributes.
pub fn is_path_standard_name(name: &str) -> (r: bool)
    ensures
        r == (path_standard(name@) is Some),
{
    str_eq(name, "token") || str_eq(name, "manufacturer") || str_eq(name, "serial") || str_eq(
        name,
        "model",
    ) || str_eq(name, "library-manufacturer") || str_eq(name, "library-version") || str_eq(
        name,
        "library-description",
    ) || str_eq(name, "object") || str_eq(name, "type") || str_eq(name, "id") || str_eq(
        name,
        "slot-description",
    ) || str_eq(name, "slot-manufacturer") || str_eq(name, "slot-id")
}

/// Whether a trimmed name spells one of the standard query attributes.
pub fn is_query_standard_name(name: &str) -> (r: bool)
    ensures
        r == (query_standard(name@) is Some),
{
    str_eq(name, "pin-source") || str_eq(name, "pin-value") || str_eq(name, "module-name")
        || str_eq(name, "module-path")
}

/// Classify a name that spells no standard attribute of its own
/// component: it is either a well-formed vendor-specific name or one of
/// the name violations (blank, colliding with the other component's
/// vocabulary, or ill-formed).
pub fn classify_vendor_attr<'a>(name: &'a str) -> (r: Result<VendorAttribute<'a>, ValidationErr>)
    ensures
        match r {
            Ok(va) => va.0@ == name@ && classify_vendor(name@) == Classified::Kind(
                AttrKind::Vendor(name@),
            ),
            Err(e) => e.wf() && classify_vendor(name@) == Classified::Bad(e.model@),
        },
{
    if name.unicode_len() == 0 {
        return Err(err_missing_name());
    }
    if is_path_standard_name(name) {
        return Err(err_path_collision());
    }
    if is_query_standard_name(name) {
        return Err(err_query_collision(name));
    }
    if !check_vendor_name(name) {
        return Err(err_vendor_name_chars(name));
    }
    Ok(VendorAttribute(name))
}

} // verus!
