//! The functional model of the parser.
//!
//! `parse_spec` maps an input character sequence to the exact outcome the
//! parser must produce: either a [`MappingView`] describing the populated
//! attribute mapping, or an [`ErrorView`] carrying the violation and the
//! half-open character span into the tidied input.  The executable parser
//! is specified against this model, clause for clause, including the exact
//! violation and help texts.

use vstd::prelude::*;

use crate::strutil::{all_digits1, find_in, find_sub, has_char, is_prefix_of, nth_or_last,
    replace_seq, split_seq, tidy_seq, trim_seq, version_ok};

verus! {

/// The required URI scheme prefix.
pub open spec fn scheme_seq() -> Seq<char> {
    "pkcs11:"@
}

/// Whether an attribute appeared in the URI path (before `?`) or in the
/// URI query (after `?`).
#[derive(Clone, Copy, Debug)]
pub enum Component {
    Path,
    Query,
}

/// The classification of an attribute name: one of the thirteen standard
/// path attributes, one of the four standard query attributes, or a
/// vendor-specific attribute carrying its name.
pub enum AttrKind {
    Token,
    Manufacturer,
    Serial,
    Model,
    LibraryManufacturer,
    LibraryVersion,
    LibraryDescription,
    Object,
    Type,
    Id,
    SlotDescription,
    SlotManufacturer,
    SlotId,
    PinSource,
    PinValue,
    ModuleName,
    ModulePath,
    Vendor(Seq<char>),
}

/// Everything that makes a parse fail, with the payload its report needs.
pub enum Violation {
    /// The input does not start with the scheme prefix.
    Scheme,
    /// A component holds no `=`.
    Malformed,
    /// A component tidied to nothing: a doubled or trailing delimiter.
    MisplacedDelimiter(Component),
    /// A component's attribute name is blank.
    MissingName,
    /// A standard path attribute name was used outside the path.
    PathCollision,
    /// A standard query attribute name was used outside the query.
    QueryCollision(Seq<char>),
    /// A vendor attribute name holds a character outside the allowed set.
    VendorNameChars(Seq<char>),
    /// A value holds a literal space.
    SpaceInValue(Seq<char>),
    /// A value holds a literal `#`.
    HashInValue(Seq<char>),
    /// A path value holds a literal `/`.
    SlashInPathValue(Seq<char>),
    /// A `type` value outside the closed enumeration.
    TypeValue(Seq<char>),
    /// A `library-version` value not of the form `1*DIGIT [ "." 1*DIGIT ]`.
    LibraryVersionValue,
    /// A `slot-id` value that is not `1*DIGIT`.
    SlotIdValue,
    /// A standard attribute name assigned twice in its component.
    DuplicateStandard(Component, Seq<char>),
    /// A vendor attribute name assigned twice in the path.
    DuplicateVendorInPath(Seq<char>),
}

/// The model of a populated attribute mapping: one slot per standard
/// attribute and an ordered name-to-values table for vendor attributes.
#[verifier::ext_equal]
pub struct MappingView {
    pub token: Option<Seq<char>>,
    pub manufacturer: Option<Seq<char>>,
    pub serial: Option<Seq<char>>,
    pub model: Option<Seq<char>>,
    pub library_manufacturer: Option<Seq<char>>,
    pub library_version: Option<Seq<char>>,
    pub library_description: Option<Seq<char>>,
    pub type_: Option<Seq<char>>,
    pub object: Option<Seq<char>>,
    pub id: Option<Seq<char>>,
    pub slot_description: Option<Seq<char>>,
    pub slot_manufacturer: Option<Seq<char>>,
    pub slot_id: Option<Seq<char>>,
    pub pin_source: Option<Seq<char>>,
    pub pin_value: Option<Seq<char>>,
    pub module_name: Option<Seq<char>>,
    pub module_path_: Option<Seq<char>>,
    pub vendor: Seq<(Seq<char>, Seq<Seq<char>>)>,
}

/// The mapping before any assignment: every slot absent, no vendor entry.
pub open spec fn empty_mapping() -> MappingView {
    MappingView {
        token: None,
        manufacturer: None,
        serial: None,
        model: None,
        library_manufacturer: None,
        library_version: None,
        library_description: None,
        type_: None,
        object: None,
        id: None,
        slot_description: None,
        slot_manufacturer: None,
        slot_id: None,
        pin_source: None,
        pin_value: None,
        module_name: None,
        module_path_: None,
        vendor: Seq::empty(),
    }
}

impl MappingView {
    /// The slot a standard attribute kind is stored in.
    pub open spec fn slot(self, k: AttrKind) -> Option<Seq<char>> {
        match k {
            AttrKind::Token => self.token,
            AttrKind::Manufacturer => self.manufacturer,
            AttrKind::Serial => self.serial,
            AttrKind::Model => self.model,
            AttrKind::LibraryManufacturer => self.library_manufacturer,
            AttrKind::LibraryVersion => self.library_version,
            AttrKind::LibraryDescription => self.library_description,
            AttrKind::Object => self.object,
            AttrKind::Type => self.type_,
            AttrKind::Id => self.id,
            AttrKind::SlotDescription => self.slot_description,
            AttrKind::SlotManufacturer => self.slot_manufacturer,
            AttrKind::SlotId => self.slot_id,
            AttrKind::PinSource => self.pin_source,
            AttrKind::PinValue => self.pin_value,
            AttrKind::ModuleName => self.module_name,
            AttrKind::ModulePath => self.module_path_,
            AttrKind::Vendor(_) => None,
        }
    }

    /// The mapping with a standard attribute's slot filled.
    pub open spec fn with_slot(self, k: AttrKind, v: Seq<char>) -> MappingView {
        match k {
            AttrKind::Token => MappingView { token: Some(v), ..self },
            AttrKind::Manufacturer => MappingView { manufacturer: Some(v), ..self },
            AttrKind::Serial => MappingView { serial: Some(v), ..self },
            AttrKind::Model => MappingView { model: Some(v), ..self },
            AttrKind::LibraryManufacturer => MappingView {
                library_manufacturer: Some(v),
                ..self
            },
            AttrKind::LibraryVersion => MappingView { library_version: Some(v), ..self },
            AttrKind::LibraryDescription => MappingView {
                library_description: Some(v),
                ..self
            },
            AttrKind::Object => MappingView { object: Some(v), ..self },
            AttrKind::Type => MappingView { type_: Some(v), ..self },
            AttrKind::Id => MappingView { id: Some(v), ..self },
            AttrKind::SlotDescription => MappingView { slot_description: Some(v), ..self },
            AttrKind::SlotManufacturer => MappingView { slot_manufacturer: Some(v), ..self },
            AttrKind::SlotId => MappingView { slot_id: Some(v), ..self },
            AttrKind::PinSource => MappingView { pin_source: Some(v), ..self },
            AttrKind::PinValue => MappingView { pin_value: Some(v), ..self },
            AttrKind::ModuleName => MappingView { module_name: Some(v), ..self },
            AttrKind::ModulePath => MappingView { module_path_: Some(v), ..self },
            AttrKind::Vendor(_) => self,
        }
    }
}

/// The canonical spelling of a standard attribute kind's name (the
/// vendor kind carries its own name).
pub open spec fn kind_name(k: AttrKind) -> Seq<char> {
    match k {
        AttrKind::Token => "token"@,
        AttrKind::Manufacturer => "manufacturer"@,
        AttrKind::Serial => "serial"@,
        AttrKind::Model => "model"@,
        AttrKind::LibraryManufacturer => "library-manufacturer"@,
        AttrKind::LibraryVersion => "library-version"@,
        AttrKind::LibraryDescription => "library-description"@,
        AttrKind::Object => "object"@,
        AttrKind::Type => "type"@,
        AttrKind::Id => "id"@,
        AttrKind::SlotDescription => "slot-description"@,
        AttrKind::SlotManufacturer => "slot-manufacturer"@,
        AttrKind::SlotId => "slot-id"@,
        AttrKind::PinSource => "pin-source"@,
        AttrKind::PinValue => "pin-value"@,
        AttrKind::ModuleName => "module-name"@,
        AttrKind::ModulePath => "module-path"@,
        AttrKind::Vendor(n) => n,
    }
}

/// The standard path attribute a name spells, if any.
pub open spec fn path_standard(name: Seq<char>) -> Option<AttrKind> {
    if name == "token"@ {
        Some(AttrKind::Token)
    } else if name == "manufacturer"@ {
        Some(AttrKind::Manufacturer)
    } else if name == "serial"@ {
        Some(AttrKind::Serial)
    } else if name == "model"@ {
        Some(AttrKind::Model)
    } else if name == "library-manufacturer"@ {
        Some(AttrKind::LibraryManufacturer)
    } else if name == "library-version"@ {
        Some(AttrKind::LibraryVersion)
    } else if name == "library-description"@ {
        Some(AttrKind::LibraryDescription)
    } else if name == "object"@ {
        Some(AttrKind::Object)
    } else if name == "type"@ {
        Some(AttrKind::Type)
    } else if name == "id"@ {
        Some(AttrKind::Id)
    } else if name == "slot-description"@ {
        Some(AttrKind::SlotDescription)
    } else if name == "slot-manufacturer"@ {
        Some(AttrKind::SlotManufacturer)
    } else if name == "slot-id"@ {
        Some(AttrKind::SlotId)
    } else {
        None
    }
}

/// The standard query attribute a name spells, if any.
pub open spec fn query_standard(name: Seq<char>) -> Option<AttrKind> {
    if name == "pin-source"@ {
        Some(AttrKind::PinSource)
    } else if name == "pin-value"@ {
        Some(AttrKind::PinValue)
    } else if name == "module-name"@ {
        Some(AttrKind::ModuleName)
    } else if name == "module-path"@ {
        Some(AttrKind::ModulePath)
    } else {
        None
    }
}

/// Whether `char::is_alphanumeric` accepts the character.  The full
/// Unicode character classification is left uninterpreted; the library
/// relies on the standard library to compute it.
pub uninterp spec fn unicode_alphanumeric(c: char) -> bool;

/// A character allowed in a vendor attribute name
/// (`pk11-v-attr-nm-char`): alphanumeric, `-`, or `_`.
pub open spec fn vendor_name_char(c: char) -> bool {
    unicode_alphanumeric(c) || c == '-' || c == '_'
}

/// A well-formed vendor attribute name: one or more allowed characters.
pub open spec fn vendor_name_ok(name: Seq<char>) -> bool {
    name.len() >= 1 && forall|i: int| 0 <= i < name.len() ==> vendor_name_char(
        #[trigger] name[i],
    )
}

/// The outcome of classifying an attribute name.
pub enum Classified {
    Kind(AttrKind),
    Bad(Violation),
}

/// Classify a name that spells no standard attribute of its own
/// component: empty names, names colliding with the other component's
/// vocabulary, and ill-formed names are violations; the rest are vendor
/// attributes.
pub open spec fn classify_vendor(name: Seq<char>) -> Classified {
    if name.len() == 0 {
        Classified::Bad(Violation::MissingName)
    } else if path_standard(name) is Some {
        Classified::Bad(Violation::PathCollision)
    } else if query_standard(name) is Some {
        Classified::Bad(Violation::QueryCollision(name))
    } else if !vendor_name_ok(name) {
        Classified::Bad(Violation::VendorNameChars(name))
    } else {
        Classified::Kind(AttrKind::Vendor(name))
    }
}

/// Classify a trimmed attribute name against the vocabulary of the
/// component it was found in, falling back to vendor classification.
pub open spec fn classify_spec(name: Seq<char>, comp: Component) -> Classified {
    match comp {
        Component::Path => match path_standard(name) {
            Some(k) => Classified::Kind(k),
            None => classify_vendor(name),
        },
        Component::Query => match query_standard(name) {
            Some(k) => Classified::Kind(k),
            None => classify_vendor(name),
        },
    }
}

/// Whether a `type` value belongs to its closed enumeration.
pub open spec fn type_ok(s: Seq<char>) -> bool {
    s == "public"@ || s == "private"@ || s == "cert"@ || s == "secret-key"@ || s == "data"@
}

/// Validate a value for the attribute kind it is about to be assigned
/// to.  `type`, `library-version` and `slot-id` have closed formats of
/// their own; every other value must avoid literal spaces and `#`, and,
/// in the path, literal `/`.
pub open spec fn validate_spec(k: AttrKind, value: Seq<char>, comp: Component) -> Option<
    Violation,
> {
    match k {
        AttrKind::Type => if type_ok(value) {
            None
        } else {
            Some(Violation::TypeValue(value))
        },
        AttrKind::LibraryVersion => if version_ok(value) {
            None
        } else {
            Some(Violation::LibraryVersionValue)
        },
        AttrKind::SlotId => if all_digits1(value) {
            None
        } else {
            Some(Violation::SlotIdValue)
        },
        _ => if has_char(value, ' ') {
            Some(Violation::SpaceInValue(value))
        } else if has_char(value, '#') {
            Some(Violation::HashInValue(value))
        } else if (comp matches Component::Path) && has_char(value, '/') {
            Some(Violation::SlashInPathValue(value))
        } else {
            None
        },
    }
}

/// First index of a vendor entry with the given name, if any.
pub open spec fn vendor_idx(v: Seq<(Seq<char>, Seq<Seq<char>>)>, name: Seq<char>) -> Option<
    int,
>
    decreases v.len(),
{
    if v.len() == 0 {
        None
    } else if v[0].0 == name {
        Some(0)
    } else {
        match vendor_idx(v.drop_first(), name) {
            None => None,
            Some(j) => Some(1 + j),
        }
    }
}

/// A least index bearing `name` is what `vendor_idx` returns.
pub proof fn lemma_vendor_idx_from_witness(
    v: Seq<(Seq<char>, Seq<Seq<char>>)>,
    name: Seq<char>,
    i: int,
)
    requires
        0 <= i < v.len(),
        v[i].0 == name,
        forall|k: int| 0 <= k < i ==> (#[trigger] v[k]).0 != name,
    ensures
        vendor_idx(v, name) == Some(i),
    decreases i,
{
    if i > 0 {
        let r = v.drop_first();
        assert forall|k: int| 0 <= k < i - 1 implies (#[trigger] r[k]).0 != name by {
            assert(v[k + 1].0 != name);
        }
        lemma_vendor_idx_from_witness(r, name, i - 1);
    }
}

/// When no entry bears `name`, `vendor_idx` finds nothing.
pub proof fn lemma_vendor_idx_none(v: Seq<(Seq<char>, Seq<Seq<char>>)>, name: Seq<char>)
    requires
        forall|k: int| 0 <= k < v.len() ==> (#[trigger] v[k]).0 != name,
    ensures
        vendor_idx(v, name) == Option::<int>::None,
    decreases v.len(),
{
    if v.len() > 0 {
        let r = v.drop_first();
        assert forall|k: int| 0 <= k < r.len() implies (#[trigger] r[k]).0 != name by {
            assert(v[k + 1].0 != name);
        }
        lemma_vendor_idx_none(r, name);
    }
}

/// The ordered values recorded under a vendor attribute name, if any.
pub open spec fn vendor_lookup(v: Seq<(Seq<char>, Seq<Seq<char>>)>, name: Seq<char>) -> Option<
    Seq<Seq<char>>,
> {
    match vendor_idx(v, name) {
        None => None,
        Some(i) => Some(v[i].1),
    }
}

/// The outcome of assigning one classified, validated attribute.
pub enum FragOut {
    Applied(MappingView),
    Rejected(Violation),
}

/// Assign a value into the mapping, enforcing the duplicate policy: a
/// standard slot and a vendor name in the path may be filled at most
/// once; a vendor name in the query accumulates values in order.
pub open spec fn assign_spec(
    k: AttrKind,
    value: Seq<char>,
    comp: Component,
    m: MappingView,
) -> FragOut {
    match k {
        AttrKind::Vendor(name) => match comp {
            Component::Path => if vendor_idx(m.vendor, name) is None {
                FragOut::Applied(
                    MappingView { vendor: m.vendor.push((name, seq![value])), ..m },
                )
            } else {
                FragOut::Rejected(Violation::DuplicateVendorInPath(name))
            },
            Component::Query => match vendor_idx(m.vendor, name) {
                None => FragOut::Applied(
                    MappingView { vendor: m.vendor.push((name, seq![value])), ..m },
                ),
                Some(i) => FragOut::Applied(
                    MappingView {
                        vendor: m.vendor.update(i, (m.vendor[i].0, m.vendor[i].1.push(value))),
                        ..m
                    },
                ),
            },
        },
        _ => if m.slot(k) is None {
            FragOut::Applied(m.with_slot(k, value))
        } else {
            FragOut::Rejected(Violation::DuplicateStandard(comp, kind_name(k)))
        },
    }
}

/// Process one `name=value` component: split at the first `=`, trim both
/// sides, classify the name, validate the value, and assign.
pub open spec fn frag_spec(frag: Seq<char>, comp: Component, m: MappingView) -> FragOut {
    match find_in(frag, '=') {
        None => FragOut::Rejected(Violation::Malformed),
        Some(e) => {
            let name = trim_seq(frag.subrange(0, e));
            let value = trim_seq(frag.subrange(e + 1, frag.len() as int));
            match classify_spec(name, comp) {
                Classified::Bad(v) => FragOut::Rejected(v),
                Classified::Kind(k) => match validate_spec(k, value, comp) {
                    Some(v) => FragOut::Rejected(v),
                    None => assign_spec(k, value, comp, m),
                },
            }
        },
    }
}

/// The outcome of processing a component list: the final mapping, or the
/// index of the first rejected component with its violation.
pub enum FoldOut {
    Done(MappingView),
    Fail(int, Violation),
}

/// Process the components from index `i` on, failing fast at the first
/// violation.
pub open spec fn fold_from(
    frags: Seq<Seq<char>>,
    i: int,
    comp: Component,
    m: MappingView,
) -> FoldOut
    decreases frags.len() - i,
{
    if i < 0 || i >= frags.len() {
        FoldOut::Done(m)
    } else {
        match frag_spec(frags[i], comp, m) {
            FragOut::Applied(m2) => fold_from(frags, i + 1, comp, m2),
            FragOut::Rejected(v) => FoldOut::Fail(i, v),
        }
    }
}

/// A positioned error: a half-open character span into the tidied input
/// and the violation found there.
#[verifier::ext_equal]
pub struct ErrorView {
    pub start: int,
    pub end: int,
    pub violation: Violation,
}

/// Position a component's violation within the tidied input.  A
/// component that tidies to text is located by substring search within
/// its tidied region; one that tidies to nothing marks a misplaced
/// delimiter, located at occurrence number `count` of the delimiter.
pub open spec fn locate_spec(
    region: Seq<char>,
    frag: Seq<char>,
    count: int,
    v: Violation,
    delim: char,
    comp: Component,
    base: int,
) -> ErrorView {
    let tr = tidy_seq(region);
    let tf = tidy_seq(frag);
    if tf.len() > 0 {
        let off = match find_sub(tr, tf) {
            Some(j) => j,
            None => 0,
        };
        ErrorView { start: base + off, end: base + off + tf.len(), violation: v }
    } else {
        let off = nth_or_last(tr, delim, count);
        ErrorView {
            start: base + off,
            end: base + off,
            violation: Violation::MisplacedDelimiter(comp),
        }
    }
}

/// Character offset just past the `?` in the tidied input: the base all
/// query-component error offsets are measured from.
pub open spec fn query_base(input: Seq<char>) -> int {
    match find_in(tidy_seq(input), '?') {
        Some(j) => j + 1,
        None => 0,
    }
}

/// The outcome of a parse: a populated mapping, or a positioned error.
pub enum Outcome {
    Success(MappingView),
    Failure(ErrorView),
}

/// The path region: what stands between the scheme prefix and the first
/// `?` (or the end of the input).
pub open spec fn path_region(input: Seq<char>) -> Seq<char> {
    let path_end = match find_in(input, '?') {
        Some(q) => q,
        None => input.len() as int,
    };
    input.subrange(scheme_seq().len() as int, path_end)
}

/// The query region: what follows the first `?`, if there is one.
pub open spec fn query_region(input: Seq<char>) -> Seq<char> {
    match find_in(input, '?') {
        Some(q) => input.subrange(q + 1, input.len() as int),
        None => Seq::<char>::empty(),
    }
}

/// The model of the whole parse: check the scheme, split the path region
/// (before the first `?`) on `;` and the query region (after it) on `&`,
/// and process every component fail-fast.
pub open spec fn parse_spec(input: Seq<char>) -> Outcome {
    if !is_prefix_of(scheme_seq(), input) {
        Outcome::Failure(ErrorView { start: 0, end: 0, violation: Violation::Scheme })
    } else {
        let qopt = find_in(input, '?');
        let path = path_region(input);
        let path_out = if path.len() == 0 {
            FoldOut::Done(empty_mapping())
        } else {
            fold_from(split_seq(path, ';'), 0, Component::Path, empty_mapping())
        };
        match path_out {
            FoldOut::Fail(i, v) => Outcome::Failure(
                locate_spec(
                    path,
                    split_seq(path, ';')[i],
                    i,
                    v,
                    ';',
                    Component::Path,
                    scheme_seq().len() as int,
                ),
            ),
            FoldOut::Done(m1) => match qopt {
                None => Outcome::Success(m1),
                Some(q) => {
                    let query = query_region(input);
                    if query.len() == 0 {
                        Outcome::Success(m1)
                    } else {
                        match fold_from(split_seq(query, '&'), 0, Component::Query, m1) {
                            FoldOut::Done(m2) => Outcome::Success(m2),
                            FoldOut::Fail(i, v) => Outcome::Failure(
                                locate_spec(
                                    query,
                                    split_seq(query, '&')[i],
                                    i,
                                    v,
                                    '&',
                                    Component::Query,
                                    query_base(input),
                                ),
                            ),
                        }
                    }
                },
            },
        }
    }
}

/// The exact violation text reported for each violation.
pub open spec fn violation_text(v: Violation) -> Seq<char> {
    match v {
        Violation::Scheme => "Invalid `pk11-URI`: expected `\"pkcs11:\" pk11-path [ \"?\" pk11-query ]`."@,
        Violation::Malformed => "Malformed component."@,
        Violation::MisplacedDelimiter(comp) => match comp {
            Component::Path => "Misplaced path delimiter."@,
            Component::Query => "Misplaced query delimiter."@,
        },
        Violation::MissingName => "Invalid component: Missing attribute name."@,
        Violation::PathCollision => "Naming collision with standard path component."@,
        Violation::QueryCollision(_) => "Naming collision with standard query component."@,
        Violation::VendorNameChars(_) => "Invalid vendor-specific component name: expected `1*pk11-v-attr-nm-char`."@,
        Violation::SpaceInValue(_) => "Invalid component value: Appendix A of [RFC3986] specifies component values may not contain empty spaces."@,
        Violation::HashInValue(_) => "Invalid component value: The '#' delimiter must always be percent-encoded."@,
        Violation::SlashInPathValue(_) => "Invalid `pk11-pattr`: The general '/' delimiter must always be percent-encoded in a path component."@,
        Violation::TypeValue(_) => "Invalid `pk11-pattr`: `pk11-type` = `\"type\" \"=\" ( \"public\" / \"private\" / \"cert\" / \"secret-key\" / \"data\" )`."@,
        Violation::LibraryVersionValue => "Invalid `pk11-pattr`: `pk11-lib-ver` = `\"library-version\" \"=\" 1*DIGIT [ \".\" 1*DIGIT ]`."@,
        Violation::SlotIdValue => "Invalid `pk11-pattr`: `pk11-slot-id` = `\"slot-id\" \"=\" 1*DIGIT`."@,
        Violation::DuplicateStandard(comp, name) => match comp {
            Component::Path => "Duplicate `pk11-pattr` standard name: \""@ + name + "\"."@,
            Component::Query => "Duplicate `pk11-qattr` standard name: \""@ + name + "\"."@,
        },
        Violation::DuplicateVendorInPath(name) => "Duplicate `pk11-v-pattr` vendor-specific name: \""@
            + name + "\"."@,
    }
}

/// The exact corrective-suggestion text reported for each violation.
pub open spec fn help_text(v: Violation) -> Seq<char> {
    match v {
        Violation::Scheme => "PKCS#11 URI must start with `pkcs11:`."@,
        Violation::Malformed => "Please refer to RFC7512 for acceptable path|query attribute values."@,
        Violation::MisplacedDelimiter(comp) => match comp {
            Component::Path => "Remove the misplaced ';' delimiter."@,
            Component::Query => "Remove the misplaced '&' delimiter."@,
        },
        Violation::MissingName => "The attribute name may not be blank. Refer to the RFC7512 specification for valid attributes."@,
        Violation::PathCollision => "Move this attribute and its value to the PKCS#11 URI path."@,
        Violation::QueryCollision(name) => "Move `"@ + name
            + "` and its value to the PKCS#11 URI query."@,
        Violation::VendorNameChars(name) => "`"@ + name
            + "` violated vendor-specific attribute name characters consisting solely of alphanumeric, '-', or '_'."@,
        Violation::SpaceInValue(value) => "Replace `"@ + value + "` with `"@ + replace_seq(
            value,
            ' ',
            "%20"@,
        ) + "`."@,
        Violation::HashInValue(value) => "Replace `"@ + value + "` with `"@ + replace_seq(
            value,
            '#',
            "%23"@,
        ) + "`."@,
        Violation::SlashInPathValue(value) => "Replace `"@ + value + "` with `"@ + replace_seq(
            value,
            '/',
            "%2F"@,
        ) + "`."@,
        Violation::TypeValue(value) => "Replace `"@ + value
            + "` value with one of `public`, `private`, `cert`, `secret-key`, or `data`."@,
        Violation::LibraryVersionValue => "The `library-version` attribute represents the major and minor version decimal number of the library and its format is `M.N`. The major version is required."@,
        Violation::SlotIdValue => "The `slot-id` value may only be numeric."@,
        Violation::DuplicateStandard(comp, _) => match comp {
            Component::Path => "A PKCS #11 URI must not contain duplicate attributes of the same name in the URI path component."@,
            Component::Query => "A PKCS #11 URI must not contain duplicate standard attributes of the same name in the URI query component."@,
        },
        Violation::DuplicateVendorInPath(_) => "A PKCS #11 URI must not contain duplicate vendor attributes of the same name in the URI path component."@,
    }
}

} // verus!
