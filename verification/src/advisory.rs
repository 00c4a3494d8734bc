//! Advisory diagnostics: the specification's "SHOULD"-level rules.
//!
//! A breach of one of these rules never fails a parse; it is reported as
//! an [`Advisory`] value through a caller-supplied sink (see
//! [`parse_with_diagnostics`](crate::parse_with_diagnostics)).  The set
//! of checks mirrors RFC 7512's advice: the deprecated `x-` vendor name
//! prefix, characters that should be percent-encoded, malformed percent
//! escapes, an `id` value that is not wholly percent-encoded, a
//! `module-name` that looks like a path or filename, and the discouraged
//! `module-name`/`module-path` and `pin-source`/`pin-value` pairs.

use vstd::prelude::*;

use crate::common::char_is_alphanumeric;
use crate::model::{classify_spec, kind_name, parse_spec, path_region, query_region,
    unicode_alphanumeric, AttrKind, Classified, Component, Outcome};
use crate::pk11_pattr::PK11PAttr;
use crate::pk11_qattr::PK11QAttr;
use crate::strutil::{find_char_from, find_in, has_char, is_prefix_of,
    lemma_find_in_from_witness, lemma_find_in_none, split_seq, starts_with, trim, trim_seq};

verus! {

/// One advisory diagnostic: a "SHOULD"-level rule that was not followed.
#[derive(Debug, Clone)]
pub enum Advisory {
    /// A vendor attribute name uses the deprecated `x-` prefix.
    DeprecatedXPrefix { name: String },
    /// A `%` in a value is not followed by two hexadecimal digits.
    MalformedPercentEncoding { attribute: String, value: String, offset: usize },
    /// A character in a value should be percent-encoded.
    SuggestPercentEncoding { attribute: String, value: String, offset: usize, character: char },
    /// The `id` value should be wholly percent-encoded.
    IdValueNotFullyEncoded { value: String },
    /// The `module-name` value looks like a path or filename.
    ModuleNameNotBare { value: String },
    /// Both `module-name` and `module-path` are present.
    ModuleNameAndPathBothUsed,
    /// Both `pin-source` and `pin-value` are present.
    PinSourceAndPinValueBothUsed,
}

/// The model of one advisory diagnostic.
pub enum AdvisoryView {
    DeprecatedXPrefix { name: Seq<char> },
    MalformedPercentEncoding { attribute: Seq<char>, value: Seq<char>, offset: int },
    SuggestPercentEncoding { attribute: Seq<char>, value: Seq<char>, offset: int, character: char },
    IdValueNotFullyEncoded { value: Seq<char> },
    ModuleNameNotBare { value: Seq<char> },
    ModuleNameAndPathBothUsed,
    PinSourceAndPinValueBothUsed,
}

impl View for Advisory {
    type V = AdvisoryView;

    open spec fn view(&self) -> AdvisoryView {
        match self {
            Advisory::DeprecatedXPrefix { name } => AdvisoryView::DeprecatedXPrefix {
                name: name@,
            },
            Advisory::MalformedPercentEncoding { attribute, value, offset } => {
                AdvisoryView::MalformedPercentEncoding {
                    attribute: attribute@,
                    value: value@,
                    offset: *offset as int,
                }
            },
            Advisory::SuggestPercentEncoding { attribute, value, offset, character } => {
                AdvisoryView::SuggestPercentEncoding {
                    attribute: attribute@,
                    value: value@,
                    offset: *offset as int,
                    character: *character,
                }
            },
            Advisory::IdValueNotFullyEncoded { value } => {
                AdvisoryView::IdValueNotFullyEncoded { value: value@ }
            },
            Advisory::ModuleNameNotBare { value } => AdvisoryView::ModuleNameNotBare {
                value: value@,
            },
            Advisory::ModuleNameAndPathBothUsed => AdvisoryView::ModuleNameAndPathBothUsed,
            Advisory::PinSourceAndPinValueBothUsed => {
                AdvisoryView::PinSourceAndPinValueBothUsed
            },
        }
    }
}

/// The models of a sequence of advisories.
pub open spec fn adv_views(q: Seq<Advisory>) -> Seq<AdvisoryView> {
    q.map_values(|a: Advisory| a@)
}

/// Appending one advisory appends its model.
pub proof fn lemma_adv_views_push(q: Seq<Advisory>, a: Advisory)
    ensures
        adv_views(q.push(a)) == adv_views(q).push(a@),
{
    assert(adv_views(q.push(a)) =~= adv_views(q).push(a@));
}

/// Whether `c` is an ASCII hexadecimal digit.
pub open spec fn ascii_hexdigit(c: char) -> bool {
    ('0' <= c && c <= '9') || ('a' <= c && c <= 'f') || ('A' <= c && c <= 'F')
}

/// The reserved characters RFC 7512 leaves available in both components.
pub open spec fn pk11_res_avail(c: char) -> bool {
    c == '-' || c == '.' || c == '_' || c == '~' || c == ':' || c == '[' || c == ']' || c
        == '@' || c == '!' || c == '$' || c == '\'' || c == '(' || c == ')' || c == '*' || c
        == '+' || c == ',' || c == '='
}

/// The additional characters available in the component a value sits in.
pub open spec fn component_res_avail(c: char, comp: Component) -> bool {
    match comp {
        Component::Path => c == '&',
        Component::Query => c == '/' || c == '?' || c == '|',
    }
}

/// Whether a value character needs no percent-encoding in its component.
pub open spec fn scan_allowed(c: char, comp: Component) -> bool {
    unicode_alphanumeric(c) || pk11_res_avail(c) || component_res_avail(c, comp)
}

/// The percent-encoding advisories for a value, scanning from index
/// `i`: a `%` consumes up to two following hexadecimal digits and is
/// reported when it is not followed by both; any other character
/// outside the available set is suggested for percent-encoding.
pub open spec fn pct_scan(
    attribute: Seq<char>,
    value: Seq<char>,
    comp: Component,
    i: int,
) -> Seq<AdvisoryView>
    decreases value.len() - i,
{
    if i < 0 || i >= value.len() {
        Seq::empty()
    } else if value[i] == '%' {
        if i + 1 < value.len() && ascii_hexdigit(value[i + 1]) {
            if i + 2 < value.len() && ascii_hexdigit(value[i + 2]) {
                pct_scan(attribute, value, comp, i + 3)
            } else {
                seq![
                    AdvisoryView::MalformedPercentEncoding { attribute, value, offset: i },
                ] + pct_scan(attribute, value, comp, i + 2)
            }
        } else {
            seq![
                AdvisoryView::MalformedPercentEncoding { attribute, value, offset: i },
            ] + pct_scan(attribute, value, comp, i + 1)
        }
    } else if scan_allowed(value[i], comp) {
        pct_scan(attribute, value, comp, i + 1)
    } else {
        seq![
            AdvisoryView::SuggestPercentEncoding {
                attribute,
                value,
                offset: i,
                character: value[i],
            },
        ] + pct_scan(attribute, value, comp, i + 1)
    }
}

/// Whether the three characters starting at index `3 * k` form one
/// percent escape: a `%` and two hexadecimal digits.
pub open spec fn pct_chunk_ok(value: Seq<char>, k: int) -> bool {
    value[3 * k] == '%' && ascii_hexdigit(value[3 * k + 1]) && ascii_hexdigit(
        value[3 * k + 2],
    )
}

/// Whether a value is wholly percent-encoded: one or more `%` escapes,
/// each with exactly two hexadecimal digits.
pub open spec fn wholly_percent_encoded(value: Seq<char>) -> bool {
    value.len() >= 3 && value.len() % 3 == 0 && forall|k: int|
        0 <= k < value.len() / 3 ==> #[trigger] pct_chunk_ok(value, k)
}

/// Whether a `module-name` value looks like a path or filename rather
/// than a bare module name.
pub open spec fn module_name_not_bare(value: Seq<char>) -> bool {
    is_prefix_of("lib"@, value) || has_char(value, '.') || has_char(value, '/') || has_char(
        value,
        '\\',
    )
}

/// The value advisories for one classified attribute: `id` should be
/// wholly percent-encoded; `type`, `library-version` and `slot-id` have
/// closed formats and get no advisory; `module-name` should be a bare
/// module name; every other value is scanned for characters that should
/// be percent-encoded.
pub open spec fn kind_advisories(
    k: AttrKind,
    value: Seq<char>,
    comp: Component,
) -> Seq<AdvisoryView> {
    match comp {
        Component::Path => match k {
            AttrKind::Id => if wholly_percent_encoded(value) {
                Seq::empty()
            } else {
                seq![AdvisoryView::IdValueNotFullyEncoded { value }]
            },
            AttrKind::Type | AttrKind::LibraryVersion | AttrKind::SlotId => Seq::empty(),
            _ => pct_scan(kind_name(k), value, comp, 0),
        },
        Component::Query => {
            let bare = match k {
                AttrKind::ModuleName => if module_name_not_bare(value) {
                    seq![AdvisoryView::ModuleNameNotBare { value }]
                } else {
                    Seq::<AdvisoryView>::empty()
                },
                _ => Seq::<AdvisoryView>::empty(),
            };
            bare + pct_scan(kind_name(k), value, comp, 0)
        },
    }
}

/// The advisories for one `name=value` component: the deprecated `x-`
/// prefix of a well-formed vendor name, then the value advisories of
/// the classified attribute.  A component that fails classification
/// contributes nothing (the parse fails on it instead).
pub open spec fn frag_advisories(frag: Seq<char>, comp: Component) -> Seq<AdvisoryView> {
    match find_in(frag, '=') {
        None => Seq::empty(),
        Some(e) => {
            let name = trim_seq(frag.subrange(0, e));
            let value = trim_seq(frag.subrange(e + 1, frag.len() as int));
            match classify_spec(name, comp) {
                Classified::Kind(k) => {
                    let dep = if (k matches AttrKind::Vendor(_)) && is_prefix_of(
                        "x-"@,
                        name,
                    ) {
                        seq![AdvisoryView::DeprecatedXPrefix { name }]
                    } else {
                        Seq::<AdvisoryView>::empty()
                    };
                    dep + kind_advisories(k, value, comp)
                },
                Classified::Bad(_) => Seq::empty(),
            }
        },
    }
}

/// The advisories of the components from index `i` on, in order.
pub open spec fn frags_advisories(
    frags: Seq<Seq<char>>,
    i: int,
    comp: Component,
) -> Seq<AdvisoryView>
    decreases frags.len() - i,
{
    if i < 0 || i >= frags.len() {
        Seq::empty()
    } else {
        frag_advisories(frags[i], comp) + frags_advisories(frags, i + 1, comp)
    }
}

/// Whether the character needs no percent-encoding in its component.
fn is_scan_allowed(c: char, comp: Component) -> (r: bool)
    ensures
        r == scan_allowed(c, comp),
{
    if char_is_alphanumeric(c) {
        return true;
    }
    if c == '-' || c == '.' || c == '_' || c == '~' || c == ':' || c == '[' || c == ']' || c
        == '@' || c == '!' || c == '$' || c == '\'' || c == '(' || c == ')' || c == '*' || c
        == '+' || c == ',' || c == '=' {
        return true;
    }
    match comp {
        Component::Path => c == '&',
        Component::Query => c == '/' || c == '?' || c == '|',
    }
}

/// Whether `c` is an ASCII hexadecimal digit.
fn is_ascii_hexdigit(c: char) -> (r: bool)
    ensures
        r == ascii_hexdigit(c),
{
    ('0' <= c && c <= '9') || ('a' <= c && c <= 'f') || ('A' <= c && c <= 'F')
}

/// Scan a value for percent-encoding advisories, appending them to the
/// sink in order.
pub(crate) fn scan_value(
    attribute: &str,
    value: &str,
    comp: Component,
    out: &mut Vec<Advisory>,
)
    ensures
        adv_views(final(out)@) == adv_views(old(out)@) + pct_scan(attribute@, value@, comp, 0),
{
    let n = value.unicode_len();
    let mut i: usize = 0;
    proof {
        assert(adv_views(out@) =~= adv_views(out@) + Seq::<AdvisoryView>::empty());
    }
    while i < n
        invariant
            n == value@.len(),
            0 <= i <= n,
            adv_views(old(out)@) + pct_scan(attribute@, value@, comp, 0) == adv_views(out@)
                + pct_scan(attribute@, value@, comp, i as int),
        decreases n - i,
    {
        let c = value.get_char(i);
        if c == '%' {
            let first_hex = i + 1 < n && is_ascii_hexdigit(value.get_char(i + 1));
            if first_hex {
                let second_hex = i + 2 < n && is_ascii_hexdigit(value.get_char(i + 2));
                if second_hex {
                    i = i + 3;
                } else {
                    out.push(
                        Advisory::MalformedPercentEncoding {
                            attribute: String::from_str(attribute),
                            value: String::from_str(value),
                            offset: i,
                        },
                    );
                    proof {
                        lemma_adv_views_push(out@.drop_last(), out@.last());
                        assert(adv_views(out@) + pct_scan(attribute@, value@, comp, i + 2)
                            =~= adv_views(out@.drop_last()) + pct_scan(
                            attribute@,
                            value@,
                            comp,
                            i as int,
                        ));
                    }
                    i = i + 2;
                }
            } else {
                out.push(
                    Advisory::MalformedPercentEncoding {
                        attribute: String::from_str(attribute),
                        value: String::from_str(value),
                        offset: i,
                    },
                );
                proof {
                    lemma_adv_views_push(out@.drop_last(), out@.last());
                    assert(adv_views(out@) + pct_scan(attribute@, value@, comp, i + 1)
                        =~= adv_views(out@.drop_last()) + pct_scan(
                        attribute@,
                        value@,
                        comp,
                        i as int,
                    ));
                }
                i = i + 1;
            }
        } else if is_scan_allowed(c, comp) {
            i = i + 1;
        } else {
            out.push(
                Advisory::SuggestPercentEncoding {
                    attribute: String::from_str(attribute),
                    value: String::from_str(value),
                    offset: i,
                    character: c,
                },
            );
            proof {
                lemma_adv_views_push(out@.drop_last(), out@.last());
                assert(adv_views(out@) + pct_scan(attribute@, value@, comp, i + 1)
                    =~= adv_views(out@.drop_last()) + pct_scan(
                    attribute@,
                    value@,
                    comp,
                    i as int,
                ));
            }
            i = i + 1;
        }
    }
    proof {
        assert(adv_views(out@) + pct_scan(attribute@, value@, comp, i as int) =~= adv_views(
            out@,
        ));
    }
}

/// Whether the value is wholly percent-encoded.
pub fn check_wholly_percent_encoded(value: &str) -> (r: bool)
    ensures
        r == wholly_percent_encoded(value@),
{
    let n = value.unicode_len();
    if n < 3 || n % 3 != 0 {
        return false;
    }
    let chunks = n / 3;
    let mut k: usize = 0;
    while k < chunks
        invariant
            n == value@.len(),
            n % 3 == 0,
            n >= 3,
            chunks == n / 3,
            0 <= k <= chunks,
            forall|q: int| 0 <= q < k ==> #[trigger] pct_chunk_ok(value@, q),
        decreases chunks - k,
    {
        let ok = value.get_char(3 * k) == '%' && {
            let h1 = value.get_char(3 * k + 1);
            let h2 = value.get_char(3 * k + 2);
            is_ascii_hexdigit(h1) && is_ascii_hexdigit(h2)
        };
        if !ok {
            proof {
                assert(!pct_chunk_ok(value@, k as int));
            }
            return false;
        }
        proof {
            assert(pct_chunk_ok(value@, k as int));
        }
        k = k + 1;
    }
    proof {
        assert(value@.len() / 3 == chunks as int);
        assert(wholly_percent_encoded(value@));
    }
    true
}

/// Whether the `module-name` value looks like a path or filename.
pub fn check_module_name_not_bare(value: &str) -> (r: bool)
    ensures
        r == module_name_not_bare(value@),
{
    starts_with(value, "lib") || crate::strutil::contains_char(value, '.')
        || crate::strutil::contains_char(value, '/') || crate::strutil::contains_char(
        value,
        '\\',
    )
}

/// Collect the advisories of one path component into the sink.
pub(crate) fn path_fragment_advisories(frag: &str, out: &mut Vec<Advisory>)
    ensures
        adv_views(final(out)@) == adv_views(old(out)@) + frag_advisories(
            frag@,
            Component::Path,
        ),
{
    let ghost base = adv_views(out@);
    let n = frag.unicode_len();
    match find_char_from(frag, '=', 0) {
        None => {
            proof {
                lemma_find_in_none(frag@, '=');
                assert(adv_views(out@) =~= base + frag_advisories(frag@, Component::Path));
            }
        },
        Some(eq) => {
            proof {
                lemma_find_in_from_witness(frag@, '=', eq as int);
            }
            let name = trim(frag.substring_char(0, eq));
            let value = trim(frag.substring_char(eq + 1, n));
            match crate::pk11_pattr::classify(name) {
                Err(_) => {
                    proof {
                        assert(adv_views(out@) =~= base + frag_advisories(
                            frag@,
                            Component::Path,
                        ));
                    }
                },
                Ok(attr) => {
                    if let PK11PAttr::VAttr(va) = &attr {
                        if starts_with(va.0, "x-") {
                            out.push(
                                Advisory::DeprecatedXPrefix { name: String::from_str(name) },
                            );
                            proof {
                                lemma_adv_views_push(out@.drop_last(), out@.last());
                            }
                        }
                    }
                    match attr {
                        PK11PAttr::Id => {
                            if !check_wholly_percent_encoded(value) {
                                out.push(
                                    Advisory::IdValueNotFullyEncoded {
                                        value: String::from_str(value),
                                    },
                                );
                                proof {
                                    lemma_adv_views_push(out@.drop_last(), out@.last());
                                }
                            }
                        },
                        PK11PAttr::Type | PK11PAttr::LibraryVersion | PK11PAttr::SlotId => {},
                        _ => {
                            proof {
                                assert(name@ == kind_name(attr.kind()));
                            }
                            scan_value(name, value, Component::Path, out);
                        },
                    }
                    proof {
                        assert(adv_views(out@) =~= base + frag_advisories(
                            frag@,
                            Component::Path,
                        ));
                    }
                },
            }
        },
    }
}

/// Collect the advisories of one query component into the sink.
pub(crate) fn query_fragment_advisories(frag: &str, out: &mut Vec<Advisory>)
    ensures
        adv_views(final(out)@) == adv_views(old(out)@) + frag_advisories(
            frag@,
            Component::Query,
        ),
{
    let ghost base = adv_views(out@);
    let n = frag.unicode_len();
    match find_char_from(frag, '=', 0) {
        None => {
            proof {
                lemma_find_in_none(frag@, '=');
                assert(adv_views(out@) =~= base + frag_advisories(frag@, Component::Query));
            }
        },
        Some(eq) => {
            proof {
                lemma_find_in_from_witness(frag@, '=', eq as int);
            }
            let name = trim(frag.substring_char(0, eq));
            let value = trim(frag.substring_char(eq + 1, n));
            match crate::pk11_qattr::classify(name) {
                Err(_) => {
                    proof {
                        assert(adv_views(out@) =~= base + frag_advisories(
                            frag@,
                            Component::Query,
                        ));
                    }
                },
                Ok(attr) => {
                    if let PK11QAttr::VAttr(va) = &attr {
                        if starts_with(va.0, "x-") {
                            out.push(
                                Advisory::DeprecatedXPrefix { name: String::from_str(name) },
                            );
                            proof {
                                lemma_adv_views_push(out@.drop_last(), out@.last());
                            }
                        }
                    }
                    if let PK11QAttr::ModuleName = &attr {
                        if check_module_name_not_bare(value) {
                            out.push(
                                Advisory::ModuleNameNotBare { value: String::from_str(value) },
                            );
                            proof {
                                lemma_adv_views_push(out@.drop_last(), out@.last());
                            }
                        }
                    }
                    proof {
                        assert(name@ == kind_name(attr.kind()));
                    }
                    scan_value(name, value, Component::Query, out);
                    proof {
                        assert(adv_views(out@) =~= base + frag_advisories(
                            frag@,
                            Component::Query,
                        ));
                    }
                },
            }
        },
    }
}

/// The advisories of a whole parse, in report order: path components,
/// query components, then the discouraged attribute pairs.  A parse
/// that fails reports none (the error dominates).
pub open spec fn advisories_spec(input: Seq<char>) -> Seq<AdvisoryView> {
    match parse_spec(input) {
        Outcome::Failure(_) => Seq::empty(),
        Outcome::Success(m) => {
            let path = path_region(input);
            let path_adv = if path.len() == 0 {
                Seq::<AdvisoryView>::empty()
            } else {
                frags_advisories(split_seq(path, ';'), 0, Component::Path)
            };
            let query = query_region(input);
            let query_present = find_in(input, '?') is Some;
            let query_adv = if query_present && query.len() > 0 {
                frags_advisories(split_seq(query, '&'), 0, Component::Query)
            } else {
                Seq::<AdvisoryView>::empty()
            };
            let pair_adv = if query_present {
                (if m.module_name is Some && m.module_path_ is Some {
                    seq![AdvisoryView::ModuleNameAndPathBothUsed]
                } else {
                    Seq::<AdvisoryView>::empty()
                }) + (if m.pin_source is Some && m.pin_value is Some {
                    seq![AdvisoryView::PinSourceAndPinValueBothUsed]
                } else {
                    Seq::<AdvisoryView>::empty()
                })
            } else {
                Seq::<AdvisoryView>::empty()
            };
            path_adv + query_adv + pair_adv
        },
    }
}

} // verus!
