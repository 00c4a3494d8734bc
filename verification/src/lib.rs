//! Parsing and validation of PKCS#11 URIs following RFC 7512.
//!
//! The entry point is [`parse`], which checks the scheme, splits the
//! identifier into its path and query components, classifies every
//! `name=value` fragment against the standard attribute vocabulary (with a
//! vendor-specific fallback), validates each value, and accumulates the
//! results into a [`PK11URIMapping`].  The first violation aborts the parse
//! and is reported as a [`PK11URIError`] carrying an exact character span
//! into the whitespace-normalized input.

pub mod advisory;
pub mod common;
pub mod laws;
pub mod model;
pub mod pk11_pattr;
pub mod pk11_qattr;
pub mod strutil;

use vstd::prelude::*;

use crate::advisory::{adv_views, advisories_spec, frags_advisories, Advisory};
use crate::common::ValidationErr;
use crate::model::{empty_mapping, fold_from, help_text, lemma_vendor_idx_from_witness,
    lemma_vendor_idx_none, locate_spec, parse_spec, path_region, query_base, query_region,
    scheme_seq, vendor_idx, vendor_lookup, violation_text, AttrKind, Component, ErrorView,
    FoldOut, MappingView, Outcome};
use crate::strutil::{find_char_from, find_first, is_prefix_of, lemma_find_in_from_witness,
    lemma_find_in_none, lemma_find_sub_bounds, lemma_nth_in_bounds, lemma_split_fragment_len,
    lemma_tidy_add, lemma_tidy_len_le, lemma_tidy_no_char, split_seq, split_str, starts_with,
    tidy, tidy_seq, views_of};

verus! {

/// One vendor-specific attribute with its ordered values.
#[derive(Debug, Clone)]
pub(crate) struct VendorEntry<'a> {
    pub(crate) name: &'a str,
    pub(crate) values: Vec<&'a str>,
}

/// The view of an `Option`al stored value.
pub open spec fn opt_view(o: Option<&str>) -> Option<Seq<char>> {
    match o {
        Some(s) => Some(s@),
        None => None,
    }
}

/// Encapsulates the result of successfully [parsing][parse] a PKCS#11
/// URI: at most one value per standard path or query attribute, and an
/// ordered list of values per vendor-specific attribute name.
#[derive(Debug, Clone)]
pub struct PK11URIMapping<'a> {
    // pk11-pattr:
    pub(crate) token: Option<&'a str>,
    pub(crate) manufacturer: Option<&'a str>,
    pub(crate) serial: Option<&'a str>,
    pub(crate) model: Option<&'a str>,
    pub(crate) library_manufacturer: Option<&'a str>,
    pub(crate) library_version: Option<&'a str>,
    pub(crate) library_description: Option<&'a str>,
    pub(crate) object: Option<&'a str>,
    pub(crate) type_: Option<&'a str>,
    pub(crate) id: Option<&'a str>,
    pub(crate) slot_description: Option<&'a str>,
    pub(crate) slot_manufacturer: Option<&'a str>,
    pub(crate) slot_id: Option<&'a str>,
    // pk11-qattr:
    pub(crate) pin_source: Option<&'a str>,
    pub(crate) pin_value: Option<&'a str>,
    pub(crate) module_name: Option<&'a str>,
    pub(crate) module_path_: Option<&'a str>,
    // vendor-specific:
    pub(crate) vendor: Vec<VendorEntry<'a>>,
}

impl<'a> View for PK11URIMapping<'a> {
    type V = MappingView;

    closed spec fn view(&self) -> MappingView {
        MappingView {
            token: opt_view(self.token),
            manufacturer: opt_view(self.manufacturer),
            serial: opt_view(self.serial),
            model: opt_view(self.model),
            library_manufacturer: opt_view(self.library_manufacturer),
            library_version: opt_view(self.library_version),
            library_description: opt_view(self.library_description),
            object: opt_view(self.object),
            type_: opt_view(self.type_),
            id: opt_view(self.id),
            slot_description: opt_view(self.slot_description),
            slot_manufacturer: opt_view(self.slot_manufacturer),
            slot_id: opt_view(self.slot_id),
            pin_source: opt_view(self.pin_source),
            pin_value: opt_view(self.pin_value),
            module_name: opt_view(self.module_name),
            module_path_: opt_view(self.module_path_),
            vendor: self.vendor@.map_values(|e: VendorEntry<'a>| (e.name@, e.values.deep_view())),
        }
    }
}

impl<'a> Default for PK11URIMapping<'a> {
    /// The mapping with every standard attribute absent and an empty
    /// vendor table.
    fn default() -> (m: Self)
        ensures
            m@ == empty_mapping(),
    {
        let m = PK11URIMapping {
            token: None,
            manufacturer: None,
            serial: None,
            model: None,
            library_manufacturer: None,
            library_version: None,
            library_description: None,
            object: None,
            type_: None,
            id: None,
            slot_description: None,
            slot_manufacturer: None,
            slot_id: None,
            pin_source: None,
            pin_value: None,
            module_name: None,
            module_path_: None,
            vendor: Vec::new(),
        };
        proof {
            assert(m@ =~= empty_mapping());
        }
        m
    }
}

impl<'a> PK11URIMapping<'a> {
    /// Retrieve the value of the `token` path attribute if one was parsed.
    pub fn token(&self) -> (r: Option<&str>)
        ensures
            match r {
                Some(s) => self@.token == Some(s@),
                None => self@.token is None,
            },
    {
        self.token
    }

    /// Retrieve the value of the `manufacturer` path attribute if one was parsed.
    pub fn manufacturer(&self) -> (r: Option<&str>)
        ensures
            match r {
                Some(s) => self@.manufacturer == Some(s@),
                None => self@.manufacturer is None,
            },
    {
        self.manufacturer
    }

    /// Retrieve the value of the `serial` path attribute if one was parsed.
    pub fn serial(&self) -> (r: Option<&str>)
        ensures
            match r {
                Some(s) => self@.serial == Some(s@),
                None => self@.serial is None,
            },
    {
        self.serial
    }

    /// Retrieve the value of the `model` path attribute if one was parsed.
    pub fn model(&self) -> (r: Option<&str>)
        ensures
            match r {
                Some(s) => self@.model == Some(s@),
                None => self@.model is None,
            },
    {
        self.model
    }

    /// Retrieve the value of the `library-manufacturer` path attribute if one was parsed.
    pub fn library_manufacturer(&self) -> (r: Option<&str>)
        ensures
            match r {
                Some(s) => self@.library_manufacturer == Some(s@),
                None => self@.library_manufacturer is None,
            },
    {
        self.library_manufacturer
    }

    /// Retrieve the value of the `library-version` path attribute if one was parsed.
    pub fn library_version(&self) -> (r: Option<&str>)
        ensures
            match r {
                Some(s) => self@.library_version == Some(s@),
                None => self@.library_version is None,
            },
    {
        self.library_version
    }

    /// Retrieve the value of the `library-description` path attribute if one was parsed.
    pub fn library_description(&self) -> (r: Option<&str>)
        ensures
            match r {
                Some(s) => self@.library_description == Some(s@),
                None => self@.library_description is None,
            },
    {
        self.library_description
    }

    /// Retrieve the value of the `object` path attribute if one was parsed.
    pub fn object(&self) -> (r: Option<&str>)
        ensures
            match r {
                Some(s) => self@.object == Some(s@),
                None => self@.object is None,
            },
    {
        self.object
    }

    /// Retrieve the value of the `type` path attribute if one was parsed.
    pub fn type_(&self) -> (r: Option<&str>)
        ensures
            match r {
                Some(s) => self@.type_ == Some(s@),
                None => self@.type_ is None,
            },
    {
        self.type_
    }

    /// Retrieve the value of the `id` path attribute if one was parsed.
    pub fn id(&self) -> (r: Option<&str>)
        ensures
            match r {
                Some(s) => self@.id == Some(s@),
                None => self@.id is None,
            },
    {
        self.id
    }

    /// Retrieve the value of the `slot-description` path attribute if one was parsed.
    pub fn slot_description(&self) -> (r: Option<&str>)
        ensures
            match r {
                Some(s) => self@.slot_description == Some(s@),
                None => self@.slot_description is None,
            },
    {
        self.slot_description
    }

    /// Retrieve the value of the `slot-manufacturer` path attribute if one was parsed.
    pub fn slot_manufacturer(&self) -> (r: Option<&str>)
        ensures
            match r {
                Some(s) => self@.slot_manufacturer == Some(s@),
                None => self@.slot_manufacturer is None,
            },
    {
        self.slot_manufacturer
    }

    /// Retrieve the value of the `slot-id` path attribute if one was parsed.
    pub fn slot_id(&self) -> (r: Option<&str>)
        ensures
            match r {
                Some(s) => self@.slot_id == Some(s@),
                None => self@.slot_id is None,
            },
    {
        self.slot_id
    }

    /// Retrieve the value of the `pin-source` query attribute if one was parsed.
    pub fn pin_source(&self) -> (r: Option<&str>)
        ensures
            match r {
                Some(s) => self@.pin_source == Some(s@),
                None => self@.pin_source is None,
            },
    {
        self.pin_source
    }

    /// Retrieve the value of the `pin-value` query attribute if one was parsed.
    pub fn pin_value(&self) -> (r: Option<&str>)
        ensures
            match r {
                Some(s) => self@.pin_value == Some(s@),
                None => self@.pin_value is None,
            },
    {
        self.pin_value
    }

    /// Retrieve the value of the `module-name` query attribute if one was parsed.
    pub fn module_name(&self) -> (r: Option<&str>)
        ensures
            match r {
                Some(s) => self@.module_name == Some(s@),
                None => self@.module_name is None,
            },
    {
        self.module_name
    }

    /// Retrieve the value of the `module-path` query attribute if one was parsed.
    pub fn module_path_(&self) -> (r: Option<&str>)
        ensures
            match r {
                Some(s) => self@.module_path_ == Some(s@),
                None => self@.module_path_ is None,
            },
    {
        self.module_path_
    }

    /// Retrieve the ordered values recorded for the *vendor-specific*
    /// attribute `vendor_attr`, if any were parsed.
    pub fn vendor(&self, vendor_attr: &str) -> (r: Option<&Vec<&'a str>>)
        ensures
            match r {
                Some(values) => vendor_lookup(self@.vendor, vendor_attr@) == Some(
                    values.deep_view(),
                ),
                None => vendor_lookup(self@.vendor, vendor_attr@) is None,
            },
    {
        match self.vendor_index(vendor_attr) {
            Some(i) => Some(&self.vendor[i].values),
            None => None,
        }
    }
}

impl<'a> PK11URIMapping<'a> {
    /// Fill a standard attribute's slot if it is still empty; report
    /// whether it was.  `k` is the ghost kind the slot stores, passed so
    /// the contract can speak of the model's slot operations.
    #[verifier::inline]
    pub open spec fn slot_assign_post(
        self,
        prior: PK11URIMapping<'a>,
        k: AttrKind,
        value: Seq<char>,
        r: bool,
    ) -> bool {
        &&& r == (prior@.slot(k) is None)
        &&& (r ==> self@ == prior@.with_slot(k, value))
        &&& (!r ==> self@ == prior@)
    }

    pub(crate) fn assign_token(&mut self, value: &'a str) -> (r: bool)
        ensures
            final(self).slot_assign_post(*old(self), AttrKind::Token, value@, r),
    {
        if self.token.is_none() {
            self.token = Some(value);
            proof {
                assert(self@ =~= old(self)@.with_slot(AttrKind::Token, value@));
            }
            true
        } else {
            false
        }
    }

    pub(crate) fn assign_manufacturer(&mut self, value: &'a str) -> (r: bool)
        ensures
            final(self).slot_assign_post(*old(self), AttrKind::Manufacturer, value@, r),
    {
        if self.manufacturer.is_none() {
            self.manufacturer = Some(value);
            proof {
                assert(self@ =~= old(self)@.with_slot(AttrKind::Manufacturer, value@));
            }
            true
        } else {
            false
        }
    }

    pub(crate) fn assign_serial(&mut self, value: &'a str) -> (r: bool)
        ensures
            final(self).slot_assign_post(*old(self), AttrKind::Serial, value@, r),
    {
        if self.serial.is_none() {
            self.serial = Some(value);
            proof {
                assert(self@ =~= old(self)@.with_slot(AttrKind::Serial, value@));
            }
            true
        } else {
            false
        }
    }

    pub(crate) fn assign_model(&mut self, value: &'a str) -> (r: bool)
        ensures
            final(self).slot_assign_post(*old(self), AttrKind::Model, value@, r),
    {
        if self.model.is_none() {
            self.model = Some(value);
            proof {
                assert(self@ =~= old(self)@.with_slot(AttrKind::Model, value@));
            }
            true
        } else {
            false
        }
    }

    pub(crate) fn assign_library_manufacturer(&mut self, value: &'a str) -> (r: bool)
        ensures
            final(self).slot_assign_post(
                *old(self),
                AttrKind::LibraryManufacturer,
                value@,
                r,
            ),
    {
        if self.library_manufacturer.is_none() {
            self.library_manufacturer = Some(value);
            proof {
                assert(self@ =~= old(self)@.with_slot(AttrKind::LibraryManufacturer, value@));
            }
            true
        } else {
            false
        }
    }

    pub(crate) fn assign_library_version(&mut self, value: &'a str) -> (r: bool)
        ensures
            final(self).slot_assign_post(*old(self), AttrKind::LibraryVersion, value@, r),
    {
        if self.library_version.is_none() {
            self.library_version = Some(value);
            proof {
                assert(self@ =~= old(self)@.with_slot(AttrKind::LibraryVersion, value@));
            }
            true
        } else {
            false
        }
    }

    pub(crate) fn assign_library_description(&mut self, value: &'a str) -> (r: bool)
        ensures
            final(self).slot_assign_post(
                *old(self),
                AttrKind::LibraryDescription,
                value@,
                r,
            ),
    {
        if self.library_description.is_none() {
            self.library_description = Some(value);
            proof {
                assert(self@ =~= old(self)@.with_slot(AttrKind::LibraryDescription, value@));
            }
            true
        } else {
            false
        }
    }

    pub(crate) fn assign_object(&mut self, value: &'a str) -> (r: bool)
        ensures
            final(self).slot_assign_post(*old(self), AttrKind::Object, value@, r),
    {
        if self.object.is_none() {
            self.object = Some(value);
            proof {
                assert(self@ =~= old(self)@.with_slot(AttrKind::Object, value@));
            }
            true
        } else {
            false
        }
    }

    pub(crate) fn assign_type(&mut self, value: &'a str) -> (r: bool)
        ensures
            final(self).slot_assign_post(*old(self), AttrKind::Type, value@, r),
    {
        if self.type_.is_none() {
            self.type_ = Some(value);
            proof {
                assert(self@ =~= old(self)@.with_slot(AttrKind::Type, value@));
            }
            true
        } else {
            false
        }
    }

    pub(crate) fn assign_id(&mut self, value: &'a str) -> (r: bool)
        ensures
            final(self).slot_assign_post(*old(self), AttrKind::Id, value@, r),
    {
        if self.id.is_none() {
            self.id = Some(value);
            proof {
                assert(self@ =~= old(self)@.with_slot(AttrKind::Id, value@));
            }
            true
        } else {
            false
        }
    }

    pub(crate) fn assign_slot_description(&mut self, value: &'a str) -> (r: bool)
        ensures
            final(self).slot_assign_post(*old(self), AttrKind::SlotDescription, value@, r),
    {
        if self.slot_description.is_none() {
            self.slot_description = Some(value);
            proof {
                assert(self@ =~= old(self)@.with_slot(AttrKind::SlotDescription, value@));
            }
            true
        } else {
            false
        }
    }

    pub(crate) fn assign_slot_manufacturer(&mut self, value: &'a str) -> (r: bool)
        ensures
            final(self).slot_assign_post(
                *old(self),
                AttrKind::SlotManufacturer,
                value@,
                r,
            ),
    {
        if self.slot_manufacturer.is_none() {
            self.slot_manufacturer = Some(value);
            proof {
                assert(self@ =~= old(self)@.with_slot(AttrKind::SlotManufacturer, value@));
            }
            true
        } else {
            false
        }
    }

    pub(crate) fn assign_slot_id(&mut self, value: &'a str) -> (r: bool)
        ensures
            final(self).slot_assign_post(*old(self), AttrKind::SlotId, value@, r),
    {
        if self.slot_id.is_none() {
            self.slot_id = Some(value);
            proof {
                assert(self@ =~= old(self)@.with_slot(AttrKind::SlotId, value@));
            }
            true
        } else {
            false
        }
    }

    pub(crate) fn assign_pin_source(&mut self, value: &'a str) -> (r: bool)
        ensures
            final(self).slot_assign_post(*old(self), AttrKind::PinSource, value@, r),
    {
        if self.pin_source.is_none() {
            self.pin_source = Some(value);
            proof {
                assert(self@ =~= old(self)@.with_slot(AttrKind::PinSource, value@));
            }
            true
        } else {
            false
        }
    }

    pub(crate) fn assign_pin_value(&mut self, value: &'a str) -> (r: bool)
        ensures
            final(self).slot_assign_post(*old(self), AttrKind::PinValue, value@, r),
    {
        if self.pin_value.is_none() {
            self.pin_value = Some(value);
            proof {
                assert(self@ =~= old(self)@.with_slot(AttrKind::PinValue, value@));
            }
            true
        } else {
            false
        }
    }

    pub(crate) fn assign_module_name(&mut self, value: &'a str) -> (r: bool)
        ensures
            final(self).slot_assign_post(*old(self), AttrKind::ModuleName, value@, r),
    {
        if self.module_name.is_none() {
            self.module_name = Some(value);
            proof {
                assert(self@ =~= old(self)@.with_slot(AttrKind::ModuleName, value@));
            }
            true
        } else {
            false
        }
    }

    pub(crate) fn assign_module_path(&mut self, value: &'a str) -> (r: bool)
        ensures
            final(self).slot_assign_post(*old(self), AttrKind::ModulePath, value@, r),
    {
        if self.module_path_.is_none() {
            self.module_path_ = Some(value);
            proof {
                assert(self@ =~= old(self)@.with_slot(AttrKind::ModulePath, value@));
            }
            true
        } else {
            false
        }
    }

    /// First index of a vendor entry with the given name, mirroring the
    /// model's `vendor_idx`.
    pub(crate) fn vendor_index(&self, name: &str) -> (r: Option<usize>)
        ensures
            match r {
                Some(i) => i < self.vendor@.len() && vendor_idx(self@.vendor, name@) == Some(
                    i as int,
                ),
                None => vendor_idx(self@.vendor, name@) is None,
            },
    {
        let ghost pairs = self@.vendor;
        let n = self.vendor.len();
        let mut i: usize = 0;
        while i < n
            invariant
                n == self.vendor.len(),
                pairs == self@.vendor,
                pairs.len() == n,
                forall|k: int| 0 <= k < n ==> #[trigger] pairs[k]
                    == (self.vendor[k].name@, self.vendor[k].values.deep_view()),
                0 <= i <= n,
                forall|k: int| 0 <= k < i ==> (#[trigger] pairs[k]).0 != name@,
            decreases n - i,
        {
            if crate::strutil::str_eq(self.vendor[i].name, name) {
                proof {
                    lemma_vendor_idx_from_witness(pairs, name@, i as int);
                }
                return Some(i);
            }
            i = i + 1;
        }
        proof {
            lemma_vendor_idx_none(pairs, name@);
        }
        None
    }

    /// Record the first value for a vendor attribute name with no entry
    /// yet.
    pub(crate) fn vendor_push(&mut self, name: &'a str, value: &'a str)
        ensures
            final(self)@ == (MappingView {
                vendor: old(self)@.vendor.push((name@, seq![value@])),
                ..old(self)@
            }),
    {
        let mut values: Vec<&'a str> = Vec::new();
        values.push(value);
        let entry = VendorEntry { name, values };
        self.vendor.push(entry);
        proof {
            let f = |e: VendorEntry<'a>| (e.name@, e.values.deep_view());
            let prior = old(self)@.vendor;
            assert(self.vendor@.map_values(f).len() == prior.len() + 1);
            assert forall|k: int| 0 <= k < prior.len() + 1 implies #[trigger] self.vendor@
                .map_values(f)[k] == prior.push((name@, seq![value@]))[k] by {
                if k < prior.len() {
                    assert(self.vendor@[k] == old(self).vendor@[k]);
                } else {
                    assert(self.vendor@[k].values.deep_view() =~= seq![value@]);
                }
            }
            assert(self.vendor@.map_values(f) =~= prior.push((name@, seq![value@])));
            assert(self@ =~= (MappingView {
                vendor: old(self)@.vendor.push((name@, seq![value@])),
                ..old(self)@
            }));
        }
    }

    /// Append a further value to the vendor entry at index `i`, which
    /// bears the given name.
    pub(crate) fn vendor_append(&mut self, i: usize, value: &'a str)
        requires
            i < old(self).vendor@.len(),
        ensures
            final(self)@ == (MappingView {
                vendor: old(self)@.vendor.update(
                    i as int,
                    (old(self)@.vendor[i as int].0, old(self)@.vendor[i as int].1.push(value@)),
                ),
                ..old(self)@
            }),
    {
        let ghost prior_entry = old(self).vendor@[i as int];
        let mut entry = self.vendor.remove(i);
        entry.values.push(value);
        self.vendor.insert(i, entry);
        proof {
            let f = |e: VendorEntry<'a>| (e.name@, e.values.deep_view());
            let prior = old(self)@.vendor;
            let updated = prior.update(
                i as int,
                (prior[i as int].0, prior[i as int].1.push(value@)),
            );
            assert(self.vendor@ == old(self).vendor@.remove(i as int).insert(
                i as int,
                entry,
            ));
            assert(entry.name@ == prior_entry.name@);
            assert(entry.values.deep_view() =~= prior_entry.values.deep_view().push(
                value@,
            ));
            assert forall|k: int| 0 <= k < prior.len() implies #[trigger] self.vendor@
                .map_values(f)[k] == updated[k] by {
                if k < i {
                    assert(self.vendor@[k] == old(self).vendor@[k]);
                } else if k == i {
                    assert(self.vendor@[k] == entry);
                } else {
                    assert(self.vendor@[k] == old(self).vendor@[k]);
                }
            }
            assert(self.vendor@.map_values(f) =~= updated);
            assert(self@ =~= (MappingView { vendor: updated, ..old(self)@ }));
        }
    }
}

/// Issued when [parsing][parse] a PKCS#11 URI is found to be in violation
/// of the RFC 7512 specification.
///
/// The included `pk11_uri` is a "tidied" version of the one provided to
/// the `parse` function: any newline or tab formatting has been stripped
/// out in order to accurately identify the `error_span` within the URI.
/// The `violation` refers to the RFC 7512 augmented BNF whenever possible,
/// while the `help` value provides a more human-friendly suggestion for
/// correcting the violation.
#[derive(Debug)]
pub struct PK11URIError {
    /// The tidied URI identified as violating RFC 7512.
    pub pk11_uri: String,
    /// The start and end character offsets of the error.
    pub error_span: (usize, usize),
    /// The ABNF or RFC 7512 text exhibiting the issue.
    pub violation: String,
    /// Human-friendly suggestion of how to resolve the issue.
    pub help: String,
}

/// `n` copies of the character `c` (none for a negative `n`).
pub open spec fn repeat_char(c: char, n: int) -> Seq<char> {
    Seq::new(
        if n >= 0 {
            n as nat
        } else {
            0
        },
        |i: int| c,
    )
}

impl PK11URIError {
    /// Whether this error reports the positioned violation `e` for the
    /// given input.
    pub open spec fn reports(self, input: Seq<char>, e: ErrorView) -> bool {
        &&& self.pk11_uri@ == tidy_seq(input)
        &&& self.error_span.0 as int == e.start
        &&& self.error_span.1 as int == e.end
        &&& self.violation@ == violation_text(e.violation)
        &&& self.help@ == help_text(e.violation)
    }

    /// The rendered report: the tidied URI, a caret line aligned to the
    /// error span (at least one caret, even for an empty span), the
    /// violation, and the help text.
    pub open spec fn render_model(self) -> Seq<char> {
        let padding = self.error_span.0 as int;
        let highlight = self.error_span.1 - self.error_span.0;
        self.pk11_uri@ + "\n"@ + repeat_char(' ', padding) + repeat_char(
            '^',
            if highlight >= 1 {
                highlight as int
            } else {
                1
            },
        ) + " "@ + self.violation@ + "\n\nhelp: "@ + self.help@
    }

    /// Render the report: the tidied URI on one line, and beneath it a
    /// caret underline highlighting the error span, followed by the
    /// violation and the corrective suggestion.
    pub fn render(&self) -> (r: String)
        requires
            self.error_span.0 <= self.error_span.1,
        ensures
            r@ == self.render_model(),
    {
        let padding = self.error_span.0;
        let highlight = self.error_span.1 - self.error_span.0;
        let mut out = String::from_str(self.pk11_uri.as_str());
        out.append("\n");
        let mut i: usize = 0;
        while i < padding
            invariant
                0 <= i <= padding,
                out@ == self.pk11_uri@ + "\n"@ + repeat_char(' ', i as int),
            decreases padding - i,
        {
            out.append(" ");
            proof {
                reveal_strlit(" ");
                assert(" "@ =~= seq![' ']);
                assert(out@ =~= self.pk11_uri@ + "\n"@ + repeat_char(' ', i + 1 as int));
            }
            i = i + 1;
        }
        let carets = if highlight >= 1 {
            highlight
        } else {
            1
        };
        let ghost before = out@;
        let mut j: usize = 0;
        while j < carets
            invariant
                0 <= j <= carets,
                out@ == before + repeat_char('^', j as int),
            decreases carets - j,
        {
            out.append("^");
            proof {
                reveal_strlit("^");
                assert("^"@ =~= seq!['^']);
                assert(out@ =~= before + repeat_char('^', j + 1 as int));
            }
            j = j + 1;
        }
        out.append(" ");
        out.append(self.violation.as_str());
        out.append("\n\nhelp: ");
        out.append(self.help.as_str());
        proof {
            assert(out@ =~= self.render_model());
        }
        out
    }
}

/// Position a rejected path component's violation within the tidied
/// input: locate the tidied component inside the tidied path region, or,
/// when the component tidied to nothing, locate the misplaced `;`.
fn position_path_error(
    pk11_uri: &str,
    pk11_path: &str,
    pk11_pattr: &str,
    count: usize,
    e: ValidationErr,
    Ghost(path_end): Ghost<int>,
) -> (r: PK11URIError)
    requires
        e.wf(),
        is_prefix_of(scheme_seq(), pk11_uri@),
        scheme_seq().len() <= path_end <= pk11_uri@.len(),
        pk11_path@ == pk11_uri@.subrange(scheme_seq().len() as int, path_end),
        pk11_pattr@.len() <= pk11_path@.len(),
    ensures
        r.reports(
            pk11_uri@,
            locate_spec(
                pk11_path@,
                pk11_pattr@,
                count as int,
                e.model@,
                ';',
                Component::Path,
                scheme_seq().len() as int,
            ),
        ),
{
    let nu = pk11_uri.unicode_len();
    let tidy_uri = tidy(pk11_uri);
    let tidy_path = tidy(pk11_path);
    let tidy_frag = tidy(pk11_pattr);
    proof {
        reveal_strlit("pkcs11:");
        assert(scheme_seq().len() == 7);
        lemma_tidy_len_le(pk11_path@);
        lemma_tidy_len_le(pk11_pattr@);
        assert(pk11_path@.len() <= nu - 7);
    }
    let tfn = tidy_frag.as_str().unicode_len();
    if tfn > 0 {
        let off = match find_first(tidy_path.as_str(), tidy_frag.as_str()) {
            Some(j) => j,
            None => 0,
        };
        proof {
            lemma_find_sub_bounds(tidy_path@, tidy_frag@);
            assert(off + tfn <= pk11_path@.len());
        }
        let start = 7 + off;
        PK11URIError {
            pk11_uri: tidy_uri,
            error_span: (start, start + tfn),
            violation: e.violation,
            help: e.help,
        }
    } else {
        let off = crate::strutil::find_empty_attr_index(tidy_path.as_str(), count, ';');
        proof {
            lemma_nth_in_bounds(tidy_path@, ';', count as int);
            assert(off as int <= pk11_path@.len());
        }
        let start = 7 + off;
        PK11URIError {
            pk11_uri: tidy_uri,
            error_span: (start, start),
            violation: String::from_str("Misplaced path delimiter."),
            help: String::from_str("Remove the misplaced ';' delimiter."),
        }
    }
}

/// Position a rejected query component's violation within the tidied
/// input: like the path case, but offsets are measured from just past
/// the `?` in the tidied input, and the delimiter is `&`.
fn position_query_error(
    pk11_uri: &str,
    pk11_query: &str,
    pk11_qattr: &str,
    count: usize,
    e: ValidationErr,
    Ghost(q): Ghost<int>,
) -> (r: PK11URIError)
    requires
        e.wf(),
        0 <= q < pk11_uri@.len(),
        pk11_uri@[q] == '?',
        forall|k: int| 0 <= k < q ==> #[trigger] pk11_uri@[k] != '?',
        pk11_query@ == pk11_uri@.subrange(q + 1, pk11_uri@.len() as int),
        pk11_qattr@.len() <= pk11_query@.len(),
    ensures
        r.reports(
            pk11_uri@,
            locate_spec(
                pk11_query@,
                pk11_qattr@,
                count as int,
                e.model@,
                '&',
                Component::Query,
                query_base(pk11_uri@),
            ),
        ),
{
    let nu = pk11_uri.unicode_len();
    let tidy_uri = tidy(pk11_uri);
    let tidy_query = tidy(pk11_query);
    let tidy_frag = tidy(pk11_qattr);
    proof {
        let pre = pk11_uri@.subrange(0, q);
        let suf = pk11_uri@.subrange(q + 1, pk11_uri@.len() as int);
        assert(pk11_uri@ =~= (pre + seq!['?']) + suf);
        lemma_tidy_add(pre + seq!['?'], suf);
        lemma_tidy_add(pre, seq!['?']);
        assert(seq!['?'].drop_last() =~= Seq::<char>::empty());
        assert(tidy_seq(Seq::<char>::empty()) =~= Seq::<char>::empty());
        assert(tidy_seq(seq!['?']) =~= seq!['?']);
        assert(tidy_seq(pk11_uri@) == (tidy_seq(pre) + seq!['?']) + tidy_seq(suf));
        lemma_tidy_no_char(pre, '?');
        let tp = tidy_seq(pre).len() as int;
        assert(tidy_seq(pk11_uri@)[tp] == '?');
        assert forall|k: int| 0 <= k < tp implies #[trigger] tidy_seq(pk11_uri@)[k] != '?' by {
            assert(tidy_seq(pk11_uri@)[k] == tidy_seq(pre)[k]);
        }
        lemma_find_in_from_witness(tidy_seq(pk11_uri@), '?', tp);
        assert(query_base(pk11_uri@) == tp + 1);
        assert(tidy_uri@[tp] == '?');
        assert(tidy_seq(pk11_uri@).len() == tp + 1 + tidy_seq(pk11_query@).len());
        lemma_tidy_len_le(pre);
        lemma_tidy_len_le(pk11_query@);
        lemma_tidy_len_le(pk11_qattr@);
        lemma_tidy_len_le(pk11_uri@);
    }
    let qt = match find_char_from(tidy_uri.as_str(), '?', 0) {
        Some(j) => j,
        None => 0,
    };
    proof {
        crate::strutil::lemma_find_in_characterization(tidy_uri@, '?');
        assert(qt as int == query_base(pk11_uri@) - 1);
        assert(qt + 1 + tidy_query@.len() <= nu);
    }
    let base = qt + 1;
    let tfn = tidy_frag.as_str().unicode_len();
    if tfn > 0 {
        let off = match find_first(tidy_query.as_str(), tidy_frag.as_str()) {
            Some(j) => j,
            None => 0,
        };
        proof {
            lemma_find_sub_bounds(tidy_query@, tidy_frag@);
            assert(off + tfn <= pk11_query@.len());
        }
        let start = base + off;
        PK11URIError {
            pk11_uri: tidy_uri,
            error_span: (start, start + tfn),
            violation: e.violation,
            help: e.help,
        }
    } else {
        let off = crate::strutil::find_empty_attr_index(tidy_query.as_str(), count, '&');
        proof {
            lemma_nth_in_bounds(tidy_query@, '&', count as int);
            assert(off as int <= tidy_query@.len());
        }
        let start = base + off;
        PK11URIError {
            pk11_uri: tidy_uri,
            error_span: (start, start),
            violation: String::from_str("Misplaced query delimiter."),
            help: String::from_str("Remove the misplaced '&' delimiter."),
        }
    }
}

/// Parses and verifies the contents of the given `pk11_uri` string,
/// making parsed values available through a [`PK11URIMapping`].  The
/// mapping's contents are string slices of `pk11_uri`, so the mapping
/// lives no longer than the input it borrows from.
/// Violations of the RFC 7512 specification result in a [`PK11URIError`]
/// positioning the first violation within the tidied input.
///
/// The outcome is exactly the one described by
/// [`parse_spec`](crate::model::parse_spec): the mapping's contents, or
/// the error's span and texts, are pinned down by that model.
pub fn parse<'a>(pk11_uri: &'a str) -> (r: Result<PK11URIMapping<'a>, PK11URIError>)
    ensures
        match r {
            Ok(m) => parse_spec(pk11_uri@) == Outcome::Success(m@),
            Err(e) => parse_spec(pk11_uri@) matches Outcome::Failure(ev) && e.reports(
                pk11_uri@,
                ev,
            ),
        },
{
    let n = pk11_uri.unicode_len();
    if !starts_with(pk11_uri, "pkcs11:") {
        return Err(
            PK11URIError {
                pk11_uri: tidy(pk11_uri),
                error_span: (0, 0),
                violation: String::from_str(
                    "Invalid `pk11-URI`: expected `\"pkcs11:\" pk11-path [ \"?\" pk11-query ]`.",
                ),
                help: String::from_str("PKCS#11 URI must start with `pkcs11:`."),
            },
        );
    }
    proof {
        reveal_strlit("pkcs11:");
        assert(scheme_seq().len() == 7);
    }
    let mut mapping = PK11URIMapping::default();
    let qidx = find_char_from(pk11_uri, '?', 0);
    let path_end = match qidx {
        Some(q) => q,
        None => n,
    };
    proof {
        match qidx {
            Some(q) => {
                assert forall|k: int| 0 <= k < 7 implies #[trigger] pk11_uri@[k] != '?' by {
                    assert(pk11_uri@.subrange(0, 7)[k] == scheme_seq()[k]);
                }
                assert(q >= 7);
                lemma_find_in_from_witness(pk11_uri@, '?', q as int);
            },
            None => {
                lemma_find_in_none(pk11_uri@, '?');
            },
        }
    }
    let pk11_path = pk11_uri.substring_char(7, path_end);
    let ghost fseq = split_seq(pk11_path@, ';');
    if pk11_path.unicode_len() > 0 {
        let frags = split_str(pk11_path, ';');
        let mut i: usize = 0;
        while i < frags.len()
            invariant
                n == pk11_uri@.len(),
                is_prefix_of(scheme_seq(), pk11_uri@),
                scheme_seq().len() == 7,
                7 <= path_end <= n,
                pk11_path@ == pk11_uri@.subrange(7, path_end as int),
                pk11_path@.len() > 0,
                match qidx {
                    Some(q) => q == path_end && q < n && crate::strutil::find_in(
                        pk11_uri@,
                        '?',
                    ) == Some(q as int) && pk11_uri@[q as int] == '?' && forall|k: int|
                        0 <= k < q ==> #[trigger] pk11_uri@[k] != '?',
                    None => path_end == n && crate::strutil::find_in(pk11_uri@, '?')
                        is None,
                },
                fseq == split_seq(pk11_path@, ';'),
                views_of(frags@) == fseq,
                frags@.len() == fseq.len(),
                0 <= i <= frags@.len(),
                fold_from(fseq, 0, Component::Path, empty_mapping()) == fold_from(
                    fseq,
                    i as int,
                    Component::Path,
                    mapping@,
                ),
            decreases frags@.len() - i,
        {
            let frag = frags[i];
            proof {
                assert(frag@ == fseq[i as int]);
            }
            match pk11_pattr::assign(frag, &mut mapping) {
                Ok(_) => {
                    i = i + 1;
                },
                Err(e) => {
                    proof {
                        assert(fold_from(fseq, 0, Component::Path, empty_mapping())
                            == FoldOut::Fail(i as int, e.model@));
                        lemma_split_fragment_len(pk11_path@, ';', i as int);
                    }
                    return Err(
                        position_path_error(
                            pk11_uri,
                            pk11_path,
                            frag,
                            i,
                            e,
                            Ghost(path_end as int),
                        ),
                    );
                },
            }
        }
    }
    let ghost mapping_after_path = mapping@;
    proof {
        if pk11_path@.len() == 0 {
            assert(mapping_after_path == empty_mapping());
        } else {
            assert(fold_from(fseq, 0, Component::Path, empty_mapping()) == FoldOut::Done(
                mapping_after_path,
            ));
        }
    }
    if let Some(q) = qidx {
        if q + 1 < n {
            let pk11_query = pk11_uri.substring_char(q + 1, n);
            let ghost qseq = split_seq(pk11_query@, '&');
            let frags = split_str(pk11_query, '&');
            let mut i: usize = 0;
            while i < frags.len()
                invariant
                    n == pk11_uri@.len(),
                    is_prefix_of(scheme_seq(), pk11_uri@),
                    scheme_seq().len() == 7,
                    7 <= q < n,
                    crate::strutil::find_in(pk11_uri@, '?') == Some(q as int),
                    pk11_uri@[q as int] == '?',
                    forall|k: int| 0 <= k < q ==> #[trigger] pk11_uri@[k] != '?',
                    pk11_path@ == pk11_uri@.subrange(7, q as int),
                    fseq == split_seq(pk11_path@, ';'),
                    if pk11_path@.len() == 0 {
                        mapping_after_path == empty_mapping()
                    } else {
                        fold_from(fseq, 0, Component::Path, empty_mapping())
                            == FoldOut::Done(mapping_after_path)
                    },
                    q + 1 < n,
                    pk11_query@ == pk11_uri@.subrange(q + 1 as int, n as int),
                    pk11_query@.len() > 0,
                    qseq == split_seq(pk11_query@, '&'),
                    views_of(frags@) == qseq,
                    frags@.len() == qseq.len(),
                    0 <= i <= frags@.len(),
                    fold_from(qseq, 0, Component::Query, mapping_after_path) == fold_from(
                        qseq,
                        i as int,
                        Component::Query,
                        mapping@,
                    ),
                decreases frags@.len() - i,
            {
                let frag = frags[i];
                proof {
                    assert(frag@ == qseq[i as int]);
                }
                match pk11_qattr::assign(frag, &mut mapping) {
                    Ok(_) => {
                        i = i + 1;
                    },
                    Err(e) => {
                        proof {
                            assert(fold_from(qseq, 0, Component::Query, mapping_after_path)
                                == FoldOut::Fail(i as int, e.model@));
                            lemma_split_fragment_len(pk11_query@, '&', i as int);
                        }
                        return Err(
                            position_query_error(
                                pk11_uri,
                                pk11_query,
                                frag,
                                i,
                                e,
                                Ghost(q as int),
                            ),
                        );
                    },
                }
            }
            proof {
                assert(fold_from(qseq, 0, Component::Query, mapping_after_path)
                    == FoldOut::Done(mapping@));
            }
        }
    }
    Ok(mapping)
}

/// Like [`parse`], but additionally appends to `diagnostics` one
/// [`Advisory`] per advisory ("SHOULD"-level) rule the input does not
/// follow.  Advisory rule breaches never affect the outcome: the parse
/// result is exactly the one `parse` returns, and a failed parse
/// appends nothing (the error dominates).
pub fn parse_with_diagnostics<'a>(pk11_uri: &'a str, diagnostics: &mut Vec<Advisory>) -> (r:
    Result<PK11URIMapping<'a>, PK11URIError>)
    ensures
        match r {
            Ok(m) => parse_spec(pk11_uri@) == Outcome::Success(m@),
            Err(e) => parse_spec(pk11_uri@) matches Outcome::Failure(ev) && e.reports(
                pk11_uri@,
                ev,
            ),
        },
        r is Ok ==> adv_views(final(diagnostics)@) == adv_views(old(diagnostics)@)
            + advisories_spec(pk11_uri@),
        r is Err ==> *final(diagnostics) == *old(diagnostics),
{
    let ghost base = adv_views(diagnostics@);
    let mapping = match parse(pk11_uri) {
        Err(e) => {
            return Err(e);
        },
        Ok(mapping) => mapping,
    };
    proof {
        reveal_strlit("pkcs11:");
        assert(is_prefix_of(scheme_seq(), pk11_uri@));
        assert(scheme_seq().len() == 7);
    }
    let n = pk11_uri.unicode_len();
    let qidx = find_char_from(pk11_uri, '?', 0);
    let path_end = match qidx {
        Some(q) => q,
        None => n,
    };
    proof {
        match qidx {
            Some(q) => {
                assert forall|k: int| 0 <= k < 7 implies #[trigger] pk11_uri@[k] != '?' by {
                    assert(pk11_uri@.subrange(0, 7)[k] == scheme_seq()[k]);
                }
                assert(q >= 7);
                lemma_find_in_from_witness(pk11_uri@, '?', q as int);
            },
            None => {
                lemma_find_in_none(pk11_uri@, '?');
            },
        }
    }
    let pk11_path = pk11_uri.substring_char(7, path_end);
    let ghost fseq = split_seq(pk11_path@, ';');
    let ghost path_adv = if pk11_path@.len() == 0 {
        Seq::<crate::advisory::AdvisoryView>::empty()
    } else {
        frags_advisories(fseq, 0, model::Component::Path)
    };
    if pk11_path.unicode_len() > 0 {
        let frags = split_str(pk11_path, ';');
        let mut i: usize = 0;
        while i < frags.len()
            invariant
                fseq == split_seq(pk11_path@, ';'),
                views_of(frags@) == fseq,
                frags@.len() == fseq.len(),
                0 <= i <= frags@.len(),
                adv_views(diagnostics@) + frags_advisories(
                    fseq,
                    i as int,
                    model::Component::Path,
                ) == base + frags_advisories(fseq, 0, model::Component::Path),
            decreases frags@.len() - i,
        {
            let frag = frags[i];
            proof {
                assert(frag@ == fseq[i as int]);
            }
            crate::advisory::path_fragment_advisories(frag, diagnostics);
            proof {
                assert(adv_views(diagnostics@) + frags_advisories(
                    fseq,
                    i + 1 as int,
                    model::Component::Path,
                ) =~= base + frags_advisories(fseq, 0, model::Component::Path));
            }
            i = i + 1;
        }
    }
    proof {
        assert(adv_views(diagnostics@) =~= base + path_adv);
    }
    if let Some(q) = qidx {
        let ghost mid = adv_views(diagnostics@);
        if q + 1 < n {
            let pk11_query = pk11_uri.substring_char(q + 1, n);
            let ghost qseq = split_seq(pk11_query@, '&');
            let frags = split_str(pk11_query, '&');
            let mut i: usize = 0;
            while i < frags.len()
                invariant
                    qseq == split_seq(pk11_query@, '&'),
                    views_of(frags@) == qseq,
                    frags@.len() == qseq.len(),
                    0 <= i <= frags@.len(),
                    adv_views(diagnostics@) + frags_advisories(
                        qseq,
                        i as int,
                        model::Component::Query,
                    ) == mid + frags_advisories(qseq, 0, model::Component::Query),
                decreases frags@.len() - i,
            {
                let frag = frags[i];
                proof {
                    assert(frag@ == qseq[i as int]);
                }
                crate::advisory::query_fragment_advisories(frag, diagnostics);
                proof {
                    assert(adv_views(diagnostics@) + frags_advisories(
                        qseq,
                        i + 1 as int,
                        model::Component::Query,
                    ) =~= mid + frags_advisories(qseq, 0, model::Component::Query));
                }
                i = i + 1;
            }
            proof {
                assert(pk11_query@ == query_region(pk11_uri@));
                assert(adv_views(diagnostics@) =~= mid + frags_advisories(
                    qseq,
                    0,
                    model::Component::Query,
                ));
            }
        } else {
            proof {
                assert(query_region(pk11_uri@).len() == 0);
            }
        }
        if mapping.module_name().is_some() && mapping.module_path_().is_some() {
            diagnostics.push(Advisory::ModuleNameAndPathBothUsed);
            proof {
                crate::advisory::lemma_adv_views_push(
                    diagnostics@.drop_last(),
                    diagnostics@.last(),
                );
            }
        }
        if mapping.pin_source().is_some() && mapping.pin_value().is_some() {
            diagnostics.push(Advisory::PinSourceAndPinValueBothUsed);
            proof {
                crate::advisory::lemma_adv_views_push(
                    diagnostics@.drop_last(),
                    diagnostics@.last(),
                );
            }
        }
        proof {
            let input = pk11_uri@;
            let m = mapping@;
            let query_adv = if query_region(input).len() > 0 {
                frags_advisories(
                    split_seq(query_region(input), '&'),
                    0,
                    model::Component::Query,
                )
            } else {
                Seq::<crate::advisory::AdvisoryView>::empty()
            };
            let pa = if m.module_name is Some && m.module_path_ is Some {
                seq![crate::advisory::AdvisoryView::ModuleNameAndPathBothUsed]
            } else {
                Seq::<crate::advisory::AdvisoryView>::empty()
            };
            let pb = if m.pin_source is Some && m.pin_value is Some {
                seq![crate::advisory::AdvisoryView::PinSourceAndPinValueBothUsed]
            } else {
                Seq::<crate::advisory::AdvisoryView>::empty()
            };
            assert(pk11_path@ == path_region(input));
            assert(advisories_spec(input) =~= path_adv + query_adv + (pa + pb));
            assert(adv_views(diagnostics@) =~= ((mid + query_adv) + pa) + pb);
            assert(adv_views(diagnostics@) =~= base + advisories_spec(input));
        }
    } else {
        proof {
            let input = pk11_uri@;
            assert(pk11_path@ == path_region(input));
            assert(advisories_spec(input) =~= path_adv);
            assert(adv_views(diagnostics@) =~= base + advisories_spec(input));
        }
    }
    Ok(mapping)
}

} // verus!
