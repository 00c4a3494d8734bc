//! Path-component attributes (`pk11-pattr`): classification of the
//! thirteen standard path attribute names, their per-attribute value
//! rules, and assignment into the mapping under the path duplicate
//! policy.

use vstd::prelude::*;

use crate::common::{classify_vendor_attr, common_validation, err_duplicate_standard,
    err_duplicate_vendor_in_path, err_library_version_value, err_malformed,
    err_slash_in_path_value, err_slot_id_value, err_type_value, ValidationErr,
    VendorAttribute};
use crate::model::{assign_spec, classify_spec, frag_spec, validate_spec, AttrKind,
    Classified, Component, FragOut};
use crate::strutil::{check_all_digits, check_version, contains_char, find_char_from,
    lemma_find_in_from_witness, lemma_find_in_none, str_eq, trim};
use crate::PK11URIMapping;

verus! {

/// A classified path-component attribute: one of the standard path
/// attributes, or a validated vendor-specific attribute.
pub(crate) enum PK11PAttr<'a> {
    Token,
    Manufacturer,
    Serial,
    Model,
    LibraryManufacturer,
    LibraryVersion,
    LibraryDescription,
    Object,
    Type,
    Id,
    SlotDescription,
    SlotManufacturer,
    SlotId,
    VAttr(VendorAttribute<'a>),
}

impl<'a> PK11PAttr<'a> {
    /// The attribute kind this classification stands for.
    pub(crate) open spec fn kind(self) -> AttrKind {
        match self {
            PK11PAttr::Token => AttrKind::Token,
            PK11PAttr::Manufacturer => AttrKind::Manufacturer,
            PK11PAttr::Serial => AttrKind::Serial,
            PK11PAttr::Model => AttrKind::Model,
            PK11PAttr::LibraryManufacturer => AttrKind::LibraryManufacturer,
            PK11PAttr::LibraryVersion => AttrKind::LibraryVersion,
            PK11PAttr::LibraryDescription => AttrKind::LibraryDescription,
            PK11PAttr::Object => AttrKind::Object,
            PK11PAttr::Type => AttrKind::Type,
            PK11PAttr::Id => AttrKind::Id,
            PK11PAttr::SlotDescription => AttrKind::SlotDescription,
            PK11PAttr::SlotManufacturer => AttrKind::SlotManufacturer,
            PK11PAttr::SlotId => AttrKind::SlotId,
            PK11PAttr::VAttr(va) => AttrKind::Vendor(va.0@),
        }
    }

    /// Validate a value against this attribute's rules: `type`,
    /// `library-version` and `slot-id` have closed formats; every other
    /// path value must avoid literal spaces, `#`, and `/`.
    pub(crate) fn validate(&self, value: &str) -> (r: Result<(), ValidationErr>)
        ensures
            match r {
                Ok(_) => validate_spec(self.kind(), value@, Component::Path) is None,
                Err(e) => e.wf() && validate_spec(self.kind(), value@, Component::Path)
                    == Some(e.model@),
            },
    {
        match self {
            PK11PAttr::Type => {
                if str_eq(value, "public") || str_eq(value, "private") || str_eq(value, "cert")
                    || str_eq(value, "secret-key") || str_eq(value, "data") {
                    Ok(())
                } else {
                    Err(err_type_value(value))
                }
            },
            PK11PAttr::LibraryVersion => {
                if check_version(value) {
                    Ok(())
                } else {
                    Err(err_library_version_value())
                }
            },
            PK11PAttr::SlotId => {
                if check_all_digits(value) {
                    Ok(())
                } else {
                    Err(err_slot_id_value())
                }
            },
            _ => {
                if let Some(e) = common_validation(value) {
                    return Err(e);
                }
                if contains_char(value, '/') {
                    return Err(err_slash_in_path_value(value));
                }
                Ok(())
            },
        }
    }

    /// Assign a validated value into the mapping: standard attributes
    /// and vendor names are single-valued in the path.
    fn assign(self, value: &'a str, mapping: &mut PK11URIMapping<'a>) -> (r: Result<
        (),
        ValidationErr,
    >)
        ensures
            match r {
                Ok(_) => assign_spec(self.kind(), value@, Component::Path, old(mapping)@)
                    == FragOut::Applied(final(mapping)@),
                Err(e) => final(mapping)@ == old(mapping)@ && e.wf() && assign_spec(
                    self.kind(),
                    value@,
                    Component::Path,
                    old(mapping)@,
                ) == FragOut::Rejected(e.model@),
            },
    {
        match self {
            PK11PAttr::Token => {
                if mapping.assign_token(value) {
                    Ok(())
                } else {
                    Err(err_duplicate_standard(Component::Path, "token"))
                }
            },
            PK11PAttr::Manufacturer => {
                if mapping.assign_manufacturer(value) {
                    Ok(())
                } else {
                    Err(err_duplicate_standard(Component::Path, "manufacturer"))
                }
            },
            PK11PAttr::Serial => {
                if mapping.assign_serial(value) {
                    Ok(())
                } else {
                    Err(err_duplicate_standard(Component::Path, "serial"))
                }
            },
            PK11PAttr::Model => {
                if mapping.assign_model(value) {
                    Ok(())
                } else {
                    Err(err_duplicate_standard(Component::Path, "model"))
                }
            },
            PK11PAttr::LibraryManufacturer => {
                if mapping.assign_library_manufacturer(value) {
                    Ok(())
                } else {
                    Err(err_duplicate_standard(Component::Path, "library-manufacturer"))
                }
            },
            PK11PAttr::LibraryVersion => {
                if mapping.assign_library_version(value) {
                    Ok(())
                } else {
                    Err(err_duplicate_standard(Component::Path, "library-version"))
                }
            },
            PK11PAttr::LibraryDescription => {
                if mapping.assign_library_description(value) {
                    Ok(())
                } else {
                    Err(err_duplicate_standard(Component::Path, "library-description"))
                }
            },
            PK11PAttr::Object => {
                if mapping.assign_object(value) {
                    Ok(())
                } else {
                    Err(err_duplicate_standard(Component::Path, "object"))
                }
            },
            PK11PAttr::Type => {
                if mapping.assign_type(value) {
                    Ok(())
                } else {
                    Err(err_duplicate_standard(Component::Path, "type"))
                }
            },
            PK11PAttr::Id => {
                if mapping.assign_id(value) {
                    Ok(())
                } else {
                    Err(err_duplicate_standard(Component::Path, "id"))
                }
            },
            PK11PAttr::SlotDescription => {
                if mapping.assign_slot_description(value) {
                    Ok(())
                } else {
                    Err(err_duplicate_standard(Component::Path, "slot-description"))
                }
            },
            PK11PAttr::SlotManufacturer => {
                if mapping.assign_slot_manufacturer(value) {
                    Ok(())
                } else {
                    Err(err_duplicate_standard(Component::Path, "slot-manufacturer"))
                }
            },
            PK11PAttr::SlotId => {
                if mapping.assign_slot_id(value) {
                    Ok(())
                } else {
                    Err(err_duplicate_standard(Component::Path, "slot-id"))
                }
            },
            PK11PAttr::VAttr(va) => {
                match mapping.vendor_index(va.0) {
                    None => {
                        mapping.vendor_push(va.0, value);
                        Ok(())
                    },
                    Some(_) => Err(err_duplicate_vendor_in_path(va.0)),
                }
            },
        }
    }
}

/// Classify a trimmed attribute name found in the path.
pub(crate) fn classify<'a>(name: &'a str) -> (r: Result<PK11PAttr<'a>, ValidationErr>)
    ensures
        match r {
            Ok(a) => classify_spec(name@, Component::Path) == Classified::Kind(a.kind()),
            Err(e) => e.wf() && classify_spec(name@, Component::Path) == Classified::Bad(
                e.model@,
            ),
        },
{
    if str_eq(name, "token") {
        Ok(PK11PAttr::Token)
    } else if str_eq(name, "manufacturer") {
        Ok(PK11PAttr::Manufacturer)
    } else if str_eq(name, "serial") {
        Ok(PK11PAttr::Serial)
    } else if str_eq(name, "model") {
        Ok(PK11PAttr::Model)
    } else if str_eq(name, "library-manufacturer") {
        Ok(PK11PAttr::LibraryManufacturer)
    } else if str_eq(name, "library-version") {
        Ok(PK11PAttr::LibraryVersion)
    } else if str_eq(name, "library-description") {
        Ok(PK11PAttr::LibraryDescription)
    } else if str_eq(name, "object") {
        Ok(PK11PAttr::Object)
    } else if str_eq(name, "type") {
        Ok(PK11PAttr::Type)
    } else if str_eq(name, "id") {
        Ok(PK11PAttr::Id)
    } else if str_eq(name, "slot-description") {
        Ok(PK11PAttr::SlotDescription)
    } else if str_eq(name, "slot-manufacturer") {
        Ok(PK11PAttr::SlotManufacturer)
    } else if str_eq(name, "slot-id") {
        Ok(PK11PAttr::SlotId)
    } else {
        match classify_vendor_attr(name) {
            Ok(va) => Ok(PK11PAttr::VAttr(va)),
            Err(e) => Err(e),
        }
    }
}

/// Process one path component: split it at its first `=`, trim name and
/// value, classify, validate, and assign into the mapping.
pub fn assign<'a>(pk11_pattr: &'a str, mapping: &mut PK11URIMapping<'a>) -> (r: Result<(), ValidationErr>)
    ensures
        match r {
            Ok(_) => frag_spec(pk11_pattr@, Component::Path, old(mapping)@)
                == FragOut::Applied(final(mapping)@),
            Err(e) => final(mapping)@ == old(mapping)@ && e.wf() && frag_spec(
                pk11_pattr@,
                Component::Path,
                old(mapping)@,
            ) == FragOut::Rejected(e.model@),
        },
{
    let n = pk11_pattr.unicode_len();
    match find_char_from(pk11_pattr, '=', 0) {
        None => {
            proof {
                lemma_find_in_none(pk11_pattr@, '=');
            }
            Err(err_malformed())
        },
        Some(eq) => {
            proof {
                lemma_find_in_from_witness(pk11_pattr@, '=', eq as int);
            }
            let name = trim(pk11_pattr.substring_char(0, eq));
            let value = trim(pk11_pattr.substring_char(eq + 1, n));
            match classify(name) {
                Err(e) => Err(e),
                Ok(attr) => {
                    if let Err(e) = attr.validate(value) {
                        return Err(e);
                    }
                    attr.assign(value, mapping)
                },
            }
        },
    }
}

} // verus!
