//! Query-component attributes (`pk11-qattr`): classification of the four
//! standard query attribute names, the common value rule, and assignment
//! into the mapping under the query duplicate policy, which lets a
//! vendor-specific name accumulate multiple values.

use vstd::prelude::*;

use crate::common::{classify_vendor_attr, common_validation, err_duplicate_standard,
    err_malformed, ValidationErr, VendorAttribute};
use crate::model::{assign_spec, classify_spec, frag_spec, validate_spec, AttrKind,
    Classified, Component, FragOut};
use crate::strutil::{find_char_from, lemma_find_in_from_witness, lemma_find_in_none, str_eq,
    trim};
use crate::PK11URIMapping;

verus! {

/// A classified query-component attribute: one of the standard query
/// attributes, or a validated vendor-specific attribute.
pub(crate) enum PK11QAttr<'a> {
    PinSource,
    PinValue,
    ModuleName,
    ModulePath,
    VAttr(VendorAttribute<'a>),
}

impl<'a> PK11QAttr<'a> {
    /// The attribute kind this classification stands for.
    pub(crate) open spec fn kind(self) -> AttrKind {
        match self {
            PK11QAttr::PinSource => AttrKind::PinSource,
            PK11QAttr::PinValue => AttrKind::PinValue,
            PK11QAttr::ModuleName => AttrKind::ModuleName,
            PK11QAttr::ModulePath => AttrKind::ModulePath,
            PK11QAttr::VAttr(va) => AttrKind::Vendor(va.0@),
        }
    }

    /// Validate a value against the query rules: every query value must
    /// avoid literal spaces and `#` (the `/` restriction is a path rule).
    pub(crate) fn validate(&self, value: &str) -> (r: Result<(), ValidationErr>)
        ensures
            match r {
                Ok(_) => validate_spec(self.kind(), value@, Component::Query) is None,
                Err(e) => e.wf() && validate_spec(self.kind(), value@, Component::Query)
                    == Some(e.model@),
            },
    {
        if let Some(e) = common_validation(value) {
            return Err(e);
        }
        Ok(())
    }

    /// Assign a validated value into the mapping: standard query
    /// attributes are single-valued, while a vendor name appends to its
    /// ordered value list.
    fn assign(self, value: &'a str, mapping: &mut PK11URIMapping<'a>) -> (r: Result<
        (),
        ValidationErr,
    >)
        ensures
            match r {
                Ok(_) => assign_spec(self.kind(), value@, Component::Query, old(mapping)@)
                    == FragOut::Applied(final(mapping)@),
                Err(e) => final(mapping)@ == old(mapping)@ && e.wf() && assign_spec(
                    self.kind(),
                    value@,
                    Component::Query,
                    old(mapping)@,
                ) == FragOut::Rejected(e.model@),
            },
    {
        match self {
            PK11QAttr::PinSource => {
                if mapping.assign_pin_source(value) {
                    Ok(())
                } else {
                    Err(err_duplicate_standard(Component::Query, "pin-source"))
                }
            },
            PK11QAttr::PinValue => {
                if mapping.assign_pin_value(value) {
                    Ok(())
                } else {
                    Err(err_duplicate_standard(Component::Query, "pin-value"))
                }
            },
            PK11QAttr::ModuleName => {
                if mapping.assign_module_name(value) {
                    Ok(())
                } else {
                    Err(err_duplicate_standard(Component::Query, "module-name"))
                }
            },
            PK11QAttr::ModulePath => {
                if mapping.assign_module_path(value) {
                    Ok(())
                } else {
                    Err(err_duplicate_standard(Component::Query, "module-path"))
                }
            },
            PK11QAttr::VAttr(va) => {
                match mapping.vendor_index(va.0) {
                    None => {
                        mapping.vendor_push(va.0, value);
                    },
                    Some(i) => {
                        mapping.vendor_append(i, value);
                    },
                }
                Ok(())
            },
        }
    }
}

/// Classify a trimmed attribute name found in the query.
pub(crate) fn classify<'a>(name: &'a str) -> (r: Result<PK11QAttr<'a>, ValidationErr>)
    ensures
        match r {
            Ok(a) => classify_spec(name@, Component::Query) == Classified::Kind(a.kind()),
            Err(e) => e.wf() && classify_spec(name@, Component::Query) == Classified::Bad(
                e.model@,
            ),
        },
{
    if str_eq(name, "pin-source") {
        Ok(PK11QAttr::PinSource)
    } else if str_eq(name, "pin-value") {
        Ok(PK11QAttr::PinValue)
    } else if str_eq(name, "module-name") {
        Ok(PK11QAttr::ModuleName)
    } else if str_eq(name, "module-path") {
        Ok(PK11QAttr::ModulePath)
    } else {
        match classify_vendor_attr(name) {
            Ok(va) => Ok(PK11QAttr::VAttr(va)),
            Err(e) => Err(e),
        }
    }
}

/// Process one query component: split it at its first `=`, trim name and
/// value, classify, validate, and assign into the mapping.
pub fn assign<'a>(pk11_qattr: &'a str, mapping: &mut PK11URIMapping<'a>) -> (r: Result<(), ValidationErr>)
    ensures
        match r {
            Ok(_) => frag_spec(pk11_qattr@, Component::Query, old(mapping)@)
                == FragOut::Applied(final(mapping)@),
            Err(e) => final(mapping)@ == old(mapping)@ && e.wf() && frag_spec(
                pk11_qattr@,
                Component::Query,
                old(mapping)@,
            ) == FragOut::Rejected(e.model@),
        },
{
    let n = pk11_qattr.unicode_len();
    match find_char_from(pk11_qattr, '=', 0) {
        None => {
            proof {
                lemma_find_in_none(pk11_qattr@, '=');
            }
            Err(err_malformed())
        },
        Some(eq) => {
            proof {
                lemma_find_in_from_witness(pk11_qattr@, '=', eq as int);
            }
            let name = trim(pk11_qattr.substring_char(0, eq));
            let value = trim(pk11_qattr.substring_char(eq + 1, n));
            match classify(name) {
                Err(e) => Err(e),
                Ok(attr) => {
                    if let Err(e) = attr.validate(value) {
                        return Err(e);
                    }
                    attr.assign(value, mapping)
                },
            }
        },
    }
}

} // verus!
