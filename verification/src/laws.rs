//! Laws the parser obeys, stated over the functional model and proved
//! once for all inputs.
//!
//! Together with the accessor contracts on `PK11URIMapping`, the lemmas
//! here say: for every input the grammar accepts, each standard
//! attribute's accessor returns exactly the (trimmed) substring that
//! followed its `=` in its component.

use vstd::prelude::*;

use crate::model::{classify_spec, empty_mapping, fold_from, frag_spec, parse_spec,
    path_region, path_standard, query_region, query_standard, scheme_seq, AttrKind,
    Classified, Component, FoldOut, FragOut, MappingView, Outcome};
use crate::strutil::{find_in, is_prefix_of, split_seq, trim_seq};

verus! {

/// One successful component assignment never disturbs a standard slot
/// that is already filled: a second assignment to it would be rejected
/// as a duplicate, and every other assignment touches other state.
proof fn lemma_frag_preserves_filled(
    frag: Seq<char>,
    comp: Component,
    m: MappingView,
    m2: MappingView,
    k: AttrKind,
    v: Seq<char>,
)
    requires
        frag_spec(frag, comp, m) == FragOut::Applied(m2),
        !(k matches AttrKind::Vendor(_)),
        m.slot(k) == Some(v),
    ensures
        m2.slot(k) == Some(v),
{
}

/// Processing further components preserves a filled standard slot.
proof fn lemma_fold_preserves_filled(
    frags: Seq<Seq<char>>,
    j: int,
    comp: Component,
    m0: MappingView,
    m: MappingView,
    k: AttrKind,
    v: Seq<char>,
)
    requires
        fold_from(frags, j, comp, m0) == FoldOut::Done(m),
        !(k matches AttrKind::Vendor(_)),
        m0.slot(k) == Some(v),
    ensures
        m.slot(k) == Some(v),
    decreases frags.len() - j,
{
    if 0 <= j < frags.len() {
        match frag_spec(frags[j], comp, m0) {
            FragOut::Applied(m1) => {
                lemma_frag_preserves_filled(frags[j], comp, m0, m1, k, v);
                lemma_fold_preserves_filled(frags, j + 1, comp, m1, m, k, v);
            },
            FragOut::Rejected(_) => {},
        }
    }
}

/// In a component list that processes to completion, every component
/// holds an `=`.
proof fn lemma_fold_components_have_eq(
    frags: Seq<Seq<char>>,
    j: int,
    i: int,
    comp: Component,
    m0: MappingView,
    m: MappingView,
)
    requires
        fold_from(frags, j, comp, m0) == FoldOut::Done(m),
        0 <= j <= i < frags.len(),
    ensures
        find_in(frags[i], '=') is Some,
    decreases i - j,
{
    match frag_spec(frags[j], comp, m0) {
        FragOut::Applied(m1) => {
            if j < i {
                lemma_fold_components_have_eq(frags, j + 1, i, comp, m1, m);
            }
        },
        FragOut::Rejected(_) => {},
    }
}

/// In a component list that processes to completion, a component whose
/// name classifies as the standard attribute `k` leaves exactly its
/// trimmed value in `k`'s slot of the final mapping.
proof fn lemma_fold_records(
    frags: Seq<Seq<char>>,
    j: int,
    i: int,
    comp: Component,
    m0: MappingView,
    m: MappingView,
    e: int,
    k: AttrKind,
)
    requires
        fold_from(frags, j, comp, m0) == FoldOut::Done(m),
        0 <= j <= i < frags.len(),
        find_in(frags[i], '=') == Some(e),
        classify_spec(trim_seq(frags[i].subrange(0, e)), comp) == Classified::Kind(k),
        !(k matches AttrKind::Vendor(_)),
    ensures
        m.slot(k) == Some(trim_seq(frags[i].subrange(e + 1, frags[i].len() as int))),
    decreases i - j,
{
    let value = trim_seq(frags[i].subrange(e + 1, frags[i].len() as int));
    match frag_spec(frags[j], comp, m0) {
        FragOut::Applied(m1) => {
            if j == i {
                assert(m1.slot(k) == Some(value));
                lemma_fold_preserves_filled(frags, j + 1, comp, m1, m, k, value);
            } else {
                lemma_fold_records(frags, j + 1, i, comp, m1, m, e, k);
            }
        },
        FragOut::Rejected(_) => {},
    }
}

/// A successful parse passed the scheme check.
proof fn lemma_success_has_scheme(input: Seq<char>, m: MappingView)
    requires
        parse_spec(input) == Outcome::Success(m),
    ensures
        is_prefix_of(scheme_seq(), input),
{
}

/// For every input the grammar accepts, each path component holds an
/// `=`.
pub proof fn lemma_parse_path_component_well_formed(input: Seq<char>, m: MappingView, i: int)
    requires
        parse_spec(input) == Outcome::Success(m),
        path_region(input).len() > 0,
        0 <= i < split_seq(path_region(input), ';').len(),
    ensures
        find_in(split_seq(path_region(input), ';')[i], '=') is Some,
{
    lemma_success_has_scheme(input, m);
    let frags = split_seq(path_region(input), ';');
    match fold_from(frags, 0, Component::Path, empty_mapping()) {
        FoldOut::Done(m1) => {
            lemma_fold_components_have_eq(frags, 0, i, Component::Path, empty_mapping(), m1);
        },
        FoldOut::Fail(_, _) => {},
    }
}

/// For every input the grammar accepts, a path component whose trimmed
/// name spells the standard path attribute `k` leaves exactly its
/// trimmed value in `k`'s slot of the returned mapping: the accessor for
/// `k` returns precisely the substring that followed the component's `=`.
pub proof fn lemma_parse_standard_path_value(
    input: Seq<char>,
    m: MappingView,
    i: int,
    e: int,
    k: AttrKind,
)
    requires
        parse_spec(input) == Outcome::Success(m),
        path_region(input).len() > 0,
        0 <= i < split_seq(path_region(input), ';').len(),
        find_in(split_seq(path_region(input), ';')[i], '=') == Some(e),
        path_standard(trim_seq(split_seq(path_region(input), ';')[i].subrange(0, e)))
            == Some(k),
    ensures
        m.slot(k) == Some(
            trim_seq(
                split_seq(path_region(input), ';')[i].subrange(
                    e + 1,
                    split_seq(path_region(input), ';')[i].len() as int,
                ),
            ),
        ),
{
    lemma_success_has_scheme(input, m);
    let frags = split_seq(path_region(input), ';');
    let value = trim_seq(frags[i].subrange(e + 1, frags[i].len() as int));
    match fold_from(frags, 0, Component::Path, empty_mapping()) {
        FoldOut::Done(m1) => {
            lemma_fold_records(frags, 0, i, Component::Path, empty_mapping(), m1, e, k);
            assert(m1.slot(k) == Some(value));
            match find_in(input, '?') {
                None => {},
                Some(q) => {
                    let query = query_region(input);
                    if query.len() > 0 {
                        match fold_from(split_seq(query, '&'), 0, Component::Query, m1) {
                            FoldOut::Done(m2) => {
                                lemma_fold_preserves_filled(
                                    split_seq(query, '&'),
                                    0,
                                    Component::Query,
                                    m1,
                                    m2,
                                    k,
                                    value,
                                );
                            },
                            FoldOut::Fail(_, _) => {},
                        }
                    }
                },
            }
        },
        FoldOut::Fail(_, _) => {},
    }
}

/// For every input the grammar accepts, a query component whose trimmed
/// name spells the standard query attribute `k` leaves exactly its
/// trimmed value in `k`'s slot of the returned mapping.
pub proof fn lemma_parse_standard_query_value(
    input: Seq<char>,
    m: MappingView,
    i: int,
    e: int,
    k: AttrKind,
)
    requires
        parse_spec(input) == Outcome::Success(m),
        query_region(input).len() > 0,
        find_in(input, '?') is Some,
        0 <= i < split_seq(query_region(input), '&').len(),
        find_in(split_seq(query_region(input), '&')[i], '=') == Some(e),
        query_standard(trim_seq(split_seq(query_region(input), '&')[i].subrange(0, e)))
            == Some(k),
    ensures
        m.slot(k) == Some(
            trim_seq(
                split_seq(query_region(input), '&')[i].subrange(
                    e + 1,
                    split_seq(query_region(input), '&')[i].len() as int,
                ),
            ),
        ),
{
    lemma_success_has_scheme(input, m);
    let path = path_region(input);
    let qfrags = split_seq(query_region(input), '&');
    let path_out = if path.len() == 0 {
        FoldOut::Done(empty_mapping())
    } else {
        fold_from(split_seq(path, ';'), 0, Component::Path, empty_mapping())
    };
    match path_out {
        FoldOut::Done(m1) => {
            match fold_from(qfrags, 0, Component::Query, m1) {
                FoldOut::Done(m2) => {
                    lemma_fold_records(qfrags, 0, i, Component::Query, m1, m2, e, k);
                },
                FoldOut::Fail(_, _) => {},
            }
        },
        FoldOut::Fail(_, _) => {},
    }
}

} // verus!
