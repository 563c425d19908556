//! How a field type uses a name: directly, or only to carry it in a marker.
//!
//! The answer is read off the way the type is written, not off what it
//! means. A name that ends a path counts as a use of the parameter of that
//! name, whatever module the path goes through, and a wrapper called
//! `PhantomData` counts as the marker, whoever declared it.

use vstd::prelude::*;
use crate::record::{views, FieldDecl, FieldModel};
use crate::types::{
    get_generic_inner_type, is_text, steps_of, terminal_ident, terms_of, wrapped_in, Segment,
    SegmentTerm, TypeExpr, TypeTerm,
};

verus! {

/// A segment that only carries its one argument as a type, without a value
/// of it.
pub open spec fn is_marker(seg: SegmentTerm) -> bool {
    seg.ident == "PhantomData"@ && seg.args.len() == 1
}

/// Whether `t` uses the name `p`: `t` itself ends in `p`, or a type among its
/// generic arguments or parts does, at any depth. `shielded` says whether `t`
/// stands as the one argument of a marker. With `want` false, only the uses
/// outside a marker count; with `want` true, only those directly inside one.
pub open spec fn names(t: TypeTerm, p: Seq<char>, shielded: bool, want: bool) -> bool
    decreases t,
{
    match t {
        TypeTerm::Named { global, segments } => (shielded == want && terminal_ident(t) == Some(p))
            || exists|i: int, k: int|
            #![trigger segments[i].args[k]]
            0 <= i < segments.len() && 0 <= k < segments[i].args.len() && names(
                segments[i].args[k],
                p,
                is_marker(segments[i]),
                want,
            ),
        TypeTerm::Other { text, parts } => exists|k: int|
            #![trigger parts[k]]
            0 <= k < parts.len() && names(parts[k], p, false, want),
    }
}

/// Whether a generic argument of one of `segments` uses the name `p`.
pub open spec fn names_in_segments(segments: Seq<SegmentTerm>, p: Seq<char>, want: bool) -> bool {
    exists|i: int, k: int|
        #![trigger segments[i].args[k]]
        0 <= i < segments.len() && 0 <= k < segments[i].args.len() && names(
            segments[i].args[k],
            p,
            is_marker(segments[i]),
            want,
        )
}

/// Whether one of `ts` uses the name `p`.
pub open spec fn names_among(ts: Seq<TypeTerm>, p: Seq<char>, shielded: bool, want: bool) -> bool {
    exists|k: int| #![trigger ts[k]] 0 <= k < ts.len() && names(ts[k], p, shielded, want)
}

/// The name that a marker carries: `t` is `PhantomData<X>`, and `X` ends in
/// that name.
pub open spec fn carried_by(t: TypeTerm) -> Option<Seq<char>> {
    match wrapped_in(t, "PhantomData"@) {
        Some(inner) => terminal_ident(inner),
        None => None,
    }
}

/// Whether a field uses the parameter `p` directly: outside any marker.
pub open spec fn uses_directly(fields: Seq<FieldModel>, p: Seq<char>) -> bool {
    exists|i: int| #![trigger fields[i]] 0 <= i < fields.len() && names(fields[i].ty, p, false, false)
}

/// Whether a field carries the parameter `p` in a marker.
pub open spec fn uses_as_marker(fields: Seq<FieldModel>, p: Seq<char>) -> bool {
    exists|i: int| #![trigger fields[i]] 0 <= i < fields.len() && names(fields[i].ty, p, false, true)
}

/// A type that ends in `p` uses `p` directly.
pub proof fn law_ending_is_direct_use(t: TypeTerm, p: Seq<char>)
    requires
        terminal_ident(t) == Some(p),
    ensures
        names(t, p, false, false),
{
}

/// A marker that carries `p` uses `p` as a marker.
pub proof fn law_carried_is_marker_use(t: TypeTerm, p: Seq<char>)
    requires
        carried_by(t) == Some(p),
    ensures
        names(t, p, false, true),
{
    reveal_with_fuel(names, 2);
    let segments = t->Named_segments;
    let i = segments.len() - 1;
    assert(is_marker(segments[i]));
    assert(names(segments[i].args[0], p, true, true));
}

/// The name that the type of a field ends in.
pub fn get_field_type_name(field: &FieldDecl) -> (r: Option<String>)
    ensures
        match r {
            Some(s) => terminal_ident(field@.ty) == Some(s@),
            None => terminal_ident(field@.ty) is None,
        },
{
    match field.ty.ending() {
        Some(s) => Some(s.clone()),
        None => None,
    }
}

/// The name that a field carries in a marker, if its type is
/// `PhantomData<..>`.
pub fn get_phantomdata_generic_type_name(field: &FieldDecl) -> (r: Option<String>)
    ensures
        match r {
            Some(s) => carried_by(field@.ty) == Some(s@),
            None => carried_by(field@.ty) is None,
        },
{
    match get_generic_inner_type(&field.ty, "PhantomData") {
        Some(inner) => match inner.ending() {
            Some(s) => Some(s.clone()),
            None => None,
        },
        None => None,
    }
}

/// Whether `t` uses the name `p`; see [`names`].
pub fn mentions(t: &TypeExpr, p: &String, shielded: bool, want: bool) -> (r: bool)
    ensures
        r == names(t@, p@, shielded, want),
    decreases t,
{
    match t {
        TypeExpr::Named { global, segments } => {
            if shielded == want {
                match t.ending() {
                    Some(n) => {
                        if *n == *p {
                            return true;
                        }
                    },
                    None => {},
                }
            }
            mentions_in_segments(segments, p, want)
        },
        TypeExpr::Other { text, parts } => mentions_among(parts, p, false, want),
    }
}

/// Whether a generic argument of one of `segments` uses the name `p`.
pub fn mentions_in_segments(segments: &Vec<Segment>, p: &String, want: bool) -> (r: bool)
    ensures
        r == names_in_segments(steps_of(segments@), p@, want),
    decreases segments,
{
    let mut i: usize = 0;
    while i < segments.len()
        invariant
            i <= segments.len(),
            forall|a: int, k: int|
                #![trigger steps_of(segments@)[a].args[k]]
                0 <= a < i && 0 <= k < steps_of(segments@)[a].args.len() ==> !names(
                    steps_of(segments@)[a].args[k],
                    p@,
                    is_marker(steps_of(segments@)[a]),
                    want,
                ),
        decreases segments.len() - i,
    {
        let seg = &segments[i];
        assert(steps_of(segments@)[i as int] == seg@);
        let shield = is_text(&seg.ident, "PhantomData") && seg.args.len() == 1;
        assert(shield == is_marker(seg@));
        if mentions_among(&seg.args, p, shield, want) {
            proof {
                let k = choose|k: int|
                    #![trigger terms_of(seg.args@)[k]]
                    0 <= k < terms_of(seg.args@).len() && names(
                        terms_of(seg.args@)[k],
                        p@,
                        shield,
                        want,
                    );
                assert(names(
                    steps_of(segments@)[i as int].args[k],
                    p@,
                    is_marker(steps_of(segments@)[i as int]),
                    want,
                ));
            }
            return true;
        }
        i += 1;
    }
    false
}

/// Whether one of `ts` uses the name `p`.
pub fn mentions_among(ts: &Vec<TypeExpr>, p: &String, shielded: bool, want: bool) -> (r: bool)
    ensures
        r == names_among(terms_of(ts@), p@, shielded, want),
    decreases ts,
{
    let mut k: usize = 0;
    while k < ts.len()
        invariant
            k <= ts.len(),
            forall|j: int|
                #![trigger terms_of(ts@)[j]]
                0 <= j < k ==> !names(terms_of(ts@)[j], p@, shielded, want),
        decreases ts.len() - k,
    {
        assert(terms_of(ts@)[k as int] == ts@[k as int]@);
        if mentions(&ts[k], p, shielded, want) {
            assert(names(terms_of(ts@)[k as int], p@, shielded, want));
            return true;
        }
        k += 1;
    }
    false
}

/// Whether a field uses the name `p`, outside a marker (`want` false) or
/// directly inside one (`want` true).
pub fn fields_mention(fields: &Vec<FieldDecl>, p: &String, want: bool) -> (r: bool)
    ensures
        !want ==> r == uses_directly(views(fields@), p@),
        want ==> r == uses_as_marker(views(fields@), p@),
{
    let mut i: usize = 0;
    while i < fields.len()
        invariant
            i <= fields.len(),
            forall|j: int|
                #![trigger views(fields@)[j]]
                0 <= j < i ==> !names(views(fields@)[j].ty, p@, false, want),
        decreases fields.len() - i,
    {
        assert(views(fields@)[i as int] == fields@[i as int]@);
        let at_once = if want {
            get_phantomdata_generic_type_name(&fields[i])
        } else {
            get_field_type_name(&fields[i])
        };
        let found = match at_once {
            Some(name) => name == *p,
            None => false,
        };
        if found {
            proof {
                if want {
                    law_carried_is_marker_use(fields@[i as int]@.ty, p@);
                } else {
                    law_ending_is_direct_use(fields@[i as int]@.ty, p@);
                }
            }
            assert(names(views(fields@)[i as int].ty, p@, false, want));
            return true;
        }
        if mentions(&fields[i].ty, p, false, want) {
            assert(names(views(fields@)[i as int].ty, p@, false, want));
            return true;
        }
        i += 1;
    }
    false
}

} // verus!
