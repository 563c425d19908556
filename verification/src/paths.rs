//! Associated-type paths: the types such as `T::Value` that a record's
//! fields reach through its type parameters.

use vstd::prelude::*;
use crate::record::{views, FieldModel, GenericParam, ParamKind, ParamModel, RecordDecl, RecordModel};
use crate::types::{steps_of, terms_of, Segment, SegmentTerm, TypeExpr, TypeTerm};

verus! {

/// Whether `name` is the name of a type parameter among `params`.
pub open spec fn is_type_param(params: Seq<ParamModel>, name: Seq<char>) -> bool {
    exists|i: int|
        #![trigger params[i]]
        0 <= i < params.len() && params[i].kind == ParamKind::Type && params[i].name == name
}

/// The first name of a path of two or more segments.
pub open spec fn root_of(t: TypeTerm) -> Option<Seq<char>> {
    match t {
        TypeTerm::Named { global, segments } => if segments.len() >= 2 {
            Some(segments[0].ident)
        } else {
            None
        },
        TypeTerm::Other { .. } => None,
    }
}

/// An associated-type path: a path of two or more segments that starts at a
/// type parameter, such as `T::Value`.
pub open spec fn rooted(t: TypeTerm, params: Seq<ParamModel>) -> bool {
    match root_of(t) {
        Some(name) => is_type_param(params, name),
        None => false,
    }
}

/// The associated-type paths in `t`, in the order of reading: `t` itself
/// first, then what stands in its generic arguments or parts, left to right.
pub open spec fn paths_in(t: TypeTerm, params: Seq<ParamModel>) -> Seq<TypeTerm>
    decreases t, 0int,
{
    let here = if rooted(t, params) {
        seq![t]
    } else {
        Seq::empty()
    };
    match t {
        TypeTerm::Named { global, segments } => here + paths_in_segments(
            segments,
            params,
            segments.len() as int,
        ),
        TypeTerm::Other { text, parts } => here + paths_among(parts, params, parts.len() as int),
    }
}

/// The associated-type paths in the first `n` of `ts`.
pub open spec fn paths_among(ts: Seq<TypeTerm>, params: Seq<ParamModel>, n: int) -> Seq<TypeTerm>
    decreases ts, n,
{
    if n <= 0 || n > ts.len() {
        Seq::empty()
    } else {
        paths_among(ts, params, n - 1) + paths_in(ts[n - 1], params)
    }
}

/// The associated-type paths in the generic arguments of the first `n` of
/// `segments`.
pub open spec fn paths_in_segments(segments: Seq<SegmentTerm>, params: Seq<ParamModel>, n: int)
    -> Seq<TypeTerm>
    decreases segments, n,
{
    if n <= 0 || n > segments.len() {
        Seq::empty()
    } else {
        paths_in_segments(segments, params, n - 1) + paths_among(
            segments[n - 1].args,
            params,
            segments[n - 1].args.len() as int,
        )
    }
}

/// The associated-type paths in the types of the first `n` fields.
pub open spec fn paths_of_fields(fields: Seq<FieldModel>, params: Seq<ParamModel>, n: int) -> Seq<
    TypeTerm,
>
    decreases n,
{
    if n <= 0 {
        Seq::empty()
    } else {
        paths_of_fields(fields, params, n - 1) + paths_in(fields[n - 1].ty, params)
    }
}

/// The first `n` of `s` without repetitions: of equal items the first stays.
pub open spec fn distinct_upto(s: Seq<TypeTerm>, n: int) -> Seq<TypeTerm>
    decreases n,
{
    if n <= 0 {
        Seq::empty()
    } else {
        let before = distinct_upto(s, n - 1);
        if before.contains(s[n - 1]) {
            before
        } else {
            before.push(s[n - 1])
        }
    }
}

/// The distinct associated-type paths of a record's fields, each where it is
/// first read.
pub open spec fn observed(r: RecordModel) -> Seq<TypeTerm> {
    let all = paths_of_fields(r.fields, r.params, r.fields.len() as int);
    distinct_upto(all, all.len() as int)
}

/// Whether one of `paths` starts at the parameter `p`.
pub open spec fn reaches_through(paths: Seq<TypeTerm>, p: Seq<char>) -> bool {
    exists|k: int| #![trigger paths[k]] 0 <= k < paths.len() && root_of(paths[k]) == Some(p)
}

/// The distinct associated-type paths that the fields of a record use.
#[derive(Debug, PartialEq, Eq)]
pub struct AssociatedTypeUse {
    pub paths: Vec<TypeExpr>,
}

impl View for AssociatedTypeUse {
    type V = Seq<TypeTerm>;

    open spec fn view(&self) -> Seq<TypeTerm> {
        terms_of(self.paths@)
    }
}

/// The values of a run with one more item are those of the run, and the
/// value of the item.
pub proof fn lemma_terms_push(s: Seq<TypeExpr>, x: TypeExpr)
    ensures
        terms_of(s.push(x)) == terms_of(s).push(x@),
{
    assert(terms_of(s.push(x)) =~= terms_of(s).push(x@));
}

/// Whether `name` is the name of a type parameter among `params`.
fn names_type_param(params: &Vec<GenericParam>, name: &String) -> (r: bool)
    ensures
        r == is_type_param(views(params@), name@),
{
    let mut i: usize = 0;
    while i < params.len()
        invariant
            i <= params.len(),
            forall|j: int|
                #![trigger views(params@)[j]]
                0 <= j < i ==> !(views(params@)[j].kind == ParamKind::Type && views(
                    params@,
                )[j].name == name@),
        decreases params.len() - i,
    {
        assert(views(params@)[i as int] == params@[i as int]@);
        let hit = match params[i].kind {
            ParamKind::Type => params[i].name == *name,
            _ => false,
        };
        if hit {
            return true;
        }
        i += 1;
    }
    false
}

/// Whether `t` is an associated-type path.
fn is_rooted(t: &TypeExpr, params: &Vec<GenericParam>) -> (r: bool)
    ensures
        r == rooted(t@, views(params@)),
{
    match t {
        TypeExpr::Named { global, segments } => {
            assert(steps_of(segments@).len() == segments@.len());
            if segments.len() >= 2 {
                assert(steps_of(segments@)[0] == segments@[0]@);
                assert(segments@[0]@.ident == segments@[0].ident@);
                assert(root_of(t@) == Some(segments@[0].ident@));
                names_type_param(params, &segments[0].ident)
            } else {
                assert(root_of(t@) is None);
                false
            }
        },
        TypeExpr::Other { .. } => false,
    }
}

/// Appends to `out` the associated-type paths in `t`.
pub fn visit_type_path(t: &TypeExpr, params: &Vec<GenericParam>, out: &mut Vec<TypeExpr>)
    ensures
        terms_of(final(out)@) == terms_of(old(out)@) + paths_in(t@, views(params@)),
    decreases t,
{
    let ghost start = terms_of(out@);
    if is_rooted(t, params) {
        proof {
            lemma_terms_push(out@, *t);
        }
        out.push(t.duplicate());
        assert(terms_of(out@) =~= start + seq![t@]);
    } else {
        assert(terms_of(out@) =~= start + Seq::<TypeTerm>::empty());
    }
    let ghost mid = terms_of(out@);
    match t {
        TypeExpr::Named { global, segments } => {
            visit_segments(segments, params, out);
            assert(terms_of(out@) =~= start + paths_in(t@, views(params@)));
        },
        TypeExpr::Other { text, parts } => {
            visit_types(parts, params, out);
            assert(terms_of(out@) =~= start + paths_in(t@, views(params@)));
        },
    }
}

/// Appends to `out` the associated-type paths in `ts`.
pub fn visit_types(ts: &Vec<TypeExpr>, params: &Vec<GenericParam>, out: &mut Vec<TypeExpr>)
    ensures
        terms_of(final(out)@) == terms_of(old(out)@) + paths_among(
            terms_of(ts@),
            views(params@),
            ts@.len() as int,
        ),
    decreases ts,
{
    let ghost start = terms_of(out@);
    let mut k: usize = 0;
    assert(terms_of(out@) =~= start + Seq::<TypeTerm>::empty());
    while k < ts.len()
        invariant
            k <= ts.len(),
            terms_of(out@) == start + paths_among(terms_of(ts@), views(params@), k as int),
        decreases ts.len() - k,
    {
        let ghost before = terms_of(out@);
        assert(terms_of(ts@)[k as int] == ts@[k as int]@);
        visit_type_path(&ts[k], params, out);
        assert(terms_of(out@) =~= start + paths_among(terms_of(ts@), views(params@), k + 1));
        k += 1;
    }
}

/// Appends to `out` the associated-type paths in the generic arguments of
/// `segments`.
pub fn visit_segments(segments: &Vec<Segment>, params: &Vec<GenericParam>, out: &mut Vec<TypeExpr>)
    ensures
        terms_of(final(out)@) == terms_of(old(out)@) + paths_in_segments(
            steps_of(segments@),
            views(params@),
            segments@.len() as int,
        ),
    decreases segments,
{
    let ghost start = terms_of(out@);
    let mut i: usize = 0;
    assert(terms_of(out@) =~= start + Seq::<TypeTerm>::empty());
    while i < segments.len()
        invariant
            i <= segments.len(),
            terms_of(out@) == start + paths_in_segments(
                steps_of(segments@),
                views(params@),
                i as int,
            ),
        decreases segments.len() - i,
    {
        assert(steps_of(segments@)[i as int] == segments@[i as int]@);
        visit_types(&segments[i].args, params, out);
        assert(terms_of(out@) =~= start + paths_in_segments(
            steps_of(segments@),
            views(params@),
            i + 1,
        ));
        i += 1;
    }
}

/// Whether `list` holds an item written like `x`.
fn holds(list: &Vec<TypeExpr>, x: &TypeExpr) -> (r: bool)
    ensures
        r == terms_of(list@).contains(x@),
{
    let mut i: usize = 0;
    while i < list.len()
        invariant
            i <= list.len(),
            forall|j: int| 0 <= j < i ==> (#[trigger] terms_of(list@)[j]) != x@,
        decreases list.len() - i,
    {
        assert(terms_of(list@)[i as int] == list@[i as int]@);
        if list[i].same(x) {
            return true;
        }
        i += 1;
    }
    false
}

/// The distinct associated-type paths that the fields of a record use, each
/// where it is first read.
pub fn get_generic_associated_types(st: &RecordDecl) -> (r: AssociatedTypeUse)
    ensures
        r@ == observed(st@),
{
    let mut all: Vec<TypeExpr> = Vec::new();
    let mut i: usize = 0;
    assert(terms_of(all@) =~= Seq::<TypeTerm>::empty());
    while i < st.fields.len()
        invariant
            i <= st.fields.len(),
            terms_of(all@) == paths_of_fields(st@.fields, st@.params, i as int),
        decreases st.fields.len() - i,
    {
        assert(st@.fields[i as int] == st.fields@[i as int]@);
        visit_type_path(&st.fields[i].ty, &st.params, &mut all);
        i += 1;
    }
    let mut paths: Vec<TypeExpr> = Vec::new();
    let mut k: usize = 0;
    assert(terms_of(paths@) =~= Seq::<TypeTerm>::empty());
    while k < all.len()
        invariant
            k <= all.len(),
            terms_of(paths@) == distinct_upto(terms_of(all@), k as int),
        decreases all.len() - k,
    {
        assert(terms_of(all@)[k as int] == all@[k as int]@);
        if !holds(&paths, &all[k]) {
            proof {
                lemma_terms_push(paths@, all@[k as int]);
            }
            paths.push(all[k].duplicate());
        }
        k += 1;
    }
    AssociatedTypeUse { paths }
}

impl AssociatedTypeUse {
    /// Whether one of the paths starts at the parameter `p`.
    pub fn contains_key(&self, p: &String) -> (r: bool)
        ensures
            r == reaches_through(self@, p@),
    {
        let mut k: usize = 0;
        while k < self.paths.len()
            invariant
                k <= self.paths.len(),
                forall|j: int|
                    #![trigger self@[j]]
                    0 <= j < k ==> root_of(self@[j]) != Some(p@),
            decreases self.paths.len() - k,
        {
            assert(self@[k as int] == self.paths@[k as int]@);
            if starts_at(&self.paths[k], p) {
                return true;
            }
            k += 1;
        }
        false
    }
}

/// The first name of a path of two or more segments.
pub fn root_name(t: &TypeExpr) -> (r: Option<&String>)
    ensures
        match r {
            Some(s) => root_of(t@) == Some(s@),
            None => root_of(t@) is None,
        },
{
    match t {
        TypeExpr::Named { global, segments } => {
            assert(steps_of(segments@).len() == segments@.len());
            if segments.len() >= 2 {
                assert(steps_of(segments@)[0] == segments@[0]@);
                assert(segments@[0]@.ident == segments@[0].ident@);
                Some(&segments[0].ident)
            } else {
                None
            }
        },
        TypeExpr::Other { .. } => None,
    }
}

/// Whether `t` is a path of two or more segments that starts at `p`.
fn starts_at(t: &TypeExpr, p: &String) -> (r: bool)
    ensures
        r == (root_of(t@) == Some(p@)),
{
    match t {
        TypeExpr::Named { global, segments } => {
            assert(steps_of(segments@).len() == segments@.len());
            if segments.len() >= 2 {
                assert(steps_of(segments@)[0] == segments@[0]@);
                assert(segments@[0]@.ident == segments@[0].ident@);
                assert(root_of(t@) == Some(segments@[0].ident@));
                segments[0].ident == *p
            } else {
                assert(root_of(t@) is None);
                false
            }
        },
        TypeExpr::Other { .. } => false,
    }
}

/// Whether `x` is `t` or is written somewhere inside `t`.
pub open spec fn occurs_in(t: TypeTerm, x: TypeTerm) -> bool
    decreases t,
{
    t == x || match t {
        TypeTerm::Named { global, segments } => exists|i: int, k: int|
            #![trigger segments[i].args[k]]
            0 <= i < segments.len() && 0 <= k < segments[i].args.len() && occurs_in(
                segments[i].args[k],
                x,
            ),
        TypeTerm::Other { text, parts } => exists|k: int|
            #![trigger parts[k]]
            0 <= k < parts.len() && occurs_in(parts[k], x),
    }
}

/// Whether `x` is written in one of the first `n` of `ts`.
pub open spec fn occurs_among(ts: Seq<TypeTerm>, n: int, x: TypeTerm) -> bool {
    exists|k: int| #![trigger ts[k]] 0 <= k < n && k < ts.len() && occurs_in(ts[k], x)
}

/// Whether `x` is written in a generic argument of one of the first `n` of
/// `segments`.
pub open spec fn occurs_in_segments(segments: Seq<SegmentTerm>, n: int, x: TypeTerm) -> bool {
    exists|i: int, k: int|
        #![trigger segments[i].args[k]]
        0 <= i < n && i < segments.len() && 0 <= k < segments[i].args.len() && occurs_in(
            segments[i].args[k],
            x,
        )
}

/// Whether `x` is written in the type of one of the first `n` fields.
pub open spec fn occurs_in_fields(fields: Seq<FieldModel>, n: int, x: TypeTerm) -> bool {
    exists|i: int| #![trigger fields[i]] 0 <= i < n && i < fields.len() && occurs_in(fields[i].ty, x)
}

/// An item is in a run put behind another exactly if it is in one of the two.
pub proof fn lemma_concat_contains(a: Seq<TypeTerm>, b: Seq<TypeTerm>, x: TypeTerm)
    ensures
        (a + b).contains(x) == (a.contains(x) || b.contains(x)),
{
    if a.contains(x) {
        let w = choose|w: int| 0 <= w < a.len() && a[w] == x;
        assert((a + b)[w] == x);
    }
    if b.contains(x) {
        let w = choose|w: int| 0 <= w < b.len() && b[w] == x;
        assert((a + b)[a.len() + w] == x);
    }
    if (a + b).contains(x) {
        let w = choose|w: int| 0 <= w < (a + b).len() && (a + b)[w] == x;
        if w < a.len() {
            assert(a[w] == x);
        } else {
            assert(b[w - a.len()] == x);
        }
    }
}

/// What [`paths_in`] lists: exactly the associated-type paths that are
/// written in `t`.
pub proof fn lemma_paths_in(t: TypeTerm, params: Seq<ParamModel>, x: TypeTerm)
    ensures
        paths_in(t, params).contains(x) == (rooted(x, params) && occurs_in(t, x)),
    decreases t, 0int,
{
    let here = if rooted(t, params) {
        seq![t]
    } else {
        Seq::<TypeTerm>::empty()
    };
    assert(here.contains(x) == (rooted(t, params) && t == x)) by {
        if rooted(t, params) && t == x {
            assert(here[0] == x);
        }
    }
    match t {
        TypeTerm::Named { global, segments } => {
            let rest = paths_in_segments(segments, params, segments.len() as int);
            lemma_paths_in_segments(segments, params, segments.len() as int, x);
            lemma_concat_contains(here, rest, x);
            assert(occurs_in(t, x) == (t == x || occurs_in_segments(
                segments,
                segments.len() as int,
                x,
            )));
        },
        TypeTerm::Other { text, parts } => {
            let rest = paths_among(parts, params, parts.len() as int);
            lemma_paths_among(parts, params, parts.len() as int, x);
            lemma_concat_contains(here, rest, x);
            assert(occurs_in(t, x) == (t == x || occurs_among(parts, parts.len() as int, x)));
        },
    }
}

/// What [`paths_among`] lists.
pub proof fn lemma_paths_among(ts: Seq<TypeTerm>, params: Seq<ParamModel>, n: int, x: TypeTerm)
    requires
        0 <= n <= ts.len(),
    ensures
        paths_among(ts, params, n).contains(x) == (rooted(x, params) && occurs_among(ts, n, x)),
    decreases ts, n,
{
    if n > 0 {
        let before = paths_among(ts, params, n - 1);
        let last = paths_in(ts[n - 1], params);
        lemma_paths_among(ts, params, n - 1, x);
        lemma_paths_in(ts[n - 1], params, x);
        lemma_concat_contains(before, last, x);
        if occurs_among(ts, n, x) {
            let k = choose|k: int| #![trigger ts[k]] 0 <= k < n && k < ts.len() && occurs_in(ts[k], x);
            if k < n - 1 {
                assert(occurs_among(ts, n - 1, x));
            }
        }
        if occurs_among(ts, n - 1, x) {
            let k = choose|k: int|
                #![trigger ts[k]]
                0 <= k < n - 1 && k < ts.len() && occurs_in(ts[k], x);
            assert(0 <= k < n && occurs_in(ts[k], x));
        }
        if occurs_in(ts[n - 1], x) {
            assert(occurs_among(ts, n, x));
        }
    }
}

/// What [`paths_in_segments`] lists.
pub proof fn lemma_paths_in_segments(
    segments: Seq<SegmentTerm>,
    params: Seq<ParamModel>,
    n: int,
    x: TypeTerm,
)
    requires
        0 <= n <= segments.len(),
    ensures
        paths_in_segments(segments, params, n).contains(x) == (rooted(x, params)
            && occurs_in_segments(segments, n, x)),
    decreases segments, n,
{
    if n > 0 {
        let before = paths_in_segments(segments, params, n - 1);
        let args = segments[n - 1].args;
        let last = paths_among(args, params, args.len() as int);
        lemma_paths_in_segments(segments, params, n - 1, x);
        lemma_paths_among(args, params, args.len() as int, x);
        lemma_concat_contains(before, last, x);
        if occurs_in_segments(segments, n, x) {
            let (i, k) = choose|i: int, k: int|
                #![trigger segments[i].args[k]]
                0 <= i < n && i < segments.len() && 0 <= k < segments[i].args.len() && occurs_in(
                    segments[i].args[k],
                    x,
                );
            if i < n - 1 {
                assert(occurs_in(segments[i].args[k], x));
                assert(occurs_in_segments(segments, n - 1, x));
            } else {
                assert(occurs_in(args[k], x));
                assert(occurs_among(args, args.len() as int, x));
            }
        }
        if occurs_in_segments(segments, n - 1, x) {
            let (i, k) = choose|i: int, k: int|
                #![trigger segments[i].args[k]]
                0 <= i < n - 1 && i < segments.len() && 0 <= k < segments[i].args.len()
                    && occurs_in(segments[i].args[k], x);
            assert(occurs_in(segments[i].args[k], x));
            assert(occurs_in_segments(segments, n, x));
        }
        if occurs_among(args, args.len() as int, x) {
            let k = choose|k: int|
                #![trigger args[k]]
                0 <= k < args.len() && k < args.len() && occurs_in(args[k], x);
            assert(occurs_in(segments[n - 1].args[k], x));
            assert(occurs_in_segments(segments, n, x));
        }
    }
}

/// What [`paths_of_fields`] lists.
pub proof fn lemma_paths_of_fields(
    fields: Seq<FieldModel>,
    params: Seq<ParamModel>,
    n: int,
    x: TypeTerm,
)
    requires
        0 <= n <= fields.len(),
    ensures
        paths_of_fields(fields, params, n).contains(x) == (rooted(x, params) && occurs_in_fields(
            fields,
            n,
            x,
        )),
    decreases n,
{
    if n > 0 {
        let before = paths_of_fields(fields, params, n - 1);
        let last = paths_in(fields[n - 1].ty, params);
        lemma_paths_of_fields(fields, params, n - 1, x);
        lemma_paths_in(fields[n - 1].ty, params, x);
        lemma_concat_contains(before, last, x);
        if occurs_in_fields(fields, n, x) {
            let i = choose|i: int|
                #![trigger fields[i]]
                0 <= i < n && i < fields.len() && occurs_in(fields[i].ty, x);
            if i < n - 1 {
                assert(occurs_in_fields(fields, n - 1, x));
            }
        }
        if occurs_in_fields(fields, n - 1, x) {
            let i = choose|i: int|
                #![trigger fields[i]]
                0 <= i < n - 1 && i < fields.len() && occurs_in(fields[i].ty, x);
            assert(0 <= i < n && occurs_in(fields[i].ty, x));
        }
        if occurs_in(fields[n - 1].ty, x) {
            assert(occurs_in_fields(fields, n, x));
        }
    }
}

/// What [`distinct_upto`] keeps: every item of the first `n`, once.
pub proof fn lemma_distinct_upto(s: Seq<TypeTerm>, n: int, x: TypeTerm)
    requires
        0 <= n <= s.len(),
    ensures
        distinct_upto(s, n).no_duplicates(),
        distinct_upto(s, n).contains(x) == s.subrange(0, n).contains(x),
    decreases n,
{
    if n > 0 {
        let before = distinct_upto(s, n - 1);
        let all = distinct_upto(s, n);
        lemma_distinct_upto(s, n - 1, x);
        lemma_distinct_upto(s, n - 1, s[n - 1]);
        let head = s.subrange(0, n - 1);
        let full = s.subrange(0, n);
        if full.contains(x) {
            let w = choose|w: int| 0 <= w < full.len() && full[w] == x;
            if w < n - 1 {
                assert(head[w] == x);
                let v = choose|v: int| 0 <= v < before.len() && before[v] == x;
                assert(all[v] == x);
            } else {
                if before.contains(x) {
                    let v = choose|v: int| 0 <= v < before.len() && before[v] == x;
                    assert(all[v] == x);
                } else {
                    assert(all[before.len() as int] == x);
                }
            }
        }
        if all.contains(x) {
            let v = choose|v: int| 0 <= v < all.len() && all[v] == x;
            if v < before.len() {
                assert(before[v] == x);
                let w = choose|w: int| 0 <= w < head.len() && head[w] == x;
                assert(full[w] == x);
            } else {
                assert(full[n - 1] == x);
            }
        }
    }
}

/// The paths observed in a record are exactly the associated-type paths
/// written in the types of its fields, each once.
pub proof fn law_observed_paths(r: RecordModel, x: TypeTerm)
    ensures
        observed(r).no_duplicates(),
        observed(r).contains(x) == (rooted(x, r.params) && occurs_in_fields(
            r.fields,
            r.fields.len() as int,
            x,
        )),
{
    let all = paths_of_fields(r.fields, r.params, r.fields.len() as int);
    lemma_distinct_upto(all, all.len() as int, x);
    assert(all.subrange(0, all.len() as int) =~= all);
    lemma_paths_of_fields(r.fields, r.params, r.fields.len() as int, x);
}

} // verus!
