//! Bound inference for the printer: which generic parameters must themselves
//! be printable, and which associated types must be so in their place.

use vstd::prelude::*;
use crate::paths::{
    get_generic_associated_types, observed, reaches_through, root_name, root_of,
};
use crate::record::{views, FieldModel, GenericParam, ParamKind, ParamModel, RecordDecl, RecordModel};
use crate::types::{copy_texts, TypeExpr, TypeTerm};
use crate::usage::{fields_mention, uses_as_marker, uses_directly};

verus! {

/// A predicate of a where clause.
#[derive(Debug, PartialEq, Eq)]
pub enum Predicate {
    /// The given associated type must be printable.
    Formats(TypeExpr),
    /// A clause that the record's author wrote, taken as it is.
    Verbatim(String),
}

/// What is added to a record's generics for its printer: the parameters with
/// their bounds, and the predicates to put behind the where clause.
#[derive(Debug, PartialEq, Eq)]
pub struct BoundPlan {
    pub params: Vec<GenericParam>,
    pub predicates: Vec<Predicate>,
}

/// The mathematical value of a [`Predicate`].
pub ghost enum PredicateModel {
    Formats(TypeTerm),
    Verbatim(Seq<char>),
}

/// The mathematical value of a [`BoundPlan`].
pub ghost struct BoundModel {
    pub params: Seq<ParamModel>,
    pub predicates: Seq<PredicateModel>,
}

impl View for Predicate {
    type V = PredicateModel;

    open spec fn view(&self) -> PredicateModel {
        match self {
            Predicate::Formats(t) => PredicateModel::Formats(t@),
            Predicate::Verbatim(s) => PredicateModel::Verbatim(s@),
        }
    }
}

impl View for BoundPlan {
    type V = BoundModel;

    open spec fn view(&self) -> BoundModel {
        BoundModel { params: views(self.params@), predicates: views(self.predicates@) }
    }
}

/// The bound that makes a type printable.
pub open spec fn formatting_bound() -> Seq<char> {
    "std::fmt::Debug"@
}

/// Whether parameter `i` of a record gets the formatting bound: it is a type
/// parameter and either a field uses it directly, or no field uses it in a
/// marker or through an associated type. A direct use decides, whatever
/// other uses there are.
pub open spec fn gets_bound(r: RecordModel, i: int) -> bool {
    r.params[i].kind == ParamKind::Type && (uses_directly(r.fields, r.params[i].name) || (
    !uses_as_marker(r.fields, r.params[i].name) && !reaches_through(
        observed(r),
        r.params[i].name,
    )))
}

/// A parameter with the formatting bound behind its own bounds, or as it is.
pub open spec fn with_bound(p: ParamModel, add: bool) -> ParamModel {
    ParamModel {
        name: p.name,
        kind: p.kind,
        bounds: if add {
            p.bounds.push(formatting_bound())
        } else {
            p.bounds
        },
    }
}

/// Whether an associated-type path gets a predicate: not where a field uses
/// the parameter at its start directly, since that parameter is then bounded
/// itself.
pub open spec fn gets_predicate(path: TypeTerm, fields: Seq<FieldModel>) -> bool {
    match root_of(path) {
        Some(root) => !uses_directly(fields, root),
        None => true,
    }
}

/// The predicates for the first `n` of `paths`, in their order.
pub open spec fn predicates_upto(paths: Seq<TypeTerm>, fields: Seq<FieldModel>, n: int) -> Seq<
    PredicateModel,
>
    decreases n,
{
    if n <= 0 {
        Seq::empty()
    } else {
        let before = predicates_upto(paths, fields, n - 1);
        if gets_predicate(paths[n - 1], fields) {
            before.push(PredicateModel::Formats(paths[n - 1]))
        } else {
            before
        }
    }
}

/// What is inferred for a record that gives no clause of its own.
pub open spec fn inferred(r: RecordModel) -> BoundModel {
    BoundModel {
        params: Seq::new(r.params.len(), |i: int| with_bound(r.params[i], gets_bound(r, i))),
        predicates: predicates_upto(observed(r), r.fields, observed(r).len() as int),
    }
}

/// What stands for a record that gives a clause of its own: the clause, and
/// nothing inferred.
pub open spec fn overridden(r: RecordModel, clause: Seq<char>) -> BoundModel {
    BoundModel { params: r.params, predicates: seq![PredicateModel::Verbatim(clause)] }
}

/// A path among the first `n` that gets a predicate has it among the
/// predicates for those `n`.
pub proof fn lemma_predicate_kept(paths: Seq<TypeTerm>, fields: Seq<FieldModel>, n: int, k: int)
    requires
        0 <= k < n <= paths.len(),
        gets_predicate(paths[k], fields),
    ensures
        predicates_upto(paths, fields, n).contains(PredicateModel::Formats(paths[k])),
    decreases n,
{
    let all = predicates_upto(paths, fields, n);
    let before = predicates_upto(paths, fields, n - 1);
    if k == n - 1 {
        assert(all[before.len() as int] == PredicateModel::Formats(paths[k]));
    } else {
        lemma_predicate_kept(paths, fields, n - 1, k);
        let w = choose|w: int| 0 <= w < before.len() && before[w] == PredicateModel::Formats(paths[k]);
        assert(all[w] == PredicateModel::Formats(paths[k]));
    }
}

/// Every predicate for the first `n` paths is for one of those paths, and
/// for one that gets a predicate.
pub proof fn lemma_predicate_from(
    paths: Seq<TypeTerm>,
    fields: Seq<FieldModel>,
    n: int,
    q: PredicateModel,
)
    requires
        0 <= n <= paths.len(),
        predicates_upto(paths, fields, n).contains(q),
    ensures
        exists|k: int|
            #![trigger paths[k]]
            0 <= k < n && q == PredicateModel::Formats(paths[k]) && gets_predicate(paths[k], fields),
    decreases n,
{
    if n > 0 {
        let all = predicates_upto(paths, fields, n);
        let before = predicates_upto(paths, fields, n - 1);
        let w = choose|w: int| 0 <= w < all.len() && all[w] == q;
        if w < before.len() {
            assert(before[w] == q);
            lemma_predicate_from(paths, fields, n - 1, q);
            let k = choose|k: int|
                #![trigger paths[k]]
                0 <= k < n - 1 && q == PredicateModel::Formats(paths[k]) && gets_predicate(
                    paths[k],
                    fields,
                );
            assert(0 <= k < n && q == PredicateModel::Formats(paths[k]) && gets_predicate(
                paths[k],
                fields,
            ));
        } else {
            assert(q == PredicateModel::Formats(paths[n - 1]) && gets_predicate(
                paths[n - 1],
                fields,
            ));
        }
    }
}

/// Bounds follow use. For a type parameter of a record that gives no clause
/// of its own:
/// - used directly by a field, it gets the formatting bound behind its own
///   bounds, and no predicate is about a path that starts at it;
/// - used in markers only, or through associated types only, or both, it
///   keeps its bounds as they are, and every associated-type path of the
///   fields that starts at it has its predicate.
/// No parameter ever loses a bound.
pub proof fn law_bounds_follow_use(r: RecordModel, i: int)
    requires
        0 <= i < r.params.len(),
        r.params[i].kind == ParamKind::Type,
    ensures
        inferred(r).params.len() == r.params.len(),
        forall|j: int|
            #![trigger r.params[j]]
            0 <= j < r.params.len() ==> r.params[j].bounds.is_prefix_of(
                inferred(r).params[j].bounds,
            ),
        uses_directly(r.fields, r.params[i].name) ==> inferred(r).params[i].bounds
            == r.params[i].bounds.push(formatting_bound()) && forall|q: PredicateModel|
            #![trigger inferred(r).predicates.contains(q)]
            inferred(r).predicates.contains(q) ==> q is Formats && root_of(q->Formats_0) != Some(
                r.params[i].name,
            ),
        !uses_directly(r.fields, r.params[i].name) && (uses_as_marker(r.fields, r.params[i].name)
            || reaches_through(observed(r), r.params[i].name)) ==> inferred(r).params[i]
            == r.params[i] && forall|k: int|
            #![trigger observed(r)[k]]
            0 <= k < observed(r).len() && root_of(observed(r)[k]) == Some(r.params[i].name)
                ==> inferred(r).predicates.contains(PredicateModel::Formats(observed(r)[k])),
{
    let plan = inferred(r);
    let p = r.params[i].name;
    let paths = observed(r);
    assert forall|j: int| #![trigger r.params[j]] 0 <= j < r.params.len() implies r.params[j].bounds.is_prefix_of(
        plan.params[j].bounds,
    ) by {
        let b = r.params[j].bounds;
        if gets_bound(r, j) {
            assert(b.push(formatting_bound()).subrange(0, b.len() as int) =~= b);
        } else {
            assert(b.subrange(0, b.len() as int) =~= b);
        }
    }
    if uses_directly(r.fields, p) {
        assert forall|q: PredicateModel|
            #![trigger plan.predicates.contains(q)]
            plan.predicates.contains(q) implies q is Formats && root_of(q->Formats_0) != Some(
            p,
        ) by {
            lemma_predicate_from(paths, r.fields, paths.len() as int, q);
        }
    } else {
        assert forall|k: int|
            #![trigger paths[k]]
            0 <= k < paths.len() && root_of(paths[k]) == Some(p) implies plan.predicates.contains(
            PredicateModel::Formats(paths[k]),
        ) by {
            lemma_predicate_kept(paths, r.fields, paths.len() as int, k);
        }
    }
}

/// A copy of a parameter, with the formatting bound behind its own bounds where `add` says so.
fn copy_param(p: &GenericParam, add: bool) -> (r: GenericParam)
    ensures
        r@ == with_bound(p@, add),
{
    let mut bounds = copy_texts(&p.bounds);
    assert(views(bounds@) =~= views(p.bounds@));
    if add {
        let ghost before = bounds@;
        bounds.push(String::from_str("std::fmt::Debug"));
        assert(views(bounds@) =~= views(before).push(formatting_bound()));
    }
    GenericParam { name: p.name.clone(), kind: p.kind, bounds }
}

/// The bounds and predicates that the printer of a record needs, inferred
/// from the way its fields are written.
pub fn infer_bounds(input: &RecordDecl) -> (r: BoundPlan)
    ensures
        r@ == inferred(input@),
{
    let uses = get_generic_associated_types(input);
    let mut params: Vec<GenericParam> = Vec::new();
    let mut i: usize = 0;
    while i < input.params.len()
        invariant
            i <= input.params.len(),
            uses@ == observed(input@),
            params@.len() == i,
            forall|k: int| 0 <= k < i ==> params@[k]@ == with_bound(input@.params[k], gets_bound(input@, k)),
        decreases input.params.len() - i,
    {
        let p = &input.params[i];
        assert(input@.params[i as int] == p@);
        let add = match p.kind {
            ParamKind::Type => fields_mention(&input.fields, &p.name, false) || (!fields_mention(
                &input.fields,
                &p.name,
                true,
            ) && !uses.contains_key(&p.name)),
            _ => false,
        };
        params.push(copy_param(p, add));
        i += 1;
    }
    let mut predicates: Vec<Predicate> = Vec::new();
    let mut k: usize = 0;
    assert(views(predicates@) =~= Seq::<PredicateModel>::empty());
    while k < uses.paths.len()
        invariant
            k <= uses.paths.len(),
            uses@ == observed(input@),
            views(predicates@) == predicates_upto(uses@, input@.fields, k as int),
        decreases uses.paths.len() - k,
    {
        let path = &uses.paths[k];
        assert(uses@[k as int] == path@);
        let keep = match root_name(path) {
            Some(root) => !fields_mention(&input.fields, root, false),
            None => true,
        };
        if keep {
            let ghost before = views(predicates@);
            predicates.push(Predicate::Formats(path.duplicate()));
            assert(views(predicates@) =~= before.push(PredicateModel::Formats(path@)));
        }
        k += 1;
    }
    let r = BoundPlan { params, predicates };
    assert(r@.params =~= inferred(input@).params);
    r
}

/// The record's generics with the author's own clause in place of anything
/// inferred.
pub fn override_bounds(input: &RecordDecl, clause: &String) -> (r: BoundPlan)
    ensures
        r@ == overridden(input@, clause@),
{
    let mut params: Vec<GenericParam> = Vec::new();
    let mut i: usize = 0;
    while i < input.params.len()
        invariant
            i <= input.params.len(),
            params@.len() == i,
            forall|k: int| 0 <= k < i ==> params@[k]@ == input@.params[k],
        decreases input.params.len() - i,
    {
        assert(input@.params[i as int] == input.params@[i as int]@);
        params.push(copy_param(&input.params[i], false));
        i += 1;
    }
    let mut predicates: Vec<Predicate> = Vec::new();
    predicates.push(Predicate::Verbatim(clause.clone()));
    let r = BoundPlan { params, predicates };
    assert(r@.params =~= input@.params);
    assert(r@.predicates =~= seq![PredicateModel::Verbatim(clause@)]);
    r
}

} // verus!
