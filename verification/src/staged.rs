//! What an emitted builder does when it runs.
//!
//! A [`Staged`] value is a builder at work: one entry per field, each with the
//! slot that the setters write and the rule by which the finished record gets
//! the field. The values are of any one type `T`; what they are is of no
//! concern here.

use vstd::prelude::*;
use crate::builders::{
    builder_of, builder_plan, setters_for, setters_upto, BuilderFragment, BuilderModel, FinalRule,
    InitValue, SetterAction, SetterDef, SetterModel,
};
use crate::fault::Fault;
use crate::introspect::{classes_of, classify_spec, lemma_classes_upto, ClassModel};
use crate::record::{views, FieldModel, RecordModel, RecordShape};
use crate::types::is_text;

verus! {

/// A slot of a builder at work.
#[derive(Debug, PartialEq, Eq)]
pub enum Slot<T> {
    /// At most one value.
    Single(Option<T>),
    /// Any number of values, in the order in which they came.
    Many(Vec<T>),
}

/// One field of a builder at work.
#[derive(Debug, PartialEq, Eq)]
pub struct Entry<T> {
    pub name: String,
    pub rule: FinalRule,
    pub slot: Slot<T>,
}

/// A builder at work.
#[derive(Debug, PartialEq, Eq)]
pub struct Staged<T> {
    pub entries: Vec<Entry<T>>,
}

/// What a setter is called with.
#[derive(Debug, PartialEq, Eq)]
pub enum Argument<T> {
    /// One value.
    One(T),
    /// A whole collection.
    Whole(Vec<T>),
}

/// A field of a finished record.
#[derive(Debug, PartialEq, Eq)]
pub enum FieldValue<T> {
    /// A field that had to be set.
    Plain(T),
    /// A field that may be absent.
    Optional(Option<T>),
    /// A field that collects.
    Repeated(Vec<T>),
}

/// The mathematical value of a [`Slot`].
pub ghost enum SlotState<T> {
    Single(Option<T>),
    Many(Seq<T>),
}

/// The mathematical value of a [`Entry`].
pub ghost struct EntryModel<T> {
    pub name: Seq<char>,
    pub rule: FinalRule,
    pub slot: SlotState<T>,
}

/// The mathematical value of a [`Argument`].
pub ghost enum ArgumentModel<T> {
    One(T),
    Whole(Seq<T>),
}

/// The mathematical value of a [`FieldValue`].
pub ghost enum FieldValueModel<T> {
    Plain(T),
    Optional(Option<T>),
    Repeated(Seq<T>),
}

impl<T> View for Slot<T> {
    type V = SlotState<T>;

    open spec fn view(&self) -> SlotState<T> {
        match self {
            Slot::Single(o) => SlotState::Single(*o),
            Slot::Many(v) => SlotState::Many(v@),
        }
    }
}

impl<T> View for Entry<T> {
    type V = EntryModel<T>;

    open spec fn view(&self) -> EntryModel<T> {
        EntryModel { name: self.name@, rule: self.rule, slot: self.slot@ }
    }
}

impl<T> View for Staged<T> {
    type V = Seq<EntryModel<T>>;

    open spec fn view(&self) -> Seq<EntryModel<T>> {
        views(self.entries@)
    }
}

impl<T> View for Argument<T> {
    type V = ArgumentModel<T>;

    open spec fn view(&self) -> ArgumentModel<T> {
        match self {
            Argument::One(v) => ArgumentModel::One(*v),
            Argument::Whole(v) => ArgumentModel::Whole(v@),
        }
    }
}

impl<T> View for FieldValue<T> {
    type V = FieldValueModel<T>;

    open spec fn view(&self) -> FieldValueModel<T> {
        match self {
            FieldValue::Plain(v) => FieldValueModel::Plain(*v),
            FieldValue::Optional(o) => FieldValueModel::Optional(*o),
            FieldValue::Repeated(v) => FieldValueModel::Repeated(v@),
        }
    }
}

/// The builder that the factory method returns: every slot at its initial
/// value.
pub open spec fn start_of<T>(b: BuilderModel) -> Seq<EntryModel<T>> {
    Seq::new(
        b.build.steps.len(),
        |i: int|
            EntryModel {
                name: b.build.steps[i].name,
                rule: b.build.steps[i].rule,
                slot: if i < b.inits.len() && b.inits[i].value == InitValue::Empty {
                    SlotState::Many(Seq::empty())
                } else {
                    SlotState::Single(None)
                },
            },
    )
}

/// The slot after a setter has written to it, where the action, the slot and
/// the argument fit together.
pub open spec fn written<T>(slot: SlotState<T>, action: SetterAction, arg: ArgumentModel<T>)
    -> Option<SlotState<T>> {
    match action {
        SetterAction::Store => match (slot, arg) {
            (SlotState::Single(_), ArgumentModel::One(v)) => Some(SlotState::Single(Some(v))),
            _ => None,
        },
        SetterAction::Append => match (slot, arg) {
            (SlotState::Many(vs), ArgumentModel::One(v)) => Some(SlotState::Many(vs.push(v))),
            _ => None,
        },
        SetterAction::Overwrite => match (slot, arg) {
            (SlotState::Many(_), ArgumentModel::Whole(ws)) => Some(SlotState::Many(ws)),
            _ => None,
        },
    }
}

/// Whether a call of `setter` with `arg` fits the builder.
pub open spec fn accepts<T>(s: Seq<EntryModel<T>>, setter: SetterModel, arg: ArgumentModel<T>)
    -> bool {
    0 <= setter.slot < s.len() && written(s[setter.slot].slot, setter.action, arg) is Some
}

/// The builder after a call of `setter` with `arg`: the setter's slot is
/// written, nothing else changes. A call that does not fit changes nothing.
pub open spec fn after_call<T>(s: Seq<EntryModel<T>>, setter: SetterModel, arg: ArgumentModel<T>)
    -> Seq<EntryModel<T>> {
    if accepts(s, setter, arg) {
        s.update(
            setter.slot,
            EntryModel {
                name: s[setter.slot].name,
                rule: s[setter.slot].rule,
                slot: written(s[setter.slot].slot, setter.action, arg)->Some_0,
            },
        )
    } else {
        s
    }
}

/// The builder after the first `n` of a run of calls: call `k` is of
/// `setters[k]` with `args[k]`.
pub open spec fn after_calls<T>(
    s: Seq<EntryModel<T>>,
    setters: Seq<SetterModel>,
    args: Seq<ArgumentModel<T>>,
    n: int,
) -> Seq<EntryModel<T>>
    decreases n,
{
    if n <= 0 {
        s
    } else {
        after_call(after_calls(s, setters, args, n - 1), setters[n - 1], args[n - 1])
    }
}

/// One call argument for each of `values`: the value itself.
pub open spec fn singles<T>(values: Seq<T>) -> Seq<ArgumentModel<T>> {
    Seq::new(values.len(), |i: int| ArgumentModel::One(values[i]))
}

/// The same setter, `n` times over.
pub open spec fn repeated(setter: SetterModel, n: nat) -> Seq<SetterModel> {
    Seq::new(n, |k: int| setter)
}

/// A field that must have been set and was not.
pub open spec fn lacks<T>(e: EntryModel<T>) -> bool {
    e.rule == FinalRule::Require && e.slot == SlotState::<T>::Single(None)
}

/// The first among the first `n` fields that must have been set and was not.
pub open spec fn first_lacking<T>(s: Seq<EntryModel<T>>, n: int) -> Option<int>
    decreases n,
{
    if n <= 0 {
        None
    } else {
        match first_lacking(s, n - 1) {
            Some(i) => Some(i),
            None => if lacks(s[n - 1]) {
                Some(n - 1)
            } else {
                None
            },
        }
    }
}

/// The field that the finished record gets from an entry.
pub open spec fn field_of<T>(e: EntryModel<T>) -> FieldValueModel<T> {
    match e.slot {
        SlotState::Single(Some(v)) => if e.rule == FinalRule::Require {
            FieldValueModel::Plain(v)
        } else {
            FieldValueModel::Optional(Some(v))
        },
        SlotState::Single(None) => FieldValueModel::Optional(None),
        SlotState::Many(vs) => FieldValueModel::Repeated(vs),
    }
}

/// What the finalising method says of a field that was not set.
pub open spec fn missing_message(name: Seq<char>) -> Seq<char> {
    name + " field missing"@
}

/// What the finalising method returns: the name of the first field, in
/// declaration order, that must have been set and was not; or, where there is
/// none, the record with every field taken from its slot.
pub open spec fn outcome<T>(s: Seq<EntryModel<T>>) -> Result<Seq<FieldValueModel<T>>, Seq<char>> {
    match first_lacking(s, s.len() as int) {
        Some(i) => Err(missing_message(s[i].name)),
        None => Ok(Seq::new(s.len(), |i: int| field_of(s[i]))),
    }
}

/// The position of the first of the first `n` setters that is called `name`.
pub open spec fn first_named(setters: Seq<SetterModel>, name: Seq<char>, n: int) -> Option<int>
    decreases n,
{
    if n <= 0 {
        None
    } else {
        match first_named(setters, name, n - 1) {
            Some(i) => Some(i),
            None => if setters[n - 1].name == name {
                Some(n - 1)
            } else {
                None
            },
        }
    }
}

/// The first lacking field, once found among the first `m`, stays the answer.
pub proof fn lemma_first_lacking_stays<T>(s: Seq<EntryModel<T>>, m: int, n: int)
    requires
        m <= n,
        first_lacking(s, m) is Some,
    ensures
        first_lacking(s, n) == first_lacking(s, m),
    decreases n - m,
{
    if m < n {
        lemma_first_lacking_stays(s, m, n - 1);
    }
}

/// The first setter of a name, once found among the first `m`, stays the
/// answer.
pub proof fn lemma_first_named_stays(setters: Seq<SetterModel>, name: Seq<char>, m: int, n: int)
    requires
        m <= n,
        first_named(setters, name, m) is Some,
    ensures
        first_named(setters, name, n) == first_named(setters, name, m),
    decreases n - m,
{
    if m < n {
        lemma_first_named_stays(setters, name, m, n - 1);
    }
}

/// What [`first_lacking`] finds: nothing where no field lacks, else the
/// earliest field that does.
pub proof fn lemma_first_lacking<T>(s: Seq<EntryModel<T>>, n: int)
    requires
        0 <= n <= s.len(),
    ensures
        match first_lacking(s, n) {
            None => forall|i: int| 0 <= i < n ==> !lacks(#[trigger] s[i]),
            Some(i) => 0 <= i < n && lacks(s[i]) && forall|k: int|
                0 <= k < i ==> !lacks(#[trigger] s[k]),
        },
    decreases n,
{
    if n > 0 {
        lemma_first_lacking(s, n - 1);
    }
}

/// Fail fast: the finalising method succeeds exactly where no field lacks
/// its value, and then gives every field from its slot; otherwise it names
/// the first field, in declaration order, that lacks one, and gives no record.
pub proof fn law_finish_fails_fast<T>(s: Seq<EntryModel<T>>)
    ensures
        outcome(s) is Ok <==> forall|i: int| 0 <= i < s.len() ==> !lacks(#[trigger] s[i]),
        outcome(s) is Ok ==> outcome(s)->Ok_0.len() == s.len() && forall|i: int|
            0 <= i < s.len() ==> (#[trigger] outcome(s)->Ok_0[i]) == field_of(s[i]),
        outcome(s) is Err ==> exists|i: int|
            0 <= i < s.len() && lacks(#[trigger] s[i]) && outcome(s)->Err_0 == missing_message(
                s[i].name,
            ) && forall|k: int| 0 <= k < i ==> !lacks(#[trigger] s[k]),
{
    lemma_first_lacking(s, s.len() as int);
    match first_lacking(s, s.len() as int) {
        Some(i) => {
            assert(lacks(s[i]));
        },
        None => {},
    }
}

/// A run of calls keeps the number of fields, their names and their rules,
/// and leaves alone every slot that no call of the run writes.
pub proof fn lemma_calls_frame<T>(
    s: Seq<EntryModel<T>>,
    setters: Seq<SetterModel>,
    args: Seq<ArgumentModel<T>>,
    n: int,
)
    requires
        0 <= n <= setters.len(),
    ensures
        after_calls(s, setters, args, n).len() == s.len(),
        forall|i: int|
            0 <= i < s.len() ==> (#[trigger] after_calls(s, setters, args, n)[i]).name == s[i].name
                && after_calls(s, setters, args, n)[i].rule == s[i].rule,
        forall|i: int|
            0 <= i < s.len() && (forall|k: int| 0 <= k < n ==> (#[trigger] setters[k]).slot != i)
                ==> (#[trigger] after_calls(s, setters, args, n)[i]) == s[i],
    decreases n,
{
    if n > 0 {
        lemma_calls_frame(s, setters, args, n - 1);
        let before = after_calls(s, setters, args, n - 1);
        let after = after_calls(s, setters, args, n);
        assert(after == after_call(before, setters[n - 1], args[n - 1]));
        assert forall|i: int|
            0 <= i < s.len() && (forall|k: int|
                0 <= k < n ==> (#[trigger] setters[k]).slot != i) implies (#[trigger] after[i])
            == s[i] by {
            assert(setters[n - 1].slot != i);
            assert(forall|k: int| 0 <= k < n - 1 ==> (#[trigger] setters[k]).slot != i);
            assert(before[i] == s[i]);
        }
    }
}

/// Appending `vs` one by one through an appending setter puts them behind
/// what its slot held, in the order of the calls, and changes nothing else.
pub proof fn lemma_appends_collect<T>(
    s: Seq<EntryModel<T>>,
    setter: SetterModel,
    xs: Seq<T>,
    vs: Seq<T>,
    n: int,
)
    requires
        0 <= n <= vs.len(),
        setter.action == SetterAction::Append,
        0 <= setter.slot < s.len(),
        s[setter.slot].slot == SlotState::Many(xs),
    ensures
        after_calls(
            s,
            repeated(setter, vs.len()),
            singles(vs),
            n,
        ) == s.update(
            setter.slot,
            EntryModel {
                name: s[setter.slot].name,
                rule: s[setter.slot].rule,
                slot: SlotState::Many(xs + vs.subrange(0, n)),
            },
        ),
    decreases n,
{
    let setters = repeated(setter, vs.len());
    let args = singles(vs);
    let j = setter.slot;
    if n <= 0 {
        assert(xs + vs.subrange(0, 0) =~= xs);
        assert(s.update(j, s[j]) =~= s);
    } else {
        lemma_appends_collect(s, setter, xs, vs, n - 1);
        let before = after_calls(s, setters, args, n - 1);
        assert(before[j].slot == SlotState::Many(xs + vs.subrange(0, n - 1)));
        assert((xs + vs.subrange(0, n - 1)).push(vs[n - 1]) =~= xs + vs.subrange(0, n));
        assert(after_call(before, setters[n - 1], args[n - 1]) =~= s.update(
            j,
            EntryModel {
                name: s[j].name,
                rule: s[j].rule,
                slot: SlotState::Many(xs + vs.subrange(0, n)),
            },
        ));
    }
}

/// Every setter of field `j` is among the setters of the first `n` fields,
/// for any `n` beyond `j`.
pub proof fn lemma_setters_hold(fields: Seq<FieldModel>, cs: Seq<ClassModel>, n: int, j: int)
    requires
        0 <= j < n <= fields.len(),
    ensures
        forall|t: int|
            0 <= t < setters_for(fields[j], cs[j], j).len() ==> setters_upto(
                fields,
                cs,
                n,
            ).contains(#[trigger] setters_for(fields[j], cs[j], j)[t]),
    decreases n,
{
    let all = setters_upto(fields, cs, n);
    let head = setters_upto(fields, cs, n - 1);
    let tail = setters_for(fields[n - 1], cs[n - 1], n - 1);
    assert(all == head + tail);
    if j == n - 1 {
        assert forall|t: int| 0 <= t < tail.len() implies all.contains(#[trigger] tail[t]) by {
            assert(all[head.len() + t] == tail[t]);
        }
    } else {
        lemma_setters_hold(fields, cs, n - 1, j);
        let mine = setters_for(fields[j], cs[j], j);
        assert forall|t: int| 0 <= t < mine.len() implies all.contains(#[trigger] mine[t]) by {
            assert(head.contains(mine[t]));
            let w = choose|w: int| 0 <= w < head.len() && head[w] == mine[t];
            assert(all[w] == mine[t]);
        }
    }
}

/// Where the first `n` fields are all plain, they have one setter each, at
/// the field's own position, which stores into the field's slot.
pub proof fn lemma_plain_setters(fields: Seq<FieldModel>, cs: Seq<ClassModel>, n: int)
    requires
        0 <= n <= fields.len(),
        forall|i: int| 0 <= i < n ==> (#[trigger] cs[i]) == ClassModel::Plain,
    ensures
        setters_upto(fields, cs, n).len() == n,
        forall|i: int|
            0 <= i < n ==> (#[trigger] setters_upto(fields, cs, n)[i]) == (SetterModel {
                name: fields[i].name,
                slot: i,
                param: fields[i].ty,
                action: SetterAction::Store,
            }),
    decreases n,
{
    if n > 0 {
        lemma_plain_setters(fields, cs, n - 1);
        assert(cs[n - 1] == ClassModel::Plain);
    }
}

/// Storing `values[k]` into slot `k`, for the first `n` slots in turn, fills
/// those slots and leaves the others as they were.
pub proof fn lemma_stores_fill<T>(
    s: Seq<EntryModel<T>>,
    setters: Seq<SetterModel>,
    values: Seq<T>,
    n: int,
)
    requires
        0 <= n <= s.len(),
        setters.len() == s.len(),
        values.len() == s.len(),
        forall|i: int|
            0 <= i < s.len() ==> (#[trigger] setters[i]).slot == i && setters[i].action
                == SetterAction::Store,
        forall|i: int| 0 <= i < s.len() ==> (#[trigger] s[i]).slot == SlotState::<T>::Single(None),
    ensures
        after_calls(s, setters, singles(values), n).len()
            == s.len(),
        forall|i: int|
            0 <= i < s.len() ==> (#[trigger] after_calls(
                s,
                setters,
                singles(values),
                n,
            )[i]) == (EntryModel {
                name: s[i].name,
                rule: s[i].rule,
                slot: if i < n {
                    SlotState::Single(Some(values[i]))
                } else {
                    SlotState::Single(None)
                },
            }),
    decreases n,
{
    if n > 0 {
        lemma_stores_fill(s, setters, values, n - 1);
        let args = singles(values);
        let before = after_calls(s, setters, args, n - 1);
        assert(setters[n - 1].slot == n - 1);
        assert(before[n - 1].slot == SlotState::<T>::Single(None));
        assert(args[n - 1] == ArgumentModel::One(values[n - 1]));
    }
}

/// A record of plain fields only: setting every field and finalising gives
/// the record that holds the same values, field by field.
pub proof fn law_plain_record_round_trip<T>(r: RecordModel, values: Seq<T>)
    requires
        r.shape == RecordShape::Named,
        values.len() == r.fields.len(),
        forall|i: int|
            0 <= i < r.fields.len() ==> (#[trigger] classify_spec(r.fields[i], i)) == Ok::<
                ClassModel,
                Fault,
            >(ClassModel::Plain),
    ensures
        builder_plan(r) is Ok,
        builder_plan(r)->Ok_0.setters.len() == r.fields.len(),
        outcome(
            after_calls(
                start_of::<T>(builder_plan(r)->Ok_0),
                builder_plan(r)->Ok_0.setters,
                singles(values),
                r.fields.len() as int,
            ),
        ) == Ok::<Seq<FieldValueModel<T>>, Seq<char>>(
            Seq::new(r.fields.len(), |i: int| FieldValueModel::Plain(values[i])),
        ),
{
    let n = r.fields.len() as int;
    lemma_classes_upto(r.fields, n);
    let cs = classes_of(r.fields)->Ok_0;
    assert(classes_of(r.fields) is Ok);
    assert forall|i: int| 0 <= i < n implies (#[trigger] cs[i]) == ClassModel::Plain by {
        assert(classify_spec(r.fields[i], i) == Ok::<ClassModel, Fault>(cs[i]));
    }
    let b = builder_of(r, cs);
    assert(builder_plan(r) == Ok::<BuilderModel, Fault>(b));
    lemma_plain_setters(r.fields, cs, n);
    let s = start_of::<T>(b);
    lemma_stores_fill(s, b.setters, values, n);
    let args = singles(values);
    let end = after_calls(s, b.setters, args, n);
    law_finish_fails_fast(end);
    assert forall|i: int| 0 <= i < end.len() implies !lacks(#[trigger] end[i]) by {}
    assert(outcome(end)->Ok_0 =~= Seq::new(
        r.fields.len(),
        |i: int| FieldValueModel::Plain(values[i]),
    )) by {
        assert forall|i: int| 0 <= i < n implies (#[trigger] outcome(end)->Ok_0[i])
            == FieldValueModel::Plain(values[i]) by {
            assert(end[i].rule == FinalRule::Require);
        }
    }
}

/// A field that no call writes. If it is optional, it does not stand in the
/// way of finalising, and the finished record has it absent. If it is plain,
/// finalising fails and gives no record.
pub proof fn law_unset_fields<T>(
    r: RecordModel,
    setters: Seq<SetterModel>,
    args: Seq<ArgumentModel<T>>,
    j: int,
)
    requires
        builder_plan(r) is Ok,
        0 <= j < r.fields.len(),
        forall|k: int| 0 <= k < setters.len() ==> (#[trigger] setters[k]).slot != j,
    ensures
        classify_spec(r.fields[j], j) is Ok,
        ({
            let end = after_calls(
                start_of::<T>(builder_plan(r)->Ok_0),
                setters,
                args,
                setters.len() as int,
            );
            match classify_spec(r.fields[j], j)->Ok_0 {
                ClassModel::Optional(_) => !lacks(end[j]) && (outcome(end) is Ok ==> outcome(
                    end,
                )->Ok_0[j] == FieldValueModel::<T>::Optional(None)),
                ClassModel::Plain => lacks(end[j]) && outcome(end) is Err,
                ClassModel::Repeated(_, _) => !lacks(end[j]) && (outcome(end) is Ok ==> outcome(
                    end,
                )->Ok_0[j] == FieldValueModel::<T>::Repeated(Seq::empty())),
            }
        }),
{
    let n = r.fields.len() as int;
    lemma_classes_upto(r.fields, n);
    let cs = classes_of(r.fields)->Ok_0;
    assert(classify_spec(r.fields[j], j) == Ok::<ClassModel, Fault>(cs[j]));
    let b = builder_of(r, cs);
    let s = start_of::<T>(b);
    let end = after_calls(s, setters, args, setters.len() as int);
    lemma_calls_frame(s, setters, args, setters.len() as int);
    assert(end[j] == s[j]);
    law_finish_fails_fast(end);
}

/// A repeated field. Its singular setter is among the builder's setters;
/// called once for each of `vs` on a new builder, it leaves the field's slot
/// holding exactly `vs`, in the order of the calls, and the finished record
/// has them so. Where the field has a bulk setter too, a call of it
/// afterwards with `ws` leaves the slot holding exactly `ws`.
pub proof fn law_repeated_field_collects<T>(r: RecordModel, j: int, vs: Seq<T>, ws: Seq<T>)
    requires
        builder_plan(r) is Ok,
        0 <= j < r.fields.len(),
        classify_spec(r.fields[j], j) is Ok,
        classify_spec(r.fields[j], j)->Ok_0 is Repeated,
    ensures
        ({
            let b = builder_plan(r)->Ok_0;
            let inner = classify_spec(r.fields[j], j)->Ok_0->Repeated_0;
            let each = classify_spec(r.fields[j], j)->Ok_0->Repeated_1;
            let single = SetterModel {
                name: each,
                slot: j,
                param: inner,
                action: SetterAction::Append,
            };
            let bulk = SetterModel {
                name: r.fields[j].name,
                slot: j,
                param: r.fields[j].ty,
                action: SetterAction::Overwrite,
            };
            let end = after_calls(
                start_of::<T>(b),
                repeated(single, vs.len()),
                singles(vs),
                vs.len() as int,
            );
            &&& b.setters.contains(single)
            &&& end.len() == r.fields.len()
            &&& end[j].slot == SlotState::Many(vs)
            &&& outcome(end) is Ok ==> outcome(end)->Ok_0[j] == FieldValueModel::Repeated(vs)
            &&& each != r.fields[j].name ==> b.setters.contains(bulk) && after_call(
                end,
                bulk,
                ArgumentModel::Whole(ws),
            )[j].slot == SlotState::Many(ws)
        }),
{
    let n = r.fields.len() as int;
    lemma_classes_upto(r.fields, n);
    let cs = classes_of(r.fields)->Ok_0;
    assert(classify_spec(r.fields[j], j) == Ok::<ClassModel, Fault>(cs[j]));
    let b = builder_of(r, cs);
    let inner = cs[j]->Repeated_0;
    let each = cs[j]->Repeated_1;
    let single = SetterModel { name: each, slot: j, param: inner, action: SetterAction::Append };
    let bulk = SetterModel {
        name: r.fields[j].name,
        slot: j,
        param: r.fields[j].ty,
        action: SetterAction::Overwrite,
    };
    lemma_setters_hold(r.fields, cs, n, j);
    let mine = setters_for(r.fields[j], cs[j], j);
    assert(mine[0] == single);
    if each != r.fields[j].name {
        assert(mine[1] == bulk);
    }
    let s = start_of::<T>(b);
    assert(s[j].slot == SlotState::<T>::Many(Seq::empty()));
    lemma_appends_collect(s, single, Seq::<T>::empty(), vs, vs.len() as int);
    assert(Seq::<T>::empty() + vs.subrange(0, vs.len() as int) =~= vs);
    let end = after_calls(
        s,
        repeated(single, vs.len()),
        singles(vs),
        vs.len() as int,
    );
    law_finish_fails_fast(end);
}

impl BuilderFragment {
    /// The position of the setter that a call by `name` reaches: the first of
    /// that name.
    pub fn setter_named(&self, name: &str) -> (r: Option<usize>)
        ensures
            match first_named(self@.setters, name@, self@.setters.len() as int) {
                Some(i) => r == Some(i as usize) && 0 <= i < self.setters@.len(),
                None => r is None,
            },
    {
        let mut i: usize = 0;
        while i < self.setters.len()
            invariant
                i <= self.setters.len(),
                first_named(self@.setters, name@, i as int) is None,
            decreases self.setters.len() - i,
        {
            assert(self@.setters[i as int] == self.setters@[i as int]@);
            if is_text(&self.setters[i].name, name) {
                proof {
                    lemma_first_named_stays(
                        self@.setters,
                        name@,
                        i + 1,
                        self@.setters.len() as int,
                    );
                }
                return Some(i);
            }
            i += 1;
        }
        None
    }
}

impl<T> Staged<T> {
    /// The builder that the factory method returns.
    pub fn start(fragment: &BuilderFragment) -> (r: Staged<T>)
        ensures
            r@ == start_of::<T>(fragment@),
    {
        let mut entries: Vec<Entry<T>> = Vec::new();
        let mut i: usize = 0;
        while i < fragment.build.steps.len()
            invariant
                i <= fragment.build.steps.len(),
                entries@.len() == i,
                forall|k: int| 0 <= k < i ==> entries@[k]@ == start_of::<T>(fragment@)[k],
            decreases fragment.build.steps.len() - i,
        {
            let step = &fragment.build.steps[i];
            assert(fragment@.build.steps[i as int] == step@);
            let mut slot: Slot<T> = Slot::Single(None);
            if i < fragment.inits.len() {
                assert(fragment@.inits[i as int] == fragment.inits@[i as int]@);
                match fragment.inits[i].value {
                    InitValue::Empty => {
                        slot = Slot::Many(Vec::new());
                        assert(slot@ == SlotState::<T>::Many(Seq::empty()));
                    },
                    InitValue::Absent => {},
                }
            }
            entries.push(Entry { name: step.name.clone(), rule: step.rule, slot });
            i += 1;
        }
        let r = Staged { entries };
        assert(r@ =~= start_of::<T>(fragment@));
        r
    }

    /// Calls `setter` with `arg`. Returns whether the call fits; one that does
    /// not leaves the builder as it was.
    pub fn call(&mut self, setter: &SetterDef, arg: Argument<T>) -> (ok: bool)
        ensures
            ok == accepts(old(self)@, setter@, arg@),
            final(self)@ == after_call(old(self)@, setter@, arg@),
    {
        let at = setter.slot;
        if at >= self.entries.len() {
            return false;
        }
        let ghost before = self.entries@;
        assert(old(self)@[at as int] == before[at as int]@);
        let Entry { name, rule, slot } = self.entries.remove(at);
        let (slot, ok): (Slot<T>, bool) = match setter.action {
            SetterAction::Store => match slot {
                Slot::Single(o) => match arg {
                    Argument::One(v) => (Slot::Single(Some(v)), true),
                    Argument::Whole(_) => (Slot::Single(o), false),
                },
                Slot::Many(vs) => (Slot::Many(vs), false),
            },
            SetterAction::Append => match slot {
                Slot::Many(vs) => match arg {
                    Argument::One(v) => {
                        let mut vs = vs;
                        vs.push(v);
                        (Slot::Many(vs), true)
                    },
                    Argument::Whole(_) => (Slot::Many(vs), false),
                },
                Slot::Single(o) => (Slot::Single(o), false),
            },
            SetterAction::Overwrite => match slot {
                Slot::Many(vs) => match arg {
                    Argument::Whole(ws) => (Slot::Many(ws), true),
                    Argument::One(_) => (Slot::Many(vs), false),
                },
                Slot::Single(o) => (Slot::Single(o), false),
            },
        };
        let entry = Entry { name, rule, slot };
        self.entries.insert(at, entry);
        assert(self.entries@ =~= before.update(at as int, entry));
        assert(self@ =~= after_call(old(self)@, setter@, arg@));
        ok
    }

    /// The finalising method.
    pub fn finish(self) -> (r: Result<Vec<FieldValue<T>>, String>)
        ensures
            match outcome(self@) {
                Ok(fields) => r is Ok && views(r->Ok_0@) == fields,
                Err(message) => r is Err && r->Err_0@ == message,
            },
    {
        let mut i: usize = 0;
        while i < self.entries.len()
            invariant
                i <= self.entries.len(),
                first_lacking(self@, i as int) is None,
            decreases self.entries.len() - i,
        {
            let e = &self.entries[i];
            assert(self@[i as int] == e@);
            let absent = match e.rule {
                FinalRule::Require => match &e.slot {
                    Slot::Single(None) => true,
                    _ => false,
                },
                FinalRule::Pass => false,
            };
            if absent {
                proof {
                    lemma_first_lacking_stays(self@, i + 1, self@.len() as int);
                }
                return Err(e.name.clone().concat(" field missing"));
            }
            i += 1;
        }
        let ghost all = self.entries@;
        let mut rest = self.entries;
        let mut turned: Vec<Entry<T>> = Vec::new();
        while rest.len() > 0
            invariant
                rest@.len() + turned@.len() == all.len(),
                rest@ == all.subrange(0, rest@.len() as int),
                forall|k: int| 0 <= k < turned@.len() ==> turned@[k] == all[all.len() - 1 - k],
            decreases rest.len(),
        {
            let e = rest.pop().unwrap();
            turned.push(e);
        }
        let mut out: Vec<FieldValue<T>> = Vec::new();
        while turned.len() > 0
            invariant
                turned@.len() + out@.len() == all.len(),
                forall|k: int| 0 <= k < turned@.len() ==> turned@[k] == all[all.len() - 1 - k],
                forall|k: int| 0 <= k < out@.len() ==> out@[k]@ == field_of(all[k]@),
            decreases turned.len(),
        {
            let Entry { name, rule, slot } = turned.pop().unwrap();
            let value = match slot {
                Slot::Single(Some(v)) => match rule {
                    FinalRule::Require => FieldValue::Plain(v),
                    FinalRule::Pass => FieldValue::Optional(Some(v)),
                },
                Slot::Single(None) => FieldValue::Optional(None),
                Slot::Many(vs) => FieldValue::Repeated(vs),
            };
            out.push(value);
        }
        assert(views(out@) =~= Seq::new(self@.len(), |i: int| field_of(self@[i])));
        Ok(out)
    }
}

} // verus!
