//! The builder generator: from a record declaration to the parts of its
//! staged builder.
//!
//! The parts are data, one entry per thing to emit. What each entry does when
//! the emitted builder runs is defined in [`crate::staged`].

use vstd::prelude::*;
use crate::fault::{fault, ErrorKind, ErrorSite, Fault, GenError};
use crate::introspect::{
    classes_of, classify_all, lemma_classes_upto, ClassModel, FieldClassification,
};
use crate::record::{views, FieldDecl, FieldModel, RecordDecl, RecordModel, RecordShape};
use crate::types::{TypeExpr, TypeTerm};

verus! {

/// The type of a builder's slot.
#[derive(Debug, PartialEq, Eq)]
pub enum Storage {
    /// `Option<T>` of the given `T`: absent until a value is stored.
    OptionOf(TypeExpr),
    /// The given collection type itself: empty until elements are appended.
    Collection(TypeExpr),
}

/// One field of the builder struct.
#[derive(Debug, PartialEq, Eq)]
pub struct SlotDef {
    pub name: String,
    pub storage: Storage,
}

/// The value that a slot starts with.
#[derive(Clone, Copy, PartialEq, Eq, Debug, Structural)]
pub enum InitValue {
    /// No value.
    Absent,
    /// An empty collection.
    Empty,
}

/// One initialiser of the factory method.
#[derive(Debug, PartialEq, Eq)]
pub struct InitClause {
    pub name: String,
    pub value: InitValue,
}

/// What a setter does to its slot.
#[derive(Clone, Copy, PartialEq, Eq, Debug, Structural)]
pub enum SetterAction {
    /// Stores the argument as the slot's value.
    Store,
    /// Appends the argument to the slot's collection.
    Append,
    /// Replaces the slot's collection by the argument.
    Overwrite,
}

/// One setter method: its name, the field whose slot it writes (by position),
/// the type of its argument, and what it does.
#[derive(Debug, PartialEq, Eq)]
pub struct SetterDef {
    pub name: String,
    pub slot: usize,
    pub param: TypeExpr,
    pub action: SetterAction,
}

/// How the finished record gets a field from its slot.
#[derive(Clone, Copy, PartialEq, Eq, Debug, Structural)]
pub enum FinalRule {
    /// The slot must hold a value, which becomes the field; an absent slot
    /// fails the whole assembly.
    Require,
    /// The slot becomes the field as it is.
    Pass,
}

/// One field of the final assembly.
#[derive(Debug, PartialEq, Eq)]
pub struct FinalStep {
    pub name: String,
    pub rule: FinalRule,
}

/// The finalising method: the record it produces and one step per field.
#[derive(Debug, PartialEq, Eq)]
pub struct BuildDef {
    pub record: String,
    pub steps: Vec<FinalStep>,
}

/// Everything that is emitted for a record's builder.
#[derive(Debug, PartialEq, Eq)]
pub struct BuilderFragment {
    pub record_name: String,
    pub builder_name: String,
    pub slots: Vec<SlotDef>,
    pub inits: Vec<InitClause>,
    pub setters: Vec<SetterDef>,
    pub build: BuildDef,
}

/// The mathematical value of a [`Storage`].
pub ghost enum StorageModel {
    OptionOf(TypeTerm),
    Collection(TypeTerm),
}

/// The mathematical value of a [`SlotDef`].
pub ghost struct SlotModel {
    pub name: Seq<char>,
    pub storage: StorageModel,
}

/// The mathematical value of a [`InitClause`].
pub ghost struct InitModel {
    pub name: Seq<char>,
    pub value: InitValue,
}

/// The mathematical value of a [`SetterDef`].
pub ghost struct SetterModel {
    pub name: Seq<char>,
    pub slot: int,
    pub param: TypeTerm,
    pub action: SetterAction,
}

/// The mathematical value of a [`FinalStep`].
pub ghost struct StepModel {
    pub name: Seq<char>,
    pub rule: FinalRule,
}

/// The mathematical value of a [`BuildDef`].
pub ghost struct BuildModel {
    pub record: Seq<char>,
    pub steps: Seq<StepModel>,
}

/// The mathematical value of a [`BuilderFragment`].
pub ghost struct BuilderModel {
    pub record_name: Seq<char>,
    pub builder_name: Seq<char>,
    pub slots: Seq<SlotModel>,
    pub inits: Seq<InitModel>,
    pub setters: Seq<SetterModel>,
    pub build: BuildModel,
}

impl View for Storage {
    type V = StorageModel;

    open spec fn view(&self) -> StorageModel {
        match self {
            Storage::OptionOf(t) => StorageModel::OptionOf(t@),
            Storage::Collection(t) => StorageModel::Collection(t@),
        }
    }
}

impl View for SlotDef {
    type V = SlotModel;

    open spec fn view(&self) -> SlotModel {
        SlotModel { name: self.name@, storage: self.storage@ }
    }
}

impl View for InitClause {
    type V = InitModel;

    open spec fn view(&self) -> InitModel {
        InitModel { name: self.name@, value: self.value }
    }
}

impl View for SetterDef {
    type V = SetterModel;

    open spec fn view(&self) -> SetterModel {
        SetterModel {
            name: self.name@,
            slot: self.slot as int,
            param: self.param@,
            action: self.action,
        }
    }
}

impl View for FinalStep {
    type V = StepModel;

    open spec fn view(&self) -> StepModel {
        StepModel { name: self.name@, rule: self.rule }
    }
}

impl View for BuildDef {
    type V = BuildModel;

    open spec fn view(&self) -> BuildModel {
        BuildModel { record: self.record@, steps: views(self.steps@) }
    }
}

impl View for BuilderFragment {
    type V = BuilderModel;

    open spec fn view(&self) -> BuilderModel {
        BuilderModel {
            record_name: self.record_name@,
            builder_name: self.builder_name@,
            slots: views(self.slots@),
            inits: views(self.inits@),
            setters: views(self.setters@),
            build: self.build@,
        }
    }
}

/// The slot of a field: optional and plain fields are kept in an
/// `Option` of the value's type, repeated fields in their own collection type.
pub open spec fn slot_for(f: FieldModel, c: ClassModel) -> SlotModel {
    SlotModel {
        name: f.name,
        storage: match c {
            ClassModel::Optional(inner) => StorageModel::OptionOf(inner),
            ClassModel::Repeated(_, _) => StorageModel::Collection(f.ty),
            ClassModel::Plain => StorageModel::OptionOf(f.ty),
        },
    }
}

/// The value that a field's slot starts with.
pub open spec fn init_for(f: FieldModel, c: ClassModel) -> InitModel {
    InitModel {
        name: f.name,
        value: match c {
            ClassModel::Repeated(_, _) => InitValue::Empty,
            _ => InitValue::Absent,
        },
    }
}

/// The setters of the field at position `index`. Optional and plain fields
/// have one, named like the field, that stores a value. A repeated field has
/// its singular setter, which appends one element, and, where that setter is
/// not named like the field, a second one named like the field that replaces
/// the whole collection.
pub open spec fn setters_for(f: FieldModel, c: ClassModel, index: int) -> Seq<SetterModel> {
    match c {
        ClassModel::Optional(inner) => seq![
            SetterModel { name: f.name, slot: index, param: inner, action: SetterAction::Store },
        ],
        ClassModel::Plain => seq![
            SetterModel { name: f.name, slot: index, param: f.ty, action: SetterAction::Store },
        ],
        ClassModel::Repeated(inner, each) => {
            let single = SetterModel {
                name: each,
                slot: index,
                param: inner,
                action: SetterAction::Append,
            };
            if each == f.name {
                seq![single]
            } else {
                seq![
                    single,
                    SetterModel {
                        name: f.name,
                        slot: index,
                        param: f.ty,
                        action: SetterAction::Overwrite,
                    },
                ]
            }
        },
    }
}

/// The final step of a field: only a plain field must have been set.
pub open spec fn step_for(f: FieldModel, c: ClassModel) -> StepModel {
    StepModel {
        name: f.name,
        rule: match c {
            ClassModel::Plain => FinalRule::Require,
            _ => FinalRule::Pass,
        },
    }
}

/// The slots of all fields, in declaration order.
pub open spec fn slots_of(fields: Seq<FieldModel>, cs: Seq<ClassModel>) -> Seq<SlotModel> {
    Seq::new(fields.len(), |i: int| slot_for(fields[i], cs[i]))
}

/// The initialisers of all fields, in declaration order.
pub open spec fn inits_of(fields: Seq<FieldModel>, cs: Seq<ClassModel>) -> Seq<InitModel> {
    Seq::new(fields.len(), |i: int| init_for(fields[i], cs[i]))
}

/// The final steps of all fields, in declaration order.
pub open spec fn steps_for(fields: Seq<FieldModel>, cs: Seq<ClassModel>) -> Seq<StepModel> {
    Seq::new(fields.len(), |i: int| step_for(fields[i], cs[i]))
}

/// The setters of the first `n` fields, in declaration order.
pub open spec fn setters_upto(fields: Seq<FieldModel>, cs: Seq<ClassModel>, n: int) -> Seq<
    SetterModel,
>
    decreases n,
{
    if n <= 0 {
        Seq::empty()
    } else {
        setters_upto(fields, cs, n - 1) + setters_for(fields[n - 1], cs[n - 1], n - 1)
    }
}

/// The setters of all fields, in declaration order.
pub open spec fn setters_of(fields: Seq<FieldModel>, cs: Seq<ClassModel>) -> Seq<SetterModel> {
    setters_upto(fields, cs, fields.len() as int)
}

/// The name of a record's builder.
pub open spec fn builder_name_of(record_name: Seq<char>) -> Seq<char> {
    record_name + "Builder"@
}

/// The finalising method of a record.
pub open spec fn build_of(record_name: Seq<char>, fields: Seq<FieldModel>, cs: Seq<ClassModel>)
    -> BuildModel {
    BuildModel { record: record_name, steps: steps_for(fields, cs) }
}

/// The builder of a record whose fields have the classifications `cs`.
pub open spec fn builder_of(r: RecordModel, cs: Seq<ClassModel>) -> BuilderModel {
    BuilderModel {
        record_name: r.name,
        builder_name: builder_name_of(r.name),
        slots: slots_of(r.fields, cs),
        inits: inits_of(r.fields, cs),
        setters: setters_of(r.fields, cs),
        build: build_of(r.name, r.fields, cs),
    }
}

/// What the builder generator answers for a record: a rejection of the
/// declaration's shape comes first, then that of the first field that has one.
pub open spec fn builder_plan(r: RecordModel) -> Result<BuilderModel, Fault> {
    if r.shape != RecordShape::Named {
        Err(fault(ErrorSite::Declaration, ErrorKind::NeedsNamedFields))
    } else {
        match classes_of(r.fields) {
            Err(e) => Err(e),
            Ok(cs) => Ok(builder_of(r, cs)),
        }
    }
}

/// Every setter of the first `n` fields writes the slot of one of them.
pub proof fn lemma_setters_in_range(fields: Seq<FieldModel>, cs: Seq<ClassModel>, n: int)
    requires
        0 <= n <= fields.len(),
    ensures
        forall|k: int|
            0 <= k < setters_upto(fields, cs, n).len() ==> 0 <= (#[trigger] setters_upto(
                fields,
                cs,
                n,
            )[k]).slot < n,
    decreases n,
{
    if n > 0 {
        lemma_setters_in_range(fields, cs, n - 1);
        let head = setters_upto(fields, cs, n - 1);
        let tail = setters_for(fields[n - 1], cs[n - 1], n - 1);
        let all = setters_upto(fields, cs, n);
        assert forall|k: int| 0 <= k < all.len() implies 0 <= (#[trigger] all[k]).slot < n by {
            if k < head.len() {
                assert(all[k] == head[k]);
            } else {
                assert(all[k] == tail[k - head.len()]);
            }
        }
    }
}

/// The parts of a builder fit together: one slot, one initialiser and one
/// final step per field, under the field's name and in declaration order,
/// and every setter writes a slot that is there.
pub proof fn law_builder_parts_fit(r: RecordModel)
    requires
        builder_plan(r) is Ok,
    ensures
        builder_plan(r)->Ok_0.slots.len() == r.fields.len(),
        builder_plan(r)->Ok_0.inits.len() == r.fields.len(),
        builder_plan(r)->Ok_0.build.steps.len() == r.fields.len(),
        forall|i: int|
            #![trigger r.fields[i]]
            0 <= i < r.fields.len() ==> builder_plan(r)->Ok_0.slots[i].name == r.fields[i].name
                && builder_plan(r)->Ok_0.inits[i].name == r.fields[i].name && builder_plan(
                r,
            )->Ok_0.build.steps[i].name == r.fields[i].name,
        forall|k: int|
            0 <= k < builder_plan(r)->Ok_0.setters.len() ==> 0 <= (#[trigger] builder_plan(
                r,
            )->Ok_0.setters[k]).slot < r.fields.len(),
{
    let cs = classes_of(r.fields)->Ok_0;
    lemma_setters_in_range(r.fields, cs, r.fields.len() as int);
}

/// The fields of a record, which must have named fields.
pub fn get_fields_from_derive_input(d: &RecordDecl) -> (r: Result<&Vec<FieldDecl>, GenError>)
    ensures
        d.shape == RecordShape::Named ==> r is Ok && *(r->Ok_0) == d.fields,
        d.shape != RecordShape::Named ==> r is Err && r->Err_0@ == fault(
            ErrorSite::Declaration,
            ErrorKind::NeedsNamedFields,
        ),
{
    match d.shape {
        RecordShape::Named => Ok(&d.fields),
        _ => Err(GenError::at(ErrorSite::Declaration, ErrorKind::NeedsNamedFields)),
    }
}

/// The fields of the builder struct.
pub fn generate_builder_struct_fields_def(fields: &Vec<FieldDecl>) -> (r: Result<
    Vec<SlotDef>,
    GenError,
>)
    ensures
        match classes_of(views(fields@)) {
            Ok(cs) => r is Ok && views(r->Ok_0@) == slots_of(views(fields@), cs),
            Err(e) => r is Err && r->Err_0@ == e,
        },
{
    let classes = match classify_all(fields) {
        Ok(c) => c,
        Err(e) => {
            return Err(e);
        },
    };
    proof {
        lemma_classes_upto(views(fields@), fields@.len() as int);
    }
    let mut out: Vec<SlotDef> = Vec::new();
    let mut i: usize = 0;
    while i < fields.len()
        invariant
            i <= fields.len(),
            classes@.len() == fields@.len(),
            out@.len() == i,
            forall|k: int| 0 <= k < i ==> out@[k]@ == slot_for(fields@[k]@, classes@[k]@),
        decreases fields.len() - i,
    {
        let f = &fields[i];
        let storage = match &classes[i] {
            FieldClassification::Optional(inner) => Storage::OptionOf(inner.duplicate()),
            FieldClassification::Repeated(_, _) => Storage::Collection(f.ty.duplicate()),
            FieldClassification::Plain => Storage::OptionOf(f.ty.duplicate()),
        };
        out.push(SlotDef { name: f.name.clone(), storage });
        i += 1;
    }
    assert(views(out@) =~= slots_of(views(fields@), views(classes@)));
    Ok(out)
}

/// The initialisers of the factory method.
pub fn generate_builder_struct_factory_init_clauses(fields: &Vec<FieldDecl>) -> (r: Result<
    Vec<InitClause>,
    GenError,
>)
    ensures
        match classes_of(views(fields@)) {
            Ok(cs) => r is Ok && views(r->Ok_0@) == inits_of(views(fields@), cs),
            Err(e) => r is Err && r->Err_0@ == e,
        },
{
    let classes = match classify_all(fields) {
        Ok(c) => c,
        Err(e) => {
            return Err(e);
        },
    };
    proof {
        lemma_classes_upto(views(fields@), fields@.len() as int);
    }
    let mut out: Vec<InitClause> = Vec::new();
    let mut i: usize = 0;
    while i < fields.len()
        invariant
            i <= fields.len(),
            classes@.len() == fields@.len(),
            out@.len() == i,
            forall|k: int| 0 <= k < i ==> out@[k]@ == init_for(fields@[k]@, classes@[k]@),
        decreases fields.len() - i,
    {
        let f = &fields[i];
        let value = match &classes[i] {
            FieldClassification::Repeated(_, _) => InitValue::Empty,
            _ => InitValue::Absent,
        };
        out.push(InitClause { name: f.name.clone(), value });
        i += 1;
    }
    assert(views(out@) =~= inits_of(views(fields@), views(classes@)));
    Ok(out)
}

/// The setter methods.
pub fn generate_setter_functions(fields: &Vec<FieldDecl>) -> (r: Result<Vec<SetterDef>, GenError>)
    ensures
        match classes_of(views(fields@)) {
            Ok(cs) => r is Ok && views(r->Ok_0@) == setters_of(views(fields@), cs),
            Err(e) => r is Err && r->Err_0@ == e,
        },
{
    let classes = match classify_all(fields) {
        Ok(c) => c,
        Err(e) => {
            return Err(e);
        },
    };
    proof {
        lemma_classes_upto(views(fields@), fields@.len() as int);
    }
    let mut out: Vec<SetterDef> = Vec::new();
    let mut i: usize = 0;
    assert(views(out@) =~= Seq::<SetterModel>::empty());
    while i < fields.len()
        invariant
            i <= fields.len(),
            classes@.len() == fields@.len(),
            views(out@) == setters_upto(views(fields@), views(classes@), i as int),
        decreases fields.len() - i,
    {
        let f = &fields[i];
        let ghost before = views(out@);
        let ghost added = setters_for(f@, classes@[i as int]@, i as int);
        assert(views(fields@)[i as int] == f@);
        assert(views(classes@)[i as int] == classes@[i as int]@);
        match &classes[i] {
            FieldClassification::Optional(inner) => {
                out.push(
                    SetterDef {
                        name: f.name.clone(),
                        slot: i,
                        param: inner.duplicate(),
                        action: SetterAction::Store,
                    },
                );
            },
            FieldClassification::Plain => {
                out.push(
                    SetterDef {
                        name: f.name.clone(),
                        slot: i,
                        param: f.ty.duplicate(),
                        action: SetterAction::Store,
                    },
                );
            },
            FieldClassification::Repeated(inner, each) => {
                out.push(
                    SetterDef {
                        name: each.clone(),
                        slot: i,
                        param: inner.duplicate(),
                        action: SetterAction::Append,
                    },
                );
                if *each != f.name {
                    out.push(
                        SetterDef {
                            name: f.name.clone(),
                            slot: i,
                            param: f.ty.duplicate(),
                            action: SetterAction::Overwrite,
                        },
                    );
                }
            },
        }
        assert(views(out@) =~= before + added);
        i += 1;
    }
    Ok(out)
}

/// The finalising method.
pub fn generate_build_function(fields: &Vec<FieldDecl>, origin_struct_ident: &String) -> (r:
    Result<BuildDef, GenError>)
    ensures
        match classes_of(views(fields@)) {
            Ok(cs) => r is Ok && r->Ok_0@ == build_of(origin_struct_ident@, views(fields@), cs),
            Err(e) => r is Err && r->Err_0@ == e,
        },
{
    let classes = match classify_all(fields) {
        Ok(c) => c,
        Err(e) => {
            return Err(e);
        },
    };
    proof {
        lemma_classes_upto(views(fields@), fields@.len() as int);
    }
    let mut steps: Vec<FinalStep> = Vec::new();
    let mut i: usize = 0;
    while i < fields.len()
        invariant
            i <= fields.len(),
            classes@.len() == fields@.len(),
            steps@.len() == i,
            forall|k: int| 0 <= k < i ==> steps@[k]@ == step_for(fields@[k]@, classes@[k]@),
        decreases fields.len() - i,
    {
        let f = &fields[i];
        let rule = match &classes[i] {
            FieldClassification::Plain => FinalRule::Require,
            _ => FinalRule::Pass,
        };
        steps.push(FinalStep { name: f.name.clone(), rule });
        i += 1;
    }
    assert(views(steps@) =~= steps_for(views(fields@), views(classes@)));
    Ok(BuildDef { record: origin_struct_ident.clone(), steps })
}

/// The builder of a record: its struct, its factory, its setters and its
/// finalising method.
pub fn expand_builder(input: &RecordDecl) -> (r: Result<BuilderFragment, GenError>)
    ensures
        match builder_plan(input@) {
            Ok(b) => r is Ok && r->Ok_0@ == b,
            Err(e) => r is Err && r->Err_0@ == e,
        },
{
    let builder_name = input.name.clone().concat("Builder");
    let fields = match get_fields_from_derive_input(input) {
        Ok(f) => f,
        Err(e) => {
            return Err(e);
        },
    };
    let slots = match generate_builder_struct_fields_def(fields) {
        Ok(v) => v,
        Err(e) => {
            return Err(e);
        },
    };
    let inits = match generate_builder_struct_factory_init_clauses(fields) {
        Ok(v) => v,
        Err(e) => {
            return Err(e);
        },
    };
    let setters = match generate_setter_functions(fields) {
        Ok(v) => v,
        Err(e) => {
            return Err(e);
        },
    };
    let build = match generate_build_function(fields, &input.name) {
        Ok(v) => v,
        Err(e) => {
            return Err(e);
        },
    };
    Ok(BuilderFragment { record_name: input.name.clone(), builder_name, slots, inits, setters, build })
}

} // verus!
