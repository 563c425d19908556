//! The printer generator: from a record declaration to the parts of its
//! structured formatting implementation.

use vstd::prelude::*;
use crate::bounds::{
    infer_bounds, inferred, overridden, override_bounds, BoundModel, BoundPlan, Predicate,
    PredicateModel,
};
use crate::clause::clause_fault;
use crate::fault::{fault, ErrorKind, ErrorSite, Fault, GenError};
use crate::introspect::{
    format_of, get_custom_format_of_field, get_struct_escape_hatch, override_of,
};
use crate::record::{
    views, FieldDecl, FieldModel, GenericParam, ParamModel, RecordDecl, RecordModel, RecordShape,
};

verus! {

/// One field of the printed record: the field's name, which is also its
/// label, and the template that renders its value.
#[derive(Debug, PartialEq, Eq)]
pub struct DebugEntry {
    pub name: String,
    pub format: String,
}

/// The body of the formatting method: the label of the record and its
/// fields, in the order in which they are printed.
#[derive(Debug, PartialEq, Eq)]
pub struct PrinterBody {
    pub label: String,
    pub entries: Vec<DebugEntry>,
}

/// Everything that is emitted for a record's printer.
#[derive(Debug, PartialEq, Eq)]
pub struct DebugFragment {
    pub record_name: String,
    pub params: Vec<GenericParam>,
    pub predicates: Vec<Predicate>,
    pub body: PrinterBody,
}

/// The mathematical value of a [`DebugEntry`].
pub ghost struct DebugEntryModel {
    pub name: Seq<char>,
    pub format: Seq<char>,
}

/// The mathematical value of a [`PrinterBody`].
pub ghost struct PrinterModel {
    pub label: Seq<char>,
    pub entries: Seq<DebugEntryModel>,
}

/// The mathematical value of a [`DebugFragment`].
pub ghost struct DebugModel {
    pub record_name: Seq<char>,
    pub params: Seq<ParamModel>,
    pub predicates: Seq<PredicateModel>,
    pub body: PrinterModel,
}

impl View for DebugEntry {
    type V = DebugEntryModel;

    open spec fn view(&self) -> DebugEntryModel {
        DebugEntryModel { name: self.name@, format: self.format@ }
    }
}

impl View for PrinterBody {
    type V = PrinterModel;

    open spec fn view(&self) -> PrinterModel {
        PrinterModel { label: self.label@, entries: views(self.entries@) }
    }
}

impl View for DebugFragment {
    type V = DebugModel;

    open spec fn view(&self) -> DebugModel {
        DebugModel {
            record_name: self.record_name@,
            params: views(self.params@),
            predicates: views(self.predicates@),
            body: self.body@,
        }
    }
}

/// The template of a field that asks for none: its default representation.
pub open spec fn default_format() -> Seq<char> {
    "{:?}"@
}

/// The printed entry of a field, given the template that it asks for.
pub open spec fn entry_for(f: FieldModel, template: Option<Seq<char>>) -> DebugEntryModel {
    DebugEntryModel {
        name: f.name,
        format: match template {
            Some(s) => s,
            None => default_format(),
        },
    }
}

/// The printed entries of the first `n` fields, in declaration order, or the
/// rejection of the first field among them whose annotations cannot be read.
pub open spec fn entries_upto(fields: Seq<FieldModel>, n: int) -> Result<
    Seq<DebugEntryModel>,
    Fault,
>
    decreases n,
{
    if n <= 0 {
        Ok(Seq::empty())
    } else {
        match entries_upto(fields, n - 1) {
            Err(e) => Err(e),
            Ok(before) => match format_of(fields[n - 1], n - 1) {
                Err(e) => Err(e),
                Ok(template) => Ok(before.push(entry_for(fields[n - 1], template))),
            },
        }
    }
}

/// The body of a record's formatting method.
pub open spec fn body_plan(r: RecordModel) -> Result<PrinterModel, Fault> {
    if r.shape != RecordShape::Named {
        Err(fault(ErrorSite::Declaration, ErrorKind::NeedsStruct))
    } else {
        match entries_upto(r.fields, r.fields.len() as int) {
            Err(e) => Err(e),
            Ok(entries) => Ok(PrinterModel { label: r.name, entries }),
        }
    }
}

/// A record's printer from its body and its bounds.
pub open spec fn assembled(r: RecordModel, body: PrinterModel, bounds: BoundModel) -> DebugModel {
    DebugModel {
        record_name: r.name,
        params: bounds.params,
        predicates: bounds.predicates,
        body,
    }
}

/// What the printer generator answers for a record, given the parser's
/// verdict on the record's own clause: `None` where the clause can stand in
/// a where clause, else the parser's words. A rejection of the declaration's
/// shape comes first, then that of the first field, then that of the
/// record's own annotations. A record with a clause of its own gets that
/// clause and nothing inferred, or is rejected where the clause cannot stand;
/// a record without one gets the inferred bounds, whatever the verdict.
pub open spec fn debug_plan(r: RecordModel, verdict: Option<Seq<char>>) -> Result<
    DebugModel,
    Fault,
> {
    match body_plan(r) {
        Err(e) => Err(e),
        Ok(body) => match override_of(r) {
            Err(e) => Err(e),
            Ok(None) => Ok(assembled(r, body, inferred(r))),
            Ok(Some(clause)) => match verdict {
                None => Ok(assembled(r, body, overridden(r, clause.text))),
                Some(words) => Err(
                    Fault {
                        site: ErrorSite::TypeAnnotation(clause.at as usize),
                        kind: ErrorKind::RejectedBound,
                        detail: words,
                    },
                ),
            },
        },
    }
}

/// Whether an answer is the one that was planned.
pub open spec fn answers(r: Result<DebugFragment, GenError>, plan: Result<DebugModel, Fault>)
    -> bool {
    match plan {
        Ok(d) => r is Ok && r->Ok_0@ == d,
        Err(e) => r is Err && r->Err_0@ == e,
    }
}

/// Whether the verdict of the parser has a say in a record's printer: only
/// where the record is well formed and gives a clause of its own.
pub open spec fn verdict_matters(r: RecordModel) -> bool {
    body_plan(r) is Ok && override_of(r) is Ok && override_of(r)->Ok_0 is Some
}

/// A rejection among the first `m` fields stays the answer for any longer
/// run.
pub proof fn lemma_entries_stop(fields: Seq<FieldModel>, m: int, n: int)
    requires
        m <= n,
        entries_upto(fields, m) is Err,
    ensures
        entries_upto(fields, n) == entries_upto(fields, m),
    decreases n - m,
{
    if m < n {
        lemma_entries_stop(fields, m, n - 1);
    }
}

/// The printed fields are the declared fields: as many, under the same
/// names, in declaration order, and the record is labelled with its own
/// name. Only the template depends on the field's annotations.
pub proof fn law_printer_keeps_names(r: RecordModel)
    requires
        body_plan(r) is Ok,
    ensures
        body_plan(r)->Ok_0.label == r.name,
        body_plan(r)->Ok_0.entries.len() == r.fields.len(),
        forall|i: int|
            #![trigger r.fields[i]]
            0 <= i < r.fields.len() ==> body_plan(r)->Ok_0.entries[i].name == r.fields[i].name,
        forall|i: int|
            #![trigger r.fields[i]]
            0 <= i < r.fields.len() ==> (format_of(r.fields[i], i) is Ok) && ((
            body_plan(r)->Ok_0.entries[i]).format == match format_of(
                r.fields[i],
                i,
            )->Ok_0 {
                Some(s) => s,
                None => default_format(),
            }),
{
    lemma_entries_upto(r.fields, r.fields.len() as int);
}

/// With no rejection among the first `n` fields there are `n` entries, each
/// that of its field.
pub proof fn lemma_entries_upto(fields: Seq<FieldModel>, n: int)
    requires
        0 <= n <= fields.len(),
        entries_upto(fields, n) is Ok,
    ensures
        entries_upto(fields, n)->Ok_0.len() == n,
        forall|i: int|
            #![trigger fields[i]]
            0 <= i < n ==> (format_of(fields[i], i) is Ok) && (entries_upto(fields, n)->Ok_0[i]
                == entry_for(fields[i], format_of(fields[i], i)->Ok_0)),
    decreases n,
{
    if n > 0 {
        lemma_entries_upto(fields, n - 1);
        let es = entries_upto(fields, n)->Ok_0;
        let before = entries_upto(fields, n - 1)->Ok_0;
        assert(format_of(fields[n - 1], n - 1) is Ok);
        assert(es == before.push(entry_for(fields[n - 1], format_of(fields[n - 1], n - 1)->Ok_0)));
        assert forall|i: int| #![trigger fields[i]] 0 <= i < n implies (format_of(fields[i], i) is Ok)
            && (es[i] == entry_for(fields[i], format_of(fields[i], i)->Ok_0)) by {
            if i < n - 1 {
                assert(es[i] == before[i]);
            }
        }
    }
}

/// The fields of a record, which must have named fields.
pub fn get_fields_from_derive_input(d: &RecordDecl) -> (r: Result<&Vec<FieldDecl>, GenError>)
    ensures
        d.shape == RecordShape::Named ==> r is Ok && *(r->Ok_0) == d.fields,
        d.shape != RecordShape::Named ==> r is Err && r->Err_0@ == fault(
            ErrorSite::Declaration,
            ErrorKind::NeedsStruct,
        ),
{
    match d.shape {
        RecordShape::Named => Ok(&d.fields),
        _ => Err(GenError::at(ErrorSite::Declaration, ErrorKind::NeedsStruct)),
    }
}

/// The body of the formatting method: one entry per field, in declaration
/// order.
pub fn generate_debug_trait_core(input: &RecordDecl) -> (r: Result<PrinterBody, GenError>)
    ensures
        match body_plan(input@) {
            Ok(b) => r is Ok && r->Ok_0@ == b,
            Err(e) => r is Err && r->Err_0@ == e,
        },
{
    let fields = match get_fields_from_derive_input(input) {
        Ok(f) => f,
        Err(e) => {
            return Err(e);
        },
    };
    let mut entries: Vec<DebugEntry> = Vec::new();
    let mut i: usize = 0;
    assert(views(entries@) =~= Seq::<DebugEntryModel>::empty());
    while i < fields.len()
        invariant
            i <= fields.len(),
            *fields == input.fields,
            input.shape == RecordShape::Named,
            entries_upto(input@.fields, i as int) == Ok::<Seq<DebugEntryModel>, Fault>(
                views(entries@),
            ),
        decreases fields.len() - i,
    {
        let field = &fields[i];
        assert(input@.fields[i as int] == field@);
        proof {
            if entries_upto(input@.fields, i + 1) is Err {
                lemma_entries_stop(input@.fields, i + 1, input@.fields.len() as int);
            }
        }
        let format = match get_custom_format_of_field(field, i) {
            Ok(Some(s)) => s,
            Ok(None) => String::from_str("{:?}"),
            Err(e) => {
                return Err(e);
            },
        };
        let ghost before = views(entries@);
        let entry = DebugEntry { name: field.name.clone(), format };
        entries.push(entry);
        assert(views(entries@) =~= before.push(entry@));
        i += 1;
    }
    Ok(PrinterBody { label: input.name.clone(), entries })
}

/// The printer of a record, given the parser's verdict on the record's own
/// clause: `None` where the clause can stand in a where clause, else the
/// parser's words. The verdict is not looked at where the record gives no
/// clause.
pub fn assemble_debug_trait(input: &RecordDecl, verdict: Option<String>) -> (r: Result<
    DebugFragment,
    GenError,
>)
    ensures
        answers(
            r,
            debug_plan(
                input@,
                match verdict {
                    Some(words) => Some(words@),
                    None => None,
                },
            ),
        ),
{
    let body = match generate_debug_trait_core(input) {
        Ok(b) => b,
        Err(e) => {
            return Err(e);
        },
    };
    let plan = match get_struct_escape_hatch(input) {
        Err(e) => {
            return Err(e);
        },
        Ok(None) => infer_bounds(input),
        Ok(Some(clause)) => match verdict {
            None => override_bounds(input, &clause.text),
            Some(words) => {
                return Err(
                    GenError {
                        site: ErrorSite::TypeAnnotation(clause.at),
                        kind: ErrorKind::RejectedBound,
                        detail: words,
                    },
                );
            },
        },
    };
    let BoundPlan { params, predicates } = plan;
    Ok(DebugFragment { record_name: input.name.clone(), params, predicates, body })
}

/// The printer of a record. Where the record gives a clause of its own, the
/// clause is put to the parser, and the answer is the one planned for the
/// parser's verdict, whichever that is; everywhere else the answer is
/// planned in full.
pub fn generate_debug_trait(input: &RecordDecl) -> (r: Result<DebugFragment, GenError>)
    ensures
        !verdict_matters(input@) ==> answers(r, debug_plan(input@, None)),
        verdict_matters(input@) ==> answers(r, debug_plan(input@, None)) || (r is Err
            && answers(r, debug_plan(input@, Some(r->Err_0.detail@)))),
{
    let verdict = match get_struct_escape_hatch(input) {
        Ok(Some(clause)) => clause_fault(&clause.text),
        _ => None,
    };
    assemble_debug_trait(input, verdict)
}

/// The printer of a record.
pub fn expand_debug(input: &RecordDecl) -> (r: Result<DebugFragment, GenError>)
    ensures
        !verdict_matters(input@) ==> answers(r, debug_plan(input@, None)),
        verdict_matters(input@) ==> answers(r, debug_plan(input@, None)) || (r is Err
            && answers(r, debug_plan(input@, Some(r->Err_0.detail@)))),
{
    generate_debug_trait(input)
}

} // verus!
