//! The introspector: reads the annotations that the generators understand and
//! sorts each field into optional, repeated or plain.
//!
//! Every comparison with a fixed name (`builder`, `each`, `debug`, `bound`,
//! `Option`, `Vec`) is made here or in [`crate::types`], nowhere else.

use vstd::prelude::*;
use crate::fault::{fault, ErrorKind, ErrorSite, Fault, GenError};
use crate::record::{
    views, Annotation, AnnotationForm, AnnotationItem, AnnotationModel, FieldDecl, FieldModel,
    FormModel, ItemModel, Literal, LiteralModel, RecordDecl, RecordModel,
};
use crate::types::{get_generic_inner_type, is_text, wrapped_in, TypeExpr, TypeTerm};

verus! {

/// The three settings that an annotation can carry.
#[derive(Clone, Copy, PartialEq, Eq, Debug, Structural)]
pub enum Vocabulary {
    /// `#[builder(each = "...")]` on a field: the name of its singular setter.
    Each,
    /// `#[debug = "..."]` on a field: the template that renders it.
    Format,
    /// `#[debug(bound = "...")]` on a record: the clause that replaces the
    /// inferred bounds.
    Bound,
}

/// A setting that was found: its text, and the annotation that holds it.
#[derive(Debug, PartialEq, Eq)]
pub struct Setting {
    pub text: String,
    pub at: usize,
}

/// The mathematical value of a [`Setting`].
pub ghost struct SettingModel {
    pub text: Seq<char>,
    pub at: int,
}

impl View for Setting {
    type V = SettingModel;

    open spec fn view(&self) -> SettingModel {
        SettingModel { text: self.text@, at: self.at as int }
    }
}

/// An annotation that could not be read: why, and which one.
#[derive(Clone, Copy, PartialEq, Eq, Debug, Structural)]
pub struct Misread {
    pub kind: ErrorKind,
    pub at: usize,
}

/// The name of the annotations that carry the setting.
pub open spec fn namespace(which: Vocabulary) -> Seq<char> {
    match which {
        Vocabulary::Each => "builder"@,
        Vocabulary::Format => "debug"@,
        Vocabulary::Bound => "debug"@,
    }
}

/// The key under which a list annotation carries the setting.
pub open spec fn keyword(which: Vocabulary) -> Seq<char> {
    match which {
        Vocabulary::Each => "each"@,
        Vocabulary::Format => "debug"@,
        Vocabulary::Bound => "bound"@,
    }
}

/// The rejection for an annotation of the right name and the wrong shape.
pub open spec fn misshapen(which: Vocabulary) -> ErrorKind {
    match which {
        Vocabulary::Each => ErrorKind::ExpectedEach,
        Vocabulary::Format => ErrorKind::ExpectedFormat,
        Vocabulary::Bound => ErrorKind::ExpectedBound,
    }
}

/// What stands after `=`, read as a setting.
pub open spec fn read_literal(which: Vocabulary, value: Option<LiteralModel>) -> Result<
    Seq<char>,
    ErrorKind,
> {
    match value {
        Some(LiteralModel::Text(s)) => Ok(s),
        Some(LiteralModel::Other) => Err(ErrorKind::ExpectedText),
        None => Err(misshapen(which)),
    }
}

/// One entry of a list annotation, read as a setting: its key must be the
/// keyword and its value a string literal.
pub open spec fn read_item(which: Vocabulary, item: ItemModel) -> Result<Seq<char>, ErrorKind> {
    if item.key == keyword(which) {
        read_literal(which, item.value)
    } else {
        Err(misshapen(which))
    }
}

/// The first `n` entries of a list annotation, read in order: the first entry
/// that cannot be read decides, else the last setting read.
pub open spec fn read_items(which: Vocabulary, items: Seq<ItemModel>, n: int) -> Result<
    Option<Seq<char>>,
    ErrorKind,
>
    decreases n,
{
    if n <= 0 {
        Ok(None)
    } else {
        match read_items(which, items, n - 1) {
            Err(k) => Err(k),
            Ok(_) => match read_item(which, items[n - 1]) {
                Err(k) => Err(k),
                Ok(s) => Ok(Some(s)),
            },
        }
    }
}

/// One annotation, read for a setting. An annotation of another name says
/// nothing and is never an error.
pub open spec fn read_annotation(which: Vocabulary, a: AnnotationModel) -> Result<
    Option<Seq<char>>,
    ErrorKind,
> {
    if a.name != namespace(which) {
        Ok(None)
    } else {
        match which {
            Vocabulary::Format => match a.form {
                FormModel::Assigned(v) => match read_literal(which, Some(v)) {
                    Ok(s) => Ok(Some(s)),
                    Err(k) => Err(k),
                },
                _ => Err(misshapen(which)),
            },
            _ => match a.form {
                FormModel::List(items) => read_items(which, items, items.len() as int),
                _ => Err(misshapen(which)),
            },
        }
    }
}

/// The first `n` annotations, read in order: the first that cannot be read
/// decides, else the last setting found.
pub open spec fn setting_upto(which: Vocabulary, annotations: Seq<AnnotationModel>, n: int)
    -> Result<Option<SettingModel>, Misread>
    decreases n,
{
    if n <= 0 {
        Ok(None)
    } else {
        match setting_upto(which, annotations, n - 1) {
            Err(m) => Err(m),
            Ok(before) => match read_annotation(which, annotations[n - 1]) {
                Err(kind) => Err(Misread { kind, at: (n - 1) as usize }),
                Ok(None) => Ok(before),
                Ok(Some(text)) => Ok(Some(SettingModel { text, at: n - 1 })),
            },
        }
    }
}

/// The setting that a run of annotations carries.
pub open spec fn setting_of(which: Vocabulary, annotations: Seq<AnnotationModel>) -> Result<
    Option<SettingModel>,
    Misread,
> {
    setting_upto(which, annotations, annotations.len() as int)
}

/// A misread annotation of field `index`, as a rejection.
pub open spec fn field_fault(index: int, m: Misread) -> Fault {
    fault(ErrorSite::FieldAnnotation(index as usize, m.at), m.kind)
}

/// The singular setter that field `index` asks for.
pub open spec fn each_of(f: FieldModel, index: int) -> Result<Option<SettingModel>, Fault> {
    match setting_of(Vocabulary::Each, f.annotations) {
        Err(m) => Err(field_fault(index, m)),
        Ok(s) => Ok(s),
    }
}

/// The rendering template that field `index` asks for.
pub open spec fn format_of(f: FieldModel, index: int) -> Result<Option<Seq<char>>, Fault> {
    match setting_of(Vocabulary::Format, f.annotations) {
        Err(m) => Err(field_fault(index, m)),
        Ok(Some(s)) => Ok(Some(s.text)),
        Ok(None) => Ok(None),
    }
}

/// The clause with which a record overrides the inferred bounds.
pub open spec fn override_of(r: RecordModel) -> Result<Option<SettingModel>, Fault> {
    match setting_of(Vocabulary::Bound, r.annotations) {
        Err(m) => Err(fault(ErrorSite::TypeAnnotation(m.at), m.kind)),
        Ok(s) => Ok(s),
    }
}

/// How the builder treats a field.
#[derive(Debug, PartialEq, Eq)]
pub enum FieldClassification {
    /// `Option<inner>`: may stay unset.
    Optional(TypeExpr),
    /// `Vec<inner>` with a singular setter of the given name.
    Repeated(TypeExpr, String),
    /// Anything else: must be set.
    Plain,
}

/// The mathematical value of a [`FieldClassification`].
pub ghost enum ClassModel {
    Optional(TypeTerm),
    Repeated(TypeTerm, Seq<char>),
    Plain,
}

impl View for FieldClassification {
    type V = ClassModel;

    open spec fn view(&self) -> ClassModel {
        match self {
            FieldClassification::Optional(t) => ClassModel::Optional(t@),
            FieldClassification::Repeated(t, s) => ClassModel::Repeated(t@, s@),
            FieldClassification::Plain => ClassModel::Plain,
        }
    }
}

/// The classification of field `index`. A request for a singular setter is
/// looked at first: with one, the type must be `Vec<..>`; without one, the
/// field is optional if its type is `Option<..>`, and plain otherwise.
pub open spec fn classify_spec(f: FieldModel, index: int) -> Result<ClassModel, Fault> {
    match each_of(f, index) {
        Err(e) => Err(e),
        Ok(Some(each)) => match wrapped_in(f.ty, "Vec"@) {
            Some(inner) => Ok(ClassModel::Repeated(inner, each.text)),
            None => Err(
                fault(
                    ErrorSite::FieldAnnotation(index as usize, each.at as usize),
                    ErrorKind::NeedsCollection,
                ),
            ),
        },
        Ok(None) => match wrapped_in(f.ty, "Option"@) {
            Some(inner) => Ok(ClassModel::Optional(inner)),
            None => Ok(ClassModel::Plain),
        },
    }
}

/// The classifications of the first `n` fields, or the rejection of the first
/// field among them that has one.
pub open spec fn classes_upto(fields: Seq<FieldModel>, n: int) -> Result<Seq<ClassModel>, Fault>
    decreases n,
{
    if n <= 0 {
        Ok(Seq::empty())
    } else {
        match classes_upto(fields, n - 1) {
            Err(e) => Err(e),
            Ok(before) => match classify_spec(fields[n - 1], n - 1) {
                Err(e) => Err(e),
                Ok(c) => Ok(before.push(c)),
            },
        }
    }
}

/// The classifications of all fields, in declaration order.
pub open spec fn classes_of(fields: Seq<FieldModel>) -> Result<Seq<ClassModel>, Fault> {
    classes_upto(fields, fields.len() as int)
}

/// With no rejection among the first `n` fields there are `n`
/// classifications, each that of its field; otherwise the rejection is that of
/// the first field, in declaration order, that has one.
pub proof fn lemma_classes_upto(fields: Seq<FieldModel>, n: int)
    requires
        0 <= n <= fields.len(),
    ensures
        match classes_upto(fields, n) {
            Ok(cs) => cs.len() == n && forall|i: int|
                #![trigger cs[i]]
                #![trigger classify_spec(fields[i], i)]
                0 <= i < n ==> classify_spec(fields[i], i) == Ok::<ClassModel, Fault>(cs[i]),
            Err(e) => exists|i: int|
                0 <= i < n && #[trigger] classify_spec(fields[i], i) == Err::<ClassModel, Fault>(
                    e,
                ) && forall|k: int| 0 <= k < i ==> (#[trigger] classify_spec(fields[k], k)) is Ok,
        },
    decreases n,
{
    if n > 0 {
        lemma_classes_upto(fields, n - 1);
        match classes_upto(fields, n - 1) {
            Err(e) => {
                let i = choose|i: int|
                    0 <= i < n - 1 && #[trigger] classify_spec(fields[i], i) == Err::<
                        ClassModel,
                        Fault,
                    >(e) && forall|k: int|
                        0 <= k < i ==> (#[trigger] classify_spec(fields[k], k)) is Ok;
                assert(0 <= i < n && classify_spec(fields[i], i) == Err::<ClassModel, Fault>(e)
                    && forall|k: int| 0 <= k < i ==> (#[trigger] classify_spec(fields[k], k)) is Ok);
            },
            Ok(before) => {
                match classify_spec(fields[n - 1], n - 1) {
                    Err(e) => {
                        let i = n - 1;
                        assert(0 <= i < n && classify_spec(fields[i], i) == Err::<
                            ClassModel,
                            Fault,
                        >(e) && forall|k: int|
                            0 <= k < i ==> (#[trigger] classify_spec(fields[k], k)) is Ok);
                    },
                    Ok(c) => {},
                }
            },
        }
    }
}

/// A rejection among the first `m` entries stays the answer for any longer
/// run.
pub proof fn lemma_read_items_stops(which: Vocabulary, items: Seq<ItemModel>, m: int, n: int)
    requires
        m <= n,
        read_items(which, items, m) is Err,
    ensures
        read_items(which, items, n) == read_items(which, items, m),
    decreases n - m,
{
    if m < n {
        lemma_read_items_stops(which, items, m, n - 1);
    }
}

/// A misread annotation among the first `m` stays the answer for any longer
/// run.
pub proof fn lemma_setting_stops(
    which: Vocabulary,
    annotations: Seq<AnnotationModel>,
    m: int,
    n: int,
)
    requires
        m <= n,
        setting_upto(which, annotations, m) is Err,
    ensures
        setting_upto(which, annotations, n) == setting_upto(which, annotations, m),
    decreases n - m,
{
    if m < n {
        lemma_setting_stops(which, annotations, m, n - 1);
    }
}

/// A rejection among the first `m` fields stays the answer for any longer
/// run.
pub proof fn lemma_classes_stop(fields: Seq<FieldModel>, m: int, n: int)
    requires
        m <= n,
        classes_upto(fields, m) is Err,
    ensures
        classes_upto(fields, n) == classes_upto(fields, m),
    decreases n - m,
{
    if m < n {
        lemma_classes_stop(fields, m, n - 1);
    }
}

/// What stands after `=`, read as a setting.
fn read_literal_value(which: Vocabulary, value: &Option<Literal>) -> (r: Result<String, ErrorKind>)
    ensures
        match read_literal(
            which,
            match *value {
                Some(v) => Some(v@),
                None => None,
            },
        ) {
            Ok(s) => r is Ok && r->Ok_0@ == s,
            Err(k) => r == Err::<String, ErrorKind>(k),
        },
{
    match value {
        Some(Literal::Text(s)) => Ok(s.clone()),
        Some(Literal::Other) => Err(ErrorKind::ExpectedText),
        None => Err(shape_error(which)),
    }
}

/// The rejection for an annotation of the right name and the wrong shape.
fn shape_error(which: Vocabulary) -> (r: ErrorKind)
    ensures
        r == misshapen(which),
{
    match which {
        Vocabulary::Each => ErrorKind::ExpectedEach,
        Vocabulary::Format => ErrorKind::ExpectedFormat,
        Vocabulary::Bound => ErrorKind::ExpectedBound,
    }
}

/// Whether `key` is the key under which the setting is carried.
fn has_keyword(which: Vocabulary, key: &String) -> (r: bool)
    ensures
        r == (key@ == keyword(which)),
{
    match which {
        Vocabulary::Each => is_text(key, "each"),
        Vocabulary::Format => is_text(key, "debug"),
        Vocabulary::Bound => is_text(key, "bound"),
    }
}

/// Whether `name` is the name of the annotations that carry the setting.
fn in_namespace(which: Vocabulary, name: &String) -> (r: bool)
    ensures
        r == (name@ == namespace(which)),
{
    match which {
        Vocabulary::Each => is_text(name, "builder"),
        Vocabulary::Format => is_text(name, "debug"),
        Vocabulary::Bound => is_text(name, "debug"),
    }
}

/// The entries of a list annotation, read in order.
fn read_entries(which: Vocabulary, items: &Vec<AnnotationItem>) -> (r: Result<
    Option<String>,
    ErrorKind,
>)
    ensures
        match read_items(which, views(items@), items@.len() as int) {
            Ok(Some(s)) => r is Ok && r->Ok_0 is Some && r->Ok_0->Some_0@ == s,
            Ok(None) => r is Ok && r->Ok_0 is None,
            Err(k) => r == Err::<Option<String>, ErrorKind>(k),
        },
{
    let mut found: Option<String> = None;
    let mut i: usize = 0;
    while i < items.len()
        invariant
            i <= items.len(),
            match read_items(which, views(items@), i as int) {
                Ok(Some(s)) => found is Some && found->Some_0@ == s,
                Ok(None) => found is None,
                Err(k) => false,
            },
        decreases items.len() - i,
    {
        let item = &items[i];
        assert(views(items@)[i as int] == item@);
        proof {
            if read_items(which, views(items@), i + 1) is Err {
                lemma_read_items_stops(which, views(items@), i + 1, items@.len() as int);
            }
        }
        if !has_keyword(which, &item.key) {
            return Err(shape_error(which));
        }
        match read_literal_value(which, &item.value) {
            Ok(s) => {
                found = Some(s);
            },
            Err(k) => {
                return Err(k);
            },
        }
        i += 1;
    }
    Ok(found)
}

/// One annotation, read for a setting.
fn read_one(which: Vocabulary, a: &Annotation) -> (r: Result<Option<String>, ErrorKind>)
    ensures
        match read_annotation(which, a@) {
            Ok(Some(s)) => r is Ok && r->Ok_0 is Some && r->Ok_0->Some_0@ == s,
            Ok(None) => r is Ok && r->Ok_0 is None,
            Err(k) => r == Err::<Option<String>, ErrorKind>(k),
        },
{
    if !in_namespace(which, &a.name) {
        return Ok(None);
    }
    match which {
        Vocabulary::Format => match &a.form {
            AnnotationForm::Assigned(Literal::Text(s)) => Ok(Some(s.clone())),
            AnnotationForm::Assigned(Literal::Other) => Err(ErrorKind::ExpectedText),
            _ => Err(shape_error(which)),
        },
        _ => match &a.form {
            AnnotationForm::List(items) => read_entries(which, items),
            _ => Err(shape_error(which)),
        },
    }
}

/// Reads a run of annotations for one setting.
pub fn find_setting(which: Vocabulary, annotations: &Vec<Annotation>) -> (r: Result<
    Option<Setting>,
    Misread,
>)
    ensures
        match setting_of(which, views(annotations@)) {
            Ok(Some(s)) => r is Ok && r->Ok_0 is Some && r->Ok_0->Some_0@ == s,
            Ok(None) => r is Ok && r->Ok_0 is None,
            Err(m) => r == Err::<Option<Setting>, Misread>(m),
        },
{
    let mut found: Option<Setting> = None;
    let mut i: usize = 0;
    while i < annotations.len()
        invariant
            i <= annotations.len(),
            match setting_upto(which, views(annotations@), i as int) {
                Ok(Some(s)) => found is Some && found->Some_0@ == s,
                Ok(None) => found is None,
                Err(k) => false,
            },
        decreases annotations.len() - i,
    {
        assert(views(annotations@)[i as int] == annotations@[i as int]@);
        proof {
            if setting_upto(which, views(annotations@), i + 1) is Err {
                lemma_setting_stops(which, views(annotations@), i + 1, annotations@.len() as int);
            }
        }
        match read_one(which, &annotations[i]) {
            Ok(Some(text)) => {
                found = Some(Setting { text, at: i });
            },
            Ok(None) => {},
            Err(kind) => {
                return Err(Misread { kind, at: i });
            },
        }
        i += 1;
    }
    Ok(found)
}

/// The name of the singular setter that a field asks for with
/// `#[builder(each = "...")]`, and the annotation that asks for it.
pub fn get_user_specified_ident_for_vec(field: &FieldDecl, index: usize) -> (r: Result<
    Option<Setting>,
    GenError,
>)
    ensures
        match each_of(field@, index as int) {
            Ok(Some(s)) => r is Ok && r->Ok_0 is Some && r->Ok_0->Some_0@ == s,
            Ok(None) => r is Ok && r->Ok_0 is None,
            Err(e) => r is Err && r->Err_0@ == e,
        },
{
    match find_setting(Vocabulary::Each, &field.annotations) {
        Ok(s) => Ok(s),
        Err(m) => Err(GenError::at(ErrorSite::FieldAnnotation(index, m.at), m.kind)),
    }
}

/// The template that a field asks for with `#[debug = "..."]`.
pub fn get_custom_format_of_field(field: &FieldDecl, index: usize) -> (r: Result<
    Option<String>,
    GenError,
>)
    ensures
        match format_of(field@, index as int) {
            Ok(Some(s)) => r is Ok && r->Ok_0 is Some && r->Ok_0->Some_0@ == s,
            Ok(None) => r is Ok && r->Ok_0 is None,
            Err(e) => r is Err && r->Err_0@ == e,
        },
{
    match find_setting(Vocabulary::Format, &field.annotations) {
        Ok(Some(s)) => Ok(Some(s.text)),
        Ok(None) => Ok(None),
        Err(m) => Err(GenError::at(ErrorSite::FieldAnnotation(index, m.at), m.kind)),
    }
}

/// The clause that a record gives with `#[debug(bound = "...")]`, and the
/// annotation that gives it.
pub fn get_struct_escape_hatch(input: &RecordDecl) -> (r: Result<Option<Setting>, GenError>)
    ensures
        match override_of(input@) {
            Ok(Some(s)) => r is Ok && r->Ok_0 is Some && r->Ok_0->Some_0@ == s,
            Ok(None) => r is Ok && r->Ok_0 is None,
            Err(e) => r is Err && r->Err_0@ == e,
        },
{
    match find_setting(Vocabulary::Bound, &input.annotations) {
        Ok(s) => Ok(s),
        Err(m) => Err(GenError::at(ErrorSite::TypeAnnotation(m.at), m.kind)),
    }
}

/// Sorts field `index` into optional, repeated or plain.
pub fn classify(field: &FieldDecl, index: usize) -> (r: Result<FieldClassification, GenError>)
    ensures
        match classify_spec(field@, index as int) {
            Ok(c) => r is Ok && r->Ok_0@ == c,
            Err(e) => r is Err && r->Err_0@ == e,
        },
{
    match get_user_specified_ident_for_vec(field, index) {
        Err(e) => Err(e),
        Ok(Some(each)) => match get_generic_inner_type(&field.ty, "Vec") {
            Some(inner) => Ok(FieldClassification::Repeated(inner.duplicate(), each.text)),
            None => Err(
                GenError::at(ErrorSite::FieldAnnotation(index, each.at), ErrorKind::NeedsCollection),
            ),
        },
        Ok(None) => match get_generic_inner_type(&field.ty, "Option") {
            Some(inner) => Ok(FieldClassification::Optional(inner.duplicate())),
            None => Ok(FieldClassification::Plain),
        },
    }
}

/// Sorts every field, in declaration order, and stops at the first that is
/// rejected.
pub fn classify_all(fields: &Vec<FieldDecl>) -> (r: Result<Vec<FieldClassification>, GenError>)
    ensures
        match classes_of(views(fields@)) {
            Ok(cs) => r is Ok && views(r->Ok_0@) == cs,
            Err(e) => r is Err && r->Err_0@ == e,
        },
{
    let mut out: Vec<FieldClassification> = Vec::new();
    let mut i: usize = 0;
    assert(views(out@) =~= Seq::<ClassModel>::empty());
    while i < fields.len()
        invariant
            i <= fields.len(),
            classes_upto(views(fields@), i as int) == Ok::<Seq<ClassModel>, Fault>(views(out@)),
        decreases fields.len() - i,
    {
        assert(views(fields@)[i as int] == fields@[i as int]@);
        proof {
            if classes_upto(views(fields@), i + 1) is Err {
                lemma_classes_stop(views(fields@), i + 1, fields@.len() as int);
            }
        }
        match classify(&fields[i], i) {
            Ok(c) => {
                let ghost before = views(out@);
                out.push(c);
                assert(views(out@) =~= before.push(c@));
            },
            Err(e) => {
                return Err(e);
            },
        }
        i += 1;
    }
    Ok(out)
}

} // verus!
