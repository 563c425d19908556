//! Record declarations: what the generators are given.

use vstd::prelude::*;
use crate::types::{TypeExpr, TypeTerm};

verus! {

/// What stands after the `=` of an annotation.
#[derive(Debug, PartialEq, Eq)]
pub enum Literal {
    /// A string literal, by its contents.
    Text(String),
    /// Anything else.
    Other,
}

/// One entry between the parentheses of an annotation, such as
/// `each = "arg"`. A bare word has no value.
#[derive(Debug, PartialEq, Eq)]
pub struct AnnotationItem {
    pub key: String,
    pub value: Option<Literal>,
}

/// The three ways in which an annotation is written.
#[derive(Debug, PartialEq, Eq)]
pub enum AnnotationForm {
    /// `#[name]`
    Word,
    /// `#[name = value]`
    Assigned(Literal),
    /// `#[name(entry, ...)]`
    List(Vec<AnnotationItem>),
}

/// An annotation on a record or on a field.
#[derive(Debug, PartialEq, Eq)]
pub struct Annotation {
    pub name: String,
    pub form: AnnotationForm,
}

/// A named field of a record.
#[derive(Debug, PartialEq, Eq)]
pub struct FieldDecl {
    pub name: String,
    pub ty: TypeExpr,
    pub annotations: Vec<Annotation>,
}

/// What a generic parameter stands for.
#[derive(Clone, Copy, PartialEq, Eq, Debug, Structural)]
pub enum ParamKind {
    Type,
    Lifetime,
    Const,
}

/// A generic parameter of a record, with the bounds written on it.
#[derive(Debug, PartialEq, Eq)]
pub struct GenericParam {
    pub name: String,
    pub kind: ParamKind,
    pub bounds: Vec<String>,
}

/// The kind of item that a declaration is.
#[derive(Clone, Copy, PartialEq, Eq, Debug, Structural)]
pub enum RecordShape {
    /// A struct with named fields: the only shape that the generators take.
    Named,
    /// A struct with unnamed fields.
    Tuple,
    /// A struct without fields.
    Unit,
    Enum,
    Union,
}

/// A record declaration. `fields` is read only where `shape` is
/// [`RecordShape::Named`].
#[derive(Debug, PartialEq, Eq)]
pub struct RecordDecl {
    pub name: String,
    pub params: Vec<GenericParam>,
    pub annotations: Vec<Annotation>,
    pub shape: RecordShape,
    pub fields: Vec<FieldDecl>,
}

/// The mathematical value of a [`Literal`].
pub ghost enum LiteralModel {
    Text(Seq<char>),
    Other,
}

/// The mathematical value of a [`AnnotationItem`].
pub ghost struct ItemModel {
    pub key: Seq<char>,
    pub value: Option<LiteralModel>,
}

/// The mathematical value of a [`AnnotationForm`].
pub ghost enum FormModel {
    Word,
    Assigned(LiteralModel),
    List(Seq<ItemModel>),
}

/// The mathematical value of a [`Annotation`].
pub ghost struct AnnotationModel {
    pub name: Seq<char>,
    pub form: FormModel,
}

/// The mathematical value of a [`FieldDecl`].
pub ghost struct FieldModel {
    pub name: Seq<char>,
    pub ty: TypeTerm,
    pub annotations: Seq<AnnotationModel>,
}

/// The mathematical value of a [`GenericParam`].
pub ghost struct ParamModel {
    pub name: Seq<char>,
    pub kind: ParamKind,
    pub bounds: Seq<Seq<char>>,
}

/// The mathematical value of a [`RecordDecl`].
pub ghost struct RecordModel {
    pub name: Seq<char>,
    pub params: Seq<ParamModel>,
    pub annotations: Seq<AnnotationModel>,
    pub shape: RecordShape,
    pub fields: Seq<FieldModel>,
}

/// The values of a run of items that have a view, one for one.
pub open spec fn views<T: View>(s: Seq<T>) -> Seq<T::V> {
    s.map_values(|x: T| x@)
}

impl View for Literal {
    type V = LiteralModel;

    open spec fn view(&self) -> LiteralModel {
        match self {
            Literal::Text(s) => LiteralModel::Text(s@),
            Literal::Other => LiteralModel::Other,
        }
    }
}

impl View for AnnotationItem {
    type V = ItemModel;

    open spec fn view(&self) -> ItemModel {
        ItemModel {
            key: self.key@,
            value: match self.value {
                Some(v) => Some(v@),
                None => None,
            },
        }
    }
}

impl View for AnnotationForm {
    type V = FormModel;

    open spec fn view(&self) -> FormModel {
        match self {
            AnnotationForm::Word => FormModel::Word,
            AnnotationForm::Assigned(v) => FormModel::Assigned(v@),
            AnnotationForm::List(items) => FormModel::List(views(items@)),
        }
    }
}

impl View for Annotation {
    type V = AnnotationModel;

    open spec fn view(&self) -> AnnotationModel {
        AnnotationModel { name: self.name@, form: self.form@ }
    }
}

impl View for FieldDecl {
    type V = FieldModel;

    open spec fn view(&self) -> FieldModel {
        FieldModel { name: self.name@, ty: self.ty@, annotations: views(self.annotations@) }
    }
}

impl View for GenericParam {
    type V = ParamModel;

    open spec fn view(&self) -> ParamModel {
        ParamModel { name: self.name@, kind: self.kind, bounds: views(self.bounds@) }
    }
}

impl View for RecordDecl {
    type V = RecordModel;

    open spec fn view(&self) -> RecordModel {
        RecordModel {
            name: self.name@,
            params: views(self.params@),
            annotations: views(self.annotations@),
            shape: self.shape,
            fields: views(self.fields@),
        }
    }
}

} // verus!
