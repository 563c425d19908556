//! Rejections: where in the declaration a generator stopped, and why.

use vstd::prelude::*;

verus! {

/// The construct that a rejection points at. Indices count from zero, in
/// declaration order.
#[derive(Clone, Copy, PartialEq, Eq, Debug, Structural)]
pub enum ErrorSite {
    /// The declaration as a whole.
    Declaration,
    /// An annotation on the record itself.
    TypeAnnotation(usize),
    /// An annotation on a field: the field, then the annotation.
    FieldAnnotation(usize, usize),
}

/// Why a declaration was rejected.
#[derive(Clone, Copy, PartialEq, Eq, Debug, Structural)]
pub enum ErrorKind {
    /// The builder generator was given something other than a record with
    /// named fields.
    NeedsNamedFields,
    /// The printer generator was given something other than a record with
    /// named fields.
    NeedsStruct,
    /// A `builder` annotation is not of the shape `builder(each = "...")`.
    ExpectedEach,
    /// An annotation's value is not a string literal.
    ExpectedText,
    /// A field asks for a singular setter but its type is not `Vec<..>`.
    NeedsCollection,
    /// A `debug` annotation on a field is not of the shape `debug = "..."`.
    ExpectedFormat,
    /// A `debug` annotation on the record is not of the shape
    /// `debug(bound = "...")`.
    ExpectedBound,
    /// The text of a `bound` is not a where-clause predicate.
    RejectedBound,
}

/// A rejection. `detail` carries the parser's own words where the kind is
/// [`ErrorKind::RejectedBound`], and is empty otherwise.
#[derive(Debug, PartialEq, Eq)]
pub struct GenError {
    pub site: ErrorSite,
    pub kind: ErrorKind,
    pub detail: String,
}

/// The mathematical value of a [`GenError`].
pub ghost struct Fault {
    pub site: ErrorSite,
    pub kind: ErrorKind,
    pub detail: Seq<char>,
}

/// A rejection that needs no further words.
pub open spec fn fault(site: ErrorSite, kind: ErrorKind) -> Fault {
    Fault { site, kind, detail: Seq::empty() }
}

/// The fixed sentence that belongs to each kind of rejection.
pub open spec fn sentence(kind: ErrorKind) -> Seq<char> {
    match kind {
        ErrorKind::NeedsNamedFields => "this derive macro only works on structs with named fields"@,
        ErrorKind::NeedsStruct => "Must define on a Struct"@,
        ErrorKind::ExpectedEach => "expected `builder(each = \"...\")`"@,
        ErrorKind::ExpectedText => "expected string literal"@,
        ErrorKind::NeedsCollection => "each field must be specified with Vec field"@,
        ErrorKind::ExpectedFormat => "expected `debug = \"...\"`"@,
        ErrorKind::ExpectedBound => "expected `debug(bound = \"...\")`"@,
        ErrorKind::RejectedBound => "bound is not a where-clause predicate"@,
    }
}

/// What a rejection says to the user: the parser's words where it has any,
/// the kind's sentence otherwise.
pub open spec fn message_of(f: Fault) -> Seq<char> {
    if f.detail.len() > 0 {
        f.detail
    } else {
        sentence(f.kind)
    }
}

impl View for GenError {
    type V = Fault;

    open spec fn view(&self) -> Fault {
        Fault { site: self.site, kind: self.kind, detail: self.detail@ }
    }
}

impl GenError {
    /// A rejection of `kind` at `site`, with no further words.
    pub fn at(site: ErrorSite, kind: ErrorKind) -> (r: GenError)
        ensures
            r@ == fault(site, kind),
    {
        GenError { site, kind, detail: String::new() }
    }

    /// The text to show to the user.
    pub fn message(&self) -> (r: String)
        ensures
            r@ == message_of(self@),
    {
        if self.detail.as_str().unicode_len() > 0 {
            return self.detail.clone();
        }
        match self.kind {
            ErrorKind::NeedsNamedFields => String::from_str(
                "this derive macro only works on structs with named fields",
            ),
            ErrorKind::NeedsStruct => String::from_str("Must define on a Struct"),
            ErrorKind::ExpectedEach => String::from_str("expected `builder(each = \"...\")`"),
            ErrorKind::ExpectedText => String::from_str("expected string literal"),
            ErrorKind::NeedsCollection => String::from_str(
                "each field must be specified with Vec field",
            ),
            ErrorKind::ExpectedFormat => String::from_str("expected `debug = \"...\"`"),
            ErrorKind::ExpectedBound => String::from_str("expected `debug(bound = \"...\")`"),
            ErrorKind::RejectedBound => String::from_str("bound is not a where-clause predicate"),
        }
    }
}

} // verus!
