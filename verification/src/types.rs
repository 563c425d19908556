//! Type expressions: the shape of a field's declared type, as far as the
//! generators look into it.

use vstd::prelude::*;

verus! {

/// One named step of a path, with the generic arguments written after it.
#[derive(Debug, PartialEq, Eq)]
pub struct Segment {
    pub ident: String,
    pub args: Vec<TypeExpr>,
}

/// A type as it is written in a declaration.
#[derive(Debug, PartialEq, Eq)]
pub enum TypeExpr {
    /// A path of named segments, such as `std::vec::Vec<T>`.
    Named { global: bool, segments: Vec<Segment> },
    /// Any other shape (a reference, a tuple, a lifetime argument), kept as
    /// written, with the type expressions that stand inside it.
    Other { text: String, parts: Vec<TypeExpr> },
}

/// The mathematical value of a [`Segment`].
pub ghost struct SegmentTerm {
    pub ident: Seq<char>,
    pub args: Seq<TypeTerm>,
}

/// The mathematical value of a [`TypeExpr`].
pub ghost enum TypeTerm {
    Named { global: bool, segments: Seq<SegmentTerm> },
    Other { text: Seq<char>, parts: Seq<TypeTerm> },
}

/// The values of a run of type expressions, one for one.
pub open spec fn terms_of(s: Seq<TypeExpr>) -> Seq<TypeTerm>
    decreases s,
{
    Seq::new(
        s.len(),
        |i: int|
            if 0 <= i < s.len() {
                s[i]@
            } else {
                arbitrary()
            },
    )
}

/// The values of a run of segments, one for one.
pub open spec fn steps_of(s: Seq<Segment>) -> Seq<SegmentTerm>
    decreases s,
{
    Seq::new(
        s.len(),
        |i: int|
            if 0 <= i < s.len() {
                s[i]@
            } else {
                arbitrary()
            },
    )
}

impl View for Segment {
    type V = SegmentTerm;

    open spec fn view(&self) -> SegmentTerm
        decreases self,
    {
        SegmentTerm { ident: self.ident@, args: terms_of(self.args@) }
    }
}

impl View for TypeExpr {
    type V = TypeTerm;

    open spec fn view(&self) -> TypeTerm
        decreases self,
    {
        match self {
            TypeExpr::Named { global, segments } => TypeTerm::Named {
                global: *global,
                segments: steps_of(segments@),
            },
            TypeExpr::Other { text, parts } => TypeTerm::Other {
                text: text@,
                parts: terms_of(parts@),
            },
        }
    }
}

/// The last segment of a named type: the one that says what the type is.
pub open spec fn outermost(t: TypeTerm) -> Option<SegmentTerm> {
    match t {
        TypeTerm::Named { global, segments } => if segments.len() > 0 {
            Some(segments.last())
        } else {
            None
        },
        TypeTerm::Other { .. } => None,
    }
}

/// The identifier that a named type ends in.
pub open spec fn terminal_ident(t: TypeTerm) -> Option<Seq<char>> {
    match outermost(t) {
        Some(seg) => Some(seg.ident),
        None => None,
    }
}

/// What a wrapper called `outer` wraps: `t` is a named type whose last segment
/// is `outer` with exactly one generic argument, and that argument is the
/// answer. The path before the last segment is not looked at, so an alias or a
/// type of another crate with the same last name is taken for the wrapper.
pub open spec fn wrapped_in(t: TypeTerm, outer: Seq<char>) -> Option<TypeTerm> {
    match outermost(t) {
        Some(seg) => if seg.ident == outer && seg.args.len() == 1 {
            Some(seg.args[0])
        } else {
            None
        },
        None => None,
    }
}

/// The type written as the plain name `ident`.
pub open spec fn plain_term(ident: Seq<char>) -> TypeTerm {
    TypeTerm::Named { global: false, segments: seq![SegmentTerm { ident, args: Seq::empty() }] }
}

/// The type written as `outer<inner>`.
pub open spec fn wrapper_term(outer: Seq<char>, inner: TypeTerm) -> TypeTerm {
    TypeTerm::Named { global: false, segments: seq![SegmentTerm { ident: outer, args: seq![inner] }] }
}

/// The type written as `root::name`.
pub open spec fn associated_term(root: Seq<char>, name: Seq<char>) -> TypeTerm {
    TypeTerm::Named {
        global: false,
        segments: seq![
            SegmentTerm { ident: root, args: Seq::empty() },
            SegmentTerm { ident: name, args: Seq::empty() },
        ],
    }
}

/// A type as source text: the segments of a path joined by `::`, each with
/// its generic arguments between `<` and `>` and `, ` between them; any other
/// shape as it was written.
pub open spec fn text_of(t: TypeTerm) -> Seq<char>
    decreases t, 0int,
{
    match t {
        TypeTerm::Named { global, segments } => (if global {
            "::"@
        } else {
            Seq::empty()
        }) + segments_text(segments, segments.len() as int),
        TypeTerm::Other { text, parts } => text,
    }
}

/// The first `n` segments of a path as source text.
pub open spec fn segments_text(segments: Seq<SegmentTerm>, n: int) -> Seq<char>
    decreases segments, n,
{
    if n <= 0 || n > segments.len() {
        Seq::empty()
    } else {
        segments_text(segments, n - 1) + (if n > 1 {
            "::"@
        } else {
            Seq::empty()
        }) + segments[n - 1].ident + (if segments[n - 1].args.len() == 0 {
            Seq::empty()
        } else {
            "<"@ + args_text(segments[n - 1].args, segments[n - 1].args.len() as int) + ">"@
        })
    }
}

/// The first `n` generic arguments of a segment as source text.
pub open spec fn args_text(ts: Seq<TypeTerm>, n: int) -> Seq<char>
    decreases ts, n,
{
    if n <= 0 || n > ts.len() {
        Seq::empty()
    } else {
        args_text(ts, n - 1) + (if n > 1 {
            ", "@
        } else {
            Seq::empty()
        }) + text_of(ts[n - 1])
    }
}

/// Whether `s` holds exactly the characters of `lit`.
pub fn is_text(s: &String, lit: &str) -> (r: bool)
    ensures
        r == (s@ == lit@),
{
    let other = String::from_str(lit);
    *s == other
}

/// Copies of a run of strings.
pub fn copy_texts(v: &Vec<String>) -> (r: Vec<String>)
    ensures
        r@.len() == v@.len(),
        forall|i: int| 0 <= i < v@.len() ==> r@[i]@ == v@[i]@,
{
    let mut out: Vec<String> = Vec::new();
    let mut i: usize = 0;
    while i < v.len()
        invariant
            i <= v.len(),
            out@.len() == i,
            forall|k: int| 0 <= k < i ==> out@[k]@ == v@[k]@,
        decreases v.len() - i,
    {
        out.push(v[i].clone());
        i += 1;
    }
    out
}

/// Copies of a run of type expressions.
pub fn copy_types(v: &Vec<TypeExpr>) -> (r: Vec<TypeExpr>)
    ensures
        terms_of(r@) == terms_of(v@),
    decreases v,
{
    let mut out: Vec<TypeExpr> = Vec::new();
    let mut i: usize = 0;
    while i < v.len()
        invariant
            i <= v.len(),
            out@.len() == i,
            forall|k: int| 0 <= k < i ==> out@[k]@ == v@[k]@,
        decreases v.len() - i,
    {
        out.push(v[i].duplicate());
        i += 1;
    }
    assert(terms_of(out@) =~= terms_of(v@));
    out
}

/// Copies of a run of segments.
pub fn copy_segments(v: &Vec<Segment>) -> (r: Vec<Segment>)
    ensures
        steps_of(r@) == steps_of(v@),
    decreases v,
{
    let mut out: Vec<Segment> = Vec::new();
    let mut i: usize = 0;
    while i < v.len()
        invariant
            i <= v.len(),
            out@.len() == i,
            forall|k: int| 0 <= k < i ==> out@[k]@ == v@[k]@,
        decreases v.len() - i,
    {
        out.push(v[i].duplicate());
        i += 1;
    }
    assert(steps_of(out@) =~= steps_of(v@));
    out
}

/// Whether two runs of type expressions have the same values.
pub fn same_types(a: &Vec<TypeExpr>, b: &Vec<TypeExpr>) -> (r: bool)
    ensures
        r == (terms_of(a@) == terms_of(b@)),
    decreases a,
{
    if a.len() != b.len() {
        assert(terms_of(a@).len() != terms_of(b@).len());
        return false;
    }
    let mut i: usize = 0;
    while i < a.len()
        invariant
            a.len() == b.len(),
            i <= a.len(),
            forall|k: int| 0 <= k < i ==> a@[k]@ == b@[k]@,
        decreases a.len() - i,
    {
        if !a[i].same(&b[i]) {
            assert(terms_of(a@)[i as int] != terms_of(b@)[i as int]);
            return false;
        }
        i += 1;
    }
    assert(terms_of(a@) =~= terms_of(b@));
    true
}

/// Whether two runs of segments have the same values.
pub fn same_segments(a: &Vec<Segment>, b: &Vec<Segment>) -> (r: bool)
    ensures
        r == (steps_of(a@) == steps_of(b@)),
    decreases a,
{
    if a.len() != b.len() {
        assert(steps_of(a@).len() != steps_of(b@).len());
        return false;
    }
    let mut i: usize = 0;
    while i < a.len()
        invariant
            a.len() == b.len(),
            i <= a.len(),
            forall|k: int| 0 <= k < i ==> a@[k]@ == b@[k]@,
        decreases a.len() - i,
    {
        if !a[i].same(&b[i]) {
            assert(steps_of(a@)[i as int] != steps_of(b@)[i as int]);
            return false;
        }
        i += 1;
    }
    assert(steps_of(a@) =~= steps_of(b@));
    true
}

/// Writes a type behind `out`, as source text.
pub fn push_type(t: &TypeExpr, out: &mut String)
    ensures
        final(out)@ == old(out)@ + text_of(t@),
    decreases t,
{
    let ghost start = out@;
    match t {
        TypeExpr::Named { global, segments } => {
            if *global {
                out.append("::");
            }
            let ghost mid = out@;
            push_segments(segments, out);
            assert(out@ =~= start + text_of(t@));
        },
        TypeExpr::Other { text, parts } => {
            out.append(text.as_str());
        },
    }
}

/// Writes the segments of a path behind `out`, as source text.
pub fn push_segments(segments: &Vec<Segment>, out: &mut String)
    ensures
        final(out)@ == old(out)@ + segments_text(steps_of(segments@), segments@.len() as int),
    decreases segments,
{
    let ghost start = out@;
    let mut i: usize = 0;
    assert(out@ =~= start + Seq::<char>::empty());
    while i < segments.len()
        invariant
            i <= segments.len(),
            out@ == start + segments_text(steps_of(segments@), i as int),
        decreases segments.len() - i,
    {
        let seg = &segments[i];
        assert(steps_of(segments@)[i as int] == seg@);
        assert(seg@.args.len() == seg.args@.len());
        if i > 0 {
            out.append("::");
        }
        out.append(seg.ident.as_str());
        if seg.args.len() > 0 {
            out.append("<");
            push_args(&seg.args, out);
            out.append(">");
        }
        assert(out@ =~= start + segments_text(steps_of(segments@), i + 1));
        i += 1;
    }
}

/// Writes the generic arguments of a segment behind `out`, as source text.
pub fn push_args(ts: &Vec<TypeExpr>, out: &mut String)
    ensures
        final(out)@ == old(out)@ + args_text(terms_of(ts@), ts@.len() as int),
    decreases ts,
{
    let ghost start = out@;
    let mut k: usize = 0;
    assert(out@ =~= start + Seq::<char>::empty());
    while k < ts.len()
        invariant
            k <= ts.len(),
            out@ == start + args_text(terms_of(ts@), k as int),
        decreases ts.len() - k,
    {
        assert(terms_of(ts@)[k as int] == ts@[k as int]@);
        if k > 0 {
            out.append(", ");
        }
        push_type(&ts[k], out);
        assert(out@ =~= start + args_text(terms_of(ts@), k + 1));
        k += 1;
    }
}

impl Segment {
    /// A deep copy.
    pub fn duplicate(&self) -> (r: Segment)
        ensures
            r@ == self@,
        decreases self,
    {
        Segment { ident: self.ident.clone(), args: copy_types(&self.args) }
    }

    /// Whether the two segments are written alike.
    pub fn same(&self, other: &Segment) -> (r: bool)
        ensures
            r == (self@ == other@),
        decreases self,
    {
        self.ident == other.ident && same_types(&self.args, &other.args)
    }
}

impl TypeExpr {
    /// A plain name without arguments, such as `T` or `String`.
    pub fn name(ident: &str) -> (r: TypeExpr)
        ensures
            r@ == plain_term(ident@),
    {
        let mut segments: Vec<Segment> = Vec::new();
        segments.push(Segment { ident: String::from_str(ident), args: Vec::new() });
        let r = TypeExpr::Named { global: false, segments };
        proof {
            let seg = segments@[0];
            assert(seg.args@ =~= Seq::<TypeExpr>::empty());
            assert(terms_of(seg.args@) =~= Seq::<TypeTerm>::empty());
            assert(seg@ == SegmentTerm { ident: ident@, args: Seq::empty() });
            assert(steps_of(segments@)[0] == seg@);
            assert(steps_of(segments@) =~= seq![seg@]);
        }
        r
    }

    /// A wrapper with one argument, such as `Vec<inner>`.
    pub fn wrap(outer: &str, inner: TypeExpr) -> (r: TypeExpr)
        ensures
            r@ == wrapper_term(outer@, inner@),
            wrapped_in(r@, outer@) == Some(inner@),
    {
        let mut args: Vec<TypeExpr> = Vec::new();
        args.push(inner);
        let mut segments: Vec<Segment> = Vec::new();
        segments.push(Segment { ident: String::from_str(outer), args });
        let r = TypeExpr::Named { global: false, segments };
        proof {
            let seg = segments@[0];
            assert(seg.args@ =~= seq![inner]);
            assert(terms_of(seg.args@)[0] == inner@);
            assert(terms_of(seg.args@) =~= seq![inner@]);
            assert(seg@ == SegmentTerm { ident: outer@, args: seq![inner@] });
            assert(steps_of(segments@)[0] == seg@);
            assert(steps_of(segments@) =~= seq![seg@]);
        }
        r
    }

    /// An associated type of a parameter, such as `T::Value`.
    pub fn associated(root: &str, name: &str) -> (r: TypeExpr)
        ensures
            r@ == associated_term(root@, name@),
    {
        let mut segments: Vec<Segment> = Vec::new();
        segments.push(Segment { ident: String::from_str(root), args: Vec::new() });
        segments.push(Segment { ident: String::from_str(name), args: Vec::new() });
        let r = TypeExpr::Named { global: false, segments };
        proof {
            let first = segments@[0];
            let second = segments@[1];
            assert(first.args@ =~= Seq::<TypeExpr>::empty());
            assert(second.args@ =~= Seq::<TypeExpr>::empty());
            assert(terms_of(first.args@) =~= Seq::<TypeTerm>::empty());
            assert(terms_of(second.args@) =~= Seq::<TypeTerm>::empty());
            assert(steps_of(segments@)[0] == first@);
            assert(steps_of(segments@)[1] == second@);
            assert(steps_of(segments@) =~= seq![first@, second@]);
        }
        r
    }

    /// The type as source text.
    pub fn to_text(&self) -> (r: String)
        ensures
            r@ == text_of(self@),
    {
        let mut out = String::new();
        push_type(self, &mut out);
        assert(out@ =~= text_of(self@));
        out
    }

    /// A deep copy.
    pub fn duplicate(&self) -> (r: TypeExpr)
        ensures
            r@ == self@,
        decreases self,
    {
        match self {
            TypeExpr::Named { global, segments } => TypeExpr::Named {
                global: *global,
                segments: copy_segments(segments),
            },
            TypeExpr::Other { text, parts } => TypeExpr::Other {
                text: text.clone(),
                parts: copy_types(parts),
            },
        }
    }

    /// Whether the two expressions are written alike.
    pub fn same(&self, other: &TypeExpr) -> (r: bool)
        ensures
            r == (self@ == other@),
        decreases self,
    {
        match self {
            TypeExpr::Named { global, segments } => match other {
                TypeExpr::Named { global: g, segments: s } => *global == *g && same_segments(
                    segments,
                    s,
                ),
                TypeExpr::Other { .. } => false,
            },
            TypeExpr::Other { text, parts } => match other {
                TypeExpr::Named { .. } => false,
                TypeExpr::Other { text: t, parts: p } => *text == *t && same_types(parts, p),
            },
        }
    }

    /// The identifier that a named type ends in.
    pub fn ending(&self) -> (r: Option<&String>)
        ensures
            match r {
                Some(s) => terminal_ident(self@) == Some(s@),
                None => terminal_ident(self@) is None,
            },
    {
        match self.last_segment() {
            Some(seg) => Some(&seg.ident),
            None => None,
        }
    }

    /// The last segment of a named type.
    pub fn last_segment(&self) -> (r: Option<&Segment>)
        ensures
            match r {
                Some(seg) => outermost(self@) == Some(seg@),
                None => outermost(self@) is None,
            },
    {
        match self {
            TypeExpr::Named { global, segments } => {
                if segments.len() > 0 {
                    assert(steps_of(segments@).last() == segments@[segments@.len() - 1]@);
                    Some(&segments[segments.len() - 1])
                } else {
                    None
                }
            },
            TypeExpr::Other { .. } => None,
        }
    }
}

/// The type that a wrapper named `outer_ident_name` wraps, if `ty` is such a
/// wrapper.
pub fn get_generic_inner_type<'a>(ty: &'a TypeExpr, outer_ident_name: &str) -> (r: Option<
    &'a TypeExpr,
>)
    ensures
        match r {
            Some(inner) => wrapped_in(ty@, outer_ident_name@) == Some(inner@),
            None => wrapped_in(ty@, outer_ident_name@) is None,
        },
{
    match ty.last_segment() {
        Some(seg) => {
            if is_text(&seg.ident, outer_ident_name) && seg.args.len() == 1 {
                assert(terms_of(seg.args@)[0] == seg.args@[0]@);
                Some(&seg.args[0])
            } else {
                None
            }
        },
        None => None,
    }
}

/// The type inside an `Option<..>`, if `ty` is one.
pub fn get_optional_inner_type(ty: &TypeExpr) -> (r: Option<&TypeExpr>)
    ensures
        match r {
            Some(inner) => wrapped_in(ty@, "Option"@) == Some(inner@),
            None => wrapped_in(ty@, "Option"@) is None,
        },
{
    get_generic_inner_type(ty, "Option")
}

} // verus!
