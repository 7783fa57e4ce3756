//! Attributes, given as their full token streams `#[...]`.
use vstd::prelude::*;
use crate::error::{CtorError, CtorErrorV};
use crate::syntax::{any_open_at, at_any_open, at_punct, punct_at};
use crate::tokens::{
    copy_contents, group_contents, is_ident_named, origin_at, origin_of, tv, Origin, Tok, TokV,
};

verus! {

/// The values of a list of attributes.
pub open spec fn attrs_view(a: Seq<Vec<Tok>>) -> Seq<Seq<TokV>> {
    a.map_values(|x: Vec<Tok>| tv(&x))
}

/// The position of the bracket group of an attribute: after `#`, or after
/// `#!` for an inner attribute.
pub open spec fn bracket_index(a: Seq<TokV>) -> int {
    if at_any_open(a, 1) {
        1
    } else if at_punct(a, 1, '!') && at_any_open(a, 2) {
        2
    } else {
        -1
    }
}

/// The meta item of an attribute: what its brackets hold.
pub open spec fn attr_meta(a: Seq<TokV>) -> Seq<TokV> {
    let b = bracket_index(a);
    if b < 0 {
        seq![]
    } else {
        group_contents(a, b)
    }
}

/// The attribute's path is the single identifier `ctor`.
pub open spec fn is_ctor_attr(a: Seq<TokV>) -> bool {
    let m = attr_meta(a);
    m.len() >= 1 && is_ident_named(m[0], "ctor"@) && !at_punct(m, 1, ':')
}

/// The arguments of a `ctor` attribute and where their end points, or the
/// error for an attribute without an argument list: at `ctor` for a bare
/// `#[ctor]`, at the `=` for `#[ctor = ...]`.
pub open spec fn spec_ctor_args(a: Seq<TokV>) -> Result<(Seq<TokV>, Origin), CtorErrorV> {
    let m = attr_meta(a);
    if at_any_open(m, 1) {
        Ok((group_contents(m, 1), origin_of(m[1])))
    } else {
        Err(
            CtorErrorV::MissingArguments {
                at: origin_at(
                    m,
                    if m.len() > 1 {
                        1
                    } else {
                        0
                    },
                    Origin::CallSite,
                ),
                after_eq: m.len() > 1,
            },
        )
    }
}

/// The index of the first `ctor` attribute from `i` on, if any.
pub open spec fn first_ctor_from(attrs: Seq<Seq<TokV>>, i: int) -> Option<int>
    decreases attrs.len() - i,
{
    if i < 0 || i >= attrs.len() {
        None
    } else if is_ctor_attr(attrs[i]) {
        Some(i)
    } else {
        first_ctor_from(attrs, i + 1)
    }
}

/// The index of the first `ctor` attribute, if any.
pub open spec fn first_ctor(attrs: Seq<Seq<TokV>>) -> Option<int> {
    first_ctor_from(attrs, 0)
}

/// The position of the bracket group of an attribute, if it has one.
fn bracket_index_exec(a: &Vec<Tok>) -> (r: Option<usize>)
    ensures
        match r {
            Some(b) => bracket_index(tv(a)) == b as int && b < a.len() && (tv(a)[b as int] is Open),
            None => bracket_index(tv(a)) == -1,
        },
{
    if any_open_at(a, 1) {
        Some(1)
    } else if punct_at(a, 1, '!') && any_open_at(a, 2) {
        Some(2)
    } else {
        None
    }
}

/// The meta item of an attribute.
pub fn meta_of(a: &Vec<Tok>) -> (r: Vec<Tok>)
    ensures
        tv(&r) == attr_meta(tv(a)),
{
    match bracket_index_exec(a) {
        Some(b) => copy_contents(a, b),
        None => {
            let r: Vec<Tok> = Vec::new();
            proof {
                assert(tv(&r) =~= seq![]);
            }
            r
        },
    }
}

/// Whether the attribute's path is the single identifier `ctor`.
pub fn is_ctor(a: &Vec<Tok>) -> (r: bool)
    ensures
        r == is_ctor_attr(tv(a)),
{
    let m = meta_of(a);
    m.len() >= 1 && m[0].is_ident("ctor") && !punct_at(&m, 1, ':')
}

/// The arguments of a `ctor` attribute and where their end points.
pub fn ctor_args(a: &Vec<Tok>) -> (r: Result<(Vec<Tok>, Origin), CtorError>)
    ensures
        match r {
            Ok((args, end)) => spec_ctor_args(tv(a)) == Ok::<(Seq<TokV>, Origin), CtorErrorV>(
                (tv(&args), end),
            ),
            Err(e) => spec_ctor_args(tv(a)) == Err::<(Seq<TokV>, Origin), CtorErrorV>(e@),
        },
{
    let m = meta_of(a);
    if any_open_at(&m, 1) {
        let args = copy_contents(&m, 1);
        Ok((args, m[1].origin()))
    } else {
        let at = if m.len() > 1 {
            m[1].origin()
        } else if m.len() == 1 {
            m[0].origin()
        } else {
            Origin::CallSite
        };
        Err(CtorError::MissingArguments { at, after_eq: m.len() > 1 })
    }
}

/// The index of the first `ctor` attribute, if any.
pub fn find_ctor_attr(attrs: &Vec<Vec<Tok>>) -> (r: Option<usize>)
    ensures
        match r {
            Some(i) => first_ctor(attrs_view(attrs@)) == Some(i as int) && i < attrs.len(),
            None => first_ctor(attrs_view(attrs@)) == None::<int>,
        },
{
    let ghost av = attrs_view(attrs@);
    let mut i: usize = 0;
    while i < attrs.len()
        invariant
            av == attrs_view(attrs@),
            i <= attrs.len(),
            first_ctor(av) == first_ctor_from(av, i as int),
        decreases attrs.len() - i,
    {
        if is_ctor(&attrs[i]) {
            return Some(i);
        }
        i = i + 1;
    }
    None
}

} // verus!
