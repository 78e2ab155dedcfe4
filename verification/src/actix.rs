//! The brace dialect: captures are written `{name}`, optionally with an
//! inline constraint after a colon, `{id:\d+}`; there is no query part, and
//! captures bind through a generic `Path<...>` extraction wrapper on one of
//! the handler's parameters.

use vstd::prelude::*;

use crate::AttrToken;
use crate::AttributeData;
use crate::Dialect;
use crate::ParamDesc;
use crate::PathOperation;
use crate::ResolveError;
use crate::ResolvedArg;
use crate::ResolvedOperation;
use crate::ResolvedPath;
use crate::TypeDesc;
use crate::params;
use crate::scan;
use crate::strutil;

verus! {

/// The operation keywords this dialect recognizes: one attribute per
/// method, nothing else.
pub open spec fn spec_is_request_keyword(s: Seq<char>) -> bool {
    crate::spec_operation_of(s) is Some
}

/// Whether an attribute identifier names a route of this dialect.
pub open spec fn spec_attr_is_request(name: Option<String>) -> bool {
    match name {
        Some(n) => spec_is_request_keyword(n@),
        None => false,
    }
}

fn is_valid_request_type(ident: &Option<String>) -> (r: bool)
    ensures
        r == spec_attr_is_request(*ident),
{
    match ident {
        Some(n) => PathOperation::from_name(n.as_str()).is_some(),
        None => false,
    }
}

/// How this dialect reads an operation attribute's argument tokens: a path
/// literal first; trailing tokens are discarded. `None` on anything else.
pub open spec fn spec_parse_args(toks: Seq<AttrToken>) -> Option<Seq<char>> {
    if toks.len() >= 1 {
        match toks[0] {
            AttrToken::LitStr(p) => Some(p@),
            _ => None,
        }
    } else {
        None
    }
}

/// The index of the first attribute this dialect recognizes as a route.
pub open spec fn spec_first_request(attrs: Seq<AttributeData>, i: int) -> Option<int>
    decreases attrs.len() - i,
{
    if i < 0 || i >= attrs.len() {
        None
    } else if spec_attr_is_request(attrs[i].name) {
        Some(i)
    } else {
        spec_first_request(attrs, i + 1)
    }
}

/// What operation classification must return for this dialect: nothing when
/// no attribute is recognized; else, from the first recognized attribute,
/// the path literal and the method the attribute itself names, or a
/// malformed-attribute error.
pub open spec fn spec_operation_ok(
    attrs: Seq<AttributeData>,
    r: Result<Option<ResolvedOperation>, ResolveError>,
) -> bool {
    match spec_first_request(attrs, 0) {
        None => r == Ok::<Option<ResolvedOperation>, ResolveError>(None),
        Some(ix) => {
            let a = attrs[ix];
            match spec_parse_args(a.tokens@) {
                None => r == Err::<Option<ResolvedOperation>, ResolveError>(
                    ResolveError::MalformedAttribute(ix as usize),
                ),
                Some(p) => {
                    let mname = match a.name {
                        Some(n) => n@,
                        None => Seq::empty(),
                    };
                    r matches Ok(o) && o matches Some(ro) && crate::spec_operation_of(mname)
                        == Some(ro.path_operation) && ro.path@ == p
                },
            }
        },
    }
}

/// Find and classify this dialect's operation attribute.
pub fn resolve_operation(attrs: &Vec<AttributeData>) -> (r: Result<
    Option<ResolvedOperation>,
    ResolveError,
>)
    ensures
        spec_operation_ok(attrs@, r),
{
    let mut i: usize = 0;
    while i < attrs.len()
        invariant
            i <= attrs@.len(),
            spec_first_request(attrs@, 0) == spec_first_request(attrs@, i as int),
        decreases attrs@.len() - i,
    {
        if is_valid_request_type(&attrs[i].name) {
            assert(spec_first_request(attrs@, i as int) == Some(i as int));
            let toks = &attrs[i].tokens;
            if toks.len() >= 1 {
                match &toks[0] {
                    AttrToken::LitStr(p) => {
                        let name: &String = match &attrs[i].name {
                            Some(n) => n,
                            None => vstd::pervasive::unreached(),
                        };
                        match PathOperation::from_name(name.as_str()) {
                            Some(op) => {
                                return Ok(
                                    Some(
                                        ResolvedOperation {
                                            path_operation: op,
                                            path: p.clone(),
                                        },
                                    ),
                                );
                            },
                            None => {
                                return vstd::pervasive::unreached();
                            },
                        }
                    },
                    _ => {
                        return Err(ResolveError::MalformedAttribute(i));
                    },
                }
            } else {
                return Err(ResolveError::MalformedAttribute(i));
            }
        }
        assert(spec_first_request(attrs@, i as int) == spec_first_request(attrs@, i + 1));
        i = i + 1;
    }
    Ok(None)
}

/// The canonical form of a raw path in this dialect: one scan of the whole
/// text; every capture is a path capture.
pub open spec fn spec_resolved(s: Seq<char>) -> (Seq<char>, Seq<Seq<char>>) {
    let p = scan::scan(Dialect::Actix, s, 0, 0);
    (p.0, p.1)
}

/// Rewrite a raw path of this dialect to its canonical form, discarding
/// inline constraints, and collect its ordered captures.
pub fn resolve_path(path: &Option<String>) -> (r: Option<ResolvedPath>)
    ensures
        path is None ==> r is None,
        path matches Some(p) ==> (r matches Some(rp) && rp.path@ == spec_resolved(p@).0
            && crate::args_match(rp.args@, spec_resolved(p@).1, Seq::empty())),
{
    let p = match path {
        Some(p) => p,
        None => {
            return None;
        },
    };
    let v = strutil::chars_of(p.as_str());
    let vlen = v.len();
    assert(v@.len() == vlen as nat);
    let ps = scan::scan_path(Dialect::Actix, &v, 0);
    let ghost pn = scan::names_view(ps.names@);
    let names = ps.names;
    let mut args: Vec<ResolvedArg> = Vec::new();
    let mut i: usize = 0;
    while i < names.len()
        invariant
            i <= names@.len(),
            pn == scan::names_view(names@),
            args@.len() == i,
            forall|k: int|
                #![trigger args@[k]]
                0 <= k < i ==> (args@[k] matches ResolvedArg::Path(n) && n@ == pn[k]),
        decreases names@.len() - i,
    {
        args.push(ResolvedArg::Path(names[i].clone()));
        i = i + 1;
    }
    proof {
        assert(crate::args_match(args@, pn, Seq::empty()));
    }
    Some(ResolvedPath { path: strutil::string_of(&ps.text), args })
}

/// What searching the parameters for the extraction wrapper yields: the
/// index of the first parameter whose type is a generic application named
/// `Path`, with its type arguments; `Ok(None)` when no parameter has one; a
/// reference or tuple type is not searchable and is fatal.
pub open spec fn spec_find_path_param(ps: Seq<ParamDesc>, i: int) -> Result<
    Option<(int, Vec<TypeDesc>)>,
    int,
>
    decreases ps.len() - i,
{
    if i < 0 || i >= ps.len() {
        Ok(None)
    } else {
        match ps[i].ty {
            TypeDesc::Named(_) => spec_find_path_param(ps, i + 1),
            TypeDesc::Generic(w, args) => if w@ == "Path"@ {
                Ok(Some((i, args)))
            } else {
                spec_find_path_param(ps, i + 1)
            },
            TypeDesc::Reference(_) => Err(i),
            TypeDesc::Tuple(_) => Err(i),
        }
    }
}

/// The type identifiers the wrapper's type arguments expand to: a plain or
/// reference type contributes its identifier, a tuple type one identifier
/// per element; any other shape is fatal.
pub open spec fn spec_expand_args(ts: Vec<TypeDesc>, i: int) -> Option<Seq<Seq<char>>>
    decreases ts, ts.len() - i,
{
    if i < 0 || i >= ts.len() {
        Some(Seq::empty())
    } else {
        let head = match ts[i] {
            TypeDesc::Tuple(es) => spec_tuple_idents(es, 0),
            _ => match params::spec_ref_base(ts[i]) {
                Some(id) => Some(seq![id]),
                None => None,
            },
        };
        match head {
            Some(h) => match spec_expand_args(ts, i + 1) {
                Some(t) => Some(h + t),
                None => None,
            },
            None => None,
        }
    }
}

/// The identifiers of a tuple type's elements, references stripped.
pub open spec fn spec_tuple_idents(es: Vec<TypeDesc>, k: int) -> Option<Seq<Seq<char>>>
    decreases es, es.len() - k,
{
    if k < 0 || k >= es.len() {
        Some(Seq::empty())
    } else {
        match params::spec_ref_base(es[k]) {
            Some(id) => match spec_tuple_idents(es, k + 1) {
                Some(t) => Some(seq![id] + t),
                None => None,
            },
            None => None,
        }
    }
}

/// The identifiers of a tuple type's elements, references stripped.
fn tuple_idents(es: &Vec<TypeDesc>) -> (r: Option<Vec<String>>)
    ensures
        match r {
            Some(v) => spec_tuple_idents(*es, 0) == Some(scan::names_view(v@)),
            None => spec_tuple_idents(*es, 0) is None,
        },
{
    let mut out: Vec<String> = Vec::new();
    let mut k: usize = 0;
    proof {
        assert(scan::names_view(out@) =~= Seq::<Seq<char>>::empty());
    }
    while k < es.len()
        invariant
            k <= es@.len(),
            match spec_tuple_idents(*es, k as int) {
                Some(t) => spec_tuple_idents(*es, 0) == Some(scan::names_view(out@) + t),
                None => spec_tuple_idents(*es, 0) is None,
            },
        decreases es@.len() - k,
    {
        match params::ref_base(&es[k]) {
            Some(id) => {
                let ghost old_out = out@;
                out.push(id);
                proof {
                    assert(scan::names_view(out@) =~= scan::names_view(old_out) + seq![
                        out@[old_out.len() as int]@,
                    ]);
                }
            },
            None => {
                return None;
            },
        }
        k = k + 1;
    }
    proof {
        assert(scan::names_view(out@) + Seq::<Seq<char>>::empty() =~= scan::names_view(out@));
    }
    Some(out)
}

/// Expand the wrapper's type arguments into flat type identifiers.
fn expand_args(ts: &Vec<TypeDesc>) -> (r: Option<Vec<String>>)
    ensures
        match r {
            Some(v) => spec_expand_args(*ts, 0) == Some(scan::names_view(v@)),
            None => spec_expand_args(*ts, 0) is None,
        },
{
    let mut out: Vec<String> = Vec::new();
    let mut i: usize = 0;
    proof {
        assert(scan::names_view(out@) =~= Seq::<Seq<char>>::empty());
    }
    while i < ts.len()
        invariant
            i <= ts@.len(),
            match spec_expand_args(*ts, i as int) {
                Some(t) => spec_expand_args(*ts, 0) == Some(scan::names_view(out@) + t),
                None => spec_expand_args(*ts, 0) is None,
            },
        decreases ts@.len() - i,
    {
        let head: Option<Vec<String>> = match &ts[i] {
            TypeDesc::Tuple(es) => tuple_idents(es),
            other => match params::ref_base(other) {
                Some(id) => {
                    let mut one: Vec<String> = Vec::new();
                    one.push(id);
                    proof {
                        assert(scan::names_view(one@) =~= seq![one@[0]@]);
                    }
                    Some(one)
                },
                None => None,
            },
        };
        match head {
            Some(mut h) => {
                let ghost old_out = out@;
                let ghost hv = h@;
                out.append(&mut h);
                proof {
                    assert(scan::names_view(out@) =~= scan::names_view(old_out)
                        + scan::names_view(hv));
                }
            },
            None => {
                return None;
            },
        }
        i = i + 1;
    }
    proof {
        assert(scan::names_view(out@) + Seq::<Seq<char>>::empty() =~= scan::names_view(out@));
    }
    Some(out)
}

/// What argument binding must return for this dialect: nothing without a
/// resolved path or without an extraction-wrapper parameter; else the
/// capture list zipped positionally against the wrapper's expanded type
/// identifiers, an unrepresentable parameter being fatal, as is a length
/// mismatch.
pub open spec fn spec_arguments_ok(
    params_: Seq<ParamDesc>,
    resolved: Option<ResolvedPath>,
    r: Result<Option<Vec<crate::Argument>>, ResolveError>,
) -> bool {
    match resolved {
        None => r == Ok::<Option<Vec<crate::Argument>>, ResolveError>(None),
        Some(rp) => match spec_find_path_param(params_, 0) {
            Err(ix) => r == Err::<Option<Vec<crate::Argument>>, ResolveError>(
                ResolveError::UnexpectedParamShape(ix as usize),
            ),
            Ok(None) => r == Ok::<Option<Vec<crate::Argument>>, ResolveError>(None),
            Ok(Some((ix, wargs))) => match spec_expand_args(wargs, 0) {
                None => r == Err::<Option<Vec<crate::Argument>>, ResolveError>(
                    ResolveError::UnexpectedParamShape(ix as usize),
                ),
                Some(tys) => if rp.args@.len() == tys.len() {
                    r matches Ok(o) && o matches Some(v) && v@.len() == tys.len() && (forall|k: int|
                        0 <= k < v@.len() ==> params::bound_arg_ok(v@[k], rp.args@[k], tys[k]))
                } else {
                    r == Err::<Option<Vec<crate::Argument>>, ResolveError>(
                        ResolveError::ArgumentCountMismatch(
                            rp.args@.len() as usize,
                            tys.len() as usize,
                        ),
                    )
                },
            },
        },
    }
}

/// Bind this dialect's captures to the extraction wrapper's type arguments,
/// index for index; a length mismatch is fatal, never truncated.
pub fn resolve_path_arguments(params_: &Vec<ParamDesc>, resolved: &Option<ResolvedPath>) -> (r:
    Result<Option<Vec<crate::Argument>>, ResolveError>)
    ensures
        spec_arguments_ok(params_@, *resolved, r),
{
    let rp = match resolved {
        Some(rp) => rp,
        None => {
            return Ok(None);
        },
    };
    let mut i: usize = 0;
    while i < params_.len()
        invariant
            i <= params_@.len(),
            *resolved == Some(*rp),
            spec_find_path_param(params_@, 0) == spec_find_path_param(params_@, i as int),
        decreases params_@.len() - i,
    {
        match &params_[i].ty {
            TypeDesc::Named(_) => {},
            TypeDesc::Generic(w, wargs) => {
                if strutil::str_eq(w.as_str(), "Path") {
                    proof {
                        assert(params_@[i as int].ty == TypeDesc::Generic(*w, *wargs));
                        assert(spec_find_path_param(params_@, i as int) == Ok::<
                            Option<(int, Vec<TypeDesc>)>,
                            int,
                        >(Some((i as int, *wargs))));
                    }
                    match expand_args(wargs) {
                        Some(tys) => {
                            match params::bind_arguments(&rp.args, &tys) {
                                Ok(v) => {
                                    proof {
                                        assert forall|k: int|
                                            0 <= k < v@.len() implies params::bound_arg_ok(
                                            v@[k],
                                            rp.args@[k],
                                            scan::names_view(tys@)[k],
                                        ) by {
                                            assert(scan::names_view(tys@)[k] == tys@[k]@);
                                            assert(params::bound_arg_ok(
                                                v@[k],
                                                rp.args@[k],
                                                tys@[k]@,
                                            ));
                                        }
                                    }
                                    return Ok(Some(v));
                                },
                                Err(e) => {
                                    proof {
                                        assert(scan::names_view(tys@).len() == tys@.len());
                                    }
                                    return Err(e);
                                },
                            }
                        },
                        None => {
                            return Err(ResolveError::UnexpectedParamShape(i));
                        },
                    }
                }
            },
            TypeDesc::Reference(_) => {
                return Err(ResolveError::UnexpectedParamShape(i));
            },
            TypeDesc::Tuple(_) => {
                return Err(ResolveError::UnexpectedParamShape(i));
            },
        }
        assert(spec_find_path_param(params_@, i as int) == spec_find_path_param(params_@, i + 1));
        i = i + 1;
    }
    Ok(None)
}

} // verus!
