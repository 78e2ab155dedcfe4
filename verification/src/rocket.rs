//! The angle-bracket dialect: captures are written `<name>`, a trailing
//! multi-segment capture `<name..>`, the anonymous marker is `_`, and the
//! path may carry a query part after `?` whose captures bind separately.

use vstd::prelude::*;

use crate::AttrToken;
use crate::AttributeData;
use crate::Dialect;
use crate::ParamDesc;
use crate::PatDesc;
use crate::ResolveError;
use crate::ResolvedArg;
use crate::ResolvedOperation;
use crate::ResolvedPath;
use crate::TypeDesc;
use crate::PathOperation;
use crate::params;
use crate::scan;
use crate::strutil;

verus! {

/// One flattened binding: a bound identifier, its underlying type
/// identifier, and whether the type was wrapped in a `Vec`.
#[derive(Clone, PartialEq, Eq, Debug)]
pub struct Arg {
    pub name: String,
    pub ty: String,
    pub is_array: bool,
}

/// The views of a list of bindings.
pub open spec fn arg_views(args: Seq<Arg>) -> Seq<(Seq<char>, Seq<char>, bool)> {
    args.map_values(|a: Arg| (a.name@, a.ty@, a.is_array))
}

/// The flattened bindings of one parameter: a plain identifier binds its
/// type's underlying identifier; a destructured tuple binds elementwise,
/// nested tuples flattening recursively. `None` on any other shape.
pub open spec fn spec_flatten(pat: PatDesc, ty: TypeDesc) -> Option<
    Seq<(Seq<char>, Seq<char>, bool)>,
>
    decreases pat, 0int,
{
    match pat {
        PatDesc::Ident(n) => match params::spec_base_of(ty) {
            Some(b) => Some(seq![(n@, b.0, b.1)]),
            None => None,
        },
        PatDesc::Tuple(ps) => match ty {
            TypeDesc::Tuple(ts) => if ps.len() == ts.len() {
                spec_flatten_list(ps, ts, 0)
            } else {
                None
            },
            _ => None,
        },
    }
}

/// The concatenated bindings of the tuple elements from `i` on.
pub open spec fn spec_flatten_list(ps: Vec<PatDesc>, ts: Vec<TypeDesc>, i: int) -> Option<
    Seq<(Seq<char>, Seq<char>, bool)>,
>
    decreases ps, ps.len() - i,
{
    if i < 0 || i >= ps.len() || ps.len() != ts.len() {
        Some(Seq::empty())
    } else {
        match spec_flatten(ps[i], ts[i]) {
            Some(h) => match spec_flatten_list(ps, ts, i + 1) {
                Some(t) => Some(h + t),
                None => None,
            },
            None => None,
        }
    }
}

/// Flatten one parameter's pattern and type into bindings.
pub fn flatten_param(pat: &PatDesc, ty: &TypeDesc) -> (r: Option<Vec<Arg>>)
    ensures
        match r {
            Some(v) => spec_flatten(*pat, *ty) == Some(arg_views(v@)),
            None => spec_flatten(*pat, *ty) is None,
        },
    decreases *pat, 0int,
{
    match pat {
        PatDesc::Ident(n) => match params::base_of(ty) {
            Some(b) => {
                let mut v: Vec<Arg> = Vec::new();
                v.push(Arg { name: n.clone(), ty: b.0, is_array: b.1 });
                proof {
                    assert(arg_views(v@) =~= seq![(n@, v@[0].ty@, v@[0].is_array)]);
                }
                Some(v)
            },
            None => None,
        },
        PatDesc::Tuple(ps) => match ty {
            TypeDesc::Tuple(ts) => {
                if ps.len() != ts.len() {
                    return None;
                }
                let mut acc: Vec<Arg> = Vec::new();
                let mut i: usize = 0;
                proof {
                    assert(arg_views(acc@) =~= Seq::<(Seq<char>, Seq<char>, bool)>::empty());
                }
                while i < ps.len()
                    invariant
                        i <= ps@.len(),
                        ps@.len() == ts@.len(),
                        *pat == PatDesc::Tuple(*ps),
                        *ty == TypeDesc::Tuple(*ts),
                        match spec_flatten_list(*ps, *ts, i as int) {
                            Some(t) => spec_flatten_list(*ps, *ts, 0) == Some(arg_views(acc@) + t),
                            None => spec_flatten_list(*ps, *ts, 0) is None,
                        },
                    decreases ps@.len() - i,
                {
                    match flatten_param(&ps[i], &ts[i]) {
                        Some(mut h) => {
                            let ghost old_acc = acc@;
                            acc.append(&mut h);
                            proof {
                                assert(arg_views(acc@) =~= arg_views(old_acc) + arg_views(
                                    acc@.subrange(old_acc.len() as int, acc@.len() as int),
                                ));
                                assert(acc@.subrange(old_acc.len() as int, acc@.len() as int)
                                    =~= acc@.skip(old_acc.len() as int));
                            }
                        },
                        None => {
                            proof {
                                assert(spec_flatten_list(*ps, *ts, i as int) is None);
                                assert(spec_flatten_list(*ps, *ts, 0) is None);
                            }
                            return None;
                        },
                    }
                    i = i + 1;
                }
                proof {
                    assert(spec_flatten_list(*ps, *ts, i as int) == Some(
                        Seq::<(Seq<char>, Seq<char>, bool)>::empty(),
                    ));
                    assert(arg_views(acc@) + Seq::<(Seq<char>, Seq<char>, bool)>::empty()
                        =~= arg_views(acc@));
                }
                Some(acc)
            },
            _ => None,
        },
    }
}

/// The first parameter from `i` on whose shape has no flattening, if any.
pub open spec fn spec_first_bad_param(ps: Seq<ParamDesc>, i: int) -> Option<int>
    decreases ps.len() - i,
{
    if i < 0 || i >= ps.len() {
        None
    } else if spec_flatten(ps[i].pat, ps[i].ty) is None {
        Some(i)
    } else {
        spec_first_bad_param(ps, i + 1)
    }
}

/// The concatenated bindings of all parameters from `i` on.
pub open spec fn spec_params_flatten(ps: Seq<ParamDesc>, i: int) -> Seq<
    (Seq<char>, Seq<char>, bool),
>
    decreases ps.len() - i,
{
    if i < 0 || i >= ps.len() {
        Seq::empty()
    } else {
        match spec_flatten(ps[i].pat, ps[i].ty) {
            Some(h) => h + spec_params_flatten(ps, i + 1),
            None => spec_params_flatten(ps, i + 1),
        }
    }
}

/// The flattened bindings of the whole parameter list, in declaration
/// order; the first unrepresentable parameter is fatal.
pub fn get_argument_name_and_type(params: &Vec<ParamDesc>) -> (r: Result<Vec<Arg>, ResolveError>)
    ensures
        match r {
            Ok(v) => spec_first_bad_param(params@, 0) is None && arg_views(v@)
                == spec_params_flatten(params@, 0),
            Err(e) => spec_first_bad_param(params@, 0) matches Some(ix) && e
                == ResolveError::UnexpectedParamShape(ix as usize),
        },
{
    let mut acc: Vec<Arg> = Vec::new();
    let mut i: usize = 0;
    proof {
        assert(arg_views(acc@) =~= Seq::<(Seq<char>, Seq<char>, bool)>::empty());
    }
    while i < params.len()
        invariant
            i <= params@.len(),
            spec_first_bad_param(params@, 0) == spec_first_bad_param(params@, i as int),
            arg_views(acc@) + spec_params_flatten(params@, i as int) == spec_params_flatten(
                params@,
                0,
            ),
        decreases params@.len() - i,
    {
        match flatten_param(&params[i].pat, &params[i].ty) {
            Some(mut h) => {
                let ghost old_acc = acc@;
                acc.append(&mut h);
                proof {
                    assert(arg_views(acc@) =~= arg_views(old_acc) + arg_views(
                        acc@.skip(old_acc.len() as int),
                    ));
                    assert(arg_views(acc@) + spec_params_flatten(params@, i + 1)
                        =~= arg_views(old_acc) + (arg_views(acc@.skip(old_acc.len() as int))
                        + spec_params_flatten(params@, i + 1)));
                }
            },
            None => {
                return Err(ResolveError::UnexpectedParamShape(i));
            },
        }
        i = i + 1;
    }
    proof {
        assert(arg_views(acc@) + Seq::<(Seq<char>, Seq<char>, bool)>::empty() =~= arg_views(acc@));
    }
    Ok(acc)
}

/// The operation keywords this dialect recognizes: the method attributes,
/// and the generic `route` form that carries the method as data.
pub open spec fn spec_is_route_keyword(s: Seq<char>) -> bool {
    ||| s == "get"@
    ||| s == "post"@
    ||| s == "put"@
    ||| s == "delete"@
    ||| s == "head"@
    ||| s == "options"@
    ||| s == "patch"@
    ||| s == "route"@
}

/// Whether an attribute identifier names a route of this dialect.
pub open spec fn spec_attr_is_route(name: Option<String>) -> bool {
    match name {
        Some(n) => spec_is_route_keyword(n@),
        None => false,
    }
}

fn is_valid_route_type(ident: &Option<String>) -> (r: bool)
    ensures
        r == spec_attr_is_route(*ident),
{
    match ident {
        Some(n) => {
            let s = n.as_str();
            strutil::str_eq(s, "get") || strutil::str_eq(s, "post") || strutil::str_eq(s, "put")
                || strutil::str_eq(s, "delete") || strutil::str_eq(s, "head") || strutil::str_eq(
                s,
                "options",
            ) || strutil::str_eq(s, "patch") || strutil::str_eq(s, "route")
        },
        None => false,
    }
}

/// How this dialect reads an operation attribute's argument tokens: either
/// a path literal alone, or a method identifier, a comma, `uri`, an equals
/// sign, and the path literal; trailing tokens are discarded. The method
/// identifier comes back lower-cased. `None` on anything else.
pub open spec fn spec_parse_args(toks: Seq<AttrToken>) -> Option<(Seq<char>, Option<Seq<char>>)> {
    if toks.len() == 0 {
        None
    } else {
        match toks[0] {
            AttrToken::LitStr(p) => Some((p@, None)),
            AttrToken::Ident(m) => if toks.len() >= 5 {
                match (toks[1], toks[2], toks[3], toks[4]) {
                    (
                        AttrToken::Punct(c1),
                        AttrToken::Ident(u),
                        AttrToken::Punct(c2),
                        AttrToken::LitStr(p),
                    ) => if c1 == ',' && u@ == "uri"@ && c2 == '=' {
                        Some((p@, Some(strutil::lower_seq(m@))))
                    } else {
                        None
                    },
                    _ => None,
                }
            } else {
                None
            },
            AttrToken::Punct(_) => None,
        }
    }
}

/// Parse an operation attribute's argument tokens.
fn parse_route_args(toks: &Vec<AttrToken>) -> (r: Option<(String, Option<String>)>)
    ensures
        match r {
            Some(p) => spec_parse_args(toks@) == Some(
                (p.0@, match p.1 {
                    Some(m) => Some(m@),
                    None => None::<Seq<char>>,
                }),
            ),
            None => spec_parse_args(toks@) is None,
        },
{
    if toks.len() == 0 {
        return None;
    }
    match &toks[0] {
        AttrToken::LitStr(p) => Some((p.clone(), None)),
        AttrToken::Ident(m) => {
            if toks.len() >= 5 {
                let c1_ok = match &toks[1] {
                    AttrToken::Punct(c) => *c == ',',
                    _ => false,
                };
                let u_ok = match &toks[2] {
                    AttrToken::Ident(u) => strutil::str_eq(u.as_str(), "uri"),
                    _ => false,
                };
                let c2_ok = match &toks[3] {
                    AttrToken::Punct(c) => *c == '=',
                    _ => false,
                };
                if c1_ok && u_ok && c2_ok {
                    match &toks[4] {
                        AttrToken::LitStr(p) => Some(
                            (p.clone(), Some(strutil::to_lower(m.as_str()))),
                        ),
                        _ => None,
                    }
                } else {
                    None
                }
            } else {
                None
            }
        },
        AttrToken::Punct(_) => None,
    }
}

/// The index of the first attribute this dialect recognizes as a route.
pub open spec fn spec_first_route(attrs: Seq<AttributeData>, i: int) -> Option<int>
    decreases attrs.len() - i,
{
    if i < 0 || i >= attrs.len() {
        None
    } else if spec_attr_is_route(attrs[i].name) {
        Some(i)
    } else {
        spec_first_route(attrs, i + 1)
    }
}

/// What operation classification must return for this dialect: nothing when
/// no attribute is recognized; else, from the first recognized attribute,
/// the parsed path and the classified method, a malformed-attribute error,
/// or an unsupported-method error.
pub open spec fn spec_operation_ok(
    attrs: Seq<AttributeData>,
    r: Result<Option<ResolvedOperation>, ResolveError>,
) -> bool {
    match spec_first_route(attrs, 0) {
        None => r == Ok::<Option<ResolvedOperation>, ResolveError>(None),
        Some(ix) => {
            let a = attrs[ix];
            match spec_parse_args(a.tokens@) {
                None => r == Err::<Option<ResolvedOperation>, ResolveError>(
                    ResolveError::MalformedAttribute(ix as usize),
                ),
                Some(pr) => {
                    let mname = match pr.1 {
                        Some(m) => m,
                        None => match a.name {
                            Some(n) => n@,
                            None => Seq::empty(),
                        },
                    };
                    match crate::spec_operation_of(mname) {
                        Some(op) => r matches Ok(o) && o matches Some(ro) && ro.path_operation
                            == op && ro.path@ == pr.0,
                        None => r matches Err(e) && (e matches ResolveError::UnsupportedOperation(s)
                            && s@ == mname),
                    }
                },
            }
        },
    }
}

/// Find and classify this dialect's operation attribute.
pub fn resolve_operation(attrs: &Vec<AttributeData>) -> (r: Result<
    Option<ResolvedOperation>,
    ResolveError,
>)
    ensures
        spec_operation_ok(attrs@, r),
{
    let mut i: usize = 0;
    while i < attrs.len()
        invariant
            i <= attrs@.len(),
            spec_first_route(attrs@, 0) == spec_first_route(attrs@, i as int),
        decreases attrs@.len() - i,
    {
        if is_valid_route_type(&attrs[i].name) {
            assert(spec_first_route(attrs@, i as int) == Some(i as int));
            match parse_route_args(&attrs[i].tokens) {
                None => {
                    return Err(ResolveError::MalformedAttribute(i));
                },
                Some(pm) => {
                    let (p, mo) = pm;
                    let mname: String = match mo {
                        Some(m) => m,
                        None => match &attrs[i].name {
                            Some(n) => n.clone(),
                            None => vstd::pervasive::unreached(),
                        },
                    };
                    match PathOperation::from_name(mname.as_str()) {
                        Some(op) => {
                            return Ok(Some(ResolvedOperation { path_operation: op, path: p }));
                        },
                        None => {
                            return Err(ResolveError::UnsupportedOperation(mname));
                        },
                    }
                },
            }
        }
        assert(spec_first_route(attrs@, i as int) == spec_first_route(attrs@, i + 1));
        i = i + 1;
    }
    Ok(None)
}

/// The canonical form of a raw path in this dialect: the part before the
/// first `?` and the part after it are scanned separately, the anonymous
/// counter running through both; the parts are rejoined with `?` only when
/// a query part exists and is not empty.
pub open spec fn spec_resolved(s: Seq<char>) -> (Seq<char>, Seq<Seq<char>>, Seq<Seq<char>>) {
    match scan::first_at(s, '?', 0) {
        Some(qi) => {
            let pp = s.subrange(0, qi);
            let qp = s.subrange(qi + 1, s.len() as int);
            let p = scan::scan(Dialect::Rocket, pp, 0, 0);
            let q = scan::scan(Dialect::Rocket, qp, 0, p.2);
            if qp.len() > 0 {
                (p.0 + seq!['?'] + q.0, p.1, q.1)
            } else {
                (p.0, p.1, q.1)
            }
        },
        None => {
            let p = scan::scan(Dialect::Rocket, s, 0, 0);
            (p.0, p.1, Seq::empty())
        },
    }
}

/// Rewrite a raw path of this dialect to its canonical form and collect its
/// ordered captures: path captures first, then query captures.
pub fn resolve_path(path: &Option<String>) -> (r: Option<ResolvedPath>)
    ensures
        path is None ==> r is None,
        path matches Some(p) ==> (r matches Some(rp) && rp.path@ == spec_resolved(p@).0
            && crate::args_match(rp.args@, spec_resolved(p@).1, spec_resolved(p@).2)),
{
    let p = match path {
        Some(p) => p,
        None => {
            return None;
        },
    };
    let v = strutil::chars_of(p.as_str());
    let (out, path_names, query_names) = match scan::find_char(&v, '?', 0) {
        Some(qi) => {
            proof {
                scan::lemma_first_at_props(v@, '?', 0);
            }
            assert(qi < v@.len());
            let pp = scan::subvec(&v, 0, qi);
            let qp = scan::subvec(&v, qi + 1, v.len());
            let ps = scan::scan_path(Dialect::Rocket, &pp, 0);
            proof {
                scan::lemma_scan_ctr(Dialect::Rocket, pp@, 0, 0);
            }
            let qs = scan::scan_path(Dialect::Rocket, &qp, ps.counter);
            let mut out = ps.text;
            if qp.len() > 0 {
                out.push('?');
                let mut qt = qs.text;
                out.append(&mut qt);
                proof {
                    assert(out@ =~= spec_resolved(p@).0);
                }
            } else {
                proof {
                    assert(out@ =~= spec_resolved(p@).0);
                }
            }
            proof {
                assert(scan::names_view(ps.names@) == spec_resolved(p@).1);
                assert(scan::names_view(qs.names@) == spec_resolved(p@).2);
            }
            (out, ps.names, qs.names)
        },
        None => {
            let ps = scan::scan_path(Dialect::Rocket, &v, 0);
            proof {
                assert(scan::names_view(ps.names@) == spec_resolved(p@).1);
                assert(scan::names_view(Seq::<String>::empty()) =~= spec_resolved(p@).2);
            }
            (ps.text, ps.names, Vec::<String>::new())
        },
    };
    let ghost pn = scan::names_view(path_names@);
    let ghost qn = scan::names_view(query_names@);
    let mut args: Vec<ResolvedArg> = Vec::new();
    let mut i: usize = 0;
    while i < path_names.len()
        invariant
            i <= path_names@.len(),
            pn == scan::names_view(path_names@),
            args@.len() == i,
            forall|k: int|
                #![trigger args@[k]]
                0 <= k < i ==> (args@[k] matches ResolvedArg::Path(n) && n@ == pn[k]),
        decreases path_names@.len() - i,
    {
        args.push(ResolvedArg::Path(path_names[i].clone()));
        i = i + 1;
    }
    let mut j: usize = 0;
    while j < query_names.len()
        invariant
            j <= query_names@.len(),
            pn == scan::names_view(path_names@),
            qn == scan::names_view(query_names@),
            args@.len() == pn.len() + j,
            forall|k: int|
                #![trigger args@[k]]
                0 <= k < pn.len() ==> (args@[k] matches ResolvedArg::Path(n) && n@ == pn[k]),
            forall|k: int|
                #![trigger args@[k]]
                pn.len() <= k < args@.len() ==> (args@[k] matches ResolvedArg::Query(n) && n@
                    == qn[k - pn.len()]),
        decreases query_names@.len() - j,
    {
        args.push(ResolvedArg::Query(query_names[j].clone()));
        proof {
            assert(qn[j as int] == query_names@[j as int]@);
        }
        j = j + 1;
    }
    proof {
        assert forall|k: int| 0 <= k < qn.len() implies (#[trigger] qn[k] == qn[k] && (args@[pn.len()
            + k] matches ResolvedArg::Query(n) && n@ == qn[k])) by {
            assert(args@[pn.len() + k] matches ResolvedArg::Query(n2) && n2@ == qn[(pn.len() + k)
                - pn.len()]);
        }
        assert(crate::args_match(args@, pn, qn));
    }
    Some(ResolvedPath { path: strutil::string_of(&out), args })
}

/// What argument binding must return for this dialect: nothing without a
/// resolved path; else the capture list zipped positionally against the
/// flattened parameter bindings, an unrepresentable parameter being fatal,
/// as is a length mismatch.
pub open spec fn spec_arguments_ok(
    params: Seq<ParamDesc>,
    resolved: Option<ResolvedPath>,
    r: Result<Option<Vec<crate::Argument>>, ResolveError>,
) -> bool {
    match resolved {
        None => r == Ok::<Option<Vec<crate::Argument>>, ResolveError>(None),
        Some(rp) => match spec_first_bad_param(params, 0) {
            Some(ix) => r == Err::<Option<Vec<crate::Argument>>, ResolveError>(
                ResolveError::UnexpectedParamShape(ix as usize),
            ),
            None => {
                let flat = spec_params_flatten(params, 0);
                if rp.args@.len() == flat.len() {
                    r matches Ok(o) && o matches Some(v) && v@.len() == flat.len() && (forall|
                        k: int,
                    |
                        0 <= k < v@.len() ==> params::bound_arg_ok(v@[k], rp.args@[k], flat[k].1))
                } else {
                    r == Err::<Option<Vec<crate::Argument>>, ResolveError>(
                        ResolveError::ArgumentCountMismatch(
                            rp.args@.len() as usize,
                            flat.len() as usize,
                        ),
                    )
                }
            },
        },
    }
}

/// Bind this dialect's captures to the flattened parameter bindings, index
/// for index; a length mismatch is fatal, never truncated.
pub fn resolve_path_arguments(params: &Vec<ParamDesc>, resolved: &Option<ResolvedPath>) -> (r:
    Result<Option<Vec<crate::Argument>>, ResolveError>)
    ensures
        spec_arguments_ok(params@, *resolved, r),
{
    let rp = match resolved {
        Some(rp) => rp,
        None => {
            return Ok(None);
        },
    };
    let flat = match get_argument_name_and_type(params) {
        Ok(flat) => flat,
        Err(e) => {
            return Err(e);
        },
    };
    let mut tys: Vec<String> = Vec::new();
    let mut i: usize = 0;
    while i < flat.len()
        invariant
            i <= flat@.len(),
            tys@.len() == i,
            forall|k: int| 0 <= k < i ==> tys@[k]@ == arg_views(flat@)[k].1,
        decreases flat@.len() - i,
    {
        tys.push(flat[i].ty.clone());
        i = i + 1;
    }
    match params::bind_arguments(&rp.args, &tys) {
        Ok(v) => Ok(Some(v)),
        Err(e) => Err(e),
    }
}

} // verus!
