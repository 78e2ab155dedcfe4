//! The parameter extractor's shared machinery: reducing a declared type to
//! its underlying identifier, and binding captures to flattened bindings.

use vstd::prelude::*;

use crate::Argument;
use crate::ArgumentIn;
use crate::ResolveError;
use crate::ResolvedArg;
use crate::TypeDesc;
use crate::strutil;

verus! {

/// The underlying type identifier of a parameter type: references are
/// stripped recursively, a single-argument generic wrapper is unwrapped
/// recursively, and the flag records whether a `Vec` wrapper was crossed.
/// `None` on a shape with no single underlying identifier.
pub open spec fn spec_base_of(t: TypeDesc) -> Option<(Seq<char>, bool)>
    decreases t,
{
    match t {
        TypeDesc::Named(id) => Some((id@, false)),
        TypeDesc::Reference(inner) => spec_base_of(*inner),
        TypeDesc::Generic(w, args) => if args.len() == 1 {
            match spec_base_of(args[0]) {
                Some(b) => Some((b.0, b.1 || w@ == "Vec"@)),
                None => None,
            }
        } else {
            None
        },
        TypeDesc::Tuple(ts) => None,
    }
}

/// The underlying type identifier, with wrappers unwrapped.
pub fn base_of(t: &TypeDesc) -> (r: Option<(String, bool)>)
    ensures
        match r {
            Some(p) => spec_base_of(*t) == Some((p.0@, p.1)),
            None => spec_base_of(*t) is None,
        },
    decreases *t,
{
    match t {
        TypeDesc::Named(id) => Some((id.clone(), false)),
        TypeDesc::Reference(inner) => base_of(inner),
        TypeDesc::Generic(w, args) => {
            if args.len() == 1 {
                match base_of(&args[0]) {
                    Some(p) => {
                        let is_vec = strutil::str_eq(w.as_str(), "Vec");
                        Some((p.0, p.1 || is_vec))
                    },
                    None => None,
                }
            } else {
                None
            }
        },
        TypeDesc::Tuple(_) => None,
    }
}

/// The type identifier under any chain of references; `None` on any other
/// shape.
pub open spec fn spec_ref_base(t: TypeDesc) -> Option<Seq<char>>
    decreases t,
{
    match t {
        TypeDesc::Named(id) => Some(id@),
        TypeDesc::Reference(inner) => spec_ref_base(*inner),
        TypeDesc::Generic(w, args) => None,
        TypeDesc::Tuple(ts) => None,
    }
}

/// The type identifier under any chain of references.
pub fn ref_base(t: &TypeDesc) -> (r: Option<String>)
    ensures
        match r {
            Some(id) => spec_ref_base(*t) == Some(id@),
            None => spec_ref_base(*t) is None,
        },
    decreases *t,
{
    match t {
        TypeDesc::Named(id) => Some(id.clone()),
        TypeDesc::Reference(inner) => ref_base(inner),
        TypeDesc::Generic(_, _) => None,
        TypeDesc::Tuple(_) => None,
    }
}

/// What one bound argument must hold: the capture's name and classification,
/// and the binding's type identifier.
pub open spec fn bound_arg_ok(a: Argument, cap: ResolvedArg, ty: Seq<char>) -> bool {
    &&& a.name matches Some(n) && n@ == cap.name_view()
    &&& a.argument_in == (if cap.is_path() {
        ArgumentIn::Path
    } else {
        ArgumentIn::Query
    })
    &&& a.ident@ == ty
}

/// Zip the ordered capture list against the flattened type identifiers,
/// positionally; a length mismatch is fatal, never truncated.
pub fn bind_arguments(args: &Vec<ResolvedArg>, types: &Vec<String>) -> (r: Result<
    Vec<Argument>,
    ResolveError,
>)
    ensures
        args@.len() == types@.len() ==> (r matches Ok(v) && v@.len() == args@.len() && (forall|
            k: int,
        |
            0 <= k < v@.len() ==> bound_arg_ok(v@[k], args@[k], types@[k]@))),
        args@.len() != types@.len() ==> r == Err::<Vec<Argument>, ResolveError>(
            ResolveError::ArgumentCountMismatch(args@.len() as usize, types@.len() as usize),
        ),
{
    if args.len() != types.len() {
        return Err(ResolveError::ArgumentCountMismatch(args.len(), types.len()));
    }
    let mut v: Vec<Argument> = Vec::new();
    let mut i: usize = 0;
    while i < args.len()
        invariant
            i <= args@.len(),
            args@.len() == types@.len(),
            v@.len() == i,
            forall|k: int| 0 <= k < i ==> bound_arg_ok(v@[k], args@[k], types@[k]@),
        decreases args@.len() - i,
    {
        let (nm, ai) = match &args[i] {
            ResolvedArg::Path(n) => (n.clone(), ArgumentIn::Path),
            ResolvedArg::Query(n) => (n.clone(), ArgumentIn::Query),
        };
        v.push(Argument { name: Some(nm), argument_in: ai, ident: types[i].clone() });
        i = i + 1;
    }
    Ok(v)
}

} // verus!
