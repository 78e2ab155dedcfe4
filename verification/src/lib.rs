//! Route path resolution and argument binding.
//!
//! Given a handler declaration's attributes (already tokenized), its raw
//! URI pattern, and its declared parameters, this library classifies the
//! HTTP operation, rewrites the dialect-specific placeholder syntax into
//! the canonical `{name}` form, classifies each capture as a path or a
//! query capture, and binds each capture, in order, to the corresponding
//! flattened handler parameter.

use vstd::prelude::*;

pub mod actix;
pub mod laws;
pub mod params;
pub mod rocket;
pub mod scan;
mod strutil;

verus! {

/// The two supported route-declaration dialects: brace-delimited captures
/// with inline constraints, and angle-delimited captures with a query part.
#[derive(Clone, Copy, PartialEq, Eq, Structural, Debug)]
pub enum Dialect {
    Actix,
    Rocket,
}

/// The HTTP methods a route declaration can name.
#[derive(Clone, Copy, PartialEq, Eq, Structural, Debug)]
pub enum PathOperation {
    Get,
    Post,
    Put,
    Delete,
    Head,
    Connect,
    Options,
    Trace,
    Patch,
}

/// What an ordered capture list must hold: every path capture, in path
/// order, then every query capture, in query order, under the given names.
pub open spec fn args_match(
    args: Seq<ResolvedArg>,
    path_names: Seq<Seq<char>>,
    query_names: Seq<Seq<char>>,
) -> bool {
    &&& args.len() == path_names.len() + query_names.len()
    &&& forall|k: int|
        #![trigger args[k]]
        #![trigger path_names[k]]
        0 <= k < path_names.len() ==> (args[k] matches ResolvedArg::Path(n) && n@ == path_names[k])
    &&& forall|k: int|
        #![trigger args[k]]
        path_names.len() <= k < args.len() ==> (args[k] matches ResolvedArg::Query(n) && n@
            == query_names[k - path_names.len()])
}

/// Which method name, in lower case, names which operation.
pub open spec fn spec_operation_of(s: Seq<char>) -> Option<PathOperation> {
    if s == "get"@ {
        Some(PathOperation::Get)
    } else if s == "post"@ {
        Some(PathOperation::Post)
    } else if s == "put"@ {
        Some(PathOperation::Put)
    } else if s == "delete"@ {
        Some(PathOperation::Delete)
    } else if s == "head"@ {
        Some(PathOperation::Head)
    } else if s == "connect"@ {
        Some(PathOperation::Connect)
    } else if s == "options"@ {
        Some(PathOperation::Options)
    } else if s == "trace"@ {
        Some(PathOperation::Trace)
    } else if s == "patch"@ {
        Some(PathOperation::Patch)
    } else {
        None
    }
}

/// One capture, classified by where it appeared relative to the query
/// separator, with its canonical name.
#[derive(Clone, PartialEq, Eq, Debug)]
pub enum ResolvedArg {
    Path(String),
    Query(String),
}

impl ResolvedArg {
    /// The capture's canonical name.
    pub open spec fn name_view(&self) -> Seq<char> {
        match self {
            ResolvedArg::Path(n) => n@,
            ResolvedArg::Query(n) => n@,
        }
    }

    /// Whether this capture appeared in the path part.
    pub open spec fn is_path(&self) -> bool {
        self is Path
    }

    /// Whether this capture appeared in the query part.
    pub open spec fn is_query(&self) -> bool {
        self is Query
    }
}

/// A canonical path together with its ordered capture list: path captures
/// first, in path order, then query captures, in query order.
#[derive(Clone, PartialEq, Eq, Debug)]
pub struct ResolvedPath {
    pub path: String,
    pub args: Vec<ResolvedArg>,
}

/// A classified HTTP operation and the raw, not yet normalized, path text.
#[derive(Clone, PartialEq, Eq, Debug)]
pub struct ResolvedOperation {
    pub path_operation: PathOperation,
    pub path: String,
}

/// Where a bound argument lives: in the path or in the query.
#[derive(Clone, Copy, PartialEq, Eq, Structural, Debug)]
pub enum ArgumentIn {
    Path,
    Query,
}

/// One capture bound to one flattened handler parameter: the capture's
/// canonical name, its classification, and the parameter's type identifier.
#[derive(Clone, PartialEq, Eq, Debug)]
pub struct Argument {
    pub name: Option<String>,
    pub argument_in: ArgumentIn,
    pub ident: String,
}

impl Argument {
    /// Whether a human-readable name was resolved for this argument.
    pub fn has_name(&self) -> (r: bool)
        ensures
            r == (self.name is Some),
    {
        self.name.is_some()
    }
}

/// A fatal diagnostic: resolution cannot represent the declaration.
#[derive(Clone, PartialEq, Eq, Debug)]
pub enum ResolveError {
    /// The operation attribute's arguments do not parse as a path literal,
    /// optionally preceded by a method identifier and `uri =`; carries the
    /// index of the offending attribute.
    MalformedAttribute(usize),
    /// A method identifier outside the closed set reached classification;
    /// carries the identifier, lower-cased.
    UnsupportedOperation(String),
    /// A parameter's pattern or type lies outside the supported forms;
    /// carries the index of the offending parameter.
    UnexpectedParamShape(usize),
    /// The capture list and the flattened bindings differ in length;
    /// carries both lengths, captures first.
    ArgumentCountMismatch(usize, usize),
}

/// One token of an attribute's argument list, as the caller tokenized it.
#[derive(Clone, PartialEq, Eq, Debug)]
pub enum AttrToken {
    Ident(String),
    LitStr(String),
    Punct(char),
}

/// One attribute on a handler declaration: its identifier, if its path is a
/// plain identifier, and its argument tokens.
#[derive(Clone, PartialEq, Eq, Debug)]
pub struct AttributeData {
    pub name: Option<String>,
    pub tokens: Vec<AttrToken>,
}

/// A declared parameter's type, reduced to what resolution reads: plain
/// identifiers, references, generic applications, and tuples.
#[derive(PartialEq, Eq, Debug)]
pub enum TypeDesc {
    Named(String),
    Reference(Box<TypeDesc>),
    Generic(String, Vec<TypeDesc>),
    Tuple(Vec<TypeDesc>),
}

/// A declared parameter's binding pattern: a plain identifier or a
/// destructured tuple.
#[derive(PartialEq, Eq, Debug)]
pub enum PatDesc {
    Ident(String),
    Tuple(Vec<PatDesc>),
}

/// One declared handler parameter: its pattern and its type.
#[derive(PartialEq, Eq, Debug)]
pub struct ParamDesc {
    pub pat: PatDesc,
    pub ty: TypeDesc,
}

impl PathOperation {
    /// Classify a lower-case method identifier; `None` on an unrecognized one.
    pub fn from_name(name: &str) -> (r: Option<PathOperation>)
        ensures
            r == spec_operation_of(name@),
    {
        if strutil::str_eq(name, "get") {
            Some(PathOperation::Get)
        } else if strutil::str_eq(name, "post") {
            Some(PathOperation::Post)
        } else if strutil::str_eq(name, "put") {
            Some(PathOperation::Put)
        } else if strutil::str_eq(name, "delete") {
            Some(PathOperation::Delete)
        } else if strutil::str_eq(name, "head") {
            Some(PathOperation::Head)
        } else if strutil::str_eq(name, "connect") {
            Some(PathOperation::Connect)
        } else if strutil::str_eq(name, "options") {
            Some(PathOperation::Options)
        } else if strutil::str_eq(name, "trace") {
            Some(PathOperation::Trace)
        } else if strutil::str_eq(name, "patch") {
            Some(PathOperation::Patch)
        } else {
            None
        }
    }
}

/// Rewrites a dialect's raw path text into the canonical form.
pub trait PathResolver {
    /// What a canonical path must hold for this resolver, given the raw text.
    spec fn resolved_path_ok(&self, raw: Option<Seq<char>>, r: Option<ResolvedPath>) -> bool;

    /// Rewrite a raw path, if one is present, to the canonical `{name}`
    /// form, collecting its ordered captures.
    fn resolve_path(&self, path: &Option<String>) -> (r: Option<ResolvedPath>)
        ensures
            self.resolved_path_ok(
                match path {
                    Some(p) => Some(p@),
                    None => None,
                },
                r,
            );
}

/// Classifies a handler declaration's attributes as an HTTP operation.
pub trait PathOperationResolver {
    /// What operation classification must return for this resolver.
    spec fn operation_ok(
        &self,
        attrs: Seq<AttributeData>,
        r: Result<Option<ResolvedOperation>, ResolveError>,
    ) -> bool;

    /// Find the first recognized operation attribute and classify it;
    /// `Ok(None)` when the declaration is not a route.
    fn resolve_operation(&self, attrs: &Vec<AttributeData>) -> (r: Result<
        Option<ResolvedOperation>,
        ResolveError,
    >)
        ensures
            self.operation_ok(attrs@, r);
}

/// Binds a resolved path's captures to the declared handler parameters.
pub trait ArgumentResolver {
    /// What argument binding must return for this resolver.
    spec fn arguments_ok(
        &self,
        params_: Seq<ParamDesc>,
        resolved: Option<ResolvedPath>,
        r: Result<Option<Vec<Argument>>, ResolveError>,
    ) -> bool;

    /// Zip the ordered capture list against the flattened parameter
    /// bindings, positionally, index for index.
    fn resolve_path_arguments(
        &self,
        params_: &Vec<ParamDesc>,
        resolved: &Option<ResolvedPath>,
    ) -> (r: Result<Option<Vec<Argument>>, ResolveError>)
        ensures
            self.arguments_ok(params_@, *resolved, r);
}

/// The resolution interface over the closed set of dialects: one value per
/// supported dialect, selected by the caller.
#[derive(Clone, Copy, PartialEq, Eq, Structural, Debug)]
pub struct PathOperations {
    pub dialect: Dialect,
}

impl PathResolver for PathOperations {
    open spec fn resolved_path_ok(&self, raw: Option<Seq<char>>, r: Option<ResolvedPath>) -> bool {
        match raw {
            None => r is None,
            Some(s) => match self.dialect {
                Dialect::Actix => r matches Some(rp) && rp.path@ == actix::spec_resolved(s).0
                    && args_match(rp.args@, actix::spec_resolved(s).1, Seq::empty()),
                Dialect::Rocket => r matches Some(rp) && rp.path@ == rocket::spec_resolved(s).0
                    && args_match(rp.args@, rocket::spec_resolved(s).1, rocket::spec_resolved(s).2),
            },
        }
    }

    fn resolve_path(&self, path: &Option<String>) -> (r: Option<ResolvedPath>) {
        match self.dialect {
            Dialect::Actix => actix::resolve_path(path),
            Dialect::Rocket => rocket::resolve_path(path),
        }
    }
}

impl PathOperationResolver for PathOperations {
    open spec fn operation_ok(
        &self,
        attrs: Seq<AttributeData>,
        r: Result<Option<ResolvedOperation>, ResolveError>,
    ) -> bool {
        match self.dialect {
            Dialect::Actix => actix::spec_operation_ok(attrs, r),
            Dialect::Rocket => rocket::spec_operation_ok(attrs, r),
        }
    }

    fn resolve_operation(&self, attrs: &Vec<AttributeData>) -> (r: Result<
        Option<ResolvedOperation>,
        ResolveError,
    >) {
        match self.dialect {
            Dialect::Actix => actix::resolve_operation(attrs),
            Dialect::Rocket => rocket::resolve_operation(attrs),
        }
    }
}

impl ArgumentResolver for PathOperations {
    open spec fn arguments_ok(
        &self,
        params_: Seq<ParamDesc>,
        resolved: Option<ResolvedPath>,
        r: Result<Option<Vec<Argument>>, ResolveError>,
    ) -> bool {
        match self.dialect {
            Dialect::Actix => actix::spec_arguments_ok(params_, resolved, r),
            Dialect::Rocket => rocket::spec_arguments_ok(params_, resolved, r),
        }
    }

    fn resolve_path_arguments(
        &self,
        params_: &Vec<ParamDesc>,
        resolved: &Option<ResolvedPath>,
    ) -> (r: Result<Option<Vec<Argument>>, ResolveError>) {
        match self.dialect {
            Dialect::Actix => actix::resolve_path_arguments(params_, resolved),
            Dialect::Rocket => rocket::resolve_path_arguments(params_, resolved),
        }
    }
}

/// A fully resolved route: its classified operation and raw path, the
/// canonical path with its ordered captures, and the bound arguments, if
/// the dialect found bindings to zip against.
pub struct Resolved {
    pub operation: ResolvedOperation,
    pub path: ResolvedPath,
    pub arguments: Option<Vec<Argument>>,
}

impl PathOperations {
    /// One resolution entry point: classify the operation, normalize its
    /// raw path, and bind the captures to the declared parameters.
    /// `Ok(None)` when the declaration is not a route.
    pub fn resolve(&self, attrs: &Vec<AttributeData>, params_: &Vec<ParamDesc>) -> (r: Result<
        Option<Resolved>,
        ResolveError,
    >)
        ensures
            match r {
                Ok(o) => match o {
                    None => self.operation_ok(attrs@, Ok(None)),
                    Some(res) => self.operation_ok(attrs@, Ok(Some(res.operation)))
                        && self.resolved_path_ok(Some(res.operation.path@), Some(res.path))
                        && self.arguments_ok(params_@, Some(res.path), Ok(res.arguments)),
                },
                Err(e) => self.operation_ok(attrs@, Err(e)) || (exists|
                    op: ResolvedOperation,
                    rp: ResolvedPath,
                |
                    self.operation_ok(attrs@, Ok(Some(op))) && self.resolved_path_ok(
                        Some(op.path@),
                        Some(rp),
                    ) && self.arguments_ok(params_@, Some(rp), Err(e))),
            },
    {
        let op = match self.resolve_operation(attrs) {
            Ok(Some(op)) => op,
            Ok(None) => {
                return Ok(None);
            },
            Err(e) => {
                return Err(e);
            },
        };
        let raw = Some(op.path.clone());
        let rpo = self.resolve_path(&raw);
        if rpo.is_none() {
            return vstd::pervasive::unreached();
        }
        match self.resolve_path_arguments(params_, &rpo) {
            Ok(arguments) => {
                let rp = match rpo {
                    Some(rp) => rp,
                    None => vstd::pervasive::unreached(),
                };
                Ok(Some(Resolved { operation: op, path: rp, arguments }))
            },
            Err(e) => Err(e),
        }
    }
}

} // verus!
