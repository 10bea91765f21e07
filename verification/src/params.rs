//! Data model for one function's parameter list.
//!
//! A parameter carries a binding pattern, a type and a default descriptor;
//! patterns, types and expressions are opaque syntactic tokens, kept as
//! their source text.  A parameter list is an optional receiver plus an
//! ordered sequence of parameters, valid when every required parameter
//! precedes every defaulted one.

use vstd::prelude::*;
use vstd::string::StringExecFns;

verus! {

/// The attribute name that marks a defaulted parameter.
pub const DEFAULT_ATTR: &'static str = "default";

/// Shape of one attribute attached to a parameter declaration: a bare
/// marker path, a parenthesized token list, or a `name = value` form.
#[derive(Debug)]
pub enum AttrShape {
    Path,
    List(Vec<String>),
    NameValue,
}

/// One attribute attached to a parameter declaration.
#[derive(Debug)]
pub struct ArgAttr {
    /// The attribute's path, as text.
    pub name: String,
    /// The attribute's payload shape.
    pub shape: AttrShape,
}

/// An upstream `pattern: type` argument descriptor, with its attributes.
#[derive(Debug)]
pub struct PatTypeDesc {
    /// Binding pattern, as text.
    pub pat: String,
    /// Declared type, as text.
    pub ty: String,
    /// Attributes attached to the declaration, in source order.
    pub attrs: Vec<ArgAttr>,
}

/// A self-style receiver descriptor: what is needed to rebuild the
/// receiver verbatim.
#[derive(Debug)]
pub struct ReceiverDesc {
    /// The receiver's type, as text.
    pub ty: String,
    /// `mut self` or `&mut self`.
    pub mutable: bool,
    /// By reference (`&self` forms) rather than by value.
    pub reference: bool,
    /// Lifetime on a by-reference receiver, as text.
    pub lifetime: Option<String>,
    /// Whether the receiver was written with an explicit `self: Type`.
    pub colon: bool,
}

/// One argument of the upstream declaration: a receiver or a typed
/// parameter.
#[derive(Debug)]
pub enum ArgDescriptor {
    Receiver(ReceiverDesc),
    Typed(PatTypeDesc),
}

/// Default descriptor of a parameter.
#[derive(Debug)]
pub enum ParamAttr {
    /// No default: the parameter is required.
    NoDefault,
    /// Fill an omitted argument with the type's zero value.
    ZeroValue,
    /// Fill an omitted argument with this expression, verbatim.
    Expr(String),
}

/// One parsed function parameter.
#[derive(Debug)]
pub struct FunctionParam {
    /// Binding pattern, as text.
    pub pat: String,
    /// Declared type, as text.
    pub ty: String,
    /// Default descriptor.
    pub default_value: ParamAttr,
}

/// Function parameter receiver: absent, or a self descriptor.
#[derive(Debug)]
pub enum FnReceiver {
    Absent,
    Slf(ReceiverDesc),
}

/// Parsed function parameters: receiver plus ordered parameters.
#[derive(Debug)]
pub struct FunctionParams {
    pub receiver: FnReceiver,
    pub params: Vec<FunctionParam>,
}

/// One slot of a calling shape: a parameter tagged with how the call
/// site supplies it.
#[derive(Debug)]
pub enum PermutedParam {
    Positional(FunctionParam),
    Named(FunctionParam),
    /// Defaulted parameter that the call site supplies by name.
    DefaultUsed(FunctionParam),
    /// Defaulted parameter that the call site omits.
    DefaultUnused(FunctionParam),
}

/// Errors reported while building or permuting a parameter list.  All are
/// surfaced at code-generation time.
#[derive(Debug)]
pub enum ParamError {
    /// A declaration carries more than one self-style argument.
    MultipleReceivers,
    /// A `name = value` form on the recognized default annotation.
    UnsupportedAttrShape,
    /// A parenthesized default annotation without an expression inside.
    EmptyAttrList,
    /// A required parameter follows a defaulted one; carries the binding
    /// pattern of the first offending parameter.
    InvalidDefaultOrdering(String),
}

/// A parameter is required when it has no default descriptor.
pub open spec fn is_required(p: FunctionParam) -> bool {
    p.default_value is NoDefault
}

/// Order invariant: no required parameter follows a defaulted one.
pub open spec fn wf_order(ps: Seq<FunctionParam>) -> bool {
    forall|i: int, j: int|
        0 <= i < j < ps.len() && !(#[trigger] is_required(ps[i])) ==> !(#[trigger] is_required(
            ps[j],
        ))
}

/// Length of the longest required prefix, counted from index `i`.
pub open spec fn req_count_from(ps: Seq<FunctionParam>, i: int) -> nat
    decreases ps.len() - i,
{
    if i < 0 || i >= ps.len() {
        0
    } else if is_required(ps[i]) {
        1 + req_count_from(ps, i + 1)
    } else {
        0
    }
}

/// Length of the longest required prefix: the split point between the
/// required tail and the default tail.
pub open spec fn req_count(ps: Seq<FunctionParam>) -> nat {
    req_count_from(ps, 0)
}

pub proof fn lemma_req_count_from(ps: Seq<FunctionParam>, i: int)
    requires
        0 <= i <= ps.len(),
    ensures
        req_count_from(ps, i) <= ps.len() - i,
        forall|j: int| i <= j < i + req_count_from(ps, i) ==> is_required(#[trigger] ps[j]),
        i + req_count_from(ps, i) < ps.len() ==> !is_required(ps[i + req_count_from(ps, i)]),
    decreases ps.len() - i,
{
    if i < ps.len() && is_required(ps[i]) {
        lemma_req_count_from(ps, i + 1);
    }
}

/// The split point is exactly the index of the first defaulted parameter.
pub proof fn lemma_req_count_is(ps: Seq<FunctionParam>, k: int)
    requires
        0 <= k <= ps.len(),
        forall|j: int| 0 <= j < k ==> is_required(#[trigger] ps[j]),
        k < ps.len() ==> !is_required(ps[k]),
    ensures
        req_count(ps) == k,
{
    lemma_req_count_upto(ps, 0, k);
}

proof fn lemma_req_count_upto(ps: Seq<FunctionParam>, i: int, k: int)
    requires
        0 <= i <= k <= ps.len(),
        forall|j: int| i <= j < k ==> is_required(#[trigger] ps[j]),
        k < ps.len() ==> !is_required(ps[k]),
    ensures
        req_count_from(ps, i) == k - i,
    decreases k - i,
{
    if i < k {
        lemma_req_count_upto(ps, i + 1, k);
    }
}

/// The first default annotation among a parameter's attributes, searched
/// from index `i`.
pub open spec fn find_default_attr_from(attrs: Seq<ArgAttr>, i: int) -> Option<AttrShape>
    decreases attrs.len() - i,
{
    if i < 0 || i >= attrs.len() {
        Option::None
    } else if attrs[i].name@ == DEFAULT_ATTR@ {
        Option::Some(attrs[i].shape)
    } else {
        find_default_attr_from(attrs, i + 1)
    }
}

/// The first default annotation among a parameter's attributes.
pub open spec fn find_default_attr(attrs: Seq<ArgAttr>) -> Option<AttrShape> {
    find_default_attr_from(attrs, 0)
}

/// How a typed argument descriptor is read: the first recognized default
/// annotation decides the parameter's default descriptor, a bare marker
/// meaning the zero value, a token list meaning its first token verbatim;
/// an empty list and a `name = value` form are rejected.
pub open spec fn interp_pat_type(desc: PatTypeDesc) -> Result<FunctionParam, ParamError> {
    match find_default_attr(desc.attrs@) {
        Option::None => Result::Ok(
            FunctionParam { pat: desc.pat, ty: desc.ty, default_value: ParamAttr::NoDefault },
        ),
        Option::Some(shape) => match shape {
            AttrShape::Path => Result::Ok(
                FunctionParam { pat: desc.pat, ty: desc.ty, default_value: ParamAttr::ZeroValue },
            ),
            AttrShape::List(toks) => if toks@.len() == 0 {
                Result::Err(ParamError::EmptyAttrList)
            } else {
                Result::Ok(
                    FunctionParam {
                        pat: desc.pat,
                        ty: desc.ty,
                        default_value: ParamAttr::Expr(toks@[0]),
                    },
                )
            },
            AttrShape::NameValue => Result::Err(ParamError::UnsupportedAttrShape),
        },
    }
}

impl Clone for ParamAttr {
    fn clone(&self) -> (r: Self)
        ensures
            r == *self,
    {
        match self {
            ParamAttr::NoDefault => ParamAttr::NoDefault,
            ParamAttr::ZeroValue => ParamAttr::ZeroValue,
            ParamAttr::Expr(e) => ParamAttr::Expr(e.clone()),
        }
    }
}

impl Clone for FunctionParam {
    fn clone(&self) -> (r: Self)
        ensures
            r == *self,
    {
        FunctionParam {
            pat: self.pat.clone(),
            ty: self.ty.clone(),
            default_value: self.default_value.clone(),
        }
    }
}

impl Clone for ReceiverDesc {
    fn clone(&self) -> (r: Self)
        ensures
            r == *self,
    {
        ReceiverDesc {
            ty: self.ty.clone(),
            mutable: self.mutable,
            reference: self.reference,
            lifetime: match &self.lifetime {
                Option::Some(lt) => Option::Some(lt.clone()),
                Option::None => Option::None,
            },
            colon: self.colon,
        }
    }
}

impl Clone for FnReceiver {
    fn clone(&self) -> (r: Self)
        ensures
            r == *self,
    {
        match self {
            FnReceiver::Absent => FnReceiver::Absent,
            FnReceiver::Slf(rd) => FnReceiver::Slf(rd.clone()),
        }
    }
}

impl Clone for FunctionParams {
    fn clone(&self) -> (r: Self)
        ensures
            r.receiver == self.receiver,
            r.params@ == self.params@,
    {
        let mut ps: Vec<FunctionParam> = Vec::new();
        let mut i: usize = 0;
        while i < self.params.len()
            invariant
                0 <= i <= self.params@.len(),
                ps@ == self.params@.take(i as int),
            decreases self.params@.len() - i,
        {
            ps.push(self.params[i].clone());
            proof {
                assert(ps@ =~= self.params@.take(i as int + 1));
            }
            i = i + 1;
        }
        proof {
            assert(self.params@.take(self.params@.len() as int) =~= self.params@);
        }
        FunctionParams { receiver: self.receiver.clone(), params: ps }
    }
}

impl Clone for PermutedParam {
    fn clone(&self) -> (r: Self)
        ensures
            r == *self,
    {
        match self {
            PermutedParam::Positional(p) => PermutedParam::Positional(p.clone()),
            PermutedParam::Named(p) => PermutedParam::Named(p.clone()),
            PermutedParam::DefaultUsed(p) => PermutedParam::DefaultUsed(p.clone()),
            PermutedParam::DefaultUnused(p) => PermutedParam::DefaultUnused(p.clone()),
        }
    }
}

/// The parameter wrapped by a shape slot, whatever its tag.
pub open spec fn slot_param(s: PermutedParam) -> FunctionParam {
    match s {
        PermutedParam::Positional(p) => p,
        PermutedParam::Named(p) => p,
        PermutedParam::DefaultUsed(p) => p,
        PermutedParam::DefaultUnused(p) => p,
    }
}

/// The parameters of a shape, in slot order, tags stripped.
pub open spec fn shape_params(shape: Seq<PermutedParam>) -> Seq<FunctionParam> {
    shape.map_values(|s: PermutedParam| slot_param(s))
}

impl PermutedParam {
    /// Borrow the parameter wrapped by this slot, whatever its tag.
    pub fn param(&self) -> (r: &FunctionParam)
        ensures
            *r == slot_param(*self),
    {
        match self {
            PermutedParam::Positional(p) => p,
            PermutedParam::Named(p) => p,
            PermutedParam::DefaultUsed(p) => p,
            PermutedParam::DefaultUnused(p) => p,
        }
    }
}

/// Parameters are value-equal on the text of their binding pattern alone:
/// within one declaration, names are unique, so the pattern identifies
/// the parameter.
impl PartialEq for FunctionParam {
    fn eq(&self, other: &Self) -> (r: bool)
        ensures
            r == (self.pat@ == other.pat@),
    {
        self.pat == other.pat
    }
}

impl vstd::std_specs::cmp::PartialEqSpecImpl for FunctionParam {
    open spec fn obeys_eq_spec() -> bool {
        true
    }

    open spec fn eq_spec(&self, other: &Self) -> bool {
        self.pat@ == other.pat@
    }
}

/// Shape slots compare by their wrapped parameters, tags ignored.
impl PartialEq for PermutedParam {
    fn eq(&self, other: &Self) -> (r: bool)
        ensures
            r == (slot_param(*self).pat@ == slot_param(*other).pat@),
    {
        self.param() == other.param()
    }
}

impl vstd::std_specs::cmp::PartialEqSpecImpl for PermutedParam {
    open spec fn obeys_eq_spec() -> bool {
        true
    }

    open spec fn eq_spec(&self, other: &Self) -> bool {
        slot_param(*self).pat@ == slot_param(*other).pat@
    }
}

impl FunctionParam {
    /// Parse one typed argument descriptor into a parameter, reading the
    /// first recognized default annotation.
    pub fn from_pat_type(desc: PatTypeDesc) -> (r: Result<Self, ParamError>)
        ensures
            r == interp_pat_type(desc),
    {
        let n: usize = desc.attrs.len();
        let mut i: usize = 0;
        while i < n
            invariant
                n == desc.attrs@.len(),
                0 <= i <= n,
                find_default_attr(desc.attrs@) == find_default_attr_from(desc.attrs@, i as int),
            decreases n - i,
        {
            let matches_name = attr_name_is_default(&desc.attrs[i]);
            if matches_name {
                let a = &desc.attrs[i];
                match &a.shape {
                    AttrShape::Path => {
                        return Result::Ok(
                            FunctionParam {
                                pat: desc.pat,
                                ty: desc.ty,
                                default_value: ParamAttr::ZeroValue,
                            },
                        );
                    },
                    AttrShape::List(toks) => {
                        if toks.len() == 0 {
                            return Result::Err(ParamError::EmptyAttrList);
                        }
                        let first = toks[0].clone();
                        return Result::Ok(
                            FunctionParam {
                                pat: desc.pat,
                                ty: desc.ty,
                                default_value: ParamAttr::Expr(first),
                            },
                        );
                    },
                    AttrShape::NameValue => {
                        return Result::Err(ParamError::UnsupportedAttrShape);
                    },
                }
            }
            i = i + 1;
        }
        Result::Ok(FunctionParam { pat: desc.pat, ty: desc.ty, default_value: ParamAttr::NoDefault })
    }
}

/// Whether this attribute's path is the recognized default annotation.
fn attr_name_is_default(a: &ArgAttr) -> (r: bool)
    ensures
        r == (a.name@ == DEFAULT_ATTR@),
{
    let marker = String::from_str(DEFAULT_ATTR);
    a.name == marker
}

/// How a whole descriptor sequence builds up, from index `i` onward: at
/// most one receiver is accepted, every typed descriptor is read by
/// `interp_pat_type`, and the first failure wins.
pub open spec fn build_from(
    descs: Seq<ArgDescriptor>,
    i: int,
    recv: FnReceiver,
    has_recv: bool,
    ps: Seq<FunctionParam>,
) -> Result<(FnReceiver, Seq<FunctionParam>), ParamError>
    decreases descs.len() - i,
{
    if i < 0 || i >= descs.len() {
        Result::Ok((recv, ps))
    } else {
        match descs[i] {
            ArgDescriptor::Receiver(rd) => if has_recv {
                Result::Err(ParamError::MultipleReceivers)
            } else {
                build_from(descs, i + 1, FnReceiver::Slf(rd), true, ps)
            },
            ArgDescriptor::Typed(td) => match interp_pat_type(td) {
                Result::Ok(p) => build_from(descs, i + 1, recv, has_recv, ps.push(p)),
                Result::Err(e) => Result::Err(e),
            },
        }
    }
}

/// The parameter list a descriptor sequence builds, or its first error.
pub open spec fn build_result(descs: Seq<ArgDescriptor>) -> Result<
    (FnReceiver, Seq<FunctionParam>),
    ParamError,
> {
    build_from(descs, 0, FnReceiver::Absent, false, Seq::<FunctionParam>::empty())
}

/// A descriptor that carries a parameter stripped of its attributes.
pub open spec fn stripped_matches(d: ArgDescriptor, p: FunctionParam) -> bool {
    &&& d matches ArgDescriptor::Typed(td)
    &&& ({
        &&& d->Typed_0.pat == p.pat
        &&& d->Typed_0.ty == p.ty
        &&& d->Typed_0.attrs@.len() == 0
    })
}

impl FunctionParams {
    /// Build a parameter list from the upstream argument descriptors:
    /// at most one receiver, every typed argument read by
    /// `FunctionParam::from_pat_type`, the first error reported.
    pub fn from_punctuated(punctuated: Vec<ArgDescriptor>) -> (r: Result<Self, ParamError>)
        ensures
            ({
                match build_result(punctuated@) {
                    Result::Ok(pair) => r matches Result::Ok(fp) && fp.receiver == pair.0
                        && fp.params@ == pair.1,
                    Result::Err(e) => r == Result::Err::<FunctionParams, ParamError>(e),
                }
            }),
    {
        let mut punct = punctuated;
        let ghost orig = punct@;
        let mut receiver = FnReceiver::Absent;
        let mut has_receiver = false;
        let mut params: Vec<FunctionParam> = Vec::new();
        let ghost mut i: int = 0;
        while punct.len() > 0
            invariant
                orig == punctuated@,
                0 <= i <= orig.len(),
                punct@ == orig.skip(i),
                build_result(orig) == build_from(orig, i, receiver, has_receiver, params@),
            decreases punct@.len(),
        {
            proof {
                assert(0 <= i < orig.len());
                assert(punct@[0] == orig[i]);
            }
            let d = punct.remove(0);
            proof {
                assert(d == orig[i]);
                assert(orig.skip(i).remove(0) =~= orig.skip(i + 1));
            }
            match d {
                ArgDescriptor::Receiver(rd) => {
                    if has_receiver {
                        proof {
                            assert(orig[i] == ArgDescriptor::Receiver(rd));
                            assert(build_from(orig, i, receiver, has_receiver, params@)
                                == Result::Err::<(FnReceiver, Seq<FunctionParam>), ParamError>(
                                ParamError::MultipleReceivers,
                            ));
                        }
                        return Result::Err(ParamError::MultipleReceivers);
                    }
                    receiver = FnReceiver::Slf(rd);
                    has_receiver = true;
                },
                ArgDescriptor::Typed(td) => {
                    let ghost tdg = td;
                    match FunctionParam::from_pat_type(td) {
                        Result::Ok(fp) => {
                            params.push(fp);
                        },
                        Result::Err(e) => {
                            proof {
                                assert(orig[i] == ArgDescriptor::Typed(tdg));
                                assert(interp_pat_type(tdg) == Result::Err::<
                                    FunctionParam,
                                    ParamError,
                                >(e));
                                assert(build_from(orig, i, receiver, has_receiver, params@)
                                    == Result::Err::<(FnReceiver, Seq<FunctionParam>), ParamError>(
                                    e,
                                ));
                            }
                            return Result::Err(e);
                        },
                    }
                },
            }
            proof {
                i = i + 1;
            }
        }
        proof {
            assert(orig.skip(i).len() == 0);
        }
        Result::Ok(FunctionParams { receiver, params })
    }

    /// Rebuild the declaration's argument list with every attribute
    /// stripped: the receiver, if any, first, then each parameter as
    /// `pat: ty`.
    pub fn to_punctuated(self) -> (r: Vec<ArgDescriptor>)
        ensures
            self.receiver is Absent ==> r@.len() == self.params@.len(),
            self.receiver matches FnReceiver::Slf(rd) ==> r@.len() == 1 + self.params@.len()
                && r@[0] == ArgDescriptor::Receiver(rd),
            ({
                let off: int = if self.receiver is Absent {
                    0
                } else {
                    1
                };
                forall|j: int|
                    off <= j < r@.len() ==> stripped_matches(#[trigger] r@[j], self.params@[j - off])
            }),
    {
        let mut r: Vec<ArgDescriptor> = Vec::new();
        match self.receiver {
            FnReceiver::Absent => {},
            FnReceiver::Slf(rd) => {
                r.push(ArgDescriptor::Receiver(rd));
            },
        }
        let ghost off: int = r@.len() as int;
        let mut params = self.params;
        let ghost orig_params = params@;
        let ghost mut i: int = 0;
        while params.len() > 0
            invariant
                0 <= i <= orig_params.len(),
                params@ == orig_params.skip(i),
                r@.len() == off + i,
                0 <= off <= 1,
                forall|j: int|
                    off <= j < r@.len() ==> stripped_matches(#[trigger] r@[j], orig_params[j - off]),
                off == 1 ==> r@[0] == ArgDescriptor::Receiver(self.receiver->Slf_0),
            decreases params@.len(),
        {
            let p = params.remove(0);
            proof {
                assert(p == orig_params[i]);
                assert(orig_params.skip(i).remove(0) =~= orig_params.skip(i + 1));
            }
            r.push(
                ArgDescriptor::Typed(PatTypeDesc { pat: p.pat, ty: p.ty, attrs: Vec::new() }),
            );
            proof {
                i = i + 1;
            }
        }
        proof {
            assert(orig_params.skip(i).len() == 0);
        }
        r
    }
}

/// The diagnostic text of an error.
pub open spec fn error_message(e: ParamError) -> Seq<char> {
    match e {
        ParamError::MultipleReceivers => "function cannot accept multiple receivers"@,
        ParamError::UnsupportedAttrShape =>
            "name-values are not supported. Use #[default] or #[default(CONST_VALUE)] instead."@,
        ParamError::EmptyAttrList => "expected at least 1 item in metalist"@,
        ParamError::InvalidDefaultOrdering(p) =>
            "required parameter follows a defaulted parameter: "@ + p@,
    }
}

impl ParamError {
    /// Human-readable diagnostic for this error.
    pub fn message(&self) -> (r: String)
        ensures
            r@ == error_message(*self),
    {
        match self {
            ParamError::MultipleReceivers => String::from_str(
                "function cannot accept multiple receivers",
            ),
            ParamError::UnsupportedAttrShape => String::from_str(
                "name-values are not supported. Use #[default] or #[default(CONST_VALUE)] instead.",
            ),
            ParamError::EmptyAttrList => String::from_str("expected at least 1 item in metalist"),
            ParamError::InvalidDefaultOrdering(p) => {
                let mut s = String::from_str("required parameter follows a defaulted parameter: ");
                s.append(p.as_str());
                s
            },
        }
    }
}

} // verus!
