//! The signature rule for critical-section entry functions, checked on the
//! shape of the function's signature.
//!
//! An entry function must read `fn(*mut c_void, u32) -> Result<*mut c_void, E>`.
use vstd::prelude::*;

use crate::build_error::RseqBuildError;
use crate::text_order::names_equal;

verus! {

/// A generic argument of a path segment.
pub enum GenericArgShape {
    Type(TypeShape),
    Other,
}

/// The arguments of a path segment.
pub enum PathArgumentsShape {
    NoArguments,
    AngleBracketed(Vec<GenericArgShape>),
    Parenthesized,
}

/// A segment of a path: its identifier and arguments.
pub struct PathSegmentShape {
    pub ident: String,
    pub arguments: PathArgumentsShape,
}

/// A path: whether it starts with `::`, and its segments.
pub struct PathShape {
    pub leading_colon: bool,
    pub segments: Vec<PathSegmentShape>,
}

/// The kinds of type the rule tells apart.
pub enum TypeKindShape {
    /// A raw pointer to `pointee`: `*mut` when `mutable`, else `*const`.
    Ptr { mutable: bool, pointee: Box<TypeShape> },
    /// A path type.
    Path(PathShape),
    Other,
}

/// A type: its source text and its kind.
pub struct TypeShape {
    pub text: String,
    pub kind: TypeKindShape,
}

/// A parameter of a function.
pub enum FnArgShape {
    /// `self` in any of its forms.
    Receiver,
    Typed(TypeShape),
}

/// The return type of a function.
pub enum ReturnTypeShape {
    /// No return type: `()`.
    Default,
    Type(TypeShape),
}

/// The signature of a function.
pub struct FnSignatureShape {
    pub name: String,
    pub inputs: Vec<FnArgShape>,
    pub output: ReturnTypeShape,
}

/// The identifier of the pointee type of the first parameter.
pub const C_VOID_IDENT: &'static str = "c_void";
/// The identifier of the type of the second parameter.
pub const U32_IDENT: &'static str = "u32";
/// The identifier of the return type.
pub const RESULT_IDENT: &'static str = "Result";
/// The text reported for a `self` parameter.
pub const SELF_TEXT: &'static str = "self";
/// The text reported for a missing return type.
pub const UNIT_TEXT: &'static str = "()";
/// The context in which a start-signature error is reported.
pub const START_SIGNATURE_CONTEXT: &'static str = "assert_rseq_start_signature";

/// The identifier that the path consists of, if it is a single identifier:
/// no leading `::`, one segment, no arguments.
pub open spec fn path_ident(p: PathShape) -> Option<Seq<char>> {
    if !p.leading_colon && p.segments@.len() == 1 && p.segments@[0].arguments is NoArguments {
        Some(p.segments@[0].ident@)
    } else {
        None
    }
}

/// The path of the pointee, for a pointer to a path type.
pub open spec fn ptr_path(t: TypeShape) -> Option<PathShape> {
    match t.kind {
        TypeKindShape::Ptr { mutable, pointee } => match pointee.kind {
            TypeKindShape::Path(p) => Some(p),
            _ => None,
        },
        _ => None,
    }
}

/// `t` is a `*mut` pointer.
pub open spec fn is_mut_ptr(t: TypeShape) -> bool {
    t.kind matches TypeKindShape::Ptr { mutable, .. } && mutable
}

/// `t` is `*mut c_void`.
pub open spec fn is_c_void_ptr(t: TypeShape) -> bool {
    &&& is_mut_ptr(t)
    &&& ptr_path(t) matches Some(p) && path_ident(p) == Some(C_VOID_IDENT@)
}

/// `t` is the type `u32`.
pub open spec fn is_u32_type(t: TypeShape) -> bool {
    t.kind matches TypeKindShape::Path(p) && path_ident(p) == Some(U32_IDENT@)
}

/// The first type argument of `t`, when `t` is a path whose last segment is
/// `Result` with angle-bracketed arguments that start with a type.
pub open spec fn result_first_arg(t: TypeShape) -> Option<TypeShape> {
    match t.kind {
        TypeKindShape::Path(p) => if p.segments@.len() > 0 && p.segments@.last().ident@ == RESULT_IDENT@ {
            match p.segments@.last().arguments {
                PathArgumentsShape::AngleBracketed(args) => if args@.len() > 0 {
                    match args@[0] {
                        GenericArgShape::Type(ty) => Some(ty),
                        GenericArgShape::Other => None,
                    }
                } else {
                    None
                },
                _ => None,
            }
        } else {
            None
        },
        _ => None,
    }
}

/// How a signature breaks the rule.
pub enum StartFailure {
    ArgumentCount(usize),
    FirstArg(Seq<char>),
    SecondArg(Seq<char>),
    Return(Seq<char>),
}

/// The first way in which `sig` breaks the rule, in the order the rule is
/// checked: the parameter count, the first parameter, the second, the
/// return type.
pub open spec fn start_failure(sig: FnSignatureShape) -> Option<StartFailure> {
    if sig.inputs@.len() != 2 {
        Some(StartFailure::ArgumentCount(sig.inputs@.len() as usize))
    } else {
        match sig.inputs@[0] {
            FnArgShape::Receiver => Some(StartFailure::FirstArg(SELF_TEXT@)),
            FnArgShape::Typed(t1) => if !is_c_void_ptr(t1) {
                Some(StartFailure::FirstArg(t1.text@))
            } else {
                match sig.inputs@[1] {
                    FnArgShape::Receiver => Some(StartFailure::SecondArg(SELF_TEXT@)),
                    FnArgShape::Typed(t2) => if !is_u32_type(t2) {
                        Some(StartFailure::SecondArg(t2.text@))
                    } else {
                        match sig.output {
                            ReturnTypeShape::Default => Some(StartFailure::Return(UNIT_TEXT@)),
                            ReturnTypeShape::Type(r) => match result_first_arg(r) {
                                None => Some(StartFailure::Return(r.text@)),
                                Some(inner) => if !is_c_void_ptr(inner) {
                                    Some(StartFailure::Return(r.text@))
                                } else {
                                    None
                                },
                            },
                        }
                    },
                }
            },
        }
    }
}

/// `e` reports `f` for the function `name`.
pub open spec fn start_error_is(e: RseqBuildError, name: Seq<char>, f: StartFailure) -> bool {
    match f {
        StartFailure::ArgumentCount(n) => e matches RseqBuildError::RseqStartWrongArgumentCount { name: en, count }
            && en@ == name && count == n,
        StartFailure::FirstArg(a) => e matches RseqBuildError::RseqStartFirstArgInvalid { name: en, actual }
            && en@ == name && actual@ == a,
        StartFailure::SecondArg(a) => e matches RseqBuildError::RseqStartSecondArgInvalid { name: en, actual }
            && en@ == name && actual@ == a,
        StartFailure::Return(a) => e matches RseqBuildError::RseqStartReturnInvalid { name: en, actual }
            && en@ == name && actual@ == a,
    }
}

/// The identifier the path consists of, if it is a single identifier.
fn get_ident(p: &PathShape) -> (res: Option<&str>)
    ensures
        match path_ident(*p) {
            Some(id) => res matches Some(s) && s@ == id,
            None => res is None,
        },
{
    if !p.leading_colon && p.segments.len() == 1 {
        match &p.segments[0].arguments {
            PathArgumentsShape::NoArguments => Some(p.segments[0].ident.as_str()),
            _ => None,
        }
    } else {
        None
    }
}

/// The path is the single identifier `ident`.
fn path_is_ident(p: &PathShape, ident: &str) -> (res: bool)
    ensures
        res == (path_ident(*p) == Some(ident@)),
{
    match get_ident(p) {
        Some(id) => names_equal(id, ident),
        None => false,
    }
}

/// The path of the pointee, for a pointer to a path type.
fn as_ptr_path(t: &TypeShape) -> (res: Option<&PathShape>)
    ensures
        match ptr_path(*t) {
            Some(p) => res matches Some(q) && *q == p,
            None => res is None,
        },
{
    match &t.kind {
        TypeKindShape::Ptr { pointee, .. } => match &pointee.kind {
            TypeKindShape::Path(p) => Some(p),
            _ => None,
        },
        _ => None,
    }
}

/// `t` is `*mut c_void`.
fn is_c_void_ptr_exec(t: &TypeShape) -> (res: bool)
    ensures
        res == is_c_void_ptr(*t),
{
    let mutable = match &t.kind {
        TypeKindShape::Ptr { mutable, .. } => *mutable,
        _ => false,
    };
    if !mutable {
        return false;
    }
    match as_ptr_path(t) {
        Some(p) => path_is_ident(p, C_VOID_IDENT),
        None => false,
    }
}

/// `t` is the type `u32`.
fn is_u32(t: &TypeShape) -> (res: bool)
    ensures
        res == is_u32_type(*t),
{
    match &t.kind {
        TypeKindShape::Path(p) => path_is_ident(p, U32_IDENT),
        _ => false,
    }
}

/// The first type argument of a `Result` path type.
fn get_result_first_arg(t: &TypeShape) -> (res: Option<&TypeShape>)
    ensures
        match result_first_arg(*t) {
            Some(a) => res matches Some(b) && *b == a,
            None => res is None,
        },
{
    match &t.kind {
        TypeKindShape::Path(p) => {
            let n = p.segments.len();
            if n == 0 {
                return None;
            }
            let last = &p.segments[n - 1];
            if !names_equal(last.ident.as_str(), RESULT_IDENT) {
                return None;
            }
            match &last.arguments {
                PathArgumentsShape::AngleBracketed(args) => {
                    if args.len() == 0 {
                        return None;
                    }
                    match &args[0] {
                        GenericArgShape::Type(ty) => Some(ty),
                        GenericArgShape::Other => None,
                    }
                },
                _ => None,
            }
        },
        _ => None,
    }
}

/// Checks that `sig` is the signature of a critical-section entry function.
pub fn assert_rseq_start_signature(sig: &FnSignatureShape) -> (res: Result<(), RseqBuildError>)
    ensures
        match start_failure(*sig) {
            None => res is Ok,
            Some(f) => res matches Err(e) && start_error_is(e, sig.name@, f),
        },
{
    let fn_name = sig.name.clone();
    if sig.inputs.len() != 2 {
        return Err(RseqBuildError::RseqStartWrongArgumentCount { name: fn_name, count: sig.inputs.len() });
    }
    let ty1 = match &sig.inputs[0] {
        FnArgShape::Typed(t) => t,
        FnArgShape::Receiver => {
            return Err(RseqBuildError::RseqStartFirstArgInvalid { name: fn_name, actual: SELF_TEXT.to_owned() });
        },
    };
    if !is_c_void_ptr_exec(ty1) {
        return Err(RseqBuildError::RseqStartFirstArgInvalid { name: fn_name, actual: ty1.text.clone() });
    }
    let ty2 = match &sig.inputs[1] {
        FnArgShape::Typed(t) => t,
        FnArgShape::Receiver => {
            return Err(RseqBuildError::RseqStartSecondArgInvalid { name: fn_name, actual: SELF_TEXT.to_owned() });
        },
    };
    if !is_u32(ty2) {
        return Err(RseqBuildError::RseqStartSecondArgInvalid { name: fn_name, actual: ty2.text.clone() });
    }
    let return_type = match &sig.output {
        ReturnTypeShape::Default => {
            return Err(RseqBuildError::RseqStartReturnInvalid { name: fn_name, actual: UNIT_TEXT.to_owned() });
        },
        ReturnTypeShape::Type(t) => t,
    };
    let inner_ty = match get_result_first_arg(return_type) {
        Some(t) => t,
        None => {
            return Err(RseqBuildError::RseqStartReturnInvalid { name: fn_name, actual: return_type.text.clone() });
        },
    };
    if !is_c_void_ptr_exec(inner_ty) {
        return Err(RseqBuildError::RseqStartReturnInvalid { name: fn_name, actual: return_type.text.clone() });
    }
    Ok(())
}

/// `t` is written `*mut c_void`: a `*mut` pointer to the plain path `c_void`.
pub open spec fn written_mut_c_void(t: TypeShape) -> bool {
    match t.kind {
        TypeKindShape::Ptr { mutable, pointee } => mutable && match pointee.kind {
            TypeKindShape::Path(p) => !p.leading_colon && p.segments@.len() == 1
                && p.segments@[0].ident@ == "c_void"@ && p.segments@[0].arguments is NoArguments,
            _ => false,
        },
        _ => false,
    }
}

/// `t` is written `u32`.
pub open spec fn written_u32(t: TypeShape) -> bool {
    t.kind matches TypeKindShape::Path(p) && !p.leading_colon && p.segments@.len() == 1
        && p.segments@[0].ident@ == "u32"@ && p.segments@[0].arguments is NoArguments
}

/// `t` is written `…Result<*mut c_void, …>`: a path whose last segment is
/// `Result` with angle-bracketed arguments, the first a `*mut c_void`.
pub open spec fn written_result_of_mut_c_void(t: TypeShape) -> bool {
    match t.kind {
        TypeKindShape::Path(p) => p.segments@.len() > 0 && p.segments@.last().ident@ == "Result"@
            && match p.segments@.last().arguments {
                PathArgumentsShape::AngleBracketed(args) => args@.len() > 0 && match args@[0] {
                    GenericArgShape::Type(first) => written_mut_c_void(first),
                    _ => false,
                },
                _ => false,
            },
        _ => false,
    }
}

/// An entry function is accepted exactly when it takes two parameters, a
/// `*mut c_void` and a `u32`, and returns a `Result` whose first argument
/// is `*mut c_void`; one with another number of parameters is refused for
/// its parameter count, whatever else it has.
pub proof fn lemma_start_signature_rule(sig: FnSignatureShape)
    ensures
        start_failure(sig) is None <==> {
            &&& sig.inputs@.len() == 2
            &&& sig.inputs@[0] matches FnArgShape::Typed(t1) && written_mut_c_void(t1)
            &&& sig.inputs@[1] matches FnArgShape::Typed(t2) && written_u32(t2)
            &&& sig.output matches ReturnTypeShape::Type(r) && written_result_of_mut_c_void(r)
        },
        sig.inputs@.len() != 2 ==> start_failure(sig) == Some(StartFailure::ArgumentCount(sig.inputs@.len() as usize)),
        sig.inputs@.len() == 2 && (sig.inputs@[1] matches FnArgShape::Typed(t2) && !written_u32(t2))
            && (sig.inputs@[0] matches FnArgShape::Typed(t1) && written_mut_c_void(t1))
            ==> start_failure(sig) == Some(StartFailure::SecondArg(sig.inputs@[1]->Typed_0.text@)),
{
    reveal_strlit("c_void");
    reveal_strlit("u32");
    reveal_strlit("Result");
    assert forall|t: TypeShape| #[trigger] is_c_void_ptr(t) <==> written_mut_c_void(t) by {}
    assert forall|t: TypeShape| #[trigger] is_u32_type(t) <==> written_u32(t) by {}
    assert forall|t: TypeShape| #[trigger] result_first_arg(t) is Some && is_c_void_ptr(result_first_arg(t)->Some_0)
        <==> written_result_of_mut_c_void(t) by {}
}

} // verus!
