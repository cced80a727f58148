use vstd::prelude::*;
use vstd::string::*;

use crate::error::{SyntaxIssue, TransformError};

verus! {

/// The type of a parameter, as far as validation reads it.
#[derive(Debug, PartialEq, Eq)]
pub enum TypeDesc {
    /// `[T; N]`
    Array(Box<TypeDesc>),
    /// `[T]`
    Slice(Box<TypeDesc>),
    /// `&T` or `&mut T`
    Reference(Box<TypeDesc>),
    /// A path type; holds its identifier when the path is one bare
    /// identifier (no leading `::`, one segment, no generic arguments).
    Path(Option<String>),
    /// Any other type (tuple, function pointer, trait object, ...).
    Other,
}

/// One entry of a function's parameter list.
#[derive(Debug, PartialEq, Eq)]
pub enum FnArgDesc {
    /// A `self`, `&self` or `&mut self` receiver.
    Receiver,
    /// `pat: ty`, with the number of attributes written on it.
    Typed { attrs: usize, pat: String, ty: TypeDesc },
}

/// A validated parameter: its binding pattern and its type.
#[derive(Debug, PartialEq, Eq)]
pub struct Param {
    pub pat: String,
    pub ty: TypeDesc,
}

/// A remotable function definition: visibility, name, parameters, return
/// type and body. Visibility, return type and body are kept as source text;
/// only the name and the parameters are read by the transformation.
#[derive(Debug)]
pub struct GwasmFn {
    pub vis: String,
    pub ident: String,
    pub args: Vec<FnArgDesc>,
    pub ret: String,
    pub body: String,
}

/// A type is byte-sequence shaped when stripping array, slice and
/// reference wrappers leaves the bare identifier `u8`.
pub open spec fn is_byte_seq_type(t: TypeDesc) -> bool
    decreases t,
{
    match t {
        TypeDesc::Array(e) => is_byte_seq_type(*e),
        TypeDesc::Slice(e) => is_byte_seq_type(*e),
        TypeDesc::Reference(e) => is_byte_seq_type(*e),
        TypeDesc::Path(id) => match id {
            Some(s) => s@ == "u8"@,
            None => false,
        },
        TypeDesc::Other => false,
    }
}

/// Checks that a parameter type reduces to a byte sequence.
pub fn validate_arg_type(ty: &TypeDesc) -> (r: bool)
    ensures
        r == is_byte_seq_type(*ty),
    decreases ty,
{
    match ty {
        TypeDesc::Array(e) => validate_arg_type(e),
        TypeDesc::Slice(e) => validate_arg_type(e),
        TypeDesc::Reference(e) => validate_arg_type(e),
        TypeDesc::Path(id) => match id {
            Some(s) => {
                let byte = String::from_str("u8");
                *s == byte
            },
            None => false,
        },
        TypeDesc::Other => false,
    }
}

/// The error a single parameter entry is refused with, if any.
pub open spec fn arg_error(a: FnArgDesc) -> Option<TransformError> {
    match a {
        FnArgDesc::Receiver => Some(TransformError::Syntax(SyntaxIssue::SelfParameter)),
        FnArgDesc::Typed { attrs, pat, ty } => if attrs > 0 {
            Some(TransformError::Syntax(SyntaxIssue::ParameterAttributes))
        } else if !is_byte_seq_type(ty) {
            Some(TransformError::UnsupportedType { param: pat })
        } else {
            None
        },
    }
}

/// The parameter an accepted entry stands for.
pub open spec fn param_of(a: FnArgDesc) -> Param {
    match a {
        FnArgDesc::Typed { attrs, pat, ty } => Param { pat, ty },
        FnArgDesc::Receiver => arbitrary(),
    }
}

/// Validates every parameter entry in order and extracts the parameters.
/// A function without parameters is refused; otherwise the first refused
/// entry decides the error.
pub fn validate_extract_args(input: Vec<FnArgDesc>) -> (r: Result<Vec<Param>, TransformError>)
    ensures
        input@.len() == 0 ==> r == Err::<Vec<Param>, TransformError>(TransformError::NoParameters),
        input@.len() > 0 && (forall|i: int|
            0 <= i < input@.len() ==> arg_error(#[trigger] input@[i]) is None) ==> r is Ok,
        match r {
            Ok(ps) => input@.len() > 0 && ps@.len() == input@.len() && forall|i: int|
                0 <= i < input@.len() ==> arg_error(#[trigger] input@[i]) is None
                    && ps@[i] == param_of(input@[i]),
            Err(TransformError::NoParameters) => input@.len() == 0,
            Err(e) => exists|i: int|
                0 <= i < input@.len() && (forall|j: int|
                    0 <= j < i ==> arg_error(#[trigger] input@[j]) is None) && arg_error(
                    #[trigger] input@[i],
                ) == Some(e),
        },
{
    if input.len() == 0 {
        return Err(TransformError::NoParameters);
    }
    let ghost orig = input@;
    let mut rest = input;
    let mut args: Vec<Param> = Vec::new();
    while rest.len() > 0
        invariant
            orig == input@,
            orig.len() > 0,
            args@.len() + rest@.len() == orig.len(),
            rest@ == orig.subrange(args@.len() as int, orig.len() as int),
            forall|j: int|
                0 <= j < args@.len() ==> arg_error(#[trigger] orig[j]) is None && args@[j]
                    == param_of(orig[j]),
        decreases rest@.len(),
    {
        let k: usize = args.len();
        let arg = rest.remove(0);
        assert(arg == orig[k as int]);
        let err = match arg {
            FnArgDesc::Receiver => TransformError::Syntax(SyntaxIssue::SelfParameter),
            FnArgDesc::Typed { attrs, pat, ty } => {
                if attrs > 0 {
                    TransformError::Syntax(SyntaxIssue::ParameterAttributes)
                } else if !validate_arg_type(&ty) {
                    TransformError::UnsupportedType { param: pat }
                } else {
                    args.push(Param { pat, ty });
                    continue ;
                }
            },
        };
        assert(arg_error(orig[k as int]) == Some(err));
        assert(forall|j: int| 0 <= j < k ==> arg_error(#[trigger] orig[j]) is None);
        return Err(err);
    }
    Ok(args)
}

/// A type wrapper that validation looks through.
pub enum Wrapper {
    Array,
    Slice,
    Reference,
}

/// `inner` wrapped in the given layers, outermost first.
pub open spec fn wrap(layers: Seq<Wrapper>, inner: TypeDesc) -> TypeDesc
    decreases layers.len(),
{
    if layers.len() == 0 {
        inner
    } else {
        let t = Box::new(wrap(layers.drop_first(), inner));
        match layers[0] {
            Wrapper::Array => TypeDesc::Array(t),
            Wrapper::Slice => TypeDesc::Slice(t),
            Wrapper::Reference => TypeDesc::Reference(t),
        }
    }
}

/// Any finite nesting of array, slice and reference wrappers is accepted
/// exactly when its innermost type is: the bare identifier `u8` passes, any
/// other path (`u32`, `f64`, a struct's name) and any other type fails.
pub proof fn lemma_wrapped_types(layers: Seq<Wrapper>, inner: TypeDesc)
    ensures
        is_byte_seq_type(wrap(layers, inner)) == is_byte_seq_type(inner),
        inner is Path || inner is Other ==> (is_byte_seq_type(wrap(layers, inner)) <==> (
        inner is Path && inner->Path_0 is Some && inner->Path_0->0@ == "u8"@)),
    decreases layers.len(),
{
    if layers.len() > 0 {
        lemma_wrapped_types(layers.drop_first(), inner);
    }
}

} // verus!
