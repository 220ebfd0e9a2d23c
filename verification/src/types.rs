//! Types: what the printers ask about them, and how arguments of a type are passed.

use crate::ast::{
    BaseType, BaseType_, BuiltinTypeName_, DiagnosticView, FunctionSignature, SingleType,
    SingleType_, Term, TermResult, TypeName_, Var,
};
use crate::shared::{derr, rename, says, Context};
use crate::text::{cat2, cat3, cat4};
use vstd::prelude::*;

verus! {

/// What rendering a construct comes to.
pub enum Rendered {
    Text(Seq<char>),
    Fail(DiagnosticView),
    /// The construct is none that the compiler hands out at this place.
    Stuck,
}

/// What `r` says of a construct.
pub open spec fn rendered(r: TermResult) -> Rendered {
    match r {
        Ok(s) => Rendered::Text(s@),
        Err(d) => Rendered::Fail(d@),
    }
}

/// The builtin type and the type arguments of a type that is built in.
pub open spec fn builtin_of(ty: BaseType) -> Option<(BuiltinTypeName_, Seq<BaseType>)> {
    match ty.value {
        BaseType_::Apply(_, typename, ty_args) => match typename.value {
            TypeName_::Builtin(builtin) => Some((builtin.value, ty_args@)),
            _ => None,
        },
        _ => None,
    }
}

/// A type without the reference to it.
pub open spec fn base_of(ty: SingleType) -> BaseType {
    match ty.value {
        SingleType_::Base(base) => base,
        SingleType_::Ref(_, base) => base,
    }
}

pub fn extract_builtin_from_base_type(ty: &BaseType) -> (r: Result<
    (&BuiltinTypeName_, &Vec<BaseType>),
    bool,
>)
    ensures
        match r {
            Ok((builtin, ty_args)) => builtin_of(*ty) == Some((*builtin, ty_args@)),
            Err(e) => !e && builtin_of(*ty) is None,
        },
{
    if let BaseType_::Apply(_, typename, ty_args) = &ty.value {
        if let TypeName_::Builtin(builtin) = &typename.value {
            return Ok((&builtin.value, ty_args));
        }
    }
    Err(false)
}

pub fn extract_builtin_type(ty: &SingleType) -> (r: Result<
    (&BuiltinTypeName_, &Vec<BaseType>),
    bool,
>)
    ensures
        match r {
            Ok((builtin, ty_args)) => builtin_of(base_of(*ty)) == Some((*builtin, ty_args@)),
            Err(e) => !e && builtin_of(base_of(*ty)) is None,
        },
{
    match &ty.value {
        SingleType_::Base(base_ty) => extract_builtin_from_base_type(base_ty),
        SingleType_::Ref(_, base_ty) => extract_builtin_from_base_type(base_ty),
    }
}

/// Whether a type is `signer`.
pub open spec fn signer_base(ty: BaseType) -> bool {
    builtin_of(ty) matches Some((BuiltinTypeName_::Signer, _))
}

/// Whether a type is `signer` or a reference to it.
pub open spec fn signer(ty: SingleType) -> bool {
    signer_base(base_of(ty))
}

pub fn is_base_type_signer(ty: &BaseType) -> (r: bool)
    ensures
        r == signer_base(*ty),
{
    match &ty.value {
        BaseType_::Apply(_, typename, _) => match &typename.value {
            TypeName_::Builtin(builtin) => {
                return builtin.value == BuiltinTypeName_::Signer;
            },
            _ => false,
        },
        _ => false,
    }
}

pub fn is_type_signer(ty: &SingleType) -> (r: bool)
    ensures
        r == signer(*ty),
{
    match &ty.value {
        SingleType_::Base(base_ty) => is_base_type_signer(base_ty),
        SingleType_::Ref(_, base_ty) => is_base_type_signer(base_ty),
    }
}

/// The TypeScript function that turns an element of a vector of vectors into an argument,
/// where the elements of the element have the type `ty`.
pub open spec fn vector_handler(ty: BaseType) -> Rendered
    decreases ty,
{
    match ty.value {
        BaseType_::Apply(_, typename, ty_args) => match typename.value {
            TypeName_::Builtin(builtin) => match builtin.value {
                BuiltinTypeName_::U8 => Rendered::Text("array => $.u8ArrayArg(array)"@),
                BuiltinTypeName_::Bool
                | BuiltinTypeName_::Address
                | BuiltinTypeName_::U64
                | BuiltinTypeName_::U128 => Rendered::Text(
                    "array => array.map(ele => $.payloadArg(ele))"@,
                ),
                BuiltinTypeName_::Signer => Rendered::Stuck,
                BuiltinTypeName_::Vector => if ty_args@.len() == 1 {
                    match vector_handler(ty_args@[0]) {
                        Rendered::Text(inner) => Rendered::Text(
                            "array => array.map("@ + inner + ")"@,
                        ),
                        other => other,
                    }
                } else {
                    Rendered::Stuck
                },
            },
            _ => Rendered::Fail(says(ty.loc, "Unsupported vector-in-vector type"@)),
        },
        _ => Rendered::Fail(says(ty.loc, "Unsupported vector-in-vector type"@)),
    }
}

pub fn get_ts_handler_for_vector_in_vector(inner_ty: &BaseType) -> (r: TermResult)
    requires
        !(vector_handler(*inner_ty) is Stuck),
    ensures
        rendered(r) == vector_handler(*inner_ty),
    decreases inner_ty,
{
    if let Ok((builtin, inner_ty_args)) = extract_builtin_from_base_type(inner_ty) {
        match builtin {
            BuiltinTypeName_::U8 => Ok("array => $.u8ArrayArg(array)".to_owned()),
            BuiltinTypeName_::Bool
            | BuiltinTypeName_::Address
            | BuiltinTypeName_::U64
            | BuiltinTypeName_::U128 => Ok(
                "array => array.map(ele => $.payloadArg(ele))".to_owned(),
            ),
            _ => {
                let inner_map = get_ts_handler_for_vector_in_vector(&inner_ty_args[0])?;
                Ok(cat3("array => array.map(", inner_map.as_str(), ")"))
            },
        }
    } else {
        Err(derr(inner_ty.loc, "Unsupported vector-in-vector type"))
    }
}

/// The TypeScript expression that turns a parameter of a script function into an argument.
pub open spec fn param_handler(name: Var, ty: SingleType) -> Rendered {
    match builtin_of(base_of(ty)) {
        Some((BuiltinTypeName_::Signer, _)) => Rendered::Stuck,
        Some((BuiltinTypeName_::Vector, ty_args)) => if ty_args.len() == 1 {
            match builtin_of(ty_args[0]) {
                Some((BuiltinTypeName_::U8, _)) => Rendered::Text(
                    "$.u8ArrayArg("@ + name.0.ts@ + ")"@,
                ),
                Some((BuiltinTypeName_::Signer, _)) => Rendered::Stuck,
                Some((BuiltinTypeName_::Vector, inner_ty_args)) => if inner_ty_args.len() == 1 {
                    match vector_handler(inner_ty_args[0]) {
                        Rendered::Text(inner) => Rendered::Text(
                            name.0.ts@ + ".map("@ + inner + ")"@,
                        ),
                        other => other,
                    }
                } else {
                    Rendered::Stuck
                },
                Some(_) => Rendered::Text(
                    name.0.ts@ + ".map(element => $.payloadArg(element))"@,
                ),
                None => Rendered::Fail(
                    says(
                        ty.loc,
                        "This vector type is not supported as parameter of a script function"@,
                    ),
                ),
            }
        } else {
            Rendered::Stuck
        },
        Some(_) => Rendered::Text("$.payloadArg("@ + name.0.ts@ + ")"@),
        None => Rendered::Fail(
            says(ty.loc, "This type is not supported as parameter of script function"@),
        ),
    }
}

pub fn get_ts_handler_for_script_function_param(name: &Var, ty: &SingleType) -> (r: TermResult)
    requires
        !(param_handler(*name, *ty) is Stuck),
    ensures
        rendered(r) == param_handler(*name, *ty),
{
    let name = rename(&name.0);
    if let Ok((builtin, ty_args)) = extract_builtin_type(ty) {
        match builtin {
            BuiltinTypeName_::Vector => {
                if let Ok((inner_builtin, inner_ty_args)) = extract_builtin_from_base_type(
                    &ty_args[0],
                ) {
                    match inner_builtin {
                        BuiltinTypeName_::U8 => Ok(cat3("$.u8ArrayArg(", name.as_str(), ")")),
                        BuiltinTypeName_::Vector => {
                            let inner_map = get_ts_handler_for_vector_in_vector(
                                &inner_ty_args[0],
                            )?;
                            Ok(cat4(name.as_str(), ".map(", inner_map.as_str(), ")"))
                        },
                        _ => Ok(
                            cat2(name.as_str(), ".map(element => $.payloadArg(element))"),
                        ),
                    }
                } else {
                    Err(
                        derr(
                            ty.loc,
                            "This vector type is not supported as parameter of a script function",
                        ),
                    )
                }
            },
            _ => Ok(cat3("$.payloadArg(", name.as_str(), ")")),
        }
    } else {
        Err(derr(ty.loc, "This type is not supported as parameter of script function"))
    }
}

/// Whether each parameter from the one at `i` on is a signer or can be passed as an
/// argument. The answer is open where a parameter that is reached has a type that the
/// compiler does not hand out.
pub open spec fn valid_parameters(parameters: Seq<(Var, SingleType)>, i: int) -> Option<bool>
    decreases parameters.len() - i,
{
    if 0 <= i < parameters.len() {
        if signer(parameters[i].1) {
            valid_parameters(parameters, i + 1)
        } else {
            match param_handler(parameters[i].0, parameters[i].1) {
                Rendered::Text(_) => valid_parameters(parameters, i + 1),
                Rendered::Fail(_) => Some(false),
                Rendered::Stuck => None,
            }
        }
    } else {
        Some(true)
    }
}

pub fn script_function_has_valid_parameter(sig: &FunctionSignature) -> (r: bool)
    requires
        valid_parameters(sig.parameters@, 0) is Some,
    ensures
        valid_parameters(sig.parameters@, 0) == Some(r),
{
    let mut i: usize = 0;
    while i < sig.parameters.len()
        invariant
            i <= sig.parameters.len(),
            valid_parameters(sig.parameters@, 0) is Some,
            valid_parameters(sig.parameters@, 0) == valid_parameters(sig.parameters@, i as int),
        decreases sig.parameters.len() - i,
    {
        let param = &sig.parameters[i];
        if !is_type_signer(&param.1) {
            let ts_handler = get_ts_handler_for_script_function_param(&param.0, &param.1);
            if ts_handler.is_err() {
                return false;
            }
        }
        i = i + 1;
    }
    true
}

/// The type of a constant in TypeScript.
pub open spec fn constant_type(ty: BaseType) -> Rendered
    decreases ty,
{
    match ty.value {
        BaseType_::Apply(_, typename, ty_args) => match typename.value {
            TypeName_::Builtin(builtin) => if builtin.value is Vector {
                if ty_args@.len() > 0 {
                    match constant_type(ty_args@[0]) {
                        Rendered::Text(s) => Rendered::Text(s + "[]"@),
                        other => other,
                    }
                } else {
                    Rendered::Stuck
                }
            } else {
                rendered(builtin.ts.text)
            },
            _ => Rendered::Stuck,
        },
        _ => Rendered::Stuck,
    }
}

/// The term that the type of a constant is made of: that of its innermost elements.
pub open spec fn constant_term(ty: BaseType) -> Term
    decreases ty,
{
    match ty.value {
        BaseType_::Apply(_, typename, ty_args) => match typename.value {
            TypeName_::Builtin(builtin) => if builtin.value is Vector && ty_args@.len() > 0 {
                constant_term(ty_args@[0])
            } else {
                builtin.ts
            },
            _ => ty.ts,
        },
        _ => ty.ts,
    }
}

pub fn ts_constant_type(ty: &BaseType, c: &mut Context) -> (r: TermResult)
    requires
        !(constant_type(*ty) is Stuck),
    ensures
        rendered(r) == constant_type(*ty),
        final(c)@ == old(c)@.import(constant_term(*ty)),
    decreases ty,
{
    match &ty.value {
        BaseType_::Apply(_, typename, ty_args) => match &typename.value {
            TypeName_::Builtin(builtin) => match builtin.value {
                BuiltinTypeName_::Vector => {
                    let element = ts_constant_type(&ty_args[0], c)?;
                    Ok(cat2(element.as_str(), "[]"))
                },
                _ => builtin.ts.term(c),
            },
            TypeName_::ModuleType(_, _) => vstd::pervasive::unreached(),
        },
        _ => vstd::pervasive::unreached(),
    }
}

} // verus!
