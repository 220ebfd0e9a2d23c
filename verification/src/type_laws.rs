//! How arguments of a type are passed, and what the type of a constant is.

use crate::ast::{
    Address, BaseType, BaseType_, BuiltinTypeName, BuiltinTypeName_, DiagnosticView, SingleType,
    SingleType_, Term, TypeName_, Var,
};
use crate::constants::rendered_text;
use crate::types::{
    base_of, builtin_of, constant_term, constant_type, param_handler, rendered, signer,
    vector_handler, Rendered,
};
use vstd::prelude::*;

verus! {

/// A type that is built in.
pub open spec fn is_builtin(ty: BaseType, name: BuiltinTypeName_, args: Seq<BaseType>) -> bool {
    ty.value matches BaseType_::Apply(_, typename, list) && list@ == args && (
    typename.value matches TypeName_::Builtin(builtin) && builtin.value == name)
}

/// The types of single values that can be passed.
pub open spec fn is_single(name: BuiltinTypeName_) -> bool {
    name is Bool || name is Address || name is U8 || name is U64 || name is U128
}

/// A type that is not built in.
pub open spec fn is_other(ty: BaseType) -> bool {
    !(ty.value matches BaseType_::Apply(_, typename, _) && typename.value is Builtin)
}

/// What a type is built of: a type that is built in has its name and its type arguments, by
/// value and by reference, and no other type has any.
pub proof fn law_builtin_types(ty: SingleType, builtin: BuiltinTypeName_, args: Seq<BaseType>)
    ensures
        ({
            let base = match ty.value {
                SingleType_::Base(base) => base,
                SingleType_::Ref(_, base) => base,
            };
            &&& base_of(ty) == base
            &&& builtin_of(base) == Some((builtin, args)) <==> is_builtin(base, builtin, args)
            &&& builtin_of(base) is None <==> is_other(base)
        }),
{
}

/// A term with a text shows it, and one without shows nothing; rendering gives the text or
/// the reason why there is none.
pub proof fn law_texts_of_terms(term: Term)
    ensures
        match term.text {
            Ok(s) => term.shown() == s@ && rendered(term.text) == Rendered::Text(s@)
                && rendered_text(Rendered::Text(s@)) == s@,
            Err(d) => term.shown().len() == 0 && rendered(term.text) == Rendered::Fail(d@),
        },
{
}

/// A parameter is a signer if and only if its type is `signer` or a reference to it, mutable or
/// not.
pub proof fn law_signers(ty: SingleType)
    ensures
        signer(ty) <==> {
            let base = match ty.value {
                SingleType_::Base(base) => base,
                SingleType_::Ref(_, base) => base,
            };
            base.value matches BaseType_::Apply(_, typename, _) && (
            typename.value matches TypeName_::Builtin(builtin) && builtin.value is Signer)
        },
{
}

/// A single value, by value or by reference, is passed as it is.
pub proof fn law_single_arguments(
    name: Var,
    ty: SingleType,
    builtin: BuiltinTypeName_,
    args: Seq<BaseType>,
)
    requires
        is_single(builtin),
        is_builtin(
            match ty.value {
                SingleType_::Base(base) => base,
                SingleType_::Ref(_, base) => base,
            },
            builtin,
            args,
        ),
    ensures
        param_handler(name, ty) == Rendered::Text("$.payloadArg("@ + name.0.ts@ + ")"@),
{
}

/// A vector of bytes is passed as an array of bytes, a vector of other single values element by
/// element, and a vector of vectors by what turns its elements into arguments. Where such an
/// element cannot be passed, the vector cannot, for the same reason.
pub proof fn law_vector_arguments(
    name: Var,
    ty: SingleType,
    element: BaseType,
    builtin: BuiltinTypeName_,
    args: Seq<BaseType>,
)
    requires
        is_builtin(
            match ty.value {
                SingleType_::Base(base) => base,
                SingleType_::Ref(_, base) => base,
            },
            BuiltinTypeName_::Vector,
            seq![element],
        ),
        is_builtin(element, builtin, args),
    ensures
        builtin is U8 ==> param_handler(name, ty) == Rendered::Text(
            "$.u8ArrayArg("@ + name.0.ts@ + ")"@,
        ),
        is_single(builtin) && !(builtin is U8) ==> param_handler(name, ty) == Rendered::Text(
            name.0.ts@ + ".map(element => $.payloadArg(element))"@,
        ),
        builtin is Vector && args.len() == 1 ==> match vector_handler(args[0]) {
            Rendered::Text(inner) => param_handler(name, ty) == Rendered::Text(
                name.0.ts@ + ".map("@ + inner + ")"@,
            ),
            Rendered::Fail(d) => param_handler(name, ty) == Rendered::Fail(d),
            Rendered::Stuck => param_handler(name, ty) is Stuck,
        },
{
}

/// What turns an element of a vector of vectors into an argument maps each level of vectors
/// below it: the innermost level is an array of bytes or an array of other single values. An
/// innermost type that is not built in is reported where it stands.
pub proof fn law_vector_elements(ty: BaseType, builtin: BuiltinTypeName_, args: Seq<BaseType>)
    ensures
        is_builtin(ty, builtin, args) && builtin is U8 ==> vector_handler(ty) == Rendered::Text(
            "array => $.u8ArrayArg(array)"@,
        ),
        is_builtin(ty, builtin, args) && is_single(builtin) && !(builtin is U8) ==> vector_handler(
            ty,
        ) == Rendered::Text("array => array.map(ele => $.payloadArg(ele))"@),
        is_builtin(ty, builtin, args) && builtin is Vector && args.len() == 1 ==> match vector_handler(
            args[0],
        ) {
            Rendered::Text(inner) => vector_handler(ty) == Rendered::Text(
                "array => array.map("@ + inner + ")"@,
            ),
            Rendered::Fail(d) => vector_handler(ty) == Rendered::Fail(d),
            Rendered::Stuck => vector_handler(ty) is Stuck,
        },
        is_other(ty) ==> vector_handler(ty) == Rendered::Fail(
            DiagnosticView { loc: ty.loc, message: "Unsupported vector-in-vector type"@ },
        ),
{
}

/// A type that is not built in cannot be passed, nor can a vector of such.
pub proof fn law_other_arguments(name: Var, ty: SingleType, element: BaseType)
    ensures
        is_other(
            match ty.value {
                SingleType_::Base(base) => base,
                SingleType_::Ref(_, base) => base,
            },
        ) ==> param_handler(name, ty) == Rendered::Fail(
            DiagnosticView {
                loc: ty.loc,
                message: "This type is not supported as parameter of script function"@,
            },
        ),
        is_other(element) && is_builtin(
            match ty.value {
                SingleType_::Base(base) => base,
                SingleType_::Ref(_, base) => base,
            },
            BuiltinTypeName_::Vector,
            seq![element],
        ) ==> param_handler(name, ty) == Rendered::Fail(
            DiagnosticView {
                loc: ty.loc,
                message: "This vector type is not supported as parameter of a script function"@,
            },
        ),
{
}

/// A type of vectors of vectors, `depth` deep, around a type that is built in and no vector.
pub open spec fn nested(ty: BaseType, depth: nat, inner: BuiltinTypeName) -> bool
    decreases depth,
{
    if depth == 0 {
        ty.value matches BaseType_::Apply(_, typename, _) && typename.value == TypeName_::Builtin(
            inner,
        ) && !(inner.value is Vector)
    } else {
        exists|args: Seq<BaseType>| #[trigger]
            is_builtin(ty, BuiltinTypeName_::Vector, args) && args.len() > 0 && nested(
                args[0],
                (depth - 1) as nat,
                inner,
            )
    }
}

/// One pair of brackets for each level of vectors.
pub open spec fn brackets(depth: nat) -> Seq<char>
    decreases depth,
{
    if depth == 0 {
        Seq::empty()
    } else {
        brackets((depth - 1) as nat) + "[]"@
    }
}

/// The type of a constant of nested vectors is the name of the innermost type, with a pair of
/// brackets for each level; it has a text if that name has one, and fails as it does.
pub proof fn law_constant_types(ty: BaseType, depth: nat, inner: BuiltinTypeName)
    requires
        nested(ty, depth, inner),
    ensures
        constant_term(ty) == inner.ts,
        match inner.ts.text {
            Ok(s) => constant_type(ty) == Rendered::Text(s@ + brackets(depth)),
            Err(d) => constant_type(ty) == Rendered::Fail(d@),
        },
    decreases depth,
{
    if depth == 0 {
        if let Ok(s) = inner.ts.text {
            assert(s@ + brackets(0) =~= s@);
        }
    } else {
        let args = choose|args: Seq<BaseType>| #[trigger]
            is_builtin(ty, BuiltinTypeName_::Vector, args) && args.len() > 0 && nested(
                args[0],
                (depth - 1) as nat,
                inner,
            );
        law_constant_types(args[0], (depth - 1) as nat, inner);
        if let Ok(s) = inner.ts.text {
            assert(s@ + brackets((depth - 1) as nat) + "[]"@ =~= s@ + brackets(depth));
        }
    }
}

} // verus!
