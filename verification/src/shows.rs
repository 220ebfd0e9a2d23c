//! Functions that show a struct.
//!
//! A function that shows a struct takes a reference to the struct as its only parameter
//! and has the type parameters of the struct.

use crate::ast::{
    BaseType, BaseType_, Function, FunctionName, ModuleIdent, Name, SingleType, SingleType_,
    StructTypeParameter, TParam, TypeName_, WriteResult,
};
use crate::script::{end_of, End};
use crate::shared::{
    derr, is_same_module, is_same_name, same_module, same_name, says, Context, ContextView,
    Show, ShowView,
};
use crate::text::{cat2, cat3};
use vstd::prelude::*;

verus! {

/// Where the first function from the one at `i` on stands that has the given name.
pub open spec fn find_function(
    functions: Seq<(FunctionName, Function)>,
    name: Name,
    i: int,
) -> Option<int>
    decreases functions.len() - i,
{
    if 0 <= i < functions.len() {
        if same_name(functions[i].0.0, name) {
            Some(i)
        } else {
            find_function(functions, name, i + 1)
        }
    } else {
        None
    }
}

/// Whether the type parameters of a function from the one at `i` on are called as those of
/// a struct.
pub open spec fn type_parameters_verdict(
    of_struct: Seq<StructTypeParameter>,
    of_function: Seq<TParam>,
    i: int,
) -> End
    decreases of_function.len() - i,
{
    if 0 <= i < of_function.len() {
        let name = of_function[i].user_specified_name;
        if same_name(of_struct[i].param.user_specified_name, name) {
            type_parameters_verdict(of_struct, of_function, i + 1)
        } else {
            End::Fail(says(name.loc, "Mismatched type parameters"@))
        }
    } else {
        End::Done
    }
}

/// Whether the type arguments from the one at `i` on are the type parameters of a struct,
/// in order.
pub open spec fn type_arguments_verdict(
    of_struct: Seq<StructTypeParameter>,
    targs: Seq<BaseType>,
    i: int,
) -> End
    decreases targs.len() - i,
{
    if 0 <= i < targs.len() {
        match targs[i].value {
            BaseType_::Param(tp) => if i >= of_struct.len() {
                End::Stuck
            } else if same_name(
                of_struct[i].param.user_specified_name,
                tp.user_specified_name,
            ) {
                type_arguments_verdict(of_struct, targs, i + 1)
            } else {
                End::Fail(says(targs[i].loc, "Mismatched type parameters"@))
            },
            _ => End::Fail(says(targs[i].loc, "Mismatched type parameters"@)),
        }
    } else {
        End::Done
    }
}

/// Whether a type is the struct of a show, applied to its own type parameters.
pub open spec fn shown_type_verdict(
    name: FunctionName,
    ty: BaseType,
    show: ShowView,
    module: Option<ModuleIdent>,
) -> End {
    let other_type = End::Fail(
        says(
            name.0.loc,
            "This function should have &"@ + show.sname.0.value@ + " as the only parameter"@,
        ),
    );
    match ty.value {
        BaseType_::Apply(_, typename, targs) => match typename.value {
            TypeName_::ModuleType(mi, sname) => match module {
                Some(current) => if same_module(current, mi) && same_name(show.sname.0, sname.0) {
                    type_arguments_verdict(show.sdef.type_parameters@, targs@, 0)
                } else {
                    other_type
                },
                None => End::Stuck,
            },
            _ => other_type,
        },
        _ => other_type,
    }
}

/// Whether the only parameter of a function is a reference to the struct of a show.
pub open spec fn shown_parameter_verdict(
    name: FunctionName,
    ty: SingleType,
    show: ShowView,
    module: Option<ModuleIdent>,
) -> End {
    match ty.value {
        SingleType_::Ref(_, base) => shown_type_verdict(name, base, show, module),
        SingleType_::Base(_) => End::Fail(
            says(
                name.0.loc,
                "This function should have &"@ + show.sname.0.value@ + " as the only parameter"@,
            ),
        ),
    }
}

/// Whether the function that a show names exists and fits the struct.
pub open spec fn show_verdict(
    functions: Seq<(FunctionName, Function)>,
    show: ShowView,
    module: Option<ModuleIdent>,
) -> End {
    match find_function(functions, show.fname, 0) {
        None => End::Fail(
            says(show.fname.loc, "This function does not exist in current module"@),
        ),
        Some(i) => {
            let (name, f) = functions[i];
            let of_struct = show.sdef.type_parameters@;
            let of_function = f.signature.type_parameters@;
            let parameters = f.signature.parameters@;
            if of_function.len() != of_struct.len() {
                End::Fail(
                    says(
                        name.0.loc,
                        "This function should have the same type parameters as "@
                            + show.sname.0.value@,
                    ),
                )
            } else {
                match type_parameters_verdict(of_struct, of_function, 0) {
                    End::Done => if parameters.len() != 1 {
                        End::Fail(
                            says(
                                name.0.loc,
                                "This function should have &"@ + show.sname.0.value@
                                    + " as the only parameter"@,
                            ),
                        )
                    } else {
                        shown_parameter_verdict(name, parameters[0].1, show, module)
                    },
                    other => other,
                }
            }
        },
    }
}

/// The verdict on the first show from the one at `i` on that does not pass.
pub open spec fn shows_verdict_from(
    functions: Seq<(FunctionName, Function)>,
    ctx: ContextView,
    i: int,
) -> End
    decreases ctx.module_shows.len() - i,
{
    if 0 <= i < ctx.module_shows.len() {
        match show_verdict(functions, ctx.module_shows[i], ctx.current_module) {
            End::Done => shows_verdict_from(functions, ctx, i + 1),
            other => other,
        }
    } else {
        End::Done
    }
}

/// The verdict on the shows of the current module.
pub open spec fn shows_verdict(functions: Seq<(FunctionName, Function)>, ctx: ContextView) -> End {
    shows_verdict_from(functions, ctx, 0)
}

fn check_type_parameters(
    of_struct: &Vec<StructTypeParameter>,
    of_function: &Vec<TParam>,
) -> (r: WriteResult)
    requires
        of_struct.len() == of_function.len(),
    ensures
        end_of(r) == type_parameters_verdict(of_struct@, of_function@, 0),
{
    let mut idx: usize = 0;
    while idx < of_function.len()
        invariant
            idx <= of_function.len() == of_struct.len(),
            type_parameters_verdict(of_struct@, of_function@, 0) == type_parameters_verdict(
                of_struct@,
                of_function@,
                idx as int,
            ),
        decreases of_function.len() - idx,
    {
        let tparam = &of_function[idx];
        if !is_same_name(&of_struct[idx].param.user_specified_name, &tparam.user_specified_name) {
            return Err(derr(tparam.user_specified_name.loc, "Mismatched type parameters"));
        }
        idx = idx + 1;
    }
    Ok(())
}

fn check_type_arguments(
    of_struct: &Vec<StructTypeParameter>,
    targs: &Vec<BaseType>,
) -> (r: WriteResult)
    requires
        !(type_arguments_verdict(of_struct@, targs@, 0) is Stuck),
    ensures
        end_of(r) == type_arguments_verdict(of_struct@, targs@, 0),
{
    let mut idx: usize = 0;
    while idx < targs.len()
        invariant
            idx <= targs.len(),
            !(type_arguments_verdict(of_struct@, targs@, 0) is Stuck),
            type_arguments_verdict(of_struct@, targs@, 0) == type_arguments_verdict(
                of_struct@,
                targs@,
                idx as int,
            ),
        decreases targs.len() - idx,
    {
        let tparam = &targs[idx];
        match &tparam.value {
            BaseType_::Param(tp) => {
                if !is_same_name(
                    &of_struct[idx].param.user_specified_name,
                    &tp.user_specified_name,
                ) {
                    return Err(derr(tparam.loc, "Mismatched type parameters"));
                }
            },
            _ => {
                return Err(derr(tparam.loc, "Mismatched type parameters"));
            },
        }
        idx = idx + 1;
    }
    Ok(())
}

fn validate_show(
    functions: &Vec<(FunctionName, Function)>,
    show: &Show,
    current_module: Option<&ModuleIdent>,
) -> (r: WriteResult)
    requires
        !(show_verdict(
            functions@,
            show@,
            match current_module {
                Some(m) => Some(*m),
                None => None,
            },
        ) is Stuck),
    ensures
        end_of(r) == show_verdict(
            functions@,
            show@,
            match current_module {
                Some(m) => Some(*m),
                None => None,
            },
        ),
{
    let mut i: usize = 0;
    while i < functions.len() && !is_same_name(&functions[i].0.0, show.fname)
        invariant
            i <= functions.len(),
            find_function(functions@, *show.fname, 0) == find_function(
                functions@,
                *show.fname,
                i as int,
            ),
        decreases functions.len() - i,
    {
        i = i + 1;
    }
    if i == functions.len() {
        return Err(derr(show.fname.loc, "This function does not exist in current module"));
    }
    let name = &functions[i].0;
    let sig = &functions[i].1.signature;
    let sname = show.sname.0.value.as_str();
    let err: WriteResult = Err(
        derr(
            name.0.loc,
            cat3("This function should have &", sname, " as the only parameter").as_str(),
        ),
    );
    // it has the type parameters of the struct
    if sig.type_parameters.len() != show.sdef.type_parameters.len() {
        return Err(
            derr(
                name.0.loc,
                cat2("This function should have the same type parameters as ", sname).as_str(),
            ),
        );
    }
    check_type_parameters(&show.sdef.type_parameters, &sig.type_parameters)?;
    // it has a single parameter, a reference to the struct
    if sig.parameters.len() != 1 {
        return err;
    }
    let base = match &sig.parameters[0].1.value {
        SingleType_::Ref(_, b) => b,
        SingleType_::Base(_) => {
            return err;
        },
    };
    if let BaseType_::Apply(_, typename, targs) = &base.value {
        match &typename.value {
            TypeName_::ModuleType(mi, sname2) => {
                if is_same_module(current_module.unwrap(), mi) && is_same_name(
                    &show.sname.0,
                    &sname2.0,
                ) {
                    // the type parameters stand in the right order
                    check_type_arguments(&show.sdef.type_parameters, targs)
                } else {
                    err
                }
            },
            _ => err,
        }
    } else {
        err
    }
}

/// Holds the shows of the current module against its functions.
pub fn validate_show_functions(
    functions: &Vec<(FunctionName, Function)>,
    c: &Context,
) -> (r: WriteResult)
    requires
        !(shows_verdict(functions@, c@) is Stuck),
    ensures
        end_of(r) == shows_verdict(functions@, c@),
{
    let mut i: usize = 0;
    while i < c.module_shows.len()
        invariant
            i <= c.module_shows.len(),
            !(shows_verdict(functions@, c@) is Stuck),
            shows_verdict(functions@, c@) == shows_verdict_from(functions@, c@, i as int),
        decreases c.module_shows.len() - i,
    {
        assert(c@.module_shows[i as int] == c.module_shows@[i as int]@);
        validate_show(functions, &c.module_shows[i], c.current_module)?;
        i = i + 1;
    }
    Ok(())
}

} // verus!
