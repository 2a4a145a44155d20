//! The whole pipeline: from a source text to its value and type.

use vstd::prelude::*;
use vstd::string::StringExecFns;
use crate::compiler::{compile, emit, ExprPos, Scope};
use crate::name_analysis::{resolve, resolve_names, undefined_name, Context, Progress, Resolution};
use crate::parser::{parse, parsed, syntax_error_message};
use crate::runtime::semantics::{fault_message, initial, outcome, ValueView};
use crate::runtime::{run, value_text, Value};
use crate::type_checking::{type_error_message, type_of, type_of_program};
use crate::types::{type_text, Type, TypeView};

verus! {

/// A value with its type, or an error message.
pub type EvalResult = Result<(Value, Type), String>;

/// The value and the type of the program with the text `src`, or the
/// message of the first stage that fails: parsing, type checking, name
/// resolution, and the run of the compiled program.
pub open spec fn evaluated(src: Seq<char>) -> Result<(ValueView, TypeView), Seq<char>> {
    match parsed(src) {
        Err(error) => Err(syntax_error_message(error)),
        Ok(program) => match type_of(program, Seq::empty()) {
            Err(error) => Err(type_error_message(error)),
            Ok(program_type) => match resolve(program, Context::outermost(), Progress::start()) {
                Resolution::Undefined { name } => Err(undefined_name(name)),
                Resolution::Resolved { expr, .. } => match outcome(
                    emit(expr, Scope::Global, ExprPos::Tail, 0),
                    initial(),
                    u64::MAX as nat,
                ) {
                    Err(fault) => Err(fault_message(fault)),
                    Ok(value) => Ok((value, program_type)),
                },
            },
        },
    }
}

/// Evaluates the program with the text `src`.
pub fn eval(src: &str) -> (result: EvalResult)
    requires
        src@.len() < usize::MAX,
    ensures
        match evaluated(src@) {
            Ok((value, program_type)) => result matches Ok((found, found_type)) && found@
                == value && found_type@ == program_type,
            Err(expected) => result matches Err(message) && message@ == expected,
        },
{
    let program = parse(src)?;
    let program_type = type_of_program(&program)?;
    let nameless_program = resolve_names(&program)?;
    let compiled_program = compile(&nameless_program)?;
    let value = run(compiled_program.as_slice())?;
    Ok((value, program_type))
}

/// What a result is reported as: the value and its type, each on a line of
/// its own; or the error, after `error: `, on one line.
pub open spec fn report_text(result: Result<(ValueView, TypeView), Seq<char>>) -> Result<
    Seq<char>,
    Seq<char>,
> {
    match result {
        Ok((value, program_type)) => Ok(
            value_text(value) + "\n"@ + type_text(program_type) + "\n"@,
        ),
        Err(message) => Err("error: "@ + message + "\n"@),
    }
}

/// The report of a result: `Ok` is meant for the standard output, `Err`
/// for the standard error.
pub fn report(result: &EvalResult) -> (text: Result<String, String>)
    ensures
        match result {
            Ok((value, program_type)) => text matches Ok(shown) && Ok::<Seq<char>, Seq<char>>(
                shown@,
            ) == report_text(Ok((value@, program_type@))),
            Err(message) => text matches Err(shown) && Err::<Seq<char>, Seq<char>>(shown@)
                == report_text(Err(message@)),
        },
{
    match result {
        Ok((value, program_type)) => {
            let mut text = value.to_string();
            text.append("\n");
            text.append(program_type.to_string().as_str());
            text.append("\n");
            Ok(text)
        },
        Err(e) => {
            let mut text = String::from_str("error: ");
            text.append(e.as_str());
            text.append("\n");
            Err(text)
        },
    }
}

} // verus!
