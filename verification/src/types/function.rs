//! Functions: the TypeScript function type of a Rust `fn`, whose arguments
//! become a struct of their own.
use vstd::prelude::*;

use crate::attr::fn_attr::Args;
use crate::text::{brace_trimmed, push_str, replace_all, replaced, string_from, trim_braces};
use crate::utils::{strip_raw_prefix, to_ts_ident};

verus! {

/// The value of Inflector's `to_pascal_case`.
pub uninterp spec fn inflector_pascal_case(s: Seq<char>) -> Seq<char>;

/// Calls Inflector's `to_pascal_case`, a function of its argument alone; the
/// result is named above.
#[verifier::external_body]
fn to_pascal_case(s: &str) -> (r: String)
    ensures
        r@ == inflector_pascal_case(s@),
{
    inflector::cases::pascalcase::to_pascal_case(s)
}

/// The TypeScript name of a function: its rename, else its identifier
/// without `r#`, in PascalCase.
pub open spec fn fn_ts_name_spec(rename: Option<Seq<char>>, ident: Seq<char>) -> Seq<char> {
    inflector_pascal_case(
        match rename {
            Some(r) => r,
            None => strip_raw_prefix(ident),
        },
    )
}

/// Computes the TypeScript name of a function.
pub fn fn_ts_name(rename: Option<&str>, ident: &str) -> (r: String)
    ensures
        r@ == fn_ts_name_spec(
            match rename {
                Some(x) => Some(x@),
                None => None,
            },
            ident@,
        ),
{
    let base = match rename {
        Some(r) => string_from(r),
        None => to_ts_ident(ident),
    };
    to_pascal_case(base.as_str())
}

/// The name of the struct that holds a function's arguments: the
/// function's identifier in PascalCase, then `Args`.
pub open spec fn args_struct_name_spec(ident: Seq<char>) -> Seq<char> {
    inflector_pascal_case(ident) + "Args"@
}

/// Computes the name of the struct that holds a function's arguments.
pub fn args_struct_name(ident: &str) -> (r: String)
    ensures
        r@ == args_struct_name_spec(ident@),
{
    let mut s = to_pascal_case(ident);
    push_str(&mut s, "Args");
    s
}

/// A `self` parameter, which functions given to TypeScript cannot have.
#[derive(Copy, Clone, Debug, PartialEq, Eq, Structural)]
pub struct SelfParameter;

impl SelfParameter {
    /// The text that reports this error.
    pub fn message(&self) -> (r: &'static str)
        ensures
            r@ == "self parameter is not allowed"@,
    {
        "self parameter is not allowed"
    }
}

/// Refuses a parameter list that has a `self` parameter.
pub fn check_params(is_receiver: &Vec<bool>) -> (r: Result<(), SelfParameter>)
    ensures
        r is Ok <==> forall|i: int| 0 <= i < is_receiver@.len() ==> !is_receiver@[i],
{
    let mut i: usize = 0;
    while i < is_receiver.len()
        invariant
            i <= is_receiver@.len(),
            forall|j: int| 0 <= j < i ==> !is_receiver@[j],
        decreases is_receiver@.len() - i,
    {
        if is_receiver[i] {
            return Err(SelfParameter);
        }
        i = i + 1;
    }
    Ok(())
}

/// The TypeScript return type: `void` without a return type, the return
/// type's name otherwise, in `Promise<..>` for an `async fn`.
pub open spec fn return_text(is_async: bool, ret: Option<Seq<char>>) -> Seq<char> {
    match (is_async, ret) {
        (false, None) => "void"@,
        (true, None) => "Promise<void>"@,
        (false, Some(t)) => t,
        (true, Some(t)) => "Promise<"@ + t + seq!['>'],
    }
}

/// Writes the TypeScript return type.
pub fn format_return(is_async: bool, ret: Option<&str>) -> (r: String)
    ensures
        r@ == return_text(
            is_async,
            match ret {
                Some(x) => Some(x@),
                None => None,
            },
        ),
{
    match (is_async, ret) {
        (false, None) => string_from("void"),
        (true, None) => string_from("Promise<void>"),
        (false, Some(t)) => string_from(t),
        (true, Some(t)) => {
            let mut s = string_from("Promise<");
            push_str(&mut s, t);
            push_str(&mut s, ">");
            proof {
                reveal_strlit(">");
            }
            s
        },
    }
}

/// What a function's arguments become: `None` for a function without
/// arguments, else the argument struct's inline type (for `Inlined`) or its
/// flattened type (for `Flattened`).
pub enum ArgsText {
    NoArgs,
    Struct { args: Args, text: String },
}

/// The function type: `(args: <struct>) => <ret>` for inlined arguments,
/// `(<fields>) => <ret>` for flattened ones (the flattened struct without its
/// braces and the spaces round them, its fields separated by `, ` in place of
/// `; `), `() => <ret>` without arguments.
pub open spec fn fn_inline_text(args: Option<(Args, Seq<char>)>, ret: Seq<char>) -> Seq<char> {
    match args {
        None => "() => "@ + ret,
        Some((Args::Inlined, t)) => "(args: "@ + t + ") => "@ + ret,
        Some((Args::Flattened, t)) => seq!['('] + replaced(brace_trimmed(t), "; "@, ", "@) + ") => "@ + ret,
    }
}

/// The arguments struct of a function, by its attributes and the text of its declaration; nothing for a function without arguments.
pub open spec fn args_view(a: ArgsText) -> Option<(Args, Seq<char>)> {
    match a {
        ArgsText::NoArgs => None,
        ArgsText::Struct { args, text } => Some((args, text@)),
    }
}

/// Writes the TypeScript function type.
pub fn fn_inline(args: &ArgsText, ret: &str) -> (r: String)
    ensures
        r@ == fn_inline_text(args_view(*args), ret@),
{
    match args {
        ArgsText::NoArgs => {
            let mut s = string_from("() => ");
            push_str(&mut s, ret);
            s
        },
        ArgsText::Struct { args: Args::Inlined, text } => {
            let mut s = string_from("(args: ");
            push_str(&mut s, text.as_str());
            push_str(&mut s, ") => ");
            push_str(&mut s, ret);
            s
        },
        ArgsText::Struct { args: Args::Flattened, text } => {
            let mut s = string_from("(");
            let trimmed = trim_braces(text.as_str());
            proof {
                reveal_strlit("; ");
            }
            let inner = replace_all(trimmed.as_str(), "; ", ", ");
            push_str(&mut s, inner.as_str());
            push_str(&mut s, ") => ");
            push_str(&mut s, ret);
            proof {
                reveal_strlit("(");
                assert(s@ =~= fn_inline_text(args_view(*args), ret@));
            }
            s
        },
    }
}

} // verus!
