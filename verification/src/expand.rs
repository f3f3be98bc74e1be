//! The rewriting of an annotated test function: which test attribute it gets,
//! with which arguments the logging is set up before its body runs, and what
//! of the function is handed on untouched.
//!
//! The function is seen through a model that keeps its parts apart and
//! carries their tokens along as values of the caller's type `T`. The parts
//! are moved, never inspected, so what comes out holds the very tokens that
//! went in.

use crate::args::{parsed, AttributeError, MacroArgs, MacroArgsView, Meta};
use crate::text::text_eq;
use vstd::prelude::*;

verus! {

/// An attribute on the function: the identifiers of its path, and its tokens.
#[derive(Clone, Debug, PartialEq, Eq)]
pub struct Attribute<T> {
    /// The identifiers of the path's segments, in order: `tokio`, `test` for
    /// `#[tokio::test]`.
    pub path: Vec<String>,
    /// The attribute as written.
    pub tokens: T,
}

/// The annotated function, part by part.
#[derive(Clone, Debug, PartialEq, Eq)]
pub struct ItemFn<T> {
    /// The attributes that stand on the function besides this one.
    pub attrs: Vec<Attribute<T>>,
    /// The visibility.
    pub vis: T,
    /// The signature: name, generics, parameters, return type.
    pub sig: T,
    /// The body.
    pub block: T,
}

/// The test attribute to put in front of the function.
#[derive(Clone, Debug, PartialEq, Eq)]
pub enum TestAttribute<T> {
    /// `#[<tokens>]`, the inner test attribute that the arguments name.
    Inner(T),
    /// `#[::core::prelude::v1::test]`, the test attribute of the language.
    Builtin,
}

/// The arguments of the call that sets the logging up.
#[derive(Clone, Debug, PartialEq, Eq)]
pub struct InitCall {
    /// The default log filter, where the attribute gives one.
    pub env_filter_arg: Option<String>,
    /// The color choice, where the attribute makes one.
    pub with_ansi_arg: Option<bool>,
}

/// [`InitCall`] with its filter as a sequence of characters.
pub struct InitCallView {
    pub env_filter_arg: Option<Seq<char>>,
    pub with_ansi_arg: Option<bool>,
}

impl View for InitCall {
    type V = InitCallView;

    open spec fn view(&self) -> InitCallView {
        InitCallView {
            env_filter_arg: match self.env_filter_arg {
                Some(filter) => Some(filter@),
                None => None,
            },
            with_ansi_arg: self.with_ansi_arg,
        }
    }
}

/// The function to compile in place of the annotated one: the test attribute
/// if one is to be added, the attributes, visibility and signature of the
/// annotated function, and a body that makes the set-up call and then runs the
/// annotated function's body.
#[derive(Clone, Debug, PartialEq, Eq)]
pub struct GeneratedFunction<T> {
    /// The test attribute to add, if any.
    pub test_attr: Option<TestAttribute<T>>,
    /// The attributes of the annotated function.
    pub attrs: Vec<Attribute<T>>,
    /// The visibility of the annotated function.
    pub vis: T,
    /// The signature of the annotated function.
    pub sig: T,
    /// The set-up call that opens the body.
    pub init: InitCall,
    /// The body of the annotated function, which follows the set-up call.
    pub block: T,
}

/// Whether the path of an attribute ends in `test`.
pub open spec fn is_test_path(path: Seq<String>) -> bool {
    path.len() > 0 && path.last()@ == "test"@
}

/// Whether one of the attributes is a test attribute.
pub open spec fn has_test_attribute<T>(attrs: Seq<Attribute<T>>) -> bool {
    exists|i: int| 0 <= i < attrs.len() && is_test_path(#[trigger] attrs[i].path@)
}

/// The test attribute to add. A named inner test attribute is always added.
/// Without one, the test attribute of the language is added unless the
/// function carries a test attribute already.
pub open spec fn test_attribute<T>(inner_test: Option<T>, attrs: Seq<Attribute<T>>) -> Option<
    TestAttribute<T>,
> {
    match inner_test {
        Some(tokens) => Some(TestAttribute::Inner(tokens)),
        None => if has_test_attribute(attrs) {
            None
        } else {
            Some(TestAttribute::Builtin)
        },
    }
}

/// Whether the attribute marks a test: whether the last segment of its path is
/// `test`, as in `#[test]` and `#[tokio::test]`.
pub fn is_test_attribute<T>(attribute: &Attribute<T>) -> (marks: bool)
    ensures
        marks == is_test_path(attribute.path@),
{
    let segments = attribute.path.len();
    segments > 0 && text_eq(attribute.path[segments - 1].as_str(), "test")
}

/// The test attribute to put in front of the function. The inner test
/// attribute that the arguments name comes first; without one the function
/// gets the test attribute of the language, unless one of its own attributes
/// marks it as a test already, in which case nothing is added.
pub fn extract_test_attribute<T>(inner_test: Option<T>, attrs: &Vec<Attribute<T>>) -> (test_attr:
    Option<TestAttribute<T>>)
    ensures
        test_attr == test_attribute(inner_test, attrs@),
{
    match inner_test {
        Some(tokens) => Some(TestAttribute::Inner(tokens)),
        None => {
            let mut at: usize = 0;
            while at < attrs.len()
                invariant
                    inner_test is None,
                    at <= attrs.len(),
                    forall|i: int| 0 <= i < at ==> !is_test_path(#[trigger] attrs@[i].path@),
                decreases attrs.len() - at,
            {
                if is_test_attribute(&attrs[at]) {
                    return None;
                }
                at = at + 1;
            }
            Some(TestAttribute::Builtin)
        },
    }
}

/// The set-up call for a function: it is handed the default log filter and the
/// color choice of the attribute as they stand, each of them or its absence,
/// so that the environment is asked only for what the attribute leaves open.
pub fn expand_tracing_init(default_log_filter: Option<String>, color: Option<bool>) -> (init:
    InitCall)
    ensures
        init.env_filter_arg == default_log_filter,
        init.with_ansi_arg == color,
{
    InitCall { env_filter_arg: default_log_filter, with_ansi_arg: color }
}

/// What the rewriting makes of a function under arguments that parsed to
/// `args`.
pub open spec fn rewritten<T>(
    args: MacroArgsView<T>,
    input: ItemFn<T>,
    output: GeneratedFunction<T>,
) -> bool {
    &&& output.test_attr == test_attribute(args.inner_test, input.attrs@)
    &&& output.attrs == input.attrs
    &&& output.vis == input.vis
    &&& output.sig == input.sig
    &&& output.block == input.block
    &&& output.init@.env_filter_arg == args.default_log_filter
    &&& output.init@.with_ansi_arg == args.color
}

/// Rewrites an annotated function. The arguments are parsed first, and their
/// first diagnostic is the only way to fail. Otherwise the function comes back
/// with its attributes, visibility, signature and body as they were, with the
/// test attribute that [`extract_test_attribute`] picks, and with a set-up call
/// that carries the attribute's default log filter and color choice.
pub fn try_test<T>(punctuated_args: Vec<Meta<T>>, input: ItemFn<T>) -> (output: Result<
    GeneratedFunction<T>,
    AttributeError,
>)
    ensures
        match parsed(punctuated_args@) {
            Ok(args) => output matches Ok(function) && rewritten(args, input, function),
            Err(error) => output matches Err(found) && found@ == error,
        },
{
    let macro_args = match MacroArgs::from_punctuated(punctuated_args) {
        Ok(macro_args) => macro_args,
        Err(error) => {
            return Err(error);
        },
    };
    let MacroArgs { inner_test, default_log_filter, color } = macro_args;
    let ItemFn { attrs, vis, sig, block } = input;
    let test_attr = extract_test_attribute(inner_test, &attrs);
    let init = expand_tracing_init(default_log_filter, color);
    Ok(GeneratedFunction { test_attr, attrs, vis, sig, init, block })
}

} // verus!
