//! The arguments of the test attribute: an optional leading path that names
//! the inner test attribute to attach, followed by `name = value` pairs for
//! `default_log_filter` (a string) and `color` (a bool).
//!
//! The parser works on a model of the argument list that keeps what it reads
//! of each argument, and carries the tokens of a path along as a value of the
//! caller's type `T`.

use crate::text::text_eq;
use vstd::prelude::*;
use vstd::string::*;

verus! {

/// The value of a `name = value` argument.
#[derive(Clone, Debug, PartialEq, Eq)]
pub enum Value {
    /// A string literal and what it holds.
    Str(String),
    /// A bool literal.
    Bool(bool),
    /// Any other expression.
    Other,
}

/// One argument of the attribute.
#[derive(Clone, Debug, PartialEq, Eq)]
pub enum Meta<T> {
    /// A bare path such as `tokio::test`, with its tokens.
    Path(T),
    /// A path followed by a delimited list, such as `cfg(test)`.
    List,
    /// A path, `=` and a value. `name` is the path where it is a single
    /// identifier, and `None` where it is longer.
    NameValue { name: Option<String>, value: Value },
}

/// The part of an argument that a diagnostic points at.
#[derive(Clone, Copy, Debug, PartialEq, Eq, Structural)]
pub enum ErrorSite {
    /// The path that begins the argument.
    Path,
    /// The opening delimiter of a list.
    Delimiter,
    /// The value after the `=`.
    Value,
}

/// What is wrong with an argument.
#[derive(Clone, Debug, PartialEq, Eq)]
pub enum ErrorKind {
    /// The argument is not of the form `name = value`.
    ExpectedNameValue,
    /// The argument's name is this, which is none of the known ones.
    UnrecognizedAttribute { name: String },
    /// The value of `default_log_filter` is no string literal.
    ExpectedString,
    /// The value of `color` is no bool literal.
    ExpectedBool,
}

/// [`ErrorKind`] with its name as a sequence of characters.
pub enum ErrorKindView {
    ExpectedNameValue,
    UnrecognizedAttribute { name: Seq<char> },
    ExpectedString,
    ExpectedBool,
}

impl View for ErrorKind {
    type V = ErrorKindView;

    open spec fn view(&self) -> ErrorKindView {
        match *self {
            ErrorKind::ExpectedNameValue => ErrorKindView::ExpectedNameValue,
            ErrorKind::UnrecognizedAttribute { name } => ErrorKindView::UnrecognizedAttribute {
                name: name@,
            },
            ErrorKind::ExpectedString => ErrorKindView::ExpectedString,
            ErrorKind::ExpectedBool => ErrorKindView::ExpectedBool,
        }
    }
}

impl ErrorKindView {
    /// The text of the diagnostic.
    pub open spec fn message(self) -> Seq<char> {
        match self {
            ErrorKindView::ExpectedNameValue =>
                "Expected NameValue syntax, e.g. 'default_log_filter = \"debug\"'."@,
            ErrorKindView::UnrecognizedAttribute { .. } =>
                "Unrecognized attribute, see documentation for details."@,
            ErrorKindView::ExpectedString => "Failed to parse value, expected a string"@,
            ErrorKindView::ExpectedBool => "Failed to parse value, expected a bool"@,
        }
    }
}

/// A diagnostic for the argument list: which argument, which part of it, and
/// what is wrong there.
#[derive(Clone, Debug, PartialEq, Eq)]
pub struct AttributeError {
    /// The position of the argument in the list, counted from 0.
    pub index: usize,
    /// The part of the argument to point at.
    pub site: ErrorSite,
    /// What is wrong there.
    pub kind: ErrorKind,
}

/// [`AttributeError`] with its kind as its view.
pub struct AttributeErrorView {
    pub index: int,
    pub site: ErrorSite,
    pub kind: ErrorKindView,
}

impl View for AttributeError {
    type V = AttributeErrorView;

    open spec fn view(&self) -> AttributeErrorView {
        AttributeErrorView { index: self.index as int, site: self.site, kind: self.kind@ }
    }
}

impl AttributeError {
    /// The text of the diagnostic.
    pub fn message(&self) -> (message: String)
        ensures
            message@ == self@.kind.message(),
    {
        match &self.kind {
            ErrorKind::ExpectedNameValue => String::from_str(
                "Expected NameValue syntax, e.g. 'default_log_filter = \"debug\"'.",
            ),
            ErrorKind::UnrecognizedAttribute { .. } => String::from_str(
                "Unrecognized attribute, see documentation for details.",
            ),
            ErrorKind::ExpectedString => String::from_str(
                "Failed to parse value, expected a string",
            ),
            ErrorKind::ExpectedBool => String::from_str("Failed to parse value, expected a bool"),
        }
    }
}

/// What the attribute's arguments ask for.
#[derive(Clone, Debug, PartialEq, Eq)]
pub struct MacroArgs<T> {
    /// The tokens of the inner test attribute to attach, where one is named.
    pub inner_test: Option<T>,
    /// The filter directive to fall back on where `RUST_LOG` gives none.
    pub default_log_filter: Option<String>,
    /// Whether to write colors, where the attribute settles it.
    pub color: Option<bool>,
}

/// [`MacroArgs`] with its filter as a sequence of characters.
pub struct MacroArgsView<T> {
    pub inner_test: Option<T>,
    pub default_log_filter: Option<Seq<char>>,
    pub color: Option<bool>,
}

impl<T> View for MacroArgs<T> {
    type V = MacroArgsView<T>;

    open spec fn view(&self) -> MacroArgsView<T> {
        MacroArgsView {
            inner_test: self.inner_test,
            default_log_filter: match self.default_log_filter {
                Some(filter) => Some(filter@),
                None => None,
            },
            color: self.color,
        }
    }
}

/// What is wrong with `arg` as a `name = value` argument: nothing where it
/// sets `default_log_filter` to a string or `color` to a bool.
pub open spec fn name_value_error<T>(arg: Meta<T>) -> Option<(ErrorSite, ErrorKindView)> {
    match arg {
        Meta::Path(_) => Some((ErrorSite::Path, ErrorKindView::ExpectedNameValue)),
        Meta::List => Some((ErrorSite::Delimiter, ErrorKindView::ExpectedNameValue)),
        Meta::NameValue { name: None, .. } => Some(
            (ErrorSite::Path, ErrorKindView::ExpectedNameValue),
        ),
        Meta::NameValue { name: Some(name), value } => if name@ == "default_log_filter"@ {
            if value is Str {
                None
            } else {
                Some((ErrorSite::Value, ErrorKindView::ExpectedString))
            }
        } else if name@ == "color"@ {
            if value is Bool {
                None
            } else {
                Some((ErrorSite::Value, ErrorKindView::ExpectedBool))
            }
        } else {
            Some((ErrorSite::Path, ErrorKindView::UnrecognizedAttribute { name: name@ }))
        },
    }
}

/// The diagnostic for the first argument at or after `from` with which
/// something is wrong.
pub open spec fn first_error<T>(args: Seq<Meta<T>>, from: int) -> Option<AttributeErrorView>
    decreases args.len() - from,
{
    if from < 0 || from >= args.len() {
        None
    } else {
        match name_value_error(args[from]) {
            Some((site, kind)) => Some(AttributeErrorView { index: from, site, kind }),
            None => first_error(args, from + 1),
        }
    }
}

/// The default log filter once `args` are read: that of the last argument
/// that sets one, or else `filter`.
pub open spec fn last_log_filter<T>(filter: Option<Seq<char>>, args: Seq<Meta<T>>) -> Option<
    Seq<char>,
>
    decreases args.len(),
{
    if args.len() == 0 {
        filter
    } else {
        match args.last() {
            Meta::NameValue { name: Some(name), value: Value::Str(text) } => if name@
                == "default_log_filter"@ {
                Some(text@)
            } else {
                last_log_filter(filter, args.drop_last())
            },
            _ => last_log_filter(filter, args.drop_last()),
        }
    }
}

/// The color choice once `args` are read: that of the last argument that
/// makes one, or else `color`.
pub open spec fn last_color<T>(color: Option<bool>, args: Seq<Meta<T>>) -> Option<bool>
    decreases args.len(),
{
    if args.len() == 0 {
        color
    } else {
        match args.last() {
            Meta::NameValue { name: Some(name), value: Value::Bool(chosen) } => if name@
                == "color"@ {
                Some(chosen)
            } else {
                last_color(color, args.drop_last())
            },
            _ => last_color(color, args.drop_last()),
        }
    }
}

/// `before` once the `name = value` arguments `args` are read: each of them
/// overwrites what an earlier one set.
pub open spec fn updated<T>(before: MacroArgsView<T>, args: Seq<Meta<T>>) -> MacroArgsView<T> {
    MacroArgsView {
        inner_test: before.inner_test,
        default_log_filter: last_log_filter(before.default_log_filter, args),
        color: last_color(before.color, args),
    }
}

/// Whether the list begins with the path of an inner test attribute.
pub open spec fn names_inner_test<T>(args: Seq<Meta<T>>) -> bool {
    args.len() > 0 && args[0] is Path
}

/// What the parser makes of the whole argument list. A path in the first
/// place names the inner test attribute; everything after it has to be
/// `name = value`, and the first argument that is not is the error.
pub open spec fn parsed<T>(args: Seq<Meta<T>>) -> Result<MacroArgsView<T>, AttributeErrorView> {
    let start: int = if names_inner_test(args) {
        1
    } else {
        0
    };
    match first_error(args, start) {
        Some(error) => Err(error),
        None => Ok(
            MacroArgsView {
                inner_test: if names_inner_test(args) {
                    Some(args[0]->Path_0)
                } else {
                    None
                },
                default_log_filter: last_log_filter(None, args),
                color: last_color(None, args),
            },
        ),
    }
}

/// The result of the parser seen as its view.
pub open spec fn parsed_view<T>(result: Result<MacroArgs<T>, AttributeError>) -> Result<
    MacroArgsView<T>,
    AttributeErrorView,
> {
    match result {
        Ok(args) => Ok(args@),
        Err(error) => Err(error@),
    }
}

/// The diagnostic for an argument that is not of the form `name = value`.
pub fn map_name_value_error(index: usize, site: ErrorSite) -> (error: AttributeError)
    ensures
        error@ == (AttributeErrorView {
            index: index as int,
            site,
            kind: ErrorKindView::ExpectedNameValue,
        }),
{
    AttributeError { index, site, kind: ErrorKind::ExpectedNameValue }
}

/// The text of a string literal, or that a string was expected.
pub fn require_lit_str(value: Value) -> (text: Result<String, ErrorKind>)
    ensures
        match value {
            Value::Str(held) => text == Ok::<String, ErrorKind>(held),
            _ => text == Err::<String, ErrorKind>(ErrorKind::ExpectedString),
        },
{
    match value {
        Value::Str(held) => Ok(held),
        _ => Err(ErrorKind::ExpectedString),
    }
}

/// The value of a bool literal, or that a bool was expected.
pub fn require_lit_bool(value: &Value) -> (chosen: Result<bool, ErrorKind>)
    ensures
        match *value {
            Value::Bool(held) => chosen == Ok::<bool, ErrorKind>(held),
            _ => chosen == Err::<bool, ErrorKind>(ErrorKind::ExpectedBool),
        },
{
    match value {
        Value::Bool(held) => Ok(*held),
        _ => Err(ErrorKind::ExpectedBool),
    }
}

/// Leaving out a first argument moves every later diagnostic one place down.
pub proof fn lemma_first_error_after_first<T>(args: Seq<Meta<T>>, from: int)
    requires
        args.len() > 0,
        0 <= from,
    ensures
        match first_error(args, from + 1) {
            Some(error) => first_error(args.drop_first(), from) == Some(
                AttributeErrorView { index: error.index - 1, site: error.site, kind: error.kind },
            ),
            None => first_error(args.drop_first(), from) is None,
        },
    decreases args.len() - from,
{
    let rest = args.drop_first();
    if from + 1 < args.len() {
        assert(rest[from] == args[from + 1]);
        if name_value_error(args[from + 1]) is None {
            lemma_first_error_after_first(args, from + 1);
        }
    }
}

/// A first argument that is a bare path sets nothing.
pub proof fn lemma_path_sets_nothing<T>(
    filter: Option<Seq<char>>,
    color: Option<bool>,
    args: Seq<Meta<T>>,
)
    requires
        names_inner_test(args),
    ensures
        last_log_filter(filter, args) == last_log_filter(filter, args.drop_first()),
        last_color(color, args) == last_color(color, args.drop_first()),
    decreases args.len(),
{
    if args.len() == 1 {
        assert(args.drop_last() =~= args.drop_first());
    } else {
        assert(args.drop_last().drop_first() =~= args.drop_first().drop_last());
        assert(args.drop_first().last() == args.last());
        lemma_path_sets_nothing(filter, color, args.drop_last());
    }
}

impl<T> MacroArgs<T> {
    /// Reads the whole argument list. A path in the first place names the
    /// inner test attribute. Every argument after it has to set
    /// `default_log_filter` to a string or `color` to a bool, in any order;
    /// where one of the two is set more than once the last one counts. The
    /// first argument that does neither is the error.
    pub fn from_punctuated(punctuated: Vec<Meta<T>>) -> (args: Result<Self, AttributeError>)
        ensures
            parsed_view(args) == parsed(punctuated@),
    {
        let ghost all = punctuated@;
        assert(all.len() == punctuated.len());
        let mut new_self = MacroArgs { inner_test: None, default_log_filter: None, color: None };
        let mut rest = punctuated;
        new_self.parse_inner_test(&mut rest);
        let named = new_self.inner_test.is_some();
        proof {
            if names_inner_test(all) {
                lemma_first_error_after_first(all, 0);
                lemma_path_sets_nothing(None, None, all);
            }
        }
        match new_self.parse_name_value_args(rest) {
            Ok(()) => Ok(new_self),
            Err(error) => {
                if named {
                    Err(
                        AttributeError {
                            index: error.index + 1,
                            site: error.site,
                            kind: error.kind,
                        },
                    )
                } else {
                    Err(error)
                }
            },
        }
    }

    /// Takes a bare path off the front of the list as the inner test
    /// attribute. Where the list begins with anything else, or is empty, there
    /// is no inner test attribute and the list stays as it is.
    pub fn parse_inner_test(&mut self, punctuated: &mut Vec<Meta<T>>)
        ensures
            final(self).default_log_filter == old(self).default_log_filter,
            final(self).color == old(self).color,
            names_inner_test(old(punctuated)@) ==> final(self).inner_test == Some(
                old(punctuated)@[0]->Path_0,
            ) && final(punctuated)@ == old(punctuated)@.drop_first(),
            !names_inner_test(old(punctuated)@) ==> final(self).inner_test is None
                && final(punctuated)@ == old(punctuated)@,
    {
        let leads = punctuated.len() > 0 && match &punctuated[0] {
            Meta::Path(_) => true,
            _ => false,
        };
        if leads {
            let first = punctuated.remove(0);
            assert(punctuated@ =~= old(punctuated)@.drop_first());
            match first {
                Meta::Path(tokens) => {
                    self.inner_test = Some(tokens);
                },
                _ => {
                    self.inner_test = None;
                },
            }
        } else {
            self.inner_test = None;
        }
    }

    /// Reads `name = value` arguments one after the other. Each sets its field,
    /// over what an earlier one set. At the first argument that is not
    /// `default_log_filter` with a string or `color` with a bool the reading
    /// stops with its diagnostic, and the fields hold what was set before it.
    pub fn parse_name_value_args(&mut self, punctuated: Vec<Meta<T>>) -> (done: Result<
        (),
        AttributeError,
    >)
        ensures
            match first_error(punctuated@, 0) {
                None => done is Ok && final(self)@ == updated(old(self)@, punctuated@),
                Some(error) => done matches Err(found) && found@ == error && final(self)@
                    == updated(old(self)@, punctuated@.take(error.index)),
            },
            done matches Err(found) ==> found.index < punctuated@.len(),
    {
        let ghost args = punctuated@;
        let mut index: usize = 0;
        assert(args.len() == punctuated.len());
        for m in it: punctuated
            invariant
                it.seq() == args,
                args.len() <= usize::MAX,
                index == it.index(),
                first_error(args, 0) == first_error(args, index as int),
                self@ == updated(old(self)@, args.take(index as int)),
        {
            proof {
                assert(args.take(index + 1).drop_last() =~= args.take(index as int));
                assert(args.take(index + 1).last() == args[index as int]);
            }
            match m {
                Meta::NameValue { name: Some(name), value } => {
                    if text_eq(name.as_str(), "default_log_filter") {
                        match require_lit_str(value) {
                            Ok(filter) => {
                                self.default_log_filter = Some(filter);
                            },
                            Err(kind) => {
                                return Err(AttributeError { index, site: ErrorSite::Value, kind });
                            },
                        }
                    } else if text_eq(name.as_str(), "color") {
                        match require_lit_bool(&value) {
                            Ok(color) => {
                                self.color = Some(color);
                            },
                            Err(kind) => {
                                return Err(AttributeError { index, site: ErrorSite::Value, kind });
                            },
                        }
                    } else {
                        return Err(
                            AttributeError {
                                index,
                                site: ErrorSite::Path,
                                kind: ErrorKind::UnrecognizedAttribute { name },
                            },
                        );
                    }
                },
                Meta::NameValue { name: None, .. } => {
                    return Err(map_name_value_error(index, ErrorSite::Path));
                },
                Meta::Path(_) => {
                    return Err(map_name_value_error(index, ErrorSite::Path));
                },
                Meta::List => {
                    return Err(map_name_value_error(index, ErrorSite::Delimiter));
                },
            }
            index = index + 1;
        }
        proof {
            assert(args.take(index as int) =~= args);
        }
        Ok(())
    }
}

} // verus!
