//! What this crate takes from `tracing-subscriber`: the span-event mask of its
//! formatter and the parser of its filter directives. Nothing in this file is
//! proved; each contract says what the source of `tracing-subscriber` shows.

use crate::text::is_whitespace;
use tracing_subscriber::filter::{Directive, ParseError};
use tracing_subscriber::fmt::format::FmtSpan;
use vstd::prelude::*;
use vstd::utf8::is_ascii_chars;

verus! {

/// A point in the life of a span at which the formatter can write a line.
#[derive(Clone, Copy, Debug, PartialEq, Eq, Structural)]
pub enum SpanEvent {
    /// The span is created.
    New,
    /// The span is entered.
    Enter,
    /// The span is exited.
    Exit,
    /// The span is closed.
    Close,
}

/// `FmtSpan` of `tracing-subscriber`, the formatter's span-event mask. Its
/// values are carried along; what one holds is spoken of through
/// [`span_events`].
#[verifier::external_type_specification]
#[verifier::external_body]
pub struct ExFmtSpan(FmtSpan);

/// `Directive` of `tracing-subscriber`, one rule of a level filter. Its values
/// are carried along and never looked into.
#[verifier::external_type_specification]
#[verifier::external_body]
pub struct ExDirective(Directive);

/// `ParseError` of `tracing-subscriber`, the refusal of the directive parser.
/// That there is one is all that is read of it.
#[verifier::external_type_specification]
#[verifier::external_body]
pub struct ExParseError(ParseError);

/// The span events that are switched on in `span`. `FmtSpan` is a set of four
/// flags, one for each [`SpanEvent`].
pub uninterp spec fn span_events(span: FmtSpan) -> Set<SpanEvent>;

/// What `Directive`'s `FromStr` makes of `text`: the directive, or `None` where
/// it refuses the text. The parser reads nothing but the text.
pub uninterp spec fn parsed_directive(text: Seq<char>) -> Option<Directive>;

/// `FmtSpan::NONE`, the mask with no flag set.
#[verifier::external_body]
pub(crate) fn fmt_span_none() -> (span: FmtSpan)
    ensures
        span_events(span) == Set::<SpanEvent>::empty(),
{
    FmtSpan::NONE
}

/// `FmtSpan::NEW`, the flag for the creation of a span alone.
#[verifier::external_body]
pub(crate) fn fmt_span_new() -> (span: FmtSpan)
    ensures
        span_events(span) == set![SpanEvent::New],
{
    FmtSpan::NEW
}

/// `FmtSpan::ENTER`, the flag for entering a span alone.
#[verifier::external_body]
pub(crate) fn fmt_span_enter() -> (span: FmtSpan)
    ensures
        span_events(span) == set![SpanEvent::Enter],
{
    FmtSpan::ENTER
}

/// `FmtSpan::EXIT`, the flag for exiting a span alone.
#[verifier::external_body]
pub(crate) fn fmt_span_exit() -> (span: FmtSpan)
    ensures
        span_events(span) == set![SpanEvent::Exit],
{
    FmtSpan::EXIT
}

/// `FmtSpan::CLOSE`, the flag for closing a span alone.
#[verifier::external_body]
pub(crate) fn fmt_span_close() -> (span: FmtSpan)
    ensures
        span_events(span) == set![SpanEvent::Close],
{
    FmtSpan::CLOSE
}

/// `FmtSpan::ACTIVE`, which `tracing-subscriber` defines as the flags of `ENTER` and
/// `EXIT` together.
#[verifier::external_body]
pub(crate) fn fmt_span_active() -> (span: FmtSpan)
    ensures
        span_events(span) == set![SpanEvent::Enter, SpanEvent::Exit],
{
    FmtSpan::ACTIVE
}

/// `FmtSpan::FULL`, which `tracing-subscriber` defines as all four flags together.
#[verifier::external_body]
pub(crate) fn fmt_span_full() -> (span: FmtSpan)
    ensures
        span_events(span) == set![
            SpanEvent::New,
            SpanEvent::Enter,
            SpanEvent::Exit,
            SpanEvent::Close,
        ],
{
    FmtSpan::FULL
}

/// `FmtSpan`'s `|`, the bitwise or of the two masks: a flag is set in the
/// result where it is set in either operand.
#[verifier::external_body]
pub(crate) fn fmt_span_union(left: FmtSpan, right: FmtSpan) -> (span: FmtSpan)
    ensures
        span_events(span) == span_events(left).union(span_events(right)),
{
    left | right
}

/// Whether the directive parser can be shown `text`. The parser trims the text
/// and then slices the untrimmed text at offsets of the trimmed one. Where
/// white space was cut off at the front, such an offset can fall inside a
/// character that takes more than one byte, and the slicing panics. It cannot
/// where nothing is cut off at the front, nor where every character is ASCII.
pub open spec fn directive_parser_takes(text: Seq<char>) -> bool {
    text.len() == 0 || !is_whitespace(text[0]) || is_ascii_chars(text)
}

/// `str::parse` into a `Directive`, which runs `Directive`'s `FromStr`. The
/// result is named, not described: [`parsed_directive`]. Text on which the
/// parser's slicing can panic is kept away from it by
/// [`directive_parser_takes`]. A value pattern in the text is compiled into an
/// automaton by `matchers`, through `regex-automata`, whose builder hands its
/// refusals back as errors; that the build returns is taken on trust.
#[verifier::external_body]
pub(crate) fn parse_directive(text: &str) -> (parsed: Result<Directive, ParseError>)
    requires
        directive_parser_takes(text@),
    ensures
        parsed matches Ok(directive) ==> parsed_directive(text@) == Some(directive),
        parsed is Err ==> parsed_directive(text@) is None,
{
    text.parse()
}

} // verus!
