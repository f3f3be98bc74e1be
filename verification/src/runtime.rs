//! Resolution of the run-time configuration: the three environment variables
//! that steer the formatter, the default filter directive handed over from the
//! test attribute, and their combination into one subscriber configuration.
//!
//! Reading the process environment is left to the caller, who passes what it
//! found as [`EnvValue`]s. Nothing here panics: a malformed value comes back
//! as an error that carries the message to fail with.
//!
//! The default log filter is parsed by `tracing-subscriber`, whose parser can
//! panic on some text. Such text is not judged here. [`init`] stops at it and
//! hands it back, and the caller who shows it to the parser goes on with
//! [`default_directive`] and [`settle`].

use crate::subscriber::{
    directive_parser_takes, fmt_span_active, fmt_span_close, fmt_span_enter, fmt_span_exit,
    fmt_span_full, fmt_span_new, fmt_span_none, fmt_span_union, parse_directive,
    parsed_directive, span_events, SpanEvent,
};
use crate::text::{
    ascii_lowercase, char_is_whitespace, chars_of, find_separator, is_word,
    lemma_split_piece, lemma_split_prefix, lemma_split_separator, split, text_eq,
    to_ascii_lowercase, trim, trim_range,
};
use tracing_subscriber::filter::{Directive, ParseError};
use tracing_subscriber::fmt::format::FmtSpan;
use vstd::prelude::*;
use vstd::string::*;

verus! {

/// One of the environment variables that steer the formatter.
#[derive(Clone, Copy, Debug, PartialEq, Eq, Structural)]
pub enum EnvVar {
    /// `RUST_LOG_SPAN_EVENTS`: the span events to write lines for.
    SpanEvents,
    /// `RUST_LOG_COLOR`: whether to write ANSI colors.
    Color,
    /// `RUST_LOG_FORMAT`: the rendering of each line.
    Format,
}

impl EnvVar {
    /// The variable's name in the environment.
    pub open spec fn name_spec(self) -> Seq<char> {
        match self {
            EnvVar::SpanEvents => "RUST_LOG_SPAN_EVENTS"@,
            EnvVar::Color => "RUST_LOG_COLOR"@,
            EnvVar::Format => "RUST_LOG_FORMAT"@,
        }
    }

    /// The variable's name in the environment.
    pub fn name(self) -> (name: &'static str)
        ensures
            name@ == self.name_spec(),
    {
        match self {
            EnvVar::SpanEvents => "RUST_LOG_SPAN_EVENTS",
            EnvVar::Color => "RUST_LOG_COLOR",
            EnvVar::Format => "RUST_LOG_FORMAT",
        }
    }
}

/// What the environment holds for one variable.
#[derive(Clone, Debug, PartialEq, Eq)]
pub enum EnvValue {
    /// The variable is not set.
    Unset,
    /// The variable is set to something that is not valid Unicode.
    NotUnicode,
    /// The variable is set to this text.
    Text(String),
}

/// The values of the three variables at one moment.
#[derive(Clone, Debug, PartialEq, Eq)]
pub struct Environment {
    /// The value of `RUST_LOG_SPAN_EVENTS`.
    pub span_events: EnvValue,
    /// The value of `RUST_LOG_COLOR`.
    pub color: EnvValue,
    /// The value of `RUST_LOG_FORMAT`.
    pub format: EnvValue,
}

/// The rendering of each line.
#[derive(Clone, Copy, Debug, PartialEq, Eq, Structural)]
pub enum OutputFormat {
    /// Several lines per event, for reading by eye.
    Pretty,
    /// One line per event with every detail.
    Full,
    /// One terse line per event.
    Compact,
}

/// Why a value of the environment was refused.
#[derive(Clone, Debug, PartialEq, Eq)]
pub enum EnvError {
    /// The variable's value is not valid Unicode.
    NotUnicode { variable: EnvVar },
    /// `RUST_LOG_SPAN_EVENTS` lists this word, which names no filter.
    UnknownSpanEvent { token: String },
    /// `RUST_LOG_COLOR` is none of the words for yes and no.
    InvalidColor,
    /// `RUST_LOG_FORMAT` is this, which names no format.
    UnknownFormat { value: String },
}

/// [`EnvError`] with its texts as sequences of characters.
pub enum EnvErrorView {
    NotUnicode { variable: EnvVar },
    UnknownSpanEvent { token: Seq<char> },
    InvalidColor,
    UnknownFormat { value: Seq<char> },
}

impl View for EnvError {
    type V = EnvErrorView;

    open spec fn view(&self) -> EnvErrorView {
        match *self {
            EnvError::NotUnicode { variable } => EnvErrorView::NotUnicode { variable },
            EnvError::UnknownSpanEvent { token } => EnvErrorView::UnknownSpanEvent {
                token: token@,
            },
            EnvError::InvalidColor => EnvErrorView::InvalidColor,
            EnvError::UnknownFormat { value } => EnvErrorView::UnknownFormat { value: value@ },
        }
    }
}

impl EnvErrorView {
    /// The message to fail with.
    pub open spec fn message(self) -> Seq<char> {
        match self {
            EnvErrorView::NotUnicode { variable } => "test-pretty-log: "@ + variable.name_spec()
                + " must be valid UTF-8"@,
            EnvErrorView::UnknownSpanEvent { token } =>
                "test-pretty-log: RUST_LOG_SPAN_EVENTS must contain filters separated by `,`.\n\tFor example: `active` or `new,close`\n\tSupported filters: new, enter, exit, close, active, full\n\tGot: "@
                + token,
            EnvErrorView::InvalidColor =>
                "test-pretty-log: RUST_LOG_COLOR must be a boolean value"@,
            EnvErrorView::UnknownFormat { value } =>
                "test-pretty-log: RUST_LOG_FORMAT must be one of `pretty`, `full`, or `compact`. Got: "@
                + value,
        }
    }
}

impl EnvError {
    /// The message to fail with: it names the variable, and for a word that was
    /// not understood the word and the ones that would have been.
    pub fn message(&self) -> (message: String)
        ensures
            message@ == self@.message(),
    {
        match self {
            EnvError::NotUnicode { variable } => {
                let mut message = String::from_str("test-pretty-log: ");
                message.append(variable.name());
                message.append(" must be valid UTF-8");
                message
            },
            EnvError::UnknownSpanEvent { token } => {
                let mut message = String::from_str(
                    "test-pretty-log: RUST_LOG_SPAN_EVENTS must contain filters separated by `,`.\n\tFor example: `active` or `new,close`\n\tSupported filters: new, enter, exit, close, active, full\n\tGot: ",
                );
                message.append(token.as_str());
                message
            },
            EnvError::InvalidColor => String::from_str(
                "test-pretty-log: RUST_LOG_COLOR must be a boolean value",
            ),
            EnvError::UnknownFormat { value } => {
                let mut message = String::from_str(
                    "test-pretty-log: RUST_LOG_FORMAT must be one of `pretty`, `full`, or `compact`. Got: ",
                );
                message.append(value.as_str());
                message
            },
        }
    }
}

/// The text of a variable as the readers take it: lower-cased, `None` where
/// the variable is not set, an error where its value is not valid Unicode.
pub open spec fn env_var_spec(variable: EnvVar, value: EnvValue) -> Result<
    Option<Seq<char>>,
    EnvErrorView,
> {
    match value {
        EnvValue::Unset => Ok(None),
        EnvValue::NotUnicode => Err(EnvErrorView::NotUnicode { variable }),
        EnvValue::Text(text) => Ok(Some(ascii_lowercase(text@))),
    }
}

/// A result with its error seen as its view.
pub open spec fn with_error_view<T>(result: Result<T, EnvError>) -> Result<T, EnvErrorView> {
    match result {
        Ok(value) => Ok(value),
        Err(error) => Err(error@),
    }
}

/// The result of [`env_var`] with its texts as sequences of characters.
pub open spec fn env_var_view(text: Result<Option<String>, EnvError>) -> Result<
    Option<Seq<char>>,
    EnvErrorView,
> {
    match text {
        Ok(Some(lowered)) => Ok(Some(lowered@)),
        Ok(None) => Ok(None),
        Err(error) => Err(error@),
    }
}

/// The text of `variable` as the readers take it, from what the environment
/// holds for it: its value with the ASCII letters lower-cased, `None` where it
/// is not set, an error where its value is not valid Unicode.
pub fn env_var(variable: EnvVar, value: &EnvValue) -> (text: Result<Option<String>, EnvError>)
    ensures
        env_var_view(text) == env_var_spec(variable, *value),
{
    match value {
        EnvValue::Unset => Ok(None),
        EnvValue::NotUnicode => Err(EnvError::NotUnicode { variable }),
        EnvValue::Text(text) => Ok(Some(to_ascii_lowercase(text.as_str()))),
    }
}

/// A word of `RUST_LOG_SPAN_EVENTS`: one span event, or a group of them.
#[derive(Clone, Copy, Debug, PartialEq, Eq, Structural)]
pub enum SpanFilter {
    /// `new`: the creation of a span.
    New,
    /// `enter`: each entry into a span.
    Enter,
    /// `exit`: each exit from a span.
    Exit,
    /// `close`: the closing of a span.
    Close,
    /// `active`: each entry and each exit.
    Active,
    /// `full`: all four events.
    Full,
}

impl SpanFilter {
    /// The span events that the filter switches on.
    pub open spec fn events(self) -> Set<SpanEvent> {
        match self {
            SpanFilter::New => set![SpanEvent::New],
            SpanFilter::Enter => set![SpanEvent::Enter],
            SpanFilter::Exit => set![SpanEvent::Exit],
            SpanFilter::Close => set![SpanEvent::Close],
            SpanFilter::Active => set![SpanEvent::Enter, SpanEvent::Exit],
            SpanFilter::Full => set![
                SpanEvent::New,
                SpanEvent::Enter,
                SpanEvent::Exit,
                SpanEvent::Close,
            ],
        }
    }

    /// The filter that `word` names, if it names one.
    pub open spec fn of_word(word: Seq<char>) -> Option<SpanFilter> {
        if word == "new"@ {
            Some(SpanFilter::New)
        } else if word == "enter"@ {
            Some(SpanFilter::Enter)
        } else if word == "exit"@ {
            Some(SpanFilter::Exit)
        } else if word == "close"@ {
            Some(SpanFilter::Close)
        } else if word == "active"@ {
            Some(SpanFilter::Active)
        } else if word == "full"@ {
            Some(SpanFilter::Full)
        } else {
            None
        }
    }

    /// The filter that the characters of `chars` from `from` up to `to` name, if
    /// they name one.
    pub fn from_chars(chars: &Vec<char>, from: usize, to: usize) -> (filter: Option<SpanFilter>)
        requires
            from <= to <= chars.len(),
        ensures
            filter == SpanFilter::of_word(chars@.subrange(from as int, to as int)),
    {
        if is_word(chars, from, to, "new") {
            Some(SpanFilter::New)
        } else if is_word(chars, from, to, "enter") {
            Some(SpanFilter::Enter)
        } else if is_word(chars, from, to, "exit") {
            Some(SpanFilter::Exit)
        } else if is_word(chars, from, to, "close") {
            Some(SpanFilter::Close)
        } else if is_word(chars, from, to, "active") {
            Some(SpanFilter::Active)
        } else if is_word(chars, from, to, "full") {
            Some(SpanFilter::Full)
        } else {
            None
        }
    }

    /// The formatter's mask for the filter.
    pub fn fmt_span(self) -> (span: FmtSpan)
        ensures
            span_events(span) == self.events(),
    {
        match self {
            SpanFilter::New => fmt_span_new(),
            SpanFilter::Enter => fmt_span_enter(),
            SpanFilter::Exit => fmt_span_exit(),
            SpanFilter::Close => fmt_span_close(),
            SpanFilter::Active => fmt_span_active(),
            SpanFilter::Full => fmt_span_full(),
        }
    }
}

/// The words of a span-event list: its pieces between commas, each without the
/// white space around it.
pub open spec fn span_words(text: Seq<char>) -> Seq<Seq<char>> {
    split(text, ',').map_values(|piece: Seq<char>| trim(piece))
}

/// Whether `word` names a filter that switches `event` on.
pub open spec fn word_enables(word: Seq<char>, event: SpanEvent) -> bool {
    match SpanFilter::of_word(word) {
        Some(filter) => filter.events().contains(event),
        None => false,
    }
}

/// The union of what the words switch on: an event is in it where some word
/// switches it on.
pub open spec fn events_of(words: Seq<Seq<char>>) -> Set<SpanEvent> {
    Set::new(
        |event: SpanEvent|
            exists|i: int| 0 <= i < words.len() && word_enables(#[trigger] words[i], event),
    )
}

/// The first of the words that names no filter.
pub open spec fn first_unknown_word(words: Seq<Seq<char>>) -> Option<Seq<char>>
    decreases words.len(),
{
    if words.len() == 0 {
        None
    } else if SpanFilter::of_word(words.first()) is None {
        Some(words.first())
    } else {
        first_unknown_word(words.drop_first())
    }
}

/// The events that a span-event list switches on. The empty text switches on
/// none; any other text is read word by word, and the first word that names no
/// filter is the error.
pub open spec fn event_filter_of(text: Seq<char>) -> Result<Set<SpanEvent>, EnvErrorView> {
    if text.len() == 0 {
        Ok(Set::empty())
    } else {
        match first_unknown_word(span_words(text)) {
            Some(token) => Err(EnvErrorView::UnknownSpanEvent { token }),
            None => Ok(events_of(span_words(text))),
        }
    }
}

/// The events that the environment switches on: none where the variable is not
/// set, else what its lower-cased text lists.
pub open spec fn build_event_filter_spec(value: EnvValue) -> Result<Set<SpanEvent>, EnvErrorView> {
    match env_var_spec(EnvVar::SpanEvents, value) {
        Err(error) => Err(error),
        Ok(None) => Ok(Set::empty()),
        Ok(Some(text)) => event_filter_of(text),
    }
}

/// A mask, or the error in its place, seen as the events that it switches on.
pub open spec fn event_filter_view(filter: Result<FmtSpan, EnvError>) -> Result<
    Set<SpanEvent>,
    EnvErrorView,
> {
    match filter {
        Ok(span) => Ok(span_events(span)),
        Err(error) => Err(error@),
    }
}

/// Words that all name a filter have no first unknown word.
pub proof fn lemma_all_words_known(words: Seq<Seq<char>>)
    requires
        forall|i: int| 0 <= i < words.len() ==> SpanFilter::of_word(#[trigger] words[i]) is Some,
    ensures
        first_unknown_word(words) is None,
    decreases words.len(),
{
    if words.len() > 0 {
        let rest = words.drop_first();
        assert(SpanFilter::of_word(words[0]) is Some);
        assert forall|i: int| 0 <= i < rest.len() implies SpanFilter::of_word(
            #[trigger] rest[i],
        ) is Some by {
            assert(rest[i] == words[i + 1]);
        }
        lemma_all_words_known(rest);
    }
}

/// The first unknown word is the one before which every word names a filter.
pub proof fn lemma_first_unknown_word(words: Seq<Seq<char>>, at: int)
    requires
        0 <= at < words.len(),
        forall|i: int| 0 <= i < at ==> SpanFilter::of_word(#[trigger] words[i]) is Some,
        SpanFilter::of_word(words[at]) is None,
    ensures
        first_unknown_word(words) == Some(words[at]),
    decreases at,
{
    if at > 0 {
        let rest = words.drop_first();
        assert(SpanFilter::of_word(words[0]) is Some);
        assert forall|i: int| 0 <= i < at - 1 implies SpanFilter::of_word(
            #[trigger] rest[i],
        ) is Some by {
            assert(rest[i] == words[i + 1]);
        }
        assert(rest[at - 1] == words[at]);
        lemma_first_unknown_word(rest, at - 1);
    }
}

/// One more word adds what it switches on, and nothing else.
pub proof fn lemma_events_of_push(words: Seq<Seq<char>>, word: Seq<char>)
    ensures
        events_of(words.push(word)) == events_of(words).union(
            Set::new(|event: SpanEvent| word_enables(word, event)),
        ),
{
    let longer = words.push(word);
    let added = Set::new(|event: SpanEvent| word_enables(word, event));
    assert forall|event: SpanEvent|
        events_of(longer).contains(event) <==> events_of(words).union(added).contains(
            event,
        ) by {
        if events_of(longer).contains(event) {
            let i = choose|i: int|
                0 <= i < longer.len() && word_enables(#[trigger] longer[i], event);
            if i < words.len() {
                assert(word_enables(words[i], event));
            }
        }
        if events_of(words).contains(event) {
            let i = choose|i: int| 0 <= i < words.len() && word_enables(#[trigger] words[i], event);
            assert(word_enables(longer[i], event));
        }
        if added.contains(event) {
            assert(word_enables(longer[words.len() as int], event));
        }
    }
    assert(events_of(longer) =~= events_of(words).union(added));
}

/// Reads a span-event list: the text is split at commas, each piece is
/// trimmed, and each word switches on the events of the filter that it names.
/// The empty text switches on nothing. The first word that names no filter is
/// returned as the error.
pub fn parse_span_events(text: &str) -> (filter: Result<FmtSpan, EnvError>)
    ensures
        event_filter_view(filter) == event_filter_of(text@),
{
    let chars = chars_of(text);
    let mut span = fmt_span_none();
    if chars.len() == 0 {
        return Ok(span);
    }
    let mut start: usize = 0;
    let ghost mut before: Seq<Seq<char>> = Seq::empty();
    loop
        invariant
            chars@ == text@,
            chars.len() > 0,
            start <= chars.len(),
            split(chars@.take(start as int), ',') == before.push(Seq::empty()),
            start == 0 || chars@[start - 1] == ',',
            forall|i: int|
                0 <= i < before.len() ==> SpanFilter::of_word(trim(#[trigger] before[i])) is Some,
            span_events(span) == events_of(before.map_values(|piece: Seq<char>| trim(piece))),
        decreases chars.len() - start,
    {
        let end = find_separator(&chars, start, ',');
        let bounds = trim_range(&chars, start, end);
        let ghost piece = chars@.subrange(start as int, end as int);
        let ghost word = chars@.subrange(bounds.0 as int, bounds.1 as int);
        let ghost pieces = split(chars@, ',');
        let ghost words = span_words(chars@);
        proof {
            lemma_split_piece(chars@, ',', start as int, end as int);
            assert(before.push(Seq::<char>::empty()).drop_last() =~= before);
            assert(split(chars@.take(end as int), ',') == before.push(piece));
            if end == chars.len() {
                assert(chars@.take(end as int) =~= chars@);
            } else {
                lemma_split_prefix(chars@, ',', end as int);
            }
            assert(pieces.take(before.len() as int + 1) =~= before.push(piece));
            assert(pieces[before.len() as int] == before.push(piece)[before.len() as int]);
            assert(words[before.len() as int] == word);
            assert forall|i: int| 0 <= i < before.len() implies SpanFilter::of_word(
                #[trigger] words[i],
            ) is Some by {
                assert(pieces[i] == pieces.take(before.len() as int + 1)[i]);
                assert(pieces[i] == before[i]);
            }
        }
        match SpanFilter::from_chars(&chars, bounds.0, bounds.1) {
            None => {
                let token = String::from_str(text.substring_char(bounds.0, bounds.1));
                proof {
                    lemma_first_unknown_word(words, before.len() as int);
                }
                return Err(EnvError::UnknownSpanEvent { token });
            },
            Some(filter) => {
                proof {
                    let trimmed = before.map_values(|piece: Seq<char>| trim(piece));
                    lemma_events_of_push(trimmed, word);
                    assert(before.push(piece).map_values(|piece: Seq<char>| trim(piece))
                        =~= trimmed.push(word));
                    assert(Set::new(|event: SpanEvent| word_enables(word, event))
                        =~= filter.events());
                }
                span = fmt_span_union(filter.fmt_span(), span);
                proof {
                    assert(span_events(span) =~= events_of(
                        before.push(piece).map_values(|piece: Seq<char>| trim(piece)),
                    ));
                }
            },
        }
        if end == chars.len() {
            proof {
                assert(pieces =~= before.push(piece)) by {
                    assert(chars@.take(end as int) =~= chars@);
                }
                assert(words =~= before.push(piece).map_values(|piece: Seq<char>| trim(piece)));
                lemma_all_words_known(words);
            }
            return Ok(span);
        }
        proof {
            lemma_split_separator(chars@, ',', end as int);
            before = before.push(piece);
        }
        start = end + 1;
    }
}

/// The span events to write lines for, from what the environment holds for
/// `RUST_LOG_SPAN_EVENTS`. None where the variable is not set or empty;
/// otherwise the union of the filters that the comma-separated words of its
/// lower-cased value name.
pub fn build_event_filter(value: &EnvValue) -> (filter: Result<FmtSpan, EnvError>)
    ensures
        event_filter_view(filter) == build_event_filter_spec(*value),
{
    match env_var(EnvVar::SpanEvents, value) {
        Err(error) => Err(error),
        Ok(None) => Ok(fmt_span_none()),
        Ok(Some(text)) => parse_span_events(text.as_str()),
    }
}

/// An unknown word is found exactly where some word names no filter.
pub proof fn lemma_unknown_word_exists(words: Seq<Seq<char>>)
    ensures
        first_unknown_word(words) is Some <==> exists|i: int|
            0 <= i < words.len() && SpanFilter::of_word(#[trigger] words[i]) is None,
    decreases words.len(),
{
    if words.len() > 0 {
        let rest = words.drop_first();
        lemma_unknown_word_exists(rest);
        if SpanFilter::of_word(words[0]) is Some {
            if first_unknown_word(words) is Some {
                let i = choose|i: int|
                    0 <= i < rest.len() && SpanFilter::of_word(#[trigger] rest[i]) is None;
                assert(SpanFilter::of_word(words[i + 1]) is None);
            }
            if exists|i: int|
                0 <= i < words.len() && SpanFilter::of_word(#[trigger] words[i]) is None {
                let i = choose|i: int|
                    0 <= i < words.len() && SpanFilter::of_word(#[trigger] words[i]) is None;
                assert(SpanFilter::of_word(rest[i - 1]) is None);
            }
        }
    }
}

/// A word of one list is a word of any list that holds the same words.
proof fn lemma_same_words(first: Seq<Seq<char>>, second: Seq<Seq<char>>, at: int) -> (found: int)
    requires
        first.to_set() == second.to_set(),
        0 <= at < first.len(),
    ensures
        0 <= found < second.len(),
        second[found] == first[at],
{
    assert(first.contains(first[at]));
    assert(first.to_set().contains(first[at]));
    assert(second.to_set().contains(first[at]));
    assert(second.contains(first[at]));
    choose|found: int| 0 <= found < second.len() && second[found] == first[at]
}

/// The events that a list of words switches on depend neither on the order of
/// the words nor on how often one of them is repeated: two lists that hold the
/// same words switch on the same events, and one holds a word that names no
/// filter exactly where the other does.
pub proof fn lemma_events_ignore_order_and_repeats(first: Seq<Seq<char>>, second: Seq<Seq<char>>)
    requires
        first.to_set() == second.to_set(),
    ensures
        events_of(first) == events_of(second),
        first_unknown_word(first) is Some <==> first_unknown_word(second) is Some,
{
    assert forall|event: SpanEvent|
        events_of(first).contains(event) <==> events_of(second).contains(event) by {
        if events_of(first).contains(event) {
            let i = choose|i: int| 0 <= i < first.len() && word_enables(#[trigger] first[i], event);
            let j = lemma_same_words(first, second, i);
            assert(word_enables(second[j], event));
        }
        if events_of(second).contains(event) {
            let i = choose|i: int|
                0 <= i < second.len() && word_enables(#[trigger] second[i], event);
            let j = lemma_same_words(second, first, i);
            assert(word_enables(first[j], event));
        }
    }
    assert(events_of(first) =~= events_of(second));
    lemma_unknown_word_exists(first);
    lemma_unknown_word_exists(second);
    if first_unknown_word(first) is Some {
        let i = choose|i: int|
            0 <= i < first.len() && SpanFilter::of_word(#[trigger] first[i]) is None;
        let j = lemma_same_words(first, second, i);
        assert(SpanFilter::of_word(second[j]) is None);
    }
    if first_unknown_word(second) is Some {
        let i = choose|i: int|
            0 <= i < second.len() && SpanFilter::of_word(#[trigger] second[i]) is None;
        let j = lemma_same_words(second, first, i);
        assert(SpanFilter::of_word(first[j]) is None);
    }
}

/// Two span-event lists that hold the same words, in whatever order and
/// however often, are both accepted or both refused, and where they are
/// accepted they switch on the same events. The empty text is not set beside
/// any other: it switches on nothing, while a text of white space alone, which
/// holds the same one empty word, is refused for it.
pub proof fn lemma_event_filter_ignores_order_and_repeats(first: Seq<char>, second: Seq<char>)
    requires
        first.len() == 0 <==> second.len() == 0,
        span_words(first).to_set() == span_words(second).to_set(),
    ensures
        event_filter_of(first) is Ok <==> event_filter_of(second) is Ok,
        event_filter_of(first) is Ok ==> event_filter_of(first) == event_filter_of(second),
{
    lemma_events_ignore_order_and_repeats(span_words(first), span_words(second));
}

/// Whether the formatter writes colors, as a value of `RUST_LOG_COLOR` says it:
/// `1`, `true`, `t` and `on` say yes, `0`, `false`, `f` and `off` say no, and
/// nothing else says anything.
pub open spec fn color_of(text: Seq<char>) -> Option<bool> {
    if text == "1"@ || text == "true"@ || text == "t"@ || text == "on"@ {
        Some(true)
    } else if text == "0"@ || text == "false"@ || text == "f"@ || text == "off"@ {
        Some(false)
    } else {
        None
    }
}

/// Whether the formatter writes colors, going by the environment: yes where
/// the variable is not set, else what its lower-cased text says.
pub open spec fn parse_env_var_color_spec(value: EnvValue) -> Result<bool, EnvErrorView> {
    match env_var_spec(EnvVar::Color, value) {
        Err(error) => Err(error),
        Ok(None) => Ok(true),
        Ok(Some(text)) => match color_of(text) {
            Some(color) => Ok(color),
            None => Err(EnvErrorView::InvalidColor),
        },
    }
}

/// Reads a value of `RUST_LOG_COLOR` that is already lower-cased.
pub fn parse_color(text: &str) -> (color: Option<bool>)
    ensures
        color == color_of(text@),
{
    if text_eq(text, "1") || text_eq(text, "true") || text_eq(text, "t") || text_eq(text, "on") {
        Some(true)
    } else if text_eq(text, "0") || text_eq(text, "false") || text_eq(text, "f") || text_eq(
        text,
        "off",
    ) {
        Some(false)
    } else {
        None
    }
}

/// Whether the formatter writes colors, from what the environment holds for
/// `RUST_LOG_COLOR`. Yes where the variable is not set. A value that is set
/// is read without regard to the case of its letters: `1`, `true`, `t` and `on`
/// say yes, `0`, `false`, `f` and `off` say no, and anything else is an error.
pub fn parse_env_var_color(value: &EnvValue) -> (color: Result<bool, EnvError>)
    ensures
        with_error_view(color) == parse_env_var_color_spec(*value),
{
    match env_var(EnvVar::Color, value) {
        Err(error) => Err(error),
        Ok(None) => Ok(true),
        Ok(Some(text)) => match parse_color(text.as_str()) {
            Some(color) => Ok(color),
            None => Err(EnvError::InvalidColor),
        },
    }
}

/// Whether the formatter writes colors, with the attribute's say: an
/// attribute that sets `color` decides, and the environment is not looked at;
/// otherwise the environment decides.
pub open spec fn build_enable_ansi_spec(color: Option<bool>, value: EnvValue) -> Result<
    bool,
    EnvErrorView,
> {
    match color {
        Some(color) => Ok(color),
        None => parse_env_var_color_spec(value),
    }
}

/// Whether the formatter writes colors. A `color` given in the test attribute
/// always wins over `RUST_LOG_COLOR`, whose value is then not even read, so
/// that a malformed one does no harm; without it the environment decides as
/// [`parse_env_var_color`] says.
pub fn build_enable_ansi(color: Option<bool>, value: &EnvValue) -> (ansi: Result<bool, EnvError>)
    ensures
        with_error_view(ansi) == build_enable_ansi_spec(color, *value),
        color matches Some(chosen) ==> ansi == Ok::<bool, EnvError>(chosen),
{
    match color {
        Some(color) => Ok(color),
        None => parse_env_var_color(value),
    }
}

/// The format that a value of `RUST_LOG_FORMAT` names, if it names one.
pub open spec fn format_of(text: Seq<char>) -> Option<OutputFormat> {
    if text == "pretty"@ {
        Some(OutputFormat::Pretty)
    } else if text == "full"@ {
        Some(OutputFormat::Full)
    } else if text == "compact"@ {
        Some(OutputFormat::Compact)
    } else {
        None
    }
}

/// The format of the lines, going by the environment: pretty where the
/// variable is not set, else what its lower-cased text names.
pub open spec fn parse_env_var_format_spec(value: EnvValue) -> Result<OutputFormat, EnvErrorView> {
    match env_var_spec(EnvVar::Format, value) {
        Err(error) => Err(error),
        Ok(None) => Ok(OutputFormat::Pretty),
        Ok(Some(text)) => match format_of(text) {
            Some(format) => Ok(format),
            None => Err(EnvErrorView::UnknownFormat { value: text }),
        },
    }
}

/// Reads a value of `RUST_LOG_FORMAT` that is already lower-cased.
pub fn parse_format(text: &str) -> (format: Option<OutputFormat>)
    ensures
        format == format_of(text@),
{
    if text_eq(text, "pretty") {
        Some(OutputFormat::Pretty)
    } else if text_eq(text, "full") {
        Some(OutputFormat::Full)
    } else if text_eq(text, "compact") {
        Some(OutputFormat::Compact)
    } else {
        None
    }
}

/// The format of the lines, from what the environment holds for
/// `RUST_LOG_FORMAT`. Pretty where the variable is not set. A value that is
/// set is read without regard to the case of its letters: `pretty`, `full` and
/// `compact` name their formats, and anything else is an error that carries
/// the lower-cased value.
pub fn parse_env_var_format(value: &EnvValue) -> (format: Result<OutputFormat, EnvError>)
    ensures
        with_error_view(format) == parse_env_var_format_spec(*value),
{
    match env_var(EnvVar::Format, value) {
        Err(error) => Err(error),
        Ok(None) => Ok(OutputFormat::Pretty),
        Ok(Some(text)) => match parse_format(text.as_str()) {
            Some(format) => Ok(format),
            None => Err(EnvError::UnknownFormat { value: text }),
        },
    }
}

/// Why no subscriber configuration could be made.
#[derive(Clone, Debug, PartialEq, Eq)]
pub enum InitError {
    /// A value of the environment was refused.
    Environment(EnvError),
    /// The default log filter of the test attribute is no filter directive.
    InvalidDefaultLogFilter,
}

/// [`InitError`] with its texts as sequences of characters.
pub enum InitErrorView {
    Environment(EnvErrorView),
    InvalidDefaultLogFilter,
}

impl View for InitError {
    type V = InitErrorView;

    open spec fn view(&self) -> InitErrorView {
        match *self {
            InitError::Environment(error) => InitErrorView::Environment(error@),
            InitError::InvalidDefaultLogFilter => InitErrorView::InvalidDefaultLogFilter,
        }
    }
}

impl InitErrorView {
    /// The message to fail with.
    pub open spec fn message(self) -> Seq<char> {
        match self {
            InitErrorView::Environment(error) => error.message(),
            InitErrorView::InvalidDefaultLogFilter =>
                "test-pretty-log: default_log_filter must be valid"@,
        }
    }
}

impl InitError {
    /// The message to fail with.
    pub fn message(&self) -> (message: String)
        ensures
            message@ == self@.message(),
    {
        match self {
            InitError::Environment(error) => error.message(),
            InitError::InvalidDefaultLogFilter => String::from_str(
                "test-pretty-log: default_log_filter must be valid",
            ),
        }
    }
}

/// What the default log filter of the test attribute comes to.
#[derive(Debug, PartialEq, Eq)]
pub enum DefaultFilter {
    /// The attribute names no default log filter: the level filter is the one
    /// that `RUST_LOG` alone describes.
    Absent,
    /// The directive that the default log filter parsed to.
    Directive(Directive),
    /// The default log filter as it was written. The directive parser can
    /// panic on it, so it was not shown to the parser and nothing is known of
    /// it: it may be a directive and it may be none.
    Unparsed(String),
}

/// [`DefaultFilter`] with its text as a sequence of characters.
pub enum DefaultFilterView {
    Absent,
    Directive(Directive),
    Unparsed(Seq<char>),
}

impl View for DefaultFilter {
    type V = DefaultFilterView;

    open spec fn view(&self) -> DefaultFilterView {
        match *self {
            DefaultFilter::Absent => DefaultFilterView::Absent,
            DefaultFilter::Directive(directive) => DefaultFilterView::Directive(directive),
            DefaultFilter::Unparsed(text) => DefaultFilterView::Unparsed(text@),
        }
    }
}

/// What the default log filter comes to. Text that the directive parser can
/// be shown is a directive or an error, as the parser says. Text that it
/// cannot be shown is handed back as it is, and is neither.
pub open spec fn build_env_filter_spec(default_log_filter: Option<Seq<char>>) -> Result<
    DefaultFilterView,
    InitErrorView,
> {
    match default_log_filter {
        None => Ok(DefaultFilterView::Absent),
        Some(text) => if directive_parser_takes(text) {
            match parsed_directive(text) {
                Some(directive) => Ok(DefaultFilterView::Directive(directive)),
                None => Err(InitErrorView::InvalidDefaultLogFilter),
            }
        } else {
            Ok(DefaultFilterView::Unparsed(text))
        },
    }
}

/// The result of [`build_env_filter`] seen as its view.
pub open spec fn build_env_filter_view(filter: Result<DefaultFilter, InitError>) -> Result<
    DefaultFilterView,
    InitErrorView,
> {
    match filter {
        Ok(filter) => Ok(filter@),
        Err(error) => Err(error@),
    }
}

/// The characters of a text that may be missing.
pub open spec fn text_of(text: Option<&str>) -> Option<Seq<char>> {
    match text {
        Some(text) => Some(text@),
        None => None,
    }
}

/// What becomes of a default log filter once the directive parser has
/// answered: its directive is the one to fall back on, and its refusal is the
/// error.
pub fn default_directive(parsed: Result<Directive, ParseError>) -> (directive: Result<
    Directive,
    InitError,
>)
    ensures
        match parsed {
            Ok(parsed) => directive == Ok::<Directive, InitError>(parsed),
            Err(_) => directive == Err::<Directive, InitError>(InitError::InvalidDefaultLogFilter),
        },
{
    match parsed {
        Ok(parsed) => Ok(parsed),
        Err(_) => Err(InitError::InvalidDefaultLogFilter),
    }
}

/// What the default log filter of the test attribute comes to. Without one
/// the level filter is left to `RUST_LOG` alone. With one, the text is parsed
/// as a filter directive, and it is an error exactly where the parser was
/// shown the text and refused it. The parser is not shown text that begins
/// with white space and holds a character beyond ASCII, on which it can
/// panic: such text is handed back unparsed, for the caller to show to the
/// parser at its own risk.
pub fn build_env_filter(default_log_filter: Option<&str>) -> (filter: Result<
    DefaultFilter,
    InitError,
>)
    ensures
        build_env_filter_view(filter) == build_env_filter_spec(text_of(default_log_filter)),
        (filter matches Ok(DefaultFilter::Unparsed(_))) <==> (default_log_filter matches Some(text)
            && !directive_parser_takes(text@)),
        filter is Err <==> (default_log_filter matches Some(text) && directive_parser_takes(text@)
            && parsed_directive(text@) is None),
{
    match default_log_filter {
        None => Ok(DefaultFilter::Absent),
        Some(text) => {
            if text.is_empty() || text.is_ascii() || !char_is_whitespace(text.get_char(0)) {
                match default_directive(parse_directive(text)) {
                    Ok(directive) => Ok(DefaultFilter::Directive(directive)),
                    Err(error) => Err(error),
                }
            } else {
                Ok(DefaultFilter::Unparsed(String::from_str(text)))
            }
        },
    }
}

/// What the environment settles for the formatter.
#[derive(Debug, PartialEq, Eq)]
pub struct EnvironmentSettings {
    /// The span events to write lines for.
    pub span_event_mask: FmtSpan,
    /// Whether to write ANSI colors.
    pub color_enabled: bool,
    /// The rendering of each line.
    pub output_format: OutputFormat,
}

/// [`EnvironmentSettings`] with its mask as the set of events that it holds.
pub struct EnvironmentSettingsView {
    pub span_event_mask: Set<SpanEvent>,
    pub color_enabled: bool,
    pub output_format: OutputFormat,
}

impl View for EnvironmentSettings {
    type V = EnvironmentSettingsView;

    open spec fn view(&self) -> EnvironmentSettingsView {
        EnvironmentSettingsView {
            span_event_mask: span_events(self.span_event_mask),
            color_enabled: self.color_enabled,
            output_format: self.output_format,
        }
    }
}

/// All that the subscriber of a test is made from.
#[derive(Debug, PartialEq, Eq)]
pub struct SubscriberConfig {
    /// The directive that the level filter falls back on where `RUST_LOG` gives
    /// none; without it the filter is the one that `RUST_LOG` alone describes.
    pub default_directive: Option<Directive>,
    /// The settings of the formatter.
    pub settings: EnvironmentSettings,
}

/// [`SubscriberConfig`] with its settings as their view.
pub struct SubscriberConfigView {
    pub default_directive: Option<Directive>,
    pub settings: EnvironmentSettingsView,
}

impl View for SubscriberConfig {
    type V = SubscriberConfigView;

    open spec fn view(&self) -> SubscriberConfigView {
        SubscriberConfigView {
            default_directive: self.default_directive,
            settings: self.settings@,
        }
    }
}

/// How far the resolution of a subscriber's configuration has come.
#[derive(Debug, PartialEq, Eq)]
pub enum Resolution {
    /// Everything is settled.
    Complete(SubscriberConfig),
    /// The span events are settled, and the default log filter is text that
    /// the directive parser was not shown. The colors and the format are not
    /// looked at yet: they come after the filter. The caller shows the text
    /// to the parser and goes on with [`default_directive`] and [`settle`].
    AwaitsDirective {
        /// The default log filter as it was written.
        default_log_filter: String,
        /// The span events to write lines for.
        span_event_mask: FmtSpan,
    },
}

/// [`Resolution`] with its parts as their views.
pub enum ResolutionView {
    Complete(SubscriberConfigView),
    AwaitsDirective { default_log_filter: Seq<char>, span_event_mask: Set<SpanEvent> },
}

impl View for Resolution {
    type V = ResolutionView;

    open spec fn view(&self) -> ResolutionView {
        match *self {
            Resolution::Complete(config) => ResolutionView::Complete(config@),
            Resolution::AwaitsDirective { default_log_filter, span_event_mask } =>
                ResolutionView::AwaitsDirective {
                    default_log_filter: default_log_filter@,
                    span_event_mask: span_events(span_event_mask),
                },
        }
    }
}

/// What is settled after the default log filter: the colors, then the
/// format. The first of the two to be refused is the error.
pub open spec fn settle_spec(
    default_directive: Option<Directive>,
    span_event_mask: Set<SpanEvent>,
    with_ansi_arg: Option<bool>,
    env: Environment,
) -> Result<SubscriberConfigView, InitErrorView> {
    match build_enable_ansi_spec(with_ansi_arg, env.color) {
        Err(error) => Err(InitErrorView::Environment(error)),
        Ok(color_enabled) => match parse_env_var_format_spec(env.format) {
            Err(error) => Err(InitErrorView::Environment(error)),
            Ok(output_format) => Ok(
                SubscriberConfigView {
                    default_directive,
                    settings: EnvironmentSettingsView {
                        span_event_mask,
                        color_enabled,
                        output_format,
                    },
                },
            ),
        },
    }
}

/// The result of [`settle`] seen as its view.
pub open spec fn settle_view(config: Result<SubscriberConfig, InitError>) -> Result<
    SubscriberConfigView,
    InitErrorView,
> {
    match config {
        Ok(config) => Ok(config@),
        Err(error) => Err(error@),
    }
}

/// Settles what comes after the default log filter, and with it the whole
/// configuration: the colors from `with_ansi_arg` or else from the
/// environment, then the format from the environment. The directive and the
/// span events are taken as they are given.
pub fn settle(
    default_directive: Option<Directive>,
    span_event_mask: FmtSpan,
    with_ansi_arg: Option<bool>,
    env: &Environment,
) -> (config: Result<SubscriberConfig, InitError>)
    ensures
        settle_view(config) == settle_spec(
            default_directive,
            span_events(span_event_mask),
            with_ansi_arg,
            *env,
        ),
        config matches Ok(made) ==> (with_ansi_arg matches Some(chosen)
            ==> made.settings.color_enabled == chosen),
{
    let color_enabled = match build_enable_ansi(with_ansi_arg, &env.color) {
        Ok(color_enabled) => color_enabled,
        Err(error) => {
            return Err(InitError::Environment(error));
        },
    };
    let output_format = match parse_env_var_format(&env.format) {
        Ok(output_format) => output_format,
        Err(error) => {
            return Err(InitError::Environment(error));
        },
    };
    Ok(
        SubscriberConfig {
            default_directive,
            settings: EnvironmentSettings { span_event_mask, color_enabled, output_format },
        },
    )
}

/// How far the resolution comes, or the first error met on the way: the span
/// events first, then the default log filter, then the colors, then the
/// format. It stops after the span events where the default log filter is
/// text that the directive parser cannot be shown.
pub open spec fn init_spec(
    env_filter_arg: Option<Seq<char>>,
    with_ansi_arg: Option<bool>,
    env: Environment,
) -> Result<ResolutionView, InitErrorView> {
    match build_event_filter_spec(env.span_events) {
        Err(error) => Err(InitErrorView::Environment(error)),
        Ok(span_event_mask) => match build_env_filter_spec(env_filter_arg) {
            Err(error) => Err(error),
            Ok(DefaultFilterView::Unparsed(default_log_filter)) => Ok(
                ResolutionView::AwaitsDirective { default_log_filter, span_event_mask },
            ),
            Ok(DefaultFilterView::Absent) => match settle_spec(
                None,
                span_event_mask,
                with_ansi_arg,
                env,
            ) {
                Ok(config) => Ok(ResolutionView::Complete(config)),
                Err(error) => Err(error),
            },
            Ok(DefaultFilterView::Directive(directive)) => match settle_spec(
                Some(directive),
                span_event_mask,
                with_ansi_arg,
                env,
            ) {
                Ok(config) => Ok(ResolutionView::Complete(config)),
                Err(error) => Err(error),
            },
        },
    }
}

/// The result of [`init`] seen as its view.
pub open spec fn init_view(resolution: Result<Resolution, InitError>) -> Result<
    ResolutionView,
    InitErrorView,
> {
    match resolution {
        Ok(resolution) => Ok(resolution@),
        Err(error) => Err(error@),
    }
}

/// Resolves the configuration of a test's subscriber from the two arguments of
/// the test attribute and the environment. The span events come from the
/// environment, the level filter's fallback from `env_filter_arg`, the colors
/// from `with_ansi_arg` or else from the environment, the format from the
/// environment. Each variable that is not set has its default: no span events,
/// colors, the pretty format. The first value to be refused, in that order,
/// is the error.
///
/// Where `env_filter_arg` is text that the directive parser is not shown, the
/// resolution stops at it and hands it back with the span events. Nothing is
/// said of such text, and the colors and the format are left for [`settle`],
/// so that the caller who shows the text to the parser meets every failure in
/// the same order.
pub fn init(
    env_filter_arg: Option<&str>,
    with_ansi_arg: Option<bool>,
    env: &Environment,
) -> (resolution: Result<Resolution, InitError>)
    ensures
        init_view(resolution) == init_spec(text_of(env_filter_arg), with_ansi_arg, *env),
        resolution matches Ok(Resolution::AwaitsDirective { .. }) ==> (env_filter_arg matches Some(
            text,
        ) && !directive_parser_takes(text@)),
        resolution matches Ok(Resolution::Complete(made)) ==> (with_ansi_arg matches Some(chosen)
            ==> made.settings.color_enabled == chosen),
{
    let span_event_mask = match build_event_filter(&env.span_events) {
        Ok(span_event_mask) => span_event_mask,
        Err(error) => {
            return Err(InitError::Environment(error));
        },
    };
    let default_directive = match build_env_filter(env_filter_arg) {
        Ok(DefaultFilter::Absent) => None,
        Ok(DefaultFilter::Directive(directive)) => Some(directive),
        Ok(DefaultFilter::Unparsed(default_log_filter)) => {
            return Ok(Resolution::AwaitsDirective { default_log_filter, span_event_mask });
        },
        Err(error) => {
            return Err(error);
        },
    };
    match settle(default_directive, span_event_mask, with_ansi_arg, env) {
        Ok(config) => Ok(Resolution::Complete(config)),
        Err(error) => Err(error),
    }
}

/// Resolution reads nothing but its arguments: whatever [`init`] returns for
/// one environment and one pair of attribute arguments, it returns the same
/// the next time.
pub proof fn lemma_init_is_idempotent(
    env_filter_arg: Option<&str>,
    with_ansi_arg: Option<bool>,
    env: Environment,
    first: Result<Resolution, InitError>,
    second: Result<Resolution, InitError>,
)
    requires
        init_view(first) == init_spec(text_of(env_filter_arg), with_ansi_arg, env),
        init_view(second) == init_spec(text_of(env_filter_arg), with_ansi_arg, env),
    ensures
        init_view(first) == init_view(second),
{
}

/// What [`settle`] returns for one directive, one mask, one color argument
/// and one environment, it returns the same the next time.
pub proof fn lemma_settle_is_idempotent(
    default_directive: Option<Directive>,
    span_event_mask: FmtSpan,
    with_ansi_arg: Option<bool>,
    env: Environment,
    first: Result<SubscriberConfig, InitError>,
    second: Result<SubscriberConfig, InitError>,
)
    requires
        settle_view(first) == settle_spec(
            default_directive,
            span_events(span_event_mask),
            with_ansi_arg,
            env,
        ),
        settle_view(second) == settle_spec(
            default_directive,
            span_events(span_event_mask),
            with_ansi_arg,
            env,
        ),
    ensures
        settle_view(first) == settle_view(second),
{
}

} // verus!
