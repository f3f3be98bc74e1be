use test_pretty_log_core::runtime::build_env_filter;
use test_pretty_log_core::runtime::default_directive;
use test_pretty_log_core::runtime::init;
use test_pretty_log_core::runtime::settle;
use test_pretty_log_core::runtime::DefaultFilter;
use test_pretty_log_core::runtime::EnvError;
use test_pretty_log_core::runtime::EnvValue;
use test_pretty_log_core::runtime::EnvVar;
use test_pretty_log_core::runtime::Environment;
use test_pretty_log_core::runtime::EnvironmentSettings;
use test_pretty_log_core::runtime::InitError;
use test_pretty_log_core::runtime::OutputFormat;
use test_pretty_log_core::runtime::Resolution;
use test_pretty_log_core::runtime::SubscriberConfig;
use tracing_subscriber::filter::Directive;
use tracing_subscriber::fmt::format::FmtSpan;

fn text(value: &str) -> EnvValue {
    EnvValue::Text(value.to_string())
}

fn unset() -> Environment {
    Environment { span_events: EnvValue::Unset, color: EnvValue::Unset, format: EnvValue::Unset }
}

fn directive(text: &str) -> Directive {
    text.parse().unwrap()
}

fn unparsed(text: &str) -> Result<DefaultFilter, InitError> {
    Ok(DefaultFilter::Unparsed(text.to_string()))
}

fn parsed(text: &str) -> Result<DefaultFilter, InitError> {
    Ok(DefaultFilter::Directive(directive(text)))
}

fn complete(
    default_directive: Option<Directive>,
    span_event_mask: FmtSpan,
    color_enabled: bool,
    output_format: OutputFormat,
) -> Result<Resolution, InitError> {
    Ok(Resolution::Complete(SubscriberConfig {
        default_directive,
        settings: EnvironmentSettings { span_event_mask, color_enabled, output_format },
    }))
}

#[test]
fn no_default_log_filter_no_directive() {
    assert_eq!(build_env_filter(None), Ok(DefaultFilter::Absent));
}

#[test]
fn default_log_filter_is_parsed() {
    assert_eq!(build_env_filter(Some("debug")), parsed("debug"));
    assert_eq!(build_env_filter(Some("my_crate=info")), parsed("my_crate=info"));
    assert_eq!(build_env_filter(Some("my_crate[span]=trace")), parsed("my_crate[span]=trace"));
    assert_ne!(build_env_filter(Some("debug")), parsed("info"));
}

#[test]
fn default_log_filter_that_is_no_directive() {
    assert!("my_crate=lolwut".parse::<Directive>().is_err());
    assert_eq!(build_env_filter(Some("my_crate=lolwut")), Err(InitError::InvalidDefaultLogFilter));
    assert!("".parse::<Directive>().is_err());
    assert_eq!(build_env_filter(Some("")), Err(InitError::InvalidDefaultLogFilter));
    assert_eq!(build_env_filter(Some("=!")), Err(InitError::InvalidDefaultLogFilter));
    assert_eq!(
        InitError::InvalidDefaultLogFilter.message(),
        "test-pretty-log: default_log_filter must be valid"
    );
}

#[test]
fn default_log_filter_that_the_parser_is_not_shown_is_handed_back() {
    for text in [
        " \u{e9}",
        "\u{a0}debug",
        "\u{a0}\u{e9}=info",
        " \u{e9}=info",
        "\t[sp\u{e4}n]",
        " !\u{e9}",
    ] {
        assert_eq!(build_env_filter(Some(text)), unparsed(text), "{:?}", text);
    }
}

#[test]
fn handed_back_text_may_be_a_directive() {
    for text in [" \u{e9}", "\u{a0}debug"] {
        assert_eq!(build_env_filter(Some(text)), unparsed(text));
        let answer = text.parse::<Directive>();
        assert!(answer.is_ok(), "{:?}", text);
        assert_eq!(default_directive(answer), Ok(directive(text)));
    }
}

#[test]
fn handed_back_text_may_be_no_directive() {
    let text = " !\u{e9}";
    assert_eq!(build_env_filter(Some(text)), unparsed(text));
    let answer = text.parse::<Directive>();
    assert!(answer.is_err());
    assert_eq!(default_directive(answer), Err(InitError::InvalidDefaultLogFilter));
}

#[test]
fn default_log_filter_with_white_space_that_the_parser_is_shown() {
    assert_eq!(build_env_filter(Some(" debug")), parsed(" debug"));
    assert_eq!(build_env_filter(Some("debug ")), parsed("debug "));
    assert_eq!(build_env_filter(Some("\u{e9}t\u{e9}=info")), parsed("\u{e9}t\u{e9}=info"));
    assert_eq!(
        build_env_filter(Some("\u{e9}t\u{e9}=info ")),
        Err(InitError::InvalidDefaultLogFilter)
    );
    assert_eq!(build_env_filter(Some(" a=b=c")), Err(InitError::InvalidDefaultLogFilter));
}

#[test]
fn default_directive_of_each_answer() {
    assert_eq!(default_directive(Ok(directive("warn"))), Ok(directive("warn")));
    let refusal = "a=b=c".parse::<Directive>().unwrap_err();
    assert_eq!(default_directive(Err(refusal)), Err(InitError::InvalidDefaultLogFilter));
}

#[test]
fn init_defaults() {
    assert_eq!(
        init(None, None, &unset()),
        complete(None, FmtSpan::NONE, true, OutputFormat::Pretty)
    );
}

#[test]
fn init_reads_everything() {
    let env = Environment {
        span_events: text("New, CLOSE"),
        color: text("Off"),
        format: text("Compact"),
    };
    assert_eq!(
        init(Some("info"), None, &env),
        complete(
            Some(directive("info")),
            FmtSpan::NEW | FmtSpan::CLOSE,
            false,
            OutputFormat::Compact
        )
    );
}

#[test]
fn color_off_in_the_attribute_beats_color_on_in_the_environment() {
    let env = Environment { span_events: EnvValue::Unset, color: text("on"), format: EnvValue::Unset };
    assert_eq!(
        init(None, Some(false), &env),
        complete(None, FmtSpan::NONE, false, OutputFormat::Pretty)
    );
}

#[test]
fn color_is_on_where_nothing_says_otherwise() {
    assert_eq!(
        init(None, None, &unset()),
        complete(None, FmtSpan::NONE, true, OutputFormat::Pretty)
    );
}

#[test]
fn init_attribute_color_beats_malformed_environment() {
    let env = Environment { span_events: EnvValue::Unset, color: text("maybe"), format: text("full") };
    assert_eq!(
        init(None, Some(true), &env),
        complete(None, FmtSpan::NONE, true, OutputFormat::Full)
    );
    assert_eq!(init(None, None, &env), Err(InitError::Environment(EnvError::InvalidColor)));
}

#[test]
fn init_is_idempotent() {
    let env = Environment {
        span_events: text("active,new"),
        color: text("0"),
        format: text("full"),
    };
    let first = init(Some("debug"), None, &env);
    let second = init(Some("debug"), None, &env);
    assert!(first.is_ok());
    assert_eq!(first, second);
    let broken = Environment { span_events: text("bogus"), color: text("0"), format: text("full") };
    assert_eq!(init(None, None, &broken), init(None, None, &broken));
    assert!(init(None, None, &broken).is_err());
}

#[test]
fn init_reports_the_first_error_in_order() {
    let all_bad = Environment { span_events: text("bogus"), color: text("maybe"), format: text("xml") };
    assert_eq!(
        init(Some("a=b=c"), None, &all_bad),
        Err(InitError::Environment(EnvError::UnknownSpanEvent { token: "bogus".to_string() }))
    );
    let events_good =
        Environment { span_events: text("new"), color: text("maybe"), format: text("xml") };
    assert_eq!(init(Some("a=b=c"), None, &events_good), Err(InitError::InvalidDefaultLogFilter));
    assert_eq!(
        init(Some("debug"), None, &events_good),
        Err(InitError::Environment(EnvError::InvalidColor))
    );
    assert_eq!(
        init(Some("debug"), Some(false), &events_good),
        Err(InitError::Environment(EnvError::UnknownFormat { value: "xml".to_string() }))
    );
}

#[test]
fn init_refuses_what_is_not_unicode() {
    let env = Environment {
        span_events: EnvValue::Unset,
        color: EnvValue::Unset,
        format: EnvValue::NotUnicode,
    };
    let error = init(None, None, &env).unwrap_err();
    assert_eq!(error, InitError::Environment(EnvError::NotUnicode { variable: EnvVar::Format }));
    assert_eq!(error.message(), "test-pretty-log: RUST_LOG_FORMAT must be valid UTF-8");
}

#[test]
fn default_log_filter_agrees_with_the_parser_and_never_panics() {
    let parts = [
        "a", "my_crate", "info", "debug", "5", "=", "=", "[", "]", "{", "}", ",", ":", "-", "_",
        " ", "\t", "\u{a0}", "\u{3000}", "\u{e9}", "\u{4e16}", "\u{1f600}", "x=1", "\"", ".",
    ];
    let mut state: u64 = 0x9e3779b97f4a7c15;
    let mut shown = 0;
    let mut kept_away = 0;
    for _ in 0..5000 {
        let mut filter = String::new();
        state = state.wrapping_mul(6364136223846793005).wrapping_add(1442695040888963407);
        let pieces = (state >> 60) as usize % 7;
        for _ in 0..pieces {
            state = state.wrapping_mul(6364136223846793005).wrapping_add(1442695040888963407);
            filter.push_str(parts[(state >> 33) as usize % parts.len()]);
        }
        let made = build_env_filter(Some(&filter));
        let trimmed_at_the_front = filter.trim_start().len() != filter.len();
        if trimmed_at_the_front && !filter.is_ascii() {
            assert_eq!(made, unparsed(&filter), "{:?}", filter);
            kept_away += 1;
        } else {
            match filter.parse::<Directive>() {
                Ok(answer) => {
                    assert_eq!(made, Ok(DefaultFilter::Directive(answer)), "{:?}", filter)
                }
                Err(_) => assert_eq!(made, Err(InitError::InvalidDefaultLogFilter), "{:?}", filter),
            }
            shown += 1;
        }
    }
    assert!(shown > 1000);
    assert!(kept_away > 100);
}

#[test]
fn init_stops_at_text_that_the_parser_is_not_shown() {
    let env = Environment {
        span_events: text("new,close"),
        color: text("maybe"),
        format: text("xml"),
    };
    assert_eq!(
        init(Some(" \u{e9}"), None, &env),
        Ok(Resolution::AwaitsDirective {
            default_log_filter: " \u{e9}".to_string(),
            span_event_mask: FmtSpan::NEW | FmtSpan::CLOSE,
        })
    );
    let broken = Environment { span_events: text("bogus"), color: text("0"), format: text("full") };
    assert_eq!(
        init(Some(" \u{e9}"), None, &broken),
        Err(InitError::Environment(EnvError::UnknownSpanEvent { token: "bogus".to_string() }))
    );
}

#[test]
fn settle_goes_on_after_the_parser() {
    let env = Environment { span_events: text("new"), color: text("off"), format: text("full") };
    let resolution = init(Some("\u{a0}debug"), None, &env).unwrap();
    let Resolution::AwaitsDirective { default_log_filter, span_event_mask } = resolution else {
        panic!("{:?}", resolution);
    };
    assert_eq!(default_log_filter, "\u{a0}debug");
    let answer = default_directive(default_log_filter.parse()).unwrap();
    assert_eq!(
        settle(Some(answer), span_event_mask, None, &env),
        Ok(SubscriberConfig {
            default_directive: Some(directive("\u{a0}debug")),
            settings: EnvironmentSettings {
                span_event_mask: FmtSpan::NEW,
                color_enabled: false,
                output_format: OutputFormat::Full,
            },
        })
    );
}

#[test]
fn settle_reads_colors_before_the_format() {
    let both_bad = Environment { span_events: text("new"), color: text("maybe"), format: text("xml") };
    assert_eq!(
        settle(None, FmtSpan::NEW, None, &both_bad),
        Err(InitError::Environment(EnvError::InvalidColor))
    );
    assert_eq!(
        settle(None, FmtSpan::NEW, Some(false), &both_bad),
        Err(InitError::Environment(EnvError::UnknownFormat { value: "xml".to_string() }))
    );
    let good = Environment { span_events: text("bogus"), color: text("on"), format: text("compact") };
    assert_eq!(
        settle(Some(directive("warn")), FmtSpan::ACTIVE, Some(false), &good),
        Ok(SubscriberConfig {
            default_directive: Some(directive("warn")),
            settings: EnvironmentSettings {
                span_event_mask: FmtSpan::ACTIVE,
                color_enabled: false,
                output_format: OutputFormat::Compact,
            },
        })
    );
}
