use lexa_logger::builder;
use lexa_logger::facade::InstallError;
use lexa_logger::facade::LoggerFacade;
use lexa_logger::filter::FilterPredicate;
use lexa_logger::initiator::LoggerInitiator;
use lexa_logger::settings::Settings;
use lexa_logger::settings::SettingsLevel;
use lexa_logger::severity::Event;
use lexa_logger::severity::Metadata;
use lexa_logger::severity::Severity;
use lexa_logger::clock::Timestamp;
use lexa_logger::stdout::DefaultFormat;
use lexa_logger::stdout::EchoStream;
use lexa_logger::stdout::Logger;
use lexa_logger::stdout::RowFormat;

enum Pred {
    Always(bool),
}

impl FilterPredicate for Pred {
    fn evaluate(&mut self, _metadata: &Metadata) -> bool {
        match self {
            Pred::Always(b) => *b,
        }
    }
}

fn event(severity: Severity, source: &str, message: &str) -> Event {
    Event {
        metadata: Metadata { severity, source: source.to_string() },
        message: message.to_string(),
    }
}

#[test]
fn blank_message_produces_no_output() {
    let mut logger = Logger::<Pred>::builder().with_level(Severity::Trace).build();
    assert!(logger.log(&event(Severity::Info, "mod", "")).is_none());
    assert!(logger.log(&event(Severity::Info, "mod", "   \t\n")).is_none());
    assert!(logger.log(&event(Severity::Info, "mod", "hi")).is_some());
}

#[test]
fn end_to_end_plain_info_line() {
    let mut facade = LoggerFacade::new();
    Logger::<Pred>::builder()
        .with_color(false)
        .with_timestamp(false)
        .with_level(Severity::Info)
        .build()
        .apply(&mut facade)
        .unwrap();
    // Below the threshold: nothing.
    assert!(facade.log(&event(Severity::Debug, "mod", "hi")).is_none());
    // At the threshold: exactly the aligned line.
    let echo = facade.log(&event(Severity::Info, "mod", "hi")).unwrap();
    assert_eq!(echo.text, " INFO| mod -> hi\n");
    assert_eq!(echo.stream, EchoStream::StdOut);
}

#[test]
fn error_events_go_to_stderr() {
    let mut logger = Logger::<Pred>::builder().with_level(Severity::Trace).build();
    let echo = logger.log(&event(Severity::Error, "core", "boom")).unwrap();
    assert_eq!(echo.stream, EchoStream::StdErr);
    assert_eq!(echo.text, "ERROR| core -> boom\n");
    let warn = logger.log(&event(Severity::Warn, "core", "careful")).unwrap();
    assert_eq!(warn.stream, EchoStream::StdOut);
    assert_eq!(warn.text, " WARN| core -> careful\n");
}

#[test]
fn long_messages_are_capped_at_120_columns() {
    let mut logger = Logger::<Pred>::builder().with_level(Severity::Trace).build();
    let long = "x".repeat(500);
    let echo = logger.log(&event(Severity::Info, "mod", &long)).unwrap();
    let line = echo.text.trim_end_matches('\n');
    assert_eq!(line.chars().count(), 120);
    assert!(line.starts_with(" INFO| mod -> xxx"));
}

#[test]
fn timestamped_line_has_clock_between_delimiters() {
    let mut logger = Logger::<Pred>::builder()
        .with_timestamp(true)
        .with_level(Severity::Trace)
        .build();
    let echo = logger.log(&event(Severity::Info, "mod", "hi")).unwrap();
    let text = echo.text;
    assert!(text.starts_with(" INFO|"));
    assert!(text.ends_with(" mod -> hi\n"));
    let middle = &text[6..text.len() - 11];
    assert!(middle.ends_with('|'));
    let stamp = &middle[..middle.len() - 1];
    assert_eq!(stamp.len(), 19);
    assert_eq!(&stamp[4..5], "-");
    assert_eq!(&stamp[7..8], "-");
    assert_eq!(&stamp[10..11], "@");
    assert_eq!(&stamp[13..14], ":");
    assert_eq!(&stamp[16..17], ":");
}

#[test]
fn predicates_gate_the_sink() {
    let mut logger = Logger::builder()
        .filter(Pred::Always(false), "a")
        .with_level(Severity::Trace)
        .build();
    assert!(logger.log(&event(Severity::Info, "mod", "hi")).is_none());
    let mut open_logger = Logger::builder()
        .filter(Pred::Always(false), "a")
        .filter(Pred::Always(true), "b")
        .with_level(Severity::Trace)
        .build();
    assert!(open_logger.log(&event(Severity::Info, "mod", "hi")).is_some());
}

#[test]
fn installing_twice_is_refused() {
    let mut facade = LoggerFacade::new();
    let first = Logger::<Pred>::builder().with_level(Severity::Info).build();
    assert!(first.apply(&mut facade).is_ok());
    let second = Logger::<Pred>::builder().with_level(Severity::Trace).build();
    assert_eq!(second.apply(&mut facade), Err(InstallError::AlreadyInstalled));
}

#[test]
fn off_threshold_installs_a_noop_target() {
    let mut facade = LoggerFacade::new();
    Logger::<Pred>::builder().build().apply(&mut facade).unwrap();
    assert!(facade.log(&event(Severity::Error, "mod", "hi")).is_none());
    assert!(facade.log(&event(Severity::Trace, "mod", "hi")).is_none());
}

#[test]
fn initiator_builds_and_installs() {
    let mut facade = LoggerFacade::new();
    let b = Logger::<Pred>::builder().with_level(Severity::Info).with_color(false);
    LoggerInitiator::stdout(b, &mut facade).unwrap();
    let echo = facade.log(&event(Severity::Info, "mod", "hi")).unwrap();
    assert_eq!(echo.text, " INFO| mod -> hi\n");
    let b2 = Logger::<Pred>::builder();
    assert_eq!(LoggerInitiator::stdout(b2, &mut facade), Err(InstallError::AlreadyInstalled));
}

#[test]
fn preset_builder_enables_color_and_timestamp() {
    let b = builder::Logger::stdout::<Pred>();
    assert!(b.colorized);
    assert!(b.timestamp);
    assert!(b.level.is_none());
}

#[test]
fn settings_defaults() {
    let s = Settings::default();
    assert!(s.colorized);
    assert!(s.timestamp);
    assert!(matches!(s.max_level, SettingsLevel::TRACE));
    assert!(s.target_filters.is_empty());
}

#[test]
fn settings_levels_map_to_severities() {
    assert_eq!(Severity::from(SettingsLevel::DEBUG), Severity::Debug);
    assert_eq!(Severity::from(SettingsLevel::ERROR), Severity::Error);
    assert_eq!(Severity::from(SettingsLevel::INFO), Severity::Info);
    assert_eq!(Severity::from(SettingsLevel::TRACE), Severity::Trace);
    assert_eq!(Severity::from(SettingsLevel::WARNING), Severity::Warn);
}

struct TerseFormat;

impl RowFormat for TerseFormat {
    fn format(&mut self, _colorized: bool, event: &Event, _time: Option<Timestamp>) -> String {
        format!("{}: {}\n", event.metadata.source, event.message)
    }
}

#[test]
fn custom_format_replaces_layout_not_filtering() {
    let mut logger = Logger::<Pred>::builder().with_level(Severity::Trace).build();
    let echo = logger.log_with(&event(Severity::Info, "mod", "hi"), &mut TerseFormat).unwrap();
    assert_eq!(echo.text, "mod: hi\n");
    assert_eq!(echo.stream, EchoStream::StdOut);
    // Blank messages and Off events still produce nothing, custom layout or not.
    assert!(logger.log_with(&event(Severity::Info, "mod", "  "), &mut TerseFormat).is_none());
    assert!(logger.log_with(&event(Severity::Off, "mod", "hi"), &mut TerseFormat).is_none());
    // An error still goes to standard error.
    let err = logger.log_with(&event(Severity::Error, "mod", "boom"), &mut TerseFormat).unwrap();
    assert_eq!(err.stream, EchoStream::StdErr);
}

#[test]
fn default_format_matches_log() {
    let mut logger = Logger::<Pred>::builder().with_level(Severity::Trace).build();
    let via_trait = logger.log_with(&event(Severity::Info, "mod", "hi"), &mut DefaultFormat).unwrap();
    let direct = logger.log(&event(Severity::Info, "mod", "hi")).unwrap();
    assert_eq!(via_trait.text, direct.text);
    assert_eq!(via_trait.text, " INFO| mod -> hi\n");
}
