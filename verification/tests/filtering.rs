use lexa_logger::cache::FilterCache;
use lexa_logger::filter::FilterPredicate;
use lexa_logger::filter::LoggerFilter;
use lexa_logger::severity::Metadata;
use lexa_logger::severity::Severity;
use lexa_logger::stdout::Logger;

enum Pred {
    Always(bool),
    Counting(u32, bool),
}

impl FilterPredicate for Pred {
    fn evaluate(&mut self, _metadata: &Metadata) -> bool {
        match self {
            Pred::Always(b) => *b,
            Pred::Counting(calls, b) => {
                *calls += 1;
                *b
            },
        }
    }
}

fn metadata(severity: Severity, source: &str) -> Metadata {
    Metadata { severity, source: source.to_string() }
}

fn calls_of(p: &Pred) -> u32 {
    match p {
        Pred::Always(_) => 0,
        Pred::Counting(calls, _) => *calls,
    }
}

#[test]
fn off_never_enabled_without_predicates() {
    let mut logger = Logger::<Pred>::builder().build();
    assert!(!logger.enabled(&metadata(Severity::Off, "anything")));
}

#[test]
fn off_never_enabled_with_true_predicate() {
    let mut logger = Logger::builder().filter(Pred::Always(true), "dep").build();
    assert!(!logger.enabled(&metadata(Severity::Off, "core")));
    assert!(!logger.enabled(&metadata(Severity::Off, "other")));
}

#[test]
fn empty_predicates_enabled_is_not_off() {
    let mut logger = Logger::<Pred>::builder().build();
    let severities = vec![
        Severity::Off,
        Severity::Error,
        Severity::Warn,
        Severity::Info,
        Severity::Debug,
        Severity::Trace,
    ];
    for severity in severities {
        let expected = severity != Severity::Off;
        assert_eq!(logger.enabled(&metadata(severity, "mod")), expected);
    }
}

#[test]
fn memoization_invokes_predicate_once() {
    let mut cache = FilterCache::new();
    let mut filter = LoggerFilter::new();
    filter.push_callback(Pred::Counting(0, true));
    filter.add_dependency("dep");
    let m = metadata(Severity::Info, "core");
    assert!(cache.decide(&mut filter, &m));
    assert!(cache.decide(&mut filter, &m));
    assert_eq!(calls_of(&filter.callbacks[0]), 1);
}

#[test]
fn memoization_caches_false_verdicts_too() {
    let mut cache = FilterCache::new();
    let mut filter = LoggerFilter::new();
    filter.push_callback(Pred::Counting(0, false));
    filter.add_dependency("dep");
    let m = metadata(Severity::Info, "core");
    assert!(!cache.decide(&mut filter, &m));
    assert!(!cache.decide(&mut filter, &m));
    assert_eq!(calls_of(&filter.callbacks[0]), 1);
}

#[test]
fn memoization_is_per_source() {
    let mut cache = FilterCache::new();
    let mut filter = LoggerFilter::new();
    filter.push_callback(Pred::Counting(0, false));
    filter.add_dependency("dep");
    assert!(!cache.decide(&mut filter, &metadata(Severity::Info, "one")));
    assert!(!cache.decide(&mut filter, &metadata(Severity::Info, "two")));
    assert_eq!(calls_of(&filter.callbacks[0]), 2);
}

#[test]
fn or_semantics_any_true_predicate_wins() {
    let mut logger = Logger::builder()
        .filter(Pred::Always(false), "a")
        .filter(Pred::Always(true), "b")
        .build();
    assert!(logger.enabled(&metadata(Severity::Info, "x")));
    assert!(logger.enabled(&metadata(Severity::Trace, "y")));
}

#[test]
fn all_false_predicates_disable() {
    let mut logger = Logger::builder()
        .filter(Pred::Always(false), "a")
        .filter(Pred::Always(false), "b")
        .build();
    assert!(!logger.enabled(&metadata(Severity::Info, "x")));
}

#[test]
fn empty_predicate_list_passes_at_cache_level() {
    let mut cache = FilterCache::new();
    let mut filter: LoggerFilter<Pred> = LoggerFilter::new();
    assert!(cache.decide(&mut filter, &metadata(Severity::Info, "any")));
}

#[test]
fn cache_get_and_insert_round_trip() {
    let mut cache = FilterCache::new();
    let key = "dep_core".to_string();
    assert_eq!(cache.get(&key), None);
    cache.insert(key.clone(), true);
    assert_eq!(cache.get(&key), Some(true));
    assert_eq!(cache.get(&"dep_other".to_string()), None);
}
