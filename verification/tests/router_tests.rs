use trace4rs::config::{AppenderId, Format, Target};
use trace4rs::level::LevelFilter;
use trace4rs::router::{EventFormatter, Logger, T4Layer};
use trace4rs::template::FieldValues;

fn ids(names: &[&str]) -> Vec<AppenderId> {
    names.iter().map(|n| AppenderId(n.to_string())).collect()
}

fn layer() -> T4Layer {
    let specific = Logger::new(
        LevelFilter::Info,
        Some(Target(String::from("foo"))),
        ids(&["file1"]),
        EventFormatter::MessageOnly,
    );
    let default = Logger::new(LevelFilter::Warn, None, ids(&["stdout"]), EventFormatter::Normal);
    T4Layer::new(default, vec![specific])
}

#[test]
fn specific_route_suppresses_default() {
    let l = layer();
    let d = l.route_event(&LevelFilter::Info, "foo::bar");
    assert_eq!(d.specific, vec![0]);
    assert!(!d.use_default);
}

#[test]
fn unrelated_target_falls_to_default() {
    let l = layer();
    let d = l.route_event(&LevelFilter::Warn, "unrelated");
    assert!(d.specific.is_empty());
    assert!(d.use_default);
}

#[test]
fn level_filtered_specific_does_not_suppress_default() {
    let l = layer();
    // target matches "foo" but DEBUG fails its INFO threshold; the default's
    // own WARN threshold then decides alone, and DEBUG fails that too
    let d = l.route_event(&LevelFilter::Debug, "foo::bar");
    assert!(d.specific.is_empty());
    assert!(!d.use_default);
    // a WARN event to the same target matches the specific route
    let d2 = l.route_event(&LevelFilter::Warn, "foo::bar");
    assert_eq!(d2.specific, vec![0]);
    assert!(!d2.use_default);
}

#[test]
fn prefix_union_reaches_every_matching_route() {
    let r1 = Logger::new(
        LevelFilter::Trace,
        Some(Target(String::from("foo"))),
        ids(&["a"]),
        EventFormatter::MessageOnly,
    );
    let r2 = Logger::new(
        LevelFilter::Trace,
        Some(Target(String::from("foo::bar"))),
        ids(&["b"]),
        EventFormatter::MessageOnly,
    );
    let default = Logger::new(LevelFilter::Warn, None, ids(&["stdout"]), EventFormatter::Normal);
    let l = T4Layer::new(default, vec![r1, r2]);
    let d = l.route_event(&LevelFilter::Info, "foo::bar::baz");
    assert_eq!(d.specific, vec![0, 1]);
    assert!(!d.use_default);
}

#[test]
fn disable_silences_everything() {
    let mut l = layer();
    l.disable();
    let d = l.route_event(&LevelFilter::Error, "foo::bar");
    assert!(d.specific.is_empty());
    assert!(!d.use_default);
    let d2 = l.route_event(&LevelFilter::Error, "unrelated");
    assert!(d2.specific.is_empty());
    assert!(!d2.use_default);
}

#[test]
fn enable_restores_routing_as_configured() {
    let mut l = layer();
    let before = l.route_event(&LevelFilter::Info, "foo::bar");
    l.disable();
    l.enable();
    let after = l.route_event(&LevelFilter::Info, "foo::bar");
    assert_eq!(before.specific, after.specific);
    assert_eq!(before.use_default, after.use_default);
}

#[test]
fn custom_format_that_fails_to_compile_falls_back_to_normal() {
    let f = EventFormatter::from_format(&Format::Custom(String::from("{zz}")));
    assert!(matches!(f, EventFormatter::Normal));
    let ok = EventFormatter::from_format(&Format::Custom(String::from("{m}")));
    assert!(matches!(ok, EventFormatter::Custom(_)));
}

#[test]
fn message_only_renders_just_the_message() {
    let f = EventFormatter::from_format(&Format::MessageOnly);
    let v = FieldValues {
        timestamp: String::new(),
        timestamp_utc: String::new(),
        target: String::new(),
        message: String::from("just this"),
        fields: String::new(),
        level: String::new(),
    };
    assert_eq!(f.format_line(&v), Some(String::from("just this\n")));
    let n = EventFormatter::from_format(&Format::Normal);
    assert_eq!(n.format_line(&v), None);
}

#[test]
fn plan_event_lists_one_write_per_selected_route() {
    let l = layer();
    let v = FieldValues {
        timestamp: String::new(),
        timestamp_utc: String::new(),
        target: String::from("foo::bar"),
        message: String::from("hi"),
        fields: String::new(),
        level: String::from("INFO"),
    };
    let plan = l.plan_event(&LevelFilter::Info, "foo::bar", &v);
    assert_eq!(plan.len(), 1);
    assert_eq!(plan[0].appenders.len(), 1);
    assert_eq!(plan[0].appenders[0].0, "file1");
    assert_eq!(plan[0].line.as_deref(), Some("hi\n"));

    // the default fires alone for an unrelated target
    let plan2 = l.plan_event(&LevelFilter::Warn, "unrelated", &v);
    assert_eq!(plan2.len(), 1);
    assert_eq!(plan2[0].appenders[0].0, "stdout");
    assert_eq!(plan2[0].line, None);
}
