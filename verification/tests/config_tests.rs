use trace4rs::appenders::{make_qualified_pattern, Appender, Appenders, Console};
use trace4rs::config::{
    Appender as AppenderConfig, AppenderId, Config, Format, Logger as LoggerConfig, Target,
};
use trace4rs::level::LevelFilter;
use trace4rs::rolling::{Roller, Trigger};
use trace4rs::router::T4Layer;

#[test]
fn console_config_defaults_to_stdout_info() {
    let c = Config::default();
    assert_eq!(c.default.level, LevelFilter::Info);
    assert!(c.default.format.is_normal());
    assert_eq!(c.default.appenders.len(), 1);
    assert_eq!(c.default.appenders[0].0, "stdout");
    assert_eq!(c.appenders.len(), 1);
    assert!(matches!(c.appenders[0].1, AppenderConfig::Console));
    assert!(c.loggers.is_empty());
}

#[test]
fn registry_lookup_finds_by_name() {
    let items = vec![
        (AppenderId(String::from("a")), Appender::new_null()),
        (AppenderId(String::from("b")), Appender::Console(Console::new())),
    ];
    let reg = Appenders::new(items);
    assert_eq!(reg.len(), 2);
    assert_eq!(reg.get("b"), Some(1));
    assert_eq!(reg.get("a"), Some(0));
    assert_eq!(reg.get("missing"), None);
}

#[test]
fn qualified_pattern_is_anchored_beside_the_active_file() {
    assert_eq!(
        make_qualified_pattern("/foo/bar.log", None),
        "/foo/bar.log.{}"
    );
    assert_eq!(
        make_qualified_pattern("/foo/bar.log", Some("bar_roll.{}")),
        "/foo/bar_roll.{}"
    );
}

#[test]
fn new_rolling_builds_trigger_and_roller() {
    let a = Appender::new_rolling("/tmp/foo.log", None, 3, "10kb", 0).unwrap();
    match a {
        Appender::RollingFile(r) => {
            assert!(matches!(r.trigger, Trigger::Size { limit: 10240 }));
            match r.roller {
                Roller::FixedWindow(w) => {
                    assert_eq!(w.count, 3);
                    assert_eq!(w.last, None);
                    assert_eq!(w.pattern, "/tmp/foo.log.{}");
                }
                Roller::Delete => panic!("expected a fixed window"),
            }
        }
        _ => panic!("expected a rolling appender"),
    }
}

#[test]
fn new_rolling_zero_backups_means_delete() {
    let a = Appender::new_rolling("/tmp/foo.log", None, 0, "1mb", 0).unwrap();
    match a {
        Appender::RollingFile(r) => assert!(matches!(r.roller, Roller::Delete)),
        _ => panic!("expected a rolling appender"),
    }
}

#[test]
fn new_rolling_bad_size_is_refused() {
    assert!(Appender::new_rolling("/tmp/foo.log", None, 3, "10zz", 0).is_err());
}

#[test]
fn from_config_builds_the_configured_routes() {
    let config = Config {
        default: LoggerConfig {
            appenders: vec![AppenderId(String::from("stdout"))],
            level: LevelFilter::Warn,
            format: Format::Normal,
        },
        appenders: vec![(AppenderId(String::from("stdout")), AppenderConfig::Console)],
        loggers: vec![(
            Target(String::from("foo")),
            LoggerConfig {
                appenders: vec![AppenderId(String::from("stdout"))],
                level: LevelFilter::Info,
                format: Format::MessageOnly,
            },
        )],
    };
    let layer = T4Layer::from_config(&config);
    assert!(layer.enabled);
    assert_eq!(layer.loggers.len(), 1);
    assert_eq!(layer.default.level, LevelFilter::Warn);
    assert!(layer.default.target.is_none());

    // INFO at foo::bar takes the specific route; the default stays silent
    let d = layer.route_event(&LevelFilter::Info, "foo::bar");
    assert_eq!(d.specific, vec![0]);
    assert!(!d.use_default);
    let d2 = layer.route_event(&LevelFilter::Warn, "unrelated");
    assert!(d2.specific.is_empty());
    assert!(d2.use_default);
}

#[test]
fn level_maximum_admits_everything() {
    let max = LevelFilter::maximum();
    assert_eq!(max, LevelFilter::Trace);
    for l in [
        LevelFilter::Off,
        LevelFilter::Error,
        LevelFilter::Warn,
        LevelFilter::Info,
        LevelFilter::Debug,
        LevelFilter::Trace,
    ] {
        assert!(l.passes(&max));
    }
    // an event passes only thresholds at least as verbose as itself
    assert!(LevelFilter::Error.passes(&LevelFilter::Warn));
    assert!(!LevelFilter::Debug.passes(&LevelFilter::Info));
}

#[test]
fn small_getters() {
    assert_eq!(Target(String::from("a::b")).as_str(), "a::b");
    assert!(Format::Normal.is_normal());
    assert!(!Format::MessageOnly.is_normal());
    assert!(!Format::Custom(String::from("{m}")).is_normal());
}

#[test]
fn runtime_appender_constructors() {
    assert!(matches!(Appender::new_null(), Appender::Null));
    assert!(matches!(Appender::new_console(), Appender::Console(_)));
    match Appender::new_file(String::from("/tmp/x.log")) {
        Appender::File(f) => assert_eq!(f.path_str(), "/tmp/x.log"),
        _ => panic!("expected a file appender"),
    }
    let mut console = Appender::new_console();
    assert!(console.on_write(5).is_none());
}
