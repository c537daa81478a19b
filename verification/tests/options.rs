use cli_batteries::console::LogFormat;
use cli_batteries::expr::parse_expression;
use cli_batteries::filter::{MinLevel, TargetFilter};
use cli_batteries::level::{verbosity_levels, Level};
use cli_batteries::options::{parse_log_format, Options};

fn args_of(cmd: &str) -> Vec<String> {
    cmd.split(' ').map(|s| s.to_string()).collect()
}

#[test]
fn test_parse_args() {
    let cmd = "arg0 -v --log-filter foo -vvv";
    let options = Options::from_args(&args_of(cmd)).unwrap();
    assert_eq!(
        options,
        Options {
            verbose: 4,
            log_filter: "foo".to_owned(),
            log_format: LogFormat::Pretty,
            trace_flame: None,
        }
    );
}

#[test]
fn parse_args_defaults() {
    let options = Options::from_args(&args_of("prog")).unwrap();
    assert_eq!(options.verbose, 0);
    assert_eq!(options.log_filter, "");
    assert_eq!(options.log_format, LogFormat::Pretty);
    assert_eq!(options.trace_flame, None);
}

#[test]
fn parse_args_all_flags() {
    let cmd = "prog --verbose --log-format json --trace-flame out.folded";
    let options = Options::from_args(&args_of(cmd)).unwrap();
    assert_eq!(options.verbose, 1);
    assert_eq!(options.log_format, LogFormat::Json);
    assert_eq!(options.trace_flame, Some("out.folded".to_owned()));
}

#[test]
fn parse_args_rejects_unknown_flag() {
    let err = Options::from_args(&args_of("prog --frobnicate")).unwrap_err();
    assert_eq!(err.token, "--frobnicate");
}

#[test]
fn parse_args_rejects_missing_value() {
    assert!(Options::from_args(&args_of("prog --log-filter")).is_err());
}

#[test]
fn parse_log_format_rejects_unknown() {
    assert_eq!(parse_log_format("compact").unwrap(), LogFormat::Compact);
    let err = parse_log_format("yaml").unwrap_err();
    assert_eq!(err.token, "yaml");
}

#[test]
fn verbosity_table_is_exact() {
    assert_eq!(verbosity_levels(0), (Level::Error, Level::Info));
    assert_eq!(verbosity_levels(1), (Level::Info, Level::Info));
    assert_eq!(verbosity_levels(2), (Level::Info, Level::Debug));
    assert_eq!(verbosity_levels(3), (Level::Info, Level::Trace));
    assert_eq!(verbosity_levels(4), (Level::Debug, Level::Trace));
    assert_eq!(verbosity_levels(5), (Level::Trace, Level::Trace));
    assert_eq!(verbosity_levels(17), (Level::Trace, Level::Trace));
}

#[test]
fn expression_parses_directives() {
    let f = parse_expression("foo=debug,warn").unwrap();
    assert!(f.accepts("foo", Level::Debug));
    assert!(!f.accepts("foo", Level::Trace));
    // The bare `warn` directive sets the default for every other target.
    assert!(f.accepts("bar", Level::Warn));
    assert!(!f.accepts("bar", Level::Info));
}

#[test]
fn expression_empty_accepts_nothing() {
    let f = parse_expression("").unwrap();
    assert!(!f.accepts("anything", Level::Error));
}

#[test]
fn expression_names_offending_token() {
    let err = parse_expression("foo=debug,bar=banana,baz=info").unwrap_err();
    assert_eq!(err.token, "bar=banana");
}

#[test]
fn expression_off_and_uppercase_levels() {
    let f = parse_expression("noisy=off,DEBUG").unwrap();
    assert!(!f.accepts("noisy", Level::Error));
    assert!(f.accepts("elsewhere", Level::Debug));
    assert!(!f.accepts("elsewhere", Level::Trace));
}

#[test]
fn expression_later_directive_wins() {
    let f = parse_expression("foo=error,foo=trace").unwrap();
    assert!(f.accepts("foo", Level::Trace));
}

#[test]
fn combine_accepts_what_either_accepts() {
    let mut a = TargetFilter::with_default(MinLevel::At(Level::Error));
    a.set_target("app".to_owned(), MinLevel::At(Level::Trace));
    let mut b = TargetFilter::with_default(MinLevel::At(Level::Info));
    b.set_target("net".to_owned(), MinLevel::Off);
    let c = a.combine(&b);
    for target in ["app", "net", "other"] {
        for level in [
            Level::Trace,
            Level::Debug,
            Level::Info,
            Level::Warn,
            Level::Error,
        ] {
            assert_eq!(
                c.accepts(target, level),
                a.accepts(target, level) || b.accepts(target, level),
                "target {target}"
            );
        }
    }
    // The `net=off` override must not mask what the other filter's default
    // accepts: errors still pass for `net`.
    assert!(c.accepts("net", Level::Error));
    assert!(!c.accepts("net", Level::Info));
}

#[test]
fn resolve_filter_combines_verbosity_and_expression() {
    let o = Options {
        verbose: 0,
        log_filter: "deep=trace".to_owned(),
        log_format: LogFormat::Pretty,
        trace_flame: None,
    };
    let f = o.resolve_filter("my-app", "my_app_bin").unwrap();
    // Verbosity 0: everything at ERROR, own targets at INFO.
    assert!(f.accepts("somewhere", Level::Error));
    assert!(!f.accepts("somewhere", Level::Warn));
    assert!(f.accepts("my_app", Level::Info));
    assert!(!f.accepts("my_app", Level::Debug));
    assert!(f.accepts("my_app_bin", Level::Info));
    // The expression broadens `deep` to TRACE.
    assert!(f.accepts("deep", Level::Trace));
}

#[test]
fn resolve_filter_reports_parse_error() {
    let o = Options {
        verbose: 1,
        log_filter: "no-such-level".to_owned(),
        log_format: LogFormat::Compact,
        trace_flame: None,
    };
    let err = o.resolve_filter("pkg", "bin").unwrap_err();
    assert_eq!(err.token, "no-such-level");
}
