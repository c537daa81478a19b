//! Configuration: the option set consumed from the command line, its
//! argument grammar, and the resolution of verbosity count plus filter
//! expression into the one effective target filter all layers share.

use vstd::prelude::*;
use crate::console::LogFormat;
use crate::expr::{parse_expression, parse_expression_spec, ParseError};
use crate::filter::{entries_min, tf_entries, tfe_insert, MinLevel, TargetFilter};
use crate::level::{verbosity_levels, verbosity_levels_spec, Level};
use crate::text::{chars_to_string, dash_to_underscore, dash_to_underscore_spec, str_eq,
    str_to_chars};

verus! {

/// The configuration surface: verbosity count, filter expression, chosen
/// text format, and the optional flame-output destination.
#[derive(Debug, PartialEq, Eq)]
pub struct Options {
    /// Verbose mode: how many `-v` occurrences were given.
    pub verbose: u64,
    /// A filter expression in the mini-language of [`parse_expression`].
    pub log_filter: String,
    /// Which console form to render: compact, pretty or JSON.
    pub log_format: LogFormat,
    /// Destination path for the flame recorder, when tracing is wanted.
    pub trace_flame: Option<String>,
}

/// The log format named by a token: `compact`, `pretty` or `json`.
pub open spec fn log_format_of(tok: Seq<char>) -> Option<LogFormat> {
    if tok == "compact"@ {
        Some(LogFormat::Compact)
    } else if tok == "pretty"@ {
        Some(LogFormat::Pretty)
    } else if tok == "json"@ {
        Some(LogFormat::Json)
    } else {
        None
    }
}

/// Parses a log-format token; a malformed one is returned as the error's
/// token.
pub fn parse_log_format(s: &str) -> (r: Result<LogFormat, ParseError>)
    ensures
        match r {
            Ok(f) => log_format_of(s@) == Some(f),
            Err(e) => log_format_of(s@) is None && e.token@ == s@,
        },
{
    let v = str_to_chars(s);
    if crate::text::chars_eq(&v, "compact") {
        Ok(LogFormat::Compact)
    } else if crate::text::chars_eq(&v, "pretty") {
        Ok(LogFormat::Pretty)
    } else if crate::text::chars_eq(&v, "json") {
        Ok(LogFormat::Json)
    } else {
        Err(ParseError { token: s.to_owned() })
    }
}

/// `true` iff the token is a run of verbose short flags: `-v`, `-vv`, ...
pub open spec fn is_verbose_run(tok: Seq<char>) -> bool {
    tok.len() >= 2 && tok[0] == '-' && forall|j: int| 1 <= j < tok.len() ==> tok[j] == 'v'
}

/// Addition on the verbose counter, saturating at the counter's maximum.
pub open spec fn sat_add_u64(a: int, b: int) -> int {
    if a + b > 0xffff_ffff_ffff_ffff {
        0xffff_ffff_ffff_ffff
    } else {
        a + b
    }
}

/// The accumulated option values while arguments parse: verbose count,
/// filter expression, log format, flame path.
pub ghost struct OptionsModel {
    pub verbose: int,
    pub log_filter: Seq<char>,
    pub log_format: LogFormat,
    pub trace_flame: Option<Seq<char>>,
}

/// The option values `o` realizes.
pub open spec fn options_model(o: Options) -> OptionsModel {
    OptionsModel {
        verbose: o.verbose as int,
        log_filter: o.log_filter@,
        log_format: o.log_format,
        trace_flame: match o.trace_flame {
            Some(s) => Some(s@),
            None => None,
        },
    }
}

/// The argument vector as character sequences.
pub open spec fn arg_views(args: Seq<String>) -> Seq<Seq<char>> {
    args.map_values(|s: String| s@)
}

/// The argument grammar, applied from position `i`: `-v` runs and
/// `--verbose` raise the verbose count, `--log-filter`, `--log-format` and
/// `--trace-flame` take the next argument as their value, and anything else
/// is malformed.
pub open spec fn parse_args_from(args: Seq<Seq<char>>, i: int, acc: OptionsModel) -> Option<
    OptionsModel,
>
    decreases args.len() - i,
{
    if i < 0 || i >= args.len() {
        Some(acc)
    } else {
        let tok = args[i];
        if tok == "--verbose"@ {
            parse_args_from(
                args,
                i + 1,
                OptionsModel { verbose: sat_add_u64(acc.verbose, 1), ..acc },
            )
        } else if is_verbose_run(tok) {
            parse_args_from(
                args,
                i + 1,
                OptionsModel { verbose: sat_add_u64(acc.verbose, tok.len() - 1), ..acc },
            )
        } else if tok == "--log-filter"@ {
            if i + 1 < args.len() {
                parse_args_from(args, i + 2, OptionsModel { log_filter: args[i + 1], ..acc })
            } else {
                None
            }
        } else if tok == "--log-format"@ {
            if i + 1 < args.len() {
                match log_format_of(args[i + 1]) {
                    Some(f) => parse_args_from(
                        args,
                        i + 2,
                        OptionsModel { log_format: f, ..acc },
                    ),
                    None => None,
                }
            } else {
                None
            }
        } else if tok == "--trace-flame"@ {
            if i + 1 < args.len() {
                parse_args_from(
                    args,
                    i + 2,
                    OptionsModel { trace_flame: Some(args[i + 1]), ..acc },
                )
            } else {
                None
            }
        } else {
            None
        }
    }
}

/// The default option values before any argument applies.
pub open spec fn default_options_model() -> OptionsModel {
    OptionsModel {
        verbose: 0,
        log_filter: Seq::empty(),
        log_format: LogFormat::Pretty,
        trace_flame: None,
    }
}

/// What an argument vector parses to: the first argument is the program name
/// and is skipped; an empty vector is malformed.
pub open spec fn parse_args_spec(args: Seq<Seq<char>>) -> Option<OptionsModel> {
    if args.len() == 0 {
        None
    } else {
        parse_args_from(args, 1, default_options_model())
    }
}

/// The minimum level the verbosity filter applies to target `t`: the
/// own-target level of the fixed table for the two own namespaces, the
/// global level for everything else.
pub open spec fn verbosity_min_for(count: u64, own1: Seq<char>, own2: Seq<char>, t: Seq<
    char,
>) -> MinLevel {
    if t == own1 || t == own2 {
        MinLevel::At(verbosity_levels_spec(count).1)
    } else {
        MinLevel::At(verbosity_levels_spec(count).0)
    }
}

impl Options {
    /// Parses a command line, program name first. `-v` runs and `--verbose`
    /// accumulate the verbose count; `--log-filter`, `--log-format` and
    /// `--trace-flame` take the following argument as their value; defaults
    /// are no verbosity, an empty filter, the pretty format and no flame
    /// output. A malformed or incomplete argument is returned as the error's
    /// token.
    pub fn from_args(args: &Vec<String>) -> (r: Result<Options, ParseError>)
        ensures
            match r {
                Ok(o) => parse_args_spec(arg_views(args@)) == Some(options_model(o)),
                Err(_) => parse_args_spec(arg_views(args@)) is None,
            },
    {
        let ghost argv = arg_views(args@);
        if args.len() == 0 {
            return Err(ParseError { token: String::new() });
        }
        let mut o = Options {
            verbose: 0,
            log_filter: String::new(),
            log_format: LogFormat::Pretty,
            trace_flame: None,
        };
        proof {
            assert(options_model(o) == default_options_model());
        }
        let n = args.len();
        let mut i: usize = 1;
        while i < n
            invariant
                argv == arg_views(args@),
                n == args@.len(),
                n == argv.len(),
                1 <= i <= n,
                parse_args_from(argv, 1, default_options_model()) == parse_args_from(
                    argv,
                    i as int,
                    options_model(o),
                ),
            decreases n - i,
        {
            proof {
                assert(argv[i as int] == args@[i as int]@);
            }
            let tok = &args[i];
            if str_eq(tok.as_str(), "--verbose") {
                o.verbose = if o.verbose < 0xffff_ffff_ffff_ffff {
                    o.verbose + 1
                } else {
                    o.verbose
                };
                i = i + 1;
            } else if is_verbose_run_exec(tok.as_str()) {
                let k = tok.as_str().unicode_len() - 1;
                o.verbose = if o.verbose <= 0xffff_ffff_ffff_ffff - (k as u64) {
                    o.verbose + (k as u64)
                } else {
                    0xffff_ffff_ffff_ffff
                };
                i = i + 1;
            } else if str_eq(tok.as_str(), "--log-filter") {
                if i + 1 < n {
                    proof {
                        assert(argv[i as int + 1] == args@[i as int + 1]@);
                    }
                    o.log_filter = args[i + 1].clone();
                    i = i + 2;
                } else {
                    return Err(ParseError { token: tok.clone() });
                }
            } else if str_eq(tok.as_str(), "--log-format") {
                if i + 1 < n {
                    proof {
                        assert(argv[i as int + 1] == args@[i as int + 1]@);
                    }
                    match parse_log_format(args[i + 1].as_str()) {
                        Ok(f) => {
                            o.log_format = f;
                            i = i + 2;
                        },
                        Err(e) => {
                            return Err(e);
                        },
                    }
                } else {
                    return Err(ParseError { token: tok.clone() });
                }
            } else if str_eq(tok.as_str(), "--trace-flame") {
                if i + 1 < n {
                    proof {
                        assert(argv[i as int + 1] == args@[i as int + 1]@);
                    }
                    o.trace_flame = Some(args[i + 1].clone());
                    i = i + 2;
                } else {
                    return Err(ParseError { token: tok.clone() });
                }
            } else {
                return Err(ParseError { token: tok.clone() });
            }
        }
        Ok(o)
    }

    /// Resolves the effective target filter: the verbosity count maps
    /// through the fixed table to a global and an own-target minimum (the
    /// own targets being the two given names with `-` rewritten to `_`), the
    /// filter expression parses per the mini-language, and the two filters
    /// combine so that the result accepts exactly what either alone accepts.
    /// A malformed expression is the error, naming the offending directive.
    pub fn resolve_filter(&self, pkg_name: &str, crate_name: &str) -> (r: Result<
        TargetFilter,
        ParseError,
    >)
        ensures
            match r {
                Ok(f) => {
                    &&& parse_expression_spec(self.log_filter@) is Some
                    &&& forall|t: Seq<char>, l: Level|
                        #[trigger] f.spec_accepts(t, l) <==> {
                            let em = parse_expression_spec(self.log_filter@).unwrap();
                            ||| verbosity_min_for(
                                self.verbose,
                                dash_to_underscore_spec(pkg_name@),
                                dash_to_underscore_spec(crate_name@),
                                t,
                            ).spec_admits(l)
                            ||| entries_min(em.0, em.1, t).spec_admits(l)
                        }
                },
                Err(_) => parse_expression_spec(self.log_filter@) is None,
            },
    {
        let levels = verbosity_levels(self.verbose);
        let mut vf = TargetFilter::with_default(MinLevel::At(levels.0));
        proof {
            assert(tf_entries(vf) =~= Seq::<(Seq<char>, MinLevel)>::empty());
        }
        let ghost own1 = dash_to_underscore_spec(pkg_name@);
        let ghost own2 = dash_to_underscore_spec(crate_name@);
        let own1v = dash_to_underscore(pkg_name);
        vf.set_target(chars_to_string(&own1v), MinLevel::At(levels.1));
        let ghost s1 = tf_entries(vf);
        let own2v = dash_to_underscore(crate_name);
        vf.set_target(chars_to_string(&own2v), MinLevel::At(levels.1));
        proof {
            lemma_two_entry_min(s1, tf_entries(vf), own1, own2, MinLevel::At(levels.1));
            assert forall|t: Seq<char>| #[trigger] vf.spec_min_for(t) == verbosity_min_for(
                self.verbose,
                own1,
                own2,
                t,
            ) by {}
        }
        let ef = match parse_expression(self.log_filter.as_str()) {
            Ok(ef) => ef,
            Err(e) => {
                return Err(e);
            },
        };
        let f = vf.combine(&ef);
        Ok(f)
    }
}

/// The entry table after inserting `own1` then `own2`, both at `min`, into
/// an empty table resolves every target: the own targets to `min`, found by
/// scan, everything else to nothing.
proof fn lemma_two_entry_min(
    s1: Seq<(Seq<char>, MinLevel)>,
    s2: Seq<(Seq<char>, MinLevel)>,
    own1: Seq<char>,
    own2: Seq<char>,
    min: MinLevel,
)
    requires
        s1 == tfe_insert(Seq::<(Seq<char>, MinLevel)>::empty(), own1, min),
        s2 == tfe_insert(s1, own2, min),
    ensures
        forall|t: Seq<char>, d: MinLevel| #[trigger] entries_min(s2, d, t) == if t == own1 || t
            == own2 {
            min
        } else {
            d
        },
{
    let empty = Seq::<(Seq<char>, MinLevel)>::empty();
    assert(crate::filter::tf_find(empty, own1) == -1);
    assert(s1 =~= seq![(own1, min)]);
    assert forall|t: Seq<char>, d: MinLevel| #[trigger] entries_min(s2, d, t) == if t == own1 || t
        == own2 {
        min
    } else {
        d
    } by {
        if own2 == own1 {
            crate::filter::lemma_tf_find_first_hit(s1, own2, 0);
            assert(s2 =~= seq![(own2, min)]);
            if t == own1 {
                crate::filter::lemma_tf_find_first_hit(s2, t, 0);
            } else {
                crate::filter::lemma_tf_find_none(s2, t);
            }
        } else {
            crate::filter::lemma_tf_find_none(s1, own2);
            assert(s2 =~= seq![(own1, min), (own2, min)]);
            if t == own1 {
                crate::filter::lemma_tf_find_first_hit(s2, t, 0);
            } else if t == own2 {
                crate::filter::lemma_tf_find_first_hit(s2, t, 1);
            } else {
                crate::filter::lemma_tf_find_none(s2, t);
            }
        }
    }
}

/// `true` iff the token is a run of verbose short flags.
fn is_verbose_run_exec(tok: &str) -> (r: bool)
    ensures
        r == is_verbose_run(tok@),
{
    let n = tok.unicode_len();
    if n < 2 {
        return false;
    }
    if tok.get_char(0) != '-' {
        return false;
    }
    let mut j: usize = 1;
    while j < n
        invariant
            n == tok@.len(),
            n >= 2,
            tok@[0] == '-',
            1 <= j <= n,
            forall|k: int| 1 <= k < j ==> tok@[k] == 'v',
        decreases n - j,
    {
        if tok.get_char(j) != 'v' {
            proof {
                assert(tok@[j as int] != 'v');
            }
            return false;
        }
        j = j + 1;
    }
    true
}

} // verus!
