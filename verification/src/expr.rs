//! The filter-expression mini-language: a comma-separated sequence of
//! `target=level` and bare `level` directives, parsed into a
//! [`TargetFilter`]. A bare level sets the default; directives apply in
//! order, a later directive for the same target replacing the earlier one.

use vstd::prelude::*;
use crate::filter::{tf_entries, tfe_insert, MinLevel, TargetFilter};
use crate::level::Level;
use crate::text::{chars_eq, chars_to_string, str_to_chars};

verus! {

/// A malformed filter expression, naming the offending directive token.
#[derive(Debug)]
pub struct ParseError {
    /// The first directive that does not parse.
    pub token: String,
}

/// Splits `s` on `sep`; the result always holds at least one (possibly
/// empty) part, and `sep` itself appears in no part.
pub open spec fn split_on(s: Seq<char>, sep: char) -> Seq<Seq<char>>
    decreases s.len(),
{
    if s.len() == 0 {
        seq![Seq::<char>::empty()]
    } else {
        let rest = split_on(s.drop_first(), sep);
        if s[0] == sep {
            seq![Seq::<char>::empty()] + rest
        } else {
            seq![seq![s[0]] + rest[0]] + rest.drop_first()
        }
    }
}

/// A split always yields at least one part.
pub proof fn lemma_split_on_len(s: Seq<char>, sep: char)
    ensures
        split_on(s, sep).len() >= 1,
    decreases s.len(),
{
    if s.len() > 0 {
        lemma_split_on_len(s.drop_first(), sep);
    }
}

/// The minimum level named by a level token: the five level names and `off`,
/// each in lowercase or uppercase.
pub open spec fn min_level_of_token(tok: Seq<char>) -> Option<MinLevel> {
    if tok == "trace"@ || tok == "TRACE"@ {
        Some(MinLevel::At(Level::Trace))
    } else if tok == "debug"@ || tok == "DEBUG"@ {
        Some(MinLevel::At(Level::Debug))
    } else if tok == "info"@ || tok == "INFO"@ {
        Some(MinLevel::At(Level::Info))
    } else if tok == "warn"@ || tok == "WARN"@ {
        Some(MinLevel::At(Level::Warn))
    } else if tok == "error"@ || tok == "ERROR"@ {
        Some(MinLevel::At(Level::Error))
    } else if tok == "off"@ || tok == "OFF"@ {
        Some(MinLevel::Off)
    } else {
        None
    }
}

/// Parses a level token.
pub fn parse_min_level(tok: &Vec<char>) -> (r: Option<MinLevel>)
    ensures
        r == min_level_of_token(tok@),
{
    if chars_eq(tok, "trace") || chars_eq(tok, "TRACE") {
        Some(MinLevel::At(Level::Trace))
    } else if chars_eq(tok, "debug") || chars_eq(tok, "DEBUG") {
        Some(MinLevel::At(Level::Debug))
    } else if chars_eq(tok, "info") || chars_eq(tok, "INFO") {
        Some(MinLevel::At(Level::Info))
    } else if chars_eq(tok, "warn") || chars_eq(tok, "WARN") {
        Some(MinLevel::At(Level::Warn))
    } else if chars_eq(tok, "error") || chars_eq(tok, "ERROR") {
        Some(MinLevel::At(Level::Error))
    } else if chars_eq(tok, "off") || chars_eq(tok, "OFF") {
        Some(MinLevel::Off)
    } else {
        None
    }
}

/// One parsed directive: `(Some(target), min)` for `target=level`,
/// `(None, min)` for a bare `level` setting the default.
pub open spec fn parse_directive(tok: Seq<char>) -> Option<(Option<Seq<char>>, MinLevel)> {
    let parts = split_on(tok, '=');
    if parts.len() == 1 {
        match min_level_of_token(parts[0]) {
            Some(m) => Some((None, m)),
            None => None,
        }
    } else if parts.len() == 2 && parts[0].len() > 0 {
        match min_level_of_token(parts[1]) {
            Some(m) => Some((Some(parts[0]), m)),
            None => None,
        }
    } else {
        None
    }
}

/// A directive applied to an accumulated `(entries, default)` pair.
pub open spec fn apply_directive(
    acc: (Seq<(Seq<char>, MinLevel)>, MinLevel),
    d: (Option<Seq<char>>, MinLevel),
) -> (Seq<(Seq<char>, MinLevel)>, MinLevel) {
    match d.0 {
        Some(t) => (tfe_insert(acc.0, t, d.1), acc.1),
        None => (acc.0, d.1),
    }
}

/// Folds the directives of `toks` from position `i` over `acc`; `None` when
/// some remaining token is malformed.
pub open spec fn parse_tokens_from(
    toks: Seq<Seq<char>>,
    i: int,
    acc: (Seq<(Seq<char>, MinLevel)>, MinLevel),
) -> Option<(Seq<(Seq<char>, MinLevel)>, MinLevel)>
    decreases toks.len() - i,
{
    if i < 0 || i >= toks.len() {
        Some(acc)
    } else {
        match parse_directive(toks[i]) {
            None => None,
            Some(d) => parse_tokens_from(toks, i + 1, apply_directive(acc, d)),
        }
    }
}

/// The position of the first malformed token at or after `i`, or -1.
pub open spec fn first_bad_from(toks: Seq<Seq<char>>, i: int) -> int
    decreases toks.len() - i,
{
    if i < 0 || i >= toks.len() {
        -1
    } else if parse_directive(toks[i]) is None {
        i
    } else {
        first_bad_from(toks, i + 1)
    }
}

/// The comma-separated directive tokens of an expression.
pub open spec fn expr_tokens(s: Seq<char>) -> Seq<Seq<char>> {
    split_on(s, ',')
}

/// What an expression parses to: the empty expression is the neutral filter
/// (no overrides, default `Off`); otherwise its directives fold, in order,
/// over that neutral filter.
pub open spec fn parse_expression_spec(s: Seq<char>) -> Option<
    (Seq<(Seq<char>, MinLevel)>, MinLevel),
> {
    if s.len() == 0 {
        Some((Seq::empty(), MinLevel::Off))
    } else {
        parse_tokens_from(expr_tokens(s), 0, (Seq::empty(), MinLevel::Off))
    }
}

/// Splits `s` from position `from` on `sep`.
fn split_exec(s: &Vec<char>, from: usize, sep: char) -> (r: Vec<Vec<char>>)
    requires
        from <= s.len(),
    ensures
        r@.len() == split_on(s@.skip(from as int), sep).len(),
        forall|j: int|
            0 <= j < r@.len() ==> (#[trigger] r@[j])@ == split_on(s@.skip(from as int), sep)[j],
    decreases s.len() - from,
{
    let ghost tail = s@.skip(from as int);
    if from == s.len() {
        let mut r: Vec<Vec<char>> = Vec::new();
        r.push(Vec::new());
        proof {
            assert(tail =~= Seq::<char>::empty());
            assert(r@[0]@ =~= split_on(tail, sep)[0]);
        }
        r
    } else {
        let c = s[from];
        let mut rest = split_exec(s, from + 1, sep);
        let ghost tail1 = s@.skip(from as int + 1);
        proof {
            assert(tail.drop_first() =~= tail1);
            assert(tail[0] == s@[from as int]);
            lemma_split_on_len(tail1, sep);
        }
        if c == sep {
            rest.insert(0, Vec::new());
            proof {
                assert forall|j: int| 0 <= j < rest@.len() implies (#[trigger] rest@[j])@
                    == split_on(tail, sep)[j] by {
                    if j == 0 {
                        assert(rest@[0]@ =~= split_on(tail, sep)[0]);
                    } else {
                        assert(split_on(tail, sep)[j] == split_on(tail1, sep)[j - 1]);
                    }
                }
            }
            rest
        } else {
            let mut head = rest.remove(0);
            head.insert(0, c);
            rest.insert(0, head);
            proof {
                assert forall|j: int| 0 <= j < rest@.len() implies (#[trigger] rest@[j])@
                    == split_on(tail, sep)[j] by {
                    if j == 0 {
                        assert(rest@[0]@ =~= seq![tail[0]] + split_on(tail1, sep)[0]);
                        assert(split_on(tail, sep)[0] == seq![tail[0]] + split_on(tail1, sep)[0]);
                    } else {
                        assert(split_on(tail, sep)[j] == split_on(tail1, sep).drop_first()[j - 1]);
                    }
                }
            }
            rest
        }
    }
}

/// Parses one directive token.
fn parse_directive_exec(tok: &Vec<char>) -> (r: Option<(Option<Vec<char>>, MinLevel)>)
    ensures
        match r {
            Some(d) => parse_directive(tok@) == Some(
                (
                    match d.0 {
                        Some(t) => Some(t@),
                        None => None,
                    },
                    d.1,
                ),
            ),
            None => parse_directive(tok@) is None,
        },
{
    let mut parts = split_exec(tok, 0, '=');
    proof {
        assert(tok@.skip(0) =~= tok@);
    }
    if parts.len() == 1 {
        let part = parts.remove(0);
        match parse_min_level(&part) {
            Some(m) => Some((None, m)),
            None => None,
        }
    } else if parts.len() == 2 {
        let target = parts.remove(0);
        let lvl = parts.remove(0);
        if target.len() == 0 {
            return None;
        }
        match parse_min_level(&lvl) {
            Some(m) => Some((Some(target), m)),
            None => None,
        }
    } else {
        None
    }
}

/// Parses a filter expression. The empty expression yields the neutral
/// filter (no overrides, default `Off`); otherwise every comma-separated
/// directive must be well-formed, and the first malformed one is returned
/// as the error's token.
pub fn parse_expression(expr: &str) -> (r: Result<TargetFilter, ParseError>)
    ensures
        match r {
            Ok(f) => parse_expression_spec(expr@) == Some((tf_entries(f), f.default_min)),
            Err(e) => {
                &&& parse_expression_spec(expr@) is None
                &&& first_bad_from(expr_tokens(expr@), 0) >= 0
                &&& e.token@ == expr_tokens(expr@)[first_bad_from(expr_tokens(expr@), 0)]
            },
        },
{
    let mut f = TargetFilter::with_default(MinLevel::Off);
    if expr.unicode_len() == 0 {
        proof {
            assert(tf_entries(f) =~= Seq::<(Seq<char>, MinLevel)>::empty());
        }
        return Ok(f);
    }
    let chars = str_to_chars(expr);
    let tokens = split_exec(&chars, 0, ',');
    proof {
        assert(chars@.skip(0) =~= expr@);
    }
    let ghost toks = expr_tokens(expr@);
    let ghost init = (Seq::<(Seq<char>, MinLevel)>::empty(), MinLevel::Off);
    proof {
        assert(tf_entries(f) =~= init.0);
    }
    let n = tokens.len();
    let mut i: usize = 0;
    while i < n
        invariant
            expr@.len() != 0,
            toks == expr_tokens(expr@),
            init == (Seq::<(Seq<char>, MinLevel)>::empty(), MinLevel::Off),
            n == toks.len(),
            n == tokens.len(),
            i <= n,
            forall|j: int| 0 <= j < n ==> (#[trigger] tokens@[j])@ == toks[j],
            parse_tokens_from(toks, 0, init) == parse_tokens_from(
                toks,
                i as int,
                (tf_entries(f), f.default_min),
            ),
            first_bad_from(toks, 0) == first_bad_from(toks, i as int),
        decreases n - i,
    {
        match parse_directive_exec(&tokens[i]) {
            None => {
                proof {
                    assert(parse_directive(toks[i as int]) is None);
                    assert(first_bad_from(toks, i as int) == i as int);
                    assert(parse_tokens_from(toks, i as int, (tf_entries(f), f.default_min))
                        is None);
                }
                let token = chars_to_string(&tokens[i]);
                return Err(ParseError { token });
            },
            Some((None, m)) => {
                f.default_min = m;
            },
            Some((Some(t), m)) => {
                let name = chars_to_string(&t);
                f.set_target(name, m);
            },
        }
        i = i + 1;
    }
    Ok(f)
}

} // verus!
