//! The optional MCP utilities a server answers: `logging/setLevel` (the least
//! severe log level a client wants) and `completion/complete` (suggested values for
//! a prompt argument).
use vstd::prelude::*;
use crate::mcp::error::{code_number, Error, ErrorCode};
use crate::text::{concat3, first_from, first_index, owned, starts_with, starts_with_seq, str_eq, views};

verus! {

/// The syslog severities a client may ask for, least severe first.
#[derive(Debug, Clone, Copy, PartialEq, Eq, Structural)]
pub enum LogLevel {
    Debug,
    Info,
    Notice,
    Warning,
    Error,
    Critical,
    Alert,
    Emergency,
}

/// The level named `s`, if `s` names one.
pub open spec fn level_named(s: Seq<char>) -> Option<LogLevel> {
    if s == "debug"@ {
        Some(LogLevel::Debug)
    } else if s == "info"@ {
        Some(LogLevel::Info)
    } else if s == "notice"@ {
        Some(LogLevel::Notice)
    } else if s == "warning"@ {
        Some(LogLevel::Warning)
    } else if s == "error"@ {
        Some(LogLevel::Error)
    } else if s == "critical"@ {
        Some(LogLevel::Critical)
    } else if s == "alert"@ {
        Some(LogLevel::Alert)
    } else if s == "emergency"@ {
        Some(LogLevel::Emergency)
    } else {
        None
    }
}

/// The level named `s`; `None` for any other text.
pub fn parse_log_level(s: &str) -> (r: Option<LogLevel>)
    ensures
        r == level_named(s@),
{
    if str_eq(s, "debug") {
        Some(LogLevel::Debug)
    } else if str_eq(s, "info") {
        Some(LogLevel::Info)
    } else if str_eq(s, "notice") {
        Some(LogLevel::Notice)
    } else if str_eq(s, "warning") {
        Some(LogLevel::Warning)
    } else if str_eq(s, "error") {
        Some(LogLevel::Error)
    } else if str_eq(s, "critical") {
        Some(LogLevel::Critical)
    } else if str_eq(s, "alert") {
        Some(LogLevel::Alert)
    } else if str_eq(s, "emergency") {
        Some(LogLevel::Emergency)
    } else {
        None
    }
}

/// The answer to `logging/setLevel`: the level it names, or an invalid-params error
/// naming the text.
pub fn set_level(level: &str) -> (r: Result<LogLevel, Error>)
    ensures
        match level_named(level@) {
            Some(l) => r == Ok::<LogLevel, Error>(l),
            None => r matches Err(Error::Protocol { code, message }) && code == code_number(
                ErrorCode::InvalidParams,
            ) && message@ == "invalid log level '"@ + level@ + "'"@,
        },
{
    match parse_log_level(level) {
        Some(l) => Ok(l),
        None => Err(Error::protocol(ErrorCode::InvalidParams, concat3("invalid log level '", level, "'"))),
    }
}

/// Suggested values for one argument of one prompt.
#[derive(Debug, Clone)]
pub struct Completer {
    pub prompt: String,
    pub argument: String,
    pub values: Vec<String>,
}

/// The completer for `prompt`'s argument `argument`.
pub open spec fn completes(prompt: Seq<char>, argument: Seq<char>) -> spec_fn(Completer) -> bool {
    |c: Completer| c.prompt@ == prompt && c.argument@ == argument
}

/// The values of `vs` that start with `typed`, in order.
pub open spec fn with_prefix(vs: Seq<Seq<char>>, typed: Seq<char>) -> Seq<Seq<char>> {
    vs.filter(|v: Seq<char>| starts_with_seq(v, typed))
}

/// The suggestions for `prompt`'s argument `argument` once `typed` is typed: the
/// values of the first completer registered for them that start with `typed`, or
/// none when no completer is.
pub open spec fn suggestions(cs: Seq<Completer>, prompt: Seq<char>, argument: Seq<char>, typed: Seq<char>) -> Seq<
    Seq<char>,
> {
    let i = first_index(cs, completes(prompt, argument));
    if i < 0 {
        Seq::empty()
    } else {
        with_prefix(views(cs[i].values@), typed)
    }
}

/// The answer to `completion/complete` for a prompt argument (see `suggestions`).
pub fn complete_argument(cs: &Vec<Completer>, prompt: &str, argument: &str, typed: &str) -> (r: Vec<String>)
    ensures
        views(r@) == suggestions(cs@, prompt@, argument@, typed@),
{
    let ghost f = completes(prompt@, argument@);
    let mut i: usize = 0;
    while i < cs.len()
        invariant
            i <= cs@.len(),
            f == completes(prompt@, argument@),
            first_from(cs@, f, 0) == first_from(cs@, f, i as int),
        decreases cs@.len() - i,
    {
        if str_eq(cs[i].prompt.as_str(), prompt) && str_eq(cs[i].argument.as_str(), argument) {
            assert(f(cs@[i as int]));
            let vs = &cs[i].values;
            let ghost all = views(vs@);
            let mut out: Vec<String> = Vec::new();
            let mut k: usize = 0;
            while k < vs.len()
                invariant
                    k <= vs@.len(),
                    all == views(vs@),
                    views(out@) == with_prefix(all.take(k as int), typed@),
                decreases vs@.len() - k,
            {
                proof {
                    assert(all.take(k + 1).drop_last() =~= all.take(k as int));
                    assert(all.take(k + 1).last() == vs@[k as int]@);
                    reveal(Seq::filter);
                    assert(with_prefix(all.take(k + 1), typed@) == {
                        let p = with_prefix(all.take(k as int), typed@);
                        if starts_with_seq(vs@[k as int]@, typed@) { p.push(vs@[k as int]@) } else { p }
                    });
                }
                assert(all.take(k + 1) =~= all.take(k as int).push(vs@[k as int]@));
                if starts_with(vs[k].as_str(), typed) {
                    let ghost before = views(out@);
                    out.push(owned(vs[k].as_str()));
                    assert(views(out@) =~= before.push(vs@[k as int]@));
                }
                k = k + 1;
            }
            assert(all.take(vs@.len() as int) =~= all);
            return out;
        }
        i = i + 1;
    }
    let none: Vec<String> = Vec::new();
    assert(views(none@) =~= Seq::<Seq<char>>::empty());
    none
}

/// The completers this server registers: the `scope` of the segregation-of-duties
/// review is one of `user`, `role` or `system`.
pub fn skill_completers() -> (r: Vec<Completer>)
    ensures
        r@.len() == 1,
        r@[0].prompt@ == "sap.skill.security_sod_audit"@,
        r@[0].argument@ == "scope"@,
        views(r@[0].values@) == seq!["user"@, "role"@, "system"@],
{
    let mut values: Vec<String> = Vec::new();
    values.push(owned("user"));
    values.push(owned("role"));
    values.push(owned("system"));
    let mut r: Vec<Completer> = Vec::new();
    r.push(Completer { prompt: owned("sap.skill.security_sod_audit"), argument: owned("scope"), values });
    assert(views(r@[0].values@) =~= seq!["user"@, "role"@, "system"@]);
    r
}

} // verus!
