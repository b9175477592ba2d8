//! Command line of the body-tracking front end:
//! `[--source mock|manual] [--send]`.
use vstd::prelude::*;

verus! {

/// Parsed options.
#[derive(Debug)]
pub struct Options {
    /// Data source: "mock" (scripted) or "manual" (keyboard).
    pub source: String,
    /// Send real keys instead of a dry run.
    pub send: bool,
}

/// Parses `args[i..]` on top of the options found so far; `None` on an
/// unknown argument or a `--source` without a value.
pub open spec fn parse_from(args: Seq<Seq<char>>, i: int, source: Seq<char>, send: bool) -> Option<
    (Seq<char>, bool),
>
    decreases args.len() - i,
{
    if i >= args.len() {
        Some((source, send))
    } else if args[i] == "--send"@ {
        parse_from(args, i + 1, source, true)
    } else if args[i] == "--source"@ && i + 1 < args.len() {
        parse_from(args, i + 2, args[i + 1], send)
    } else {
        None
    }
}

/// The options of a command line (`args[0]` is the program), or `None` when
/// it is invalid: an unknown argument, a `--source` without a value, or a
/// source other than "mock" and "manual". The defaults are the mock source
/// and a dry run.
pub open spec fn spec_parse_args(args: Seq<Seq<char>>) -> Option<(Seq<char>, bool)> {
    match parse_from(args, 1, "mock"@, false) {
        Some((source, send)) => if source == "mock"@ || source == "manual"@ {
            Some((source, send))
        } else {
            None
        },
        None => None,
    }
}

/// The views of a list of strings.
pub open spec fn views(args: Seq<String>) -> Seq<Seq<char>> {
    args.map_values(|s: String| s@)
}

/// Parses the command line; `Err` means the usage should be shown.
pub fn parse_args(args: &Vec<String>) -> (r: Result<Options, ()>)
    ensures
        spec_parse_args(views(args@)) matches Some((source, send)) ==> (r matches Ok(o)
            && o.source@ == source && o.send == send),
        spec_parse_args(views(args@)) is None ==> (r is Err),
{
    let ghost a = views(args@);
    let send_flag = "--send".to_owned();
    let source_flag = "--source".to_owned();
    let mock = "mock".to_owned();
    let manual = "manual".to_owned();
    let mut source = "mock".to_owned();
    let mut send = false;
    let mut i: usize = 1;
    let n = args.len();
    proof {
        reveal_strlit("mock");
    }
    while i < n
        invariant
            n == args@.len(),
            a == views(args@),
            send_flag@ == "--send"@,
            source_flag@ == "--source"@,
            mock@ == "mock"@,
            manual@ == "manual"@,
            i >= 1,
            parse_from(a, 1, "mock"@, false) == parse_from(a, i as int, source@, send),
        decreases n - i,
    {
        if args[i] == send_flag {
            send = true;
        } else if args[i] == source_flag && i + 1 < n {
            i += 1;
            source = args[i].clone();
        } else {
            return Err(());
        }
        i += 1;
    }
    if source == mock || source == manual {
        Ok(Options { source, send })
    } else {
        Err(())
    }
}

} // verus!
