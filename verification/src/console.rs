//! Console-facing decisions: how command-line arguments select the one-shot
//! or interactive mode, and what each interactive input line means. The
//! reading of arguments and of input lines stays with the caller; only the
//! decisions live here.
use vstd::prelude::*;

use crate::text::chars_eq_str;
use crate::text::chars_of_str;
use crate::text::lemma_strs_view_index;
use crate::text::lemma_strs_view_len;
use crate::text::push_all;
use crate::text::string_of_chars;
use crate::text::strs_view;
use crate::text::trim_chars;
use crate::text::trim_spec;

verus! {

broadcast use vstd::string::group_string_axioms;

/// How the assistant was invoked.
#[derive(Clone, Copy, Debug, PartialEq, Eq, Structural)]
pub enum ConsoleMode {
    OneShot,
    Repl,
}

/// A single request captured from the console.
#[derive(Clone, Debug, PartialEq, Eq)]
pub struct ConsoleRequest {
    pub mode: ConsoleMode,
    pub text: String,
}

/// The help text shown for `-h`/`--help`.
pub open spec fn help_text_spec() -> Seq<char> {
    "Sconny - Smart Console Assistant (input capture MVP)\n\nUSAGE:\n  sconny \"<natural language request>\"\n  sconny --repl\n  sconny                (same as --repl)\n\nEXAMPLES:\n  sconny \"zip a.txt b.txt c/\"\n  sconny --repl\n\nREPL COMMANDS:\n  :help   show help\n  :q      quit\n"@
}

/// The help text shown for `-h`/`--help`, per [`help_text_spec`].
pub fn help_text() -> (r: String)
    ensures
        r@ == help_text_spec(),
{
    "Sconny - Smart Console Assistant (input capture MVP)\n\nUSAGE:\n  sconny \"<natural language request>\"\n  sconny --repl\n  sconny                (same as --repl)\n\nEXAMPLES:\n  sconny \"zip a.txt b.txt c/\"\n  sconny --repl\n\nREPL COMMANDS:\n  :help   show help\n  :q      quit\n".to_owned()
}

/// The shorter help text shown inside the interactive loop.
pub open spec fn repl_help_text_spec() -> Seq<char> {
    "REPL commands:\n  :help   show this help\n  :q      quit\n  exit    quit"@
}

/// The interactive help text, per [`repl_help_text_spec`].
pub fn repl_help_text() -> (r: String)
    ensures
        r@ == repl_help_text_spec(),
{
    "REPL commands:\n  :help   show this help\n  :q      quit\n  exit    quit".to_owned()
}

/// The words after the program name, joined with single spaces.
pub open spec fn join_spaces(parts: Seq<Seq<char>>) -> Seq<char>
    decreases parts.len(),
{
    if parts.len() == 0 {
        Seq::empty()
    } else if parts.len() == 1 {
        parts[0]
    } else {
        join_spaces(parts.drop_last()) + seq![' '] + parts.last()
    }
}

/// What a given argument vector (program name first) asks for: no
/// arguments, `--repl` or `-i` select the interactive mode (`Ok(None)`);
/// `-h`/`--help` yields the help text as the error; anything else joins the
/// arguments into one request, which must not be blank.
pub fn parse_console_request_from_args(args: &Vec<String>) -> (r: Result<Option<ConsoleRequest>, String>)
    ensures
        args@.len() <= 1 ==> r == Ok::<Option<ConsoleRequest>, String>(None),
        ({
            let av = strs_view(args@);
            &&& (args@.len() == 2 && (av[1] == "-h"@ || av[1] == "--help"@) ==> (
            r matches Err(m) && m@ == help_text_spec()))
            &&& (args@.len() == 2 && (av[1] == "--repl"@ || av[1] == "-i"@) ==> r == Ok::<
                Option<ConsoleRequest>,
                String,
            >(None))
            &&& (args@.len() >= 2 && !(args@.len() == 2 && (av[1] == "-h"@ || av[1] == "--help"@
                || av[1] == "--repl"@ || av[1] == "-i"@)) ==> ({
                let txt = trim_spec(join_spaces(av.skip(1)));
                if txt.len() == 0 {
                    r matches Err(m) && m@ == "Empty request. Try: sconny \"zip a.txt b.txt c/\""@
                } else {
                    r matches Ok(o) && o matches Some(q) && q.mode == ConsoleMode::OneShot
                        && q.text@ == txt
                }
            }))
        }),
{
    proof {
        lemma_strs_view_len(args@);
        reveal_strlit("-h");
        reveal_strlit("--help");
        reveal_strlit("--repl");
        reveal_strlit("-i");
        assert("-h"@.len() == 2 && "-i"@.len() == 2);
        assert("--help"@.len() == 6 && "--repl"@.len() == 6);
        assert("-h"@[1] == 'h' && "-i"@[1] == 'i');
        assert("--help"@[2] == 'h' && "--repl"@[2] == 'r');
        assert("-h"@ != "--repl"@ && "-h"@ != "-i"@);
        assert("--help"@ != "--repl"@ && "--help"@ != "-i"@);
    }
    if args.len() <= 1 {
        return Ok(None);
    }
    proof {
        lemma_strs_view_index(args@, 1);
    }
    if args.len() == 2 {
        let a1 = chars_of_str(args[1].as_str());
        if chars_eq_str(&a1, "-h") || chars_eq_str(&a1, "--help") {
            return Err(help_text());
        }
        if chars_eq_str(&a1, "--repl") || chars_eq_str(&a1, "-i") {
            return Ok(None);
        }
    }
    let ghost av = strs_view(args@);
    let mut acc = chars_of_str(args[1].as_str());
    assert(acc@ =~= join_spaces(av.skip(1).take(1))) by {
        assert(av.skip(1).take(1) =~= seq![av[1]]);
    }
    let mut i: usize = 2;
    while i < args.len()
        invariant
            2 <= i <= args@.len(),
            av == strs_view(args@),
            av.len() == args@.len(),
            acc@ == join_spaces(av.skip(1).take(i - 1)),
        decreases args@.len() - i,
    {
        proof {
            lemma_strs_view_index(args@, i as int);
        }
        let ghost pre = acc@;
        acc.push(' ');
        let w = chars_of_str(args[i].as_str());
        push_all(&mut acc, &w);
        proof {
            let p = av.skip(1).take(i as int);
            assert(p.drop_last() =~= av.skip(1).take(i - 1));
            assert(p.last() == av[i as int]);
            assert(acc@ =~= pre + seq![' '] + av[i as int]);
            assert(acc@ =~= join_spaces(p));
        }
        i = i + 1;
    }
    assert(av.skip(1).take(i - 1) =~= av.skip(1));
    let t = trim_chars(&acc);
    if t.len() == 0 {
        Err("Empty request. Try: sconny \"zip a.txt b.txt c/\"".to_owned())
    } else {
        Ok(Some(ConsoleRequest { mode: ConsoleMode::OneShot, text: string_of_chars(&t) }))
    }
}

/// What one interactive input line means.
#[derive(Clone, Debug)]
pub enum ReplAction {
    /// Leave the loop.
    Quit,
    /// Show the interactive help.
    ShowHelp,
    /// A blank line: prompt again.
    Ignore,
    /// A request to hand to the pipeline, already trimmed.
    Request(String),
}

/// Classify one interactive input line: after trimming, a blank line is
/// ignored, `:q`, `:quit` and `exit` quit, `:help` shows help, and anything
/// else is a request.
pub fn repl_step(line: &str) -> (r: ReplAction)
    ensures
        ({
            let t = trim_spec(line@);
            if t.len() == 0 {
                r is Ignore
            } else if t == ":q"@ || t == ":quit"@ || t == "exit"@ {
                r is Quit
            } else if t == ":help"@ {
                r is ShowHelp
            } else {
                (r matches ReplAction::Request(s) && s@ == t)
            }
        }),
{
    let c = chars_of_str(line);
    let t = trim_chars(&c);
    if t.len() == 0 {
        ReplAction::Ignore
    } else if chars_eq_str(&t, ":q") || chars_eq_str(&t, ":quit") || chars_eq_str(&t, "exit") {
        ReplAction::Quit
    } else if chars_eq_str(&t, ":help") {
        ReplAction::ShowHelp
    } else {
        ReplAction::Request(string_of_chars(&t))
    }
}

} // verus!
