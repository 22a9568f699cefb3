//! Interpretation of the front end's input lines: what a newline-terminated
//! line read from the operator means, after the trailing line terminator is
//! trimmed. The front end performs the I/O and the actions; this module makes
//! the decision.
use vstd::prelude::*;
use vstd::string::StrSliceExecFns;

verus! {

/// What one input line asks for: terminate the process, do nothing, or echo
/// the line back.
#[derive(Clone, Copy, Debug, PartialEq, Eq)]
pub enum Command {
    Quit,
    Ignore,
    Echo,
}

/// The line without its trailing line terminator: a final "\r\n" or "\n" is
/// dropped, anything else is kept.
pub open spec fn spec_trimmed(s: Seq<char>) -> Seq<char> {
    if s.len() >= 2 && s[s.len() - 2] == '\r' && s[s.len() - 1] == '\n' {
        s.take(s.len() - 2)
    } else if s.len() >= 1 && s[s.len() - 1] == '\n' {
        s.take(s.len() - 1)
    } else {
        s
    }
}

/// What a raw input line means: after trimming, an empty line is a no-op,
/// the literal tokens "exit", "quit" and "q" terminate, and anything else is
/// echoed back.
pub open spec fn spec_command(s: Seq<char>) -> Command {
    let t = spec_trimmed(s);
    if t.len() == 0 {
        Command::Ignore
    } else if t == "exit"@ || t == "quit"@ || t == "q"@ {
        Command::Quit
    } else {
        Command::Echo
    }
}

/// Character-by-character string equality.
fn str_eq(a: &str, b: &str) -> (r: bool)
    ensures
        r == (a@ == b@),
{
    let na = a.unicode_len();
    let nb = b.unicode_len();
    if na != nb {
        return false;
    }
    let mut i: usize = 0;
    while i < na
        invariant
            na == a@.len(),
            na == b@.len(),
            i <= na,
            forall|j: int| 0 <= j < i ==> a@[j] == b@[j],
        decreases na - i,
    {
        if a.get_char(i) != b.get_char(i) {
            return false;
        }
        i += 1;
    }
    proof {
        assert(a@ =~= b@);
    }
    true
}

/// Decides what the raw line `line` asks for; exactly `spec_command` on the
/// line's characters.
pub fn parse_command(line: &str) -> (c: Command)
    ensures
        c == spec_command(line@),
{
    let n = line.unicode_len();
    let k: usize = if n >= 2 && line.get_char(n - 2) == '\r' && line.get_char(n - 1) == '\n' {
        n - 2
    } else if n >= 1 && line.get_char(n - 1) == '\n' {
        n - 1
    } else {
        n
    };
    let t = line.substring_char(0, k);
    proof {
        assert(t@ =~= spec_trimmed(line@));
    }
    if t.is_empty() {
        Command::Ignore
    } else if str_eq(t, "exit") || str_eq(t, "quit") || str_eq(t, "q") {
        Command::Quit
    } else {
        Command::Echo
    }
}

} // verus!
