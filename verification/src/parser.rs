//! The command parser: one raw text line in, a structured command or a
//! diagnostic out.
//!
//! A line reads: optional whitespace, the keyword `get` or `set`
//! (case-sensitive), whitespace, a cell identifier, and — for `set`
//! only — the rest of the line, after any separating whitespace, taken
//! verbatim as the expression text.  A `get` line may end only in
//! whitespace.

use vstd::prelude::*;

use crate::grammar::is_cell_name;
use crate::grammar::is_space;
use crate::grammar::skip_spaces;
use crate::grammar::skip_spaces_exec;
use crate::grammar::space_char;
use crate::grammar::validate_cell_name;
use crate::grammar::word_end;
use crate::grammar::word_end_exec;

verus! {

/// A parsed command: read one cell, or set one cell to the value of an
/// expression.
#[derive(Debug, PartialEq, Eq)]
pub enum Command {
    Get(String),
    Assign(String, String),
}

/// Mathematical model of a [`Command`].
pub enum CommandV {
    Get(Seq<char>),
    Assign(Seq<char>, Seq<char>),
}

impl View for Command {
    type V = CommandV;

    open spec fn view(&self) -> CommandV {
        match self {
            Command::Get(id) => CommandV::Get(id@),
            Command::Assign(id, expr) => CommandV::Assign(id@, expr@),
        }
    }
}

/// Does the keyword `kw` stand at position `i` of `s`?
pub open spec fn keyword_at(s: Seq<char>, i: int, kw: Seq<char>) -> bool {
    0 <= i && i + kw.len() <= s.len() && s.subrange(i, i + kw.len()) == kw
}

/// What parsing a raw line yields: the command, or the diagnostic that
/// the reply will carry.
pub open spec fn spec_parse(s: Seq<char>) -> Result<CommandV, Seq<char>> {
    let i = skip_spaces(s, 0);
    if !(keyword_at(s, i, "get"@) || keyword_at(s, i, "set"@)) {
        Result::Err("invalid command format"@)
    } else if !(i + 3 < s.len() && is_space(s[i + 3])) {
        Result::Err("invalid command format"@)
    } else {
        let t = skip_spaces(s, i + 3);
        let e = word_end(s, t);
        if e == t {
            Result::Err("invalid command format"@)
        } else if !is_cell_name(s.subrange(t, e)) {
            Result::Err("invalid cell name"@)
        } else if keyword_at(s, i, "get"@) {
            if skip_spaces(s, e) == s.len() {
                Result::Ok(CommandV::Get(s.subrange(t, e)))
            } else {
                Result::Err("invalid command format"@)
            }
        } else {
            Result::Ok(CommandV::Assign(s.subrange(t, e), s.subrange(skip_spaces(s, e), s.len() as int)))
        }
    }
}

/// Turns one raw line into a command, exactly as [`spec_parse`] reads it.
pub fn parse_command(msg: &str) -> (r: Result<Command, String>)
    ensures
        match spec_parse(msg@) {
            Result::Ok(c) => r matches Result::Ok(cmd) && cmd@ == c,
            Result::Err(e) => r matches Result::Err(m) && m@ == e,
        },
{
    proof {
        reveal_strlit("get");
        reveal_strlit("set");
        assert("get"@ =~= seq!['g', 'e', 't']);
        assert("set"@ =~= seq!['s', 'e', 't']);
    }
    let n = msg.unicode_len();
    let i = skip_spaces_exec(msg, 0);
    let is_get = keyword_at_exec(msg, i, 'g', 'e', 't');
    let is_set = keyword_at_exec(msg, i, 's', 'e', 't');
    if !(is_get || is_set) {
        return Result::Err(String::from_str("invalid command format"));
    }
    if !(i < n && n - i > 3 && space_char(msg.get_char(i + 3))) {
        return Result::Err(String::from_str("invalid command format"));
    }
    let t = skip_spaces_exec(msg, i + 3);
    let e = word_end_exec(msg, t);
    if e == t {
        return Result::Err(String::from_str("invalid command format"));
    }
    let tok = msg.substring_char(t, e);
    if !validate_cell_name(tok) {
        return Result::Err(String::from_str("invalid cell name"));
    }
    if is_get {
        if skip_spaces_exec(msg, e) == n {
            Result::Ok(Command::Get(String::from_str(tok)))
        } else {
            Result::Err(String::from_str("invalid command format"))
        }
    } else {
        let x = skip_spaces_exec(msg, e);
        Result::Ok(Command::Assign(String::from_str(tok), String::from_str(msg.substring_char(x, n))))
    }
}

/// Do the three characters of a keyword stand at position `i` of `msg`?
fn keyword_at_exec(msg: &str, i: usize, c0: char, c1: char, c2: char) -> (r: bool)
    requires
        i <= msg@.len(),
    ensures
        r == keyword_at(msg@, i as int, seq![c0, c1, c2]),
{
    let n = msg.unicode_len();
    if n < 3 || i > n - 3 {
        return false;
    }
    let r = msg.get_char(i) == c0 && msg.get_char(i + 1) == c1 && msg.get_char(i + 2) == c2;
    proof {
        if r {
            assert(msg@.subrange(i as int, i + 3) =~= seq![c0, c1, c2]);
        } else {
            assert(msg@.subrange(i as int, i + 3) != seq![c0, c1, c2]) by {
                if msg@.subrange(i as int, i + 3) == seq![c0, c1, c2] {
                    assert(msg@.subrange(i as int, i + 3)[0] == c0);
                    assert(msg@.subrange(i as int, i + 3)[1] == c1);
                    assert(msg@.subrange(i as int, i + 3)[2] == c2);
                }
            }
        }
    }
    r
}

} // verus!
