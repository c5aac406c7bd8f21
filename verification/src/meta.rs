//! The meta-command protocol: a host line whose first character is the
//! sentinel `*` is not program input; the token after the sentinel names a
//! directive for the host shell. This module decides which directive a line
//! carries; performing it (saving, reloading, tracing) is the host's part.

use vstd::prelude::*;

verus! {

/// A directive carried by a sentinel line.
#[derive(Debug, Clone, PartialEq, Eq)]
pub enum MetaCommand {
    /// Serialize the machine state to the save file.
    Save,
    /// Save, then halt the machine.
    Quit,
    /// Halt and start over from a fresh image.
    RageQuit,
    /// Halt without saving.
    ForceQuit,
    /// Reload the save file.
    LoadSave,
    /// Toggle the tracing mode.
    ToggleDebug,
    /// Toggle per-instruction trace printing.
    TogglePrint,
    /// Truncate the trace log.
    ClearLog,
    /// Run the coin-arrangement solver.
    Solve,
    /// Print the opcode stored at this memory address.
    PrintMem(u16),
    /// Run the room path solver.
    Path,
    /// An unrecognized token, handed back for reporting.
    Unknown(Vec<u8>),
}

/// The token a host line carries: the line without its leading sentinel
/// and without its trailing newline (and carriage return, where the host
/// sends one).
pub open spec fn token_of(line: Seq<u8>) -> Seq<u8> {
    let s1 = if line.len() > 0 && line[0] == '*' as u8 {
        line.skip(1)
    } else {
        line
    };
    let s2 = if s1.len() > 0 && s1.last() == '\n' as u8 {
        s1.drop_last()
    } else {
        s1
    };
    if s2.len() > 0 && s2.last() == '\r' as u8 {
        s2.drop_last()
    } else {
        s2
    }
}

/// The directive a recognized token names, or `None` for every other
/// token.
pub open spec fn command_of(tok: Seq<u8>) -> Option<MetaCommand> {
    if tok == seq!['s' as u8] {
        Some(MetaCommand::Save)
    } else if tok == seq!['q' as u8] {
        Some(MetaCommand::Quit)
    } else if tok == seq!['r' as u8, 'q' as u8] {
        Some(MetaCommand::RageQuit)
    } else if tok == seq!['f' as u8, 'q' as u8] {
        Some(MetaCommand::ForceQuit)
    } else if tok == seq!['l' as u8, 's' as u8] {
        Some(MetaCommand::LoadSave)
    } else if tok == seq!['d' as u8, 'b' as u8, 'g' as u8] {
        Some(MetaCommand::ToggleDebug)
    } else if tok == seq!['p' as u8, 'r' as u8, 'i' as u8, 'n' as u8, 't' as u8] {
        Some(MetaCommand::TogglePrint)
    } else if tok == seq!['c' as u8, 'l' as u8, 'e' as u8, 'a' as u8, 'r' as u8] {
        Some(MetaCommand::ClearLog)
    } else if tok == seq!['s' as u8, 'o' as u8, 'l' as u8, 'v' as u8, 'e' as u8] {
        Some(MetaCommand::Solve)
    } else if tok == seq!['1' as u8, '1' as u8, '1' as u8, '5' as u8] {
        Some(MetaCommand::PrintMem(1115))
    } else if tok == seq!['p' as u8, 'a' as u8, 't' as u8, 'h' as u8] {
        Some(MetaCommand::Path)
    } else {
        None
    }
}

/// Whether the token is the given one-byte word.
fn is1(tok: &Vec<u8>, a0: u8) -> (r: bool)
    ensures
        r == (tok@ == seq![a0]),
{
    if tok.len() == 1 && tok[0] == a0 {
        proof {
            assert(tok@ =~= seq![a0]);
        }
        true
    } else {
        false
    }
}

/// Whether the token is the given two-byte word.
fn is2(tok: &Vec<u8>, a0: u8, a1: u8) -> (r: bool)
    ensures
        r == (tok@ == seq![a0, a1]),
{
    if tok.len() == 2 && tok[0] == a0 && tok[1] == a1 {
        proof {
            assert(tok@ =~= seq![a0, a1]);
        }
        true
    } else {
        false
    }
}

/// Whether the token is the given three-byte word.
fn is3(tok: &Vec<u8>, a0: u8, a1: u8, a2: u8) -> (r: bool)
    ensures
        r == (tok@ == seq![a0, a1, a2]),
{
    if tok.len() == 3 && tok[0] == a0 && tok[1] == a1 && tok[2] == a2 {
        proof {
            assert(tok@ =~= seq![a0, a1, a2]);
        }
        true
    } else {
        false
    }
}

/// Whether the token is the given four-byte word.
fn is4(tok: &Vec<u8>, a0: u8, a1: u8, a2: u8, a3: u8) -> (r: bool)
    ensures
        r == (tok@ == seq![a0, a1, a2, a3]),
{
    if tok.len() == 4 && tok[0] == a0 && tok[1] == a1 && tok[2] == a2 && tok[3] == a3 {
        proof {
            assert(tok@ =~= seq![a0, a1, a2, a3]);
        }
        true
    } else {
        false
    }
}

/// Whether the token is the given five-byte word.
fn is5(tok: &Vec<u8>, a0: u8, a1: u8, a2: u8, a3: u8, a4: u8) -> (r: bool)
    ensures
        r == (tok@ == seq![a0, a1, a2, a3, a4]),
{
    if tok.len() == 5 && tok[0] == a0 && tok[1] == a1 && tok[2] == a2 && tok[3] == a3
        && tok[4] == a4 {
        proof {
            assert(tok@ =~= seq![a0, a1, a2, a3, a4]);
        }
        true
    } else {
        false
    }
}

/// Decide which directive a sentinel line carries: strip the sentinel and
/// the trailing line break, then match the remaining token. Every
/// recognized token yields its directive; every other token yields
/// `Unknown` carrying the token itself.
pub fn parse_command(line: &Vec<u8>) -> (c: MetaCommand)
    ensures
        match command_of(token_of(line@)) {
            Some(cmd) => c == cmd,
            None => c matches MetaCommand::Unknown(t) && t@ == token_of(line@),
        },
{
    let mut start: usize = 0;
    let mut end: usize = line.len();
    if end > 0 && line[0] == '*' as u8 {
        start = 1;
    }
    if end > start && line[end - 1] == '\n' as u8 {
        end = end - 1;
    }
    if end > start && line[end - 1] == '\r' as u8 {
        end = end - 1;
    }
    proof {
        assert(token_of(line@) =~= line@.subrange(start as int, end as int));
    }
    let mut tok: Vec<u8> = Vec::new();
    let mut i: usize = start;
    while i < end
        invariant
            start <= i <= end,
            end <= line@.len(),
            tok@ =~= line@.subrange(start as int, i as int),
        decreases end - i,
    {
        tok.push(line[i]);
        i = i + 1;
    }
    proof {
        assert(tok@ =~= token_of(line@));
    }
    if is1(&tok, 's' as u8) {
        MetaCommand::Save
    } else if is1(&tok, 'q' as u8) {
        MetaCommand::Quit
    } else if is2(&tok, 'r' as u8, 'q' as u8) {
        MetaCommand::RageQuit
    } else if is2(&tok, 'f' as u8, 'q' as u8) {
        MetaCommand::ForceQuit
    } else if is2(&tok, 'l' as u8, 's' as u8) {
        MetaCommand::LoadSave
    } else if is3(&tok, 'd' as u8, 'b' as u8, 'g' as u8) {
        MetaCommand::ToggleDebug
    } else if is5(&tok, 'p' as u8, 'r' as u8, 'i' as u8, 'n' as u8, 't' as u8) {
        MetaCommand::TogglePrint
    } else if is5(&tok, 'c' as u8, 'l' as u8, 'e' as u8, 'a' as u8, 'r' as u8) {
        MetaCommand::ClearLog
    } else if is5(&tok, 's' as u8, 'o' as u8, 'l' as u8, 'v' as u8, 'e' as u8) {
        MetaCommand::Solve
    } else if is4(&tok, '1' as u8, '1' as u8, '1' as u8, '5' as u8) {
        MetaCommand::PrintMem(1115)
    } else if is4(&tok, 'p' as u8, 'a' as u8, 't' as u8, 'h' as u8) {
        MetaCommand::Path
    } else {
        MetaCommand::Unknown(tok)
    }
}

} // verus!
