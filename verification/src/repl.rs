//! The interactive front end's core: the command history, the engine it
//! drives, and the hexadecimal line parser. Reading lines from the operator
//! and printing state back are the embedder's job; everything here is pure
//! computation on the line that was read.

use vstd::prelude::*;
use vstd::string::StringSliceAdditionalSpecFns;

use crate::vm::VM;

verus! {

/// The error returned when a line is not a run of hexadecimal byte tokens
/// separated by single spaces.
#[derive(Clone, Copy, Debug, PartialEq, Eq, Structural)]
pub struct HexError;

/// `b` is the ASCII code of a hexadecimal digit.
pub open spec fn hex_digit(b: u8) -> bool {
    (48 <= b && b <= 57) || (65 <= b && b <= 70) || (97 <= b && b <= 102)
}

/// The numeric value of an ASCII hexadecimal digit.
pub open spec fn hex_value(b: u8) -> int
    recommends
        hex_digit(b),
{
    if 48 <= b && b <= 57 {
        b - 48
    } else if 65 <= b && b <= 70 {
        b - 55
    } else {
        b - 87
    }
}

/// The hexadecimal line scanner, one byte at a time: `acc` is the value of
/// the token being read, `seen` how many of its digits have been read, and
/// `done` the bytes already produced. A token is a non-empty run of
/// hexadecimal digits whose value fits in one byte; tokens are separated by
/// single spaces; anything else fails the whole line.
pub open spec fn hex_scan(s: Seq<u8>, acc: u8, seen: nat, done: Seq<u8>) -> Option<Seq<u8>>
    decreases s.len(),
{
    if s.len() == 0 {
        if seen == 0 {
            None
        } else {
            Some(done.push(acc))
        }
    } else {
        let b = s[0];
        if b == 32 {
            if seen == 0 {
                None
            } else {
                hex_scan(s.drop_first(), 0, 0, done.push(acc))
            }
        } else if !hex_digit(b) {
            None
        } else if acc * 16 + hex_value(b) > 255 {
            None
        } else {
            hex_scan(s.drop_first(), (acc * 16 + hex_value(b)) as u8, (seen + 1) as nat, done)
        }
    }
}

/// The meaning of a whole line of hexadecimal byte tokens: the bytes it
/// denotes, or nothing when some token is empty, holds a non-digit, or does
/// not fit in one byte.
pub open spec fn parse_hex_spec(s: Seq<u8>) -> Option<Seq<u8>> {
    hex_scan(s, 0, 0, Seq::empty())
}

/// What one trimmed line from the operator asks for. The interpretation is
/// pure; acting on it — ending the loop, printing state, feeding bytes — is
/// the driver's own business.
#[derive(Debug, PartialEq, Eq)]
pub enum Command {
    /// The word `quit()`: the driver should end its own loop.
    Quit,
    /// The word `history()`: show the lines entered so far.
    ShowHistory,
    /// The word `program()`: show the engine's program buffer.
    ShowProgram,
    /// The word `registers()`: show the engine's register file.
    ShowRegisters,
    /// A line of hexadecimal byte tokens: feed these bytes to the engine.
    FeedBytes(Vec<u8>),
    /// Anything else: report the malformed line and feed nothing.
    Malformed,
}

/// The bytes of the word `quit()`.
pub open spec fn quit_word() -> Seq<u8> {
    seq![113u8, 117u8, 105u8, 116u8, 40u8, 41u8]
}

/// The bytes of the word `history()`.
pub open spec fn history_word() -> Seq<u8> {
    seq![104u8, 105u8, 115u8, 116u8, 111u8, 114u8, 121u8, 40u8, 41u8]
}

/// The bytes of the word `program()`.
pub open spec fn program_word() -> Seq<u8> {
    seq![112u8, 114u8, 111u8, 103u8, 114u8, 97u8, 109u8, 40u8, 41u8]
}

/// The bytes of the word `registers()`.
pub open spec fn registers_word() -> Seq<u8> {
    seq![114u8, 101u8, 103u8, 105u8, 115u8, 116u8, 101u8, 114u8, 115u8, 40u8, 41u8]
}

/// `s` is one of the four command words.
pub open spec fn is_command_word(s: Seq<u8>) -> bool {
    s == quit_word() || s == history_word() || s == program_word() || s == registers_word()
}

/// Compares two byte strings, element by element.
fn bytes_equal(a: &[u8], b: &[u8]) -> (r: bool)
    ensures
        r <==> a@ == b@,
{
    if a.len() != b.len() {
        return false;
    }
    let n = a.len();
    let mut i: usize = 0;
    while i < n
        invariant
            n == a@.len(),
            a@.len() == b@.len(),
            i <= n,
            forall|j: int| 0 <= j < i ==> a@[j] == b@[j],
        decreases n - i,
    {
        if a[i] != b[i] {
            return false;
        }
        i = i + 1;
    }
    proof {
        assert(a@ =~= b@);
    }
    true
}

/// Core struct for the interactive front end: the lines entered so far and
/// the engine they feed.
pub struct REPL {
    pub command_buffer: Vec<String>,
    pub vm: VM,
}

impl REPL {
    /// A fresh front end: no history, and a newly created engine.
    pub fn new() -> (repl: REPL)
        ensures
            repl.command_buffer@.len() == 0,
            repl.vm.wf(),
            repl.vm@.pc == 0,
            repl.vm@.remainder == 0,
            repl.vm@.program == Seq::<u8>::empty(),
            forall|i: int| 0 <= i < 32 ==> repl.vm@.regs[i] == 0i32,
    {
        REPL { command_buffer: Vec::new(), vm: VM::new() }
    }

    /// Accepts a line of hexadecimal byte tokens and returns the bytes it
    /// denotes, exactly when the whole line scans; any malformed token
    /// fails the line without producing bytes.
    pub fn parse_hex(&self, i: &str) -> (r: Result<Vec<u8>, HexError>)
        ensures
            match r {
                Ok(bytes) => parse_hex_spec(i.spec_bytes()) == Some(bytes@),
                Err(_) => parse_hex_spec(i.spec_bytes()) is None,
            },
    {
        let bytes = i.as_bytes();
        let n = bytes.len();
        let mut results: Vec<u8> = Vec::new();
        let mut acc: u8 = 0;
        let mut seen: usize = 0;
        let mut idx: usize = 0;
        proof {
            assert(bytes@.skip(0) =~= bytes@);
            assert(results@ =~= Seq::<u8>::empty());
        }
        while idx < n
            invariant
                n == bytes@.len(),
                bytes@ == i.spec_bytes(),
                idx <= n,
                seen <= idx,
                hex_scan(bytes@.skip(idx as int), acc, seen as nat, results@) == parse_hex_spec(
                    i.spec_bytes(),
                ),
            decreases n - idx,
        {
            let b = bytes[idx];
            proof {
                assert(bytes@.skip(idx as int)[0] == b);
                assert(bytes@.skip(idx as int).drop_first() =~= bytes@.skip(idx as int + 1));
            }
            if b == 32 {
                if seen == 0 {
                    return Err(HexError);
                }
                results.push(acc);
                acc = 0;
                seen = 0;
            } else if !(48 <= b && b <= 57 || 65 <= b && b <= 70 || 97 <= b && b <= 102) {
                return Err(HexError);
            } else {
                let v: u8 = if b <= 57 {
                    b - 48
                } else if b <= 70 {
                    b - 55
                } else {
                    b - 87
                };
                let value: u16 = acc as u16 * 16 + v as u16;
                if value > 255 {
                    return Err(HexError);
                }
                acc = value as u8;
                seen = seen + 1;
            }
            idx = idx + 1;
        }
        proof {
            assert(bytes@.skip(n as int) =~= Seq::<u8>::empty());
        }
        if seen == 0 {
            Err(HexError)
        } else {
            results.push(acc);
            Ok(results)
        }
    }

    /// The pure line-interpretation step: maps one trimmed line to the command
    /// it asks for. The four command words take priority; every other line is
    /// read as hexadecimal byte tokens, well formed or not.
    pub fn interpret_line(&self, line: &str) -> (c: Command)
        ensures
            line.spec_bytes() == quit_word() ==> c == Command::Quit,
            line.spec_bytes() == history_word() ==> c == Command::ShowHistory,
            line.spec_bytes() == program_word() ==> c == Command::ShowProgram,
            line.spec_bytes() == registers_word() ==> c == Command::ShowRegisters,
            !is_command_word(line.spec_bytes()) ==> (match c {
                Command::FeedBytes(bytes) => parse_hex_spec(line.spec_bytes()) == Some(bytes@),
                Command::Malformed => parse_hex_spec(line.spec_bytes()) is None,
                _ => false,
            }),
    {
        let bytes = line.as_bytes();
        let quit: Vec<u8> = vec![113u8, 117u8, 105u8, 116u8, 40u8, 41u8];
        let history: Vec<u8> = vec![104u8, 105u8, 115u8, 116u8, 111u8, 114u8, 121u8, 40u8, 41u8];
        let program: Vec<u8> = vec![112u8, 114u8, 111u8, 103u8, 114u8, 97u8, 109u8, 40u8, 41u8];
        let registers: Vec<u8> = vec![
            114u8,
            101u8,
            103u8,
            105u8,
            115u8,
            116u8,
            101u8,
            114u8,
            115u8,
            40u8,
            41u8,
        ];
        if bytes_equal(bytes, quit.as_slice()) {
            Command::Quit
        } else if bytes_equal(bytes, history.as_slice()) {
            Command::ShowHistory
        } else if bytes_equal(bytes, program.as_slice()) {
            Command::ShowProgram
        } else if bytes_equal(bytes, registers.as_slice()) {
            Command::ShowRegisters
        } else {
            match self.parse_hex(line) {
                Ok(parsed) => Command::FeedBytes(parsed),
                Err(_) => Command::Malformed,
            }
        }
    }
}

} // verus!
