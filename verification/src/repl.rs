//! The state an interactive session keeps between turns: the one
//! long-lived machine and assembler it mutates turn by turn, and the
//! history of what was typed.  The line reading and printing around it
//! belong to the front end; what lives here is the state and the hex
//! scanner for raw byte entry.
use crate::assembler::{Assembler, AssemblerPhase, SymbolModel};
use crate::text::is_digit_char;
use crate::vm::VM;
use vstd::prelude::*;

verus! {

/// A hexadecimal digit, either case.
pub open spec fn is_hex_digit_char(c: char) -> bool {
    is_digit_char(c) || ('a' <= c && c <= 'f') || ('A' <= c && c <= 'F')
}

/// Numeric value of a hexadecimal digit character.
pub open spec fn hex_digit_value(c: char) -> int {
    if is_digit_char(c) {
        c as int - 48
    } else if 'a' <= c && c <= 'f' {
        c as int - 87
    } else {
        c as int - 55
    }
}

/// Value of the hexadecimal run `s[i..j)`, most significant first.
pub open spec fn spec_hex_value(s: Seq<char>, i: int, j: int) -> int
    decreases j - i,
{
    if i < j {
        spec_hex_value(s, i, j - 1) * 16 + hex_digit_value(s[j - 1])
    } else {
        0
    }
}

proof fn lemma_hex_value_nonneg(s: Seq<char>, i: int, j: int)
    requires
        forall|m: int| i <= m < j ==> is_hex_digit_char(s[m]),
    ensures
        spec_hex_value(s, i, j) >= 0,
    decreases j - i,
{
    if i < j {
        lemma_hex_value_nonneg(s, i, j - 1);
    }
}

/// Position of the next space at or after `i`, or the end.
pub open spec fn spec_scan_to_space(s: Seq<char>, i: int) -> int
    decreases s.len() - i,
{
    if 0 <= i && i < s.len() && s[i] != ' ' {
        spec_scan_to_space(s, i + 1)
    } else {
        i
    }
}

proof fn lemma_scan_to_space_bounds(s: Seq<char>, i: int)
    requires
        0 <= i <= s.len(),
    ensures
        i <= spec_scan_to_space(s, i) <= s.len(),
    decreases s.len() - i,
{
    if 0 <= i && i < s.len() && s[i] != ' ' {
        lemma_scan_to_space_bounds(s, i + 1);
    }
}

/// The byte one space-separated piece stands for: defined exactly when
/// the piece — after one optional leading plus sign — is a nonempty
/// run of hexadecimal digits whose value is at most 255.
pub open spec fn spec_hex_piece(s: Seq<char>, i: int, j: int) -> Option<u8> {
    let d = if i < j && s[i] == '+' {
        i + 1
    } else {
        i
    };
    if d < j && (forall|m: int| d <= m < j ==> is_hex_digit_char(s[m])) && spec_hex_value(
        s,
        d,
        j,
    ) <= 255 {
        Option::Some(spec_hex_value(s, d, j) as u8)
    } else {
        Option::None
    }
}

/// Every byte the space-separated pieces of `s[i..]` stand for, in
/// order; pieces that are not a byte are skipped.
pub open spec fn spec_parse_hex(s: Seq<char>, i: int) -> Seq<u8>
    decreases s.len() - i,
    via spec_parse_hex_decreases
{
    if i < 0 || i > s.len() {
        Seq::empty()
    } else {
        let j = spec_scan_to_space(s, i);
        let piece = match spec_hex_piece(s, i, j) {
            Option::Some(b) => seq![b],
            Option::None => Seq::empty(),
        };
        if j < s.len() {
            piece + spec_parse_hex(s, j + 1)
        } else {
            piece
        }
    }
}

#[via_fn]
proof fn spec_parse_hex_decreases(s: Seq<char>, i: int) {
    if 0 <= i && i <= s.len() {
        lemma_scan_to_space_bounds(s, i);
    }
}

/// The value of a hexadecimal digit character, if it is one.
fn hex_digit(c: char) -> (r: Option<u8>)
    ensures
        match r {
            Option::Some(d) => is_hex_digit_char(c) && d == hex_digit_value(c) && d < 16,
            Option::None => !is_hex_digit_char(c),
        },
{
    let u = c as u32;
    if 48 <= u && u <= 57 {
        Some((u - 48) as u8)
    } else if 97 <= u && u <= 102 {
        Some((u - 87) as u8)
    } else if 65 <= u && u <= 70 {
        Some((u - 55) as u8)
    } else {
        None
    }
}

/// Scan up to the next space; `n` is the character length of `s`.
fn scan_to_space_from(s: &str, n: usize, i: usize) -> (r: usize)
    requires
        n == s@.len(),
    ensures
        r == spec_scan_to_space(s@, i as int),
        i <= r <= n || (i > n && r == i),
{
    let mut j = i;
    while j < n && s.get_char(j) != ' '
        invariant
            n == s@.len(),
            i <= j,
            j <= n || j == i,
            spec_scan_to_space(s@, i as int) == spec_scan_to_space(s@, j as int),
        decreases n - j,
    {
        j = j + 1;
    }
    j
}

/// The byte one piece stands for, if it does.
fn hex_piece(s: &str, n: usize, i: usize, j: usize) -> (r: Option<u8>)
    requires
        n == s@.len(),
        i <= j <= n,
    ensures
        r == spec_hex_piece(s@, i as int, j as int),
{
    if i == j {
        return None;
    }
    let start = if s.get_char(i) == '+' {
        i + 1
    } else {
        i
    };
    if start == j {
        return None;
    }
    let mut acc: u32 = 0;
    let mut over = false;
    let mut k = start;
    while k < j
        invariant
            n == s@.len(),
            i < j,
            (start == i + 1 && s@[i as int] == '+') || (start == i && s@[i as int] != '+'),
            start <= k <= j <= n,
            forall|m: int| start <= m < k ==> is_hex_digit_char(s@[m]),
            !over ==> acc == spec_hex_value(s@, start as int, k as int) && acc <= 255,
            over ==> spec_hex_value(s@, start as int, k as int) > 255,
        decreases j - k,
    {
        let c = s.get_char(k);
        match hex_digit(c) {
            None => {
                return None;
            },
            Some(d) => {
                if !over {
                    let acc2 = acc * 16 + (d as u32);
                    if acc2 > 255 {
                        over = true;
                    } else {
                        acc = acc2;
                    }
                } else {
                    proof {
                        lemma_hex_value_nonneg(s@, start as int, k as int);
                    }
                }
            },
        }
        k = k + 1;
    }
    if over {
        None
    } else {
        Some(acc as u8)
    }
}

/// One interactive session: the command history, the machine, and the
/// assembler, all owned together and mutated turn by turn.
#[derive(Debug)]
pub struct REPL {
    pub command_buffer: Vec<String>,
    pub vm: VM,
    pub assembler: Assembler,
}

impl REPL {
    /// A fresh session: empty history, a fresh machine, a fresh
    /// assembler in its first phase.
    pub fn new() -> (r: REPL)
        ensures
            r.command_buffer@.len() == 0,
            r.vm@.regs.len() == 32,
            forall|i: int| 0 <= i < 32 ==> r.vm@.regs[i] == 0,
            r.vm@.prog.len() == 0,
            r.vm@.pc == 0,
            r.vm@.remainder == 0,
            r.vm@.flag == false,
            r.assembler.phase == AssemblerPhase::First,
            r.assembler.symbols@ == Seq::<SymbolModel>::empty(),
    {
        REPL { command_buffer: Vec::new(), vm: VM::new(), assembler: Assembler::new() }
    }

    /// Read a line of space-separated hexadecimal byte values; pieces
    /// that are not a byte are skipped, and the session itself is left
    /// untouched.
    pub fn parse_hex(&mut self, input: &str) -> (r: Vec<u8>)
        ensures
            *final(self) == *old(self),
            r@ == spec_parse_hex(input@, 0),
    {
        let n = input.unicode_len();
        let mut out: Vec<u8> = Vec::new();
        let mut pos: usize = 0;
        let mut done = false;
        proof {
            assert(spec_parse_hex(input@, 0) =~= out@ + spec_parse_hex(input@, 0));
        }
        while !done
            invariant
                n == input@.len(),
                pos <= n,
                spec_parse_hex(input@, 0) == out@ + (if done {
                    Seq::<u8>::empty()
                } else {
                    spec_parse_hex(input@, pos as int)
                }),
            decreases n - pos + (if done {
                0int
            } else {
                1int
            }),
        {
            let ghost out_before = out@;
            let j = scan_to_space_from(input, n, pos);
            let ghost piece = match spec_hex_piece(input@, pos as int, j as int) {
                Option::Some(b) => seq![b],
                Option::None => Seq::<u8>::empty(),
            };
            match hex_piece(input, n, pos, j) {
                Some(b) => {
                    out.push(b);
                },
                None => {},
            }
            proof {
                assert(out@ =~= out_before + piece);
            }
            if j < n {
                pos = j + 1;
                proof {
                    assert((out_before + piece) + spec_parse_hex(input@, pos as int)
                        =~= out_before + (piece + spec_parse_hex(input@, pos as int)));
                }
            } else {
                done = true;
                proof {
                    assert(spec_parse_hex(input@, pos as int) == piece);
                    assert(out@ + Seq::<u8>::empty() =~= out_before + piece);
                }
            }
        }
        proof {
            assert(out@ + Seq::<u8>::empty() =~= out@);
        }
        out
    }
}

} // verus!
