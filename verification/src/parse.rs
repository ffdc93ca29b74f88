//! The scanner for the textual instruction language: one line of
//! source per instruction record, an optional `name:` label, a
//! mnemonic, then up to three operands (`$r` register, `#n` integer
//! literal, `@name` label reference, `'text'` string).
//!
//! The grammar itself is stated by the `spec_parse_*` functions over
//! character sequences; each executable parser returns exactly what
//! its spec function describes.  A parse either yields a token and the
//! position after it or yields nothing and stands still, so the
//! program parser collects records until the first position where no
//! instruction starts.
use crate::assembler::{
    opt_token_view, AssemblerInstruction, InstrModel, Program, Token, TokenModel,
};
use crate::instruction::{decode_mnemonic, mnemonic_opcode};
use crate::text::{
    digit_value, is_alnum, is_alnum_char, is_alpha, is_alpha_char, is_digit, is_digit_char,
    is_space, is_space_char,
};
use vstd::prelude::*;

verus! {

/// First position at or after `i` that does not hold whitespace.
pub open spec fn spec_skip_ws(s: Seq<char>, i: int) -> int
    decreases s.len() - i,
{
    if 0 <= i && i < s.len() && is_space_char(s[i]) {
        spec_skip_ws(s, i + 1)
    } else {
        i
    }
}

/// End of the run of decimal digits starting at `i`.
pub open spec fn spec_scan_digits(s: Seq<char>, i: int) -> int
    decreases s.len() - i,
{
    if 0 <= i && i < s.len() && is_digit_char(s[i]) {
        spec_scan_digits(s, i + 1)
    } else {
        i
    }
}

/// End of the run of letters starting at `i`.
pub open spec fn spec_scan_alpha(s: Seq<char>, i: int) -> int
    decreases s.len() - i,
{
    if 0 <= i && i < s.len() && is_alpha_char(s[i]) {
        spec_scan_alpha(s, i + 1)
    } else {
        i
    }
}

/// End of the run of letters and digits starting at `i`.
pub open spec fn spec_scan_alnum(s: Seq<char>, i: int) -> int
    decreases s.len() - i,
{
    if 0 <= i && i < s.len() && is_alnum_char(s[i]) {
        spec_scan_alnum(s, i + 1)
    } else {
        i
    }
}

/// Position of the next single quote at or after `i`, or the end.
pub open spec fn spec_scan_to_quote(s: Seq<char>, i: int) -> int
    decreases s.len() - i,
{
    if 0 <= i && i < s.len() && s[i] != '\'' {
        spec_scan_to_quote(s, i + 1)
    } else {
        i
    }
}

pub proof fn lemma_skip_ws_bounds(s: Seq<char>, i: int)
    requires
        0 <= i <= s.len(),
    ensures
        i <= spec_skip_ws(s, i) <= s.len(),
    decreases s.len() - i,
{
    if 0 <= i && i < s.len() && is_space_char(s[i]) {
        lemma_skip_ws_bounds(s, i + 1);
    }
}

pub proof fn lemma_scan_digits_bounds(s: Seq<char>, i: int)
    requires
        0 <= i <= s.len(),
    ensures
        i <= spec_scan_digits(s, i) <= s.len(),
    decreases s.len() - i,
{
    if 0 <= i && i < s.len() && is_digit_char(s[i]) {
        lemma_scan_digits_bounds(s, i + 1);
    }
}

pub proof fn lemma_scan_alpha_bounds(s: Seq<char>, i: int)
    requires
        0 <= i <= s.len(),
    ensures
        i <= spec_scan_alpha(s, i) <= s.len(),
    decreases s.len() - i,
{
    if 0 <= i && i < s.len() && is_alpha_char(s[i]) {
        lemma_scan_alpha_bounds(s, i + 1);
    }
}

pub proof fn lemma_scan_alnum_bounds(s: Seq<char>, i: int)
    requires
        0 <= i <= s.len(),
    ensures
        i <= spec_scan_alnum(s, i) <= s.len(),
    decreases s.len() - i,
{
    if 0 <= i && i < s.len() && is_alnum_char(s[i]) {
        lemma_scan_alnum_bounds(s, i + 1);
    }
}

pub proof fn lemma_scan_to_quote_bounds(s: Seq<char>, i: int)
    requires
        0 <= i <= s.len(),
    ensures
        i <= spec_scan_to_quote(s, i) <= s.len(),
    decreases s.len() - i,
{
    if 0 <= i && i < s.len() && s[i] != '\'' {
        lemma_scan_to_quote_bounds(s, i + 1);
    }
}

/// Value of the digit run `s[i..j)`, most significant digit first.
pub open spec fn spec_digits_value(s: Seq<char>, i: int, j: int) -> int
    decreases j - i,
{
    if i < j {
        spec_digits_value(s, i, j - 1) * 10 + digit_value(s[j - 1])
    } else {
        0
    }
}

/// A digit run's value is never negative.
pub proof fn lemma_digits_value_nonneg(s: Seq<char>, i: int, j: int)
    requires
        forall|m: int| i <= m < j ==> is_digit_char(s[m]),
    ensures
        spec_digits_value(s, i, j) >= 0,
    decreases j - i,
{
    if i < j {
        lemma_digits_value_nonneg(s, i, j - 1);
    }
}

/// Skip whitespace; `n` is the character length of `s`.
fn skip_ws_from(s: &str, n: usize, i: usize) -> (r: usize)
    requires
        n == s@.len(),
    ensures
        r == spec_skip_ws(s@, i as int),
        i <= r <= n || (i > n && r == i),
{
    let mut j = i;
    while j < n && is_space(s.get_char(j))
        invariant
            n == s@.len(),
            i <= j,
            j <= n || j == i,
            spec_skip_ws(s@, i as int) == spec_skip_ws(s@, j as int),
        decreases n - j,
    {
        j = j + 1;
    }
    j
}

/// Scan a digit run; `n` is the character length of `s`.
fn scan_digits_from(s: &str, n: usize, i: usize) -> (r: usize)
    requires
        n == s@.len(),
    ensures
        r == spec_scan_digits(s@, i as int),
        i <= r <= n || (i > n && r == i),
        forall|m: int| i <= m < r ==> is_digit_char(s@[m]),
{
    let mut j = i;
    while j < n && is_digit(s.get_char(j))
        invariant
            n == s@.len(),
            i <= j,
            j <= n || j == i,
            spec_scan_digits(s@, i as int) == spec_scan_digits(s@, j as int),
            forall|m: int| i <= m < j ==> is_digit_char(s@[m]),
        decreases n - j,
    {
        j = j + 1;
    }
    j
}

/// Scan a letter run; `n` is the character length of `s`.
fn scan_alpha_from(s: &str, n: usize, i: usize) -> (r: usize)
    requires
        n == s@.len(),
    ensures
        r == spec_scan_alpha(s@, i as int),
        i <= r <= n || (i > n && r == i),
{
    let mut j = i;
    while j < n && is_alpha(s.get_char(j))
        invariant
            n == s@.len(),
            i <= j,
            j <= n || j == i,
            spec_scan_alpha(s@, i as int) == spec_scan_alpha(s@, j as int),
        decreases n - j,
    {
        j = j + 1;
    }
    j
}

/// Scan a letter-or-digit run; `n` is the character length of `s`.
fn scan_alnum_from(s: &str, n: usize, i: usize) -> (r: usize)
    requires
        n == s@.len(),
    ensures
        r == spec_scan_alnum(s@, i as int),
        i <= r <= n || (i > n && r == i),
{
    let mut j = i;
    while j < n && is_alnum(s.get_char(j))
        invariant
            n == s@.len(),
            i <= j,
            j <= n || j == i,
            spec_scan_alnum(s@, i as int) == spec_scan_alnum(s@, j as int),
        decreases n - j,
    {
        j = j + 1;
    }
    j
}

/// Scan up to the next single quote; `n` is the character length.
fn scan_to_quote_from(s: &str, n: usize, i: usize) -> (r: usize)
    requires
        n == s@.len(),
    ensures
        r == spec_scan_to_quote(s@, i as int),
        i <= r <= n || (i > n && r == i),
{
    let mut j = i;
    while j < n && s.get_char(j) != '\''
        invariant
            n == s@.len(),
            i <= j,
            j <= n || j == i,
            spec_scan_to_quote(s@, i as int) == spec_scan_to_quote(s@, j as int),
        decreases n - j,
    {
        j = j + 1;
    }
    j
}

/// Value of the digit run `s[i..j)` if it fits under `cap`.
fn digits_value_capped(s: &str, n: usize, i: usize, j: usize, cap: u32) -> (r: Option<u32>)
    requires
        n == s@.len(),
        i <= j <= n,
        forall|m: int| i <= m < j ==> is_digit_char(s@[m]),
    ensures
        match r {
            Option::Some(v) => v <= cap && v == spec_digits_value(s@, i as int, j as int),
            Option::None => spec_digits_value(s@, i as int, j as int) > cap,
        },
{
    let mut acc: u64 = 0;
    let mut over = false;
    let mut k = i;
    while k < j
        invariant
            n == s@.len(),
            i <= k <= j <= n,
            forall|m: int| i <= m < j ==> is_digit_char(s@[m]),
            !over ==> acc == spec_digits_value(s@, i as int, k as int) && acc <= u32::MAX,
            over ==> spec_digits_value(s@, i as int, k as int) > u32::MAX,
        decreases j - k,
    {
        let c = s.get_char(k);
        let d = (c as u32) - 48;
        if !over {
            let acc2 = acc * 10 + (d as u64);
            if acc2 > 0xFFFF_FFFF {
                over = true;
            } else {
                acc = acc2;
            }
        }
        k = k + 1;
    }
    if over {
        None
    } else if acc > (cap as u64) {
        None
    } else {
        Some(acc as u32)
    }
}

/// A register operand: `$` then digits naming one of the 256
/// addressable register numbers.
pub open spec fn spec_parse_register(s: Seq<char>, i: int) -> Option<(TokenModel, int)> {
    let j = spec_skip_ws(s, i);
    if 0 <= j && j < s.len() && s[j] == '$' {
        let k = spec_scan_digits(s, j + 1);
        if k > j + 1 && spec_digits_value(s, j + 1, k) <= 255 {
            Option::Some((TokenModel::Register(spec_digits_value(s, j + 1, k) as u8), k))
        } else {
            Option::None
        }
    } else {
        Option::None
    }
}

pub fn parse_register(s: &str, i: usize) -> (r: Option<(Token, usize)>)
    ensures
        match r {
            Option::Some((t, j)) => spec_parse_register(s@, i as int) == Option::Some(
                (t@, j as int),
            ),
            Option::None => spec_parse_register(s@, i as int) is None,
        },
{
    let n = s.unicode_len();
    let j = skip_ws_from(s, n, i);
    if j < n && s.get_char(j) == '$' {
        let k = scan_digits_from(s, n, j + 1);
        if k == j + 1 {
            return None;
        }
        match digits_value_capped(s, n, j + 1, k, 255) {
            Some(v) => Some((Token::Register { reg_num: v as u8 }, k)),
            None => {
                proof {
                    lemma_digits_value_nonneg(s@, j + 1, k as int);
                }
                None
            },
        }
    } else {
        None
    }
}

/// An integer operand: `#` then digits; only values that fit the
/// 32-bit signed range scan as a literal.
pub open spec fn spec_parse_int_operand(s: Seq<char>, i: int) -> Option<(TokenModel, int)> {
    let j = spec_skip_ws(s, i);
    if 0 <= j && j < s.len() && s[j] == '#' {
        let k = spec_scan_digits(s, j + 1);
        if k > j + 1 && spec_digits_value(s, j + 1, k) <= 0x7FFF_FFFF {
            Option::Some((TokenModel::IntOperand(spec_digits_value(s, j + 1, k) as i32), k))
        } else {
            Option::None
        }
    } else {
        Option::None
    }
}

pub fn parse_integer_operand(s: &str, i: usize) -> (r: Option<(Token, usize)>)
    ensures
        match r {
            Option::Some((t, j)) => spec_parse_int_operand(s@, i as int) == Option::Some(
                (t@, j as int),
            ),
            Option::None => spec_parse_int_operand(s@, i as int) is None,
        },
{
    let n = s.unicode_len();
    let j = skip_ws_from(s, n, i);
    if j < n && s.get_char(j) == '#' {
        let k = scan_digits_from(s, n, j + 1);
        if k == j + 1 {
            return None;
        }
        match digits_value_capped(s, n, j + 1, k, 0x7FFF_FFFF) {
            Some(v) => Some((Token::IntOperand { value: v as i32 }, k)),
            None => {
                proof {
                    lemma_digits_value_nonneg(s@, j + 1, k as int);
                }
                None
            },
        }
    } else {
        None
    }
}

/// A label declaration: a letter-or-digit name directly followed by
/// a colon.
pub open spec fn spec_parse_label_decl(s: Seq<char>, i: int) -> Option<(TokenModel, int)> {
    let j = spec_skip_ws(s, i);
    let k = spec_scan_alnum(s, j);
    if 0 <= j && k > j && k < s.len() && s[k] == ':' {
        Option::Some((TokenModel::LabelDecl(s.subrange(j, k)), k + 1))
    } else {
        Option::None
    }
}

pub fn parse_label_declaration(s: &str, i: usize) -> (r: Option<(Token, usize)>)
    ensures
        match r {
            Option::Some((t, j)) => spec_parse_label_decl(s@, i as int) == Option::Some(
                (t@, j as int),
            ),
            Option::None => spec_parse_label_decl(s@, i as int) is None,
        },
{
    let n = s.unicode_len();
    let j = skip_ws_from(s, n, i);
    if j > n {
        return None;
    }
    let k = scan_alnum_from(s, n, j);
    if k > j && k < n && s.get_char(k) == ':' {
        let name = s.substring_char(j, k).to_owned();
        Some((Token::LabelDecl { name }, k + 1))
    } else {
        None
    }
}

/// A label reference: `@` then a letter-or-digit name.
pub open spec fn spec_parse_label_usage(s: Seq<char>, i: int) -> Option<(TokenModel, int)> {
    let j = spec_skip_ws(s, i);
    if 0 <= j && j < s.len() && s[j] == '@' {
        let k = spec_scan_alnum(s, j + 1);
        if k > j + 1 {
            Option::Some((TokenModel::LabelUsage(s.subrange(j + 1, k)), k))
        } else {
            Option::None
        }
    } else {
        Option::None
    }
}

pub fn parse_label_usage(s: &str, i: usize) -> (r: Option<(Token, usize)>)
    ensures
        match r {
            Option::Some((t, j)) => spec_parse_label_usage(s@, i as int) == Option::Some(
                (t@, j as int),
            ),
            Option::None => spec_parse_label_usage(s@, i as int) is None,
        },
{
    let n = s.unicode_len();
    let j = skip_ws_from(s, n, i);
    if j < n && s.get_char(j) == '@' {
        let k = scan_alnum_from(s, n, j + 1);
        if k > j + 1 {
            let name = s.substring_char(j + 1, k).to_owned();
            Some((Token::LabelUsage { name }, k))
        } else {
            None
        }
    } else {
        None
    }
}

/// A quoted string operand: the characters between two single quotes.
pub open spec fn spec_parse_irstring(s: Seq<char>, i: int) -> Option<(TokenModel, int)> {
    let j = spec_skip_ws(s, i);
    if 0 <= j && j < s.len() && s[j] == '\'' {
        let k = spec_scan_to_quote(s, j + 1);
        if k < s.len() {
            Option::Some((TokenModel::IrString(s.subrange(j + 1, k)), k + 1))
        } else {
            Option::None
        }
    } else {
        Option::None
    }
}

pub fn parse_irstring(s: &str, i: usize) -> (r: Option<(Token, usize)>)
    ensures
        match r {
            Option::Some((t, j)) => spec_parse_irstring(s@, i as int) == Option::Some(
                (t@, j as int),
            ),
            Option::None => spec_parse_irstring(s@, i as int) is None,
        },
{
    let n = s.unicode_len();
    let j = skip_ws_from(s, n, i);
    if j < n && s.get_char(j) == '\'' {
        let k = scan_to_quote_from(s, n, j + 1);
        if k < n {
            let name = s.substring_char(j + 1, k).to_owned();
            Some((Token::IrString { name }, k + 1))
        } else {
            None
        }
    } else {
        None
    }
}

/// A directive name: `.` then letters.
pub open spec fn spec_parse_directive_name(s: Seq<char>, i: int) -> Option<(TokenModel, int)> {
    let j = spec_skip_ws(s, i);
    if 0 <= j && j < s.len() && s[j] == '.' {
        let k = spec_scan_alpha(s, j + 1);
        if k > j + 1 {
            Option::Some((TokenModel::Directive(s.subrange(j + 1, k)), k))
        } else {
            Option::None
        }
    } else {
        Option::None
    }
}

pub fn parse_directive_declaration(s: &str, i: usize) -> (r: Option<(Token, usize)>)
    ensures
        match r {
            Option::Some((t, j)) => spec_parse_directive_name(s@, i as int) == Option::Some(
                (t@, j as int),
            ),
            Option::None => spec_parse_directive_name(s@, i as int) is None,
        },
{
    let n = s.unicode_len();
    let j = skip_ws_from(s, n, i);
    if j < n && s.get_char(j) == '.' {
        let k = scan_alpha_from(s, n, j + 1);
        if k > j + 1 {
            let name = s.substring_char(j + 1, k).to_owned();
            Some((Token::Directive { name }, k))
        } else {
            None
        }
    } else {
        None
    }
}

/// A mnemonic token: a letter run, decoded through the opcode table;
/// an unknown word scans as the illegal opcode.
pub open spec fn spec_parse_opcode(s: Seq<char>, i: int) -> Option<(TokenModel, int)> {
    let j = spec_skip_ws(s, i);
    let k = spec_scan_alpha(s, j);
    if 0 <= j && k > j {
        Option::Some((TokenModel::Op(mnemonic_opcode(s.subrange(j, k))), k))
    } else {
        Option::None
    }
}

pub fn parse_opcode(s: &str, i: usize) -> (r: Option<(Token, usize)>)
    ensures
        match r {
            Option::Some((t, j)) => spec_parse_opcode(s@, i as int) == Option::Some(
                (t@, j as int),
            ),
            Option::None => spec_parse_opcode(s@, i as int) is None,
        },
{
    let n = s.unicode_len();
    let j = skip_ws_from(s, n, i);
    if j > n {
        return None;
    }
    let k = scan_alpha_from(s, n, j);
    if k > j {
        let word = s.substring_char(j, k);
        let code = decode_mnemonic(word);
        Some((Token::Op { code }, k))
    } else {
        None
    }
}

/// An operand: an integer literal, a label reference, a register, or
/// a quoted string, tried in that order.
pub open spec fn spec_parse_operand(s: Seq<char>, i: int) -> Option<(TokenModel, int)> {
    if spec_parse_int_operand(s, i) is Some {
        spec_parse_int_operand(s, i)
    } else if spec_parse_label_usage(s, i) is Some {
        spec_parse_label_usage(s, i)
    } else if spec_parse_register(s, i) is Some {
        spec_parse_register(s, i)
    } else {
        spec_parse_irstring(s, i)
    }
}

pub fn parse_operand(s: &str, i: usize) -> (r: Option<(Token, usize)>)
    ensures
        match r {
            Option::Some((t, j)) => spec_parse_operand(s@, i as int) == Option::Some(
                (t@, j as int),
            ),
            Option::None => spec_parse_operand(s@, i as int) is None,
        },
{
    if let Some(r) = parse_integer_operand(s, i) {
        return Some(r);
    }
    if let Some(r) = parse_label_usage(s, i) {
        return Some(r);
    }
    if let Some(r) = parse_register(s, i) {
        return Some(r);
    }
    parse_irstring(s, i)
}

/// One instruction record: an optional label declaration, a mnemonic,
/// then up to three operands; no directive is ever attached here.
pub open spec fn spec_parse_instruction(s: Seq<char>, i: int) -> Option<(InstrModel, int)> {
    if i < 0 || i > s.len() {
        Option::None
    } else {
        let (lblt, p0) = match spec_parse_label_decl(s, i) {
            Option::Some((t, j)) => (Option::Some(t), j),
            Option::None => (Option::None, i),
        };
        match spec_parse_opcode(s, p0) {
            Option::None => Option::None,
            Option::Some((opt, p1)) => {
                let (o1, p2) = match spec_parse_operand(s, p1) {
                    Option::Some((t, j)) => (Option::Some(t), j),
                    Option::None => (Option::None, p1),
                };
                let (o2, p3) = match spec_parse_operand(s, p2) {
                    Option::Some((t, j)) => (Option::Some(t), j),
                    Option::None => (Option::None, p2),
                };
                let (o3, p4) = match spec_parse_operand(s, p3) {
                    Option::Some((t, j)) => (Option::Some(t), j),
                    Option::None => (Option::None, p3),
                };
                Option::Some(
                    (
                        InstrModel {
                            label: lblt,
                            directive: Option::None,
                            opcode: Option::Some(opt),
                            operand1: o1,
                            operand2: o2,
                            operand3: o3,
                        },
                        p4,
                    ),
                )
            },
        }
    }
}

/// A directive line: an optional label declaration, a `.name`
/// directive, then up to three operands.  The program scanner never
/// produces one — directives are reserved — but the grammar keeps the
/// form, opcode slot empty.
pub open spec fn spec_parse_directive_entry(s: Seq<char>, i: int) -> Option<(InstrModel, int)> {
    if i < 0 || i > s.len() {
        Option::None
    } else {
        let (lblt, p0) = match spec_parse_label_decl(s, i) {
            Option::Some((t, j)) => (Option::Some(t), j),
            Option::None => (Option::None, i),
        };
        match spec_parse_directive_name(s, p0) {
            Option::None => Option::None,
            Option::Some((dir, p1)) => {
                let (o1, p2) = match spec_parse_operand(s, p1) {
                    Option::Some((t, j)) => (Option::Some(t), j),
                    Option::None => (Option::None, p1),
                };
                let (o2, p3) = match spec_parse_operand(s, p2) {
                    Option::Some((t, j)) => (Option::Some(t), j),
                    Option::None => (Option::None, p2),
                };
                let (o3, p4) = match spec_parse_operand(s, p3) {
                    Option::Some((t, j)) => (Option::Some(t), j),
                    Option::None => (Option::None, p3),
                };
                Option::Some(
                    (
                        InstrModel {
                            label: lblt,
                            directive: Option::Some(dir),
                            opcode: Option::None,
                            operand1: o1,
                            operand2: o2,
                            operand3: o3,
                        },
                        p4,
                    ),
                )
            },
        }
    }
}

pub fn parse_directive_entry(s: &str, i: usize) -> (r: Option<(AssemblerInstruction, usize)>)
    ensures
        match r {
            Option::Some((ins, j)) => spec_parse_directive_entry(s@, i as int) == Option::Some(
                (ins@, j as int),
            ),
            Option::None => spec_parse_directive_entry(s@, i as int) is None,
        },
{
    let n = s.unicode_len();
    if i > n {
        return None;
    }
    let (lbl, p0) = match parse_label_declaration(s, i) {
        Some((t, j)) => (Some(t), j),
        None => (None, i),
    };
    match parse_directive_declaration(s, p0) {
        None => None,
        Some((dir, p1)) => {
            let (o1, p2) = match parse_operand(s, p1) {
                Some((t, j)) => (Some(t), j),
                None => (None, p1),
            };
            let (o2, p3) = match parse_operand(s, p2) {
                Some((t, j)) => (Some(t), j),
                None => (None, p2),
            };
            let (o3, p4) = match parse_operand(s, p3) {
                Some((t, j)) => (Some(t), j),
                None => (None, p3),
            };
            Some(
                (
                    AssemblerInstruction {
                        label: lbl,
                        directive: Some(dir),
                        opcode: None,
                        operand1: o1,
                        operand2: o2,
                        operand3: o3,
                    },
                    p4,
                ),
            )
        },
    }
}

pub proof fn lemma_register_progress(s: Seq<char>, i: int)
    requires
        0 <= i <= s.len(),
    ensures
        match spec_parse_register(s, i) {
            Option::Some((t, j)) => i < j <= s.len(),
            Option::None => true,
        },
{
    lemma_skip_ws_bounds(s, i);
    let j = spec_skip_ws(s, i);
    if j < s.len() && s[j] == '$' {
        lemma_scan_digits_bounds(s, j + 1);
    }
}

pub proof fn lemma_int_operand_progress(s: Seq<char>, i: int)
    requires
        0 <= i <= s.len(),
    ensures
        match spec_parse_int_operand(s, i) {
            Option::Some((t, j)) => i < j <= s.len(),
            Option::None => true,
        },
{
    lemma_skip_ws_bounds(s, i);
    let j = spec_skip_ws(s, i);
    if j < s.len() && s[j] == '#' {
        lemma_scan_digits_bounds(s, j + 1);
    }
}

pub proof fn lemma_label_decl_progress(s: Seq<char>, i: int)
    requires
        0 <= i <= s.len(),
    ensures
        match spec_parse_label_decl(s, i) {
            Option::Some((t, j)) => i < j <= s.len(),
            Option::None => true,
        },
{
    lemma_skip_ws_bounds(s, i);
    let j = spec_skip_ws(s, i);
    lemma_scan_alnum_bounds(s, j);
}

pub proof fn lemma_label_usage_progress(s: Seq<char>, i: int)
    requires
        0 <= i <= s.len(),
    ensures
        match spec_parse_label_usage(s, i) {
            Option::Some((t, j)) => i < j <= s.len(),
            Option::None => true,
        },
{
    lemma_skip_ws_bounds(s, i);
    let j = spec_skip_ws(s, i);
    if j < s.len() && s[j] == '@' {
        lemma_scan_alnum_bounds(s, j + 1);
    }
}

pub proof fn lemma_irstring_progress(s: Seq<char>, i: int)
    requires
        0 <= i <= s.len(),
    ensures
        match spec_parse_irstring(s, i) {
            Option::Some((t, j)) => i < j <= s.len(),
            Option::None => true,
        },
{
    lemma_skip_ws_bounds(s, i);
    let j = spec_skip_ws(s, i);
    if j < s.len() && s[j] == '\'' {
        lemma_scan_to_quote_bounds(s, j + 1);
    }
}

pub proof fn lemma_opcode_progress(s: Seq<char>, i: int)
    requires
        0 <= i <= s.len(),
    ensures
        match spec_parse_opcode(s, i) {
            Option::Some((t, j)) => i < j <= s.len(),
            Option::None => true,
        },
{
    lemma_skip_ws_bounds(s, i);
    let j = spec_skip_ws(s, i);
    lemma_scan_alpha_bounds(s, j);
}

pub proof fn lemma_operand_progress(s: Seq<char>, i: int)
    requires
        0 <= i <= s.len(),
    ensures
        match spec_parse_operand(s, i) {
            Option::Some((t, j)) => i < j <= s.len(),
            Option::None => true,
        },
{
    lemma_int_operand_progress(s, i);
    lemma_label_usage_progress(s, i);
    lemma_register_progress(s, i);
    lemma_irstring_progress(s, i);
}

/// A parsed instruction always moves the position strictly forward,
/// which is what lets the program scanner terminate.
pub proof fn lemma_instruction_progress(s: Seq<char>, i: int)
    requires
        0 <= i <= s.len(),
    ensures
        match spec_parse_instruction(s, i) {
            Option::Some((ins, j)) => i < j <= s.len(),
            Option::None => true,
        },
{
    lemma_label_decl_progress(s, i);
    let p0 = match spec_parse_label_decl(s, i) {
        Option::Some((t, j)) => j,
        Option::None => i,
    };
    lemma_opcode_progress(s, p0);
    match spec_parse_opcode(s, p0) {
        Option::None => {},
        Option::Some((opt, p1)) => {
            lemma_operand_progress(s, p1);
            let p2 = match spec_parse_operand(s, p1) {
                Option::Some((t, j)) => j,
                Option::None => p1,
            };
            lemma_operand_progress(s, p2);
            let p3 = match spec_parse_operand(s, p2) {
                Option::Some((t, j)) => j,
                Option::None => p2,
            };
            lemma_operand_progress(s, p3);
        },
    }
}

pub fn parse_instruction(s: &str, i: usize) -> (r: Option<(AssemblerInstruction, usize)>)
    ensures
        match r {
            Option::Some((ins, j)) => spec_parse_instruction(s@, i as int) == Option::Some(
                (ins@, j as int),
            ),
            Option::None => spec_parse_instruction(s@, i as int) is None,
        },
{
    let n = s.unicode_len();
    if i > n {
        return None;
    }
    let (lbl, p0) = match parse_label_declaration(s, i) {
        Some((t, j)) => (Some(t), j),
        None => (None, i),
    };
    match parse_opcode(s, p0) {
        None => None,
        Some((opt, p1)) => {
            let (o1, p2) = match parse_operand(s, p1) {
                Some((t, j)) => (Some(t), j),
                None => (None, p1),
            };
            let (o2, p3) = match parse_operand(s, p2) {
                Some((t, j)) => (Some(t), j),
                None => (None, p2),
            };
            let (o3, p4) = match parse_operand(s, p3) {
                Some((t, j)) => (Some(t), j),
                None => (None, p3),
            };
            Some(
                (
                    AssemblerInstruction {
                        label: lbl,
                        directive: None,
                        opcode: Some(opt),
                        operand1: o1,
                        operand2: o2,
                        operand3: o3,
                    },
                    p4,
                ),
            )
        },
    }
}

/// Every instruction record from position `i` up to the first
/// position where none starts, with that position.
pub open spec fn spec_parse_program(s: Seq<char>, i: int) -> (Seq<InstrModel>, int)
    decreases s.len() - i,
    via spec_parse_program_decreases
{
    if i < 0 || i > s.len() {
        (Seq::empty(), i)
    } else {
        match spec_parse_instruction(s, i) {
            Option::None => (Seq::empty(), i),
            Option::Some((ins, j)) => {
                let rest = spec_parse_program(s, j);
                (seq![ins] + rest.0, rest.1)
            },
        }
    }
}

#[via_fn]
proof fn spec_parse_program_decreases(s: Seq<char>, i: int) {
    if 0 <= i && i <= s.len() {
        lemma_instruction_progress(s, i);
    }
}

/// Scan a whole program: one instruction after another until none
/// starts; as the front end expects, trailing text that is not an
/// instruction is left alone.  No instruction at all is a parse
/// failure.
pub fn parse_program(s: &str) -> (r: Option<Program>)
    ensures
        match r {
            Option::Some(p) => p@ == spec_parse_program(s@, 0).0 && p@.len() > 0,
            Option::None => spec_parse_program(s@, 0).0.len() == 0,
        },
{
    let n = s.unicode_len();
    let mut instrs: Vec<AssemblerInstruction> = Vec::new();
    let mut pos: usize = 0;
    let mut done = false;
    proof {
        assert(spec_parse_program(s@, 0).0 =~= instrs.deep_view() + spec_parse_program(s@, 0).0);
    }
    while !done
        invariant
            n == s@.len(),
            pos <= n,
            spec_parse_program(s@, 0).0 == instrs.deep_view() + spec_parse_program(
                s@,
                pos as int,
            ).0,
            done ==> spec_parse_program(s@, pos as int).0.len() == 0,
        decreases n - pos + (if done {
            0int
        } else {
            1int
        }),
    {
        let ghost instrs_before = instrs.deep_view();
        match parse_instruction(s, pos) {
            None => {
                done = true;
            },
            Some((ins, j)) => {
                proof {
                    lemma_instruction_progress(s@, pos as int);
                }
                instrs.push(ins);
                proof {
                    assert(instrs.deep_view() =~= instrs_before.push(ins@));
                    let rest = spec_parse_program(s@, j as int).0;
                    assert((instrs_before + (seq![ins@] + rest)) =~= (instrs_before.push(ins@)
                        + rest));
                }
                pos = j;
            },
        }
    }
    proof {
        assert(instrs.deep_view() + spec_parse_program(s@, pos as int).0 =~= instrs.deep_view());
    }
    if instrs.len() == 0 {
        None
    } else {
        let p = Program { instructions: instrs };
        proof {
            assert(p@.len() == p.instructions.deep_view().len());
        }
        Some(p)
    }
}

} // verus!
