//! A small toolchain for a 32-bit stack/accumulator virtual machine:
//! a cycle-accurate interpreter for its byte code together with a
//! compiler from a minimal S-expression language down to that byte code.

pub mod compiler;
pub mod controlunit;
pub mod datapath;
pub mod declare;
pub mod expression;
pub mod parser;
pub mod preprocess;
pub mod std_expr;
pub mod util;

use vstd::prelude::*;

verus! {

/// Opcode field of an instruction word (bits 31..24).
pub open spec fn spec_opcode(word: u32) -> u8 {
    (word >> 24) as u8
}

/// Two-bit addressing-mode field of an instruction word (bits 23..22).
pub open spec fn spec_addr_mode(word: u32) -> u8 {
    ((word >> 22) & 0x3) as u8
}

/// Argument field of an instruction word (bits 15..0).
pub open spec fn spec_arg(word: u32) -> u16 {
    word as u16
}

/// An instruction word assembled from its three fields.
pub open spec fn spec_encode(op: u8, mode: u8, arg: u16) -> u32 {
    ((op as u32) << 24u32) | (((mode & 3) as u32) << 22u32) | (arg as u32)
}

/// Assemble an instruction word from opcode, two-bit addressing mode, and
/// argument.
pub fn encode_instruction(op: u8, mode: u8, arg: u16) -> (word: u32)
    ensures
        word == spec_encode(op, mode, arg),
{
    ((op as u32) << 24u32) | (((mode & 3) as u32) << 22u32) | (arg as u32)
}

/// Encoding an instruction word and taking it apart again returns the three
/// fields unchanged, for every representable opcode, mode, and argument.
pub proof fn lemma_encode_fields(op: u8, mode: u8, arg: u16)
    requires
        op <= 0x11,
        mode < 4,
    ensures
        spec_opcode(spec_encode(op, mode, arg)) == op,
        spec_addr_mode(spec_encode(op, mode, arg)) == mode,
        spec_arg(spec_encode(op, mode, arg)) == arg,
{
    assert((((op as u32) << 24u32) | (((mode & 3) as u32) << 22u32) | (arg as u32)) >> 24u32
        == op as u32) by (bit_vector)
        requires
            op <= 0x11,
    ;
    assert(((((op as u32) << 24u32) | (((mode & 3) as u32) << 22u32) | (arg as u32)) >> 22u32)
        & 0x3 == mode as u32) by (bit_vector)
        requires
            mode < 4,
    ;
    assert((((op as u32) << 24u32) | (((mode & 3) as u32) << 22u32) | (arg as u32)) as u16
        == arg) by (bit_vector);
}

/// Relies on String::push appending the one character to the string.
pub assume_specification[ String::push ](s: &mut String, ch: char)
    ensures
        final(s)@ == old(s)@.push(ch),
;

/// The decimal digits of `n`, most significant first.
pub open spec fn spec_dec_digits(n: nat) -> Seq<char>
    decreases n,
{
    if n < 10 {
        seq![spec_digit_char(n)]
    } else {
        spec_dec_digits(n / 10).push(spec_digit_char(n % 10))
    }
}

/// The character of one decimal digit.
pub open spec fn spec_digit_char(d: nat) -> char {
    if d == 0 {
        '0'
    } else if d == 1 {
        '1'
    } else if d == 2 {
        '2'
    } else if d == 3 {
        '3'
    } else if d == 4 {
        '4'
    } else if d == 5 {
        '5'
    } else if d == 6 {
        '6'
    } else if d == 7 {
        '7'
    } else if d == 8 {
        '8'
    } else {
        '9'
    }
}

/// The decimal rendering of a signed 16-bit value: a minus sign for a
/// negative value, then the digits of its magnitude.
pub open spec fn spec_i16_chars(n: i16) -> Seq<char> {
    if n < 0 {
        seq!['-'] + spec_dec_digits((-(n as int)) as nat)
    } else {
        spec_dec_digits(n as nat)
    }
}

fn digit_to_char(d: u32) -> (c: char)
    requires
        d < 10,
    ensures
        c == spec_digit_char(d as nat),
{
    match d {
        0 => '0',
        1 => '1',
        2 => '2',
        3 => '3',
        4 => '4',
        5 => '5',
        6 => '6',
        7 => '7',
        8 => '8',
        _ => '9',
    }
}

fn push_dec_digits(s: &mut String, m: u32)
    ensures
        final(s)@ == old(s)@ + spec_dec_digits(m as nat),
    decreases m,
{
    if m >= 10 {
        push_dec_digits(s, m / 10);
    }
    let c = digit_to_char(m % 10);
    s.push(c);
    proof {
        assert(s@ =~= old(s)@ + spec_dec_digits(m as nat));
    }
}

/// Render a signed 16-bit value in decimal.
fn push_i16(s: &mut String, n: i16)
    ensures
        final(s)@ == old(s)@ + spec_i16_chars(n),
{
    if n < 0 {
        s.push('-');
        let m = (-(n as i32)) as u32;
        push_dec_digits(s, m);
        proof {
            assert(s@ =~= old(s)@ + spec_i16_chars(n));
        }
    } else {
        push_dec_digits(s, n as u32);
    }
}

/// The rendering of an instruction's operand: `# k` for direct, `~ k` for
/// stack-relative, a bare signed `k` for immediate, and `acc` for the
/// accumulator mode.
pub open spec fn spec_operand_chars(word: u32) -> Seq<char> {
    let arg = spec_arg(word) as i16;
    let mode = spec_addr_mode(word);
    if mode == 0 {
        "# "@ + spec_i16_chars(arg)
    } else if mode == 1 {
        "~ "@ + spec_i16_chars(arg)
    } else if mode == 2 {
        spec_i16_chars(arg)
    } else {
        "acc"@
    }
}

fn addr_mode_str(word: u32) -> (s: String)
    ensures
        s@ == spec_operand_chars(word),
{
    let arg = word as u16 as i16;
    let mode = (word >> 22u32) & 0x3;
    proof {
        assert(((word >> 22u32) & 0x3) < 4) by (bit_vector);
    }
    let mut s = String::new();
    if mode == 0 {
        s.push('#');
        s.push(' ');
        proof {
            reveal_strlit("# ");
            assert(s@ =~= "# "@);
        }
        push_i16(&mut s, arg);
    } else if mode == 1 {
        s.push('~');
        s.push(' ');
        proof {
            reveal_strlit("~ ");
            assert(s@ =~= "~ "@);
        }
        push_i16(&mut s, arg);
    } else if mode == 2 {
        push_i16(&mut s, arg);
        proof {
            assert(s@ =~= spec_i16_chars(arg));
        }
    } else {
        s.push('a');
        s.push('c');
        s.push('c');
        proof {
            reveal_strlit("acc");
            assert(s@ =~= "acc"@);
        }
    }
    s
}

/// The mnemonic of an opcode, with a trailing space wherever an operand or
/// offset follows.
pub open spec fn spec_mnemonic(op: u8) -> Seq<char> {
    if op == 0x00 {
        "sign "@
    } else if op == 0x01 {
        "and "@
    } else if op == 0x02 {
        "or "@
    } else if op == 0x03 {
        "add "@
    } else if op == 0x04 {
        "sub "@
    } else if op == 0x05 {
        "mul "@
    } else if op == 0x06 {
        "div "@
    } else if op == 0x07 {
        "rem "@
    } else if op == 0x08 {
        "jump "@
    } else if op == 0x09 {
        "jifz "@
    } else if op == 0x0A {
        "call "@
    } else if op == 0x0B {
        "ret"@
    } else if op == 0x0C {
        "spadd "@
    } else if op == 0x0D {
        "load "@
    } else if op == 0x0E {
        "save "@
    } else if op == 0x0F {
        "ldrel "@
    } else if op == 0x10 {
        "svrel "@
    } else {
        "halt"@
    }
}

/// The full rendering of an instruction word: the mnemonic, then the
/// operand for the opcodes that take one, the bare signed offset for the
/// jumps and `call`, and nothing for `ret` and `halt`.
pub open spec fn spec_asm_chars(word: u32) -> Seq<char> {
    let op = spec_opcode(word);
    if op == 0x0B || op == 0x11 {
        spec_mnemonic(op)
    } else if op == 0x08 || op == 0x09 || op == 0x0A {
        spec_mnemonic(op) + spec_i16_chars(spec_arg(word) as i16)
    } else {
        spec_mnemonic(op) + spec_operand_chars(word)
    }
}

/// Render an instruction word as its human-readable mnemonic line.
pub fn decode_asm(instr: u32) -> (s: String)
    requires
        spec_opcode(instr) <= 0x11,
    ensures
        s@ == spec_asm_chars(instr),
{
    let op = (instr >> 24u32) as u8;
    let mut s = match op {
        0x00 => mnemonic_string("sign "),
        0x01 => mnemonic_string("and "),
        0x02 => mnemonic_string("or "),
        0x03 => mnemonic_string("add "),
        0x04 => mnemonic_string("sub "),
        0x05 => mnemonic_string("mul "),
        0x06 => mnemonic_string("div "),
        0x07 => mnemonic_string("rem "),
        0x08 => mnemonic_string("jump "),
        0x09 => mnemonic_string("jifz "),
        0x0A => mnemonic_string("call "),
        0x0B => mnemonic_string("ret"),
        0x0C => mnemonic_string("spadd "),
        0x0D => mnemonic_string("load "),
        0x0E => mnemonic_string("save "),
        0x0F => mnemonic_string("ldrel "),
        0x10 => mnemonic_string("svrel "),
        _ => mnemonic_string("halt"),
    };
    proof {
        assert(s@ == spec_mnemonic(op));
    }
    if op == 0x0B || op == 0x11 {
        s
    } else if op == 0x08 || op == 0x09 || op == 0x0A {
        push_i16(&mut s, instr as u16 as i16);
        s
    } else {
        let operand = addr_mode_str(instr);
        s.append(operand.as_str());
        s
    }
}

fn mnemonic_string(m: &str) -> (s: String)
    ensures
        s@ == m@,
{
    <String as vstd::string::StringExecFns>::from_str(m)
}

/// `p` is the first characters of `s`.
pub open spec fn spec_has_prefix(s: Seq<char>, p: Seq<char>) -> bool {
    s.len() >= p.len() && s.subrange(0, p.len() as int) == p
}

proof fn lemma_not_prefix(s: Seq<char>, p: Seq<char>, i: int)
    requires
        0 <= i < p.len(),
        i < s.len(),
        s[i] != p[i],
    ensures
        !spec_has_prefix(s, p),
{
    if spec_has_prefix(s, p) {
        assert(s.subrange(0, p.len() as int)[i] == s[i]);
    }
}

/// Re-parse of a rendered operand: the mode mark and the signed argument.
/// The accumulator mode carries no argument and reads back as zero.
pub open spec fn spec_parse_operand(s: Seq<char>) -> Option<(u8, i16)> {
    if s.len() >= 2 && s.subrange(0, 2) == "# "@ {
        match crate::util::spec_parse_int(s.skip(2)) {
            Some(v) => if -32768 <= v <= 32767 {
                Some((0u8, v as i16))
            } else {
                None
            },
            None => None,
        }
    } else if s.len() >= 2 && s.subrange(0, 2) == "~ "@ {
        match crate::util::spec_parse_int(s.skip(2)) {
            Some(v) => if -32768 <= v <= 32767 {
                Some((1u8, v as i16))
            } else {
                None
            },
            None => None,
        }
    } else if s == "acc"@ {
        Some((3u8, 0i16))
    } else {
        match crate::util::spec_parse_int(s) {
            Some(v) => if -32768 <= v <= 32767 {
                Some((2u8, v as i16))
            } else {
                None
            },
            None => None,
        }
    }
}

/// Re-parse of a rendered instruction line: the mnemonic selects the
/// opcode; the operand or offset follows. The jumps and `call` render no
/// mode and read back as direct; `ret` and `halt` render no argument.
pub open spec fn spec_parse_asm(s: Seq<char>) -> Option<(u8, u8, i16)> {
    if spec_has_prefix(s, "sign "@) {
        match spec_parse_operand(s.skip(5)) {
            Some(p) => Some((0x00u8, p.0, p.1)),
            None => None,
        }
    } else if spec_has_prefix(s, "and "@) {
        match spec_parse_operand(s.skip(4)) {
            Some(p) => Some((0x01u8, p.0, p.1)),
            None => None,
        }
    } else if spec_has_prefix(s, "or "@) {
        match spec_parse_operand(s.skip(3)) {
            Some(p) => Some((0x02u8, p.0, p.1)),
            None => None,
        }
    } else if spec_has_prefix(s, "add "@) {
        match spec_parse_operand(s.skip(4)) {
            Some(p) => Some((0x03u8, p.0, p.1)),
            None => None,
        }
    } else if spec_has_prefix(s, "sub "@) {
        match spec_parse_operand(s.skip(4)) {
            Some(p) => Some((0x04u8, p.0, p.1)),
            None => None,
        }
    } else if spec_has_prefix(s, "mul "@) {
        match spec_parse_operand(s.skip(4)) {
            Some(p) => Some((0x05u8, p.0, p.1)),
            None => None,
        }
    } else if spec_has_prefix(s, "div "@) {
        match spec_parse_operand(s.skip(4)) {
            Some(p) => Some((0x06u8, p.0, p.1)),
            None => None,
        }
    } else if spec_has_prefix(s, "rem "@) {
        match spec_parse_operand(s.skip(4)) {
            Some(p) => Some((0x07u8, p.0, p.1)),
            None => None,
        }
    } else if spec_has_prefix(s, "jump "@) {
        match crate::util::spec_parse_int(s.skip(5)) {
            Some(v) => if -32768 <= v <= 32767 {
                Some((0x08u8, 0u8, v as i16))
            } else {
                None
            },
            None => None,
        }
    } else if spec_has_prefix(s, "jifz "@) {
        match crate::util::spec_parse_int(s.skip(5)) {
            Some(v) => if -32768 <= v <= 32767 {
                Some((0x09u8, 0u8, v as i16))
            } else {
                None
            },
            None => None,
        }
    } else if spec_has_prefix(s, "call "@) {
        match crate::util::spec_parse_int(s.skip(5)) {
            Some(v) => if -32768 <= v <= 32767 {
                Some((0x0Au8, 0u8, v as i16))
            } else {
                None
            },
            None => None,
        }
    } else if s == "ret"@ {
        Some((0x0Bu8, 0u8, 0i16))
    } else if spec_has_prefix(s, "spadd "@) {
        match spec_parse_operand(s.skip(6)) {
            Some(p) => Some((0x0Cu8, p.0, p.1)),
            None => None,
        }
    } else if spec_has_prefix(s, "load "@) {
        match spec_parse_operand(s.skip(5)) {
            Some(p) => Some((0x0Du8, p.0, p.1)),
            None => None,
        }
    } else if spec_has_prefix(s, "save "@) {
        match spec_parse_operand(s.skip(5)) {
            Some(p) => Some((0x0Eu8, p.0, p.1)),
            None => None,
        }
    } else if spec_has_prefix(s, "ldrel "@) {
        match spec_parse_operand(s.skip(6)) {
            Some(p) => Some((0x0Fu8, p.0, p.1)),
            None => None,
        }
    } else if spec_has_prefix(s, "svrel "@) {
        match spec_parse_operand(s.skip(6)) {
            Some(p) => Some((0x10u8, p.0, p.1)),
            None => None,
        }
    } else if s == "halt"@ {
        Some((0x11u8, 0u8, 0i16))
    } else {
        None
    }
}

/// The two-bit addressing mode is one of its four values.
pub proof fn lemma_mode_bound(word: u32)
    ensures
        spec_addr_mode(word) < 4,
{
    assert(((word >> 22u32) & 0x3) < 4) by (bit_vector);
}

/// Re-parsing a rendered operand returns the mode and argument the word
/// carries; only the accumulator mode leaves the argument behind.
pub proof fn lemma_operand_chars_round(word: u32)
    ensures
        spec_addr_mode(word) <= 2 ==> spec_parse_operand(spec_operand_chars(word)) == Some(
            (spec_addr_mode(word), spec_arg(word) as i16),
        ),
        spec_addr_mode(word) == 3 ==> spec_parse_operand(spec_operand_chars(word)) == Some(
            (3u8, 0i16),
        ),
{
    reveal_strlit("# ");
    reveal_strlit("~ ");
    reveal_strlit("acc");
    reveal_strlit("sign ");
    reveal_strlit("and ");
    reveal_strlit("or ");
    reveal_strlit("add ");
    reveal_strlit("sub ");
    reveal_strlit("mul ");
    reveal_strlit("div ");
    reveal_strlit("rem ");
    reveal_strlit("jump ");
    reveal_strlit("jifz ");
    reveal_strlit("call ");
    reveal_strlit("ret");
    reveal_strlit("spadd ");
    reveal_strlit("load ");
    reveal_strlit("save ");
    reveal_strlit("ldrel ");
    reveal_strlit("svrel ");
    reveal_strlit("halt");
    assert(((word >> 22u32) & 0x3) < 4) by (bit_vector);
    let mode = spec_addr_mode(word);
    let arg = spec_arg(word) as i16;
    let num = spec_i16_chars(arg);
    crate::util::lemma_i16_chars_round(arg);
    let s = spec_operand_chars(word);
    if mode == 0 {
        assert(s.subrange(0, 2) =~= "# "@);
        assert(s.skip(2) =~= num);
    } else if mode == 1 {
        assert(s.subrange(0, 2) =~= "~ "@);
        assert(s.skip(2) =~= num);
        assert(s.subrange(0, 2) != "# "@) by {
            assert(s.subrange(0, 2)[0] == '~');
        }
    } else if mode == 2 {
        assert(s == num);
        if s.len() >= 2 && s.subrange(0, 2) == "# "@ {
            assert(s.subrange(0, 2)[0] == s[0]);
            assert(s[0] == '#');
            assert(crate::util::spec_char_digit('#') is None);
            assert(false);
        }
        if s.len() >= 2 && s.subrange(0, 2) == "~ "@ {
            assert(s.subrange(0, 2)[0] == s[0]);
            assert(s[0] == '~');
            assert(crate::util::spec_char_digit('~') is None);
            assert(false);
        }
        if s == "acc"@ {
            assert(s[0] == 'a');
            assert(crate::util::spec_char_digit('a') is None);
            assert(false);
        }
    } else {
        assert(s =~= "acc"@);
        assert(s.subrange(0, 2)[0] == 'a');
    }
}

proof fn lemma_asm_round_00(word: u32)
    requires
        spec_opcode(word) == 0x00,
    ensures
        spec_parse_asm(spec_asm_chars(word)) == (if spec_addr_mode(word) == 3 {
            Some((0x00u8, 3u8, 0i16))
        } else {
            Some((0x00u8, spec_addr_mode(word), spec_arg(word) as i16))
        }),
{
    let s = spec_asm_chars(word);
    lemma_mode_bound(word);
    let tail = spec_operand_chars(word);
    reveal_strlit("# ");
    reveal_strlit("~ ");
    reveal_strlit("acc");
    reveal_strlit("sign ");
    assert(s =~= "sign "@ + tail);
    assert(spec_has_prefix(s, "sign "@)) by {
        assert(s.subrange(0, 5) =~= "sign "@);
    }
    assert(s.skip(5) =~= tail);
    lemma_operand_chars_round(word);
}

proof fn lemma_asm_round_01(word: u32)
    requires
        spec_opcode(word) == 0x01,
    ensures
        spec_parse_asm(spec_asm_chars(word)) == (if spec_addr_mode(word) == 3 {
            Some((0x01u8, 3u8, 0i16))
        } else {
            Some((0x01u8, spec_addr_mode(word), spec_arg(word) as i16))
        }),
{
    let s = spec_asm_chars(word);
    lemma_mode_bound(word);
    let tail = spec_operand_chars(word);
    reveal_strlit("# ");
    reveal_strlit("~ ");
    reveal_strlit("acc");
    reveal_strlit("sign ");
    reveal_strlit("and ");
    assert(s =~= "and "@ + tail);
    assert(s[0] == 'a');
    lemma_not_prefix(s, "sign "@, 0);
    assert(spec_has_prefix(s, "and "@)) by {
        assert(s.subrange(0, 4) =~= "and "@);
    }
    assert(s.skip(4) =~= tail);
    lemma_operand_chars_round(word);
}

proof fn lemma_asm_round_02(word: u32)
    requires
        spec_opcode(word) == 0x02,
    ensures
        spec_parse_asm(spec_asm_chars(word)) == (if spec_addr_mode(word) == 3 {
            Some((0x02u8, 3u8, 0i16))
        } else {
            Some((0x02u8, spec_addr_mode(word), spec_arg(word) as i16))
        }),
{
    let s = spec_asm_chars(word);
    lemma_mode_bound(word);
    let tail = spec_operand_chars(word);
    reveal_strlit("# ");
    reveal_strlit("~ ");
    reveal_strlit("acc");
    reveal_strlit("sign ");
    reveal_strlit("and ");
    reveal_strlit("or ");
    assert(s =~= "or "@ + tail);
    assert(s[0] == 'o');
    lemma_not_prefix(s, "sign "@, 0);
    lemma_not_prefix(s, "and "@, 0);
    assert(spec_has_prefix(s, "or "@)) by {
        assert(s.subrange(0, 3) =~= "or "@);
    }
    assert(s.skip(3) =~= tail);
    lemma_operand_chars_round(word);
}

proof fn lemma_asm_round_03(word: u32)
    requires
        spec_opcode(word) == 0x03,
    ensures
        spec_parse_asm(spec_asm_chars(word)) == (if spec_addr_mode(word) == 3 {
            Some((0x03u8, 3u8, 0i16))
        } else {
            Some((0x03u8, spec_addr_mode(word), spec_arg(word) as i16))
        }),
{
    let s = spec_asm_chars(word);
    lemma_mode_bound(word);
    let tail = spec_operand_chars(word);
    reveal_strlit("# ");
    reveal_strlit("~ ");
    reveal_strlit("acc");
    reveal_strlit("sign ");
    reveal_strlit("and ");
    reveal_strlit("or ");
    reveal_strlit("add ");
    assert(s =~= "add "@ + tail);
    assert(s[0] == 'a');
    assert(s[1] == 'd');
    lemma_not_prefix(s, "sign "@, 0);
    lemma_not_prefix(s, "and "@, 1);
    lemma_not_prefix(s, "or "@, 0);
    assert(spec_has_prefix(s, "add "@)) by {
        assert(s.subrange(0, 4) =~= "add "@);
    }
    assert(s.skip(4) =~= tail);
    lemma_operand_chars_round(word);
}

proof fn lemma_asm_round_04(word: u32)
    requires
        spec_opcode(word) == 0x04,
    ensures
        spec_parse_asm(spec_asm_chars(word)) == (if spec_addr_mode(word) == 3 {
            Some((0x04u8, 3u8, 0i16))
        } else {
            Some((0x04u8, spec_addr_mode(word), spec_arg(word) as i16))
        }),
{
    let s = spec_asm_chars(word);
    lemma_mode_bound(word);
    let tail = spec_operand_chars(word);
    reveal_strlit("# ");
    reveal_strlit("~ ");
    reveal_strlit("acc");
    reveal_strlit("sign ");
    reveal_strlit("and ");
    reveal_strlit("or ");
    reveal_strlit("add ");
    reveal_strlit("sub ");
    assert(s =~= "sub "@ + tail);
    assert(s[0] == 's');
    assert(s[1] == 'u');
    lemma_not_prefix(s, "sign "@, 1);
    lemma_not_prefix(s, "and "@, 0);
    lemma_not_prefix(s, "or "@, 0);
    lemma_not_prefix(s, "add "@, 0);
    assert(spec_has_prefix(s, "sub "@)) by {
        assert(s.subrange(0, 4) =~= "sub "@);
    }
    assert(s.skip(4) =~= tail);
    lemma_operand_chars_round(word);
}

proof fn lemma_asm_round_05(word: u32)
    requires
        spec_opcode(word) == 0x05,
    ensures
        spec_parse_asm(spec_asm_chars(word)) == (if spec_addr_mode(word) == 3 {
            Some((0x05u8, 3u8, 0i16))
        } else {
            Some((0x05u8, spec_addr_mode(word), spec_arg(word) as i16))
        }),
{
    let s = spec_asm_chars(word);
    lemma_mode_bound(word);
    let tail = spec_operand_chars(word);
    reveal_strlit("# ");
    reveal_strlit("~ ");
    reveal_strlit("acc");
    reveal_strlit("sign ");
    reveal_strlit("and ");
    reveal_strlit("or ");
    reveal_strlit("add ");
    reveal_strlit("sub ");
    reveal_strlit("mul ");
    assert(s =~= "mul "@ + tail);
    assert(s[0] == 'm');
    lemma_not_prefix(s, "sign "@, 0);
    lemma_not_prefix(s, "and "@, 0);
    lemma_not_prefix(s, "or "@, 0);
    lemma_not_prefix(s, "add "@, 0);
    lemma_not_prefix(s, "sub "@, 0);
    assert(spec_has_prefix(s, "mul "@)) by {
        assert(s.subrange(0, 4) =~= "mul "@);
    }
    assert(s.skip(4) =~= tail);
    lemma_operand_chars_round(word);
}

proof fn lemma_asm_round_06(word: u32)
    requires
        spec_opcode(word) == 0x06,
    ensures
        spec_parse_asm(spec_asm_chars(word)) == (if spec_addr_mode(word) == 3 {
            Some((0x06u8, 3u8, 0i16))
        } else {
            Some((0x06u8, spec_addr_mode(word), spec_arg(word) as i16))
        }),
{
    let s = spec_asm_chars(word);
    lemma_mode_bound(word);
    let tail = spec_operand_chars(word);
    reveal_strlit("# ");
    reveal_strlit("~ ");
    reveal_strlit("acc");
    reveal_strlit("sign ");
    reveal_strlit("and ");
    reveal_strlit("or ");
    reveal_strlit("add ");
    reveal_strlit("sub ");
    reveal_strlit("mul ");
    reveal_strlit("div ");
    assert(s =~= "div "@ + tail);
    assert(s[0] == 'd');
    lemma_not_prefix(s, "sign "@, 0);
    lemma_not_prefix(s, "and "@, 0);
    lemma_not_prefix(s, "or "@, 0);
    lemma_not_prefix(s, "add "@, 0);
    lemma_not_prefix(s, "sub "@, 0);
    lemma_not_prefix(s, "mul "@, 0);
    assert(spec_has_prefix(s, "div "@)) by {
        assert(s.subrange(0, 4) =~= "div "@);
    }
    assert(s.skip(4) =~= tail);
    lemma_operand_chars_round(word);
}

proof fn lemma_asm_round_07(word: u32)
    requires
        spec_opcode(word) == 0x07,
    ensures
        spec_parse_asm(spec_asm_chars(word)) == (if spec_addr_mode(word) == 3 {
            Some((0x07u8, 3u8, 0i16))
        } else {
            Some((0x07u8, spec_addr_mode(word), spec_arg(word) as i16))
        }),
{
    let s = spec_asm_chars(word);
    lemma_mode_bound(word);
    let tail = spec_operand_chars(word);
    reveal_strlit("# ");
    reveal_strlit("~ ");
    reveal_strlit("acc");
    reveal_strlit("sign ");
    reveal_strlit("and ");
    reveal_strlit("or ");
    reveal_strlit("add ");
    reveal_strlit("sub ");
    reveal_strlit("mul ");
    reveal_strlit("div ");
    reveal_strlit("rem ");
    assert(s =~= "rem "@ + tail);
    assert(s[0] == 'r');
    lemma_not_prefix(s, "sign "@, 0);
    lemma_not_prefix(s, "and "@, 0);
    lemma_not_prefix(s, "or "@, 0);
    lemma_not_prefix(s, "add "@, 0);
    lemma_not_prefix(s, "sub "@, 0);
    lemma_not_prefix(s, "mul "@, 0);
    lemma_not_prefix(s, "div "@, 0);
    assert(spec_has_prefix(s, "rem "@)) by {
        assert(s.subrange(0, 4) =~= "rem "@);
    }
    assert(s.skip(4) =~= tail);
    lemma_operand_chars_round(word);
}

proof fn lemma_asm_round_08(word: u32)
    requires
        spec_opcode(word) == 0x08,
    ensures
        spec_parse_asm(spec_asm_chars(word)) == Some((0x08u8, 0u8, spec_arg(word) as i16)),
{
    let s = spec_asm_chars(word);
    let tail = spec_i16_chars(spec_arg(word) as i16);
    reveal_strlit("sign ");
    reveal_strlit("and ");
    reveal_strlit("or ");
    reveal_strlit("add ");
    reveal_strlit("sub ");
    reveal_strlit("mul ");
    reveal_strlit("div ");
    reveal_strlit("rem ");
    reveal_strlit("jump ");
    assert(s =~= "jump "@ + tail);
    assert(s[0] == 'j');
    lemma_not_prefix(s, "sign "@, 0);
    lemma_not_prefix(s, "and "@, 0);
    lemma_not_prefix(s, "or "@, 0);
    lemma_not_prefix(s, "add "@, 0);
    lemma_not_prefix(s, "sub "@, 0);
    lemma_not_prefix(s, "mul "@, 0);
    lemma_not_prefix(s, "div "@, 0);
    lemma_not_prefix(s, "rem "@, 0);
    assert(spec_has_prefix(s, "jump "@)) by {
        assert(s.subrange(0, 5) =~= "jump "@);
    }
    assert(s.skip(5) =~= tail);
    crate::util::lemma_i16_chars_round(spec_arg(word) as i16);
}

proof fn lemma_asm_round_09(word: u32)
    requires
        spec_opcode(word) == 0x09,
    ensures
        spec_parse_asm(spec_asm_chars(word)) == Some((0x09u8, 0u8, spec_arg(word) as i16)),
{
    let s = spec_asm_chars(word);
    let tail = spec_i16_chars(spec_arg(word) as i16);
    reveal_strlit("sign ");
    reveal_strlit("and ");
    reveal_strlit("or ");
    reveal_strlit("add ");
    reveal_strlit("sub ");
    reveal_strlit("mul ");
    reveal_strlit("div ");
    reveal_strlit("rem ");
    reveal_strlit("jump ");
    reveal_strlit("jifz ");
    assert(s =~= "jifz "@ + tail);
    assert(s[0] == 'j');
    assert(s[1] == 'i');
    lemma_not_prefix(s, "sign "@, 0);
    lemma_not_prefix(s, "and "@, 0);
    lemma_not_prefix(s, "or "@, 0);
    lemma_not_prefix(s, "add "@, 0);
    lemma_not_prefix(s, "sub "@, 0);
    lemma_not_prefix(s, "mul "@, 0);
    lemma_not_prefix(s, "div "@, 0);
    lemma_not_prefix(s, "rem "@, 0);
    lemma_not_prefix(s, "jump "@, 1);
    assert(spec_has_prefix(s, "jifz "@)) by {
        assert(s.subrange(0, 5) =~= "jifz "@);
    }
    assert(s.skip(5) =~= tail);
    crate::util::lemma_i16_chars_round(spec_arg(word) as i16);
}

proof fn lemma_asm_round_0a(word: u32)
    requires
        spec_opcode(word) == 0x0A,
    ensures
        spec_parse_asm(spec_asm_chars(word)) == Some((0x0Au8, 0u8, spec_arg(word) as i16)),
{
    let s = spec_asm_chars(word);
    let tail = spec_i16_chars(spec_arg(word) as i16);
    reveal_strlit("sign ");
    reveal_strlit("and ");
    reveal_strlit("or ");
    reveal_strlit("add ");
    reveal_strlit("sub ");
    reveal_strlit("mul ");
    reveal_strlit("div ");
    reveal_strlit("rem ");
    reveal_strlit("jump ");
    reveal_strlit("jifz ");
    reveal_strlit("call ");
    assert(s =~= "call "@ + tail);
    assert(s[0] == 'c');
    lemma_not_prefix(s, "sign "@, 0);
    lemma_not_prefix(s, "and "@, 0);
    lemma_not_prefix(s, "or "@, 0);
    lemma_not_prefix(s, "add "@, 0);
    lemma_not_prefix(s, "sub "@, 0);
    lemma_not_prefix(s, "mul "@, 0);
    lemma_not_prefix(s, "div "@, 0);
    lemma_not_prefix(s, "rem "@, 0);
    lemma_not_prefix(s, "jump "@, 0);
    lemma_not_prefix(s, "jifz "@, 0);
    assert(spec_has_prefix(s, "call "@)) by {
        assert(s.subrange(0, 5) =~= "call "@);
    }
    assert(s.skip(5) =~= tail);
    crate::util::lemma_i16_chars_round(spec_arg(word) as i16);
}

proof fn lemma_asm_round_0b(word: u32)
    requires
        spec_opcode(word) == 0x0B,
    ensures
        spec_parse_asm(spec_asm_chars(word)) == Some((0x0Bu8, 0u8, 0i16)),
{
    let s = spec_asm_chars(word);
    reveal_strlit("sign ");
    reveal_strlit("and ");
    reveal_strlit("or ");
    reveal_strlit("add ");
    reveal_strlit("sub ");
    reveal_strlit("mul ");
    reveal_strlit("div ");
    reveal_strlit("rem ");
    reveal_strlit("jump ");
    reveal_strlit("jifz ");
    reveal_strlit("call ");
    reveal_strlit("ret");
    assert(s =~= "ret"@);
    assert(s[0] == 'r');
    assert(s[2] == 't');
    lemma_not_prefix(s, "sign "@, 0);
    lemma_not_prefix(s, "and "@, 0);
    lemma_not_prefix(s, "or "@, 0);
    lemma_not_prefix(s, "add "@, 0);
    lemma_not_prefix(s, "sub "@, 0);
    lemma_not_prefix(s, "mul "@, 0);
    lemma_not_prefix(s, "div "@, 0);
    lemma_not_prefix(s, "rem "@, 2);
    lemma_not_prefix(s, "jump "@, 0);
    lemma_not_prefix(s, "jifz "@, 0);
    lemma_not_prefix(s, "call "@, 0);
}

proof fn lemma_asm_round_0c(word: u32)
    requires
        spec_opcode(word) == 0x0C,
    ensures
        spec_parse_asm(spec_asm_chars(word)) == (if spec_addr_mode(word) == 3 {
            Some((0x0Cu8, 3u8, 0i16))
        } else {
            Some((0x0Cu8, spec_addr_mode(word), spec_arg(word) as i16))
        }),
{
    let s = spec_asm_chars(word);
    lemma_mode_bound(word);
    let tail = spec_operand_chars(word);
    reveal_strlit("# ");
    reveal_strlit("~ ");
    reveal_strlit("acc");
    reveal_strlit("sign ");
    reveal_strlit("and ");
    reveal_strlit("or ");
    reveal_strlit("add ");
    reveal_strlit("sub ");
    reveal_strlit("mul ");
    reveal_strlit("div ");
    reveal_strlit("rem ");
    reveal_strlit("jump ");
    reveal_strlit("jifz ");
    reveal_strlit("call ");
    reveal_strlit("ret");
    reveal_strlit("spadd ");
    assert(s =~= "spadd "@ + tail);
    assert(s[0] == 's');
    assert(s[1] == 'p');
    lemma_not_prefix(s, "sign "@, 1);
    lemma_not_prefix(s, "and "@, 0);
    lemma_not_prefix(s, "or "@, 0);
    lemma_not_prefix(s, "add "@, 0);
    lemma_not_prefix(s, "sub "@, 1);
    lemma_not_prefix(s, "mul "@, 0);
    lemma_not_prefix(s, "div "@, 0);
    lemma_not_prefix(s, "rem "@, 0);
    lemma_not_prefix(s, "jump "@, 0);
    lemma_not_prefix(s, "jifz "@, 0);
    lemma_not_prefix(s, "call "@, 0);
    assert(s != "ret"@);
    assert(spec_has_prefix(s, "spadd "@)) by {
        assert(s.subrange(0, 6) =~= "spadd "@);
    }
    assert(s.skip(6) =~= tail);
    lemma_operand_chars_round(word);
}

proof fn lemma_asm_round_0d(word: u32)
    requires
        spec_opcode(word) == 0x0D,
    ensures
        spec_parse_asm(spec_asm_chars(word)) == (if spec_addr_mode(word) == 3 {
            Some((0x0Du8, 3u8, 0i16))
        } else {
            Some((0x0Du8, spec_addr_mode(word), spec_arg(word) as i16))
        }),
{
    let s = spec_asm_chars(word);
    lemma_mode_bound(word);
    let tail = spec_operand_chars(word);
    reveal_strlit("# ");
    reveal_strlit("~ ");
    reveal_strlit("acc");
    reveal_strlit("sign ");
    reveal_strlit("and ");
    reveal_strlit("or ");
    reveal_strlit("add ");
    reveal_strlit("sub ");
    reveal_strlit("mul ");
    reveal_strlit("div ");
    reveal_strlit("rem ");
    reveal_strlit("jump ");
    reveal_strlit("jifz ");
    reveal_strlit("call ");
    reveal_strlit("ret");
    reveal_strlit("spadd ");
    reveal_strlit("load ");
    assert(s =~= "load "@ + tail);
    assert(s[0] == 'l');
    lemma_not_prefix(s, "sign "@, 0);
    lemma_not_prefix(s, "and "@, 0);
    lemma_not_prefix(s, "or "@, 0);
    lemma_not_prefix(s, "add "@, 0);
    lemma_not_prefix(s, "sub "@, 0);
    lemma_not_prefix(s, "mul "@, 0);
    lemma_not_prefix(s, "div "@, 0);
    lemma_not_prefix(s, "rem "@, 0);
    lemma_not_prefix(s, "jump "@, 0);
    lemma_not_prefix(s, "jifz "@, 0);
    lemma_not_prefix(s, "call "@, 0);
    assert(s != "ret"@);
    lemma_not_prefix(s, "spadd "@, 0);
    assert(spec_has_prefix(s, "load "@)) by {
        assert(s.subrange(0, 5) =~= "load "@);
    }
    assert(s.skip(5) =~= tail);
    lemma_operand_chars_round(word);
}

proof fn lemma_asm_round_0e(word: u32)
    requires
        spec_opcode(word) == 0x0E,
    ensures
        spec_parse_asm(spec_asm_chars(word)) == (if spec_addr_mode(word) == 3 {
            Some((0x0Eu8, 3u8, 0i16))
        } else {
            Some((0x0Eu8, spec_addr_mode(word), spec_arg(word) as i16))
        }),
{
    let s = spec_asm_chars(word);
    lemma_mode_bound(word);
    let tail = spec_operand_chars(word);
    reveal_strlit("# ");
    reveal_strlit("~ ");
    reveal_strlit("acc");
    reveal_strlit("sign ");
    reveal_strlit("and ");
    reveal_strlit("or ");
    reveal_strlit("add ");
    reveal_strlit("sub ");
    reveal_strlit("mul ");
    reveal_strlit("div ");
    reveal_strlit("rem ");
    reveal_strlit("jump ");
    reveal_strlit("jifz ");
    reveal_strlit("call ");
    reveal_strlit("ret");
    reveal_strlit("spadd ");
    reveal_strlit("load ");
    reveal_strlit("save ");
    assert(s =~= "save "@ + tail);
    assert(s[0] == 's');
    assert(s[1] == 'a');
    lemma_not_prefix(s, "sign "@, 1);
    lemma_not_prefix(s, "and "@, 0);
    lemma_not_prefix(s, "or "@, 0);
    lemma_not_prefix(s, "add "@, 0);
    lemma_not_prefix(s, "sub "@, 1);
    lemma_not_prefix(s, "mul "@, 0);
    lemma_not_prefix(s, "div "@, 0);
    lemma_not_prefix(s, "rem "@, 0);
    lemma_not_prefix(s, "jump "@, 0);
    lemma_not_prefix(s, "jifz "@, 0);
    lemma_not_prefix(s, "call "@, 0);
    assert(s != "ret"@);
    lemma_not_prefix(s, "spadd "@, 1);
    lemma_not_prefix(s, "load "@, 0);
    assert(spec_has_prefix(s, "save "@)) by {
        assert(s.subrange(0, 5) =~= "save "@);
    }
    assert(s.skip(5) =~= tail);
    lemma_operand_chars_round(word);
}

proof fn lemma_asm_round_0f(word: u32)
    requires
        spec_opcode(word) == 0x0F,
    ensures
        spec_parse_asm(spec_asm_chars(word)) == (if spec_addr_mode(word) == 3 {
            Some((0x0Fu8, 3u8, 0i16))
        } else {
            Some((0x0Fu8, spec_addr_mode(word), spec_arg(word) as i16))
        }),
{
    let s = spec_asm_chars(word);
    lemma_mode_bound(word);
    let tail = spec_operand_chars(word);
    reveal_strlit("# ");
    reveal_strlit("~ ");
    reveal_strlit("acc");
    reveal_strlit("sign ");
    reveal_strlit("and ");
    reveal_strlit("or ");
    reveal_strlit("add ");
    reveal_strlit("sub ");
    reveal_strlit("mul ");
    reveal_strlit("div ");
    reveal_strlit("rem ");
    reveal_strlit("jump ");
    reveal_strlit("jifz ");
    reveal_strlit("call ");
    reveal_strlit("ret");
    reveal_strlit("spadd ");
    reveal_strlit("load ");
    reveal_strlit("save ");
    reveal_strlit("ldrel ");
    assert(s =~= "ldrel "@ + tail);
    assert(s[0] == 'l');
    assert(s[1] == 'd');
    lemma_not_prefix(s, "sign "@, 0);
    lemma_not_prefix(s, "and "@, 0);
    lemma_not_prefix(s, "or "@, 0);
    lemma_not_prefix(s, "add "@, 0);
    lemma_not_prefix(s, "sub "@, 0);
    lemma_not_prefix(s, "mul "@, 0);
    lemma_not_prefix(s, "div "@, 0);
    lemma_not_prefix(s, "rem "@, 0);
    lemma_not_prefix(s, "jump "@, 0);
    lemma_not_prefix(s, "jifz "@, 0);
    lemma_not_prefix(s, "call "@, 0);
    assert(s != "ret"@);
    lemma_not_prefix(s, "spadd "@, 0);
    lemma_not_prefix(s, "load "@, 1);
    lemma_not_prefix(s, "save "@, 0);
    assert(spec_has_prefix(s, "ldrel "@)) by {
        assert(s.subrange(0, 6) =~= "ldrel "@);
    }
    assert(s.skip(6) =~= tail);
    lemma_operand_chars_round(word);
}

proof fn lemma_asm_round_10(word: u32)
    requires
        spec_opcode(word) == 0x10,
    ensures
        spec_parse_asm(spec_asm_chars(word)) == (if spec_addr_mode(word) == 3 {
            Some((0x10u8, 3u8, 0i16))
        } else {
            Some((0x10u8, spec_addr_mode(word), spec_arg(word) as i16))
        }),
{
    let s = spec_asm_chars(word);
    lemma_mode_bound(word);
    let tail = spec_operand_chars(word);
    reveal_strlit("# ");
    reveal_strlit("~ ");
    reveal_strlit("acc");
    reveal_strlit("sign ");
    reveal_strlit("and ");
    reveal_strlit("or ");
    reveal_strlit("add ");
    reveal_strlit("sub ");
    reveal_strlit("mul ");
    reveal_strlit("div ");
    reveal_strlit("rem ");
    reveal_strlit("jump ");
    reveal_strlit("jifz ");
    reveal_strlit("call ");
    reveal_strlit("ret");
    reveal_strlit("spadd ");
    reveal_strlit("load ");
    reveal_strlit("save ");
    reveal_strlit("ldrel ");
    reveal_strlit("svrel ");
    assert(s =~= "svrel "@ + tail);
    assert(s[0] == 's');
    assert(s[1] == 'v');
    lemma_not_prefix(s, "sign "@, 1);
    lemma_not_prefix(s, "and "@, 0);
    lemma_not_prefix(s, "or "@, 0);
    lemma_not_prefix(s, "add "@, 0);
    lemma_not_prefix(s, "sub "@, 1);
    lemma_not_prefix(s, "mul "@, 0);
    lemma_not_prefix(s, "div "@, 0);
    lemma_not_prefix(s, "rem "@, 0);
    lemma_not_prefix(s, "jump "@, 0);
    lemma_not_prefix(s, "jifz "@, 0);
    lemma_not_prefix(s, "call "@, 0);
    assert(s != "ret"@);
    lemma_not_prefix(s, "spadd "@, 1);
    lemma_not_prefix(s, "load "@, 0);
    lemma_not_prefix(s, "save "@, 1);
    lemma_not_prefix(s, "ldrel "@, 0);
    assert(spec_has_prefix(s, "svrel "@)) by {
        assert(s.subrange(0, 6) =~= "svrel "@);
    }
    assert(s.skip(6) =~= tail);
    lemma_operand_chars_round(word);
}

proof fn lemma_asm_round_11(word: u32)
    requires
        spec_opcode(word) == 0x11,
    ensures
        spec_parse_asm(spec_asm_chars(word)) == Some((0x11u8, 0u8, 0i16)),
{
    let s = spec_asm_chars(word);
    reveal_strlit("sign ");
    reveal_strlit("and ");
    reveal_strlit("or ");
    reveal_strlit("add ");
    reveal_strlit("sub ");
    reveal_strlit("mul ");
    reveal_strlit("div ");
    reveal_strlit("rem ");
    reveal_strlit("jump ");
    reveal_strlit("jifz ");
    reveal_strlit("call ");
    reveal_strlit("ret");
    reveal_strlit("spadd ");
    reveal_strlit("load ");
    reveal_strlit("save ");
    reveal_strlit("ldrel ");
    reveal_strlit("svrel ");
    reveal_strlit("halt");
    assert(s =~= "halt"@);
    assert(s[0] == 'h');
    lemma_not_prefix(s, "sign "@, 0);
    lemma_not_prefix(s, "and "@, 0);
    lemma_not_prefix(s, "or "@, 0);
    lemma_not_prefix(s, "add "@, 0);
    lemma_not_prefix(s, "sub "@, 0);
    lemma_not_prefix(s, "mul "@, 0);
    lemma_not_prefix(s, "div "@, 0);
    lemma_not_prefix(s, "rem "@, 0);
    lemma_not_prefix(s, "jump "@, 0);
    lemma_not_prefix(s, "jifz "@, 0);
    lemma_not_prefix(s, "call "@, 0);
    assert(s != "ret"@);
    lemma_not_prefix(s, "spadd "@, 0);
    lemma_not_prefix(s, "load "@, 0);
    lemma_not_prefix(s, "save "@, 0);
    lemma_not_prefix(s, "ldrel "@, 0);
    lemma_not_prefix(s, "svrel "@, 0);
}

/// The fields a rendered instruction line reads back to: everything the
/// line shows. The ALU opcodes and the memory opcodes keep opcode, mode
/// and argument; the jumps and `call` keep opcode and argument and read
/// back as direct mode; `ret` and `halt` keep the opcode alone.
pub open spec fn spec_asm_fields(word: u32) -> Option<(u8, u8, i16)> {
    let op = spec_opcode(word);
    if op == 0x0B || op == 0x11 {
        Some((op, 0u8, 0i16))
    } else if op == 0x08 || op == 0x09 || op == 0x0A {
        Some((op, 0u8, spec_arg(word) as i16))
    } else if op <= 0x11 {
        if spec_addr_mode(word) == 3 {
            Some((op, 3u8, 0i16))
        } else {
            Some((op, spec_addr_mode(word), spec_arg(word) as i16))
        }
    } else {
        None
    }
}

/// Round trip: the rendering of any instruction word with a known opcode
/// re-parses to exactly the fields the rendering shows.
pub proof fn lemma_asm_chars_round(word: u32)
    requires
        spec_opcode(word) <= 0x11,
    ensures
        spec_parse_asm(spec_asm_chars(word)) == spec_asm_fields(word),
{
    if spec_opcode(word) == 0x00 {
        lemma_asm_round_00(word);
    } else if spec_opcode(word) == 0x01 {
        lemma_asm_round_01(word);
    } else if spec_opcode(word) == 0x02 {
        lemma_asm_round_02(word);
    } else if spec_opcode(word) == 0x03 {
        lemma_asm_round_03(word);
    } else if spec_opcode(word) == 0x04 {
        lemma_asm_round_04(word);
    } else if spec_opcode(word) == 0x05 {
        lemma_asm_round_05(word);
    } else if spec_opcode(word) == 0x06 {
        lemma_asm_round_06(word);
    } else if spec_opcode(word) == 0x07 {
        lemma_asm_round_07(word);
    } else if spec_opcode(word) == 0x08 {
        lemma_asm_round_08(word);
    } else if spec_opcode(word) == 0x09 {
        lemma_asm_round_09(word);
    } else if spec_opcode(word) == 0x0A {
        lemma_asm_round_0a(word);
    } else if spec_opcode(word) == 0x0B {
        lemma_asm_round_0b(word);
    } else if spec_opcode(word) == 0x0C {
        lemma_asm_round_0c(word);
    } else if spec_opcode(word) == 0x0D {
        lemma_asm_round_0d(word);
    } else if spec_opcode(word) == 0x0E {
        lemma_asm_round_0e(word);
    } else if spec_opcode(word) == 0x0F {
        lemma_asm_round_0f(word);
    } else if spec_opcode(word) == 0x10 {
        lemma_asm_round_10(word);
    } else if spec_opcode(word) == 0x11 {
        lemma_asm_round_11(word);
    }
}

/// Round trip from the three fields: encode, render, re-parse. The ALU
/// and memory opcodes reproduce all three fields; the jumps and `call`
/// reproduce opcode and argument; `ret` and `halt` the opcode alone.
pub proof fn lemma_disasm_round_trip(op: u8, mode: u8, arg: u16)
    requires
        op <= 0x11,
        mode < 4,
    ensures
        ({
            let parsed = spec_parse_asm(spec_asm_chars(spec_encode(op, mode, arg)));
            &&& (op < 0x08 || (0x0C <= op && op <= 0x10)) && mode <= 2 ==> parsed == Some(
                (op, mode, arg as i16),
            )
            &&& (op < 0x08 || (0x0C <= op && op <= 0x10)) && mode == 3 ==> parsed == Some(
                (op, 3u8, 0i16),
            )
            &&& (0x08 <= op && op <= 0x0A) ==> parsed == Some((op, 0u8, arg as i16))
            &&& (op == 0x0B || op == 0x11) ==> parsed == Some((op, 0u8, 0i16))
        }),
{
    let word = spec_encode(op, mode, arg);
    lemma_encode_fields(op, mode, arg);
    lemma_asm_chars_round(word);
    assert(arg as i16 as u16 == arg) by (bit_vector);
}

} // verus!
