use vstd::prelude::*;
use crate::base::access_flags::AccessFlags;
use crate::base::text::{decimal, push_decimal, text};
use crate::smali::chars::{
    chars_of, ends_with_char, equals, find, find_char, find_char_from, find_from, find_text,
    find_text_from, has_prefix, lemma_find_from_bounds, lemma_skip_char_bounds, skip_char,
    join_space, join_with_spaces, lines_of, parse_int, parse_int_chars, slice_chars, split_chars,
    split_from, starts_with, starts_with_char, string_of, strip_prefix, strip_prefix_chars,
    text_lines, tokens, tokens_of, trim, trim_char, trim_char_chars, trim_chars,
};

verus! {

// ---------------------------------------------------------------------------------------------
// What a smali file holds
// ---------------------------------------------------------------------------------------------

/// A class as written in smali.
#[derive(Debug, Clone)]
pub struct SmaliClass {
    pub access_flags: AccessFlags,
    pub type_descriptor: String,
    pub superclass: Option<String>,
    pub interfaces: Vec<String>,
    pub source_file: Option<String>,
    pub methods: Vec<SmaliMethod>,
    pub fields: Vec<SmaliField>,
}

/// A method as written in smali.
#[derive(Debug, Clone)]
pub struct SmaliMethod {
    pub access_flags: AccessFlags,
    pub name: String,
    pub return_type: String,
    pub parameter_types: Vec<String>,
    pub register_count: u16,
    pub instructions: Vec<SmaliInstruction>,
}

/// A field as written in smali.
#[derive(Debug, Clone)]
pub struct SmaliField {
    pub access_flags: AccessFlags,
    pub name: String,
    pub field_type: String,
    pub initial_value: Option<String>,
}

/// The instructions that the smali parser knows.
#[derive(Debug, Clone)]
pub enum SmaliInstruction {
    Nop,
    ReturnVoid,
    ConstString { register: u8, value: String },
    Const { register: u8, value: i32 },
    ConstWide { register: u8, value: i64 },
    InvokeStatic { method_ref: String, registers: Vec<u8> },
    InvokeVirtual { method_ref: String, registers: Vec<u8> },
    InvokeDirect { method_ref: String, registers: Vec<u8> },
    InvokeSuper { method_ref: String, registers: Vec<u8> },
    InvokeInterface { method_ref: String, registers: Vec<u8> },
    MoveResult { register: u8 },
    MoveResultObject { register: u8 },
    MoveResultWide { register: u8 },
    Move { dest: u8, src: u8 },
    MoveWide { dest: u8, src: u8 },
    MoveObject { dest: u8, src: u8 },
    Goto { offset: i16 },
    IfEqz { register: u8, offset: i16 },
    IfNez { register: u8, offset: i16 },
    NewInstance { register: u8, type_ref: String },
    CheckCast { register: u8, type_ref: String },
    IGet { dest: u8, obj: u8, field_ref: String },
    IPut { src: u8, obj: u8, field_ref: String },
    SGet { dest: u8, field_ref: String },
    SPut { src: u8, field_ref: String },
    Return { register: u8 },
    ReturnObject { register: u8 },
    Throw { register: u8 },
    Label { name: String },
}

/// Why a smali text could not be read, and on which line (0 for a method signature).
#[derive(Debug, Clone)]
pub struct SmaliParseError {
    pub line: usize,
    pub message: String,
}

impl SmaliParseError {
    /// The error as text: `Smali parse error at line <line>: <message>`.
    pub fn to_string(&self) -> (res: String)
        ensures
            res@ == "Smali parse error at line "@ + decimal(self.line as nat) + ": "@ + self.message@,
    {
        let mut s = text("Smali parse error at line ");
        push_decimal(&mut s, self.line as u64);
        s.append(": ");
        s.append(self.message.as_str());
        s
    }
}

/// An instruction with its texts as char sequences.
pub enum InstructionModel {
    Nop,
    ReturnVoid,
    ConstString { register: u8, value: Seq<char> },
    Const { register: u8, value: i32 },
    ConstWide { register: u8, value: i64 },
    InvokeStatic { method_ref: Seq<char>, registers: Seq<u8> },
    InvokeVirtual { method_ref: Seq<char>, registers: Seq<u8> },
    InvokeDirect { method_ref: Seq<char>, registers: Seq<u8> },
    InvokeSuper { method_ref: Seq<char>, registers: Seq<u8> },
    InvokeInterface { method_ref: Seq<char>, registers: Seq<u8> },
    MoveResult { register: u8 },
    MoveResultObject { register: u8 },
    MoveResultWide { register: u8 },
    Move { dest: u8, src: u8 },
    MoveWide { dest: u8, src: u8 },
    MoveObject { dest: u8, src: u8 },
    Goto { offset: i16 },
    IfEqz { register: u8, offset: i16 },
    IfNez { register: u8, offset: i16 },
    NewInstance { register: u8, type_ref: Seq<char> },
    CheckCast { register: u8, type_ref: Seq<char> },
    IGet { dest: u8, obj: u8, field_ref: Seq<char> },
    IPut { src: u8, obj: u8, field_ref: Seq<char> },
    SGet { dest: u8, field_ref: Seq<char> },
    SPut { src: u8, field_ref: Seq<char> },
    Return { register: u8 },
    ReturnObject { register: u8 },
    Throw { register: u8 },
    Label { name: Seq<char> },
}

impl View for SmaliInstruction {
    type V = InstructionModel;

    open spec fn view(&self) -> InstructionModel {
        match self {
            SmaliInstruction::Nop => InstructionModel::Nop,
            SmaliInstruction::ReturnVoid => InstructionModel::ReturnVoid,
            SmaliInstruction::ConstString { register, value } => InstructionModel::ConstString {
                register: *register,
                value: value@,
            },
            SmaliInstruction::Const { register, value } => InstructionModel::Const {
                register: *register,
                value: *value,
            },
            SmaliInstruction::ConstWide { register, value } => InstructionModel::ConstWide {
                register: *register,
                value: *value,
            },
            SmaliInstruction::InvokeStatic { method_ref, registers } => InstructionModel::InvokeStatic {
                method_ref: method_ref@,
                registers: registers@,
            },
            SmaliInstruction::InvokeVirtual { method_ref, registers } => InstructionModel::InvokeVirtual {
                method_ref: method_ref@,
                registers: registers@,
            },
            SmaliInstruction::InvokeDirect { method_ref, registers } => InstructionModel::InvokeDirect {
                method_ref: method_ref@,
                registers: registers@,
            },
            SmaliInstruction::InvokeSuper { method_ref, registers } => InstructionModel::InvokeSuper {
                method_ref: method_ref@,
                registers: registers@,
            },
            SmaliInstruction::InvokeInterface { method_ref, registers } => InstructionModel::InvokeInterface {
                method_ref: method_ref@,
                registers: registers@,
            },
            SmaliInstruction::MoveResult { register } => InstructionModel::MoveResult { register: *register },
            SmaliInstruction::MoveResultObject { register } => InstructionModel::MoveResultObject {
                register: *register,
            },
            SmaliInstruction::MoveResultWide { register } => InstructionModel::MoveResultWide {
                register: *register,
            },
            SmaliInstruction::Move { dest, src } => InstructionModel::Move { dest: *dest, src: *src },
            SmaliInstruction::MoveWide { dest, src } => InstructionModel::MoveWide { dest: *dest, src: *src },
            SmaliInstruction::MoveObject { dest, src } => InstructionModel::MoveObject { dest: *dest, src: *src },
            SmaliInstruction::Goto { offset } => InstructionModel::Goto { offset: *offset },
            SmaliInstruction::IfEqz { register, offset } => InstructionModel::IfEqz {
                register: *register,
                offset: *offset,
            },
            SmaliInstruction::IfNez { register, offset } => InstructionModel::IfNez {
                register: *register,
                offset: *offset,
            },
            SmaliInstruction::NewInstance { register, type_ref } => InstructionModel::NewInstance {
                register: *register,
                type_ref: type_ref@,
            },
            SmaliInstruction::CheckCast { register, type_ref } => InstructionModel::CheckCast {
                register: *register,
                type_ref: type_ref@,
            },
            SmaliInstruction::IGet { dest, obj, field_ref } => InstructionModel::IGet {
                dest: *dest,
                obj: *obj,
                field_ref: field_ref@,
            },
            SmaliInstruction::IPut { src, obj, field_ref } => InstructionModel::IPut {
                src: *src,
                obj: *obj,
                field_ref: field_ref@,
            },
            SmaliInstruction::SGet { dest, field_ref } => InstructionModel::SGet {
                dest: *dest,
                field_ref: field_ref@,
            },
            SmaliInstruction::SPut { src, field_ref } => InstructionModel::SPut {
                src: *src,
                field_ref: field_ref@,
            },
            SmaliInstruction::Return { register } => InstructionModel::Return { register: *register },
            SmaliInstruction::ReturnObject { register } => InstructionModel::ReturnObject { register: *register },
            SmaliInstruction::Throw { register } => InstructionModel::Throw { register: *register },
            SmaliInstruction::Label { name } => InstructionModel::Label { name: name@ },
        }
    }
}

/// What reading a piece of smali gives: a value, an error on a line, or a panic of the reader
/// (where it slices a text at a position before its start).
pub enum Outcome<T> {
    Parsed(T),
    Failed(usize, Seq<char>),
    Panics,
}

/// Whether `res` is what `o` says, the value taken by `view`.
pub open spec fn outcome_is<T, M>(res: Result<T, SmaliParseError>, o: Outcome<M>, view: spec_fn(T) -> M) -> bool {
    match o {
        Outcome::Parsed(m) => res matches Ok(v) && view(v) == m,
        Outcome::Failed(line, message) => res matches Err(e) && e.line == line && e.message@ == message,
        Outcome::Panics => true,
    }
}

/// The error for `line` with `message`.
fn parse_error(line: usize, message: &str) -> (res: SmaliParseError)
    ensures
        res.line == line,
        res.message@ == message@,
{
    SmaliParseError { line, message: text(message) }
}

/// The error for `line` whose message is `prefix` then `detail`.
fn parse_error_with(line: usize, prefix: &str, detail: &[char]) -> (res: SmaliParseError)
    ensures
        res.line == line,
        res.message@ == prefix@ + detail@,
{
    let mut message = text(prefix);
    let tail = string_of(detail);
    message.append(tail.as_str());
    SmaliParseError { line, message }
}

// ---------------------------------------------------------------------------------------------
// Operands
// ---------------------------------------------------------------------------------------------

/// `s` split at its first `c`: one piece where there is none.
pub open spec fn split2(s: Seq<char>, c: char) -> Seq<Seq<char>> {
    match find(s, c) {
        None => seq![s],
        Some(k) => seq![s.take(k), s.skip(k + 1)],
    }
}

/// `s` split at its first two `c`: fewer pieces where there are fewer.
pub open spec fn split3(s: Seq<char>, c: char) -> Seq<Seq<char>> {
    match find(s, c) {
        None => seq![s],
        Some(k) => {
            let rest = s.skip(k + 1);
            match find(rest, c) {
                None => seq![s.take(k), rest],
                Some(j) => seq![s.take(k), rest.take(j), rest.skip(j + 1)],
            }
        },
    }
}

fn split2_chars(s: &[char], c: char) -> (res: Vec<Vec<char>>)
    ensures
        res@.map_values(|t: Vec<char>| t@) == split2(s@, c),
{
    let mut res: Vec<Vec<char>> = Vec::new();
    match find_char(s, c) {
        None => {
            res.push(slice_chars(s, 0, s.len()));
            assert(s@.subrange(0, s@.len() as int) =~= s@);
        },
        Some(k) => {
            res.push(slice_chars(s, 0, k));
            res.push(slice_chars(s, k + 1, s.len()));
            assert(s@.subrange(0, k as int) =~= s@.take(k as int));
            assert(s@.subrange(k + 1, s@.len() as int) =~= s@.skip(k + 1));
        },
    }
    assert(res@.map_values(|t: Vec<char>| t@) =~= split2(s@, c));
    res
}

fn split3_chars(s: &[char], c: char) -> (res: Vec<Vec<char>>)
    ensures
        res@.map_values(|t: Vec<char>| t@) == split3(s@, c),
{
    let mut res: Vec<Vec<char>> = Vec::new();
    match find_char(s, c) {
        None => {
            res.push(slice_chars(s, 0, s.len()));
            assert(s@.subrange(0, s@.len() as int) =~= s@);
        },
        Some(k) => {
            res.push(slice_chars(s, 0, k));
            assert(s@.subrange(0, k as int) =~= s@.take(k as int));
            let rest = slice_chars(s, k + 1, s.len());
            assert(rest@ =~= s@.skip(k + 1));
            match find_char(rest.as_slice(), c) {
                None => {
                    res.push(rest);
                },
                Some(j) => {
                    res.push(slice_chars(rest.as_slice(), 0, j));
                    res.push(slice_chars(rest.as_slice(), j + 1, rest.len()));
                    assert(rest@.subrange(0, j as int) =~= rest@.take(j as int));
                    assert(rest@.subrange(j + 1, rest@.len() as int) =~= rest@.skip(j + 1));
                },
            }
        },
    }
    assert(res@.map_values(|t: Vec<char>| t@) =~= split3(s@, c));
    res
}

/// A register: `v` or `p` and a number, or a bare number, below 256.
pub open spec fn spec_vreg(text: Seq<char>, line: usize) -> Outcome<u8> {
    let t = trim(text);
    let num = if starts_with_char(t, 'v') || starts_with_char(t, 'p') {
        t.drop_first()
    } else {
        t
    };
    match parse_int(num, false, 0, 255) {
        Some(v) => Outcome::Parsed(v as u8),
        None => Outcome::Failed(line, "Invalid register: "@ + t),
    }
}

fn parse_vreg(text: &[char], line_num: usize) -> (res: Result<u8, SmaliParseError>)
    ensures
        outcome_is(res, spec_vreg(text@, line_num), |v: u8| v),
{
    let trimmed = trim_chars(text);
    let num = if trimmed.len() > 0 && (trimmed[0] == 'v' || trimmed[0] == 'p') {
        slice_chars(trimmed.as_slice(), 1, trimmed.len())
    } else {
        slice_chars(trimmed.as_slice(), 0, trimmed.len())
    };
    assert(trimmed@.subrange(0, trimmed@.len() as int) =~= trimmed@);
    assert(trimmed@.len() > 0 ==> trimmed@.subrange(1, trimmed@.len() as int) =~= trimmed@.drop_first());
    match parse_int_chars(num.as_slice(), false, 0, 255) {
        Some(v) => Ok(v as u8),
        None => Err(parse_error_with(line_num, "Invalid register: ", trimmed.as_slice())),
    }
}

/// `f` applied to the value of `o`; an error or a panic stays as it is.
pub open spec fn and_then<A, B>(o: Outcome<A>, f: spec_fn(A) -> Outcome<B>) -> Outcome<B> {
    match o {
        Outcome::Parsed(a) => f(a),
        Outcome::Failed(l, m) => Outcome::Failed(l, m),
        Outcome::Panics => Outcome::Panics,
    }
}

/// The operands of `const-string`: a register, a comma, then the value, without its quotes
/// where it starts and ends with one (a lone quote panics).
pub open spec fn spec_const_string_operands(text: Seq<char>, line: usize) -> Outcome<(u8, Seq<char>)> {
    match find(text, ',') {
        None => Outcome::Failed(line, "const-string: expected comma after register"@),
        Some(k) => and_then(
            spec_vreg(trim(text.take(k)), line),
            |r: u8|
                {
                    let v = trim(text.skip(k + 1));
                    if starts_with_char(v, '"') && ends_with_char(v, '"') {
                        if v.len() < 2 {
                            Outcome::Panics
                        } else {
                            Outcome::Parsed((r, v.subrange(1, v.len() - 1)))
                        }
                    } else {
                        Outcome::Parsed((r, v))
                    }
                },
        ),
    }
}

/// Whether `s` starts with `0x` or `0X`.
pub open spec fn has_hex_prefix(s: Seq<char>) -> bool {
    s.len() >= 2 && s[0] == '0' && (s[1] == 'x' || s[1] == 'X')
}

/// A literal: hexadecimal after `0x`, else decimal; 0 where it is not a number in range.
pub open spec fn literal_value(s: Seq<char>, min: int, max: int) -> int {
    let parsed = if has_hex_prefix(s) {
        parse_int(s.skip(2), true, min, max)
    } else {
        parse_int(s, false, min, max)
    };
    match parsed {
        Some(v) => v,
        None => 0,
    }
}

fn literal_chars(s: &[char], min: i128, max: i128) -> (res: i128)
    requires
        -0x1_0000_0000_0000_0000 <= min <= 0 <= max <= 0x1_0000_0000_0000_0000,
    ensures
        res == literal_value(s@, min as int, max as int),
{
    let parsed = if s.len() >= 2 && s[0] == '0' && (s[1] == 'x' || s[1] == 'X') {
        let digits = slice_chars(s, 2, s.len());
        assert(digits@ =~= s@.skip(2));
        parse_int_chars(digits.as_slice(), true, min, max)
    } else {
        parse_int_chars(s, false, min, max)
    };
    match parsed {
        Some(v) => v,
        None => 0,
    }
}

/// The operands of `const` (32-bit) or `const-wide` (64-bit): a register, a comma, a literal.
pub open spec fn spec_register_literal(text: Seq<char>, line: usize, wide: bool) -> Outcome<(u8, int)> {
    let parts = split2(text, ',');
    if parts.len() < 2 {
        Outcome::Failed(
            line,
            if wide {
                "const-wide: expected register, literal"@
            } else {
                "const: expected register, literal"@
            },
        )
    } else {
        and_then(
            spec_vreg(trim(parts[0]), line),
            |r: u8|
                Outcome::Parsed(
                    (
                        r,
                        if wide {
                            literal_value(trim(parts[1]), i64::MIN as int, i64::MAX as int)
                        } else {
                            literal_value(trim(parts[1]), i32::MIN as int, i32::MAX as int)
                        },
                    ),
                ),
        )
    }
}

fn parse_register_literal(text: &[char], line_num: usize, wide: bool) -> (res: Result<(u8, i128), SmaliParseError>)
    ensures
        outcome_is(res, spec_register_literal(text@, line_num, wide), |v: (u8, i128)| (v.0, v.1 as int)),
{
    let parts = split2_chars(text, ',');
    let ghost ps = split2(text@, ',');
    assert(parts@.len() == ps.len());
    if parts.len() < 2 {
        return Err(
            if wide {
                parse_error(line_num, "const-wide: expected register, literal")
            } else {
                parse_error(line_num, "const: expected register, literal")
            },
        );
    }
    assert(parts@[0]@ == ps[0] && parts@[1]@ == ps[1]);
    let reg_text = trim_chars(parts[0].as_slice());
    let reg = match parse_vreg(reg_text.as_slice(), line_num) {
        Ok(r) => r,
        Err(e) => {
            return Err(e);
        },
    };
    let literal_text = trim_chars(parts[1].as_slice());
    let literal = if wide {
        literal_chars(literal_text.as_slice(), i64::MIN as i128, i64::MAX as i128)
    } else {
        literal_chars(literal_text.as_slice(), i32::MIN as i128, i32::MAX as i128)
    };
    Ok((reg, literal))
}

fn parse_const_string_operands(text: &[char], line_num: usize) -> (res: Result<(u8, Vec<char>), SmaliParseError>)
    requires
        !(spec_const_string_operands(text@, line_num) is Panics),
    ensures
        outcome_is(res, spec_const_string_operands(text@, line_num), |v: (u8, Vec<char>)| (v.0, v.1@)),
{
    let comma = match find_char(text, ',') {
        Some(k) => k,
        None => {
            return Err(parse_error(line_num, "const-string: expected comma after register"));
        },
    };
    let head = slice_chars(text, 0, comma);
    assert(head@ =~= text@.take(comma as int));
    let reg_text = trim_chars(head.as_slice());
    let reg = match parse_vreg(reg_text.as_slice(), line_num) {
        Ok(r) => r,
        Err(e) => {
            return Err(e);
        },
    };
    let tail = slice_chars(text, comma + 1, text.len());
    assert(tail@ =~= text@.skip(comma + 1));
    let value_text = trim_chars(tail.as_slice());
    let n = value_text.len();
    if n > 0 && value_text[0] == '"' && value_text[n - 1] == '"' {
        Ok((reg, slice_chars(value_text.as_slice(), 1, n - 1)))
    } else {
        Ok((reg, value_text))
    }
}

/// The registers named by the non-blank pieces `ps[0..n]`, in order; the first bad one fails.
pub open spec fn registers_upto(ps: Seq<Seq<char>>, n: int, line: usize) -> Outcome<Seq<u8>>
    decreases n,
{
    if n <= 0 {
        Outcome::Parsed(Seq::empty())
    } else {
        and_then(
            registers_upto(ps, n - 1, line),
            |rs: Seq<u8>|
                {
                    let t = trim(ps[n - 1]);
                    if t.len() == 0 {
                        Outcome::Parsed(rs)
                    } else {
                        and_then(spec_vreg(t, line), |r: u8| Outcome::Parsed(rs.push(r)))
                    }
                },
        )
    }
}

/// Once a register fails, every longer list fails the same way.
pub proof fn lemma_registers_failed(ps: Seq<Seq<char>>, i: int, n: int, line: usize)
    requires
        0 <= i <= n,
        registers_upto(ps, i, line) is Failed,
    ensures
        registers_upto(ps, n, line) == registers_upto(ps, i, line),
    decreases n - i,
{
    if n > i {
        lemma_registers_failed(ps, i, n - 1, line);
    }
}

/// The operands of an invoke: registers in braces, separated by commas, then the method
/// (after a `, `). Braces in the wrong order panic.
pub open spec fn spec_invoke_operands(text: Seq<char>, line: usize) -> Outcome<(Seq<u8>, Seq<char>)> {
    match find(text, '{') {
        None => Outcome::Failed(line, "invoke: expected {"@),
        Some(o) => match find(text, '}') {
            None => Outcome::Failed(line, "invoke: expected }"@),
            Some(c) => if o + 1 > c {
                Outcome::Panics
            } else {
                let pieces = split_from(text.subrange(o + 1, c), ',', 0);
                and_then(
                    registers_upto(pieces, pieces.len() as int, line),
                    |rs: Seq<u8>|
                        {
                            let after = trim(text.skip(c + 1));
                            Outcome::Parsed(
                                (
                                    rs,
                                    match strip_prefix(after, ", "@) {
                                        Some(r) => r,
                                        None => after,
                                    },
                                ),
                            )
                        },
                )
            },
        },
    }
}

fn parse_invoke_operands(text: &[char], line_num: usize) -> (res: Result<(Vec<u8>, Vec<char>), SmaliParseError>)
    requires
        !(spec_invoke_operands(text@, line_num) is Panics),
    ensures
        outcome_is(res, spec_invoke_operands(text@, line_num), |v: (Vec<u8>, Vec<char>)| (v.0@, v.1@)),
{
    let brace_open = match find_char(text, '{') {
        Some(k) => k,
        None => {
            return Err(parse_error(line_num, "invoke: expected {"));
        },
    };
    let brace_close = match find_char(text, '}') {
        Some(k) => k,
        None => {
            return Err(parse_error(line_num, "invoke: expected }"));
        },
    };
    let regs_text = slice_chars(text, brace_open + 1, brace_close);
    let pieces = split_chars(regs_text.as_slice(), ',');
    let ghost ps = split_from(regs_text@, ',', 0);
    let mut registers: Vec<u8> = Vec::new();
    let mut i: usize = 0;
    while i < pieces.len()
        invariant
            i <= pieces@.len() == ps.len(),
            pieces@.map_values(|t: Vec<char>| t@) == ps,
            registers_upto(ps, i as int, line_num) == Outcome::Parsed(registers@),
            find(text@, '{') == Some(brace_open as int),
            find(text@, '}') == Some(brace_close as int),
            brace_open + 1 <= brace_close,
            ps == split_from(text@.subrange(brace_open + 1, brace_close as int), ',', 0),
        decreases pieces.len() - i,
    {
        assert(pieces@[i as int]@ == ps[i as int]);
        let trimmed = trim_chars(pieces[i].as_slice());
        if trimmed.len() > 0 {
            match parse_vreg(trimmed.as_slice(), line_num) {
                Ok(r) => {
                    registers.push(r);
                },
                Err(e) => {
                    proof {
                        assert(trimmed@ == trim(ps[i as int]));
                        match spec_vreg(trimmed@, line_num) {
                            Outcome::Failed(l, m) => {
                                assert(registers_upto(ps, i + 1, line_num) == Outcome::<Seq<u8>>::Failed(l, m));
                                lemma_registers_failed(ps, i + 1, ps.len() as int, line_num);
                                assert(spec_invoke_operands(text@, line_num) == Outcome::<(Seq<u8>, Seq<char>)>::Failed(l, m));
                            },
                            _ => {},
                        }
                    }
                    return Err(e);
                },
            }
        }
        i += 1;
    }
    let tail = slice_chars(text, brace_close + 1, text.len());
    assert(tail@ =~= text@.skip(brace_close + 1));
    let after = trim_chars(tail.as_slice());
    let method_ref = match strip_prefix_chars(after.as_slice(), ", ") {
        Some(r) => r,
        None => after,
    };
    Ok((registers, method_ref))
}

/// Two registers separated by a comma.
pub open spec fn spec_two_registers(text: Seq<char>, line: usize) -> Outcome<(u8, u8)> {
    let parts = split2(text, ',');
    if parts.len() < 2 {
        Outcome::Failed(line, "Expected two registers"@)
    } else {
        and_then(
            spec_vreg(trim(parts[0]), line),
            |a: u8| and_then(spec_vreg(trim(parts[1]), line), |b: u8| Outcome::Parsed((a, b))),
        )
    }
}

fn parse_two_registers(text: &[char], line_num: usize) -> (res: Result<(u8, u8), SmaliParseError>)
    ensures
        outcome_is(res, spec_two_registers(text@, line_num), |v: (u8, u8)| v),
{
    let parts = split2_chars(text, ',');
    let ghost ps = split2(text@, ',');
    assert(parts@.len() == ps.len());
    if parts.len() < 2 {
        return Err(parse_error(line_num, "Expected two registers"));
    }
    assert(parts@[0]@ == ps[0] && parts@[1]@ == ps[1]);
    let a_text = trim_chars(parts[0].as_slice());
    let dest = match parse_vreg(a_text.as_slice(), line_num) {
        Ok(r) => r,
        Err(e) => {
            return Err(e);
        },
    };
    let b_text = trim_chars(parts[1].as_slice());
    let src = match parse_vreg(b_text.as_slice(), line_num) {
        Ok(r) => r,
        Err(e) => {
            return Err(e);
        },
    };
    Ok((dest, src))
}

/// A branch offset: 0 for a label, else a signed 16-bit number.
pub open spec fn spec_offset(text: Seq<char>, line: usize) -> Outcome<i16> {
    let t = trim(text);
    if starts_with_char(t, ':') {
        Outcome::Parsed(0)
    } else {
        match parse_int(t, false, i16::MIN as int, i16::MAX as int) {
            Some(v) => Outcome::Parsed(v as i16),
            None => Outcome::Failed(line, "Invalid offset: "@ + t),
        }
    }
}

fn parse_offset(text: &[char], line_num: usize) -> (res: Result<i16, SmaliParseError>)
    ensures
        outcome_is(res, spec_offset(text@, line_num), |v: i16| v),
{
    let trimmed = trim_chars(text);
    if trimmed.len() > 0 && trimmed[0] == ':' {
        return Ok(0);
    }
    match parse_int_chars(trimmed.as_slice(), false, i16::MIN as i128, i16::MAX as i128) {
        Some(v) => Ok(v as i16),
        None => Err(parse_error_with(line_num, "Invalid offset: ", trimmed.as_slice())),
    }
}

/// A register, a comma and a branch offset (0 for a label or a bad number).
pub open spec fn spec_if_reg_offset(text: Seq<char>, line: usize) -> Outcome<(u8, i16)> {
    let parts = split2(text, ',');
    if parts.len() < 2 {
        Outcome::Failed(line, "if-*z: expected register, offset"@)
    } else {
        and_then(
            spec_vreg(trim(parts[0]), line),
            |r: u8|
                {
                    let o = trim(parts[1]);
                    Outcome::Parsed(
                        (
                            r,
                            if starts_with_char(o, ':') {
                                0i16
                            } else {
                                match parse_int(o, false, i16::MIN as int, i16::MAX as int) {
                                    Some(v) => v as i16,
                                    None => 0i16,
                                }
                            },
                        ),
                    )
                },
        )
    }
}

fn parse_if_reg_offset(text: &[char], line_num: usize) -> (res: Result<(u8, i16), SmaliParseError>)
    ensures
        outcome_is(res, spec_if_reg_offset(text@, line_num), |v: (u8, i16)| v),
{
    let parts = split2_chars(text, ',');
    let ghost ps = split2(text@, ',');
    assert(parts@.len() == ps.len());
    if parts.len() < 2 {
        return Err(parse_error(line_num, "if-*z: expected register, offset"));
    }
    assert(parts@[0]@ == ps[0] && parts@[1]@ == ps[1]);
    let r_text = trim_chars(parts[0].as_slice());
    let reg = match parse_vreg(r_text.as_slice(), line_num) {
        Ok(r) => r,
        Err(e) => {
            return Err(e);
        },
    };
    let o_text = trim_chars(parts[1].as_slice());
    let offset: i16 = if o_text.len() > 0 && o_text[0] == ':' {
        0
    } else {
        match parse_int_chars(o_text.as_slice(), false, i16::MIN as i128, i16::MAX as i128) {
            Some(v) => v as i16,
            None => 0,
        }
    };
    Ok((reg, offset))
}

/// A register, a comma, and the rest (a type or a static field).
pub open spec fn spec_reg_and_rest(text: Seq<char>, line: usize, message: Seq<char>) -> Outcome<(u8, Seq<char>)> {
    let parts = split2(text, ',');
    if parts.len() < 2 {
        Outcome::Failed(line, message)
    } else {
        and_then(spec_vreg(trim(parts[0]), line), |r: u8| Outcome::Parsed((r, trim(parts[1]))))
    }
}

fn parse_reg_and_rest(text: &[char], line_num: usize, message: &str) -> (res: Result<(u8, Vec<char>), SmaliParseError>)
    ensures
        outcome_is(res, spec_reg_and_rest(text@, line_num, message@), |v: (u8, Vec<char>)| (v.0, v.1@)),
{
    let parts = split2_chars(text, ',');
    let ghost ps = split2(text@, ',');
    assert(parts@.len() == ps.len());
    if parts.len() < 2 {
        return Err(parse_error(line_num, message));
    }
    assert(parts@[0]@ == ps[0] && parts@[1]@ == ps[1]);
    let r_text = trim_chars(parts[0].as_slice());
    let reg = match parse_vreg(r_text.as_slice(), line_num) {
        Ok(r) => r,
        Err(e) => {
            return Err(e);
        },
    };
    Ok((reg, trim_chars(parts[1].as_slice())))
}

/// Two registers and a field, separated by commas.
pub open spec fn spec_field_access_operands(text: Seq<char>, line: usize) -> Outcome<(u8, u8, Seq<char>)> {
    let parts = split3(text, ',');
    if parts.len() < 3 {
        Outcome::Failed(line, "Expected dest, obj, field_ref"@)
    } else {
        and_then(
            spec_vreg(trim(parts[0]), line),
            |a: u8|
                and_then(
                    spec_vreg(trim(parts[1]), line),
                    |b: u8| Outcome::Parsed((a, b, trim(parts[2]))),
                ),
        )
    }
}

fn parse_field_access_operands(text: &[char], line_num: usize) -> (res: Result<(u8, u8, Vec<char>), SmaliParseError>)
    ensures
        outcome_is(res, spec_field_access_operands(text@, line_num), |v: (u8, u8, Vec<char>)| (v.0, v.1, v.2@)),
{
    let parts = split3_chars(text, ',');
    let ghost ps = split3(text@, ',');
    assert(parts@.len() == ps.len());
    if parts.len() < 3 {
        return Err(parse_error(line_num, "Expected dest, obj, field_ref"));
    }
    assert(parts@[0]@ == ps[0] && parts@[1]@ == ps[1] && parts@[2]@ == ps[2]);
    let a_text = trim_chars(parts[0].as_slice());
    let dest = match parse_vreg(a_text.as_slice(), line_num) {
        Ok(r) => r,
        Err(e) => {
            return Err(e);
        },
    };
    let b_text = trim_chars(parts[1].as_slice());
    let obj = match parse_vreg(b_text.as_slice(), line_num) {
        Ok(r) => r,
        Err(e) => {
            return Err(e);
        },
    };
    Ok((dest, obj, trim_chars(parts[2].as_slice())))
}

/// The mnemonic of an instruction line (before its first `#`, trimmed) and its operands.
pub open spec fn instruction_parts(line: Seq<char>) -> (Seq<char>, Seq<char>) {
    let l = trim(split_from(line, '#', 0)[0]);
    let parts = split2(l, ' ');
    (parts[0], if parts.len() > 1 {
        trim(parts[1])
    } else {
        Seq::empty()
    })
}

/// The instruction that `op` and `operands` spell, or `None` for a mnemonic the parser skips.
pub open spec fn spec_instruction_of(op: Seq<char>, operands: Seq<char>, line: usize) -> Outcome<Option<InstructionModel>> {
    if op == "nop"@ {
        Outcome::Parsed(Some(InstructionModel::Nop))
    } else if op == "return-void"@ {
        Outcome::Parsed(Some(InstructionModel::ReturnVoid))
    } else if op == "const-string"@ {
        and_then(spec_const_string_operands(operands, line), |v: (u8, Seq<char>)| Outcome::Parsed(Some(InstructionModel::ConstString { register: v.0, value: v.1 })))
    } else if op == "const"@ || op == "const/4"@ || op == "const/16"@ || op == "const/high16"@ {
        and_then(spec_register_literal(operands, line, false), |v: (u8, int)| Outcome::Parsed(Some(InstructionModel::Const { register: v.0, value: v.1 as i32 })))
    } else if op == "const-wide"@ || op == "const-wide/16"@ || op == "const-wide/32"@ || op == "const-wide/high16"@ {
        and_then(spec_register_literal(operands, line, true), |v: (u8, int)| Outcome::Parsed(Some(InstructionModel::ConstWide { register: v.0, value: v.1 as i64 })))
    } else if op == "invoke-static"@ {
        and_then(spec_invoke_operands(operands, line), |v: (Seq<u8>, Seq<char>)| Outcome::Parsed(Some(InstructionModel::InvokeStatic { method_ref: v.1, registers: v.0 })))
    } else if op == "invoke-virtual"@ {
        and_then(spec_invoke_operands(operands, line), |v: (Seq<u8>, Seq<char>)| Outcome::Parsed(Some(InstructionModel::InvokeVirtual { method_ref: v.1, registers: v.0 })))
    } else if op == "invoke-direct"@ {
        and_then(spec_invoke_operands(operands, line), |v: (Seq<u8>, Seq<char>)| Outcome::Parsed(Some(InstructionModel::InvokeDirect { method_ref: v.1, registers: v.0 })))
    } else if op == "invoke-super"@ {
        and_then(spec_invoke_operands(operands, line), |v: (Seq<u8>, Seq<char>)| Outcome::Parsed(Some(InstructionModel::InvokeSuper { method_ref: v.1, registers: v.0 })))
    } else if op == "invoke-interface"@ {
        and_then(spec_invoke_operands(operands, line), |v: (Seq<u8>, Seq<char>)| Outcome::Parsed(Some(InstructionModel::InvokeInterface { method_ref: v.1, registers: v.0 })))
    } else if op == "move-result"@ {
        and_then(spec_vreg(trim(operands), line), |r: u8| Outcome::Parsed(Some(InstructionModel::MoveResult { register: r })))
    } else if op == "move-result-object"@ {
        and_then(spec_vreg(trim(operands), line), |r: u8| Outcome::Parsed(Some(InstructionModel::MoveResultObject { register: r })))
    } else if op == "move-result-wide"@ {
        and_then(spec_vreg(trim(operands), line), |r: u8| Outcome::Parsed(Some(InstructionModel::MoveResultWide { register: r })))
    } else if op == "move"@ || op == "move/from16"@ || op == "move/16"@ {
        and_then(spec_two_registers(operands, line), |v: (u8, u8)| Outcome::Parsed(Some(InstructionModel::Move { dest: v.0, src: v.1 })))
    } else if op == "move-wide"@ || op == "move-wide/from16"@ || op == "move-wide/16"@ {
        and_then(spec_two_registers(operands, line), |v: (u8, u8)| Outcome::Parsed(Some(InstructionModel::MoveWide { dest: v.0, src: v.1 })))
    } else if op == "move-object"@ || op == "move-object/from16"@ || op == "move-object/16"@ {
        and_then(spec_two_registers(operands, line), |v: (u8, u8)| Outcome::Parsed(Some(InstructionModel::MoveObject { dest: v.0, src: v.1 })))
    } else if op == "goto"@ || op == "goto/16"@ || op == "goto/32"@ {
        and_then(spec_offset(operands, line), |o: i16| Outcome::Parsed(Some(InstructionModel::Goto { offset: o })))
    } else if op == "if-eqz"@ {
        and_then(spec_if_reg_offset(operands, line), |v: (u8, i16)| Outcome::Parsed(Some(InstructionModel::IfEqz { register: v.0, offset: v.1 })))
    } else if op == "if-nez"@ {
        and_then(spec_if_reg_offset(operands, line), |v: (u8, i16)| Outcome::Parsed(Some(InstructionModel::IfNez { register: v.0, offset: v.1 })))
    } else if op == "new-instance"@ {
        and_then(spec_reg_and_rest(operands, line, "Expected register, type"@), |v: (u8, Seq<char>)| Outcome::Parsed(Some(InstructionModel::NewInstance { register: v.0, type_ref: v.1 })))
    } else if op == "check-cast"@ {
        and_then(spec_reg_and_rest(operands, line, "Expected register, type"@), |v: (u8, Seq<char>)| Outcome::Parsed(Some(InstructionModel::CheckCast { register: v.0, type_ref: v.1 })))
    } else if op == "iget"@ || op == "iget-wide"@ || op == "iget-object"@ || op == "iget-boolean"@ || op == "iget-byte"@ || op == "iget-char"@ || op == "iget-short"@ {
        and_then(spec_field_access_operands(operands, line), |v: (u8, u8, Seq<char>)| Outcome::Parsed(Some(InstructionModel::IGet { dest: v.0, obj: v.1, field_ref: v.2 })))
    } else if op == "iput"@ || op == "iput-wide"@ || op == "iput-object"@ || op == "iput-boolean"@ || op == "iput-byte"@ || op == "iput-char"@ || op == "iput-short"@ {
        and_then(spec_field_access_operands(operands, line), |v: (u8, u8, Seq<char>)| Outcome::Parsed(Some(InstructionModel::IPut { src: v.0, obj: v.1, field_ref: v.2 })))
    } else if op == "sget"@ || op == "sget-wide"@ || op == "sget-object"@ || op == "sget-boolean"@ || op == "sget-byte"@ || op == "sget-char"@ || op == "sget-short"@ {
        and_then(spec_reg_and_rest(operands, line, "Expected register, field_ref"@), |v: (u8, Seq<char>)| Outcome::Parsed(Some(InstructionModel::SGet { dest: v.0, field_ref: v.1 })))
    } else if op == "sput"@ || op == "sput-wide"@ || op == "sput-object"@ || op == "sput-boolean"@ || op == "sput-byte"@ || op == "sput-char"@ || op == "sput-short"@ {
        and_then(spec_reg_and_rest(operands, line, "Expected register, field_ref"@), |v: (u8, Seq<char>)| Outcome::Parsed(Some(InstructionModel::SPut { src: v.0, field_ref: v.1 })))
    } else if op == "return"@ {
        and_then(spec_vreg(trim(operands), line), |r: u8| Outcome::Parsed(Some(InstructionModel::Return { register: r })))
    } else if op == "return-object"@ {
        and_then(spec_vreg(trim(operands), line), |r: u8| Outcome::Parsed(Some(InstructionModel::ReturnObject { register: r })))
    } else if op == "throw"@ {
        and_then(spec_vreg(trim(operands), line), |r: u8| Outcome::Parsed(Some(InstructionModel::Throw { register: r })))
    } else if starts_with_char(op, ':') {
        Outcome::Parsed(Some(InstructionModel::Label { name: op.drop_first() }))
    } else {
        Outcome::Parsed(None)
    }
}

/// Whether `op` is a mnemonic that writes the instruction `m`: each kind of instruction has its
/// own mnemonics (a label, its name after a colon).
pub open spec fn mnemonic_of(op: Seq<char>, m: InstructionModel) -> bool {
    match m {
        InstructionModel::Nop => op == "nop"@,
        InstructionModel::ReturnVoid => op == "return-void"@,
        InstructionModel::ConstString { .. } => op == "const-string"@,
        InstructionModel::Const { .. } => op == "const"@ || op == "const/4"@ || op == "const/16"@ || op == "const/high16"@,
        InstructionModel::ConstWide { .. } => op == "const-wide"@ || op == "const-wide/16"@ || op == "const-wide/32"@ || op == "const-wide/high16"@,
        InstructionModel::InvokeStatic { .. } => op == "invoke-static"@,
        InstructionModel::InvokeVirtual { .. } => op == "invoke-virtual"@,
        InstructionModel::InvokeDirect { .. } => op == "invoke-direct"@,
        InstructionModel::InvokeSuper { .. } => op == "invoke-super"@,
        InstructionModel::InvokeInterface { .. } => op == "invoke-interface"@,
        InstructionModel::MoveResult { .. } => op == "move-result"@,
        InstructionModel::MoveResultObject { .. } => op == "move-result-object"@,
        InstructionModel::MoveResultWide { .. } => op == "move-result-wide"@,
        InstructionModel::Move { .. } => op == "move"@ || op == "move/from16"@ || op == "move/16"@,
        InstructionModel::MoveWide { .. } => op == "move-wide"@ || op == "move-wide/from16"@ || op == "move-wide/16"@,
        InstructionModel::MoveObject { .. } => op == "move-object"@ || op == "move-object/from16"@ || op == "move-object/16"@,
        InstructionModel::Goto { .. } => op == "goto"@ || op == "goto/16"@ || op == "goto/32"@,
        InstructionModel::IfEqz { .. } => op == "if-eqz"@,
        InstructionModel::IfNez { .. } => op == "if-nez"@,
        InstructionModel::NewInstance { .. } => op == "new-instance"@,
        InstructionModel::CheckCast { .. } => op == "check-cast"@,
        InstructionModel::IGet { .. } => op == "iget"@ || op == "iget-wide"@ || op == "iget-object"@ || op == "iget-boolean"@ || op == "iget-byte"@ || op == "iget-char"@ || op == "iget-short"@,
        InstructionModel::IPut { .. } => op == "iput"@ || op == "iput-wide"@ || op == "iput-object"@ || op == "iput-boolean"@ || op == "iput-byte"@ || op == "iput-char"@ || op == "iput-short"@,
        InstructionModel::SGet { .. } => op == "sget"@ || op == "sget-wide"@ || op == "sget-object"@ || op == "sget-boolean"@ || op == "sget-byte"@ || op == "sget-char"@ || op == "sget-short"@,
        InstructionModel::SPut { .. } => op == "sput"@ || op == "sput-wide"@ || op == "sput-object"@ || op == "sput-boolean"@ || op == "sput-byte"@ || op == "sput-char"@ || op == "sput-short"@,
        InstructionModel::Return { .. } => op == "return"@,
        InstructionModel::ReturnObject { .. } => op == "return-object"@,
        InstructionModel::Throw { .. } => op == "throw"@,
        InstructionModel::Label { name } => starts_with_char(op, ':') && name == op.drop_first(),
    }
}

/// An instruction line parses to the instruction that its mnemonic names, whatever its operands:
/// `if-eqz` gives `IfEqz`, `if-nez` gives `IfNez`, and so on for every mnemonic.
pub proof fn lemma_parsed_instruction_has_its_mnemonic(op: Seq<char>, operands: Seq<char>, line: usize)
    ensures
        spec_instruction_of(op, operands, line) matches Outcome::Parsed(Some(m)) ==> mnemonic_of(op, m),
{
}

/// One instruction line: nothing for a blank line (after dropping a `#` comment) or an unknown
/// mnemonic, a label for `:name`, else the instruction with its operands.
pub open spec fn spec_parse_instruction(line: Seq<char>, ln: usize) -> Outcome<Option<InstructionModel>> {
    if trim(split_from(line, '#', 0)[0]).len() == 0 {
        Outcome::Parsed(None)
    } else {
        spec_instruction_of(instruction_parts(line).0, instruction_parts(line).1, ln)
    }
}

fn parse_single_register(text: &[char], line_num: usize) -> (res: Result<u8, SmaliParseError>)
    ensures
        outcome_is(res, spec_vreg(trim(text@), line_num), |v: u8| v),
{
    let t = trim_chars(text);
    parse_vreg(t.as_slice(), line_num)
}

fn instruction_of(op: &Vec<char>, operands: &Vec<char>, line_num: usize) -> (res: Result<Option<SmaliInstruction>, SmaliParseError>)
    requires
        !(spec_instruction_of(op@, operands@, line_num) is Panics),
    ensures
        outcome_is(res, spec_instruction_of(op@, operands@, line_num), |v: Option<SmaliInstruction>| match v {
            Some(i) => Some(i@),
            None => None::<InstructionModel>,
        }),
{
    if equals(op.as_slice(), "nop") {
        Ok(Some(SmaliInstruction::Nop))
    } else if equals(op.as_slice(), "return-void") {
        Ok(Some(SmaliInstruction::ReturnVoid))
    } else if equals(op.as_slice(), "const-string") {
        match parse_const_string_operands(operands.as_slice(), line_num) { Ok((register, value)) => Ok(Some(SmaliInstruction::ConstString { register, value: string_of(value.as_slice()) })), Err(e) => Err(e) }
    } else if equals(op.as_slice(), "const") || equals(op.as_slice(), "const/4") || equals(op.as_slice(), "const/16") || equals(op.as_slice(), "const/high16") {
        match parse_register_literal(operands.as_slice(), line_num, false) { Ok((register, value)) => Ok(Some(SmaliInstruction::Const { register, value: value as i32 })), Err(e) => Err(e) }
    } else if equals(op.as_slice(), "const-wide") || equals(op.as_slice(), "const-wide/16") || equals(op.as_slice(), "const-wide/32") || equals(op.as_slice(), "const-wide/high16") {
        match parse_register_literal(operands.as_slice(), line_num, true) { Ok((register, value)) => Ok(Some(SmaliInstruction::ConstWide { register, value: value as i64 })), Err(e) => Err(e) }
    } else if equals(op.as_slice(), "invoke-static") {
        match parse_invoke_operands(operands.as_slice(), line_num) { Ok((registers, method_ref)) => Ok(Some(SmaliInstruction::InvokeStatic { method_ref: string_of(method_ref.as_slice()), registers })), Err(e) => Err(e) }
    } else if equals(op.as_slice(), "invoke-virtual") {
        match parse_invoke_operands(operands.as_slice(), line_num) { Ok((registers, method_ref)) => Ok(Some(SmaliInstruction::InvokeVirtual { method_ref: string_of(method_ref.as_slice()), registers })), Err(e) => Err(e) }
    } else if equals(op.as_slice(), "invoke-direct") {
        match parse_invoke_operands(operands.as_slice(), line_num) { Ok((registers, method_ref)) => Ok(Some(SmaliInstruction::InvokeDirect { method_ref: string_of(method_ref.as_slice()), registers })), Err(e) => Err(e) }
    } else if equals(op.as_slice(), "invoke-super") {
        match parse_invoke_operands(operands.as_slice(), line_num) { Ok((registers, method_ref)) => Ok(Some(SmaliInstruction::InvokeSuper { method_ref: string_of(method_ref.as_slice()), registers })), Err(e) => Err(e) }
    } else if equals(op.as_slice(), "invoke-interface") {
        match parse_invoke_operands(operands.as_slice(), line_num) { Ok((registers, method_ref)) => Ok(Some(SmaliInstruction::InvokeInterface { method_ref: string_of(method_ref.as_slice()), registers })), Err(e) => Err(e) }
    } else if equals(op.as_slice(), "move-result") {
        match parse_single_register(operands.as_slice(), line_num) { Ok(register) => Ok(Some(SmaliInstruction::MoveResult { register })), Err(e) => Err(e) }
    } else if equals(op.as_slice(), "move-result-object") {
        match parse_single_register(operands.as_slice(), line_num) { Ok(register) => Ok(Some(SmaliInstruction::MoveResultObject { register })), Err(e) => Err(e) }
    } else if equals(op.as_slice(), "move-result-wide") {
        match parse_single_register(operands.as_slice(), line_num) { Ok(register) => Ok(Some(SmaliInstruction::MoveResultWide { register })), Err(e) => Err(e) }
    } else if equals(op.as_slice(), "move") || equals(op.as_slice(), "move/from16") || equals(op.as_slice(), "move/16") {
        match parse_two_registers(operands.as_slice(), line_num) { Ok((dest, src)) => Ok(Some(SmaliInstruction::Move { dest, src })), Err(e) => Err(e) }
    } else if equals(op.as_slice(), "move-wide") || equals(op.as_slice(), "move-wide/from16") || equals(op.as_slice(), "move-wide/16") {
        match parse_two_registers(operands.as_slice(), line_num) { Ok((dest, src)) => Ok(Some(SmaliInstruction::MoveWide { dest, src })), Err(e) => Err(e) }
    } else if equals(op.as_slice(), "move-object") || equals(op.as_slice(), "move-object/from16") || equals(op.as_slice(), "move-object/16") {
        match parse_two_registers(operands.as_slice(), line_num) { Ok((dest, src)) => Ok(Some(SmaliInstruction::MoveObject { dest, src })), Err(e) => Err(e) }
    } else if equals(op.as_slice(), "goto") || equals(op.as_slice(), "goto/16") || equals(op.as_slice(), "goto/32") {
        match parse_offset(operands.as_slice(), line_num) { Ok(offset) => Ok(Some(SmaliInstruction::Goto { offset })), Err(e) => Err(e) }
    } else if equals(op.as_slice(), "if-eqz") {
        match parse_if_reg_offset(operands.as_slice(), line_num) { Ok((register, offset)) => Ok(Some(SmaliInstruction::IfEqz { register, offset })), Err(e) => Err(e) }
    } else if equals(op.as_slice(), "if-nez") {
        match parse_if_reg_offset(operands.as_slice(), line_num) { Ok((register, offset)) => Ok(Some(SmaliInstruction::IfNez { register, offset })), Err(e) => Err(e) }
    } else if equals(op.as_slice(), "new-instance") {
        match parse_reg_and_rest(operands.as_slice(), line_num, "Expected register, type") { Ok((register, type_ref)) => Ok(Some(SmaliInstruction::NewInstance { register, type_ref: string_of(type_ref.as_slice()) })), Err(e) => Err(e) }
    } else if equals(op.as_slice(), "check-cast") {
        match parse_reg_and_rest(operands.as_slice(), line_num, "Expected register, type") { Ok((register, type_ref)) => Ok(Some(SmaliInstruction::CheckCast { register, type_ref: string_of(type_ref.as_slice()) })), Err(e) => Err(e) }
    } else if equals(op.as_slice(), "iget") || equals(op.as_slice(), "iget-wide") || equals(op.as_slice(), "iget-object") || equals(op.as_slice(), "iget-boolean") || equals(op.as_slice(), "iget-byte") || equals(op.as_slice(), "iget-char") || equals(op.as_slice(), "iget-short") {
        match parse_field_access_operands(operands.as_slice(), line_num) { Ok((dest, obj, field_ref)) => Ok(Some(SmaliInstruction::IGet { dest, obj, field_ref: string_of(field_ref.as_slice()) })), Err(e) => Err(e) }
    } else if equals(op.as_slice(), "iput") || equals(op.as_slice(), "iput-wide") || equals(op.as_slice(), "iput-object") || equals(op.as_slice(), "iput-boolean") || equals(op.as_slice(), "iput-byte") || equals(op.as_slice(), "iput-char") || equals(op.as_slice(), "iput-short") {
        match parse_field_access_operands(operands.as_slice(), line_num) { Ok((src, obj, field_ref)) => Ok(Some(SmaliInstruction::IPut { src, obj, field_ref: string_of(field_ref.as_slice()) })), Err(e) => Err(e) }
    } else if equals(op.as_slice(), "sget") || equals(op.as_slice(), "sget-wide") || equals(op.as_slice(), "sget-object") || equals(op.as_slice(), "sget-boolean") || equals(op.as_slice(), "sget-byte") || equals(op.as_slice(), "sget-char") || equals(op.as_slice(), "sget-short") {
        match parse_reg_and_rest(operands.as_slice(), line_num, "Expected register, field_ref") { Ok((dest, field_ref)) => Ok(Some(SmaliInstruction::SGet { dest, field_ref: string_of(field_ref.as_slice()) })), Err(e) => Err(e) }
    } else if equals(op.as_slice(), "sput") || equals(op.as_slice(), "sput-wide") || equals(op.as_slice(), "sput-object") || equals(op.as_slice(), "sput-boolean") || equals(op.as_slice(), "sput-byte") || equals(op.as_slice(), "sput-char") || equals(op.as_slice(), "sput-short") {
        match parse_reg_and_rest(operands.as_slice(), line_num, "Expected register, field_ref") { Ok((src, field_ref)) => Ok(Some(SmaliInstruction::SPut { src, field_ref: string_of(field_ref.as_slice()) })), Err(e) => Err(e) }
    } else if equals(op.as_slice(), "return") {
        match parse_single_register(operands.as_slice(), line_num) { Ok(register) => Ok(Some(SmaliInstruction::Return { register })), Err(e) => Err(e) }
    } else if equals(op.as_slice(), "return-object") {
        match parse_single_register(operands.as_slice(), line_num) { Ok(register) => Ok(Some(SmaliInstruction::ReturnObject { register })), Err(e) => Err(e) }
    } else if equals(op.as_slice(), "throw") {
        match parse_single_register(operands.as_slice(), line_num) { Ok(register) => Ok(Some(SmaliInstruction::Throw { register })), Err(e) => Err(e) }
    } else if op.len() > 0 && op[0] == ':' {
        let name = slice_chars(op.as_slice(), 1, op.len());
        assert(name@ =~= op@.drop_first());
        Ok(Some(SmaliInstruction::Label { name: string_of(name.as_slice()) }))
    } else {
        Ok(None)
    }
}

fn parse_instruction(line: &[char], line_num: usize) -> (res: Result<Option<SmaliInstruction>, SmaliParseError>)
    requires
        !(spec_parse_instruction(line@, line_num) is Panics),
    ensures
        outcome_is(res, spec_parse_instruction(line@, line_num), |v: Option<SmaliInstruction>| match v {
            Some(i) => Some(i@),
            None => None::<InstructionModel>,
        }),
{
    let pieces = split_chars(line, '#');
    proof {
        crate::smali::chars::lemma_split_nonempty(line@, '#', 0);
    }
    assert(pieces@[0]@ == split_from(line@, '#', 0)[0]);
    let l = trim_chars(pieces[0].as_slice());
    if l.len() == 0 {
        return Ok(None);
    }
    let parts = split2_chars(l.as_slice(), ' ');
    let ghost ps = split2(l@, ' ');
    assert(parts@.len() == ps.len());
    assert(parts@[0]@ == ps[0]);
    let op = slice_chars(parts[0].as_slice(), 0, parts[0].len());
    assert(op@ =~= ps[0]);
    let operands = if parts.len() > 1 {
        assert(parts@[1]@ == ps[1]);
        trim_chars(parts[1].as_slice())
    } else {
        Vec::new()
    };
    assert(operands@ =~= instruction_parts(line@).1);
    instruction_of(&op, &operands, line_num)
}


// ---------------------------------------------------------------------------------------------
// Type lists and method signatures
// ---------------------------------------------------------------------------------------------

/// Whether `c` names a primitive type (or `void`).
pub open spec fn is_primitive_char(c: char) -> bool {
    c == 'V' || c == 'Z' || c == 'B' || c == 'S' || c == 'C' || c == 'I' || c == 'J' || c == 'F'
        || c == 'D'
}

/// Where a class name that starts at `i` ends: after its `;`, or at the end of `s`.
pub open spec fn class_name_end(s: Seq<char>, i: int) -> int {
    match find_from(s, ';', i) {
        Some(k) => k + 1,
        None => s.len() as int,
    }
}

/// Where an array type that starts at `i` ends: after its element type, which is a class name
/// or one char.
pub open spec fn array_end(s: Seq<char>, i: int) -> int {
    let j = skip_char(s, '[', i + 1);
    if j < s.len() {
        if s[j] == 'L' {
            class_name_end(s, j)
        } else {
            j + 1
        }
    } else {
        j
    }
}

pub proof fn lemma_class_name_end(s: Seq<char>, i: int)
    requires
        0 <= i < s.len(),
    ensures
        i < class_name_end(s, i) <= s.len(),
{
    lemma_find_from_bounds(s, ';', i);
}

pub proof fn lemma_array_end(s: Seq<char>, i: int)
    requires
        0 <= i < s.len(),
    ensures
        i < array_end(s, i) <= s.len(),
{
    lemma_skip_char_bounds(s, '[', i + 1);
    let j = skip_char(s, '[', i + 1);
    if j < s.len() && s[j] == 'L' {
        lemma_class_name_end(s, j);
    }
}

/// The type descriptors written one after another in `s`, from index `i`: a primitive is one
/// char, a class name runs to its `;`, an array takes its element type; other chars are skipped.
pub open spec fn type_list_from(s: Seq<char>, i: int) -> Seq<Seq<char>>
    decreases s.len() - i,
{
    if i < 0 || i >= s.len() {
        Seq::empty()
    } else if is_primitive_char(s[i]) {
        seq![s.subrange(i, i + 1)] + type_list_from(s, i + 1)
    } else if s[i] == 'L' {
        proof {
            lemma_class_name_end(s, i);
        }
        seq![s.subrange(i, class_name_end(s, i))] + type_list_from(s, class_name_end(s, i))
    } else if s[i] == '[' {
        proof {
            lemma_array_end(s, i);
        }
        seq![s.subrange(i, array_end(s, i))] + type_list_from(s, array_end(s, i))
    } else {
        type_list_from(s, i + 1)
    }
}

/// The type descriptors written one after another in `s`.
pub open spec fn type_list(s: Seq<char>) -> Seq<Seq<char>> {
    type_list_from(s, 0)
}

fn class_name_end_exec(s: &[char], i: usize) -> (res: usize)
    requires
        i < s@.len(),
    ensures
        res == class_name_end(s@, i as int),
{
    proof {
        lemma_find_from_bounds(s@, ';', i as int);
    }
    let n = s.len();
    match find_char_from(s, ';', i) {
        Some(k) => {
            assert(k < n);
            k + 1
        },
        None => s.len(),
    }
}

fn array_end_exec(s: &[char], i: usize) -> (res: usize)
    requires
        i < s@.len(),
    ensures
        res == array_end(s@, i as int),
{
    let n = s.len();
    let mut j = i + 1;
    while j < s.len() && s[j] == '['
        invariant
            i + 1 <= j <= s@.len(),
            skip_char(s@, '[', j as int) == skip_char(s@, '[', i + 1),
        decreases s.len() - j,
    {
        j += 1;
    }
    if j < s.len() {
        if s[j] == 'L' {
            class_name_end_exec(s, j)
        } else {
            j + 1
        }
    } else {
        j
    }
}

/// The type descriptors written one after another in `s`.
pub fn type_list_chars(s: &[char]) -> (res: Vec<Vec<char>>)
    ensures
        res@.map_values(|t: Vec<char>| t@) == type_list(s@),
{
    let mut res: Vec<Vec<char>> = Vec::new();
    let mut i: usize = 0;
    while i < s.len()
        invariant
            i <= s@.len(),
            type_list(s@) == res@.map_values(|t: Vec<char>| t@) + type_list_from(s@, i as int),
        decreases s.len() - i,
    {
        let c = s[i];
        let primitive = c == 'V' || c == 'Z' || c == 'B' || c == 'S' || c == 'C' || c == 'I' || c
            == 'J' || c == 'F' || c == 'D';
        if primitive || c == 'L' || c == '[' {
            let e = if primitive {
                i + 1
            } else if c == 'L' {
                class_name_end_exec(s, i)
            } else {
                array_end_exec(s, i)
            };
            proof {
                lemma_class_name_end(s@, i as int);
                lemma_array_end(s@, i as int);
            }
            let ghost before = res@;
            res.push(slice_chars(s, i, e));
            proof {
                assert(type_list_from(s@, i as int) == seq![s@.subrange(i as int, e as int)]
                    + type_list_from(s@, e as int));
                assert(res@.map_values(|t: Vec<char>| t@) =~= before.map_values(|t: Vec<char>| t@).push(
                    s@.subrange(i as int, e as int),
                ));
                assert(res@.map_values(|t: Vec<char>| t@) + type_list_from(s@, e as int)
                    =~= before.map_values(|t: Vec<char>| t@) + type_list_from(s@, i as int));
            }
            i = e;
        } else {
            i += 1;
        }
    }
    assert(type_list_from(s@, i as int) =~= Seq::<Seq<char>>::empty());
    assert(res@.map_values(|t: Vec<char>| t@) + Seq::<Seq<char>>::empty() =~= res@.map_values(|t: Vec<char>| t@));
    res
}

/// Strings holding each of `v`.
pub fn strings_of(v: &Vec<Vec<char>>) -> (res: Vec<String>)
    ensures
        res@.map_values(|t: String| t@) == v@.map_values(|t: Vec<char>| t@),
{
    let mut res: Vec<String> = Vec::new();
    let mut i: usize = 0;
    while i < v.len()
        invariant
            i <= v@.len(),
            res@.map_values(|t: String| t@) == v@.take(i as int).map_values(|t: Vec<char>| t@),
        decreases v.len() - i,
    {
        let ghost before = res@;
        res.push(string_of(v[i].as_slice()));
        proof {
            assert(v@.take(i + 1) =~= v@.take(i as int).push(v@[i as int]));
            assert(res@.map_values(|t: String| t@) =~= before.map_values(|t: String| t@).push(v@[i as int]@));
            assert(v@.take(i + 1).map_values(|t: Vec<char>| t@) =~= v@.take(i as int).map_values(
                |t: Vec<char>| t@,
            ).push(v@[i as int]@));
        }
        i += 1;
    }
    assert(v@.take(v@.len() as int) =~= v@);
    res
}

/// The type descriptors written one after another in `types`, such as the parameters of a
/// method.
pub fn parse_type_list(types: &str) -> (res: Vec<String>)
    ensures
        res@.map_values(|t: String| t@) == type_list(types@),
{
    let cs = chars_of(types);
    let list = type_list_chars(cs.as_slice());
    strings_of(&list)
}

/// A method signature `name(params)return`: its name, its return type and its parameter types.
/// Without both parentheses it is refused; a `)` before the `(` panics.
pub open spec fn spec_method_signature(sig: Seq<char>) -> Outcome<(Seq<char>, Seq<char>, Seq<Seq<char>>)> {
    match (find(sig, '('), find(sig, ')')) {
        (Some(o), Some(c)) => if c < o + 1 {
            Outcome::Panics
        } else {
            Outcome::Parsed((sig.take(o), sig.skip(c + 1), type_list(sig.subrange(o + 1, c))))
        },
        _ => Outcome::Failed(0, "Invalid method signature: "@ + sig),
    }
}

fn method_signature_chars(sig: &[char]) -> (res: Result<(Vec<char>, Vec<char>, Vec<Vec<char>>), SmaliParseError>)
    requires
        !(spec_method_signature(sig@) is Panics),
    ensures
        outcome_is(
            res,
            spec_method_signature(sig@),
            |v: (Vec<char>, Vec<char>, Vec<Vec<char>>)| (v.0@, v.1@, v.2@.map_values(|t: Vec<char>| t@)),
        ),
{
    let open = find_char(sig, '(');
    let close = find_char(sig, ')');
    match (open, close) {
        (Some(o), Some(c)) => {
            let name = slice_chars(sig, 0, o);
            let ret = slice_chars(sig, c + 1, sig.len());
            let params = slice_chars(sig, o + 1, c);
            assert(name@ =~= sig@.take(o as int));
            assert(ret@ =~= sig@.skip(c + 1));
            Ok((name, ret, type_list_chars(params.as_slice())))
        },
        _ => Err(parse_error_with(0, "Invalid method signature: ", sig)),
    }
}

/// The name, return type and parameter types of the method signature `sig`.
pub fn parse_method_signature(sig: &str) -> (res: Result<(String, String, Vec<String>), SmaliParseError>)
    requires
        !(spec_method_signature(sig@) is Panics),
    ensures
        outcome_is(
            res,
            spec_method_signature(sig@),
            |v: (String, String, Vec<String>)| (v.0@, v.1@, v.2@.map_values(|t: String| t@)),
        ),
{
    let cs = chars_of(sig);
    match method_signature_chars(cs.as_slice()) {
        Ok((name, ret, params)) => Ok((string_of(name.as_slice()), string_of(ret.as_slice()), strings_of(&params))),
        Err(e) => Err(e),
    }
}


// ---------------------------------------------------------------------------------------------
// Declarations
// ---------------------------------------------------------------------------------------------

/// Which access-flag words a declaration may carry.
#[derive(Clone, Copy)]
pub enum FlagWords {
    Class,
    Method,
    Field,
}

/// The access flag that the word `t` names in a declaration of kind `words`, if it names one.
pub open spec fn flag_bit(words: FlagWords, t: Seq<char>) -> Option<u32> {
    if t == "public"@ {
        Some(0x1)
    } else if t == "private"@ {
        Some(0x2)
    } else if t == "protected"@ {
        Some(0x4)
    } else if t == "static"@ {
        Some(0x8)
    } else if t == "final"@ {
        Some(0x10)
    } else if t == "synthetic"@ {
        Some(0x1000)
    } else {
        match words {
            FlagWords::Class => if t == "abstract"@ {
                Some(0x400)
            } else if t == "annotation"@ {
                Some(0x2000)
            } else if t == "interface"@ {
                Some(0x200)
            } else if t == "enum"@ {
                Some(0x4000)
            } else {
                None
            },
            FlagWords::Method => if t == "abstract"@ {
                Some(0x400)
            } else if t == "native"@ {
                Some(0x100)
            } else if t == "synchronized"@ {
                Some(0x20)
            } else if t == "varargs"@ {
                Some(0x80)
            } else if t == "constructor"@ {
                Some(0x10000)
            } else {
                None
            },
            FlagWords::Field => if t == "volatile"@ {
                Some(0x40)
            } else if t == "transient"@ {
                Some(0x80)
            } else if t == "enum"@ {
                Some(0x4000)
            } else {
                None
            },
        }
    }
}

/// The flags that the words `ts` name, together.
pub open spec fn flags_of(words: FlagWords, ts: Seq<Seq<char>>) -> u32
    decreases ts.len(),
{
    if ts.len() == 0 {
        0
    } else {
        flags_of(words, ts.drop_last()) | match flag_bit(words, ts.last()) {
            Some(b) => b,
            None => 0,
        }
    }
}

/// The last of the words `ts` that starts a type descriptor (`L` or `[`), or nothing.
pub open spec fn last_descriptor(ts: Seq<Seq<char>>) -> Seq<char>
    decreases ts.len(),
{
    if ts.len() == 0 {
        Seq::empty()
    } else if starts_with_char(ts.last(), 'L') || starts_with_char(ts.last(), '[') {
        ts.last()
    } else {
        last_descriptor(ts.drop_last())
    }
}

/// The last of the words `ts` that holds a `(`, or nothing.
pub open spec fn last_signature(ts: Seq<Seq<char>>) -> Seq<char>
    decreases ts.len(),
{
    if ts.len() == 0 {
        Seq::empty()
    } else if find(ts.last(), '(') is Some {
        ts.last()
    } else {
        last_signature(ts.drop_last())
    }
}

fn flag_bit_exec(words: FlagWords, t: &[char]) -> (res: Option<u32>)
    ensures
        res == flag_bit(words, t@),
{
    if equals(t, "public") {
        Some(0x1)
    } else if equals(t, "private") {
        Some(0x2)
    } else if equals(t, "protected") {
        Some(0x4)
    } else if equals(t, "static") {
        Some(0x8)
    } else if equals(t, "final") {
        Some(0x10)
    } else if equals(t, "synthetic") {
        Some(0x1000)
    } else {
        match words {
            FlagWords::Class => if equals(t, "abstract") {
                Some(0x400)
            } else if equals(t, "annotation") {
                Some(0x2000)
            } else if equals(t, "interface") {
                Some(0x200)
            } else if equals(t, "enum") {
                Some(0x4000)
            } else {
                None
            },
            FlagWords::Method => if equals(t, "abstract") {
                Some(0x400)
            } else if equals(t, "native") {
                Some(0x100)
            } else if equals(t, "synchronized") {
                Some(0x20)
            } else if equals(t, "varargs") {
                Some(0x80)
            } else if equals(t, "constructor") {
                Some(0x10000)
            } else {
                None
            },
            FlagWords::Field => if equals(t, "volatile") {
                Some(0x40)
            } else if equals(t, "transient") {
                Some(0x80)
            } else if equals(t, "enum") {
                Some(0x4000)
            } else {
                None
            },
        }
    }
}

/// The flags that the words `ts` name, the last word that starts a type descriptor, and the last
/// word that holds a `(`.
fn scan_header(words: FlagWords, ts: &Vec<Vec<char>>) -> (res: (u32, Vec<char>, Vec<char>))
    ensures
        res.0 == flags_of(words, ts@.map_values(|t: Vec<char>| t@)),
        res.1@ == last_descriptor(ts@.map_values(|t: Vec<char>| t@)),
        res.2@ == last_signature(ts@.map_values(|t: Vec<char>| t@)),
{
    let ghost v = ts@.map_values(|t: Vec<char>| t@);
    let mut flags: u32 = 0;
    let mut descriptor: Vec<char> = Vec::new();
    let mut signature: Vec<char> = Vec::new();
    let mut k: usize = 0;
    while k < ts.len()
        invariant
            k <= ts@.len(),
            v == ts@.map_values(|t: Vec<char>| t@),
            flags == flags_of(words, v.take(k as int)),
            descriptor@ == last_descriptor(v.take(k as int)),
            signature@ == last_signature(v.take(k as int)),
        decreases ts.len() - k,
    {
        let t = ts[k].as_slice();
        proof {
            assert(v.take(k + 1).drop_last() =~= v.take(k as int));
            assert(v.take(k + 1).last() == t@);
        }
        let bit = match flag_bit_exec(words, t) {
            Some(b) => b,
            None => 0,
        };
        flags = flags | bit;
        if t.len() > 0 && (t[0] == 'L' || t[0] == '[') {
            descriptor = slice_chars(t, 0, t.len());
            assert(t@.subrange(0, t@.len() as int) =~= t@);
        }
        if find_char(t, '(').is_some() {
            signature = slice_chars(t, 0, t.len());
            assert(t@.subrange(0, t@.len() as int) =~= t@);
        }
        k += 1;
    }
    assert(v.take(ts@.len() as int) =~= v);
    (flags, descriptor, signature)
}

/// A field as a value: its flags as bits and its texts as char sequences.
pub struct FieldModel {
    pub access_flags: u32,
    pub name: Seq<char>,
    pub field_type: Seq<char>,
    pub initial_value: Option<Seq<char>>,
}

impl View for SmaliField {
    type V = FieldModel;

    open spec fn view(&self) -> FieldModel {
        FieldModel {
            access_flags: self.access_flags.bits,
            name: self.name@,
            field_type: self.field_type@,
            initial_value: match self.initial_value {
                Some(v) => Some(v@),
                None => None,
            },
        }
    }
}

/// The index of the first of `ts`, from `i`, that is not a flag word of `words`, or the length.
pub open spec fn flag_prefix_end(words: FlagWords, ts: Seq<Seq<char>>, i: int) -> int
    decreases ts.len() - i,
{
    if i < 0 || i >= ts.len() {
        ts.len() as int
    } else if flag_bit(words, ts[i]) is None {
        i
    } else {
        flag_prefix_end(words, ts, i + 1)
    }
}

/// A `.field` line: flag words, then `name:type`, then optionally ` = ` and an initial value.
pub open spec fn spec_parse_field(line: Seq<char>, ln: usize) -> Outcome<FieldModel> {
    let rest = trim(
        match strip_prefix(line, ".field "@) {
            Some(r) => r,
            None => line,
        },
    );
    let ts = tokens(rest);
    let n = flag_prefix_end(FlagWords::Field, ts, 0);
    let start = if n < ts.len() {
        n
    } else {
        0
    };
    if start >= ts.len() {
        Outcome::Failed(ln, "Invalid field declaration: "@ + line)
    } else {
        let desc = join_space(ts.skip(start));
        match find(desc, ':') {
            None => Outcome::Failed(ln, "Invalid field declaration: "@ + line),
            Some(k) => {
                let after = trim(desc.skip(k + 1));
                Outcome::Parsed(
                    FieldModel {
                        access_flags: flags_of(FlagWords::Field, ts.take(n)),
                        name: trim(desc.take(k)),
                        field_type: match find_text_from(after, " = "@, 0) {
                            Some(j) => trim(after.take(j)),
                            None => trim(after),
                        },
                        initial_value: match find_text_from(after, " = "@, 0) {
                            Some(j) => Some(trim(after.skip(j + " = "@.len()))),
                            None => None,
                        },
                    },
                )
            },
        }
    }
}

fn parse_field(line: &[char], line_num: usize) -> (res: Result<SmaliField, SmaliParseError>)
    ensures
        outcome_is(res, spec_parse_field(line@, line_num), |f: SmaliField| f@),
{
    let stripped = match strip_prefix_chars(line, ".field ") {
        Some(r) => r,
        None => slice_chars(line, 0, line.len()),
    };
    assert(line@.subrange(0, line@.len() as int) =~= line@);
    let rest = trim_chars(stripped.as_slice());
    let ts = tokens_of(rest.as_slice());
    let ghost v = ts@.map_values(|t: Vec<char>| t@);
    let mut flags: u32 = 0;
    let mut n: usize = 0;
    while n < ts.len()
        invariant
            n <= ts@.len(),
            v == ts@.map_values(|t: Vec<char>| t@),
            flag_prefix_end(FlagWords::Field, v, n as int) == flag_prefix_end(FlagWords::Field, v, 0),
            flags == flags_of(FlagWords::Field, v.take(n as int)),
        ensures
            n == flag_prefix_end(FlagWords::Field, v, 0),
            flags == flags_of(FlagWords::Field, v.take(n as int)),
        decreases ts.len() - n,
    {
        match flag_bit_exec(FlagWords::Field, ts[n].as_slice()) {
            None => {
                break;
            },
            Some(b) => {
                proof {
                    assert(v.take(n + 1).drop_last() =~= v.take(n as int));
                    assert(v.take(n + 1).last() == v[n as int]);
                }
                flags = flags | b;
                n += 1;
            },
        }
    }
    let start = if n < ts.len() {
        n
    } else {
        0
    };
    if start >= ts.len() {
        return Err(parse_error_with(line_num, "Invalid field declaration: ", line));
    }
    let mut tail: Vec<Vec<char>> = Vec::new();
    let mut k: usize = start;
    while k < ts.len()
        invariant
            start <= k <= ts@.len(),
            v == ts@.map_values(|t: Vec<char>| t@),
            tail@.map_values(|t: Vec<char>| t@) == v.subrange(start as int, k as int),
        decreases ts.len() - k,
    {
        let ghost before = tail@;
        tail.push(slice_chars(ts[k].as_slice(), 0, ts[k].len()));
        proof {
            assert(ts@[k as int]@.subrange(0, ts@[k as int]@.len() as int) =~= v[k as int]);
            assert(tail@.map_values(|t: Vec<char>| t@) =~= before.map_values(|t: Vec<char>| t@).push(v[k as int]));
            assert(v.subrange(start as int, k + 1) =~= v.subrange(start as int, k as int).push(v[k as int]));
        }
        k += 1;
    }
    assert(v.subrange(start as int, v.len() as int) =~= v.skip(start as int));
    let desc = join_with_spaces(tail.as_slice());
    let colon = match find_char(desc.as_slice(), ':') {
        Some(c) => c,
        None => {
            return Err(parse_error_with(line_num, "Invalid field declaration: ", line));
        },
    };
    let head = slice_chars(desc.as_slice(), 0, colon);
    assert(head@ =~= desc@.take(colon as int));
    let name = trim_chars(head.as_slice());
    let after_raw = slice_chars(desc.as_slice(), colon + 1, desc.len());
    assert(after_raw@ =~= desc@.skip(colon + 1));
    let after = trim_chars(after_raw.as_slice());
    let (field_type, initial_value) = match find_text(after.as_slice(), " = ") {
        Some(j) => {
            let ty = slice_chars(after.as_slice(), 0, j);
            assert(ty@ =~= after@.take(j as int));
            let init = slice_chars(after.as_slice(), j + " = ".unicode_len(), after.len());
            assert(init@ =~= after@.skip(j + " = "@.len()));
            (trim_chars(ty.as_slice()), Some(string_of(trim_chars(init.as_slice()).as_slice())))
        },
        None => (trim_chars(after.as_slice()), None),
    };
    Ok(
        SmaliField {
            access_flags: AccessFlags { bits: flags },
            name: string_of(name.as_slice()),
            field_type: string_of(field_type.as_slice()),
            initial_value,
        },
    )
}


/// A method as a value: its flags as bits, its texts as char sequences, its instructions by
/// their views.
pub struct MethodModel {
    pub access_flags: u32,
    pub name: Seq<char>,
    pub return_type: Seq<char>,
    pub parameter_types: Seq<Seq<char>>,
    pub register_count: u16,
    pub instructions: Seq<InstructionModel>,
}

impl View for SmaliMethod {
    type V = MethodModel;

    open spec fn view(&self) -> MethodModel {
        MethodModel {
            access_flags: self.access_flags.bits,
            name: self.name@,
            return_type: self.return_type@,
            parameter_types: self.parameter_types@.map_values(|t: String| t@),
            register_count: self.register_count,
            instructions: self.instructions@.map_values(|i: SmaliInstruction| i@),
        }
    }
}

/// The register count that `.locals n` or `.registers n` sets: `n` where it is a `u16`, else
/// `count` unchanged.
pub open spec fn register_count_of(rest: Seq<char>, count: u16) -> u16 {
    match parse_int(trim(rest), false, 0, 65535) {
        Some(v) => v as u16,
        None => count,
    }
}

/// The body of a method from line `j`, with the register count and the instructions read so
/// far: it ends at `.end method` or at the end of the text; blank lines, comments and other
/// directives are skipped.
pub open spec fn body_from(ls: Seq<Seq<char>>, j: int, count: u16, instrs: Seq<InstructionModel>) -> Outcome<(u16, Seq<InstructionModel>)>
    decreases ls.len() - j,
{
    if j < 0 || j >= ls.len() {
        Outcome::Parsed((count, instrs))
    } else {
        let line = trim(ls[j]);
        if line == ".end method"@ {
            Outcome::Parsed((count, instrs))
        } else if line.len() == 0 || starts_with_char(line, '#') {
            body_from(ls, j + 1, count, instrs)
        } else if has_prefix(line, ".locals "@) {
            body_from(ls, j + 1, register_count_of(strip_prefix(line, ".locals "@).unwrap(), count), instrs)
        } else if has_prefix(line, ".registers "@) {
            body_from(ls, j + 1, register_count_of(strip_prefix(line, ".registers "@).unwrap(), count), instrs)
        } else if starts_with_char(line, '.') {
            body_from(ls, j + 1, count, instrs)
        } else {
            match spec_parse_instruction(line, j as usize) {
                Outcome::Parsed(Some(i)) => body_from(ls, j + 1, count, instrs.push(i)),
                Outcome::Parsed(None) => body_from(ls, j + 1, count, instrs),
                Outcome::Failed(l, m) => Outcome::Failed(l, m),
                Outcome::Panics => Outcome::Panics,
            }
        }
    }
}

/// The line of the first `.end method` from line `j`, or `start` where there is none.
pub open spec fn end_from(ls: Seq<Seq<char>>, j: int, start: int) -> int
    decreases ls.len() - j,
{
    if j < 0 || j >= ls.len() {
        start
    } else if trim(ls[j]) == ".end method"@ {
        j
    } else {
        end_from(ls, j + 1, start)
    }
}

/// The line that ends the method that starts at line `start`.
pub open spec fn method_end(ls: Seq<Seq<char>>, start: int) -> int {
    end_from(ls, start + 1, start)
}

pub proof fn lemma_end_from(ls: Seq<Seq<char>>, j: int, start: int)
    requires
        0 <= j,
    ensures
        end_from(ls, j, start) == start || j <= end_from(ls, j, start) < ls.len(),
    decreases ls.len() - j,
{
    if j < ls.len() && trim(ls[j]) != ".end method"@ {
        lemma_end_from(ls, j + 1, start);
    }
}

/// The method whose `.method` line is line `start` of `ls`.
pub open spec fn spec_parse_method(ls: Seq<Seq<char>>, start: int) -> Outcome<MethodModel> {
    let header = trim(ls[start]);
    let rest = trim(
        match strip_prefix(header, ".method "@) {
            Some(r) => r,
            None => header,
        },
    );
    let ts = tokens(rest);
    and_then(
        spec_method_signature(last_signature(ts)),
        |sig: (Seq<char>, Seq<char>, Seq<Seq<char>>)|
            and_then(
                body_from(ls, start + 1, 0, Seq::empty()),
                |body: (u16, Seq<InstructionModel>)|
                    Outcome::Parsed(
                        MethodModel {
                            access_flags: flags_of(FlagWords::Method, ts),
                            name: sig.0,
                            return_type: sig.1,
                            parameter_types: sig.2,
                            register_count: body.0,
                            instructions: body.1,
                        },
                    ),
            ),
    )
}

fn register_count_exec(rest: &[char], count: u16) -> (res: u16)
    ensures
        res == register_count_of(rest@, count),
{
    let t = trim_chars(rest);
    match parse_int_chars(t.as_slice(), false, 0, 65535) {
        Some(v) => v as u16,
        None => count,
    }
}

fn parse_method(lines: &Vec<Vec<char>>, start: usize) -> (res: Result<(SmaliMethod, usize), SmaliParseError>)
    requires
        start < lines@.len(),
        !(spec_parse_method(lines@.map_values(|l: Vec<char>| l@), start as int) is Panics),
    ensures
        outcome_is(
            res,
            spec_parse_method(lines@.map_values(|l: Vec<char>| l@), start as int),
            |v: (SmaliMethod, usize)| v.0@,
        ),
        res matches Ok(v) ==> v.1 == method_end(lines@.map_values(|l: Vec<char>| l@), start as int),
{
    let ghost ls = lines@.map_values(|l: Vec<char>| l@);
    assert(lines@[start as int]@ == ls[start as int]);
    let header = trim_chars(lines[start].as_slice());
    let stripped = match strip_prefix_chars(header.as_slice(), ".method ") {
        Some(r) => r,
        None => slice_chars(header.as_slice(), 0, header.len()),
    };
    assert(header@.subrange(0, header@.len() as int) =~= header@);
    let rest = trim_chars(stripped.as_slice());
    let ts = tokens_of(rest.as_slice());
    let (flags, _descriptor, signature) = scan_header(FlagWords::Method, &ts);
    let (name, return_type, params) = match method_signature_chars(signature.as_slice()) {
        Ok(v) => v,
        Err(e) => {
            return Err(e);
        },
    };
    let mut method = SmaliMethod {
        access_flags: AccessFlags { bits: flags },
        name: string_of(name.as_slice()),
        return_type: string_of(return_type.as_slice()),
        parameter_types: strings_of(&params),
        register_count: 0,
        instructions: Vec::new(),
    };
    assert(method.instructions@.map_values(|i: SmaliInstruction| i@) =~= Seq::<InstructionModel>::empty());
    let n = lines.len();
    let mut j: usize = start + 1;
    while j < lines.len()
        invariant
            start < j <= lines@.len(),
            ls == lines@.map_values(|l: Vec<char>| l@),
            body_from(ls, j as int, method.register_count, method.instructions@.map_values(|i: SmaliInstruction| i@))
                == body_from(ls, start + 1, 0, Seq::empty()),
            end_from(ls, j as int, start as int) == method_end(ls, start as int),
            !(body_from(ls, start + 1, 0, Seq::empty()) is Panics),
            method.access_flags.bits == flags_of(FlagWords::Method, tokens(rest@)),
            tokens(rest@) == ts@.map_values(|t: Vec<char>| t@),
            spec_method_signature(last_signature(tokens(rest@))) == Outcome::Parsed((method.name@, method.return_type@, method.parameter_types@.map_values(|t: String| t@))),
            spec_parse_method(ls, start as int) == and_then(
                body_from(ls, start + 1, 0, Seq::empty()),
                |body: (u16, Seq<InstructionModel>)|
                    Outcome::Parsed(
                        MethodModel {
                            access_flags: flags_of(FlagWords::Method, tokens(rest@)),
                            name: method.name@,
                            return_type: method.return_type@,
                            parameter_types: method.parameter_types@.map_values(|t: String| t@),
                            register_count: body.0,
                            instructions: body.1,
                        },
                    ),
            ),
        decreases lines.len() - j,
    {
        let ghost instrs = method.instructions@.map_values(|i: SmaliInstruction| i@);
        assert(lines@[j as int]@ == ls[j as int]);
        let line = trim_chars(lines[j].as_slice());
        if equals(line.as_slice(), ".end method") {
            return Ok((method, j));
        }
        if line.len() == 0 || line[0] == '#' {
            j += 1;
            continue;
        }
        if let Some(rest) = strip_prefix_chars(line.as_slice(), ".locals ") {
            method.register_count = register_count_exec(rest.as_slice(), method.register_count);
            j += 1;
            continue;
        }
        if let Some(rest) = strip_prefix_chars(line.as_slice(), ".registers ") {
            method.register_count = register_count_exec(rest.as_slice(), method.register_count);
            j += 1;
            continue;
        }
        if line[0] == '.' {
            j += 1;
            continue;
        }
        match parse_instruction(line.as_slice(), j) {
            Ok(Some(instr)) => {
                method.instructions.push(instr);
                assert(method.instructions@.map_values(|i: SmaliInstruction| i@) =~= instrs.push(instr@));
            },
            Ok(None) => {},
            Err(e) => {
                return Err(e);
            },
        }
        j += 1;
    }
    Ok((method, start))
}

/// A class as a value: its flags as bits, its texts as char sequences, its members by their
/// views.
pub struct ClassModel {
    pub access_flags: u32,
    pub type_descriptor: Seq<char>,
    pub superclass: Option<Seq<char>>,
    pub interfaces: Seq<Seq<char>>,
    pub source_file: Option<Seq<char>>,
    pub methods: Seq<MethodModel>,
    pub fields: Seq<FieldModel>,
}

impl View for SmaliClass {
    type V = ClassModel;

    open spec fn view(&self) -> ClassModel {
        ClassModel {
            access_flags: self.access_flags.bits,
            type_descriptor: self.type_descriptor@,
            superclass: match self.superclass {
                Some(v) => Some(v@),
                None => None,
            },
            interfaces: self.interfaces@.map_values(|t: String| t@),
            source_file: match self.source_file {
                Some(v) => Some(v@),
                None => None,
            },
            methods: self.methods@.map_values(|m: SmaliMethod| m@),
            fields: self.fields@.map_values(|f: SmaliField| f@),
        }
    }
}

/// The class before any line is read.
pub open spec fn empty_class() -> ClassModel {
    ClassModel {
        access_flags: 0,
        type_descriptor: Seq::empty(),
        superclass: None,
        interfaces: Seq::empty(),
        source_file: None,
        methods: Seq::empty(),
        fields: Seq::empty(),
    }
}

/// The class `c` read so far, once lines `i..` of `ls` are read: `.class` sets the flags and the
/// descriptor, `.super` the superclass, `.implements` adds an interface, `.source` sets the
/// source file (without quotes), `.method` reads a method up to its `.end method`, `.field`
/// reads a field; blank lines, comments and other lines are skipped.
pub open spec fn class_from(ls: Seq<Seq<char>>, i: int, c: ClassModel) -> Outcome<ClassModel>
    decreases ls.len() - i,
{
    if i < 0 || i >= ls.len() {
        Outcome::Parsed(c)
    } else {
        let line = trim(ls[i]);
        if line.len() == 0 || starts_with_char(line, '#') {
            class_from(ls, i + 1, c)
        } else if has_prefix(line, ".class "@) {
            let ts = tokens(trim(strip_prefix(line, ".class "@).unwrap()));
            class_from(
                ls,
                i + 1,
                ClassModel {
                    access_flags: flags_of(FlagWords::Class, ts),
                    type_descriptor: last_descriptor(ts),
                    superclass: c.superclass,
                    interfaces: c.interfaces,
                    source_file: c.source_file,
                    methods: c.methods,
                    fields: c.fields,
                },
            )
        } else if has_prefix(line, ".super "@) {
            class_from(
                ls,
                i + 1,
                ClassModel {
                    access_flags: c.access_flags,
                    type_descriptor: c.type_descriptor,
                    superclass: Some(trim(strip_prefix(line, ".super "@).unwrap())),
                    interfaces: c.interfaces,
                    source_file: c.source_file,
                    methods: c.methods,
                    fields: c.fields,
                },
            )
        } else if has_prefix(line, ".implements "@) {
            class_from(
                ls,
                i + 1,
                ClassModel {
                    access_flags: c.access_flags,
                    type_descriptor: c.type_descriptor,
                    superclass: c.superclass,
                    interfaces: c.interfaces.push(trim(strip_prefix(line, ".implements "@).unwrap())),
                    source_file: c.source_file,
                    methods: c.methods,
                    fields: c.fields,
                },
            )
        } else if has_prefix(line, ".source "@) {
            class_from(
                ls,
                i + 1,
                ClassModel {
                    access_flags: c.access_flags,
                    type_descriptor: c.type_descriptor,
                    superclass: c.superclass,
                    interfaces: c.interfaces,
                    source_file: Some(trim_char(trim(strip_prefix(line, ".source "@).unwrap()), '"')),
                    methods: c.methods,
                    fields: c.fields,
                },
            )
        } else if has_prefix(line, ".method "@) {
            proof {
                lemma_end_from(ls, i + 1, i);
            }
            match spec_parse_method(ls, i) {
                Outcome::Parsed(m) => class_from(
                    ls,
                    method_end(ls, i) + 1,
                    ClassModel {
                        access_flags: c.access_flags,
                        type_descriptor: c.type_descriptor,
                        superclass: c.superclass,
                        interfaces: c.interfaces,
                        source_file: c.source_file,
                        methods: c.methods.push(m),
                        fields: c.fields,
                    },
                ),
                Outcome::Failed(l, m) => Outcome::Failed(l, m),
                Outcome::Panics => Outcome::Panics,
            }
        } else if has_prefix(line, ".field "@) {
            match spec_parse_field(line, i as usize) {
                Outcome::Parsed(f) => class_from(
                    ls,
                    i + 1,
                    ClassModel {
                        access_flags: c.access_flags,
                        type_descriptor: c.type_descriptor,
                        superclass: c.superclass,
                        interfaces: c.interfaces,
                        source_file: c.source_file,
                        methods: c.methods,
                        fields: c.fields.push(f),
                    },
                ),
                Outcome::Failed(l, m) => Outcome::Failed(l, m),
                Outcome::Panics => Outcome::Panics,
            }
        } else {
            class_from(ls, i + 1, c)
        }
    }
}

/// The class that the smali text `text` describes.
pub open spec fn spec_parse_smali(text: Seq<char>) -> Outcome<ClassModel> {
    class_from(text_lines(text), 0, empty_class())
}


/// Reads the smali text of one class.
pub fn parse_smali(text: &str) -> (res: Result<SmaliClass, SmaliParseError>)
    requires
        !(spec_parse_smali(text@) is Panics),
    ensures
        outcome_is(res, spec_parse_smali(text@), |c: SmaliClass| c@),
{
    let cs = chars_of(text);
    let lines = lines_of(cs.as_slice());
    let ghost ls = lines@.map_values(|l: Vec<char>| l@);
    let mut class = SmaliClass {
        access_flags: AccessFlags::empty(),
        type_descriptor: String::new(),
        superclass: None,
        interfaces: Vec::new(),
        source_file: None,
        methods: Vec::new(),
        fields: Vec::new(),
    };
    assert(class@.type_descriptor =~= Seq::<char>::empty());
    assert(class@.interfaces =~= Seq::<Seq<char>>::empty());
    assert(class@.methods =~= Seq::<MethodModel>::empty());
    assert(class@.fields =~= Seq::<FieldModel>::empty());
    assert(class@ == empty_class());
    let mut i: usize = 0;
    while i < lines.len()
        invariant
            i <= lines@.len(),
            ls == lines@.map_values(|l: Vec<char>| l@),
            ls == text_lines(text@),
            class_from(ls, i as int, class@) == spec_parse_smali(text@),
            !(spec_parse_smali(text@) is Panics),
        decreases lines.len() - i,
    {
        let ghost before = class@;
        assert(lines@[i as int]@ == ls[i as int]);
        let line = trim_chars(lines[i].as_slice());
        if line.len() == 0 || line[0] == '#' {
            i += 1;
            continue;
        }
        if let Some(rest) = strip_prefix_chars(line.as_slice(), ".class ") {
            let ts = tokens_of(trim_chars(rest.as_slice()).as_slice());
            let (flags, descriptor, _signature) = scan_header(FlagWords::Class, &ts);
            class.access_flags = AccessFlags { bits: flags };
            class.type_descriptor = string_of(descriptor.as_slice());
        } else if let Some(rest) = strip_prefix_chars(line.as_slice(), ".super ") {
            class.superclass = Some(string_of(trim_chars(rest.as_slice()).as_slice()));
        } else if let Some(rest) = strip_prefix_chars(line.as_slice(), ".implements ") {
            class.interfaces.push(string_of(trim_chars(rest.as_slice()).as_slice()));
            assert(class@.interfaces =~= before.interfaces.push(trim(rest@)));
        } else if let Some(rest) = strip_prefix_chars(line.as_slice(), ".source ") {
            let t = trim_chars(rest.as_slice());
            class.source_file = Some(string_of(trim_char_chars(t.as_slice(), '"').as_slice()));
        } else if starts_with(line.as_slice(), ".method ") {
            proof {
                lemma_end_from(ls, i + 1, i as int);
            }
            match parse_method(&lines, i) {
                Ok((method, end_idx)) => {
                    class.methods.push(method);
                    assert(class@.methods =~= before.methods.push(method@));
                    i = end_idx;
                },
                Err(e) => {
                    return Err(e);
                },
            }
        } else if starts_with(line.as_slice(), ".field ") {
            match parse_field(line.as_slice(), i) {
                Ok(field) => {
                    class.fields.push(field);
                    assert(class@.fields =~= before.fields.push(field@));
                },
                Err(e) => {
                    return Err(e);
                },
            }
        }
        i += 1;
    }
    Ok(class)
}

} // verus!
