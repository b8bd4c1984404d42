//! The stack-command parser: normalizes raw program-unit text into an
//! ordered list of command lines and classifies each line into the closed
//! command set by its first two characters, extracting operands from its
//! whitespace-separated tokens.

use crate::text::{
    clean_vm_line, clean_vm_line_of, dec_literal_val, is_dec_literal, lines_of, parse_usize,
    split_lines, str_eq, strip_comment, strip_comment_of, tokens, tokens_of,
};
use vstd::prelude::*;

verus! {

/// The eight memory segments of the command set.
#[derive(Debug, PartialEq, Eq, Structural, Clone, Copy)]
pub enum Segment {
    Local,
    Argument,
    Static,
    Constant,
    Temp,
    Pointer,
    This,
    That,
}

/// The nine arithmetic and logical operations of the command set.
#[derive(Debug, PartialEq, Eq, Structural, Clone, Copy)]
pub enum Op {
    Add,
    Subtract,
    Negate,
    Equal,
    GreaterThan,
    LessThan,
    And,
    Or,
    Not,
}

/// One parsed stack command.
#[derive(Debug, PartialEq)]
pub enum Command {
    Arithmetic(Op),
    Push(Segment, usize),
    Pop(Segment, usize),
    Label(String),
    Goto(String),
    IfGoto(String),
    Call(String, usize),
    Function(String, usize),
    Return,
}

/// The mathematical form of a parsed command: names as character sequences,
/// operands as unbounded numbers.
pub enum CommandModel {
    Arithmetic(Op),
    Push(Segment, nat),
    Pop(Segment, nat),
    Label(Seq<char>),
    Goto(Seq<char>),
    IfGoto(Seq<char>),
    Call(Seq<char>, nat),
    Function(Seq<char>, nat),
    Return,
}

impl View for Command {
    type V = CommandModel;

    open spec fn view(&self) -> CommandModel {
        match self {
            Command::Arithmetic(op) => CommandModel::Arithmetic(*op),
            Command::Push(seg, i) => CommandModel::Push(*seg, *i as nat),
            Command::Pop(seg, i) => CommandModel::Pop(*seg, *i as nat),
            Command::Label(s) => CommandModel::Label(s@),
            Command::Goto(s) => CommandModel::Goto(s@),
            Command::IfGoto(s) => CommandModel::IfGoto(s@),
            Command::Call(s, i) => CommandModel::Call(s@, *i as nat),
            Command::Function(s, i) => CommandModel::Function(s@, *i as nat),
            Command::Return => CommandModel::Return,
        }
    }
}

/// One raw source line as the normalizer leaves it: comment removed, edge
/// spaces trimmed, interior runs of spaces collapsed.
pub open spec fn vm_clean_line(l: Seq<char>) -> Seq<char> {
    clean_vm_line(strip_comment(l))
}

/// Cleans every line and keeps the nonempty ones, in order.
pub open spec fn vm_normalize_lines(ls: Seq<Seq<char>>) -> Seq<Seq<char>>
    decreases ls.len(),
{
    if ls.len() == 0 {
        Seq::empty()
    } else if vm_clean_line(ls[0]).len() == 0 {
        vm_normalize_lines(ls.drop_first())
    } else {
        seq![vm_clean_line(ls[0])] + vm_normalize_lines(ls.drop_first())
    }
}

/// The normalized command lines of a program unit's raw text.
pub open spec fn vm_normalize(src: Seq<char>) -> Seq<Seq<char>> {
    vm_normalize_lines(split_lines(src))
}

/// The arithmetic or logical operation named by a whole line.
pub open spec fn op_of(l: Seq<char>) -> Option<Op> {
    if l == "add"@ {
        Some(Op::Add)
    } else if l == "sub"@ {
        Some(Op::Subtract)
    } else if l == "neg"@ {
        Some(Op::Negate)
    } else if l == "eq"@ {
        Some(Op::Equal)
    } else if l == "gt"@ {
        Some(Op::GreaterThan)
    } else if l == "lt"@ {
        Some(Op::LessThan)
    } else if l == "and"@ {
        Some(Op::And)
    } else if l == "or"@ {
        Some(Op::Or)
    } else if l == "not"@ {
        Some(Op::Not)
    } else {
        None
    }
}

/// The memory segment named by a token.
pub open spec fn segment_of(t: Seq<char>) -> Option<Segment> {
    if t == "local"@ {
        Some(Segment::Local)
    } else if t == "argument"@ {
        Some(Segment::Argument)
    } else if t == "static"@ {
        Some(Segment::Static)
    } else if t == "constant"@ {
        Some(Segment::Constant)
    } else if t == "temp"@ {
        Some(Segment::Temp)
    } else if t == "pointer"@ {
        Some(Segment::Pointer)
    } else if t == "this"@ {
        Some(Segment::This)
    } else if t == "that"@ {
        Some(Segment::That)
    } else {
        None
    }
}

/// A token read as an operand index: a decimal literal whose value fits the
/// machine word for indexes.
pub open spec fn index_of_token(t: Seq<char>) -> Option<nat> {
    if is_dec_literal(t) && dec_literal_val(t) <= usize::MAX {
        Some(dec_literal_val(t))
    } else {
        None
    }
}

/// One normalized line classified by its first two characters and split at
/// whitespace into operands. A line with no valid reading is a fatal parse
/// error and has no command.
pub open spec fn vm_parse(l: Seq<char>) -> Option<CommandModel> {
    if l.len() < 2 {
        None
    } else {
        let toks = tokens(l);
        if l[0] == 'p' && l[1] == 'u' {
            if toks.len() >= 3 && segment_of(toks[1]) is Some && index_of_token(toks[2]) is Some {
                Some(CommandModel::Push(segment_of(toks[1])->Some_0, index_of_token(toks[2])->Some_0))
            } else {
                None
            }
        } else if l[0] == 'p' && l[1] == 'o' {
            if toks.len() >= 3 && segment_of(toks[1]) is Some && index_of_token(toks[2]) is Some {
                Some(CommandModel::Pop(segment_of(toks[1])->Some_0, index_of_token(toks[2])->Some_0))
            } else {
                None
            }
        } else if l[0] == 'l' && l[1] == 'a' {
            if toks.len() >= 2 {
                Some(CommandModel::Label(toks[1]))
            } else {
                None
            }
        } else if l[0] == 'g' && l[1] == 'o' {
            if toks.len() >= 2 {
                Some(CommandModel::Goto(toks[1]))
            } else {
                None
            }
        } else if l[0] == 'i' && l[1] == 'f' {
            if toks.len() >= 2 {
                Some(CommandModel::IfGoto(toks[1]))
            } else {
                None
            }
        } else if l[0] == 'c' && l[1] == 'a' {
            if toks.len() >= 3 && index_of_token(toks[2]) is Some {
                Some(CommandModel::Call(toks[1], index_of_token(toks[2])->Some_0))
            } else {
                None
            }
        } else if l[0] == 'f' && l[1] == 'u' {
            if toks.len() >= 3 && index_of_token(toks[2]) is Some {
                Some(CommandModel::Function(toks[1], index_of_token(toks[2])->Some_0))
            } else {
                None
            }
        } else if l[0] == 'r' && l[1] == 'e' {
            Some(CommandModel::Return)
        } else {
            match op_of(l) {
                Some(op) => Some(CommandModel::Arithmetic(op)),
                None => None,
            }
        }
    }
}

/// Whether a token names a segment.
pub fn segment_token_ok(t: &str) -> (r: bool)
    ensures
        r == (segment_of(t@) is Some),
{
    str_eq(t, "local") || str_eq(t, "argument") || str_eq(t, "static") || str_eq(t, "constant")
        || str_eq(t, "temp") || str_eq(t, "pointer") || str_eq(t, "this") || str_eq(t, "that")
}

/// Only the keyword `constant` selects the constant segment.
proof fn lemma_constant_token(t: Seq<char>)
    ensures
        segment_of(t) == Some(Segment::Constant) <==> t == "constant"@,
{
    reveal_strlit("local");
    reveal_strlit("argument");
    reveal_strlit("static");
    reveal_strlit("constant");
    assert("local"@ =~= seq!['l', 'o', 'c', 'a', 'l']);
    assert("argument"@ =~= seq!['a', 'r', 'g', 'u', 'm', 'e', 'n', 't']);
    assert("static"@ =~= seq!['s', 't', 'a', 't', 'i', 'c']);
    assert("constant"@ =~= seq!['c', 'o', 'n', 's', 't', 'a', 'n', 't']);
}

/// Whether a normalized line is a command the code generator accepts: it
/// parses, and it is not a pop into the constant segment, which has no slot
/// to write back to.
pub fn line_ok(line: &str) -> (r: bool)
    ensures
        r == (vm_parse(line@) is Some && !(vm_parse(line@)->Some_0 matches CommandModel::Pop(
            Segment::Constant,
            _,
        ))),
{
    let n = line.unicode_len();
    if n < 2 {
        return false;
    }
    let c0 = line.get_char(0);
    let c1 = line.get_char(1);
    let toks = tokens_of(line);
    if c0 == 'p' && c1 == 'u' {
        toks.len() >= 3 && segment_token_ok(toks[1].as_str()) && parse_usize(
            toks[2].as_str(),
        ).is_some()
    } else if c0 == 'p' && c1 == 'o' {
        proof {
            if tokens(line@).len() >= 2 {
                lemma_constant_token(tokens(line@)[1]);
            }
        }
        toks.len() >= 3 && segment_token_ok(toks[1].as_str()) && parse_usize(
            toks[2].as_str(),
        ).is_some() && !str_eq(toks[1].as_str(), "constant")
    } else if (c0 == 'l' && c1 == 'a') || (c0 == 'g' && c1 == 'o') || (c0 == 'i' && c1 == 'f') {
        toks.len() >= 2
    } else if (c0 == 'c' && c1 == 'a') || (c0 == 'f' && c1 == 'u') {
        toks.len() >= 3 && parse_usize(toks[2].as_str()).is_some()
    } else if c0 == 'r' && c1 == 'e' {
        true
    } else {
        str_eq(line, "add") || str_eq(line, "sub") || str_eq(line, "neg") || str_eq(line, "eq")
            || str_eq(line, "gt") || str_eq(line, "lt") || str_eq(line, "and") || str_eq(
            line,
            "or",
        ) || str_eq(line, "not")
    }
}

pub struct Parser {
    current_line: usize,
    program: Vec<String>,
}

impl Parser {
    /// The normalized command lines held.
    pub closed spec fn lines(&self) -> Seq<Seq<char>> {
        self.program.deep_view()
    }

    /// The index of the line the parser stands on.
    pub closed spec fn cursor(&self) -> nat {
        self.current_line as nat
    }

    /// Builds a parser over one program unit's raw text.
    pub fn new(file_contents: String) -> (p: Parser)
        ensures
            p.lines() == vm_normalize(file_contents@),
            p.cursor() == 0,
    {
        let program = Parser::normalize_program(file_contents);
        Parser { current_line: 0, program }
    }

    /// Strips comments, trims and collapses spaces on every raw line, and
    /// drops the lines left empty.
    pub fn normalize_program(file_contents: String) -> (r: Vec<String>)
        ensures
            r.deep_view() == vm_normalize(file_contents@),
    {
        let ls = lines_of(file_contents.as_str());
        let ghost all = ls.deep_view();
        let mut out: Vec<String> = Vec::new();
        let mut i: usize = 0;
        proof {
            assert(all.skip(0) =~= all);
            assert(out.deep_view() =~= Seq::<Seq<char>>::empty());
            assert(Seq::<Seq<char>>::empty() + vm_normalize_lines(all) =~= vm_normalize_lines(
                all,
            ));
        }
        while i < ls.len()
            invariant
                all == ls.deep_view(),
                i <= ls.len(),
                out.deep_view() + vm_normalize_lines(all.skip(i as int)) == vm_normalize_lines(
                    all,
                ),
            decreases ls.len() - i,
        {
            proof {
                assert(all.skip(i as int)[0] == all[i as int]);
                assert(all.skip(i as int).drop_first() =~= all.skip(i as int + 1));
            }
            let stripped = strip_comment_of(ls[i].as_str());
            let cleaned = clean_vm_line_of(stripped.as_str());
            if cleaned.as_str().unicode_len() > 0 {
                let ghost prev_out = out.deep_view();
                let ghost line = cleaned@;
                out.push(cleaned);
                proof {
                    assert(out.deep_view() =~= prev_out.push(line));
                    assert(prev_out + (seq![line] + vm_normalize_lines(all.skip(i as int + 1)))
                        =~= out.deep_view() + vm_normalize_lines(all.skip(i as int + 1)));
                }
            }
            i = i + 1;
        }
        proof {
            assert(all.skip(ls.len() as int) =~= Seq::<Seq<char>>::empty());
            assert(out.deep_view() + Seq::<Seq<char>>::empty() =~= out.deep_view());
        }
        out
    }

    /// The normalized lines.
    pub fn get_program(&self) -> (r: &Vec<String>)
        ensures
            r.deep_view() == self.lines(),
    {
        &self.program
    }

    /// Whether a line remains under the cursor.
    pub fn has_more_commands(&self) -> (r: bool)
        ensures
            r == (self.cursor() < self.lines().len()),
    {
        self.current_line < self.program.len()
    }

    /// Moves the cursor one line forward, stopping at the end.
    pub fn advance(&mut self)
        ensures
            final(self).lines() == old(self).lines(),
            final(self).cursor() == if old(self).cursor() < old(self).lines().len() {
                old(self).cursor() + 1
            } else {
                old(self).cursor()
            },
    {
        if self.current_line < self.program.len() {
            self.current_line = self.current_line + 1;
        }
    }

    /// The arithmetic or logical operation named by the line under the
    /// cursor, which must be one of the nine of the closed table.
    pub fn get_op(&self) -> (op: Op)
        requires
            self.cursor() < self.lines().len(),
            op_of(self.lines()[self.cursor() as int]) is Some,
        ensures
            op == op_of(self.lines()[self.cursor() as int])->Some_0,
    {
        let command = self.program[self.current_line].as_str();
        if str_eq(command, "add") {
            Op::Add
        } else if str_eq(command, "sub") {
            Op::Subtract
        } else if str_eq(command, "neg") {
            Op::Negate
        } else if str_eq(command, "eq") {
            Op::Equal
        } else if str_eq(command, "gt") {
            Op::GreaterThan
        } else if str_eq(command, "lt") {
            Op::LessThan
        } else if str_eq(command, "and") {
            Op::And
        } else if str_eq(command, "or") {
            Op::Or
        } else if str_eq(command, "not") {
            Op::Not
        } else {
            unreached()
        }
    }

    /// The segment keyword of the line under the cursor, its second token,
    /// which must name one of the eight segments.
    pub fn get_segment(&self) -> (seg: Segment)
        requires
            self.cursor() < self.lines().len(),
            tokens(self.lines()[self.cursor() as int]).len() >= 2,
            segment_of(tokens(self.lines()[self.cursor() as int])[1]) is Some,
        ensures
            seg == segment_of(tokens(self.lines()[self.cursor() as int])[1])->Some_0,
    {
        let toks = tokens_of(self.program[self.current_line].as_str());
        let segment = toks[1].as_str();
        if str_eq(segment, "local") {
            Segment::Local
        } else if str_eq(segment, "argument") {
            Segment::Argument
        } else if str_eq(segment, "static") {
            Segment::Static
        } else if str_eq(segment, "constant") {
            Segment::Constant
        } else if str_eq(segment, "temp") {
            Segment::Temp
        } else if str_eq(segment, "pointer") {
            Segment::Pointer
        } else if str_eq(segment, "this") {
            Segment::This
        } else if str_eq(segment, "that") {
            Segment::That
        } else {
            unreached()
        }
    }

    /// The index operand of the line under the cursor, its third token,
    /// which must be a decimal literal that fits the machine word.
    pub fn get_index(&self) -> (index: usize)
        requires
            self.cursor() < self.lines().len(),
            tokens(self.lines()[self.cursor() as int]).len() >= 3,
            index_of_token(tokens(self.lines()[self.cursor() as int])[2]) is Some,
        ensures
            index as nat == index_of_token(tokens(self.lines()[self.cursor() as int])[2])->Some_0,
    {
        let toks = tokens_of(self.program[self.current_line].as_str());
        match parse_usize(toks[2].as_str()) {
            Some(value) => value,
            None => unreached(),
        }
    }

    /// The name operand of the line under the cursor, its second token.
    pub fn get_label(&self) -> (label: String)
        requires
            self.cursor() < self.lines().len(),
            tokens(self.lines()[self.cursor() as int]).len() >= 2,
        ensures
            label@ == tokens(self.lines()[self.cursor() as int])[1],
    {
        let mut toks = tokens_of(self.program[self.current_line].as_str());
        toks.remove(1)
    }

    /// Parses the line under the cursor into its command. The line must have
    /// a valid reading in the closed command set.
    pub fn parse_command(&self) -> (c: Command)
        requires
            self.cursor() < self.lines().len(),
            vm_parse(self.lines()[self.cursor() as int]) is Some,
        ensures
            c@ == vm_parse(self.lines()[self.cursor() as int])->Some_0,
    {
        let command = self.program[self.current_line].as_str();
        let c0 = command.get_char(0);
        let c1 = command.get_char(1);
        if c0 == 'p' && c1 == 'u' {
            Command::Push(self.get_segment(), self.get_index())
        } else if c0 == 'p' && c1 == 'o' {
            Command::Pop(self.get_segment(), self.get_index())
        } else if c0 == 'l' && c1 == 'a' {
            Command::Label(self.get_label())
        } else if c0 == 'g' && c1 == 'o' {
            Command::Goto(self.get_label())
        } else if c0 == 'i' && c1 == 'f' {
            Command::IfGoto(self.get_label())
        } else if c0 == 'c' && c1 == 'a' {
            Command::Call(self.get_label(), self.get_index())
        } else if c0 == 'f' && c1 == 'u' {
            Command::Function(self.get_label(), self.get_index())
        } else if c0 == 'r' && c1 == 'e' {
            Command::Return
        } else {
            Command::Arithmetic(self.get_op())
        }
    }
}

} // verus!
