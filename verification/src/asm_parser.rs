//! The assembly-stage parser: normalizes raw source into an ordered list of
//! instruction lines, classifies each line, and splits computation
//! instructions into their destination, computation and jump fields.

use crate::text::{
    char_index, char_index_of, split_lines, strip_comment, strip_comment_of, strip_spaces,
    strip_spaces_of, lines_of,
};
use vstd::prelude::*;

verus! {

/// The fields of one computation instruction line.
#[derive(Debug, PartialEq)]
pub struct Command {
    pub dest: String,
    pub comp: String,
    pub jump: String,
}

/// The three classes of normalized lines: an address instruction, a label
/// definition (which binds a jump target), and a computation instruction.
#[derive(Debug, PartialEq, Eq, Structural)]
pub enum CommandType {
    Address,
    Jump,
    Computation,
}

/// One raw source line as the normalizer leaves it: the first `//` and
/// everything after it removed, then every whitespace character removed.
pub open spec fn asm_clean_line(l: Seq<char>) -> Seq<char> {
    strip_spaces(strip_comment(l))
}

/// Cleans every line and keeps the nonempty ones, in order.
pub open spec fn asm_normalize_lines(ls: Seq<Seq<char>>) -> Seq<Seq<char>>
    decreases ls.len(),
{
    if ls.len() == 0 {
        Seq::empty()
    } else if asm_clean_line(ls[0]).len() == 0 {
        asm_normalize_lines(ls.drop_first())
    } else {
        seq![asm_clean_line(ls[0])] + asm_normalize_lines(ls.drop_first())
    }
}

/// The normalized program held by a parser built over `src`.
pub open spec fn asm_normalize(src: Seq<char>) -> Seq<Seq<char>> {
    asm_normalize_lines(split_lines(src))
}

/// The class of a nonempty normalized line, read off its first character.
pub open spec fn line_kind(l: Seq<char>) -> CommandType
    recommends
        l.len() > 0,
{
    if l[0] == '@' {
        CommandType::Address
    } else if l[0] == '(' {
        CommandType::Jump
    } else {
        CommandType::Computation
    }
}

/// The symbol carried by a line: the operand after `@` for an address
/// instruction, the name between the parentheses for a label definition,
/// and the whole line otherwise.
pub open spec fn symbol_of(l: Seq<char>) -> Seq<char>
    recommends
        l.len() > 0,
        line_kind(l) is Jump ==> l.len() >= 2,
{
    match line_kind(l) {
        CommandType::Address => l.skip(1),
        CommandType::Jump => l.subrange(1, l.len() - 1),
        CommandType::Computation => l,
    }
}

/// A computation line split at its first `=` and first `;` into destination,
/// computation and jump fields, either delimiter optional. A line whose
/// first `;` comes before its first `=` has no valid split.
pub open spec fn split_computation(l: Seq<char>) -> Option<(Seq<char>, Seq<char>, Seq<char>)> {
    let i = char_index(l, '=');
    let j = char_index(l, ';');
    if i < l.len() && j < l.len() {
        if i < j {
            Some((l.subrange(0, i), l.subrange(i + 1, j), l.subrange(j + 1, l.len() as int)))
        } else {
            None
        }
    } else if i < l.len() {
        Some((l.subrange(0, i), l.subrange(i + 1, l.len() as int), Seq::empty()))
    } else if j < l.len() {
        Some((Seq::empty(), l.subrange(0, j), l.subrange(j + 1, l.len() as int)))
    } else {
        Some((Seq::empty(), l, Seq::empty()))
    }
}

pub struct Parser {
    current_line: usize,
    program: Vec<String>,
}

impl Parser {
    /// The normalized instruction lines held.
    pub closed spec fn lines(&self) -> Seq<Seq<char>> {
        self.program.deep_view()
    }

    /// The index of the line the parser stands on.
    pub closed spec fn cursor(&self) -> nat {
        self.current_line as nat
    }

    /// Every held line is nonempty; normalization establishes this.
    pub open spec fn wf(&self) -> bool {
        forall|i: int| 0 <= i < self.lines().len() ==> self.lines()[i].len() > 0
    }

    /// Builds a parser over a raw program: lines normalized, the cursor on
    /// the first.
    pub fn new(raw_program: &str) -> (p: Parser)
        ensures
            p.lines() == asm_normalize(raw_program@),
            p.cursor() == 0,
            p.wf(),
    {
        let program = Parser::normalize_program(raw_program);
        proof {
            lemma_asm_normalize_lines_nonempty(split_lines(raw_program@));
        }
        Parser { current_line: 0, program }
    }

    /// Strips comments and whitespace from every raw line and drops the
    /// lines left empty.
    pub fn normalize_program(raw_program: &str) -> (r: Vec<String>)
        ensures
            r.deep_view() == asm_normalize(raw_program@),
    {
        let ls = lines_of(raw_program);
        let ghost all = ls.deep_view();
        let mut out: Vec<String> = Vec::new();
        let mut i: usize = 0;
        proof {
            assert(all.skip(0) =~= all);
            assert(out.deep_view() =~= Seq::<Seq<char>>::empty());
            assert(Seq::<Seq<char>>::empty() + asm_normalize_lines(all) =~= asm_normalize_lines(
                all,
            ));
        }
        while i < ls.len()
            invariant
                all == ls.deep_view(),
                i <= ls.len(),
                out.deep_view() + asm_normalize_lines(all.skip(i as int)) == asm_normalize_lines(
                    all,
                ),
            decreases ls.len() - i,
        {
            proof {
                assert(all.skip(i as int)[0] == all[i as int]);
                assert(all.skip(i as int).drop_first() =~= all.skip(i as int + 1));
            }
            let stripped = strip_comment_of(ls[i].as_str());
            let cleaned = strip_spaces_of(stripped.as_str());
            if cleaned.as_str().unicode_len() > 0 {
                let ghost prev_out = out.deep_view();
                let ghost line = cleaned@;
                out.push(cleaned);
                proof {
                    assert(out.deep_view() =~= prev_out.push(line));
                    assert(prev_out + (seq![line] + asm_normalize_lines(all.skip(i as int + 1)))
                        =~= out.deep_view() + asm_normalize_lines(all.skip(i as int + 1)));
                }
            }
            i = i + 1;
        }
        proof {
            assert(all.skip(ls.len() as int) =~= Seq::<Seq<char>>::empty());
            assert(out.deep_view() + Seq::<Seq<char>>::empty() =~= out.deep_view());
        }
        out
    }

    /// The normalized lines.
    pub fn get_program(&self) -> (r: &Vec<String>)
        ensures
            r.deep_view() == self.lines(),
    {
        &self.program
    }

    /// The cursor position.
    pub fn get_current_line(&self) -> (r: usize)
        ensures
            r == self.cursor(),
    {
        self.current_line
    }

    /// Whether a line remains under the cursor.
    pub fn has_more_commands(&self) -> (r: bool)
        ensures
            r == (self.cursor() < self.lines().len()),
    {
        self.current_line < self.program.len()
    }

    /// Moves the cursor back to the first line.
    pub fn reset(&mut self)
        ensures
            final(self).lines() == old(self).lines(),
            final(self).cursor() == 0,
    {
        self.current_line = 0;
    }

    /// Moves the cursor one line forward, stopping at the end.
    pub fn advance(&mut self)
        ensures
            final(self).lines() == old(self).lines(),
            final(self).cursor() == if old(self).cursor() < old(self).lines().len() {
                old(self).cursor() + 1
            } else {
                old(self).cursor()
            },
    {
        if self.current_line < self.program.len() {
            self.current_line = self.current_line + 1;
        }
    }

    /// Classifies the line under the cursor by its first character.
    pub fn command_type(&self) -> (t: CommandType)
        requires
            self.wf(),
            self.cursor() < self.lines().len(),
        ensures
            t == line_kind(self.lines()[self.cursor() as int]),
    {
        let command = &self.program[self.current_line];
        let first_char = command.as_str().get_char(0);
        if first_char == '@' {
            CommandType::Address
        } else if first_char == '(' {
            CommandType::Jump
        } else {
            CommandType::Computation
        }
    }

    /// The symbol of the line under the cursor. A label-definition line must
    /// hold at least its two parentheses.
    pub fn get_symbol(&self) -> (s: String)
        requires
            self.wf(),
            self.cursor() < self.lines().len(),
            line_kind(self.lines()[self.cursor() as int]) is Jump ==> self.lines()[self.cursor() as int].len() >= 2,
        ensures
            s@ == symbol_of(self.lines()[self.cursor() as int]),
    {
        let line = &self.program[self.current_line];
        let n = line.as_str().unicode_len();
        match self.command_type() {
            CommandType::Address => line.as_str().substring_char(1, n).to_owned(),
            CommandType::Jump => line.as_str().substring_char(1, n - 1).to_owned(),
            CommandType::Computation => line.clone(),
        }
    }

    /// Splits the computation line under the cursor into its fields. The
    /// first `=`, if any, must come before the first `;`, if any.
    pub fn parse_command(&self) -> (c: Command)
        requires
            self.wf(),
            self.cursor() < self.lines().len(),
            split_computation(self.lines()[self.cursor() as int]) is Some,
        ensures
            ({
                let (d, cm, j) = split_computation(self.lines()[self.cursor() as int])->Some_0;
                c.dest@ == d && c.comp@ == cm && c.jump@ == j
            }),
    {
        let line = &self.program[self.current_line];
        let n = line.as_str().unicode_len();
        let i = char_index_of(line.as_str(), '=');
        let j = char_index_of(line.as_str(), ';');
        if i < n && j < n {
            Command {
                dest: line.as_str().substring_char(0, i).to_owned(),
                comp: line.as_str().substring_char(i + 1, j).to_owned(),
                jump: line.as_str().substring_char(j + 1, n).to_owned(),
            }
        } else if i < n {
            proof {
                assert(Seq::<char>::empty() =~= line@.subrange(n as int, n as int));
            }
            Command {
                dest: line.as_str().substring_char(0, i).to_owned(),
                comp: line.as_str().substring_char(i + 1, n).to_owned(),
                jump: String::new(),
            }
        } else if j < n {
            Command {
                dest: String::new(),
                comp: line.as_str().substring_char(0, j).to_owned(),
                jump: line.as_str().substring_char(j + 1, n).to_owned(),
            }
        } else {
            proof {
                assert(line@.subrange(0, n as int) =~= line@);
            }
            Command {
                dest: String::new(),
                comp: line.as_str().substring_char(0, n).to_owned(),
                jump: String::new(),
            }
        }
    }
}

/// Every line a normalization keeps is nonempty.
proof fn lemma_asm_normalize_lines_nonempty(ls: Seq<Seq<char>>)
    ensures
        forall|i: int|
            0 <= i < asm_normalize_lines(ls).len() ==> asm_normalize_lines(ls)[i].len() > 0,
    decreases ls.len(),
{
    if ls.len() > 0 {
        lemma_asm_normalize_lines_nonempty(ls.drop_first());
        let c = asm_clean_line(ls[0]);
        let rest = asm_normalize_lines(ls.drop_first());
        assert forall|i: int|
            0 <= i < asm_normalize_lines(ls).len() implies asm_normalize_lines(
            ls,
        )[i].len() > 0 by {
            if c.len() > 0 {
                if i == 0 {
                    assert(asm_normalize_lines(ls)[0] == c);
                } else {
                    assert(asm_normalize_lines(ls)[i] == rest[i - 1]);
                }
            }
        }
    }
}

} // verus!
