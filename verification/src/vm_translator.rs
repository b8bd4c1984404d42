//! The translation session: feeds each named program unit through the
//! parser and the code generator, accumulating one combined assembly stream
//! whose generated label numbers stay unique across units, and renders the
//! final output with its bootstrap prologue.

use crate::vm_code_gen::{
    bootstrap_lines, call_counter_delta, command_lines, halt_lines, label_counter_delta, CodeGen,
};
use crate::vm_parser::{vm_normalize, vm_parse, CommandModel, Parser, Segment};
use vstd::prelude::*;

verus! {

/// A normalized line the generator accepts: it parses, and it is not a pop
/// into the constant segment.
pub open spec fn vm_line_ok(l: Seq<char>) -> bool {
    &&& vm_parse(l) is Some
    &&& !(vm_parse(l)->Some_0 matches CommandModel::Pop(Segment::Constant, _))
}

/// Every line of a normalized program is acceptable.
pub open spec fn vm_lines_ok(lines: Seq<Seq<char>>) -> bool {
    forall|i: int| 0 <= i < lines.len() ==> #[trigger] vm_line_ok(lines[i])
}

/// How far a normalized program advances the branch-label counter.
pub open spec fn program_label_delta(lines: Seq<Seq<char>>) -> nat
    decreases lines.len(),
{
    if lines.len() == 0 {
        0
    } else {
        label_counter_delta(vm_parse(lines[0])->Some_0) + program_label_delta(lines.drop_first())
    }
}

/// How far a normalized program advances the return-address counter.
pub open spec fn program_call_delta(lines: Seq<Seq<char>>) -> nat
    decreases lines.len(),
{
    if lines.len() == 0 {
        0
    } else {
        call_counter_delta(vm_parse(lines[0])->Some_0) + program_call_delta(lines.drop_first())
    }
}

/// The assembly of one normalized program under a unit name, with the two
/// session counters threaded through command by command.
pub open spec fn gen_program(lines: Seq<Seq<char>>, unit: Seq<char>, g: nat, r: nat) -> Seq<
    Seq<char>,
>
    decreases lines.len(),
{
    if lines.len() == 0 {
        Seq::empty()
    } else {
        let m = vm_parse(lines[0])->Some_0;
        command_lines(m, unit, g, r) + gen_program(
            lines.drop_first(),
            unit,
            g + label_counter_delta(m),
            r + call_counter_delta(m),
        )
    }
}

/// The lines of a stream joined by line feeds, without a trailing one: the
/// tail lines, each preceded by its separator.
pub open spec fn join_tail(ls: Seq<Seq<char>>) -> Seq<char>
    decreases ls.len(),
{
    if ls.len() == 0 {
        Seq::empty()
    } else {
        seq!['\n'] + ls[0] + join_tail(ls.drop_first())
    }
}

/// The lines of a stream joined by line feeds, without a trailing one.
pub open spec fn join_lines(ls: Seq<Seq<char>>) -> Seq<char> {
    if ls.len() == 0 {
        Seq::empty()
    } else {
        ls[0] + join_tail(ls.drop_first())
    }
}

pub struct Translator {
    code_gen: CodeGen,
}

impl Translator {
    /// The current program-unit name.
    pub closed spec fn unit(&self) -> Seq<char> {
        self.code_gen.unit()
    }

    /// The session counter numbering generated comparison labels.
    pub closed spec fn label_counter(&self) -> nat {
        self.code_gen.label_counter()
    }

    /// The session counter numbering generated return-address labels.
    pub closed spec fn call_counter(&self) -> nat {
        self.code_gen.call_counter()
    }

    /// The combined assembly lines generated so far.
    pub closed spec fn code(&self) -> Seq<Seq<char>> {
        self.code_gen.code()
    }

    /// A fresh session: no lines, counters at zero.
    pub fn new() -> (r: Translator)
        ensures
            r.unit() == "Global"@,
            r.label_counter() == 0,
            r.call_counter() == 0,
            r.code() == Seq::<Seq<char>>::empty(),
    {
        Translator { code_gen: CodeGen::new() }
    }

    /// Translates one program unit: sets its name as the scope for statics
    /// and flow labels, then expands its commands in order onto the
    /// session's stream. Every normalized line must be an acceptable
    /// command, and the session counters must have numbers left for the
    /// unit's comparisons and calls.
    pub fn translate(&mut self, filename: String, file_contents: String)
        requires
            vm_lines_ok(vm_normalize(file_contents@)),
            old(self).label_counter() + program_label_delta(vm_normalize(file_contents@))
                <= usize::MAX,
            old(self).call_counter() + program_call_delta(vm_normalize(file_contents@))
                <= usize::MAX,
        ensures
            final(self).unit() == filename@,
            final(self).code() == old(self).code() + gen_program(
                vm_normalize(file_contents@),
                filename@,
                old(self).label_counter(),
                old(self).call_counter(),
            ),
            final(self).label_counter() == old(self).label_counter() + program_label_delta(
                vm_normalize(file_contents@),
            ),
            final(self).call_counter() == old(self).call_counter() + program_call_delta(
                vm_normalize(file_contents@),
            ),
    {
        let ghost contents = file_contents@;
        self.code_gen.set_current_filename(filename.as_str());
        let mut parser = Parser::new(file_contents);
        let ghost lines = parser.lines();
        proof {
            assert(lines.skip(0) =~= lines);
            assert(old(self).code() + Seq::<Seq<char>>::empty() =~= old(self).code());
        }
        while parser.has_more_commands()
            invariant
                parser.lines() == lines,
                lines == vm_normalize(contents),
                vm_lines_ok(lines),
                parser.cursor() <= lines.len(),
                self.unit() == filename@,
                self.label_counter() + program_label_delta(lines.skip(parser.cursor() as int))
                    <= usize::MAX,
                self.call_counter() + program_call_delta(lines.skip(parser.cursor() as int))
                    <= usize::MAX,
                old(self).code() + gen_program(
                    lines,
                    filename@,
                    old(self).label_counter(),
                    old(self).call_counter(),
                ) == self.code() + gen_program(
                    lines.skip(parser.cursor() as int),
                    filename@,
                    self.label_counter(),
                    self.call_counter(),
                ),
                old(self).label_counter() + program_label_delta(lines) == self.label_counter()
                    + program_label_delta(lines.skip(parser.cursor() as int)),
                old(self).call_counter() + program_call_delta(lines) == self.call_counter()
                    + program_call_delta(lines.skip(parser.cursor() as int)),
            decreases lines.len() - parser.cursor(),
        {
            let ghost at = parser.cursor() as int;
            let ghost code_before = self.code();
            let ghost g_before = self.label_counter();
            let ghost r_before = self.call_counter();
            proof {
                assert(lines.skip(at)[0] == lines[at]);
                assert(lines.skip(at).drop_first() =~= lines.skip(at + 1));
                assert(vm_line_ok(lines[at]));
            }
            let command = parser.parse_command();
            self.code_gen.gen_command(command);
            proof {
                let m = vm_parse(lines[at])->Some_0;
                assert(self.code() == code_before + command_lines(m, filename@, g_before, r_before));
                assert((code_before + command_lines(m, filename@, g_before, r_before))
                    + gen_program(
                    lines.skip(at + 1),
                    filename@,
                    self.label_counter(),
                    self.call_counter(),
                ) =~= code_before + (command_lines(m, filename@, g_before, r_before) + gen_program(
                    lines.skip(at + 1),
                    filename@,
                    self.label_counter(),
                    self.call_counter(),
                )));
            }
            parser.advance();
        }
        proof {
            assert(lines.skip(lines.len() as int) =~= Seq::<Seq<char>>::empty());
            assert(self.code() + Seq::<Seq<char>>::empty() =~= self.code());
        }
    }

    /// The whole program text: the bootstrap prologue, every unit's lines,
    /// and the holding epilogue, joined by line feeds.
    pub fn output(&self) -> (r: String)
        ensures
            r@ == join_lines(bootstrap_lines() + self.code() + halt_lines()),
    {
        let all = self.code_gen.output();
        let ghost ls = all.deep_view();
        let mut s = all[0].clone();
        let mut i: usize = 1;
        proof {
            assert(ls.len() > 0);
            assert(ls.skip(1) =~= ls.drop_first());
        }
        while i < all.len()
            invariant
                ls == all.deep_view(),
                1 <= i <= ls.len(),
                s@ + join_tail(ls.skip(i as int)) == join_lines(ls),
            decreases all.len() - i,
        {
            proof {
                assert(ls.skip(i as int)[0] == ls[i as int]);
                assert(ls.skip(i as int).drop_first() =~= ls.skip(i as int + 1));
            }
            let ghost s_before = s@;
            s.append("\n");
            s.append(all[i].as_str());
            proof {
                reveal_strlit("\n");
                assert("\n"@ =~= seq!['\n']);
                assert(s_before + (seq!['\n'] + ls[i as int] + join_tail(
                    ls.skip(i as int + 1),
                )) =~= s@ + join_tail(ls.skip(i as int + 1)));
            }
            i = i + 1;
        }
        proof {
            assert(ls.skip(ls.len() as int) =~= Seq::<Seq<char>>::empty());
            assert(s@ + Seq::<char>::empty() =~= s@);
        }
        s
    }
}

} // verus!
