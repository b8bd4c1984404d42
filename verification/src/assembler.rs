//! The two-pass assembler. The first pass walks the normalized program and
//! binds every label definition to the word offset of the instruction that
//! follows it; the second pass encodes every address and computation
//! instruction, allocating variable addresses on first use, and emits one
//! sixteen-character binary line per instruction word.

use crate::asm_code_gen::{comp_code, comp_is_valid, command_word, generate_command};
use crate::asm_parser::{
    asm_normalize, line_kind, split_computation, symbol_of, CommandType, Parser,
};
use crate::symbols::{
    initial_table, resolve_addr, resolve_next, resolve_table, Symbols,
};
use crate::text::{
    bin16, char_index_of, dec_literal_val, is_dec_literal, parse_u16, u16_to_bin_string,
};
use vstd::prelude::*;

verus! {

/// The label pre-pass from a given table and word count: every label
/// definition is bound to the count of words emitted before it. It has no
/// result where a label line lacks its closing parenthesis or the word
/// counter would overflow the sixteen-bit range.
pub open spec fn pass1(lines: Seq<Seq<char>>, t: Map<Seq<char>, u16>, count: nat) -> Option<
    Map<Seq<char>, u16>,
>
    decreases lines.len(),
{
    if lines.len() == 0 {
        Some(t)
    } else if line_kind(lines[0]) is Jump {
        if lines[0].len() >= 2 {
            pass1(lines.drop_first(), t.insert(symbol_of(lines[0]), count as u16), count)
        } else {
            None
        }
    } else if count + 1 <= 65535 {
        pass1(lines.drop_first(), t, count + 1)
    } else {
        None
    }
}

/// One emitted line prepended, with its line feed, to the rest of an
/// emission; nothing where the rest has no result.
pub open spec fn emit(line: Seq<char>, rest: Option<Seq<char>>) -> Option<Seq<char>> {
    match rest {
        Some(r) => Some(line + seq!['\n'] + r),
        None => None,
    }
}

/// The encoding pass from a given table and allocation mark: label lines
/// emit nothing; an address instruction emits the binary form of its
/// operand, a decimal literal directly and any other symbol through the
/// table, allocating on first use; a computation instruction emits its
/// encoded word. It has no result where the address space is exhausted, a
/// computation line has no valid field split, or its computation expression
/// is not in the closed table.
pub open spec fn pass2(lines: Seq<Seq<char>>, t: Map<Seq<char>, u16>, next: u16) -> Option<
    Seq<char>,
>
    decreases lines.len(),
{
    if lines.len() == 0 {
        Some(Seq::empty())
    } else {
        let l = lines[0];
        match line_kind(l) {
            CommandType::Jump => pass2(lines.drop_first(), t, next),
            CommandType::Address => {
                let sym = symbol_of(l);
                if is_dec_literal(sym) && dec_literal_val(sym) <= 65535 {
                    emit(bin16(dec_literal_val(sym)), pass2(lines.drop_first(), t, next))
                } else if t.contains_key(sym) || next < 65535 {
                    emit(
                        bin16(resolve_addr(t, next, sym) as nat),
                        pass2(
                            lines.drop_first(),
                            resolve_table(t, next, sym),
                            resolve_next(t, next, sym),
                        ),
                    )
                } else {
                    None
                }
            },
            CommandType::Computation => {
                match split_computation(l) {
                    Some(fields) => {
                        if comp_code(fields.1) is Some {
                            emit(
                                command_word(fields.0, fields.1, fields.2),
                                pass2(lines.drop_first(), t, next),
                            )
                        } else {
                            None
                        }
                    },
                    None => None,
                }
            },
        }
    }
}

/// The assembly of raw source text: both passes over the normalized
/// program, starting from the pre-seeded table.
pub open spec fn assemble_spec(src: Seq<char>) -> Option<Seq<char>> {
    let lines = asm_normalize(src);
    match pass1(lines, initial_table(), 0) {
        Some(t) => pass2(lines, t, 15),
        None => None,
    }
}

pub struct Assembler {}

impl Assembler {
    /// Assembles a raw program into its binary word lines, one sixteen-bit
    /// word per line, each line ended by a line feed.
    pub fn assemble(raw_program: String) -> (r: String)
        requires
            assemble_spec(raw_program@) is Some,
        ensures
            r@ == assemble_spec(raw_program@)->Some_0,
    {
        match Assembler::try_assemble(raw_program.as_str()) {
            Some(out) => out,
            None => unreached(),
        }
    }

    /// Assembles a raw program, reporting failure instead of requiring a
    /// well-formed program: there is no result exactly where a label line
    /// lacks its closing parenthesis, an instruction count or the variable
    /// address space overflows, a computation line has its first `;` before
    /// its first `=`, or a computation expression is outside the closed
    /// table.
    pub fn try_assemble(raw_program: &str) -> (r: Option<String>)
        ensures
            r is Some <==> assemble_spec(raw_program@) is Some,
            r is Some ==> r->Some_0@ == assemble_spec(raw_program@)->Some_0,
    {
        let mut parser = Parser::new(raw_program);
        let mut symbol_table = Symbols::new();
        let ghost lines = parser.lines();
        proof {
            assert(lines.skip(0) =~= lines);
        }

        let mut line_index: u16 = 0;
        while parser.has_more_commands()
            invariant
                parser.wf(),
                parser.lines() == lines,
                lines == asm_normalize(raw_program@),
                parser.cursor() <= lines.len(),
                symbol_table.next_free() == 15,
                pass1(
                    lines.skip(parser.cursor() as int),
                    symbol_table.table_view(),
                    line_index as nat,
                ) == pass1(lines, initial_table(), 0),
            decreases lines.len() - parser.cursor(),
        {
            let ghost at = parser.cursor() as int;
            proof {
                assert(lines.skip(at)[0] == lines[at]);
                assert(lines.skip(at).drop_first() =~= lines.skip(at + 1));
            }
            match parser.command_type() {
                CommandType::Jump => {
                    let idx = parser.get_current_line();
                    let len_ok = parser.get_program()[idx].as_str().unicode_len() >= 2;
                    if !len_ok {
                        return None;
                    }
                    let sym = parser.get_symbol();
                    symbol_table.add_jump_symbol(sym, line_index);
                },
                _ => {
                    if line_index == 65535 {
                        return None;
                    }
                    line_index = line_index + 1;
                },
            }
            parser.advance();
        }
        proof {
            assert(lines.skip(lines.len() as int) =~= Seq::<Seq<char>>::empty());
        }
        let ghost table_after_pass1 = symbol_table.table_view();
        proof {
            assert(pass1(lines, initial_table(), 0) == Some(table_after_pass1));
        }

        parser.reset();
        let mut assembly_code = String::new();
        proof {
            assert(lines.skip(0) =~= lines);
            if pass2(lines, table_after_pass1, 15) is Some {
                assert(assembly_code@ + pass2(lines, table_after_pass1, 15)->Some_0 =~= pass2(
                    lines,
                    table_after_pass1,
                    15,
                )->Some_0);
            }
        }
        while parser.has_more_commands()
            invariant
                parser.wf(),
                parser.lines() == lines,
                lines == asm_normalize(raw_program@),
                parser.cursor() <= lines.len(),
                pass1(lines, initial_table(), 0) == Some(table_after_pass1),
                pass2(
                    lines.skip(parser.cursor() as int),
                    symbol_table.table_view(),
                    symbol_table.next_free(),
                ) is Some ==> pass2(lines, table_after_pass1, 15) == Some(
                    assembly_code@ + pass2(
                        lines.skip(parser.cursor() as int),
                        symbol_table.table_view(),
                        symbol_table.next_free(),
                    )->Some_0,
                ),
                pass2(
                    lines.skip(parser.cursor() as int),
                    symbol_table.table_view(),
                    symbol_table.next_free(),
                ) is None ==> pass2(lines, table_after_pass1, 15) is None,
            decreases lines.len() - parser.cursor(),
        {
            let ghost at = parser.cursor() as int;
            let ghost t_now = symbol_table.table_view();
            let ghost n_now = symbol_table.next_free();
            proof {
                assert(lines.skip(at)[0] == lines[at]);
                assert(lines.skip(at).drop_first() =~= lines.skip(at + 1));
            }
            match parser.command_type() {
                CommandType::Address => {
                    let sym = parser.get_symbol();
                    let binary = match parse_u16(sym.as_str()) {
                        Some(value) => u16_to_bin_string(value),
                        None => {
                            match symbol_table.try_get_address(sym) {
                                Some(address) => u16_to_bin_string(address),
                                None => {
                                    return None;
                                },
                            }
                        },
                    };
                    let ghost acc0 = assembly_code@;
                    assembly_code.append(binary.as_str());
                    assembly_code.append("\n");
                    proof {
                        reveal_strlit("\n");
                        assert("\n"@ =~= seq!['\n']);
                        assert(assembly_code@ == acc0 + binary@ + "\n"@);
                        let rest_now = pass2(lines.skip(at), t_now, n_now);
                        let rest_next = pass2(
                            lines.skip(at + 1),
                            symbol_table.table_view(),
                            symbol_table.next_free(),
                        );
                        assert(rest_now == emit(binary@, rest_next));
                        if rest_next is Some {
                            assert(acc0 + rest_now->Some_0 =~= assembly_code@ + rest_next->Some_0);
                        }
                    }
                },
                CommandType::Computation => {
                    let idx = parser.get_current_line();
                    let line_len = parser.get_program()[idx].as_str().unicode_len();
                    let eq_at = char_index_of(parser.get_program()[idx].as_str(), '=');
                    let semi_at = char_index_of(parser.get_program()[idx].as_str(), ';');
                    if eq_at < line_len && semi_at < line_len && eq_at >= semi_at {
                        return None;
                    }
                    let command = parser.parse_command();
                    if !comp_is_valid(command.comp.as_str()) {
                        return None;
                    }
                    let word = generate_command(
                        crate::asm_code_gen::Command {
                            dest: command.dest.as_str(),
                            comp: command.comp.as_str(),
                            jump: command.jump.as_str(),
                        },
                    );
                    let ghost acc0 = assembly_code@;
                    assembly_code.append(word.as_str());
                    assembly_code.append("\n");
                    proof {
                        reveal_strlit("\n");
                        assert("\n"@ =~= seq!['\n']);
                        assert(assembly_code@ == acc0 + word@ + "\n"@);
                        let rest_now = pass2(lines.skip(at), t_now, n_now);
                        let rest_next = pass2(lines.skip(at + 1), t_now, n_now);
                        assert(rest_now == emit(word@, rest_next));
                        if rest_next is Some {
                            assert(acc0 + rest_now->Some_0 =~= assembly_code@ + rest_next->Some_0);
                        }
                    }
                },
                CommandType::Jump => {},
            }
            parser.advance();
        }
        proof {
            assert(lines.skip(lines.len() as int) =~= Seq::<Seq<char>>::empty());
            assert(assembly_code@ + Seq::<char>::empty() =~= assembly_code@);
        }
        Some(assembly_code)
    }
}

/// The number of instruction words the first `k` lines emit: every line but
/// a label definition emits exactly one.
pub open spec fn words_before(lines: Seq<Seq<char>>, k: int) -> nat
    decreases lines.len(),
{
    if k <= 0 || lines.len() == 0 {
        0
    } else {
        (if line_kind(lines[0]) is Jump {
            0nat
        } else {
            1nat
        }) + words_before(lines.drop_first(), k - 1)
    }
}

/// Lines that define no label named `name` leave its binding alone through
/// the label pre-pass.
proof fn lemma_pass1_preserves_other_names(
    lines: Seq<Seq<char>>,
    t: Map<Seq<char>, u16>,
    count: nat,
    name: Seq<char>,
)
    requires
        forall|j: int|
            0 <= j < lines.len() && line_kind(lines[j]) is Jump && lines[j].len() >= 2
                ==> symbol_of(lines[j]) != name,
        pass1(lines, t, count) is Some,
    ensures
        pass1(lines, t, count)->Some_0.contains_key(name) == t.contains_key(name),
        t.contains_key(name) ==> pass1(lines, t, count)->Some_0[name] == t[name],
    decreases lines.len(),
{
    if lines.len() > 0 {
        assert(lines.drop_first() =~= lines.skip(1));
        assert(forall|j: int|
            0 <= j < lines.drop_first().len() ==> lines.drop_first()[j] == lines[j + 1]);
        if line_kind(lines[0]) is Jump {
            lemma_pass1_preserves_other_names(
                lines.drop_first(),
                t.insert(symbol_of(lines[0]), count as u16),
                count,
                name,
            );
        } else {
            lemma_pass1_preserves_other_names(lines.drop_first(), t, count + 1, name);
        }
    }
}

/// Jump-target resolution: where line `k` defines the label `name`, and no
/// later line defines the same name, the pre-pass binds `name` to exactly
/// the word offset of the instruction that follows line `k`. References
/// before and after the definition both resolve through the completed
/// table, so a jump to the label reaches that offset regardless of where in
/// the program the jump stands.
pub proof fn lemma_label_binds_word_offset(
    lines: Seq<Seq<char>>,
    t: Map<Seq<char>, u16>,
    count: nat,
    k: int,
    name: Seq<char>,
)
    requires
        0 <= k < lines.len(),
        line_kind(lines[k]) is Jump,
        lines[k].len() >= 2,
        symbol_of(lines[k]) == name,
        forall|j: int|
            k < j < lines.len() && line_kind(lines[j]) is Jump && lines[j].len() >= 2
                ==> symbol_of(lines[j]) != name,
        count <= 65535,
        pass1(lines, t, count) is Some,
    ensures
        pass1(lines, t, count)->Some_0.contains_key(name),
        count + words_before(lines, k) <= 65535,
        pass1(lines, t, count)->Some_0[name] == (count + words_before(lines, k)) as u16,
    decreases lines.len(),
{
    assert(lines.drop_first() =~= lines.skip(1));
    assert(forall|j: int|
        0 <= j < lines.drop_first().len() ==> lines.drop_first()[j] == lines[j + 1]);
    if k == 0 {
        let t1 = t.insert(name, count as u16);
        lemma_pass1_preserves_other_names(lines.drop_first(), t1, count, name);
    } else {
        if line_kind(lines[0]) is Jump {
            lemma_label_binds_word_offset(
                lines.drop_first(),
                t.insert(symbol_of(lines[0]), count as u16),
                count,
                k - 1,
                name,
            );
        } else {
            lemma_label_binds_word_offset(lines.drop_first(), t, count + 1, k - 1, name);
        }
    }
}

/// The resolution law at the whole-program level: in a program that
/// assembles, a uniquely defined label resolves to the word offset of the
/// instruction after it, and any address operand naming it is encoded from
/// that offset.
pub proof fn lemma_jump_target_offset(src: Seq<char>, k: int, name: Seq<char>)
    requires
        assemble_spec(src) is Some,
        0 <= k < asm_normalize(src).len(),
        line_kind(asm_normalize(src)[k]) is Jump,
        asm_normalize(src)[k].len() >= 2,
        symbol_of(asm_normalize(src)[k]) == name,
        forall|j: int|
            k < j < asm_normalize(src).len() && line_kind(asm_normalize(src)[j]) is Jump
                && asm_normalize(src)[j].len() >= 2 ==> symbol_of(asm_normalize(src)[j]) != name,
    ensures
        pass1(asm_normalize(src), initial_table(), 0) is Some,
        words_before(asm_normalize(src), k) <= 65535,
        pass1(asm_normalize(src), initial_table(), 0)->Some_0[name] == words_before(
            asm_normalize(src),
            k,
        ) as u16,
        forall|next: u16|
            resolve_addr(pass1(asm_normalize(src), initial_table(), 0)->Some_0, next, name)
                == words_before(asm_normalize(src), k) as u16,
{
    let lines = asm_normalize(src);
    lemma_label_binds_word_offset(lines, initial_table(), 0, k, name);
}

} // verus!
