//! The stack-command code generator: expands each command into its fixed
//! sequence of assembly lines against the stack pointer, scoping static
//! references and flow labels by the current program-unit name and numbering
//! generated branch and return-address labels from session counters.

use crate::text::{dec_str, push_char, usize_to_string};
use crate::vm_parser::{Command, CommandModel, Op, Segment};
use vstd::prelude::*;

verus! {

/// An address instruction line for a symbol or literal.
pub open spec fn at_sym(s: Seq<char>) -> Seq<char> {
    seq!['@'] + s
}

/// A label-definition line for a symbol.
pub open spec fn label_def(s: Seq<char>) -> Seq<char> {
    seq!['('] + s + seq![')']
}

/// The per-unit symbol of one static-segment slot: the unit name, a dot,
/// and the index. Two units never share one, so their static variables
/// never alias.
pub open spec fn static_symbol(unit: Seq<char>, index: nat) -> Seq<char> {
    unit + seq!['.'] + dec_str(index)
}

/// A flow label scoped by the unit name, so two units may reuse label text.
pub open spec fn scoped_label(unit: Seq<char>, label: Seq<char>) -> Seq<char> {
    unit + seq!['$'] + label
}

/// The generated branch target for a true comparison, numbered per session.
pub open spec fn truthy_label(n: nat) -> Seq<char> {
    "TRUTHY"@ + dec_str(n)
}

/// The generated branch target for a false comparison.
pub open spec fn falsy_label(n: nat) -> Seq<char> {
    "FALSY"@ + dec_str(n)
}

/// The generated return-address label of one call site.
pub open spec fn return_label(n: nat) -> Seq<char> {
    "RETURN"@ + dec_str(n)
}

/// Pop the top of stack into the data register: decrement the stack pointer
/// and load the word it now addresses.
pub open spec fn pop_d_lines() -> Seq<Seq<char>> {
    seq!["@SP"@, "AM=M-1"@, "D=M"@]
}

/// Push the data register: store it at the stack pointer, then increment
/// the stack pointer.
pub open spec fn push_d_lines() -> Seq<Seq<char>> {
    seq!["@SP"@, "A=M"@, "M=D"@, "@SP"@, "M=M+1"@]
}

/// The expansion of one arithmetic or logical operation. Binary operations
/// pop twice through a scratch register and push once; unary operations
/// transform the top in place; comparisons subtract and branch through a
/// numbered label pair, pushing all-ones or zero.
pub open spec fn arithmetic_lines(op: Op, n: nat) -> Seq<Seq<char>> {
    match op {
        Op::Add => pop_d_lines() + seq!["@R13"@, "M=D"@] + pop_d_lines() + seq![
            "@R13"@,
            "D=D+M"@,
        ] + push_d_lines(),
        Op::Subtract => pop_d_lines() + seq!["@R13"@, "M=D"@] + pop_d_lines() + seq![
            "@R13"@,
            "D=D-M"@,
        ] + push_d_lines(),
        Op::And => pop_d_lines() + seq!["@R13"@, "M=D"@] + pop_d_lines() + seq![
            "@R13"@,
            "D=D&M"@,
        ] + push_d_lines(),
        Op::Or => pop_d_lines() + seq!["@R13"@, "M=D"@] + pop_d_lines() + seq![
            "@R13"@,
            "D=D|M"@,
        ] + push_d_lines(),
        Op::Negate => pop_d_lines() + seq!["D=-D"@] + push_d_lines(),
        Op::Not => pop_d_lines() + seq!["D=!D"@] + push_d_lines(),
        Op::Equal => comparison_lines("D;JEQ"@, n),
        Op::GreaterThan => comparison_lines("D;JGT"@, n),
        Op::LessThan => comparison_lines("D;JLT"@, n),
    }
}

/// The branch-based expansion shared by the three comparisons, over the
/// conditional-jump line that decides them.
pub open spec fn comparison_lines(jump: Seq<char>, n: nat) -> Seq<Seq<char>> {
    pop_d_lines() + seq!["@R13"@, "M=D"@] + pop_d_lines() + seq![
        "@R13"@,
        "D=D-M"@,
        at_sym(truthy_label(n)),
        jump,
        "D=0"@,
        at_sym(falsy_label(n)),
        "0;JMP"@,
        label_def(truthy_label(n)),
        "D=-1"@,
        label_def(falsy_label(n)),
    ] + push_d_lines()
}

/// The lines that leave the address of one segment slot in the data
/// register's path for a push: base read, index offset, dereference.
pub open spec fn push_lines(seg: Segment, index: nat, unit: Seq<char>) -> Seq<Seq<char>> {
    (match seg {
        Segment::Argument => seq!["@ARG"@, "D=M"@, at_sym(dec_str(index)), "A=D+A"@, "D=M"@],
        Segment::Local => seq!["@LCL"@, "D=M"@, at_sym(dec_str(index)), "A=D+A"@, "D=M"@],
        Segment::This => seq!["@THIS"@, "D=M"@, at_sym(dec_str(index)), "A=D+A"@, "D=M"@],
        Segment::That => seq!["@THAT"@, "D=M"@, at_sym(dec_str(index)), "A=D+A"@, "D=M"@],
        Segment::Temp => seq!["@5"@, "D=A"@, at_sym(dec_str(index)), "A=D+A"@, "D=M"@],
        Segment::Pointer => seq!["@3"@, "D=A"@, at_sym(dec_str(index)), "A=D+A"@, "D=M"@],
        Segment::Static => seq![at_sym(static_symbol(unit, index)), "D=M"@],
        Segment::Constant => seq![at_sym(dec_str(index)), "D=A"@],
    }) + push_d_lines()
}

/// The expansion of a pop: the slot's address is parked in the scratch
/// register, the stack is popped, and the value stored through it. The
/// constant segment has no slot to write back to.
pub open spec fn pop_lines(seg: Segment, index: nat, unit: Seq<char>) -> Seq<Seq<char>>
    recommends
        seg != Segment::Constant,
{
    (match seg {
        Segment::Argument => seq!["@ARG"@, "D=M"@, at_sym(dec_str(index)), "D=D+A"@, "@R13"@, "M=D"@],
        Segment::Local => seq!["@LCL"@, "D=M"@, at_sym(dec_str(index)), "D=D+A"@, "@R13"@, "M=D"@],
        Segment::This => seq!["@THIS"@, "D=M"@, at_sym(dec_str(index)), "D=D+A"@, "@R13"@, "M=D"@],
        Segment::That => seq!["@THAT"@, "D=M"@, at_sym(dec_str(index)), "D=D+A"@, "@R13"@, "M=D"@],
        Segment::Temp => seq!["@5"@, "D=A"@, at_sym(dec_str(index)), "D=D+A"@, "@R13"@, "M=D"@],
        Segment::Pointer => seq!["@3"@, "D=A"@, at_sym(dec_str(index)), "D=D+A"@, "@R13"@, "M=D"@],
        Segment::Static => seq![at_sym(static_symbol(unit, index)), "D=A"@, "@R13"@, "M=D"@],
        Segment::Constant => Seq::empty(),
    }) + pop_d_lines() + seq!["@R13"@, "A=M"@, "M=D"@]
}

/// A label command: one unit-scoped label definition, emitting no word.
pub open spec fn label_lines(unit: Seq<char>, label: Seq<char>) -> Seq<Seq<char>> {
    seq![label_def(scoped_label(unit, label))]
}

/// An unconditional jump to a unit-scoped label.
pub open spec fn goto_lines(unit: Seq<char>, label: Seq<char>) -> Seq<Seq<char>> {
    seq![at_sym(scoped_label(unit, label)), "0;JMP"@]
}

/// A conditional jump: pop the top of stack and jump when it is nonzero.
pub open spec fn if_goto_lines(unit: Seq<char>, label: Seq<char>) -> Seq<Seq<char>> {
    pop_d_lines() + seq![at_sym(scoped_label(unit, label)), "D;JNE"@]
}

/// The calling convention at a call site: push the numbered return-address
/// label, save the four segment pointers in fixed order, recompute the
/// argument base below the pushed frame, set the local base to the stack
/// pointer, jump to the callee, and land the return-address label.
pub open spec fn call_lines(fn_name: Seq<char>, arity: nat, n: nat) -> Seq<Seq<char>> {
    seq![at_sym(return_label(n)), "D=A"@] + push_d_lines() + seq!["@LCL"@, "D=M"@]
        + push_d_lines() + seq!["@ARG"@, "D=M"@] + push_d_lines() + seq!["@THIS"@, "D=M"@]
        + push_d_lines() + seq!["@THAT"@, "D=M"@] + push_d_lines() + seq![
        "D=M"@,
        "@5"@,
        "D=D-A"@,
        at_sym(dec_str(arity)),
        "D=D-A"@,
        "@ARG"@,
        "M=D"@,
        "@SP"@,
        "D=M"@,
        "@LCL"@,
        "M=D"@,
        at_sym(fn_name),
        "0;JMP"@,
        label_def(return_label(n)),
    ]
}

/// The zero-initialization of one local variable slot, repeated per local.
pub open spec fn local_init_lines(k: nat) -> Seq<Seq<char>>
    decreases k,
{
    if k == 0 {
        Seq::empty()
    } else {
        seq!["M=D"@, "A=A+1"@] + local_init_lines((k - 1) as nat)
    }
}

/// A function definition: its entry label, and, where it has locals, code
/// that zeroes exactly that many stack slots and advances the stack pointer
/// past them.
pub open spec fn function_lines(fn_name: Seq<char>, local_vars: nat) -> Seq<Seq<char>> {
    if local_vars == 0 {
        seq![label_def(fn_name)]
    } else {
        seq![label_def(fn_name), "@0"@, "D=A"@, "@SP"@, "A=M"@] + local_init_lines(local_vars)
            + seq!["D=A"@, "@SP"@, "M=D"@]
    }
}

/// The return protocol: capture the frame base, read the return address at
/// its fixed offset, relocate the return value to the caller's argument
/// base, restore the caller's stack pointer, restore the four segment
/// pointers walking the frame backwards, and jump through the captured
/// return address.
pub open spec fn return_lines() -> Seq<Seq<char>> {
    seq![
        "@LCL"@,
        "D=M"@,
        "@R13"@,
        "M=D"@,
        "@5"@,
        "A=D-A"@,
        "D=M"@,
        "@R14"@,
        "M=D"@,
        "@SP"@,
        "AM=M-1"@,
        "D=M"@,
        "@ARG"@,
        "A=M"@,
        "M=D"@,
        "@ARG"@,
        "D=M+1"@,
        "@SP"@,
        "M=D"@,
        "@R13"@,
        "AM=M-1"@,
        "D=M"@,
        "@THAT"@,
        "M=D"@,
        "@R13"@,
        "AM=M-1"@,
        "D=M"@,
        "@THIS"@,
        "M=D"@,
        "@R13"@,
        "AM=M-1"@,
        "D=M"@,
        "@ARG"@,
        "M=D"@,
        "@R13"@,
        "AM=M-1"@,
        "D=M"@,
        "@LCL"@,
        "M=D"@,
        "@R14"@,
        "A=M"@,
        "0;JMP"@,
    ]
}

/// The expansion of one command under a unit name and the two session
/// counters.
pub open spec fn command_lines(m: CommandModel, unit: Seq<char>, g: nat, r: nat) -> Seq<
    Seq<char>,
>
    recommends
        !(m matches CommandModel::Pop(Segment::Constant, _)),
{
    match m {
        CommandModel::Arithmetic(op) => arithmetic_lines(op, g),
        CommandModel::Push(seg, index) => push_lines(seg, index, unit),
        CommandModel::Pop(seg, index) => pop_lines(seg, index, unit),
        CommandModel::Label(label) => label_lines(unit, label),
        CommandModel::Goto(label) => goto_lines(unit, label),
        CommandModel::IfGoto(label) => if_goto_lines(unit, label),
        CommandModel::Call(fn_name, arity) => call_lines(fn_name, arity, r),
        CommandModel::Function(fn_name, local_vars) => function_lines(fn_name, local_vars),
        CommandModel::Return => return_lines(),
    }
}

/// How far one command advances the branch-label counter.
pub open spec fn label_counter_delta(m: CommandModel) -> nat {
    match m {
        CommandModel::Arithmetic(op) => if op == Op::Equal || op == Op::GreaterThan || op
            == Op::LessThan {
            1nat
        } else {
            0nat
        },
        _ => 0nat,
    }
}

/// How far one command advances the return-address counter.
pub open spec fn call_counter_delta(m: CommandModel) -> nat {
    match m {
        CommandModel::Call(_, _) => 1nat,
        _ => 0nat,
    }
}

/// A decimal digit string is nonempty and holds digits alone.
proof fn lemma_dec_str_digits(n: nat)
    ensures
        dec_str(n).len() >= 1,
        forall|i: int|
            0 <= i < dec_str(n).len() ==> #[trigger] crate::text::is_digit_char(dec_str(n)[i]),
    decreases n,
{
    if n >= 10 {
        lemma_dec_str_digits(n / 10);
    }
}

/// Static-segment aliasing: two distinct program units never share a
/// static symbol, whatever slots they reference, so their static variables
/// resolve to distinct addresses.
pub proof fn lemma_static_symbols_distinct(u1: Seq<char>, u2: Seq<char>, i: nat, j: nat)
    requires
        u1 != u2,
    ensures
        static_symbol(u1, i) != static_symbol(u2, j),
{
    lemma_dec_str_digits(i);
    lemma_dec_str_digits(j);
    let d1 = dec_str(i);
    let d2 = dec_str(j);
    let s1 = static_symbol(u1, i);
    let s2 = static_symbol(u2, j);
    if s1 == s2 {
        assert(s1.len() == u1.len() + 1 + d1.len());
        assert(s2.len() == u2.len() + 1 + d2.len());
        assert(s1.len() == s2.len());
        if d1.len() == d2.len() {
            assert(u1.len() == u2.len());
            assert forall|p: int| 0 <= p < u1.len() implies u1[p] == u2[p] by {
                assert(s1[p] == u1[p]);
                assert(s2[p] == u2[p]);
            }
            assert(u1 =~= u2);
        } else if d1.len() < d2.len() {
            let p = u1.len() as int;
            assert(s1[p] == '.');
            assert(u2.len() < u1.len());
            assert(s2[p] == d2[p - u2.len() - 1]);
            assert(crate::text::is_digit_char('.'));
        } else {
            let p = u2.len() as int;
            assert(s2[p] == '.');
            assert(u1.len() < u2.len());
            assert(s1[p] == d1[p - u1.len() - 1]);
            assert(crate::text::is_digit_char('.'));
        }
    }
}

/// One more local slot extends the initialization tail by its two lines.
proof fn lemma_local_init_lines_snoc(k: nat)
    requires
        k > 0,
    ensures
        local_init_lines(k) == local_init_lines((k - 1) as nat) + seq!["M=D"@, "A=A+1"@],
    decreases k,
{
    if k == 1 {
        assert(local_init_lines(1) =~= local_init_lines(0) + seq!["M=D"@, "A=A+1"@]);
    } else {
        lemma_local_init_lines_snoc((k - 1) as nat);
        assert(local_init_lines(k) =~= local_init_lines((k - 1) as nat) + seq![
            "M=D"@,
            "A=A+1"@,
        ]);
    }
}

fn at_line(sym: &str) -> (r: String)
    ensures
        r@ == at_sym(sym@),
{
    let mut s = String::new();
    push_char(&mut s, '@');
    s.append(sym);
    proof {
        assert(s@ =~= at_sym(sym@));
    }
    s
}

fn label_def_line(sym: &str) -> (r: String)
    ensures
        r@ == label_def(sym@),
{
    let mut s = String::new();
    push_char(&mut s, '(');
    s.append(sym);
    push_char(&mut s, ')');
    proof {
        assert(s@ =~= label_def(sym@));
    }
    s
}

fn static_symbol_str(unit: &str, index: usize) -> (r: String)
    ensures
        r@ == static_symbol(unit@, index as nat),
{
    let mut s = String::new();
    s.append(unit);
    push_char(&mut s, '.');
    s.append(usize_to_string(index).as_str());
    proof {
        assert(s@ =~= static_symbol(unit@, index as nat));
    }
    s
}

fn scoped_label_str(unit: &str, label: &str) -> (r: String)
    ensures
        r@ == scoped_label(unit@, label@),
{
    let mut s = String::new();
    s.append(unit);
    push_char(&mut s, '$');
    s.append(label);
    proof {
        assert(s@ =~= scoped_label(unit@, label@));
    }
    s
}

fn numbered_label_str(prefix: &str, n: usize) -> (r: String)
    ensures
        r@ == prefix@ + dec_str(n as nat),
{
    let mut s = String::new();
    s.append(prefix);
    s.append(usize_to_string(n).as_str());
    proof {
        assert(s@ =~= prefix@ + dec_str(n as nat));
    }
    s
}

/// The fixed prologue of a combined program: set the stack pointer to its
/// base and transfer control to the entry procedure.
pub open spec fn bootstrap_lines() -> Seq<Seq<char>> {
    seq!["@256"@, "D=A"@, "@R0"@, "M=D"@, "@Sys.init"@, "0;JMP"@]
}

/// The fixed epilogue: a labelled jump to itself, holding the machine once
/// control reaches the end of the stream.
pub open spec fn halt_lines() -> Seq<Seq<char>> {
    seq!["(Sys.end)"@, "@Sys.end"@, "0;JMP"@]
}

pub struct CodeGen {
    current_filename: String,
    goto_index: usize,
    return_index: usize,
    assembly_code: Vec<String>,
}

impl CodeGen {
    /// The current program-unit name, which scopes static references and
    /// flow labels.
    pub closed spec fn unit(&self) -> Seq<char> {
        self.current_filename@
    }

    /// The session counter numbering generated comparison labels.
    pub closed spec fn label_counter(&self) -> nat {
        self.goto_index as nat
    }

    /// The session counter numbering generated return-address labels.
    pub closed spec fn call_counter(&self) -> nat {
        self.return_index as nat
    }

    /// The assembly lines generated so far.
    pub closed spec fn code(&self) -> Seq<Seq<char>> {
        self.assembly_code.deep_view()
    }

    /// A fresh generator: no lines, counters at zero, and a placeholder
    /// unit name until one is set.
    pub fn new() -> (r: CodeGen)
        ensures
            r.unit() == "Global"@,
            r.label_counter() == 0,
            r.call_counter() == 0,
            r.code() == Seq::<Seq<char>>::empty(),
    {
        let r = CodeGen {
            current_filename: "Global".to_owned(),
            goto_index: 0,
            return_index: 0,
            assembly_code: Vec::new(),
        };
        proof {
            assert(r.code() =~= Seq::<Seq<char>>::empty());
        }
        r
    }

    /// The current unit name.
    pub fn get_current_filename(&self) -> (r: &String)
        ensures
            r@ == self.unit(),
    {
        &self.current_filename
    }

    /// Sets the unit name that scopes the commands that follow.
    pub fn set_current_filename(&mut self, filename: &str)
        ensures
            final(self).unit() == filename@,
            final(self).label_counter() == old(self).label_counter(),
            final(self).call_counter() == old(self).call_counter(),
            final(self).code() == old(self).code(),
    {
        self.current_filename = filename.to_owned();
    }

    /// The generated lines.
    pub fn get_assembly_code(&self) -> (r: &Vec<String>)
        ensures
            r.deep_view() == self.code(),
    {
        &self.assembly_code
    }

    /// The whole program stream: the bootstrap prologue, the generated
    /// lines, and the holding epilogue.
    pub fn output(&self) -> (r: Vec<String>)
        ensures
            r.deep_view() == bootstrap_lines() + self.code() + halt_lines(),
    {
        let mut code: Vec<String> = Vec::new();
        code.push("@256".to_owned());
        code.push("D=A".to_owned());
        code.push("@R0".to_owned());
        code.push("M=D".to_owned());
        code.push("@Sys.init".to_owned());
        code.push("0;JMP".to_owned());
        let mut i: usize = 0;
        while i < self.assembly_code.len()
            invariant
                i <= self.assembly_code.len(),
                code.deep_view() == bootstrap_lines() + self.code().subrange(0, i as int),
            decreases self.assembly_code.len() - i,
        {
            let ghost prev = code.deep_view();
            code.push(self.assembly_code[i].clone());
            proof {
                assert(code.deep_view() =~= prev.push(self.code()[i as int]));
                assert(code.deep_view() =~= bootstrap_lines() + self.code().subrange(
                    0,
                    i as int + 1,
                ));
            }
            i = i + 1;
        }
        proof {
            assert(self.code().subrange(0, self.code().len() as int) =~= self.code());
        }
        let ghost before_halt = code.deep_view();
        code.push("(Sys.end)".to_owned());
        code.push("@Sys.end".to_owned());
        code.push("0;JMP".to_owned());
        proof {
            assert(code.deep_view() =~= bootstrap_lines() + self.code() + halt_lines());
        }
        code
    }

    /// Appends one generated line.
    fn emit(&mut self, line: String)
        ensures
            final(self).code() == old(self).code().push(line@),
            final(self).unit() == old(self).unit(),
            final(self).label_counter() == old(self).label_counter(),
            final(self).call_counter() == old(self).call_counter(),
    {
        let ghost prev = self.assembly_code.deep_view();
        let ghost l = line@;
        self.assembly_code.push(line);
        proof {
            assert(self.assembly_code.deep_view() =~= prev.push(l));
        }
    }

    /// Emits the pop of the stack top into the data register.
    fn pop_stack_to_d(&mut self)
        ensures
            final(self).code() == old(self).code() + pop_d_lines(),
            final(self).unit() == old(self).unit(),
            final(self).label_counter() == old(self).label_counter(),
            final(self).call_counter() == old(self).call_counter(),
    {
        self.emit("@SP".to_owned());
        self.emit("AM=M-1".to_owned());
        self.emit("D=M".to_owned());
        proof {
            assert(final(self).code() =~= old(self).code() + pop_d_lines());
        }
    }

    /// Expands one arithmetic or logical operation; a comparison takes the
    /// next branch-label number.
    fn gen_arithmetic(&mut self, op: Op)
        requires
            (op == Op::Equal || op == Op::GreaterThan || op == Op::LessThan) ==> old(
                self,
            ).label_counter() < usize::MAX,
        ensures
            final(self).code() == old(self).code() + arithmetic_lines(
                op,
                old(self).label_counter(),
            ),
            final(self).unit() == old(self).unit(),
            final(self).label_counter() == old(self).label_counter() + (
            if op == Op::Equal || op == Op::GreaterThan || op == Op::LessThan {
                1nat
            } else {
                0nat
            }),
            final(self).call_counter() == old(self).call_counter(),
    {
        match op {
            Op::Add | Op::Subtract | Op::And | Op::Or => {
                self.pop_stack_to_d();
                self.emit("@R13".to_owned());
                self.emit("M=D".to_owned());
                self.pop_stack_to_d();
                self.emit("@R13".to_owned());
                if op == Op::Add {
                    self.emit("D=D+M".to_owned());
                } else if op == Op::Subtract {
                    self.emit("D=D-M".to_owned());
                } else if op == Op::And {
                    self.emit("D=D&M".to_owned());
                } else {
                    self.emit("D=D|M".to_owned());
                }
                self.push_d_to_stack();
                proof {
                    assert(final(self).code() =~= old(self).code() + arithmetic_lines(
                        op,
                        old(self).label_counter(),
                    ));
                }
            },
            Op::Negate | Op::Not => {
                self.pop_stack_to_d();
                if op == Op::Negate {
                    self.emit("D=-D".to_owned());
                } else {
                    self.emit("D=!D".to_owned());
                }
                self.push_d_to_stack();
                proof {
                    assert(final(self).code() =~= old(self).code() + arithmetic_lines(
                        op,
                        old(self).label_counter(),
                    ));
                }
            },
            Op::Equal | Op::GreaterThan | Op::LessThan => {
                self.pop_stack_to_d();
                self.emit("@R13".to_owned());
                self.emit("M=D".to_owned());
                self.pop_stack_to_d();
                self.emit("@R13".to_owned());
                self.emit("D=D-M".to_owned());
                let truthy = numbered_label_str("TRUTHY", self.goto_index);
                let falsy = numbered_label_str("FALSY", self.goto_index);
                self.emit(at_line(truthy.as_str()));
                if op == Op::Equal {
                    self.emit("D;JEQ".to_owned());
                } else if op == Op::GreaterThan {
                    self.emit("D;JGT".to_owned());
                } else {
                    self.emit("D;JLT".to_owned());
                }
                self.emit("D=0".to_owned());
                self.emit(at_line(falsy.as_str()));
                self.emit("0;JMP".to_owned());
                self.emit(label_def_line(truthy.as_str()));
                self.emit("D=-1".to_owned());
                self.emit(label_def_line(falsy.as_str()));
                self.push_d_to_stack();
                self.goto_index = self.goto_index + 1;
                proof {
                    assert(final(self).code() =~= old(self).code() + arithmetic_lines(
                        op,
                        old(self).label_counter(),
                    ));
                }
            },
        }
    }

    /// Expands a push: leave the source value in the data register, then
    /// push it.
    fn gen_push(&mut self, segment: Segment, index: usize)
        ensures
            final(self).code() == old(self).code() + push_lines(
                segment,
                index as nat,
                old(self).unit(),
            ),
            final(self).unit() == old(self).unit(),
            final(self).label_counter() == old(self).label_counter(),
            final(self).call_counter() == old(self).call_counter(),
    {
        match segment {
            Segment::Argument => {
                self.emit("@ARG".to_owned());
                self.emit("D=M".to_owned());
                self.assign_segment_index_to_d(index);
            },
            Segment::Local => {
                self.emit("@LCL".to_owned());
                self.emit("D=M".to_owned());
                self.assign_segment_index_to_d(index);
            },
            Segment::Temp => {
                self.emit("@5".to_owned());
                self.emit("D=A".to_owned());
                self.assign_segment_index_to_d(index);
            },
            Segment::Pointer => {
                self.emit("@3".to_owned());
                self.emit("D=A".to_owned());
                self.assign_segment_index_to_d(index);
            },
            Segment::This => {
                self.emit("@THIS".to_owned());
                self.emit("D=M".to_owned());
                self.assign_segment_index_to_d(index);
            },
            Segment::That => {
                self.emit("@THAT".to_owned());
                self.emit("D=M".to_owned());
                self.assign_segment_index_to_d(index);
            },
            Segment::Static => {
                let sym = static_symbol_str(self.current_filename.as_str(), index);
                self.emit(at_line(sym.as_str()));
                self.emit("D=M".to_owned());
            },
            Segment::Constant => {
                let num = usize_to_string(index);
                self.emit(at_line(num.as_str()));
                self.emit("D=A".to_owned());
            },
        }
        self.push_d_to_stack();
        proof {
            assert(final(self).code() =~= old(self).code() + push_lines(
                segment,
                index as nat,
                old(self).unit(),
            ));
        }
    }

    /// Emits the index offset and dereference shared by the push of every
    /// base-addressed segment.
    fn assign_segment_index_to_d(&mut self, index: usize)
        ensures
            final(self).code() == old(self).code() + seq![
                at_sym(dec_str(index as nat)),
                "A=D+A"@,
                "D=M"@,
            ],
            final(self).unit() == old(self).unit(),
            final(self).label_counter() == old(self).label_counter(),
            final(self).call_counter() == old(self).call_counter(),
    {
        let num = usize_to_string(index);
        self.emit(at_line(num.as_str()));
        self.emit("A=D+A".to_owned());
        self.emit("D=M".to_owned());
        proof {
            assert(final(self).code() =~= old(self).code() + seq![
                at_sym(dec_str(index as nat)),
                "A=D+A"@,
                "D=M"@,
            ]);
        }
    }

    /// Emits the slot-address computation shared by the pop of every
    /// base-addressed segment, parking the address in the scratch register.
    fn assign_segment_index_to_temp(&mut self, index: usize)
        ensures
            final(self).code() == old(self).code() + seq![
                at_sym(dec_str(index as nat)),
                "D=D+A"@,
                "@R13"@,
                "M=D"@,
            ],
            final(self).unit() == old(self).unit(),
            final(self).label_counter() == old(self).label_counter(),
            final(self).call_counter() == old(self).call_counter(),
    {
        let num = usize_to_string(index);
        self.emit(at_line(num.as_str()));
        self.emit("D=D+A".to_owned());
        self.emit("@R13".to_owned());
        self.emit("M=D".to_owned());
        proof {
            assert(final(self).code() =~= old(self).code() + seq![
                at_sym(dec_str(index as nat)),
                "D=D+A"@,
                "@R13"@,
                "M=D"@,
            ]);
        }
    }

    /// Expands a pop: park the slot address, pop the stack, store through
    /// the parked address. The constant segment has no slot.
    fn gen_pop(&mut self, segment: Segment, index: usize)
        requires
            segment != Segment::Constant,
        ensures
            final(self).code() == old(self).code() + pop_lines(
                segment,
                index as nat,
                old(self).unit(),
            ),
            final(self).unit() == old(self).unit(),
            final(self).label_counter() == old(self).label_counter(),
            final(self).call_counter() == old(self).call_counter(),
    {
        match segment {
            Segment::Argument => {
                self.emit("@ARG".to_owned());
                self.emit("D=M".to_owned());
                self.assign_segment_index_to_temp(index);
            },
            Segment::Local => {
                self.emit("@LCL".to_owned());
                self.emit("D=M".to_owned());
                self.assign_segment_index_to_temp(index);
            },
            Segment::Temp => {
                self.emit("@5".to_owned());
                self.emit("D=A".to_owned());
                self.assign_segment_index_to_temp(index);
            },
            Segment::Pointer => {
                self.emit("@3".to_owned());
                self.emit("D=A".to_owned());
                self.assign_segment_index_to_temp(index);
            },
            Segment::This => {
                self.emit("@THIS".to_owned());
                self.emit("D=M".to_owned());
                self.assign_segment_index_to_temp(index);
            },
            Segment::That => {
                self.emit("@THAT".to_owned());
                self.emit("D=M".to_owned());
                self.assign_segment_index_to_temp(index);
            },
            Segment::Static => {
                let sym = static_symbol_str(self.current_filename.as_str(), index);
                self.emit(at_line(sym.as_str()));
                self.emit("D=A".to_owned());
                self.emit("@R13".to_owned());
                self.emit("M=D".to_owned());
            },
            Segment::Constant => unreached(),
        }
        self.pop_stack_to_d();
        self.emit("@R13".to_owned());
        self.emit("A=M".to_owned());
        self.emit("M=D".to_owned());
        proof {
            assert(final(self).code() =~= old(self).code() + pop_lines(
                segment,
                index as nat,
                old(self).unit(),
            ));
        }
    }

    /// Emits one unit-scoped label definition.
    pub fn gen_label(&mut self, label: String)
        ensures
            final(self).code() == old(self).code() + label_lines(old(self).unit(), label@),
            final(self).unit() == old(self).unit(),
            final(self).label_counter() == old(self).label_counter(),
            final(self).call_counter() == old(self).call_counter(),
    {
        let sym = scoped_label_str(self.current_filename.as_str(), label.as_str());
        self.emit(label_def_line(sym.as_str()));
        proof {
            assert(final(self).code() =~= old(self).code() + label_lines(
                old(self).unit(),
                label@,
            ));
        }
    }

    /// Emits an unconditional jump to a unit-scoped label.
    pub fn gen_goto(&mut self, label: String)
        ensures
            final(self).code() == old(self).code() + goto_lines(old(self).unit(), label@),
            final(self).unit() == old(self).unit(),
            final(self).label_counter() == old(self).label_counter(),
            final(self).call_counter() == old(self).call_counter(),
    {
        let sym = scoped_label_str(self.current_filename.as_str(), label.as_str());
        self.emit(at_line(sym.as_str()));
        self.emit("0;JMP".to_owned());
        proof {
            assert(final(self).code() =~= old(self).code() + goto_lines(old(self).unit(), label@));
        }
    }

    /// Emits a conditional jump: pop the stack top and jump on nonzero.
    pub fn gen_if_goto(&mut self, label: String)
        ensures
            final(self).code() == old(self).code() + if_goto_lines(old(self).unit(), label@),
            final(self).unit() == old(self).unit(),
            final(self).label_counter() == old(self).label_counter(),
            final(self).call_counter() == old(self).call_counter(),
    {
        self.pop_stack_to_d();
        let sym = scoped_label_str(self.current_filename.as_str(), label.as_str());
        self.emit(at_line(sym.as_str()));
        self.emit("D;JNE".to_owned());
        proof {
            assert(final(self).code() =~= old(self).code() + if_goto_lines(
                old(self).unit(),
                label@,
            ));
        }
    }

    /// Expands a call site: save the return address and the caller's four
    /// segment pointers, rebase the argument and local pointers, jump to the
    /// callee, and land the numbered return label.
    pub fn gen_call(&mut self, fn_name: String, arity: usize)
        requires
            old(self).call_counter() < usize::MAX,
        ensures
            final(self).code() == old(self).code() + call_lines(
                fn_name@,
                arity as nat,
                old(self).call_counter(),
            ),
            final(self).unit() == old(self).unit(),
            final(self).label_counter() == old(self).label_counter(),
            final(self).call_counter() == old(self).call_counter() + 1,
    {
        let ret = numbered_label_str("RETURN", self.return_index);
        self.emit(at_line(ret.as_str()));
        self.emit("D=A".to_owned());
        self.push_d_to_stack();
        self.emit("@LCL".to_owned());
        self.emit("D=M".to_owned());
        self.push_d_to_stack();
        self.emit("@ARG".to_owned());
        self.emit("D=M".to_owned());
        self.push_d_to_stack();
        self.emit("@THIS".to_owned());
        self.emit("D=M".to_owned());
        self.push_d_to_stack();
        self.emit("@THAT".to_owned());
        self.emit("D=M".to_owned());
        self.push_d_to_stack();
        self.emit("D=M".to_owned());
        self.emit("@5".to_owned());
        self.emit("D=D-A".to_owned());
        let num = usize_to_string(arity);
        self.emit(at_line(num.as_str()));
        self.emit("D=D-A".to_owned());
        self.emit("@ARG".to_owned());
        self.emit("M=D".to_owned());
        self.emit("@SP".to_owned());
        self.emit("D=M".to_owned());
        self.emit("@LCL".to_owned());
        self.emit("M=D".to_owned());
        self.emit(at_line(fn_name.as_str()));
        self.emit("0;JMP".to_owned());
        self.emit(label_def_line(ret.as_str()));
        self.return_index = self.return_index + 1;
        proof {
            assert(final(self).code() =~= old(self).code() + call_lines(
                fn_name@,
                arity as nat,
                old(self).call_counter(),
            ));
        }
    }

    /// Expands a function definition: its entry label, then code that
    /// zeroes exactly the declared number of local slots and advances the
    /// stack pointer past them; with no locals, the label alone.
    pub fn gen_function(&mut self, fn_name: String, local_vars: usize)
        ensures
            final(self).code() == old(self).code() + function_lines(fn_name@, local_vars as nat),
            final(self).unit() == old(self).unit(),
            final(self).label_counter() == old(self).label_counter(),
            final(self).call_counter() == old(self).call_counter(),
    {
        self.emit(label_def_line(fn_name.as_str()));
        if local_vars == 0 {
            proof {
                assert(final(self).code() =~= old(self).code() + function_lines(
                    fn_name@,
                    local_vars as nat,
                ));
            }
            return ;
        }
        self.emit("@0".to_owned());
        self.emit("D=A".to_owned());
        self.emit("@SP".to_owned());
        self.emit("A=M".to_owned());
        let ghost head = old(self).code() + seq![
            label_def(fn_name@),
            "@0"@,
            "D=A"@,
            "@SP"@,
            "A=M"@,
        ];
        proof {
            assert(self.code() =~= head);
        }
        let mut k: usize = 0;
        while k < local_vars
            invariant
                k <= local_vars,
                self.code() == head + local_init_lines(k as nat),
                self.unit() == old(self).unit(),
                self.label_counter() == old(self).label_counter(),
                self.call_counter() == old(self).call_counter(),
            decreases local_vars - k,
        {
            self.emit("M=D".to_owned());
            self.emit("A=A+1".to_owned());
            proof {
                lemma_local_init_lines_snoc(k as nat + 1);
                assert(self.code() =~= head + local_init_lines(k as nat + 1));
            }
            k = k + 1;
        }
        self.emit("D=A".to_owned());
        self.emit("@SP".to_owned());
        self.emit("M=D".to_owned());
        proof {
            assert(final(self).code() =~= old(self).code() + function_lines(
                fn_name@,
                local_vars as nat,
            ));
        }
    }

    /// Expands a return: capture the frame, fetch the return address,
    /// relocate the return value, restore the caller's stack pointer and
    /// segment pointers in fixed order, and jump through the captured
    /// address.
    #[verifier::rlimit(60)]
    pub fn gen_return(&mut self)
        ensures
            final(self).code() == old(self).code() + return_lines(),
            final(self).unit() == old(self).unit(),
            final(self).label_counter() == old(self).label_counter(),
            final(self).call_counter() == old(self).call_counter(),
    {
        self.emit("@LCL".to_owned());
        self.emit("D=M".to_owned());
        self.emit("@R13".to_owned());
        self.emit("M=D".to_owned());
        self.emit("@5".to_owned());
        self.emit("A=D-A".to_owned());
        self.emit("D=M".to_owned());
        self.emit("@R14".to_owned());
        self.emit("M=D".to_owned());
        self.emit("@SP".to_owned());
        self.emit("AM=M-1".to_owned());
        self.emit("D=M".to_owned());
        self.emit("@ARG".to_owned());
        self.emit("A=M".to_owned());
        self.emit("M=D".to_owned());
        self.emit("@ARG".to_owned());
        self.emit("D=M+1".to_owned());
        self.emit("@SP".to_owned());
        self.emit("M=D".to_owned());
        self.emit("@R13".to_owned());
        self.emit("AM=M-1".to_owned());
        self.emit("D=M".to_owned());
        self.emit("@THAT".to_owned());
        self.emit("M=D".to_owned());
        self.emit("@R13".to_owned());
        self.emit("AM=M-1".to_owned());
        self.emit("D=M".to_owned());
        self.emit("@THIS".to_owned());
        self.emit("M=D".to_owned());
        self.emit("@R13".to_owned());
        self.emit("AM=M-1".to_owned());
        self.emit("D=M".to_owned());
        self.emit("@ARG".to_owned());
        self.emit("M=D".to_owned());
        self.emit("@R13".to_owned());
        self.emit("AM=M-1".to_owned());
        self.emit("D=M".to_owned());
        self.emit("@LCL".to_owned());
        self.emit("M=D".to_owned());
        self.emit("@R14".to_owned());
        self.emit("A=M".to_owned());
        self.emit("0;JMP".to_owned());
        proof {
            assert(final(self).code() =~= old(self).code() + return_lines());
        }
    }

    /// Expands one parsed command. Popping to the constant segment is a
    /// fatal error; a comparison or a call must have a fresh counter number
    /// left.
    pub fn gen_command(&mut self, command: Command)
        requires
            !(command@ matches CommandModel::Pop(Segment::Constant, _)),
            old(self).label_counter() + label_counter_delta(command@) <= usize::MAX,
            old(self).call_counter() + call_counter_delta(command@) <= usize::MAX,
        ensures
            final(self).code() == old(self).code() + command_lines(
                command@,
                old(self).unit(),
                old(self).label_counter(),
                old(self).call_counter(),
            ),
            final(self).unit() == old(self).unit(),
            final(self).label_counter() == old(self).label_counter() + label_counter_delta(
                command@,
            ),
            final(self).call_counter() == old(self).call_counter() + call_counter_delta(command@),
    {
        match command {
            Command::Arithmetic(op) => {
                self.gen_arithmetic(op);
            },
            Command::Push(segment, index) => {
                self.gen_push(segment, index);
            },
            Command::Pop(segment, index) => {
                self.gen_pop(segment, index);
            },
            Command::Label(label) => {
                self.gen_label(label);
            },
            Command::Goto(label) => {
                self.gen_goto(label);
            },
            Command::IfGoto(label) => {
                self.gen_if_goto(label);
            },
            Command::Call(fn_name, arity) => {
                self.gen_call(fn_name, arity);
            },
            Command::Function(fn_name, local_vars) => {
                self.gen_function(fn_name, local_vars);
            },
            Command::Return => {
                self.gen_return();
            },
        }
    }

    /// Emits the push of the data register onto the stack.
    fn push_d_to_stack(&mut self)
        ensures
            final(self).code() == old(self).code() + push_d_lines(),
            final(self).unit() == old(self).unit(),
            final(self).label_counter() == old(self).label_counter(),
            final(self).call_counter() == old(self).call_counter(),
    {
        self.emit("@SP".to_owned());
        self.emit("A=M".to_owned());
        self.emit("M=D".to_owned());
        self.emit("@SP".to_owned());
        self.emit("M=M+1".to_owned());
        proof {
            assert(final(self).code() =~= old(self).code() + push_d_lines());
        }
    }
}

} // verus!
