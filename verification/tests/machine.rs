//! End-to-end scenarios: stack commands are expanded to assembly, the
//! assembly is assembled to binary words, and the words are run on a small
//! interpreter of the target machine.

use vmasm::assembler::Assembler;
use vmasm::vm_code_gen::CodeGen;
use vmasm::vm_parser::{Command, Op, Segment};

/// Runs binary word lines on the target machine until the program counter
/// leaves the program or the step budget runs out.
fn run(binary: &str, ram: &mut Vec<u16>, max_steps: usize) {
    let words: Vec<u16> =
        binary.lines().map(|line| u16::from_str_radix(line, 2).unwrap()).collect();
    let mut pc: usize = 0;
    let mut a: u16 = 0;
    let mut d: u16 = 0;
    let mut steps: usize = 0;
    while pc < words.len() {
        steps += 1;
        assert!(steps <= max_steps, "step budget exhausted");
        let w = words[pc];
        if w & 0x8000 == 0 {
            a = w;
            pc += 1;
            continue;
        }
        let a_bit = (w >> 12) & 1;
        let c = (w >> 6) & 0x3F;
        let dest = (w >> 3) & 0x7;
        let jump = w & 0x7;
        let x = d as i16;
        let y = if a_bit == 1 { ram[a as usize] as i16 } else { a as i16 };
        let out: i16 = match c {
            0b101010 => 0,
            0b111111 => 1,
            0b111010 => -1,
            0b001100 => x,
            0b110000 => y,
            0b001101 => !x,
            0b110001 => !y,
            0b001111 => x.wrapping_neg(),
            0b110011 => y.wrapping_neg(),
            0b011111 => x.wrapping_add(1),
            0b110111 => y.wrapping_add(1),
            0b001110 => x.wrapping_sub(1),
            0b110010 => y.wrapping_sub(1),
            0b000010 => x.wrapping_add(y),
            0b010011 => x.wrapping_sub(y),
            0b000111 => y.wrapping_sub(x),
            0b000000 => x & y,
            0b010101 => x | y,
            _ => panic!("unknown computation code"),
        };
        let out_u = out as u16;
        if dest & 0b001 != 0 {
            ram[a as usize] = out_u;
        }
        if dest & 0b010 != 0 {
            d = out_u;
        }
        if dest & 0b100 != 0 {
            a = out_u;
        }
        let taken = match jump {
            0 => false,
            1 => out > 0,
            2 => out == 0,
            3 => out >= 0,
            4 => out < 0,
            5 => out != 0,
            6 => out <= 0,
            _ => true,
        };
        if taken {
            pc = a as usize;
        } else {
            pc += 1;
        }
    }
}

fn assemble_commands(unit: &str, commands: Vec<Command>) -> String {
    let mut code_gen = CodeGen::new();
    code_gen.set_current_filename(unit);
    for command in commands {
        code_gen.gen_command(command);
    }
    Assembler::assemble(code_gen.get_assembly_code().join("\n"))
}

#[test]
fn push_and_pop_reach_the_local_segment() {
    let binary = assemble_commands(
        "Main",
        vec![
            Command::Push(Segment::Constant, 7),
            Command::Pop(Segment::Local, 0),
        ],
    );
    let mut ram = vec![0u16; 32768];
    ram[0] = 256;
    ram[1] = 300;
    run(&binary, &mut ram, 1000);
    assert_eq!(ram[300], 7);
    assert_eq!(ram[0], 256);
}

#[test]
fn greater_than_leaves_all_ones() {
    let binary = assemble_commands(
        "Main",
        vec![
            Command::Push(Segment::Constant, 5),
            Command::Push(Segment::Constant, 3),
            Command::Arithmetic(Op::GreaterThan),
        ],
    );
    let mut ram = vec![0u16; 32768];
    ram[0] = 256;
    run(&binary, &mut ram, 1000);
    assert_eq!(ram[0], 257);
    assert_eq!(ram[256], 0xFFFF);
}

#[test]
fn call_and_return_leave_one_value_for_the_caller() {
    let binary = assemble_commands(
        "Main",
        vec![
            Command::Call(String::from("Foo"), 0),
            Command::Goto(String::from("DONE")),
            Command::Function(String::from("Foo"), 0),
            Command::Push(Segment::Constant, 42),
            Command::Return,
            Command::Label(String::from("DONE")),
        ],
    );
    let mut ram = vec![0u16; 32768];
    ram[0] = 256;
    ram[1] = 300;
    ram[2] = 400;
    run(&binary, &mut ram, 10000);
    assert_eq!(ram[256], 42, "the return value stands where the callee's argument base pointed");
    assert_eq!(ram[0], 257, "the caller's stack grew by exactly one word");
    assert_eq!(ram[1], 300, "the caller's local pointer is restored");
    assert_eq!(ram[2], 400, "the caller's argument pointer is restored");
}

#[test]
fn function_initializes_its_locals_to_zero() {
    let binary = assemble_commands(
        "Main",
        vec![Command::Function(String::from("Foo"), 3)],
    );
    let mut ram = vec![0u16; 32768];
    ram[0] = 256;
    ram[256] = 9;
    ram[257] = 9;
    ram[258] = 9;
    run(&binary, &mut ram, 1000);
    assert_eq!(ram[256], 0);
    assert_eq!(ram[257], 0);
    assert_eq!(ram[258], 0);
    assert_eq!(ram[0], 259);
}
