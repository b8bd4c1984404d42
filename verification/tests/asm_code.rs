use vmasm::asm_code_gen::{decode_command, generate_command, Command};

#[test]
fn gen_command() {
    let command = Command { dest: "MD", comp: "D+M", jump: "JGE" };
    let binary_command = generate_command(command);
    assert_eq!(binary_command, String::from("1111000010011011"));
}

#[test]
fn no_dest() {
    let command = Command { dest: "", comp: "D+M", jump: "JGE" };
    let binary_command = generate_command(command);
    assert_eq!(binary_command, String::from("1111000010000011"));
}

#[test]
fn no_jump() {
    let command = Command { dest: "MD", comp: "D+M", jump: "" };
    let binary_command = generate_command(command);
    assert_eq!(binary_command, String::from("1111000010011000"));
}

#[test]
#[should_panic]
fn no_comp() {
    let command = Command { dest: "MD", comp: "", jump: "JGE" };
    generate_command(command);
}

#[test]
fn every_mnemonic_triple_round_trips() {
    let dests = ["", "M", "D", "MD", "A", "AM", "AD", "AMD"];
    let comps = [
        "0", "1", "-1", "D", "A", "M", "!D", "!A", "!M", "-D", "-A", "-M", "D+1", "A+1", "M+1",
        "D-1", "A-1", "M-1", "D+A", "D+M", "D-A", "D-M", "A-D", "M-D", "D&A", "D&M", "D|A",
        "D|M",
    ];
    let jumps = ["", "JGT", "JEQ", "JGE", "JLT", "JNE", "JLE", "JMP"];
    for dest in dests.iter() {
        for comp in comps.iter() {
            for jump in jumps.iter() {
                let word = generate_command(Command { dest, comp, jump });
                let decoded = decode_command(&word).unwrap();
                assert_eq!(decoded.0, *dest);
                assert_eq!(decoded.1, *comp);
                assert_eq!(decoded.2, *jump);
            }
        }
    }
}

#[test]
fn unknown_dest_and_jump_degrade_to_zero() {
    let command = Command { dest: "XY", comp: "0", jump: "JNP" };
    assert_eq!(generate_command(command), String::from("1110101010000000"));
}

#[test]
fn full_width_command() {
    let command = Command { dest: "AMD", comp: "D|M", jump: "JNE" };
    assert_eq!(generate_command(command), String::from("1111010101111101"));
}
