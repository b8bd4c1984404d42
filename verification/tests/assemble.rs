use vmasm::assembler::Assembler;

#[test]
fn assemble() {
    let program = "
           // Test Program

           @42
           D=M;JLT // will never jump

           @foo // not used
           @bar
           M=D

           (END)
           @END
           0;JMP

        "
    .to_string();

    let mut output = String::new();
    output.push_str("0000000000101010\n");
    output.push_str("1111110000010100\n");
    output.push_str("0000000000010000\n");
    output.push_str("0000000000010001\n");
    output.push_str("1110001100001000\n");
    output.push_str("0000000000000101\n");
    output.push_str("1110101010000111\n");

    assert_eq!(Assembler::assemble(program), output);
}

#[test]
fn fixed_arithmetic_program() {
    let program = "@2\nD=A\n@3\nD=D+A\n@0\nM=D".to_string();
    let expected = [
        "0000000000000010",
        "1110110000010000",
        "0000000000000011",
        "1110000010010000",
        "0000000000000000",
        "1110001100001000",
    ]
    .iter()
    .map(|line| format!("{}\n", line))
    .collect::<String>();
    assert_eq!(Assembler::assemble(program), expected);
}

#[test]
fn empty_program_assembles_to_nothing() {
    assert_eq!(Assembler::try_assemble("// nothing here\n"), Some(String::new()));
}

#[test]
fn forward_reference_resolves() {
    let program = "@SKIP\n0;JMP\n@1\n(SKIP)\nD=0".to_string();
    let expected = "0000000000000011\n1110101010000111\n0000000000000001\n1110101010010000\n";
    assert_eq!(Assembler::assemble(program), expected);
}

#[test]
fn unknown_computation_is_refused() {
    assert_eq!(Assembler::try_assemble("D=X"), None);
}

#[test]
fn semicolon_before_equals_is_refused() {
    assert_eq!(Assembler::try_assemble("0;JMP=D"), None);
}

#[test]
fn unclosed_label_line_is_refused() {
    assert_eq!(Assembler::try_assemble("("), None);
}

#[test]
fn numeric_literal_too_large_becomes_a_variable() {
    // 70000 does not fit the sixteen-bit word, so the operand is treated as
    // a fresh variable name and receives the first free address.
    let program = "@70000".to_string();
    assert_eq!(Assembler::assemble(program), "0000000000010000\n");
}
