use vmasm::vm_translator::Translator;

#[test]
fn translate() {
    let mut translator = Translator::new();

    let vm_program = "
        // Test VM Program

        push argument 3
        push constant 5
        add
        pop local 0 // local[0] = arg[3] + 5

        push static 2
        push this 1
        gt

        not

        "
    .to_string();

    let assembly_code = vec![
        "@256", "D=A", "@R0", "M=D", "@Sys.init", "0;JMP", "@ARG", "D=M", "@3", "A=D+A", "D=M",
        "@SP", "A=M", "M=D", "@SP", "M=M+1", "@5", "D=A", "@SP", "A=M", "M=D", "@SP", "M=M+1",
        "@SP", "AM=M-1", "D=M", "@R13", "M=D", "@SP", "AM=M-1", "D=M", "@R13", "D=D+M", "@SP",
        "A=M", "M=D", "@SP", "M=M+1", "@LCL", "D=M", "@0", "D=D+A", "@R13", "M=D", "@SP",
        "AM=M-1", "D=M", "@R13", "A=M", "M=D", "@foo.2", "D=M", "@SP", "A=M", "M=D", "@SP",
        "M=M+1", "@THIS", "D=M", "@1", "A=D+A", "D=M", "@SP", "A=M", "M=D", "@SP", "M=M+1",
        "@SP", "AM=M-1", "D=M", "@R13", "M=D", "@SP", "AM=M-1", "D=M", "@R13", "D=D-M",
        "@TRUTHY0", "D;JGT", "D=0", "@FALSY0", "0;JMP", "(TRUTHY0)", "D=-1", "(FALSY0)", "@SP",
        "A=M", "M=D", "@SP", "M=M+1", "@SP", "AM=M-1", "D=M", "D=!D", "@SP", "A=M", "M=D",
        "@SP", "M=M+1", "(Sys.end)", "@Sys.end", "0;JMP",
    ]
    .join("\n");

    translator.translate(String::from("foo"), vm_program);

    assert_eq!(translator.output(), assembly_code);
}

#[test]
fn static_references_are_scoped_by_unit() {
    let mut translator = Translator::new();
    translator.translate(String::from("Alpha"), String::from("push static 0"));
    translator.translate(String::from("Beta"), String::from("push static 0"));
    let out = translator.output();
    assert!(out.contains("@Alpha.0"));
    assert!(out.contains("@Beta.0"));
    assert!(!out.contains("@Alpha.0\nD=M\n@SP\nA=M\nM=D\n@SP\nM=M+1\n@Alpha.0"));
}

#[test]
fn generated_labels_stay_unique_across_units() {
    let mut translator = Translator::new();
    translator.translate(String::from("One"), String::from("eq"));
    translator.translate(String::from("Two"), String::from("eq"));
    let out = translator.output();
    assert!(out.contains("(TRUTHY0)"));
    assert!(out.contains("(TRUTHY1)"));
}
