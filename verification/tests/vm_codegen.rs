use vmasm::vm_code_gen::CodeGen;
use vmasm::vm_parser::{Command, Op, Segment};

#[test]
fn new_code_gen() {
    let code_gen = CodeGen::new();
    assert_eq!(code_gen.get_current_filename(), &String::from("Global"));
    assert_eq!(code_gen.get_assembly_code(), &Vec::<String>::new());
}

#[test]
fn set_current_filename() {
    let mut code_gen = CodeGen::new();
    code_gen.set_current_filename("Foo");
    assert_eq!(code_gen.get_current_filename(), &String::from("Foo"));
}

#[test]
fn gen_push() {
    let mut code_gen = CodeGen::new();
    code_gen.gen_command(Command::Push(Segment::Argument, 3));

    assert_eq!(
        code_gen.get_assembly_code(),
        &vec![
            // D = *ARG[3]
            String::from("@ARG"),
            String::from("D=M"),
            String::from("@3"),
            String::from("A=D+A"),
            String::from("D=M"),
            // *SP = D
            String::from("@SP"),
            String::from("A=M"),
            String::from("M=D"),
            // SP++
            String::from("@SP"),
            String::from("M=M+1"),
        ]
    )
}

#[test]
fn gen_push_static() {
    let mut code_gen = CodeGen::new();
    code_gen.set_current_filename("Bar");

    code_gen.gen_command(Command::Push(Segment::Static, 3));

    assert_eq!(
        code_gen.get_assembly_code(),
        &vec![
            // D = *@Bar.3
            String::from("@Bar.3"),
            String::from("D=M"),
            // *SP = D
            String::from("@SP"),
            String::from("A=M"),
            String::from("M=D"),
            // SP++
            String::from("@SP"),
            String::from("M=M+1"),
        ]
    )
}

#[test]
fn gen_push_constant() {
    let mut code_gen = CodeGen::new();

    code_gen.gen_command(Command::Push(Segment::Constant, 3));

    assert_eq!(
        code_gen.get_assembly_code(),
        &vec![
            // D = 3
            String::from("@3"),
            String::from("D=A"),
            // *SP = D
            String::from("@SP"),
            String::from("A=M"),
            String::from("M=D"),
            // SP++
            String::from("@SP"),
            String::from("M=M+1"),
        ]
    )
}

#[test]
fn gen_pop() {
    let mut code_gen = CodeGen::new();

    code_gen.gen_command(Command::Pop(Segment::Local, 2));

    assert_eq!(
        code_gen.get_assembly_code(),
        &vec![
            // @R13 = LCL[2]
            String::from("@LCL"),
            String::from("D=M"),
            String::from("@2"),
            String::from("D=D+A"),
            String::from("@R13"),
            String::from("M=D"),
            // SP--
            // D = *SP
            String::from("@SP"),
            String::from("AM=M-1"),
            String::from("D=M"),
            // *@R13 = D
            String::from("@R13"),
            String::from("A=M"),
            String::from("M=D")
        ]
    )
}

#[test]
fn gen_pop_static() {
    let mut code_gen = CodeGen::new();
    code_gen.set_current_filename("Bar");

    code_gen.gen_command(Command::Pop(Segment::Static, 2));

    assert_eq!(
        code_gen.get_assembly_code(),
        &vec![
            // @R13 = @Bar.2
            String::from("@Bar.2"),
            String::from("D=A"),
            String::from("@R13"),
            String::from("M=D"),
            // SP--
            // D = *SP
            String::from("@SP"),
            String::from("AM=M-1"),
            String::from("D=M"),
            // *@R13 = D
            String::from("@R13"),
            String::from("A=M"),
            String::from("M=D")
        ]
    )
}

#[test]
#[should_panic]
fn gen_pop_constant() {
    let mut code_gen = CodeGen::new();

    code_gen.gen_command(Command::Pop(Segment::Constant, 3));
}

#[test]
fn add() {
    let mut code_gen = CodeGen::new();
    code_gen.gen_command(Command::Arithmetic(Op::Add));

    assert_eq!(
        code_gen.get_assembly_code(),
        &vec![
            // SP--
            // D = *SP
            String::from("@SP"),
            String::from("AM=M-1"),
            String::from("D=M"),
            // @R13 = D
            String::from("@R13"),
            String::from("M=D"),
            // SP--
            // D = *SP
            String::from("@SP"),
            String::from("AM=M-1"),
            String::from("D=M"),
            // D += @R13
            String::from("@R13"),
            String::from("D=D+M"),
            // *SP = D
            String::from("@SP"),
            String::from("A=M"),
            String::from("M=D"),
            // SP++
            String::from("@SP"),
            String::from("M=M+1"),
        ]
    )
}

#[test]
fn sub() {
    let mut code_gen = CodeGen::new();
    code_gen.gen_command(Command::Arithmetic(Op::Subtract));

    assert_eq!(
        code_gen.get_assembly_code(),
        &vec![
            // SP--
            // D = *SP
            String::from("@SP"),
            String::from("AM=M-1"),
            String::from("D=M"),
            // @R13 = D
            String::from("@R13"),
            String::from("M=D"),
            // SP--
            // D = *SP
            String::from("@SP"),
            String::from("AM=M-1"),
            String::from("D=M"),
            // D = @R13 - D
            String::from("@R13"),
            String::from("D=D-M"),
            // *SP = D
            String::from("@SP"),
            String::from("A=M"),
            String::from("M=D"),
            // SP++
            String::from("@SP"),
            String::from("M=M+1"),
        ]
    )
}

#[test]
fn neg() {
    let mut code_gen = CodeGen::new();
    code_gen.gen_command(Command::Arithmetic(Op::Negate));

    assert_eq!(
        code_gen.get_assembly_code(),
        &vec![
            // SP--
            // D = *SP
            String::from("@SP"),
            String::from("AM=M-1"),
            String::from("D=M"),
            // D =  -D
            String::from("D=-D"),
            // *SP = D
            String::from("@SP"),
            String::from("A=M"),
            String::from("M=D"),
            // SP++
            String::from("@SP"),
            String::from("M=M+1"),
        ]
    )
}

#[test]
fn and() {
    let mut code_gen = CodeGen::new();
    code_gen.gen_command(Command::Arithmetic(Op::And));

    assert_eq!(
        code_gen.get_assembly_code(),
        &vec![
            // SP--
            // D = *SP
            String::from("@SP"),
            String::from("AM=M-1"),
            String::from("D=M"),
            // @R13 = D
            String::from("@R13"),
            String::from("M=D"),
            // SP--
            // D = *SP
            String::from("@SP"),
            String::from("AM=M-1"),
            String::from("D=M"),
            // D = @R13 & D
            String::from("@R13"),
            String::from("D=D&M"),
            // *SP = D
            String::from("@SP"),
            String::from("A=M"),
            String::from("M=D"),
            // SP++
            String::from("@SP"),
            String::from("M=M+1"),
        ]
    )
}

#[test]
fn or() {
    let mut code_gen = CodeGen::new();
    code_gen.gen_command(Command::Arithmetic(Op::Or));

    assert_eq!(
        code_gen.get_assembly_code(),
        &vec![
            // SP--
            // D = *SP
            String::from("@SP"),
            String::from("AM=M-1"),
            String::from("D=M"),
            // @R13 = D
            String::from("@R13"),
            String::from("M=D"),
            // SP--
            // D = *SP
            String::from("@SP"),
            String::from("AM=M-1"),
            String::from("D=M"),
            // D = @R13 & D
            String::from("@R13"),
            String::from("D=D|M"),
            // *SP = D
            String::from("@SP"),
            String::from("A=M"),
            String::from("M=D"),
            // SP++
            String::from("@SP"),
            String::from("M=M+1"),
        ]
    )
}

#[test]
fn not() {
    let mut code_gen = CodeGen::new();
    code_gen.gen_command(Command::Arithmetic(Op::Not));

    assert_eq!(
        code_gen.get_assembly_code(),
        &vec![
            // SP--
            // D = *SP
            String::from("@SP"),
            String::from("AM=M-1"),
            String::from("D=M"),
            // D = !D
            String::from("D=!D"),
            // *SP = D
            String::from("@SP"),
            String::from("A=M"),
            String::from("M=D"),
            // SP++
            String::from("@SP"),
            String::from("M=M+1"),
        ]
    )
}

#[test]
fn eq() {
    let mut code_gen = CodeGen::new();
    code_gen.gen_command(Command::Arithmetic(Op::Equal));

    assert_eq!(
        code_gen.get_assembly_code(),
        &vec![
            // SP--
            // D = *SP
            String::from("@SP"),
            String::from("AM=M-1"),
            String::from("D=M"),
            // @R13 = D
            String::from("@R13"),
            String::from("M=D"),
            // SP--
            // D = *SP
            String::from("@SP"),
            String::from("AM=M-1"),
            String::from("D=M"),
            // D = -1 IFF D COMP @R13
            // D = 0 IFF D COMP @R13
            String::from("@R13"),
            String::from("D=D-M"),
            String::from("@TRUTHY0"),
            String::from("D;JEQ"),
            String::from("D=0"),
            String::from("@FALSY0"),
            String::from("0;JMP"),
            String::from("(TRUTHY0)"),
            String::from("D=-1"),
            String::from("(FALSY0)"),
            // *SP = D
            String::from("@SP"),
            String::from("A=M"),
            String::from("M=D"),
            // SP++
            String::from("@SP"),
            String::from("M=M+1"),
        ]
    )
}

#[test]
fn gt() {
    let mut code_gen = CodeGen::new();
    code_gen.gen_command(Command::Arithmetic(Op::GreaterThan));

    assert_eq!(
        code_gen.get_assembly_code(),
        &vec![
            // SP--
            // D = *SP
            String::from("@SP"),
            String::from("AM=M-1"),
            String::from("D=M"),
            // @R13 = D
            String::from("@R13"),
            String::from("M=D"),
            // SP--
            // D = *SP
            String::from("@SP"),
            String::from("AM=M-1"),
            String::from("D=M"),
            // D = -1 IFF D COMP @R13
            // D = 0 IFF D COMP @R13
            String::from("@R13"),
            String::from("D=D-M"),
            String::from("@TRUTHY0"),
            String::from("D;JGT"),
            String::from("D=0"),
            String::from("@FALSY0"),
            String::from("0;JMP"),
            String::from("(TRUTHY0)"),
            String::from("D=-1"),
            String::from("(FALSY0)"),
            // *SP = D
            String::from("@SP"),
            String::from("A=M"),
            String::from("M=D"),
            // SP++
            String::from("@SP"),
            String::from("M=M+1"),
        ]
    )
}

#[test]
fn lt() {
    let mut code_gen = CodeGen::new();
    code_gen.gen_command(Command::Arithmetic(Op::LessThan));

    assert_eq!(
        code_gen.get_assembly_code(),
        &vec![
            // SP--
            // D = *SP
            String::from("@SP"),
            String::from("AM=M-1"),
            String::from("D=M"),
            // @R13 = D
            String::from("@R13"),
            String::from("M=D"),
            // SP--
            // D = *SP
            String::from("@SP"),
            String::from("AM=M-1"),
            String::from("D=M"),
            // D = -1 IFF D COMP @R13
            // D = 0 IFF D COMP @R13
            String::from("@R13"),
            String::from("D=D-M"),
            String::from("@TRUTHY0"),
            String::from("D;JLT"),
            String::from("D=0"),
            String::from("@FALSY0"),
            String::from("0;JMP"),
            String::from("(TRUTHY0)"),
            String::from("D=-1"),
            String::from("(FALSY0)"),
            // *SP = D
            String::from("@SP"),
            String::from("A=M"),
            String::from("M=D"),
            // SP++
            String::from("@SP"),
            String::from("M=M+1"),
        ]
    )
}

#[test]
fn label() {
    let mut code_gen = CodeGen::new();
    code_gen.set_current_filename("Foo");
    code_gen.gen_command(Command::Label(String::from("SOME_LABEL")));

    assert_eq!(
        code_gen.get_assembly_code(),
        &vec![String::from("(Foo$SOME_LABEL)")]
    )
}

#[test]
fn goto() {
    let mut code_gen = CodeGen::new();
    code_gen.set_current_filename("Foo");
    code_gen.gen_command(Command::Goto(String::from("SOME_LABEL")));

    assert_eq!(
        code_gen.get_assembly_code(),
        &vec![String::from("@Foo$SOME_LABEL"), String::from("0;JMP")]
    )
}

#[test]
fn if_goto() {
    let mut code_gen = CodeGen::new();
    code_gen.set_current_filename("Foo");
    code_gen.gen_command(Command::IfGoto(String::from("SOME_LABEL")));

    assert_eq!(
        code_gen.get_assembly_code(),
        &vec![
            // SP--
            String::from("@SP"),
            String::from("AM=M-1"),
            // D = *SP
            String::from("D=M"),
            // if D != 0 JUMP
            String::from("@Foo$SOME_LABEL"),
            String::from("D;JNE")
        ]
    )
}

#[test]
fn call() {
    let mut code_gen = CodeGen::new();
    code_gen.gen_command(Command::Call(String::from("Foo"), 2));

    assert_eq!(
        code_gen.get_assembly_code(),
        &vec![
            // push return-address
            String::from("@RETURN0"),
            String::from("D=A"),
            String::from("@SP"),
            String::from("A=M"),
            String::from("M=D"),
            String::from("@SP"),
            String::from("M=M+1"),
            // push LCL
            String::from("@LCL"),
            String::from("D=M"),
            String::from("@SP"),
            String::from("A=M"),
            String::from("M=D"),
            String::from("@SP"),
            String::from("M=M+1"),
            // push ARG
            String::from("@ARG"),
            String::from("D=M"),
            String::from("@SP"),
            String::from("A=M"),
            String::from("M=D"),
            String::from("@SP"),
            String::from("M=M+1"),
            // push THIS
            String::from("@THIS"),
            String::from("D=M"),
            String::from("@SP"),
            String::from("A=M"),
            String::from("M=D"),
            String::from("@SP"),
            String::from("M=M+1"),
            // push THAT
            String::from("@THAT"),
            String::from("D=M"),
            String::from("@SP"),
            String::from("A=M"),
            String::from("M=D"),
            String::from("@SP"),
            String::from("M=M+1"),
            // ARG = SP - 5 - arity
            String::from("D=M"), // M is SP after pushing THAT
            String::from("@5"),
            String::from("D=D-A"),
            String::from("@2"), // arity -> Foo 2
            String::from("D=D-A"),
            String::from("@ARG"),
            String::from("M=D"),
            // LCL = SP
            String::from("@SP"),
            String::from("D=M"),
            String::from("@LCL"),
            String::from("M=D"),
            // goto Fn
            String::from("@Foo"),
            String::from("0;JMP"),
            // (return-address)
            String::from("(RETURN0)"),
        ]
    )
}

#[test]
fn function() {
    let mut code_gen = CodeGen::new();
    code_gen.gen_command(Command::Function(String::from("Foo"), 3));

    assert_eq!(
        code_gen.get_assembly_code(),
        &vec![
            String::from("(Foo)"),
            // initialize 3 local vars to 0
            // set D=0
            String::from("@0"),
            String::from("D=A"),
            // var 1
            String::from("@SP"),
            String::from("A=M"),
            String::from("M=D"),
            // var 2
            String::from("A=A+1"),
            String::from("M=D"),
            // var 3
            String::from("A=A+1"),
            String::from("M=D"),
            // set new SP
            String::from("A=A+1"),
            String::from("D=A"),
            String::from("@SP"),
            String::from("M=D"),
        ]
    )
}

#[test]
fn function_no_locals() {
    let mut code_gen = CodeGen::new();
    code_gen.gen_command(Command::Function(String::from("Bar"), 0));

    assert_eq!(code_gen.get_assembly_code(), &vec![String::from("(Bar)"),])
}

#[test]
fn gen_return() {
    let mut code_gen = CodeGen::new();
    code_gen.gen_command(Command::Return);

    assert_eq!(
        code_gen.get_assembly_code(),
        &vec![
            // Store LCL in temp var FRAME (R13)
            // R13 = LCL
            String::from("@LCL"),
            String::from("D=M"),
            String::from("@R13"),
            String::from("M=D"),
            // Store RETURN in temp var FRAME - 5 (R14)
            // R14 = *(FRAME - 5)
            String::from("@5"),
            String::from("A=D-A"),
            String::from("D=M"),
            String::from("@R14"),
            String::from("M=D"),
            // Reposition the return value for the caller
            // *ARG = pop()
            String::from("@SP"),
            String::from("AM=M-1"),
            String::from("D=M"),
            String::from("@ARG"),
            String::from("A=M"),
            String::from("M=D"),
            // Restore SP of the caller
            // SP = ARG+1
            String::from("@ARG"),
            String::from("D=M+1"),
            String::from("@SP"),
            String::from("M=D"),
            // THAT = *(FRAME - 1)
            String::from("@R13"),
            String::from("AM=M-1"),
            String::from("D=M"),
            String::from("@THAT"),
            String::from("M=D"),
            // THIS = *(FRAME - 2)
            String::from("@R13"),
            String::from("AM=M-1"),
            String::from("D=M"),
            String::from("@THIS"),
            String::from("M=D"),
            // ARG = *(FRAME - 3)
            String::from("@R13"),
            String::from("AM=M-1"),
            String::from("D=M"),
            String::from("@ARG"),
            String::from("M=D"),
            // LCL = *(FRAME - 4)
            String::from("@R13"),
            String::from("AM=M-1"),
            String::from("D=M"),
            String::from("@LCL"),
            String::from("M=D"),
            // GOTO RET (R14)
            String::from("@R14"),
            String::from("A=M"),
            String::from("0;JMP"),
        ]
    )
}
