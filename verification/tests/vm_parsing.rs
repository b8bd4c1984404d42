use vmasm::vm_parser::{Command, Op, Parser, Segment};

#[test]
fn parser_new_parser() {
    let program = "
        // This is a test program

        push argument 0 // x
        push   local 0 // y
        add

        // local 1 =   x  +  y
        pop local     1

        "
    .to_string();
    let parser = Parser::new(program);

    let normalized_program = vec![
        String::from("push argument 0"),
        String::from("push local 0"),
        String::from("add"),
        String::from("pop local 1"),
    ];
    assert_eq!(parser.get_program(), &normalized_program);
}

#[test]
fn parser_line_counter() {
    let program = "
        line 1
        line 2
        "
    .to_string();

    let mut parser = Parser::new(program);

    assert!(parser.has_more_commands());

    parser.advance();
    assert!(parser.has_more_commands());

    parser.advance();
    assert_eq!(parser.has_more_commands(), false);
}

#[test]
fn get_op() {
    let program = "
        add
        eq
        "
    .to_string();

    let mut parser = Parser::new(program);

    assert_eq!(parser.get_op(), Op::Add);

    parser.advance();
    assert_eq!(parser.get_op(), Op::Equal);
}

#[test]
#[should_panic]
fn invalid_op() {
    let program = "
        mult
        "
    .to_string();

    let parser = Parser::new(program);
    parser.get_op();
}

#[test]
fn get_segment() {
    let program = "
        push argument 1
        pop local 0
        "
    .to_string();

    let mut parser = Parser::new(program);

    assert_eq!(parser.get_segment(), Segment::Argument);

    parser.advance();
    assert_eq!(parser.get_segment(), Segment::Local);
}

#[test]
#[should_panic]
fn invalid_segment() {
    let program = "
        pop foo 1
        "
    .to_string();

    let parser = Parser::new(program);
    parser.get_segment();
}

#[test]
fn get_index() {
    let program = "
        push argument 3
        pop local 10
        "
    .to_string();

    let mut parser = Parser::new(program);

    assert_eq!(parser.get_index(), 3);

    parser.advance();
    assert_eq!(parser.get_index(), 10);
}

#[test]
fn get_label() {
    let program = "
        label SOME_LABEL
        "
    .to_string();

    let parser = Parser::new(program);

    assert_eq!(parser.get_label(), String::from("SOME_LABEL"));
}

#[test]
fn parser_parse_command() {
    let program = "
        push argument 3
        pop local 10
        add
        label SOME_LABEL
        goto GOTO_LABEL
        if-goto IF_GOTO_LABEL
        "
    .to_string();

    let mut parser = Parser::new(program);

    assert_eq!(parser.parse_command(), Command::Push(Segment::Argument, 3));

    parser.advance();
    assert_eq!(parser.parse_command(), Command::Pop(Segment::Local, 10));

    parser.advance();
    assert_eq!(parser.parse_command(), Command::Arithmetic(Op::Add));

    parser.advance();
    assert_eq!(parser.parse_command(), Command::Label(String::from("SOME_LABEL")));

    parser.advance();
    assert_eq!(parser.parse_command(), Command::Goto(String::from("GOTO_LABEL")));

    parser.advance();
    assert_eq!(parser.parse_command(), Command::IfGoto(String::from("IF_GOTO_LABEL")));
}

#[test]
fn interior_spaces_collapse_to_one() {
    let program = "   push    constant     7   // seven\r\n".to_string();
    let parser = Parser::new(program);
    assert_eq!(parser.get_program(), &vec![String::from("push constant 7")]);
}

#[test]
fn line_acceptance() {
    assert!(vmasm::vm_parser::line_ok("push constant 1"));
    assert!(vmasm::vm_parser::line_ok("return"));
    assert!(!vmasm::vm_parser::line_ok("pop constant 1"));
    assert!(!vmasm::vm_parser::line_ok("mult"));
    assert!(!vmasm::vm_parser::line_ok("push nowhere 1"));
    assert!(!vmasm::vm_parser::line_ok("push local x"));
}

#[test]
fn parse_function_commands() {
    let program = "
        function Foo.bar 2
        call Foo.bar 0
        return
        "
    .to_string();

    let mut parser = Parser::new(program);

    assert_eq!(parser.parse_command(), Command::Function(String::from("Foo.bar"), 2));

    parser.advance();
    assert_eq!(parser.parse_command(), Command::Call(String::from("Foo.bar"), 0));

    parser.advance();
    assert_eq!(parser.parse_command(), Command::Return);
}
