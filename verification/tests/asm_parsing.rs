use vmasm::asm_parser::{Command, CommandType, Parser};

#[test]
fn new_parser() {
    let program = "
        // some header comment

        @R0
        D = M

        0;JMP // inline comment

        ";

    assert_eq!(Parser::new(program).get_program().join("\n"), "@R0\nD=M\n0;JMP");
}

#[test]
fn carriage_returns_and_tabs_are_stripped() {
    let program = "@2\r\n\tD = A\r\n";
    assert_eq!(Parser::new(program).get_program().join("\n"), "@2\nD=A");
}

#[test]
fn command_type() {
    let a_command = "@R0";
    let l_command = "(LOOP)";
    let c_command = "D=D+M;JGE";

    assert_eq!(Parser::new(a_command).command_type(), CommandType::Address);

    assert_eq!(Parser::new(l_command).command_type(), CommandType::Jump);

    assert_eq!(Parser::new(c_command).command_type(), CommandType::Computation);
}

#[test]
fn get_symbol() {
    let a_command = "@R0";
    let l_command = "(LOOP)";

    assert_eq!(Parser::new(a_command).get_symbol(), "R0");
    assert_eq!(Parser::new(l_command).get_symbol(), "LOOP");
}

#[test]
fn line_counter() {
    let program = "
            D=D-M;JEQ
            M=!A
        ";
    let mut parser = Parser::new(program);

    assert_eq!(parser.get_current_line(), 0);
    assert!(parser.has_more_commands());

    parser.advance();
    assert_eq!(parser.get_current_line(), 1);
    assert!(parser.has_more_commands());

    parser.advance();
    assert_eq!(parser.get_current_line(), 2);
    assert_ne!(parser.has_more_commands(), true);

    parser.advance();
    assert_eq!(parser.get_current_line(), 2);
    assert_ne!(parser.has_more_commands(), true);

    parser.reset();
    assert_eq!(parser.get_current_line(), 0);
    assert!(parser.has_more_commands());
}

#[test]
fn parse_command() {
    let program = "
            D=D-M;JEQ
            M=!A
            0;JMP
        ";
    let mut parser = Parser::new(program);

    assert_eq!(
        parser.parse_command(),
        Command {
            dest: String::from("D"),
            comp: String::from("D-M"),
            jump: String::from("JEQ")
        }
    );

    parser.advance();
    assert_eq!(
        parser.parse_command(),
        Command { dest: String::from("M"), comp: String::from("!A"), jump: String::new() }
    );

    parser.advance();
    assert_eq!(
        parser.parse_command(),
        Command { dest: String::new(), comp: String::from("0"), jump: String::from("JMP") }
    );
}
