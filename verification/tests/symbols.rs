use vmasm::symbols::Symbols;

#[test]
fn get_address() {
    let mut symbols = Symbols::new();
    assert_eq!(symbols.get_address(String::from("R0")), 0);
    assert_eq!(symbols.get_address(String::from("R8")), 8);
    assert_eq!(symbols.get_address(String::from("R15")), 15);
    assert_eq!(symbols.get_address(String::from("SCREEN")), 16384);
    assert_eq!(symbols.get_address(String::from("KBD")), 24576);
    assert_eq!(symbols.get_address(String::from("SP")), 0);
    assert_eq!(symbols.get_address(String::from("LCL")), 1);
    assert_eq!(symbols.get_address(String::from("ARG")), 2);
    assert_eq!(symbols.get_address(String::from("THIS")), 3);
    assert_eq!(symbols.get_address(String::from("THAT")), 4);
}

#[test]
fn new_symbols() {
    let mut symbols = Symbols::new();
    assert_eq!(symbols.get_address(String::from("FOO")), 16);
    assert_eq!(symbols.get_address(String::from("BAR")), 17);
    assert_eq!(symbols.get_address(String::from("BAZ")), 18);
}

#[test]
fn add_jump_symbol() {
    let mut symbols = Symbols::new();
    symbols.add_jump_symbol(String::from("FOO"), 42);
    assert_eq!(symbols.get_address(String::from("FOO")), 42);
}

#[test]
fn resolving_twice_returns_the_same_address() {
    let mut symbols = Symbols::new();
    let first = symbols.get_address(String::from("counter"));
    let second = symbols.get_address(String::from("counter"));
    assert_eq!(first, 16);
    assert_eq!(second, 16);
}
