use vm_translator::parser::{CommandType, Parser};
use vm_translator::vmlines::Vmlines;

#[test]
fn test_parser_new() {
    Parser::new("");
}

#[test]
fn test_parser_has_more_commands() {
    let parser = Parser::new("");
    assert_eq!(parser.has_more_commands(), false);

    let parser = Parser::new("VM");
    assert_eq!(parser.has_more_commands(), true);
}

#[test]
fn test_parser_advance() {
    let mut parser = Parser::new("VM");
    assert_eq!(parser.has_more_commands(), true);
    parser.advance();
    assert_eq!(parser.has_more_commands(), false);

    let mut parser = Parser::new(
        r#"
        // test
        push local 2
        // test
        push local 3
        "#,
    );
    parser.advance();
    assert_eq!(parser.current_command(), Some(&"push local 2".to_string()));
    parser.advance();
    assert_eq!(parser.current_command(), Some(&"push local 3".to_string()));
    parser.advance();
    assert_eq!(parser.current_command(), None);
}

#[test]
fn test_parser_command_type() {
    let mut parser = Parser::new(
        r#"
        push local 2
        add 1
        sub 1
        "#,
    );

    parser.advance();
    assert_eq!(parser.command_type(), CommandType::PUSH);
    parser.advance();
    assert_eq!(parser.command_type(), CommandType::ARITHMETIC);
    parser.advance();
    assert_eq!(parser.command_type(), CommandType::ARITHMETIC);
}

#[test]
fn test_parser_arg1() {
    let mut parser = Parser::new(
        r#"
        push local 2
        add
        sub
        "#,
    );
    parser.advance();
    assert_eq!(&parser.arg1().unwrap(), "local");
    parser.advance();
    assert_eq!(parser.arg1(), Some("add".to_string()));
    parser.advance();
    assert_eq!(parser.arg1(), Some("sub".to_string()));
    parser.advance();
    assert_eq!(parser.arg1(), None);
}

#[test]
fn test_parser_arg2() {
    let mut parser = Parser::new(
        r#"
        push local 2
        pop local 1
        add
        return
        "#,
    );
    parser.advance();
    assert_eq!(parser.arg2().unwrap(), 2);
    parser.advance();
    assert_eq!(parser.arg2().unwrap(), 1);
    parser.advance();
    assert_eq!(parser.arg2(), None);
    parser.advance();
    assert_eq!(parser.arg2(), None);
}

#[test]
fn test_vmlines_next() {
    let mut lines = Vmlines::new("");
    assert_eq!(lines.next(), None);

    let mut lines = Vmlines::new(
        r#"
        // A
        VM
        "#,
    );
    assert_eq!(lines.next(), Some("VM".to_string()));
    assert_eq!(lines.next(), None);

    let mut lines = Vmlines::new(
        r#"
        VM
        // A
        VM2 // VM
        "#,
    );
    assert_eq!(lines.next(), Some("VM".to_string()));
    assert_eq!(lines.next(), Some("VM2".to_string()));
    assert_eq!(lines.next(), None);
}

#[test]
fn test_parser_more_command_kinds() {
    let mut parser = Parser::new(
        "label LOOP\ngoto LOOP\nif-goto END\nfunction Foo.main 2\ncall Foo.main 0\nreturn\npop this 4\nwhatever",
    );
    parser.advance();
    assert_eq!(parser.command_type(), CommandType::LABEL);
    parser.advance();
    assert_eq!(parser.command_type(), CommandType::GOTO);
    parser.advance();
    assert_eq!(parser.command_type(), CommandType::IF);
    parser.advance();
    assert_eq!(parser.command_type(), CommandType::FUNCTION);
    assert_eq!(parser.arg1(), Some("Foo.main".to_string()));
    assert_eq!(parser.arg2(), Some(2));
    parser.advance();
    assert_eq!(parser.command_type(), CommandType::CALL);
    assert_eq!(parser.arg2(), Some(0));
    parser.advance();
    assert_eq!(parser.command_type(), CommandType::RETURN);
    parser.advance();
    assert_eq!(parser.command_type(), CommandType::POP);
    parser.advance();
    assert_eq!(parser.command_type(), CommandType::Unknown);
}

#[test]
fn test_parser_arg2_signs_and_overflow() {
    let mut parser = Parser::new(
        "push constant -3\npush constant +7\npush constant 99999999999999999999\npush constant 12x",
    );
    parser.advance();
    assert_eq!(parser.arg2(), Some(-3));
    parser.advance();
    assert_eq!(parser.arg2(), Some(7));
    parser.advance();
    assert_eq!(parser.arg2(), None);
    parser.advance();
    assert_eq!(parser.arg2(), None);
}

#[test]
fn test_vmlines_extra_spaces() {
    let mut lines = Vmlines::new("   push   constant   5   \n\n   // only a comment\n  add");
    assert_eq!(lines.next(), Some("push   constant   5".to_string()));
    assert_eq!(lines.next(), Some("add".to_string()));
    assert_eq!(lines.next(), None);
}
