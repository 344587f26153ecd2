use gcl::parser::{CompileError, Expected, Parser};
use gcl::token::Kind;

fn run(text: &str) -> (Result<(), CompileError>, Parser) {
    let mut p = Parser::new(text);
    let r = p.parse();
    (r, p)
}

const HEAD: &str = "#include <stdio.h>\n\nint main()\n{\n";
const TAIL: &str = "return 0;\n}\n";

#[test]
fn declare_assign_print() {
    let (r, p) = run("var x rav x := 5 print x");
    assert_eq!(r, Ok(()));
    let expected = format!(
        "{}int x_x=-12345;\nx_x=( 5 );\nprintf(\"%d\\n\", ( x_x ));\n{}",
        HEAD, TAIL
    );
    assert_eq!(p.output(), &expected);
    let h = p.symbol_table().history();
    assert_eq!(h.len(), 1);
    assert_eq!(h[0].uses().get(&1), Some(&1));
    assert_eq!(h[0].assignments().get(&1), Some(&1));
}

#[test]
fn undeclared_print_fails_without_emitting_it() {
    let (r, p) = run("print y");
    assert_eq!(r, Err(CompileError::Undeclared { name: "y".to_string(), line: 1 }));
    assert!(!p.output().contains("x_y"));
}

#[test]
fn redeclaration_warns_once() {
    let (r, p) = run("var x x rav x := 1");
    assert_eq!(r, Ok(()));
    assert_eq!(p.output().matches("int x_x=-12345;").count(), 1);
    assert_eq!(p.warnings().len(), 1);
    assert_eq!(p.warnings()[0].name, "x");
    assert_eq!(p.warnings()[0].line, 1);
    assert!(p.output().contains("x_x=( 1 );"));
}

#[test]
fn nested_blocks_see_outer_variable() {
    let (r, p) = run("var x rav\nif x = 1 -> x := x + 1 fi\ndo x < 3 -> print x od");
    assert_eq!(r, Ok(()));
    let h = p.symbol_table().history();
    assert_eq!(h.len(), 1);
    assert_eq!(h[0].uses().get(&2), Some(&2));
    assert_eq!(h[0].uses().get(&3), Some(&2));
    assert_eq!(h[0].assignments().get(&2), Some(&1));
}

#[test]
fn count_up_loop() {
    let (r, p) = run("var i rav fa i := 1 to 5 -> print i af");
    assert_eq!(r, Ok(()));
    let expected = format!(
        "{}int x_i=-12345;\nfor( x_i = ( 1 ); x_i <= ( 5 ); x_i++ )\n{{\nprintf(\"%d\\n\", ( x_i ));\n}}\n{}",
        HEAD, TAIL
    );
    assert_eq!(p.output(), &expected);
}

#[test]
fn if_with_alternatives_and_else() {
    let (r, p) = run("var a rav if a > 0 -> print 1 [] a < 0 -> print 2 else -> print 3 fi");
    assert_eq!(r, Ok(()));
    let expected = format!(
        "{}int x_a=-12345;\n\nif( x_a > 0 ){{\nprintf(\"%d\\n\", ( 1 ));\n}}\nelse if( x_a < 0 ){{\nprintf(\"%d\\n\", ( 2 ));\n}}\nelse{{\nprintf(\"%d\\n\", ( 3 ));\n}}\n{}",
        HEAD, TAIL
    );
    assert_eq!(p.output(), &expected);
}

#[test]
fn do_loop_appends_exit_branch() {
    let (r, p) = run("var n rav do n \\= 0 -> n := n - 1 od");
    assert_eq!(r, Ok(()));
    assert!(p.output().contains("while(1){\nif( x_n != 0 ){\nx_n=( x_n - 1 );\n}\nelse { break; }\n}\n\n"));
}

#[test]
fn fa_with_step_guard() {
    let (r, p) = run("var i rav fa i := 1 to 9 st i = 2 -> print i af");
    assert_eq!(r, Ok(()));
    assert!(p.output().contains("x_i++ )\nif( x_i == 2 ){\n"));
}

#[test]
fn arithmetic_and_parentheses() {
    let (r, p) = run("var a b rav a := (b + 2) * 3 \\ a");
    assert_eq!(r, Ok(()));
    assert!(p.output().contains("x_a=( ( ( x_b + 2 ) ) * 3 / x_a );\n"));
}

#[test]
fn junk_after_program() {
    let (r, _) = run("var a rav a := 1 rav");
    assert_eq!(r, Err(CompileError::Junk { line: 1 }));
}

#[test]
fn missing_fi_is_a_grammar_error() {
    let (r, _) = run("var a rav if a -> print a");
    assert_eq!(
        r,
        Err(CompileError::Unexpected { expected: Expected::Token(Kind::FI), found: Kind::EOF, line: 1 })
    );
}

#[test]
fn bad_factor_is_a_grammar_error() {
    let (r, _) = run("print )");
    assert_eq!(r, Err(CompileError::Unexpected { expected: Expected::Factor, found: Kind::RPAREN, line: 1 }));
}

#[test]
fn lexical_error_stops_translation() {
    let (r, _) = run("var a rav a : 1");
    assert!(matches!(r, Err(CompileError::Lex(_))));
}

#[test]
fn undeclared_assignment_target() {
    let (r, _) = run("var a rav\nb := 1");
    assert_eq!(r, Err(CompileError::Undeclared { name: "b".to_string(), line: 2 }));
}

#[test]
fn inner_declaration_not_visible_outside() {
    let (r, _) = run("var a rav if a = 0 -> var t rav t := 1 fi print t");
    assert_eq!(r, Err(CompileError::Undeclared { name: "t".to_string(), line: 1 }));
}
