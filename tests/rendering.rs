use lang::ast::DeclOrExpr;
use lang::parse_source;
use lang::render::indent;

fn render_lines(src: &str) -> Vec<String> {
    parse_source(src).unwrap().iter().map(|l| l.render()).collect()
}

#[test]
fn render_operators_in_parentheses() {
    assert_eq!(render_lines("a + b * c"), vec!["(a + (b * c))"]);
}

#[test]
fn render_call_pair_and_string() {
    assert_eq!(render_lines("f [x] \"s\""), vec!["((f [x none]) \"s\")"]);
}

#[test]
fn render_function_declaration() {
    assert_eq!(render_lines("f a b = a;"), vec!["f =\n  (\\(a b) ->\n    a);"]);
}

#[test]
fn render_block() {
    assert_eq!(render_lines("{ x = a; x }"), vec!["{\n  x =\n    a;\n  x\n}"]);
}

#[test]
fn render_indent_each_line() {
    assert_eq!(indent(&"a\nb".to_string()), "  a\n  b");
    assert_eq!(indent(&String::new()), "");
}

#[test]
fn render_indent_splits_like_str_lines() {
    assert_eq!(indent(&"a\n".to_string()), "  a");
    assert_eq!(indent(&"a\r\nb\r\n".to_string()), "  a\n  b");
    assert_eq!(indent(&"\n\nb".to_string()), "  \n  \n  b");
    assert_eq!(indent(&"a\r".to_string()), "  a\r");
    for text in ["", "x", "a\n", "a\r\nb", "\n", "p\n\nq\r\n\r\n", "a\rb\n"] {
        let expected: Vec<String> = text.lines().map(|l| format!("  {}", l)).collect();
        assert_eq!(indent(&text.to_string()), expected.join("\n"));
    }
}

#[test]
fn render_scope_marks_environment() {
    let lines: Vec<DeclOrExpr> = parse_source("x").unwrap();
    let scope = lang::eval::Scope { env: lang::value::Environment::new(), lines };
    assert_eq!(scope.render(), "{<env>\n  x\n}");
}
