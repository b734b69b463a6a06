use eidos::BlockDef;
use eidos::LanguageConfig;
use eidos::Statement;
use eidos::StatementDef;
use eidos::generate_c_code;
use eidos::generate_python_code;
use eidos::parse_source;
use eidos::replace_str;
use eidos::str_eq;
use eidos::substitute_args;
use eidos::trim_str;

fn stmt_def(name: &str, syntax: &str, template: &str) -> StatementDef {
    StatementDef {
        name: name.to_string(),
        syntax: syntax.to_string(),
        template: template.to_string(),
    }
}

fn block_def(name: &str, start: &str, end: &str, template: &str) -> BlockDef {
    BlockDef {
        name: name.to_string(),
        start: start.to_string(),
        end: end.to_string(),
        template: template.to_string(),
    }
}

#[test]
fn substitution_replaces_each_positional_placeholder() {
    let r = substitute_args("X({0})", &vec!["a".to_string()]);
    assert_eq!(r, "X(a)");
}

#[test]
fn substitution_without_arguments_keeps_the_placeholder() {
    let r = substitute_args("X({0})", &vec![]);
    assert_eq!(r, "X({0})");
}

#[test]
fn substitution_with_fewer_arguments_keeps_later_placeholders() {
    let r = substitute_args("f({0},{1})", &vec!["a".to_string()]);
    assert_eq!(r, "f(a,{1})");
}

#[test]
fn substitution_ignores_arguments_beyond_the_placeholders() {
    let r = substitute_args("g({0})", &vec!["a".to_string(), "b".to_string()]);
    assert_eq!(r, "g(a)");
}

#[test]
fn substitution_handles_two_digit_positions() {
    let args: Vec<String> = (0..11).map(|i| format!("v{}", i)).collect();
    let r = substitute_args("h({10},{0})", &args);
    assert_eq!(r, "h(v10,v0)");
}

#[test]
fn empty_body_replacement_keeps_exact_whitespace() {
    let r = replace_str("{ {body} }", "{body}", "");
    assert_eq!(r, "{  }");
}

#[test]
fn empty_block_renders_with_empty_body() {
    let cfg = LanguageConfig::new(
        vec![],
        vec![block_def("b", "begin", "finish", "{ {body} }")],
        vec![],
    )
    .unwrap();
    let ast = vec![Statement::Block("b".to_string(), vec![])];
    let out = generate_python_code(&ast, &cfg, 0).unwrap();
    assert_eq!(out, "{  }\n");
}

#[test]
fn indentation_is_four_spaces_per_level() {
    let cfg = LanguageConfig::new(vec![stmt_def("p", "p ", "P({0});")], vec![], vec![]).unwrap();
    let ast = vec![Statement::Simple("p".to_string(), vec!["x".to_string()])];
    let out = generate_python_code(&ast, &cfg, 2).unwrap();
    assert_eq!(out, "        P(x);\n");
}

#[test]
fn assignment_declares_each_variable_once() {
    let cfg = LanguageConfig::new(
        vec![stmt_def("assignment", "let ", "{0} = {1};")],
        vec![],
        vec![],
    )
    .unwrap();
    let ast = parse_source("let x 5\nlet x 6\nlet y 7", &cfg).unwrap();
    let mut declared = Vec::new();
    let out = generate_c_code(&ast, &cfg, &mut declared, 0).unwrap();
    assert_eq!(out, "int x;\nx = 5;\nx = 6;\nint y;\ny = 7;\n");
    assert_eq!(declared, vec!["x".to_string(), "y".to_string()]);
}

#[test]
fn already_declared_variables_are_not_redeclared() {
    let cfg = LanguageConfig::new(
        vec![stmt_def("assignment", "let ", "{0} = {1};")],
        vec![],
        vec![],
    )
    .unwrap();
    let ast = parse_source("let x 5", &cfg).unwrap();
    let mut declared = vec!["x".to_string()];
    let out = generate_c_code(&ast, &cfg, &mut declared, 0).unwrap();
    assert_eq!(out, "x = 5;\n");
    assert_eq!(declared, vec!["x".to_string()]);
}

#[test]
fn assignment_rule_is_plain_for_the_python_target() {
    let cfg = LanguageConfig::new(
        vec![stmt_def("assignment", "let ", "{0} = {1}")],
        vec![],
        vec![],
    )
    .unwrap();
    let ast = parse_source("let x 5", &cfg).unwrap();
    let out = generate_python_code(&ast, &cfg, 1).unwrap();
    assert_eq!(out, "    x = 5\n");
}

#[test]
fn python_rendering_has_no_declaration_state() {
    let cfg = LanguageConfig::new(
        vec![stmt_def("assignment", "let ", "{0} = {1}")],
        vec![],
        vec![],
    )
    .unwrap();
    let ast = parse_source("let x 5\nlet x 6", &cfg).unwrap();
    let out = generate_python_code(&ast, &cfg, 0).unwrap();
    assert_eq!(out, "x = 5\nx = 6\n");
}

#[test]
fn statement_arguments_split_on_whitespace_runs() {
    let cfg = LanguageConfig::new(
        vec![stmt_def("p", "p ", "P({0},{1});")],
        vec![],
        vec![],
    )
    .unwrap();
    let ast = parse_source("p   a \t  b  ", &cfg).unwrap();
    assert_eq!(
        ast,
        vec![Statement::Simple(
            "p".to_string(),
            vec!["a".to_string(), "b".to_string()]
        )]
    );
}

#[test]
fn trim_removes_ascii_whitespace_at_both_ends() {
    assert_eq!(trim_str("  \t a b \r\n"), "a b");
    assert_eq!(trim_str(""), "");
    assert_eq!(trim_str(" \t "), "");
}

#[test]
fn str_eq_compares_by_characters() {
    assert!(str_eq("abc", "abc"));
    assert!(!str_eq("abc", "abd"));
    assert!(!str_eq("abc", "ab"));
    assert!(str_eq("", ""));
}

#[test]
fn replacement_is_left_to_right_and_not_rescanned() {
    assert_eq!(replace_str("aaa", "aa", "b"), "ba");
    assert_eq!(replace_str("abab", "ab", "ba"), "baba");
    assert_eq!(replace_str("x{0}y{0}", "{0}", "z"), "xzyz");
}
