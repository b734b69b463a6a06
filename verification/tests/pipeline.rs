use eidos::BlockDef;
use eidos::LanguageConfig;
use eidos::OperatorDef;
use eidos::Statement;
use eidos::StatementDef;
use eidos::TranspileError;
use eidos::generate_c_code;
use eidos::generate_python_code;
use eidos::parse_source;
use eidos::transpile_c;
use eidos::transpile_python;
use eidos::wrap_c_program;
use eidos::wrap_python_program;

fn stmt_def(name: &str, syntax: &str, template: &str) -> StatementDef {
    StatementDef {
        name: name.to_string(),
        syntax: syntax.to_string(),
        template: template.to_string(),
    }
}

fn block_def(name: &str, start: &str, end: &str, template: &str) -> BlockDef {
    BlockDef {
        name: name.to_string(),
        start: start.to_string(),
        end: end.to_string(),
        template: template.to_string(),
    }
}

fn op_def(name: &str, symbol: &str, template: &str) -> OperatorDef {
    OperatorDef {
        name: name.to_string(),
        symbol: symbol.to_string(),
        template: template.to_string(),
    }
}

fn say_config() -> LanguageConfig {
    LanguageConfig::new(
        vec![stmt_def("print", "say ", "output({0});")],
        vec![block_def("loop", "repeat", "until", "while(1){{body}}")],
        vec![],
    )
    .unwrap()
}

#[test]
fn say_hello_parses_to_one_statement() {
    let cfg = say_config();
    let ast = parse_source("say hello", &cfg).unwrap();
    assert_eq!(
        ast,
        vec![Statement::Simple(
            "print".to_string(),
            vec!["hello".to_string()]
        )]
    );
}

#[test]
fn say_hello_renders_at_depth_zero() {
    let cfg = say_config();
    let ast = parse_source("say hello", &cfg).unwrap();
    let body = generate_python_code(&ast, &cfg, 0).unwrap();
    assert_eq!(body, "output(hello);\n");
}

#[test]
fn repeat_block_nests_inner_statement() {
    let cfg = say_config();
    let ast = parse_source("repeat\nsay hi\nuntil", &cfg).unwrap();
    assert_eq!(
        ast,
        vec![Statement::Block(
            "loop".to_string(),
            vec![Statement::Simple(
                "print".to_string(),
                vec!["hi".to_string()]
            )]
        )]
    );
    let body = generate_python_code(&ast, &cfg, 0).unwrap();
    assert_eq!(body, "while(1){    output(hi);\n}\n");
    assert!(body.contains("    output(hi);"));
}

#[test]
fn unclosed_block_is_malformed_source() {
    let cfg = LanguageConfig::new(
        vec![],
        vec![block_def("b", "begin", "finish", "{ {body} }")],
        vec![],
    )
    .unwrap();
    let r = parse_source("begin\nfoo", &cfg);
    assert_eq!(r, Err(TranspileError::MalformedSource(1)));
}

#[test]
fn malformed_source_reports_opening_line_number() {
    let cfg = say_config();
    let r = parse_source("\n\nrepeat\nsay hi", &cfg);
    assert_eq!(r, Err(TranspileError::MalformedSource(3)));
}

#[test]
fn innermost_unclosed_block_is_reported() {
    let cfg = say_config();
    let r = parse_source("repeat\nrepeat\nuntil", &cfg);
    assert_eq!(r, Err(TranspileError::MalformedSource(1)));
}

#[test]
fn unmatched_line_falls_through_to_print() {
    let cfg = say_config();
    let ast = parse_source("whatever stuff", &cfg).unwrap();
    assert_eq!(
        ast,
        vec![Statement::Simple(
            "print".to_string(),
            vec!["whatever stuff".to_string()]
        )]
    );
}

#[test]
fn blank_and_whitespace_lines_are_skipped() {
    let cfg = say_config();
    let ast = parse_source("\n   \nsay a\n\t\r\nsay b\n", &cfg).unwrap();
    assert_eq!(ast.len(), 2);
}

#[test]
fn lines_are_trimmed_before_matching() {
    let cfg = say_config();
    let ast = parse_source("   say hello   ", &cfg).unwrap();
    assert_eq!(
        ast,
        vec![Statement::Simple(
            "print".to_string(),
            vec!["hello".to_string()]
        )]
    );
}

#[test]
fn block_start_takes_precedence_over_statement() {
    let cfg = LanguageConfig::new(
        vec![stmt_def("rep", "repeat", "rep();")],
        vec![block_def("loop", "repeat", "until", "loop{{body}}")],
        vec![],
    )
    .unwrap();
    let ast = parse_source("repeat\nuntil", &cfg).unwrap();
    assert_eq!(ast, vec![Statement::Block("loop".to_string(), vec![])]);
}

#[test]
fn any_end_token_closes_the_innermost_block() {
    let cfg = LanguageConfig::new(
        vec![],
        vec![
            block_def("a", "astart", "aend", "A[{body}]"),
            block_def("b", "bstart", "bend", "B[{body}]"),
        ],
        vec![],
    )
    .unwrap();
    let ast = parse_source("astart\nbend", &cfg).unwrap();
    assert_eq!(ast, vec![Statement::Block("a".to_string(), vec![])]);
}

#[test]
fn end_token_without_open_block_is_not_a_close() {
    let cfg = say_config();
    let ast = parse_source("until", &cfg).unwrap();
    assert_eq!(
        ast,
        vec![Statement::Simple(
            "print".to_string(),
            vec!["until".to_string()]
        )]
    );
}

#[test]
fn nested_blocks_build_nested_trees() {
    let cfg = say_config();
    let ast = parse_source("repeat\nrepeat\nsay x\nuntil\nuntil", &cfg).unwrap();
    assert_eq!(
        ast,
        vec![Statement::Block(
            "loop".to_string(),
            vec![Statement::Block(
                "loop".to_string(),
                vec![Statement::Simple(
                    "print".to_string(),
                    vec!["x".to_string()]
                )]
            )]
        )]
    );
}

#[test]
fn unknown_rule_is_reported_by_name() {
    let cfg = say_config();
    let ast = vec![Statement::Simple("nosuch".to_string(), vec![])];
    let r = generate_python_code(&ast, &cfg, 0);
    assert_eq!(r, Err(TranspileError::UnknownRule("nosuch".to_string())));
    let mut declared = Vec::new();
    let r = generate_c_code(&ast, &cfg, &mut declared, 0);
    assert_eq!(r, Err(TranspileError::UnknownRule("nosuch".to_string())));
}

#[test]
fn duplicate_rule_names_are_rejected() {
    let r = LanguageConfig::new(
        vec![
            stmt_def("print", "say ", "a({0});"),
            stmt_def("print", "tell ", "b({0});"),
        ],
        vec![],
        vec![],
    );
    assert_eq!(r, Err(TranspileError::DuplicateRule("print".to_string())));
    let r = LanguageConfig::new(
        vec![],
        vec![],
        vec![op_def("plus", "+", "({0} + {1})"), op_def("plus", "-", "x")],
    );
    assert_eq!(r, Err(TranspileError::DuplicateRule("plus".to_string())));
}

#[test]
fn same_name_across_mappings_is_allowed() {
    let r = LanguageConfig::new(
        vec![stmt_def("x", "say ", "a({0});")],
        vec![block_def("x", "begin", "finish", "{ {body} }")],
        vec![op_def("x", "+", "({0} + {1})")],
    );
    assert!(r.is_ok());
}

#[test]
fn rendering_twice_is_byte_identical() {
    let cfg = say_config();
    let ast = parse_source("repeat\nsay hi\nuntil\nsay done", &cfg).unwrap();
    let first = generate_python_code(&ast, &cfg, 0).unwrap();
    let second = generate_python_code(&ast, &cfg, 0).unwrap();
    assert_eq!(first, second);
    let mut d1 = Vec::new();
    let mut d2 = Vec::new();
    let c1 = generate_c_code(&ast, &cfg, &mut d1, 1).unwrap();
    let c2 = generate_c_code(&ast, &cfg, &mut d2, 1).unwrap();
    assert_eq!(c1, c2);
    assert_eq!(d1, d2);
}

#[test]
fn transpile_c_wraps_the_body_in_the_skeleton() {
    let cfg = say_config();
    let out = transpile_c("say hello", &cfg).unwrap();
    assert_eq!(
        out,
        "#include <stdio.h>\n\nint main() {\n    output(hello);\n    return 0;\n}\n"
    );
}

#[test]
fn transpile_python_wraps_the_body_in_the_skeleton() {
    let cfg = say_config();
    let out = transpile_python("say hello", &cfg).unwrap();
    assert_eq!(
        out,
        "def main():\n    output(hello);\n\nif __name__ == \"__main__\":\n    main()\n"
    );
}

#[test]
fn transpile_surfaces_parse_errors() {
    let cfg = say_config();
    assert_eq!(
        transpile_c("repeat\nsay x", &cfg),
        Err(TranspileError::MalformedSource(1))
    );
    assert_eq!(
        transpile_python("repeat\nsay x", &cfg),
        Err(TranspileError::MalformedSource(1))
    );
}

#[test]
fn wrap_functions_add_exact_boilerplate() {
    assert_eq!(
        wrap_c_program("BODY"),
        "#include <stdio.h>\n\nint main() {\nBODY    return 0;\n}\n"
    );
    assert_eq!(
        wrap_python_program("BODY"),
        "def main():\nBODY\nif __name__ == \"__main__\":\n    main()\n"
    );
}
