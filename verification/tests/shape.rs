use eidos::BlockDef;
use eidos::LanguageConfig;
use eidos::MatchOutcome;
use eidos::Statement;
use eidos::StatementDef;
use eidos::classify_line;
use eidos::parse_source;

fn stmt_def(name: &str, syntax: &str, template: &str) -> StatementDef {
    StatementDef {
        name: name.to_string(),
        syntax: syntax.to_string(),
        template: template.to_string(),
    }
}

fn block_def(name: &str, start: &str, end: &str, template: &str) -> BlockDef {
    BlockDef {
        name: name.to_string(),
        start: start.to_string(),
        end: end.to_string(),
        template: template.to_string(),
    }
}

fn say_config() -> LanguageConfig {
    LanguageConfig::new(
        vec![stmt_def("print", "say ", "output({0});")],
        vec![block_def("loop", "repeat", "until", "while(1){{body}}")],
        vec![],
    )
    .unwrap()
}

fn node_count(s: &Statement) -> usize {
    match s {
        Statement::Simple(_, _) => 1,
        Statement::Block(_, children) => 1 + children.iter().map(node_count).sum::<usize>(),
    }
}

fn block_count(s: &Statement) -> usize {
    match s {
        Statement::Simple(_, _) => 0,
        Statement::Block(_, children) => 1 + children.iter().map(block_count).sum::<usize>(),
    }
}

fn depth(s: &Statement) -> usize {
    match s {
        Statement::Simple(_, _) => 0,
        Statement::Block(_, children) => 1 + children.iter().map(depth).max().unwrap_or(0),
    }
}

#[test]
fn balanced_source_gives_expected_depth_and_node_count() {
    let cfg = say_config();
    // Six non-blank lines: two opens, two closes, two statements; the peak
    // number of concurrently open blocks is two.
    let src = "repeat\nrepeat\nsay x\nuntil\nuntil\n\nsay y";
    let ast = parse_source(src, &cfg).unwrap();
    let nodes: usize = ast.iter().map(node_count).sum();
    let blocks: usize = ast.iter().map(block_count).sum();
    let max_depth: usize = ast.iter().map(depth).max().unwrap_or(0);
    let nonblank = 6;
    let opens = 2;
    let closes = 2;
    assert_eq!(blocks, closes);
    assert_eq!(nodes, nonblank - (opens + closes) + blocks);
    assert_eq!(max_depth, 2);
}

#[test]
fn flat_source_has_depth_zero() {
    let cfg = say_config();
    let ast = parse_source("say a\nsay b", &cfg).unwrap();
    let max_depth: usize = ast.iter().map(depth).max().unwrap_or(0);
    assert_eq!(max_depth, 0);
    let nodes: usize = ast.iter().map(node_count).sum();
    assert_eq!(nodes, 2);
}

#[test]
fn classifier_decides_in_precedence_order() {
    let cfg = say_config();
    assert_eq!(
        classify_line("repeat now", &cfg, false),
        MatchOutcome::OpenBlock("loop".to_string())
    );
    assert_eq!(classify_line("until", &cfg, true), MatchOutcome::CloseBlock);
    assert_eq!(
        classify_line("say a b", &cfg, false),
        MatchOutcome::Stmt(
            "print".to_string(),
            vec!["a".to_string(), "b".to_string()]
        )
    );
    assert_eq!(classify_line("until", &cfg, false), MatchOutcome::Default);
    assert_eq!(classify_line("mystery", &cfg, true), MatchOutcome::Default);
}

#[test]
fn first_matching_rule_in_sequence_order_wins() {
    let cfg = LanguageConfig::new(
        vec![
            stmt_def("long", "say loud ", "shout({0});"),
            stmt_def("short", "say ", "output({0});"),
        ],
        vec![],
        vec![],
    )
    .unwrap();
    // Both patterns are prefixes of the line; the first rule of the
    // sequence is taken.
    assert_eq!(
        classify_line("say loud hi", &cfg, false),
        MatchOutcome::Stmt(
            "long".to_string(),
            vec!["hi".to_string()]
        )
    );
}
