//! The template renderer: walk the statement tree and produce target text.
//!
//! A statement leaf renders by looking its rule up and substituting each
//! argument at position `i` into the `{i}` placeholder of the rule's
//! template, left to right, by exact text replacement; only placeholders
//! actually present are replaced, and a placeholder with no argument stays
//! verbatim. A block node renders its children one level deeper and
//! substitutes the result into the `{body}` placeholder of its rule's
//! template. Each rendered line is prefixed with four spaces per level of
//! depth. A node whose rule the definition lacks is an `UnknownRule` error.

use vstd::prelude::*;
use crate::ast::Node;
use crate::ast::Statement;
use crate::ast::lemma_stmts_view_index;
use crate::ast::stmt_view;
use crate::ast::stmts_view;
use crate::config::BlockDef;
use crate::config::BlockDefV;
use crate::config::ConfigV;
use crate::config::LanguageConfig;
use crate::config::StatementDef;
use crate::config::StatementDefV;
use crate::error::TranspileError;
use crate::text::indent_spec;
use crate::text::indent_string;
use crate::text::placeholder;
use crate::text::placeholder_str;
use crate::text::push_indent_level;
use crate::text::replace_spec;
use crate::text::replace_str;
use crate::text::str_eq;

verus! {

/// The first statement rule named `name`, from position `j` on.
pub open spec fn lookup_stmt_from(
    defs: Seq<StatementDefV>,
    name: Seq<char>,
    j: int,
) -> Option<StatementDefV>
    decreases defs.len() - j,
{
    if j < 0 || j >= defs.len() {
        None
    } else if defs[j].name == name {
        Some(defs[j])
    } else {
        lookup_stmt_from(defs, name, j + 1)
    }
}

/// The first statement rule named `name`.
pub open spec fn lookup_stmt(defs: Seq<StatementDefV>, name: Seq<char>) -> Option<StatementDefV> {
    lookup_stmt_from(defs, name, 0)
}

/// The first block rule named `name`, from position `j` on.
pub open spec fn lookup_block_from(
    defs: Seq<BlockDefV>,
    name: Seq<char>,
    j: int,
) -> Option<BlockDefV>
    decreases defs.len() - j,
{
    if j < 0 || j >= defs.len() {
        None
    } else if defs[j].name == name {
        Some(defs[j])
    } else {
        lookup_block_from(defs, name, j + 1)
    }
}

/// The first block rule named `name`.
pub open spec fn lookup_block(defs: Seq<BlockDefV>, name: Seq<char>) -> Option<BlockDefV> {
    lookup_block_from(defs, name, 0)
}

/// Find the first statement rule named `name`.
fn find_statement<'a>(config: &'a LanguageConfig, name: &str) -> (r: Option<&'a StatementDef>)
    ensures
        match r {
            Some(d) => lookup_stmt(config@.statements, name@) == Some(d@),
            None => lookup_stmt(config@.statements, name@) is None,
        },
{
    let ghost sv = config@.statements;
    let n = config.statements.len();
    let mut k: usize = 0;
    while k < n
        invariant
            n == config.statements.len(),
            sv == config@.statements,
            k <= n,
            lookup_stmt_from(sv, name@, 0) == lookup_stmt_from(sv, name@, k as int),
        decreases n - k,
    {
        if str_eq(config.statements[k].name.as_str(), name) {
            proof {
                assert(lookup_stmt_from(sv, name@, k as int) == Some(sv[k as int]));
            }
            return Some(&config.statements[k]);
        }
        k = k + 1;
    }
    None
}

/// Find the first block rule named `name`.
fn find_block<'a>(config: &'a LanguageConfig, name: &str) -> (r: Option<&'a BlockDef>)
    ensures
        match r {
            Some(d) => lookup_block(config@.blocks, name@) == Some(d@),
            None => lookup_block(config@.blocks, name@) is None,
        },
{
    let ghost bv = config@.blocks;
    let n = config.blocks.len();
    let mut k: usize = 0;
    while k < n
        invariant
            n == config.blocks.len(),
            bv == config@.blocks,
            k <= n,
            lookup_block_from(bv, name@, 0) == lookup_block_from(bv, name@, k as int),
        decreases n - k,
    {
        if str_eq(config.blocks[k].name.as_str(), name) {
            proof {
                assert(lookup_block_from(bv, name@, k as int) == Some(bv[k as int]));
            }
            return Some(&config.blocks[k]);
        }
        k = k + 1;
    }
    None
}

/// `template` after substituting, for each position `i` from `j` on, the
/// argument at `i` into the placeholder `{i}`, left to right.
pub open spec fn subst_from(template: Seq<char>, args: Seq<Seq<char>>, j: int) -> Seq<char>
    decreases args.len() - j,
{
    if j < 0 || j >= args.len() {
        template
    } else {
        subst_from(replace_spec(template, placeholder(j as nat), args[j]), args, j + 1)
    }
}

/// `template` after substituting argument `i` into the placeholder `{i}`,
/// for every position, left to right.
pub open spec fn subst_args(template: Seq<char>, args: Seq<Seq<char>>) -> Seq<char> {
    subst_from(template, args, 0)
}

/// Substitute each argument at position `i` into the placeholder `{i}` of
/// `template`, left to right. Only placeholders present in the template are
/// replaced; arguments without a placeholder are ignored, and a placeholder
/// without an argument stays verbatim.
pub fn substitute_args(template: &str, args: &Vec<String>) -> (r: String)
    ensures
        r@ == subst_args(template@, args.deep_view()),
{
    let ghost av = args.deep_view();
    let ghost t0 = template@;
    let mut cur = template.to_owned();
    let n = args.len();
    let mut i: usize = 0;
    while i < n
        invariant
            n == args.len(),
            av == args.deep_view(),
            av.len() == n,
            i <= n,
            subst_from(t0, av, 0) == subst_from(cur@, av, i as int),
        decreases n - i,
    {
        let ph = placeholder_str(i);
        let next = replace_str(cur.as_str(), ph.as_str(), args[i].as_str());
        proof {
            assert(av[i as int] == args@[i as int]@);
            assert(next@ == replace_spec(cur@, placeholder(i as nat), av[i as int]));
            assert(subst_from(cur@, av, i as int) == subst_from(next@, av, i + 1));
        }
        cur = next;
        i = i + 1;
    }
    cur
}

/// The rendering of one tree into target text, or the name of the first
/// rule, in depth-first order, that the definition lacks.
pub open spec fn render_node_py(n: Node, cfg: ConfigV, depth: nat) -> Result<Seq<char>, Seq<char>>
    decreases n,
{
    match n {
        Node::Stmt(rule, args) => match lookup_stmt(cfg.statements, rule) {
            None => Err(rule),
            Some(def) => Ok(indent_spec(depth) + subst_args(def.template, args) + "\n"@),
        },
        Node::Block(rule, children) => match lookup_block(cfg.blocks, rule) {
            None => Err(rule),
            Some(def) => match render_nodes_py(children, cfg, depth + 1) {
                Err(e) => Err(e),
                Ok(body) => Ok(
                    indent_spec(depth) + replace_spec(def.template, "{body}"@, body) + "\n"@,
                ),
            },
        },
    }
}

/// The rendering of a forest into target text: the concatenation of its
/// trees' renderings, or the first missing rule name.
pub open spec fn render_nodes_py(nodes: Seq<Node>, cfg: ConfigV, depth: nat) -> Result<
    Seq<char>,
    Seq<char>,
>
    decreases nodes,
{
    if nodes.len() == 0 {
        Ok(Seq::empty())
    } else {
        match render_node_py(nodes[0], cfg, depth) {
            Err(e) => Err(e),
            Ok(h) => match render_nodes_py(nodes.skip(1), cfg, depth) {
                Err(e) => Err(e),
                Ok(t) => Ok(h + t),
            },
        }
    }
}

fn py_node(stmt: &Statement, config: &LanguageConfig, ind: &String, Ghost(depth): Ghost<nat>) -> (r:
    Result<String, TranspileError>)
    requires
        ind@ == indent_spec(depth),
    ensures
        (match render_node_py(stmt_view(*stmt), config@, depth) {
            Ok(t) => r matches Ok(s) && s@ == t,
            Err(name) => r matches Err(TranspileError::UnknownRule(n)) && n@ == name,
        }),
    decreases stmt,
{
    match stmt {
        Statement::Simple(name, args) => {
            match find_statement(config, name.as_str()) {
                None => Err(TranspileError::UnknownRule(name.clone())),
                Some(def) => {
                    let line = substitute_args(def.template.as_str(), args);
                    let mut r = ind.clone();
                    r.append(line.as_str());
                    r.append("\n");
                    proof {
                        assert(r@ =~= indent_spec(depth) + subst_args(
                            def@.template,
                            args.deep_view(),
                        ) + "\n"@);
                    }
                    Ok(r)
                },
            }
        },
        Statement::Block(name, children) => {
            match find_block(config, name.as_str()) {
                None => Err(TranspileError::UnknownRule(name.clone())),
                Some(def) => {
                    let mut ind2 = ind.clone();
                    push_indent_level(&mut ind2, Ghost(depth));
                    match py_nodes(children, config, &ind2, Ghost(depth + 1)) {
                        Err(e) => Err(e),
                        Ok(body) => {
                            proof {
                                reveal_strlit("{body}");
                            }
                            let bc = replace_str(def.template.as_str(), "{body}", body.as_str());
                            let mut r = ind.clone();
                            r.append(bc.as_str());
                            r.append("\n");
                            proof {
                                assert(r@ =~= indent_spec(depth) + replace_spec(
                                    def@.template,
                                    "{body}"@,
                                    body@,
                                ) + "\n"@);
                            }
                            Ok(r)
                        },
                    }
                },
            }
        },
    }
}

fn py_nodes(
    nodes: &Vec<Statement>,
    config: &LanguageConfig,
    ind: &String,
    Ghost(depth): Ghost<nat>,
) -> (r: Result<String, TranspileError>)
    requires
        ind@ == indent_spec(depth),
    ensures
        (match render_nodes_py(stmts_view(nodes@), config@, depth) {
            Ok(t) => r matches Ok(s) && s@ == t,
            Err(name) => r matches Err(TranspileError::UnknownRule(n)) && n@ == name,
        }),
    decreases nodes@,
{
    let ghost sv = stmts_view(nodes@);
    let ghost cfgv = config@;
    let n = nodes.len();
    let mut out = String::new();
    let mut i: usize = 0;
    proof {
        assert(sv.skip(0) =~= sv);
        if sv.len() > 0 {
            lemma_stmts_view_index(nodes@, 0);
        } else {
            assert(sv.len() == 0);
        }
        assert(sv.len() == nodes@.len()) by {
            crate::ast::lemma_stmts_view_len(nodes@);
        }
        let r0 = render_nodes_py(sv, cfgv, depth);
        if r0 is Ok {
            assert(Seq::<char>::empty() + r0->Ok_0 =~= r0->Ok_0);
        }
    }
    while i < n
        invariant
            n == nodes.len(),
            sv == stmts_view(nodes@),
            sv.len() == n,
            cfgv == config@,
            ind@ == indent_spec(depth),
            i <= n,
            (match render_nodes_py(sv.skip(i as int), cfgv, depth) {
                Ok(t) => render_nodes_py(sv, cfgv, depth) == Result::<Seq<char>, Seq<char>>::Ok(
                    out@ + t,
                ),
                Err(e) => render_nodes_py(sv, cfgv, depth) == Result::<Seq<char>, Seq<char>>::Err(
                    e,
                ),
            }),
        decreases n - i,
    {
        proof {
            lemma_stmts_view_index(nodes@, i as int);
            assert(sv.skip(i as int)[0] == sv[i as int]);
            assert(sv.skip(i as int).skip(1) =~= sv.skip(i + 1));
        }
        let hres = py_node(&nodes[i], config, ind, Ghost(depth));
        match hres {
            Ok(s) => {
                let ghost prev = out@;
                out.append(s.as_str());
                proof {
                    let h = render_node_py(sv[i as int], cfgv, depth);
                    let rest = render_nodes_py(sv.skip(i + 1), cfgv, depth);
                    if rest is Ok {
                        assert(prev + (s@ + rest->Ok_0) =~= (prev + s@) + rest->Ok_0);
                    }
                }
            },
            Err(e) => {
                return Err(e);
            },
        }
        i = i + 1;
    }
    proof {
        assert(sv.skip(n as int) =~= Seq::<Node>::empty());
        assert(out@ + Seq::<char>::empty() =~= out@);
    }
    Ok(out)
}

/// What rendering for the C-like target produces: the text (or the first
/// missing rule name), and the set of variable names declared so far,
/// threaded through the walk in depth-first order.
#[verifier::ext_equal]
pub struct COut {
    pub result: Result<Seq<char>, Seq<char>>,
    pub declared: Seq<Seq<char>>,
}

/// The C-like rendering of one tree. Like the Python-like rendering, except
/// that a statement of the reserved `assignment` rule whose first argument
/// has not been declared yet is preceded by a declaration line and records
/// the name as declared.
pub open spec fn render_node_c(n: Node, cfg: ConfigV, declared: Seq<Seq<char>>, depth: nat) -> COut
    decreases n,
{
    match n {
        Node::Stmt(rule, args) => match lookup_stmt(cfg.statements, rule) {
            None => COut { result: Err(rule), declared },
            Some(def) => {
                let line = indent_spec(depth) + subst_args(def.template, args) + "\n"@;
                if rule == "assignment"@ && args.len() > 0 && !declared.contains(args[0]) {
                    COut {
                        result: Ok(indent_spec(depth) + "int "@ + args[0] + ";\n"@ + line),
                        declared: declared.push(args[0]),
                    }
                } else {
                    COut { result: Ok(line), declared }
                }
            },
        },
        Node::Block(rule, children) => match lookup_block(cfg.blocks, rule) {
            None => COut { result: Err(rule), declared },
            Some(def) => {
                let inner = render_nodes_c(children, cfg, declared, depth + 1);
                match inner.result {
                    Err(e) => COut { result: Err(e), declared: inner.declared },
                    Ok(body) => COut {
                        result: Ok(
                            indent_spec(depth) + replace_spec(def.template, "{body}"@, body)
                                + "\n"@,
                        ),
                        declared: inner.declared,
                    },
                }
            },
        },
    }
}

/// The C-like rendering of a forest: the concatenation of its trees'
/// renderings, threading the declared names left to right.
pub open spec fn render_nodes_c(
    nodes: Seq<Node>,
    cfg: ConfigV,
    declared: Seq<Seq<char>>,
    depth: nat,
) -> COut
    decreases nodes,
{
    if nodes.len() == 0 {
        COut { result: Ok(Seq::empty()), declared }
    } else {
        let h = render_node_c(nodes[0], cfg, declared, depth);
        match h.result {
            Err(e) => h,
            Ok(a) => {
                let rest = render_nodes_c(nodes.skip(1), cfg, h.declared, depth);
                match rest.result {
                    Err(e) => rest,
                    Ok(b) => COut { result: Ok(a + b), declared: rest.declared },
                }
            },
        }
    }
}

/// Does the vector hold this exact string?
fn contains_str(v: &Vec<String>, s: &str) -> (r: bool)
    ensures
        r == v.deep_view().contains(s@),
{
    let n = v.len();
    let mut i: usize = 0;
    while i < n
        invariant
            n == v.len(),
            i <= n,
            forall|j: int| 0 <= j < i ==> v.deep_view()[j] != s@,
        decreases n - i,
    {
        if str_eq(v[i].as_str(), s) {
            proof {
                assert(v.deep_view()[i as int] == s@);
            }
            return true;
        }
        i = i + 1;
    }
    proof {
        assert(!v.deep_view().contains(s@));
    }
    false
}

fn c_node(
    stmt: &Statement,
    config: &LanguageConfig,
    declared: &mut Vec<String>,
    ind: &String,
    Ghost(depth): Ghost<nat>,
) -> (r: Result<String, TranspileError>)
    requires
        ind@ == indent_spec(depth),
    ensures
        ({
            let out = render_node_c(stmt_view(*stmt), config@, old(declared).deep_view(), depth);
            &&& final(declared).deep_view() == out.declared
            &&& match out.result {
                Ok(t) => r matches Ok(s) && s@ == t,
                Err(name) => r matches Err(TranspileError::UnknownRule(n)) && n@ == name,
            }
        }),
    decreases stmt,
{
    match stmt {
        Statement::Simple(name, args) => {
            match find_statement(config, name.as_str()) {
                None => Err(TranspileError::UnknownRule(name.clone())),
                Some(def) => {
                    let ghost av = args.deep_view();
                    let line = substitute_args(def.template.as_str(), args);
                    if str_eq(name.as_str(), "assignment") && args.len() > 0 && !contains_str(
                        declared,
                        args[0].as_str(),
                    ) {
                        proof {
                            assert(av[0] == args@[0]@);
                        }
                        let mut r = ind.clone();
                        r.append("int ");
                        r.append(args[0].as_str());
                        r.append(";\n");
                        r.append(ind.as_str());
                        r.append(line.as_str());
                        r.append("\n");
                        let ghost prev = declared.deep_view();
                        declared.push(args[0].clone());
                        proof {
                            assert(declared.deep_view() =~= prev.push(av[0]));
                            assert(r@ =~= indent_spec(depth) + "int "@ + av[0] + ";\n"@ + (
                            indent_spec(depth) + subst_args(def@.template, av) + "\n"@));
                        }
                        Ok(r)
                    } else {
                        let mut r = ind.clone();
                        r.append(line.as_str());
                        r.append("\n");
                        proof {
                            assert(r@ =~= indent_spec(depth) + subst_args(def@.template, av)
                                + "\n"@);
                        }
                        Ok(r)
                    }
                },
            }
        },
        Statement::Block(name, children) => {
            match find_block(config, name.as_str()) {
                None => Err(TranspileError::UnknownRule(name.clone())),
                Some(def) => {
                    let mut ind2 = ind.clone();
                    push_indent_level(&mut ind2, Ghost(depth));
                    match c_nodes(children, config, declared, &ind2, Ghost(depth + 1)) {
                        Err(e) => Err(e),
                        Ok(body) => {
                            proof {
                                reveal_strlit("{body}");
                            }
                            let bc = replace_str(def.template.as_str(), "{body}", body.as_str());
                            let mut r = ind.clone();
                            r.append(bc.as_str());
                            r.append("\n");
                            proof {
                                assert(r@ =~= indent_spec(depth) + replace_spec(
                                    def@.template,
                                    "{body}"@,
                                    body@,
                                ) + "\n"@);
                            }
                            Ok(r)
                        },
                    }
                },
            }
        },
    }
}

fn c_nodes(
    nodes: &Vec<Statement>,
    config: &LanguageConfig,
    declared: &mut Vec<String>,
    ind: &String,
    Ghost(depth): Ghost<nat>,
) -> (r: Result<String, TranspileError>)
    requires
        ind@ == indent_spec(depth),
    ensures
        ({
            let out = render_nodes_c(
                stmts_view(nodes@),
                config@,
                old(declared).deep_view(),
                depth,
            );
            &&& final(declared).deep_view() == out.declared
            &&& match out.result {
                Ok(t) => r matches Ok(s) && s@ == t,
                Err(name) => r matches Err(TranspileError::UnknownRule(n)) && n@ == name,
            }
        }),
    decreases nodes@,
{
    let ghost sv = stmts_view(nodes@);
    let ghost cfgv = config@;
    let ghost d0 = declared.deep_view();
    let n = nodes.len();
    let mut out = String::new();
    let mut i: usize = 0;
    proof {
        assert(sv.skip(0) =~= sv);
        assert(sv.len() == nodes@.len()) by {
            crate::ast::lemma_stmts_view_len(nodes@);
        }
        let r0 = render_nodes_c(sv, cfgv, d0, depth);
        if r0.result is Ok {
            assert(Seq::<char>::empty() + r0.result->Ok_0 =~= r0.result->Ok_0);
        }
    }
    while i < n
        invariant
            n == nodes.len(),
            sv == stmts_view(nodes@),
            sv.len() == n,
            cfgv == config@,
            ind@ == indent_spec(depth),
            d0 == old(declared).deep_view(),
            i <= n,
            ({
                let whole = render_nodes_c(sv, cfgv, d0, depth);
                let remaining = render_nodes_c(
                    sv.skip(i as int),
                    cfgv,
                    declared.deep_view(),
                    depth,
                );
                match remaining.result {
                    Ok(t) => whole == (COut {
                        result: Ok(out@ + t),
                        declared: remaining.declared,
                    }),
                    Err(e) => whole == (COut { result: Err(e), declared: remaining.declared }),
                }
            }),
        decreases n - i,
    {
        proof {
            lemma_stmts_view_index(nodes@, i as int);
            assert(sv.skip(i as int)[0] == sv[i as int]);
            assert(sv.skip(i as int).skip(1) =~= sv.skip(i + 1));
        }
        let ghost dpre = declared.deep_view();
        let hres = c_node(&nodes[i], config, declared, ind, Ghost(depth));
        match hres {
            Ok(s) => {
                let ghost prev = out@;
                out.append(s.as_str());
                proof {
                    let h = render_node_c(sv[i as int], cfgv, dpre, depth);
                    let rest = render_nodes_c(sv.skip(i + 1), cfgv, h.declared, depth);
                    if rest.result is Ok {
                        assert(prev + (s@ + rest.result->Ok_0) =~= (prev + s@)
                            + rest.result->Ok_0);
                    }
                }
            },
            Err(e) => {
                proof {
                    let h = render_node_c(sv[i as int], cfgv, dpre, depth);
                    let remaining = render_nodes_c(sv.skip(i as int), cfgv, dpre, depth);
                    assert(remaining == h);
                }
                return Err(e);
            },
        }
        i = i + 1;
    }
    proof {
        assert(sv.skip(n as int) =~= Seq::<Node>::empty());
        assert(out@ + Seq::<char>::empty() =~= out@);
    }
    Ok(out)
}

/// Render the given statement trees for the C-like target, starting at
/// `indent` levels of indentation. `declared_vars` carries the variable
/// names already declared: a statement of the reserved `assignment` rule
/// whose first argument is not yet in it is preceded by a declaration line,
/// and the name is appended. Returns the first missing rule name as an
/// `UnknownRule` error; `declared_vars` keeps the names declared up to that
/// point.
pub fn generate_c_code(
    statements: &Vec<Statement>,
    config: &LanguageConfig,
    declared_vars: &mut Vec<String>,
    indent: usize,
) -> (r: Result<String, TranspileError>)
    ensures
        ({
            let out = render_nodes_c(
                stmts_view(statements@),
                config@,
                old(declared_vars).deep_view(),
                indent as nat,
            );
            &&& final(declared_vars).deep_view() == out.declared
            &&& match out.result {
                Ok(t) => r matches Ok(s) && s@ == t,
                Err(name) => r matches Err(TranspileError::UnknownRule(n)) && n@ == name,
            }
        }),
{
    let ind = indent_string(indent);
    c_nodes(statements, config, declared_vars, &ind, Ghost(indent as nat))
}

/// Render the given statement trees for the Python-like target: each leaf
/// through its statement rule, each block through its block rule with its
/// children one level deeper, starting at `indent` levels of indentation.
/// Returns the first missing rule name as an `UnknownRule` error.
pub fn generate_python_code(
    statements: &Vec<Statement>,
    config: &LanguageConfig,
    indent: usize,
) -> (r: Result<String, TranspileError>)
    ensures
        (match render_nodes_py(stmts_view(statements@), config@, indent as nat) {
            Ok(t) => r matches Ok(s) && s@ == t,
            Err(name) => r matches Err(TranspileError::UnknownRule(n)) && n@ == name,
        }),
{
    let ind = indent_string(indent);
    py_nodes(statements, config, &ind, Ghost(indent as nat))
}

} // verus!
