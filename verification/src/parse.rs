//! The tree builder: a single left-to-right scan of the source lines that
//! maintains a stack of open blocks and assembles the statement tree.
//!
//! Each line is trimmed; blank lines are skipped. An open-block outcome
//! pushes a frame, a close-block outcome pops the innermost frame and wraps
//! it into a block node, and statement outcomes append a leaf to the
//! innermost frame (or to the top level when no block is open). A block
//! still open after the last line is a structural error, reported with the
//! line that opened it.

use vstd::prelude::*;
use crate::ast::Node;
use crate::ast::Statement;
use crate::ast::lemma_stmts_view_push;
use crate::ast::stmt_view;
use crate::ast::stmts_view;
use crate::classify::MatchOutcome;
use crate::classify::OutcomeV;
use crate::classify::classify_line;
use crate::classify::classify_spec;
use crate::config::ConfigV;
use crate::config::LanguageConfig;
use crate::error::TranspileError;
use crate::text::source_lines;
use crate::text::split_lines_str;
use crate::text::trim_spec;
use crate::text::trim_str;

verus! {

/// One open block during the scan: the rule that opened it, the source line
/// (counting from one) of its start line, and the children collected so far.
#[verifier::ext_equal]
pub struct FrameV {
    pub rule: Seq<char>,
    pub line: nat,
    pub children: Seq<Node>,
}

/// The scan's state: the finished top-level trees, and the stack of open
/// blocks, innermost last.
#[verifier::ext_equal]
pub struct ParseState {
    pub top: Seq<Node>,
    pub stack: Seq<FrameV>,
}

/// The state before any line: nothing built, no block open.
pub open spec fn initial_state() -> ParseState {
    ParseState { top: Seq::empty(), stack: Seq::empty() }
}

/// Append a finished node to the innermost open block, or to the top level
/// when no block is open.
pub open spec fn push_node(st: ParseState, n: Node) -> ParseState {
    if st.stack.len() == 0 {
        ParseState { top: st.top.push(n), stack: st.stack }
    } else {
        let f = st.stack.last();
        ParseState {
            top: st.top,
            stack: st.stack.update(
                st.stack.len() - 1,
                FrameV { rule: f.rule, line: f.line, children: f.children.push(n) },
            ),
        }
    }
}

/// How one classified line changes the scan's state. A close outcome with no
/// open block cannot arise from the classifier; it is defined to change
/// nothing.
pub open spec fn parse_step(st: ParseState, out: OutcomeV, line: Seq<char>, line_no: nat) -> ParseState {
    match out {
        OutcomeV::OpenBlock(name) => ParseState {
            top: st.top,
            stack: st.stack.push(FrameV { rule: name, line: line_no, children: Seq::empty() }),
        },
        OutcomeV::CloseBlock => {
            if st.stack.len() == 0 {
                st
            } else {
                let f = st.stack.last();
                push_node(
                    ParseState { top: st.top, stack: st.stack.drop_last() },
                    Node::Block(f.rule, f.children),
                )
            }
        },
        OutcomeV::Stmt(name, args) => push_node(st, Node::Stmt(name, args)),
        OutcomeV::Default => push_node(st, Node::Stmt("print"@, seq![line])),
    }
}

/// How one raw line changes the scan's state: trim it, skip it when blank,
/// otherwise classify it and apply the outcome.
pub open spec fn step_line(st: ParseState, raw: Seq<char>, cfg: ConfigV, line_no: nat) -> ParseState {
    let t = trim_spec(raw);
    if t.len() == 0 {
        st
    } else {
        parse_step(st, classify_spec(t, cfg, st.stack.len() > 0), t, line_no)
    }
}

/// Run the scan over `lines`, the first of which is source line `line_no`.
pub open spec fn run_lines(lines: Seq<Seq<char>>, cfg: ConfigV, st: ParseState, line_no: nat) -> ParseState
    decreases lines.len(),
{
    if lines.len() == 0 {
        st
    } else {
        run_lines(lines.skip(1), cfg, step_line(st, lines[0], cfg, line_no), line_no + 1)
    }
}

/// The scan's final state on a whole source text.
pub open spec fn parse_final(src: Seq<char>, cfg: ConfigV) -> ParseState {
    run_lines(source_lines(src), cfg, initial_state(), 1)
}

/// One open block, as the scan holds it.
struct Frame {
    rule: String,
    line: usize,
    children: Vec<Statement>,
}

spec fn frame_view(f: Frame) -> FrameV {
    FrameV { rule: f.rule@, line: f.line as nat, children: stmts_view(f.children@) }
}

spec fn frames_view(s: Seq<Frame>) -> Seq<FrameV> {
    Seq::new(s.len(), |i: int| frame_view(s[i]))
}

/// Append a finished statement to the innermost open frame, or to the
/// top-level sequence when no frame is open.
fn push_node_exec(top: &mut Vec<Statement>, stack: &mut Vec<Frame>, node: Statement)
    ensures
        (ParseState { top: stmts_view(final(top)@), stack: frames_view(final(stack)@) }
            == push_node(
            ParseState { top: stmts_view(old(top)@), stack: frames_view(old(stack)@) },
            stmt_view(node),
        )),
{
    let ghost st0 = ParseState { top: stmts_view(top@), stack: frames_view(stack@) };
    let ghost nv = stmt_view(node);
    if stack.len() == 0 {
        proof {
            assert(st0.stack.len() == 0);
            lemma_stmts_view_push(top@, node);
        }
        top.push(node);
        proof {
            assert(frames_view(stack@) =~= st0.stack);
            assert(ParseState { top: stmts_view(top@), stack: frames_view(stack@) } =~= push_node(
                st0,
                nv,
            ));
        }
    } else {
        proof {
            assert(st0.stack.len() == stack@.len());
        }
        let mut g = stack.pop().unwrap();
        proof {
            lemma_stmts_view_push(g.children@, node);
        }
        g.children.push(node);
        stack.push(g);
        proof {
            let l = st0.stack.len() - 1;
            assert(frame_view(stack@[l]).children =~= st0.stack[l].children.push(nv));
            assert(frame_view(stack@[l]) =~= FrameV {
                rule: st0.stack[l].rule,
                line: st0.stack[l].line,
                children: st0.stack[l].children.push(nv),
            });
            assert(frames_view(stack@) =~= st0.stack.update(
                l,
                FrameV {
                    rule: st0.stack[l].rule,
                    line: st0.stack[l].line,
                    children: st0.stack[l].children.push(nv),
                },
            ));
            assert(stmts_view(top@) == st0.top);
            assert(ParseState { top: stmts_view(top@), stack: frames_view(stack@) } =~= push_node(
                st0,
                nv,
            ));
        }
    }
}

/// Parse a whole source text into its top-level statement trees.
///
/// The text is split at line ends; each line is trimmed and blank lines are
/// skipped; each remaining line is classified against the definition and
/// folded into the tree. If every opened block is closed, the top-level
/// trees are returned; otherwise the result is `MalformedSource` carrying
/// the source line (counting from one) that opened the innermost block left
/// open.
pub fn parse_source(source: &str, config: &LanguageConfig) -> (r: Result<
    Vec<Statement>,
    TranspileError,
>)
    ensures
        ({
            let st = parse_final(source@, config@);
            match r {
                Ok(v) => st.stack.len() == 0 && stmts_view(v@) == st.top,
                Err(e) => {
                    &&& st.stack.len() > 0
                    &&& e matches TranspileError::MalformedSource(k) && k as nat
                        == st.stack.last().line
                },
            }
        }),
{
    let ghost cfgv = config@;
    let ghost lv = source_lines(source@);
    let lines = split_lines_str(source);
    let mut top: Vec<Statement> = Vec::new();
    let mut stack: Vec<Frame> = Vec::new();
    let n = lines.len();
    proof {
        assert(lv.skip(0) =~= lv);
        assert(top@ =~= Seq::<Statement>::empty());
        assert(stmts_view(top@) =~= Seq::<Node>::empty());
        assert(frames_view(stack@) =~= Seq::<FrameV>::empty());
        assert(ParseState { top: stmts_view(top@), stack: frames_view(stack@) }
            =~= initial_state());
        assert(lines.deep_view().len() == lv.len());
    }
    let mut i: usize = 0;
    while i < n
        invariant
            n == lines.len(),
            lines.deep_view() == lv,
            cfgv == config@,
            i <= n,
            run_lines(
                lv.skip(i as int),
                cfgv,
                ParseState { top: stmts_view(top@), stack: frames_view(stack@) },
                (i + 1) as nat,
            ) == parse_final(source@, config@),
        decreases n - i,
    {
        let ghost st0 = ParseState { top: stmts_view(top@), stack: frames_view(stack@) };
        proof {
            assert(lv.skip(i as int)[0] == lv[i as int]);
            assert(lv[i as int] == lines@[i as int]@);
            assert(lv.skip(i as int).skip(1) =~= lv.skip(i + 1));
        }
        let line = trim_str(lines[i].as_str());
        let ghost t = trim_spec(lv[i as int]);
        if line.unicode_len() == 0 {
            proof {
                assert(step_line(st0, lv[i as int], cfgv, (i + 1) as nat) == st0);
            }
        } else {
            let block_open = stack.len() > 0;
            proof {
                assert(block_open == (st0.stack.len() > 0));
            }
            let m = classify_line(line, config, block_open);
            let ghost outv = classify_spec(t, cfgv, st0.stack.len() > 0);
            proof {
                assert(m@ == outv);
            }
            match m {
                MatchOutcome::OpenBlock(name) => {
                    let ghost prev = stack@;
                    let f = Frame { rule: name, line: i + 1, children: Vec::new() };
                    proof {
                        assert(f.children@ =~= Seq::<Statement>::empty());
                        assert(frame_view(f) =~= FrameV {
                            rule: outv->OpenBlock_0,
                            line: (i + 1) as nat,
                            children: Seq::empty(),
                        });
                    }
                    stack.push(f);
                    proof {
                        assert(frames_view(stack@) =~= frames_view(prev).push(frame_view(f)));
                        assert(ParseState { top: stmts_view(top@), stack: frames_view(stack@) }
                            =~= parse_step(st0, outv, t, (i + 1) as nat));
                    }
                },
                MatchOutcome::CloseBlock => {
                    proof {
                        assert(st0.stack.len() > 0);
                        assert(stack@.len() > 0);
                    }
                    let ghost prev = stack@;
                    let f = stack.pop().unwrap();
                    let node = Statement::Block(f.rule, f.children);
                    proof {
                        assert(frames_view(stack@) =~= frames_view(prev).drop_last());
                        assert(frames_view(prev).last() == frame_view(prev.last()));
                        assert(stmt_view(node) == Node::Block(
                            st0.stack.last().rule,
                            st0.stack.last().children,
                        ));
                    }
                    push_node_exec(&mut top, &mut stack, node);
                    proof {
                        assert(frames_view(prev).drop_last() =~= st0.stack.drop_last());
                        assert(ParseState { top: stmts_view(top@), stack: frames_view(stack@) }
                            == parse_step(st0, outv, t, (i + 1) as nat));
                    }
                },
                MatchOutcome::Stmt(name, args) => {
                    let node = Statement::Simple(name, args);
                    push_node_exec(&mut top, &mut stack, node);
                    proof {
                        assert(ParseState { top: stmts_view(top@), stack: frames_view(stack@) }
                            == parse_step(st0, outv, t, (i + 1) as nat));
                    }
                },
                MatchOutcome::Default => {
                    let pname = String::from_str("print");
                    let mut args: Vec<String> = Vec::new();
                    args.push(line.to_owned());
                    let node = Statement::Simple(pname, args);
                    proof {
                        assert(args.deep_view() =~= seq![t]);
                        assert(stmt_view(node) == Node::Stmt("print"@, seq![t]));
                    }
                    push_node_exec(&mut top, &mut stack, node);
                    proof {
                        assert(ParseState { top: stmts_view(top@), stack: frames_view(stack@) }
                            == parse_step(st0, outv, t, (i + 1) as nat));
                    }
                },
            }
        }
        i = i + 1;
    }
    proof {
        assert(lv.skip(n as int) =~= Seq::<Seq<char>>::empty());
    }
    if stack.len() == 0 {
        proof {
            assert(frames_view(stack@).len() == 0);
        }
        Ok(top)
    } else {
        let k = stack[stack.len() - 1].line;
        proof {
            let st = parse_final(source@, config@);
            assert(st.stack == frames_view(stack@));
            assert(st.stack.last() == frame_view(stack@.last()));
        }
        Err(TranspileError::MalformedSource(k))
    }
}

} // verus!
