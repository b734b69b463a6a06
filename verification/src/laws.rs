//! Laws of the pipeline, stated and proved over the specification
//! functions: how the shape of the built tree follows from the line
//! outcomes, and that rendering is a function of the tree and the
//! definition alone.

use vstd::prelude::*;
use crate::ast::Node;
use crate::ast::forest_blocks;
use crate::ast::forest_count;
use crate::ast::forest_depth;
use crate::ast::nat_max;
use crate::ast::node_blocks;
use crate::ast::node_count;
use crate::ast::node_depth;
use crate::classify::OutcomeV;
use crate::classify::classify_spec;
use crate::config::ConfigV;
use crate::parse::FrameV;
use crate::parse::ParseState;
use crate::parse::initial_state;
use crate::parse::parse_final;
use crate::parse::parse_step;
use crate::parse::push_node;
use crate::parse::run_lines;
use crate::parse::step_line;
use crate::render::COut;
use crate::render::render_nodes_c;
use crate::render::render_nodes_py;
use crate::text::source_lines;
use crate::text::trim_spec;

verus! {

/// The classifier's decision for one raw line in a given state: `None` for
/// a blank line, otherwise the outcome.
pub open spec fn line_outcome(st: ParseState, raw: Seq<char>, cfg: ConfigV) -> Option<OutcomeV> {
    let t = trim_spec(raw);
    if t.len() == 0 {
        None
    } else {
        Some(classify_spec(t, cfg, st.stack.len() > 0))
    }
}

/// How many of `lines` are non-blank after trimming.
pub open spec fn count_nonblank(lines: Seq<Seq<char>>) -> nat
    decreases lines.len(),
{
    if lines.len() == 0 {
        0
    } else {
        (if trim_spec(lines[0]).len() == 0 {
            0nat
        } else {
            1nat
        }) + count_nonblank(lines.skip(1))
    }
}

/// How many of `lines` open a block, scanning from state `st` with the
/// first line numbered `ln`.
pub open spec fn count_opens(lines: Seq<Seq<char>>, cfg: ConfigV, st: ParseState, ln: nat) -> nat
    decreases lines.len(),
{
    if lines.len() == 0 {
        0
    } else {
        (if line_outcome(st, lines[0], cfg) matches Some(OutcomeV::OpenBlock(_)) {
            1nat
        } else {
            0nat
        }) + count_opens(lines.skip(1), cfg, step_line(st, lines[0], cfg, ln), ln + 1)
    }
}

/// How many of `lines` close a block, scanning from state `st` with the
/// first line numbered `ln`.
pub open spec fn count_closes(lines: Seq<Seq<char>>, cfg: ConfigV, st: ParseState, ln: nat) -> nat
    decreases lines.len(),
{
    if lines.len() == 0 {
        0
    } else {
        (if line_outcome(st, lines[0], cfg) matches Some(OutcomeV::CloseBlock) {
            1nat
        } else {
            0nat
        }) + count_closes(lines.skip(1), cfg, step_line(st, lines[0], cfg, ln), ln + 1)
    }
}

/// The greatest number of blocks open at once while scanning `lines` from
/// state `st`, the starting state included.
pub open spec fn peak_open(lines: Seq<Seq<char>>, cfg: ConfigV, st: ParseState, ln: nat) -> nat
    decreases lines.len(),
{
    if lines.len() == 0 {
        st.stack.len()
    } else {
        nat_max(st.stack.len(), peak_open(lines.skip(1), cfg, step_line(st, lines[0], cfg, ln), ln + 1))
    }
}

/// All nodes held by a stack of frames, nested nodes included.
pub open spec fn frames_nodes(fs: Seq<FrameV>) -> nat
    decreases fs.len(),
{
    if fs.len() == 0 {
        0
    } else {
        forest_count(fs[0].children) + frames_nodes(fs.skip(1))
    }
}

/// All block nodes held by a stack of frames, nested nodes included.
pub open spec fn frames_blocks(fs: Seq<FrameV>) -> nat
    decreases fs.len(),
{
    if fs.len() == 0 {
        0
    } else {
        forest_blocks(fs[0].children) + frames_blocks(fs.skip(1))
    }
}

/// The greatest nesting depth reached inside a stack of frames whose first
/// frame sits `base` levels deep: the frame at offset `j` holds its
/// children at depth `base + j + 1`.
pub open spec fn frames_depth(fs: Seq<FrameV>, base: nat) -> nat
    decreases fs.len(),
{
    if fs.len() == 0 {
        0
    } else {
        nat_max(base + 1 + forest_depth(fs[0].children), frames_depth(fs.skip(1), base + 1))
    }
}

/// All nodes built so far in a scan state.
pub open spec fn st_nodes(st: ParseState) -> nat {
    forest_count(st.top) + frames_nodes(st.stack)
}

/// All block nodes built so far in a scan state.
pub open spec fn st_blocks(st: ParseState) -> nat {
    forest_blocks(st.top) + frames_blocks(st.stack)
}

/// The greatest nesting depth reached so far in a scan state.
pub open spec fn st_depth(st: ParseState) -> nat {
    nat_max(forest_depth(st.top), frames_depth(st.stack, 0))
}

proof fn lemma_forest_count_push(s: Seq<Node>, x: Node)
    ensures
        forest_count(s.push(x)) == forest_count(s) + node_count(x),
    decreases s.len(),
{
    if s.len() == 0 {
        assert(s.push(x)[0] == x);
        assert(s.push(x).skip(1) =~= Seq::<Node>::empty());
        assert(forest_count(Seq::<Node>::empty()) == 0);
    } else {
        assert(s.push(x)[0] == s[0]);
        assert(s.push(x).skip(1) =~= s.skip(1).push(x));
        lemma_forest_count_push(s.skip(1), x);
    }
}

proof fn lemma_forest_blocks_push(s: Seq<Node>, x: Node)
    ensures
        forest_blocks(s.push(x)) == forest_blocks(s) + node_blocks(x),
    decreases s.len(),
{
    if s.len() == 0 {
        assert(s.push(x)[0] == x);
        assert(s.push(x).skip(1) =~= Seq::<Node>::empty());
        assert(forest_blocks(Seq::<Node>::empty()) == 0);
    } else {
        assert(s.push(x)[0] == s[0]);
        assert(s.push(x).skip(1) =~= s.skip(1).push(x));
        lemma_forest_blocks_push(s.skip(1), x);
    }
}

proof fn lemma_forest_depth_push(s: Seq<Node>, x: Node)
    ensures
        forest_depth(s.push(x)) == nat_max(forest_depth(s), node_depth(x)),
    decreases s.len(),
{
    if s.len() == 0 {
        assert(s.push(x)[0] == x);
        assert(s.push(x).skip(1) =~= Seq::<Node>::empty());
        assert(forest_depth(Seq::<Node>::empty()) == 0);
    } else {
        assert(s.push(x)[0] == s[0]);
        assert(s.push(x).skip(1) =~= s.skip(1).push(x));
        lemma_forest_depth_push(s.skip(1), x);
    }
}

proof fn lemma_frames_nodes_push(fs: Seq<FrameV>, f: FrameV)
    ensures
        frames_nodes(fs.push(f)) == frames_nodes(fs) + forest_count(f.children),
    decreases fs.len(),
{
    if fs.len() == 0 {
        assert(fs.push(f)[0] == f);
        assert(fs.push(f).skip(1) =~= Seq::<FrameV>::empty());
        assert(frames_nodes(Seq::<FrameV>::empty()) == 0);
    } else {
        assert(fs.push(f)[0] == fs[0]);
        assert(fs.push(f).skip(1) =~= fs.skip(1).push(f));
        lemma_frames_nodes_push(fs.skip(1), f);
    }
}

proof fn lemma_frames_blocks_push(fs: Seq<FrameV>, f: FrameV)
    ensures
        frames_blocks(fs.push(f)) == frames_blocks(fs) + forest_blocks(f.children),
    decreases fs.len(),
{
    if fs.len() == 0 {
        assert(fs.push(f)[0] == f);
        assert(fs.push(f).skip(1) =~= Seq::<FrameV>::empty());
        assert(frames_blocks(Seq::<FrameV>::empty()) == 0);
    } else {
        assert(fs.push(f)[0] == fs[0]);
        assert(fs.push(f).skip(1) =~= fs.skip(1).push(f));
        lemma_frames_blocks_push(fs.skip(1), f);
    }
}

proof fn lemma_frames_depth_push(fs: Seq<FrameV>, f: FrameV, base: nat)
    ensures
        frames_depth(fs.push(f), base) == nat_max(
            frames_depth(fs, base),
            base + fs.len() + 1 + forest_depth(f.children),
        ),
    decreases fs.len(),
{
    if fs.len() == 0 {
        assert(fs.push(f)[0] == f);
        assert(fs.push(f).skip(1) =~= Seq::<FrameV>::empty());
        assert(frames_depth(Seq::<FrameV>::empty(), base + 1) == 0);
    } else {
        assert(fs.push(f)[0] == fs[0]);
        assert(fs.push(f).skip(1) =~= fs.skip(1).push(f));
        lemma_frames_depth_push(fs.skip(1), f, base + 1);
    }
}

proof fn lemma_frames_depth_lb(fs: Seq<FrameV>, base: nat)
    requires
        fs.len() > 0,
    ensures
        frames_depth(fs, base) >= base + fs.len(),
    decreases fs.len(),
{
    if fs.len() > 1 {
        lemma_frames_depth_lb(fs.skip(1), base + 1);
    }
}

proof fn lemma_st_depth_lb(st: ParseState)
    ensures
        st_depth(st) >= st.stack.len(),
{
    if st.stack.len() > 0 {
        lemma_frames_depth_lb(st.stack, 0);
    }
}

/// How one line changes the scan's size measures: a blank line changes
/// nothing; an open-block line adds no node; every other line adds exactly
/// one node, which is a block node exactly for a close-block line; and the
/// deepest nesting reached grows exactly to the new stack height.
proof fn lemma_step(st: ParseState, raw: Seq<char>, cfg: ConfigV, ln: nat)
    ensures
        ({
            let st2 = step_line(st, raw, cfg, ln);
            let t = trim_spec(raw);
            &&& t.len() == 0 ==> st2 == st
            &&& t.len() > 0 ==> ({
                let o = classify_spec(t, cfg, st.stack.len() > 0);
                &&& st_nodes(st2) == st_nodes(st) + (if o is OpenBlock {
                    0nat
                } else {
                    1nat
                })
                &&& st_blocks(st2) == st_blocks(st) + (if o is CloseBlock {
                    1nat
                } else {
                    0nat
                })
                &&& st2.stack.len() as int == st.stack.len() + (if o is OpenBlock {
                    1int
                } else if o is CloseBlock {
                    -1int
                } else {
                    0int
                })
                &&& st_depth(st2) == nat_max(st_depth(st), st2.stack.len())
            })
        }),
{
    let t = trim_spec(raw);
    if t.len() > 0 {
        let o = classify_spec(t, cfg, st.stack.len() > 0);
        let st2 = parse_step(st, o, t, ln);
        match o {
            OutcomeV::OpenBlock(name) => {
                let f = FrameV { rule: name, line: ln, children: Seq::empty() };
                lemma_frames_nodes_push(st.stack, f);
                lemma_frames_blocks_push(st.stack, f);
                lemma_frames_depth_push(st.stack, f, 0);
                assert(forest_count(Seq::<Node>::empty()) == 0);
                assert(forest_blocks(Seq::<Node>::empty()) == 0);
                assert(forest_depth(Seq::<Node>::empty()) == 0);
            },
            OutcomeV::CloseBlock => {
                assert(st.stack.len() > 0);
                let f = st.stack.last();
                let b = Node::Block(f.rule, f.children);
                let inner = st.stack.drop_last();
                assert(st.stack =~= inner.push(f));
                lemma_frames_nodes_push(inner, f);
                lemma_frames_blocks_push(inner, f);
                lemma_frames_depth_push(inner, f, 0);
                assert(node_count(b) == 1 + forest_count(f.children));
                assert(node_blocks(b) == 1 + forest_blocks(f.children));
                assert(node_depth(b) == 1 + forest_depth(f.children));
                if inner.len() == 0 {
                    lemma_forest_count_push(st.top, b);
                    lemma_forest_blocks_push(st.top, b);
                    lemma_forest_depth_push(st.top, b);
                    assert(st2.top == st.top.push(b));
                    assert(st2.stack =~= Seq::<FrameV>::empty());
                } else {
                    let g = inner.last();
                    let g2 = FrameV { rule: g.rule, line: g.line, children: g.children.push(b) };
                    let inner2 = inner.drop_last();
                    assert(inner =~= inner2.push(g));
                    assert(st2.stack =~= inner2.push(g2)) by {
                        assert(st2.stack =~= inner.update(inner.len() - 1, g2));
                    }
                    lemma_frames_nodes_push(inner2, g);
                    lemma_frames_blocks_push(inner2, g);
                    lemma_frames_depth_push(inner2, g, 0);
                    lemma_frames_nodes_push(inner2, g2);
                    lemma_frames_blocks_push(inner2, g2);
                    lemma_frames_depth_push(inner2, g2, 0);
                    lemma_forest_count_push(g.children, b);
                    lemma_forest_blocks_push(g.children, b);
                    lemma_forest_depth_push(g.children, b);
                }
                lemma_st_depth_lb(st);
            },
            OutcomeV::Stmt(name, args) => {
                let s = Node::Stmt(name, args);
                lemma_push_leaf(st, s);
            },
            OutcomeV::Default => {
                let s = Node::Stmt("print"@, seq![t]);
                lemma_push_leaf(st, s);
            },
        }
    }
}

/// Appending a statement leaf adds one node, no block, and no depth.
proof fn lemma_push_leaf(st: ParseState, s: Node)
    requires
        s is Stmt,
    ensures
        ({
            let st2 = push_node(st, s);
            &&& st_nodes(st2) == st_nodes(st) + 1
            &&& st_blocks(st2) == st_blocks(st)
            &&& st2.stack.len() == st.stack.len()
            &&& st_depth(st2) == nat_max(st_depth(st), st2.stack.len())
        }),
{
    let st2 = push_node(st, s);
    assert(node_count(s) == 1);
    assert(node_blocks(s) == 0);
    assert(node_depth(s) == 0);
    if st.stack.len() == 0 {
        lemma_forest_count_push(st.top, s);
        lemma_forest_blocks_push(st.top, s);
        lemma_forest_depth_push(st.top, s);
    } else {
        let f = st.stack.last();
        let f2 = FrameV { rule: f.rule, line: f.line, children: f.children.push(s) };
        let inner = st.stack.drop_last();
        assert(st.stack =~= inner.push(f));
        assert(st2.stack =~= inner.push(f2)) by {
            assert(st2.stack =~= st.stack.update(st.stack.len() - 1, f2));
        }
        lemma_frames_nodes_push(inner, f);
        lemma_frames_blocks_push(inner, f);
        lemma_frames_depth_push(inner, f, 0);
        lemma_frames_nodes_push(inner, f2);
        lemma_frames_blocks_push(inner, f2);
        lemma_frames_depth_push(inner, f2, 0);
        lemma_forest_count_push(f.children, s);
        lemma_forest_blocks_push(f.children, s);
        lemma_forest_depth_push(f.children, s);
        lemma_st_depth_lb(st);
    }
}

proof fn lemma_peak_lb(lines: Seq<Seq<char>>, cfg: ConfigV, st: ParseState, ln: nat)
    ensures
        peak_open(lines, cfg, st, ln) >= st.stack.len(),
    decreases lines.len(),
{
    if lines.len() > 0 {
        lemma_peak_lb(lines.skip(1), cfg, step_line(st, lines[0], cfg, ln), ln + 1);
    }
}

/// Scanning `lines` from `st`: every non-blank line but an open-block line
/// adds exactly one node; every close-block line adds exactly one block
/// node; opens and closes balance against the stack height; and the deepest
/// nesting reached is the peak number of concurrently open blocks.
proof fn lemma_run(lines: Seq<Seq<char>>, cfg: ConfigV, st: ParseState, ln: nat)
    ensures
        ({
            let fin = run_lines(lines, cfg, st, ln);
            &&& st_nodes(fin) + count_opens(lines, cfg, st, ln) == st_nodes(st) + count_nonblank(
                lines,
            )
            &&& st_blocks(fin) == st_blocks(st) + count_closes(lines, cfg, st, ln)
            &&& fin.stack.len() + count_closes(lines, cfg, st, ln) == st.stack.len()
                + count_opens(lines, cfg, st, ln)
            &&& st_depth(fin) == nat_max(st_depth(st), peak_open(lines, cfg, st, ln))
        }),
    decreases lines.len(),
{
    lemma_st_depth_lb(st);
    if lines.len() == 0 {
    } else {
        let st1 = step_line(st, lines[0], cfg, ln);
        lemma_step(st, lines[0], cfg, ln);
        lemma_run(lines.skip(1), cfg, st1, ln + 1);
        lemma_peak_lb(lines.skip(1), cfg, st1, ln + 1);
        lemma_st_depth_lb(st1);
    }
}

/// On a source whose block markers balance, the built tree's nesting depth
/// is the peak number of concurrently open blocks, its node count is the
/// number of non-blank lines minus the open-block and close-block lines
/// plus the number of block nodes, and there is one block node per
/// close-block line.
pub proof fn lemma_tree_shape(src: Seq<char>, cfg: ConfigV)
    requires
        parse_final(src, cfg).stack.len() == 0,
    ensures
        ({
            let lines = source_lines(src);
            let top = parse_final(src, cfg).top;
            &&& forest_depth(top) == peak_open(lines, cfg, initial_state(), 1)
            &&& forest_count(top) + count_opens(lines, cfg, initial_state(), 1) + count_closes(
                lines,
                cfg,
                initial_state(),
                1,
            ) == count_nonblank(lines) + forest_blocks(top)
            &&& forest_blocks(top) == count_closes(lines, cfg, initial_state(), 1)
        }),
{
    let lines = source_lines(src);
    lemma_run(lines, cfg, initial_state(), 1);
    let fin = parse_final(src, cfg);
    assert(frames_nodes(fin.stack) == 0);
    assert(frames_blocks(fin.stack) == 0);
    assert(frames_depth(fin.stack, 0) == 0);
    assert(forest_count(initial_state().top) == 0);
    assert(forest_blocks(initial_state().top) == 0);
    assert(forest_depth(initial_state().top) == 0);
    assert(frames_nodes(initial_state().stack) == 0);
    assert(frames_blocks(initial_state().stack) == 0);
    assert(frames_depth(initial_state().stack, 0) == 0);
}

/// Rendering for the Python-like target is a function of the tree, the
/// definition, and the depth alone: two renderings of the same tree with
/// the same definition are byte-identical.
pub proof fn lemma_render_py_deterministic(
    nodes: Seq<Node>,
    cfg: ConfigV,
    depth: nat,
    r1: Result<Seq<char>, Seq<char>>,
    r2: Result<Seq<char>, Seq<char>>,
)
    requires
        r1 == render_nodes_py(nodes, cfg, depth),
        r2 == render_nodes_py(nodes, cfg, depth),
    ensures
        r1 == r2,
{
}

/// Rendering for the C-like target is a function of the tree, the
/// definition, the declared names, and the depth alone: two renderings from
/// the same inputs are byte-identical and declare the same names.
pub proof fn lemma_render_c_deterministic(
    nodes: Seq<Node>,
    cfg: ConfigV,
    declared: Seq<Seq<char>>,
    depth: nat,
    o1: COut,
    o2: COut,
)
    requires
        o1 == render_nodes_c(nodes, cfg, declared, depth),
        o2 == render_nodes_c(nodes, cfg, declared, depth),
    ensures
        o1 == o2,
{
}

} // verus!
