//! The statement tree: leaves for single-line statements, interior nodes for
//! block constructs, together with its mathematical view and size measures.

use vstd::prelude::*;

verus! {

/// One node of the statement tree built from the source text.
#[derive(Debug, PartialEq)]
pub enum Statement {
    /// A single-line statement: the name of the rule that matched, and the
    /// argument tokens taken from the rest of the line.
    Simple(String, Vec<String>),
    /// A block construct: the name of the block rule that opened it, and the
    /// statements between its start line and its end line.
    Block(String, Vec<Statement>),
}

/// The mathematical view of a `Statement`.
pub enum Node {
    Stmt(Seq<char>, Seq<Seq<char>>),
    Block(Seq<char>, Seq<Node>),
}

/// The view of one statement.
pub open spec fn stmt_view(s: Statement) -> Node
    decreases s,
{
    match s {
        Statement::Simple(name, args) => Node::Stmt(name@, args.deep_view()),
        Statement::Block(name, children) => Node::Block(name@, stmts_view(children@)),
    }
}

/// The view of a sequence of statements.
pub open spec fn stmts_view(s: Seq<Statement>) -> Seq<Node>
    decreases s,
{
    if s.len() == 0 {
        Seq::empty()
    } else {
        seq![stmt_view(s[0])] + stmts_view(s.skip(1))
    }
}

/// The number of nodes in a tree, the node itself included.
pub open spec fn node_count(n: Node) -> nat
    decreases n,
{
    match n {
        Node::Stmt(_, _) => 1,
        Node::Block(_, children) => 1 + forest_count(children),
    }
}

/// The number of nodes in a forest, nested nodes included.
pub open spec fn forest_count(s: Seq<Node>) -> nat
    decreases s,
{
    if s.len() == 0 {
        0
    } else {
        node_count(s[0]) + forest_count(s.skip(1))
    }
}

/// The number of block nodes in a tree, the node itself included.
pub open spec fn node_blocks(n: Node) -> nat
    decreases n,
{
    match n {
        Node::Stmt(_, _) => 0,
        Node::Block(_, children) => 1 + forest_blocks(children),
    }
}

/// The number of block nodes in a forest, nested nodes included.
pub open spec fn forest_blocks(s: Seq<Node>) -> nat
    decreases s,
{
    if s.len() == 0 {
        0
    } else {
        node_blocks(s[0]) + forest_blocks(s.skip(1))
    }
}

/// Appending a statement to a sequence appends its view to the sequence's
/// view.
pub proof fn lemma_stmts_view_push(s: Seq<Statement>, x: Statement)
    ensures
        stmts_view(s.push(x)) == stmts_view(s).push(stmt_view(x)),
    decreases s.len(),
{
    if s.len() == 0 {
        assert(s.push(x)[0] == x);
        assert(s.push(x).skip(1) =~= Seq::<Statement>::empty());
        assert(stmts_view(Seq::<Statement>::empty()) =~= Seq::<Node>::empty());
        assert(seq![stmt_view(x)] + Seq::<Node>::empty() =~= seq![stmt_view(x)]);
        assert(stmts_view(s.push(x)) =~= seq![stmt_view(x)]);
        assert(stmts_view(s).push(stmt_view(x)) =~= seq![stmt_view(x)]);
    } else {
        assert(s.push(x)[0] == s[0]);
        assert(s.push(x).skip(1) =~= s.skip(1).push(x));
        lemma_stmts_view_push(s.skip(1), x);
        assert(stmts_view(s.push(x)) =~= seq![stmt_view(s[0])] + stmts_view(s.skip(1)).push(
            stmt_view(x),
        ));
        assert(seq![stmt_view(s[0])] + stmts_view(s.skip(1)).push(stmt_view(x)) =~= (seq![
            stmt_view(s[0]),
        ] + stmts_view(s.skip(1))).push(stmt_view(x)));
    }
}

/// A sequence of statements and its view have the same length.
pub proof fn lemma_stmts_view_len(s: Seq<Statement>)
    ensures
        stmts_view(s).len() == s.len(),
    decreases s.len(),
{
    if s.len() > 0 {
        lemma_stmts_view_len(s.skip(1));
    }
}

/// The view of a sequence of statements is element-wise.
pub proof fn lemma_stmts_view_index(s: Seq<Statement>, i: int)
    requires
        0 <= i < s.len(),
    ensures
        stmts_view(s).len() == s.len(),
        stmts_view(s)[i] == stmt_view(s[i]),
    decreases i,
{
    lemma_stmts_view_len(s);
    if i == 0 {
        assert(stmts_view(s)[0] == stmt_view(s[0]));
    } else {
        lemma_stmts_view_index(s.skip(1), i - 1);
        lemma_stmts_view_len(s.skip(1));
        assert(stmts_view(s)[i] == stmts_view(s.skip(1))[i - 1]);
        assert(s.skip(1)[i - 1] == s[i]);
    }
}

/// The larger of two naturals.
pub open spec fn nat_max(a: nat, b: nat) -> nat {
    if a >= b {
        a
    } else {
        b
    }
}

/// The nesting depth of a tree: a statement leaf has depth zero, a block is
/// one deeper than its children.
pub open spec fn node_depth(n: Node) -> nat
    decreases n,
{
    match n {
        Node::Stmt(_, _) => 0,
        Node::Block(_, children) => 1 + forest_depth(children),
    }
}

/// The nesting depth of a forest: the greatest depth of its trees, zero if it
/// is empty.
pub open spec fn forest_depth(s: Seq<Node>) -> nat
    decreases s,
{
    if s.len() == 0 {
        0
    } else {
        nat_max(node_depth(s[0]), forest_depth(s.skip(1)))
    }
}

} // verus!
