//! The language definition: named statement rules, named block rules, and
//! named operator rules, each carrying a matching pattern and a render
//! template.
//!
//! Each mapping is an ordered sequence of named rules, and every place that
//! matches a line against rules takes the first rule of the sequence that
//! matches. The order of the sequence is therefore part of the definition;
//! a caller that builds a definition from unordered data must fix an order
//! first. A well-formed definition names each rule at most once within its
//! own mapping (names may repeat across mappings), and `LanguageConfig::new`
//! rejects anything else.

use vstd::prelude::*;
use crate::error::TranspileError;
use crate::text::str_eq;

verus! {

/// A statement rule: a line that starts with `syntax` matches, and renders
/// through `template` by positional-placeholder substitution.
#[derive(Debug, Clone, PartialEq)]
pub struct StatementDef {
    pub name: String,
    pub syntax: String,
    pub template: String,
}

/// A block rule: a line that starts with `start` opens a block, a line that
/// starts with `end` closes the innermost open block, and the block renders
/// through `template`, whose `{body}` placeholder receives the rendered
/// children.
#[derive(Debug, Clone, PartialEq)]
pub struct BlockDef {
    pub name: String,
    pub start: String,
    pub end: String,
    pub template: String,
}

/// An operator rule: part of the configuration schema, reserved for
/// expression-level substitution; rendering does not consume it today.
#[derive(Debug, Clone, PartialEq)]
pub struct OperatorDef {
    pub name: String,
    pub symbol: String,
    pub template: String,
}

/// The mathematical view of a `StatementDef`.
pub struct StatementDefV {
    pub name: Seq<char>,
    pub syntax: Seq<char>,
    pub template: Seq<char>,
}

/// The mathematical view of a `BlockDef`.
pub struct BlockDefV {
    pub name: Seq<char>,
    pub start: Seq<char>,
    pub end: Seq<char>,
    pub template: Seq<char>,
}

/// The mathematical view of an `OperatorDef`.
pub struct OperatorDefV {
    pub name: Seq<char>,
    pub symbol: Seq<char>,
    pub template: Seq<char>,
}

impl View for StatementDef {
    type V = StatementDefV;

    open spec fn view(&self) -> StatementDefV {
        StatementDefV { name: self.name@, syntax: self.syntax@, template: self.template@ }
    }
}

impl DeepView for StatementDef {
    type V = StatementDefV;

    open spec fn deep_view(&self) -> StatementDefV {
        self.view()
    }
}

impl View for BlockDef {
    type V = BlockDefV;

    open spec fn view(&self) -> BlockDefV {
        BlockDefV {
            name: self.name@,
            start: self.start@,
            end: self.end@,
            template: self.template@,
        }
    }
}

impl DeepView for BlockDef {
    type V = BlockDefV;

    open spec fn deep_view(&self) -> BlockDefV {
        self.view()
    }
}

impl View for OperatorDef {
    type V = OperatorDefV;

    open spec fn view(&self) -> OperatorDefV {
        OperatorDefV { name: self.name@, symbol: self.symbol@, template: self.template@ }
    }
}

impl DeepView for OperatorDef {
    type V = OperatorDefV;

    open spec fn deep_view(&self) -> OperatorDefV {
        self.view()
    }
}

/// A language definition: the three rule mappings, immutable once built.
#[derive(Debug, Clone, PartialEq)]
pub struct LanguageConfig {
    pub statements: Vec<StatementDef>,
    pub blocks: Vec<BlockDef>,
    pub operators: Vec<OperatorDef>,
}

/// The mathematical view of a `LanguageConfig`.
pub struct ConfigV {
    pub statements: Seq<StatementDefV>,
    pub blocks: Seq<BlockDefV>,
    pub operators: Seq<OperatorDefV>,
}

impl View for LanguageConfig {
    type V = ConfigV;

    open spec fn view(&self) -> ConfigV {
        ConfigV {
            statements: self.statements.deep_view(),
            blocks: self.blocks.deep_view(),
            operators: self.operators.deep_view(),
        }
    }
}

/// The names of a sequence of statement rules, in order.
pub open spec fn statement_names(s: Seq<StatementDefV>) -> Seq<Seq<char>> {
    s.map_values(|d: StatementDefV| d.name)
}

/// The names of a sequence of block rules, in order.
pub open spec fn block_names(s: Seq<BlockDefV>) -> Seq<Seq<char>> {
    s.map_values(|d: BlockDefV| d.name)
}

/// The names of a sequence of operator rules, in order.
pub open spec fn operator_names(s: Seq<OperatorDefV>) -> Seq<Seq<char>> {
    s.map_values(|d: OperatorDefV| d.name)
}

/// The first name in `names` that repeats an earlier one, checking each
/// position against all the positions before it, from `j` on.
pub open spec fn first_dup_from(names: Seq<Seq<char>>, j: int) -> Option<Seq<char>>
    decreases names.len() - j,
{
    if j < 0 || j >= names.len() {
        None
    } else if names.take(j).contains(names[j]) {
        Some(names[j])
    } else {
        first_dup_from(names, j + 1)
    }
}

/// The first name in `names` that repeats an earlier one.
pub open spec fn first_dup(names: Seq<Seq<char>>) -> Option<Seq<char>> {
    first_dup_from(names, 0)
}

impl ConfigV {
    /// Each mapping names every rule at most once.
    pub open spec fn wf(self) -> bool {
        first_dup(statement_names(self.statements)) is None
            && first_dup(block_names(self.blocks)) is None
            && first_dup(operator_names(self.operators)) is None
    }

    /// The first duplicated rule name, checking the statement mapping, then
    /// the block mapping, then the operator mapping.
    pub open spec fn first_dup_name(self) -> Option<Seq<char>> {
        if first_dup(statement_names(self.statements)) is Some {
            first_dup(statement_names(self.statements))
        } else if first_dup(block_names(self.blocks)) is Some {
            first_dup(block_names(self.blocks))
        } else {
            first_dup(operator_names(self.operators))
        }
    }
}

/// Find the first statement-rule name that repeats an earlier one, scanning
/// positions in order and comparing each against all the names before it.
fn find_dup_stmt(defs: &Vec<StatementDef>) -> (r: Option<String>)
    ensures
        match r {
            Some(n) => first_dup(statement_names(defs.deep_view())) == Some(n@),
            None => first_dup(statement_names(defs.deep_view())) is None,
        },
{
    let ghost nv = statement_names(defs.deep_view());
    proof {
        assert(forall|k: int| 0 <= k < nv.len() ==> nv[k] == defs.deep_view()[k].name);
    }
    let n = defs.len();
    let mut j: usize = 0;
    while j < n
        invariant
            n == defs.len(),
            nv == statement_names(defs.deep_view()),
            nv.len() == n,
            forall|k: int| 0 <= k < nv.len() ==> nv[k] == defs.deep_view()[k].name,
            j <= n,
            first_dup_from(nv, 0) == first_dup_from(nv, j as int),
        decreases n - j,
    {
        let mut i: usize = 0;
        while i < j
            invariant
                n == defs.len(),
                nv == statement_names(defs.deep_view()),
                nv.len() == n,
                forall|k: int| 0 <= k < nv.len() ==> nv[k] == defs.deep_view()[k].name,
                i <= j < n,
                first_dup_from(nv, 0) == first_dup_from(nv, j as int),
                forall|k: int| 0 <= k < i ==> nv[k] != nv[j as int],
            decreases j - i,
        {
            if str_eq(defs[i].name.as_str(), defs[j].name.as_str()) {
                proof {
                    assert(nv.take(j as int)[i as int] == nv[i as int]);
                    assert(nv.take(j as int).contains(nv[j as int]));
                    assert(first_dup_from(nv, j as int) == Some(nv[j as int]));
                }
                return Some(defs[j].name.clone());
            }
            i = i + 1;
        }
        proof {
            assert forall|l: int| 0 <= l < j implies nv.take(j as int)[l] != nv[j as int] by {
                assert(nv.take(j as int)[l] == nv[l]);
            }
            assert(!nv.take(j as int).contains(nv[j as int]));
            assert(first_dup_from(nv, j as int) == first_dup_from(nv, j + 1));
        }
        j = j + 1;
    }
    None
}

/// Find the first block-rule name that repeats an earlier one.
fn find_dup_block(defs: &Vec<BlockDef>) -> (r: Option<String>)
    ensures
        match r {
            Some(n) => first_dup(block_names(defs.deep_view())) == Some(n@),
            None => first_dup(block_names(defs.deep_view())) is None,
        },
{
    let ghost nv = block_names(defs.deep_view());
    proof {
        assert(forall|k: int| 0 <= k < nv.len() ==> nv[k] == defs.deep_view()[k].name);
    }
    let n = defs.len();
    let mut j: usize = 0;
    while j < n
        invariant
            n == defs.len(),
            nv == block_names(defs.deep_view()),
            nv.len() == n,
            forall|k: int| 0 <= k < nv.len() ==> nv[k] == defs.deep_view()[k].name,
            j <= n,
            first_dup_from(nv, 0) == first_dup_from(nv, j as int),
        decreases n - j,
    {
        let mut i: usize = 0;
        while i < j
            invariant
                n == defs.len(),
                nv == block_names(defs.deep_view()),
                nv.len() == n,
                forall|k: int| 0 <= k < nv.len() ==> nv[k] == defs.deep_view()[k].name,
                i <= j < n,
                first_dup_from(nv, 0) == first_dup_from(nv, j as int),
                forall|k: int| 0 <= k < i ==> nv[k] != nv[j as int],
            decreases j - i,
        {
            if str_eq(defs[i].name.as_str(), defs[j].name.as_str()) {
                proof {
                    assert(nv.take(j as int)[i as int] == nv[i as int]);
                    assert(nv.take(j as int).contains(nv[j as int]));
                    assert(first_dup_from(nv, j as int) == Some(nv[j as int]));
                }
                return Some(defs[j].name.clone());
            }
            i = i + 1;
        }
        proof {
            assert forall|l: int| 0 <= l < j implies nv.take(j as int)[l] != nv[j as int] by {
                assert(nv.take(j as int)[l] == nv[l]);
            }
            assert(!nv.take(j as int).contains(nv[j as int]));
            assert(first_dup_from(nv, j as int) == first_dup_from(nv, j + 1));
        }
        j = j + 1;
    }
    None
}

/// Find the first operator-rule name that repeats an earlier one.
fn find_dup_op(defs: &Vec<OperatorDef>) -> (r: Option<String>)
    ensures
        match r {
            Some(n) => first_dup(operator_names(defs.deep_view())) == Some(n@),
            None => first_dup(operator_names(defs.deep_view())) is None,
        },
{
    let ghost nv = operator_names(defs.deep_view());
    proof {
        assert(forall|k: int| 0 <= k < nv.len() ==> nv[k] == defs.deep_view()[k].name);
    }
    let n = defs.len();
    let mut j: usize = 0;
    while j < n
        invariant
            n == defs.len(),
            nv == operator_names(defs.deep_view()),
            nv.len() == n,
            forall|k: int| 0 <= k < nv.len() ==> nv[k] == defs.deep_view()[k].name,
            j <= n,
            first_dup_from(nv, 0) == first_dup_from(nv, j as int),
        decreases n - j,
    {
        let mut i: usize = 0;
        while i < j
            invariant
                n == defs.len(),
                nv == operator_names(defs.deep_view()),
                nv.len() == n,
                forall|k: int| 0 <= k < nv.len() ==> nv[k] == defs.deep_view()[k].name,
                i <= j < n,
                first_dup_from(nv, 0) == first_dup_from(nv, j as int),
                forall|k: int| 0 <= k < i ==> nv[k] != nv[j as int],
            decreases j - i,
        {
            if str_eq(defs[i].name.as_str(), defs[j].name.as_str()) {
                proof {
                    assert(nv.take(j as int)[i as int] == nv[i as int]);
                    assert(nv.take(j as int).contains(nv[j as int]));
                    assert(first_dup_from(nv, j as int) == Some(nv[j as int]));
                }
                return Some(defs[j].name.clone());
            }
            i = i + 1;
        }
        proof {
            assert forall|l: int| 0 <= l < j implies nv.take(j as int)[l] != nv[j as int] by {
                assert(nv.take(j as int)[l] == nv[l]);
            }
            assert(!nv.take(j as int).contains(nv[j as int]));
            assert(first_dup_from(nv, j as int) == first_dup_from(nv, j + 1));
        }
        j = j + 1;
    }
    None
}

impl LanguageConfig {
    /// Build and validate a language definition from its three rule
    /// sequences: the result holds exactly the given rules, in the given
    /// order, and is returned only if each mapping names every rule at most
    /// once; otherwise the first duplicated name is reported.
    pub fn new(
        statements: Vec<StatementDef>,
        blocks: Vec<BlockDef>,
        operators: Vec<OperatorDef>,
    ) -> (r: Result<LanguageConfig, TranspileError>)
        ensures
            ({
                let cv = ConfigV {
                    statements: statements.deep_view(),
                    blocks: blocks.deep_view(),
                    operators: operators.deep_view(),
                };
                match r {
                    Ok(c) => c@ == cv && cv.wf(),
                    Err(e) => {
                        &&& e matches TranspileError::DuplicateRule(n) && cv.first_dup_name()
                            == Some(n@)
                        &&& !cv.wf()
                    },
                }
            }),
    {
        if let Some(n) = find_dup_stmt(&statements) {
            return Err(TranspileError::DuplicateRule(n));
        }
        if let Some(n) = find_dup_block(&blocks) {
            return Err(TranspileError::DuplicateRule(n));
        }
        if let Some(n) = find_dup_op(&operators) {
            return Err(TranspileError::DuplicateRule(n));
        }
        Ok(LanguageConfig { statements, blocks, operators })
    }
}

} // verus!
