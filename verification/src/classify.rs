//! The line classifier: given one trimmed, non-empty line, decide whether it
//! opens a block, closes the innermost open block, matches a statement rule,
//! or falls through to the default rule.
//!
//! Outcomes are decided in that order of precedence. Within one mapping the
//! first rule of the sequence whose pattern is a prefix of the line wins;
//! this fixed first-match order makes classification a deterministic
//! function of the line, the definition, and whether a block is open.
//! A line that starts with any block rule's `end` pattern closes the
//! innermost open block, whatever rule opened it.

use vstd::prelude::*;
use crate::config::BlockDefV;
use crate::config::ConfigV;
use crate::config::LanguageConfig;
use crate::config::StatementDefV;
use crate::text::is_prefix;
use crate::text::split_whitespace_str;
use crate::text::split_ws;
use crate::text::starts_with;

verus! {

/// The classifier's decision for one line.
#[derive(Debug, PartialEq)]
pub enum MatchOutcome {
    /// The line opens a block; the name of the block rule.
    OpenBlock(String),
    /// The line closes the innermost open block.
    CloseBlock,
    /// The line matches a statement rule; the rule's name and the
    /// whitespace-separated argument tokens of the rest of the line.
    Stmt(String, Vec<String>),
    /// The line matches nothing and falls through to the default rule.
    Default,
}

/// The mathematical view of a `MatchOutcome`.
pub enum OutcomeV {
    OpenBlock(Seq<char>),
    CloseBlock,
    Stmt(Seq<char>, Seq<Seq<char>>),
    Default,
}

impl View for MatchOutcome {
    type V = OutcomeV;

    open spec fn view(&self) -> OutcomeV {
        match self {
            MatchOutcome::OpenBlock(name) => OutcomeV::OpenBlock(name@),
            MatchOutcome::CloseBlock => OutcomeV::CloseBlock,
            MatchOutcome::Stmt(name, args) => OutcomeV::Stmt(name@, args.deep_view()),
            MatchOutcome::Default => OutcomeV::Default,
        }
    }
}

/// The position, from `j` on, of the first block rule whose `start` pattern
/// is a prefix of `line`.
pub open spec fn first_start_from(blocks: Seq<BlockDefV>, line: Seq<char>, j: int) -> Option<int>
    decreases blocks.len() - j,
{
    if j < 0 || j >= blocks.len() {
        None
    } else if is_prefix(blocks[j].start, line) {
        Some(j)
    } else {
        first_start_from(blocks, line, j + 1)
    }
}

/// The position of the first block rule whose `end` pattern is a prefix of
/// `line`, from `j` on.
pub open spec fn first_end_from(blocks: Seq<BlockDefV>, line: Seq<char>, j: int) -> Option<int>
    decreases blocks.len() - j,
{
    if j < 0 || j >= blocks.len() {
        None
    } else if is_prefix(blocks[j].end, line) {
        Some(j)
    } else {
        first_end_from(blocks, line, j + 1)
    }
}

/// The position of the first statement rule whose `syntax` pattern is a
/// prefix of `line`, from `j` on.
pub open spec fn first_stmt_from(
    stmts: Seq<StatementDefV>,
    line: Seq<char>,
    j: int,
) -> Option<int>
    decreases stmts.len() - j,
{
    if j < 0 || j >= stmts.len() {
        None
    } else if is_prefix(stmts[j].syntax, line) {
        Some(j)
    } else {
        first_stmt_from(stmts, line, j + 1)
    }
}

/// The classifier's decision for one trimmed, non-empty `line`, given the
/// definition and whether a block is currently open. Precedence: open-block,
/// then close-block (only while a block is open), then statement, then the
/// default rule. A statement outcome carries the whitespace-separated tokens
/// of the line after its matched prefix.
pub open spec fn classify_spec(line: Seq<char>, cfg: ConfigV, block_open: bool) -> OutcomeV {
    if first_start_from(cfg.blocks, line, 0) is Some {
        OutcomeV::OpenBlock(cfg.blocks[first_start_from(cfg.blocks, line, 0)->Some_0].name)
    } else if block_open && first_end_from(cfg.blocks, line, 0) is Some {
        OutcomeV::CloseBlock
    } else if first_stmt_from(cfg.statements, line, 0) is Some {
        let def = cfg.statements[first_stmt_from(cfg.statements, line, 0)->Some_0];
        OutcomeV::Stmt(def.name, split_ws(line.skip(def.syntax.len() as int)))
    } else {
        OutcomeV::Default
    }
}

/// Classify one trimmed, non-empty line against the definition.
pub fn classify_line(line: &str, config: &LanguageConfig, block_open: bool) -> (m: MatchOutcome)
    ensures
        m@ == classify_spec(line@, config@, block_open),
{
    let ghost bv = config@.blocks;
    let ghost sv = config@.statements;
    let nb = config.blocks.len();
    let mut k: usize = 0;
    while k < nb
        invariant
            nb == config.blocks.len(),
            bv == config@.blocks,
            k <= nb,
            first_start_from(bv, line@, 0) == first_start_from(bv, line@, k as int),
        decreases nb - k,
    {
        if starts_with(line, config.blocks[k].start.as_str()) {
            proof {
                assert(first_start_from(bv, line@, k as int) == Some(k as int));
            }
            return MatchOutcome::OpenBlock(config.blocks[k].name.clone());
        }
        k = k + 1;
    }
    if block_open {
        let mut k: usize = 0;
        while k < nb
            invariant
                block_open,
                nb == config.blocks.len(),
                bv == config@.blocks,
                k <= nb,
                first_start_from(bv, line@, 0) is None,
                first_end_from(bv, line@, 0) == first_end_from(bv, line@, k as int),
            decreases nb - k,
        {
            if starts_with(line, config.blocks[k].end.as_str()) {
                proof {
                    assert(first_end_from(bv, line@, k as int) == Some(k as int));
                }
                return MatchOutcome::CloseBlock;
            }
            k = k + 1;
        }
    }
    let ns = config.statements.len();
    let mut k: usize = 0;
    while k < ns
        invariant
            ns == config.statements.len(),
            sv == config@.statements,
            bv == config@.blocks,
            k <= ns,
            first_start_from(bv, line@, 0) is None,
            !(block_open && first_end_from(bv, line@, 0) is Some),
            first_stmt_from(sv, line@, 0) == first_stmt_from(sv, line@, k as int),
        decreases ns - k,
    {
        if starts_with(line, config.statements[k].syntax.as_str()) {
            proof {
                assert(first_stmt_from(sv, line@, k as int) == Some(k as int));
            }
            let plen = config.statements[k].syntax.unicode_len();
            let rest = line.substring_char(plen, line.unicode_len());
            proof {
                assert(rest@ =~= line@.skip(sv[k as int].syntax.len() as int));
            }
            let args = split_whitespace_str(rest);
            proof {
                assert(first_stmt_from(sv, line@, 0) == Some(k as int));
                assert(classify_spec(line@, config@, block_open) == OutcomeV::Stmt(
                    sv[k as int].name,
                    split_ws(line@.skip(sv[k as int].syntax.len() as int)),
                ));
            }
            return MatchOutcome::Stmt(config.statements[k].name.clone(), args);
        }
        k = k + 1;
    }
    MatchOutcome::Default
}

} // verus!
