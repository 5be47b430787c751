//! The basic blocks of a control-flow graph that hold an instruction from
//! inside an unsafe span.
use vstd::prelude::*;
use crate::span::{Span, span_within};

verus! {

/// A basic block: the source spans of its instructions, in order.
#[derive(Clone, Debug, PartialEq, Eq)]
pub struct BasicBlockData {
    pub statements: Vec<Span>,
}

/// The basic blocks of one function; a block's index is its identity.
#[derive(Clone, Debug, PartialEq, Eq)]
pub struct ControlFlowGraph {
    pub basic_blocks: Vec<BasicBlockData>,
}

/// Some instruction span lies within some unsafe span.
pub open spec fn block_flagged(stmts: Seq<Span>, spans: Seq<Span>) -> bool {
    exists|i: int, j: int|
        0 <= i < stmts.len() && 0 <= j < spans.len() && span_within(
            #[trigger] stmts[i],
            #[trigger] spans[j],
        )
}

/// The indices below `n` of the flagged blocks, in increasing order.
pub open spec fn flagged_upto(blocks: Seq<BasicBlockData>, spans: Seq<Span>, n: int) -> Seq<usize>
    decreases n,
{
    if n <= 0 {
        seq![]
    } else {
        let prev = flagged_upto(blocks, spans, n - 1);
        if block_flagged(blocks[n - 1].statements@, spans) {
            prev.push((n - 1) as usize)
        } else {
            prev
        }
    }
}

/// The flagged blocks of a graph; no graph means no blocks.
pub open spec fn flagged_of(graph: Option<ControlFlowGraph>, spans: Seq<Span>) -> Seq<usize> {
    match graph {
        Some(g) => flagged_upto(g.basic_blocks@, spans, g.basic_blocks@.len() as int),
        None => seq![],
    }
}

/// Whether some instruction of `stmts` lies within some span of `spans`.
fn block_touches(stmts: &Vec<Span>, spans: &Vec<Span>) -> (r: bool)
    ensures
        r == block_flagged(stmts@, spans@),
{
    let mut i: usize = 0;
    while i < stmts.len()
        invariant
            0 <= i <= stmts@.len(),
            forall|a: int, b: int|
                0 <= a < i && 0 <= b < spans@.len() ==> !span_within(
                    #[trigger] stmts@[a],
                    #[trigger] spans@[b],
                ),
        decreases stmts@.len() - i,
    {
        let mut j: usize = 0;
        while j < spans.len()
            invariant
                0 <= i < stmts@.len(),
                0 <= j <= spans@.len(),
                forall|b: int| 0 <= b < j ==> !span_within(stmts@[i as int], #[trigger] spans@[b]),
            decreases spans@.len() - j,
        {
            if stmts[i].is_within(&spans[j]) {
                return true;
            }
            j += 1;
        }
        i += 1;
    }
    false
}

/// The indices, in increasing order, of the basic blocks with at least one
/// instruction whose span lies within one of `unsafe_spans`. A definition
/// without a graph yields no blocks.
pub fn list_unsafe_blocks_in(graph: &Option<ControlFlowGraph>, unsafe_spans: &Vec<Span>) -> (r:
    Vec<usize>)
    ensures
        r@ == flagged_of(*graph, unsafe_spans@),
{
    let mut rst: Vec<usize> = Vec::new();
    match graph {
        Some(g) => {
            let mut k: usize = 0;
            while k < g.basic_blocks.len()
                invariant
                    0 <= k <= g.basic_blocks@.len(),
                    rst@ == flagged_upto(g.basic_blocks@, unsafe_spans@, k as int),
                decreases g.basic_blocks@.len() - k,
            {
                if block_touches(&g.basic_blocks[k].statements, unsafe_spans) {
                    rst.push(k);
                }
                k += 1;
            }
        },
        None => {},
    }
    rst
}

} // verus!
