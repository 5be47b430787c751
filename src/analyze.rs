//! The analysis of one function: its unsafe spans, then the basic blocks
//! that come from them.
use vstd::prelude::*;
use crate::span::Span;
use crate::hir::{Body, NodeId, WalkError};
use crate::extract::{unsafe_spans_result, list_unsafe_blocks_in_fn};
use crate::correlate::{ControlFlowGraph, flagged_of, list_unsafe_blocks_in};

verus! {

/// What the analysis finds in one function.
#[derive(Clone, Debug, PartialEq, Eq)]
pub struct FunctionReport {
    pub unsafe_spans: Vec<Span>,
    pub flagged_blocks: Vec<usize>,
}

/// Extracts the unsafe spans of the body rooted at `root` and flags the
/// blocks of `graph` that hold an instruction from one of them. A failure of
/// the walk is the failure of this function alone.
pub fn analyze_function(body: &Body, root: NodeId, graph: &Option<ControlFlowGraph>) -> (r: Result<
    FunctionReport,
    WalkError,
>)
    ensures
        match r {
            Ok(rep) => {
                &&& unsafe_spans_result(body@, root) == Ok::<Seq<Span>, WalkError>(
                    rep.unsafe_spans@,
                )
                &&& rep.flagged_blocks@ == flagged_of(*graph, rep.unsafe_spans@)
            },
            Err(e) => unsafe_spans_result(body@, root) == Err::<Seq<Span>, WalkError>(e),
        },
{
    match list_unsafe_blocks_in_fn(body, root) {
        Ok(spans) => {
            let blocks = list_unsafe_blocks_in(graph, &spans);
            Ok(FunctionReport { unsafe_spans: spans, flagged_blocks: blocks })
        },
        Err(e) => Err(e),
    }
}

} // verus!
