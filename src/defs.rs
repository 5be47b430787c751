//! Definitions of a compilation unit and the choice of those that are
//! functions.
use vstd::prelude::*;

verus! {

/// Identity of a definition: the crate it belongs to and its index there.
#[derive(Clone, Copy, Debug, PartialEq, Eq, Hash, Structural)]
pub struct DefId {
    pub krate: u32,
    pub index: u32,
}

#[derive(Clone, Copy, Debug, PartialEq, Eq, Structural)]
pub enum DefKind {
    Fn,
    /// A function of an `impl` or a trait (a method).
    AssocFn,
    Closure,
    Const,
    AssocConst,
    AnonConst,
    Static,
    Other,
}

/// A definition that owns a body, with its kind.
#[derive(Clone, Copy, Debug, PartialEq, Eq, Structural)]
pub struct Definition {
    pub def_id: DefId,
    pub kind: DefKind,
}

pub open spec fn is_function_kind(k: DefKind) -> bool {
    k == DefKind::Fn || k == DefKind::AssocFn
}

/// The identities of the functions and associated functions among `defs`,
/// in their order.
pub open spec fn function_ids(defs: Seq<Definition>) -> Seq<DefId>
    decreases defs.len(),
{
    if defs.len() == 0 {
        seq![]
    } else {
        let prev = function_ids(defs.drop_last());
        if is_function_kind(defs.last().kind) {
            prev.push(defs.last().def_id)
        } else {
            prev
        }
    }
}

/// The functions and methods among `defs`, in declaration order.
pub fn list_functions(defs: &Vec<Definition>) -> (r: Vec<DefId>)
    ensures
        r@ == function_ids(defs@),
{
    let mut res: Vec<DefId> = Vec::new();
    let mut i: usize = 0;
    while i < defs.len()
        invariant
            0 <= i <= defs@.len(),
            res@ == function_ids(defs@.take(i as int)),
        decreases defs@.len() - i,
    {
        let d = defs[i];
        if d.kind == DefKind::Fn || d.kind == DefKind::AssocFn {
            res.push(d.def_id);
        }
        assert(defs@.take(i + 1).drop_last() =~= defs@.take(i as int));
        i += 1;
    }
    assert(defs@.take(i as int) =~= defs@);
    res
}

} // verus!
