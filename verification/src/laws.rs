//! What holds of the value model, the scope chain and the renderer for
//! all inputs.

use crate::abc::{IIterable, VIterator};
use crate::container::{
    filter_result, find_block, FilterEntry, FilterItem, IfStatement, Node, Template,
};
use crate::context::{stack_block, GlobalContext};
use crate::evaluator::eval_result;
use crate::renderer::{apply_filters, branches_from, done, node_out, nodes_from, nodes_out, wrote};
use crate::types::{items_of, truth, BType, Val};
use vstd::prelude::*;

verus! {

/// Iteration is repeatable: two passes started on the same list have the
/// same elements to hand out, in the same order.
pub proof fn lemma_iteration_repeatable(source: Vec<BType>, a: VIterator, b: VIterator)
    requires
        a.remaining() == source.values(),
        b.remaining() == source.values(),
    ensures
        a.remaining() == b.remaining(),
        a.remaining().len() == source@.len(),
        forall|i: int| 0 <= i < source@.len() ==> a.remaining()[i] == (#[trigger] source@[i])@,
{
}

/// Filters apply from left to right: two filters give what the second
/// makes of what the first made of the value, and the first error stops
/// the chain.
pub proof fn lemma_filter_order(
    entries: Seq<FilterEntry>,
    f: FilterItem,
    g: FilterItem,
    v: Option<Val>,
)
    ensures
        apply_filters(entries, seq![f, g], v) == match filter_result(entries, f.name(), v) {
            Err(e) => Err(e),
            Ok(w) => filter_result(entries, g.name(), w),
        },
{
    let both = seq![f, g];
    assert(both.skip(1) =~= seq![g]);
    assert(seq![g].skip(1) =~= Seq::<FilterItem>::empty());
    assert(both[0] == f);
    assert(seq![g][0] == g);
    match filter_result(entries, f.name(), v) {
        Err(e) => {},
        Ok(w) => {
            assert(apply_filters(entries, seq![g], w) == match filter_result(entries, g.name(), w) {
                Err(e) => Err(e),
                Ok(x) => apply_filters(entries, Seq::<FilterItem>::empty(), x),
            });
        },
    }
}

/// Whether the condition of branch `j` evaluates without error to
/// something absent or false.
pub open spec fn branch_declines(
    frames: Seq<Seq<(Seq<char>, Val)>>,
    stmt: IfStatement,
    j: int,
) -> bool {
    match eval_result(frames, stmt.if_branches@[j].expr.expr) {
        Ok(Some(v)) => !truth(v),
        Ok(None) => true,
        Err(_) => false,
    }
}

/// Whether the condition of branch `j` evaluates to something true.
pub open spec fn branch_accepts(
    frames: Seq<Seq<(Seq<char>, Val)>>,
    stmt: IfStatement,
    j: int,
) -> bool {
    match eval_result(frames, stmt.if_branches@[j].expr.expr) {
        Ok(Some(v)) => truth(v),
        _ => false,
    }
}

/// A conditional renders the body of its first true branch and nothing
/// else: what the later branches and the else body hold, and whether
/// their conditions could be evaluated at all, does not matter.
pub proof fn lemma_first_true_branch(
    g: GlobalContext,
    frames: Seq<Seq<(Seq<char>, Val)>>,
    stmt: IfStatement,
    i: int,
    k: int,
    depth: nat,
)
    requires
        0 <= i <= k < stmt.if_branches@.len(),
        forall|j: int| i <= j < k ==> branch_declines(frames, stmt, j),
        branch_accepts(frames, stmt, k),
    ensures
        branches_from(g, frames, stmt, i, depth) == nodes_out(
            g,
            frames,
            stmt.if_branches@[k].block@,
            depth,
        ),
    decreases k - i,
{
    if i < k {
        assert(branch_declines(frames, stmt, i));
        lemma_first_true_branch(g, frames, stmt, i + 1, k, depth);
    }
}

/// With a child over its parent, the child's body wins where the child
/// declares the block, and the parent's is used where only the parent
/// does; the two are never combined.
pub proof fn lemma_block_override(child: &Template, parent: &Template, id: Seq<char>)
    ensures
        stack_block(seq![child, parent], id) == match find_block(child.blocks@, id) {
            Some(body) => Some(body),
            None => find_block(parent.blocks@, id),
        },
{
    let stack = seq![child, parent];
    assert(stack.skip(1) =~= seq![parent]);
    assert(seq![parent].skip(1) =~= Seq::<&Template>::empty());
    assert(stack_block(seq![parent], id) == match find_block(parent.blocks@, id) {
        Some(body) => Some(body),
        None => stack_block(Seq::<&Template>::empty(), id),
    });
}

/// A loop over something absent, or over a value that cannot be iterated,
/// writes nothing and is no error.
pub proof fn lemma_for_over_nothing(
    g: GlobalContext,
    frames: Seq<Seq<(Seq<char>, Val)>>,
    node: Node,
    depth: nat,
)
    requires
        node is For,
        match eval_result(frames, node->For_0.expression.expr) {
            Ok(None) => true,
            Ok(Some(v)) => items_of(v) is None,
            Err(_) => false,
        },
    ensures
        node_out(g, frames, node, depth) == done(),
{
}

/// The contents of the text nodes from position `i` on, one after another.
pub open spec fn texts_from(nodes: Seq<Node>, i: int) -> Seq<char>
    decreases nodes.len() - i,
{
    if 0 <= i < nodes.len() {
        (match nodes[i] {
            Node::Text(t) => t@,
            _ => Seq::empty(),
        }) + texts_from(nodes, i + 1)
    } else {
        Seq::empty()
    }
}

/// Literal text comes out as it went in: a sequence of text nodes renders
/// to their contents, one after another, without error, in any scope and
/// at any depth.
pub proof fn lemma_text_round_trip(
    g: GlobalContext,
    frames: Seq<Seq<(Seq<char>, Val)>>,
    nodes: Seq<Node>,
    i: int,
    depth: nat,
)
    requires
        0 <= i,
        forall|j: int| i <= j < nodes.len() ==> nodes[j] is Text,
    ensures
        nodes_from(g, frames, nodes, i, depth) == wrote(texts_from(nodes, i)),
    decreases nodes.len() - i,
{
    if i < nodes.len() {
        lemma_text_round_trip(g, frames, nodes, i + 1, depth);
        assert(nodes[i] is Text);
        assert(node_out(g, frames, nodes[i], depth) == wrote(nodes[i]->Text_0@));
        assert(nodes_from(g, frames, nodes, i, depth).text =~= texts_from(nodes, i));
    }
}

} // verus!
