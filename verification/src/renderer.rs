//! The rendering engine: a depth-first walk over the template tree that
//! writes text to a sink and stops at the first error, leaving what was
//! written before it in place.

use crate::abc::{AsBool, AsIterable, AsString, IIterable, IRender, Writer};
use crate::container::{
    filter_result, find_template, result_view, Fault, FilterEntry, FilterItem, ForStatement,
    FullExpression, IfStatement, Mustache, Node, RenderError, RenderResult,
};
use crate::context::{loop_value, nested, stack_block, Args, GlobalContext, LoopState, VarContext};
use crate::evaluator::{eval_expr, eval_result};
use crate::types::{attr_views, items_of, opt_view, text_of, truth, views, Attr, BType, Val};
use vstd::prelude::*;
use vstd::string::StringExecFns;

verus! {

/// What a render produces: the text written, and the error that stopped
/// it, if one did.
pub struct Outcome {
    pub text: Seq<char>,
    pub error: Option<Fault>,
}

/// Nothing written, no error.
pub open spec fn done() -> Outcome {
    Outcome { text: Seq::empty(), error: None }
}

/// The given text written, no error.
pub open spec fn wrote(text: Seq<char>) -> Outcome {
    Outcome { text, error: None }
}

/// Nothing written, stopped by the error.
pub open spec fn failed(e: Fault) -> Outcome {
    Outcome { text: Seq::empty(), error: Some(e) }
}

/// One step after another: the second runs only if the first did not fail.
pub open spec fn followed(a: Outcome, b: Outcome) -> Outcome {
    if a.error is Some {
        a
    } else {
        Outcome { text: a.text + b.text, error: b.error }
    }
}

/// The frame that a loop body sees: the loop's state under its reserved
/// name, then the loop variable.
pub open spec fn loop_frame(var: Seq<char>, item: Val, first: bool) -> Seq<(Seq<char>, Val)> {
    seq![("loop"@, loop_value(first)), (var, item)]
}

/// The value after the filters have been applied from left to right,
/// or the first error among them.
pub open spec fn apply_filters(
    entries: Seq<FilterEntry>,
    filters: Seq<FilterItem>,
    v: Option<Val>,
) -> Result<Option<Val>, Fault>
    decreases filters.len(),
{
    if filters.len() == 0 {
        Ok(v)
    } else {
        match filter_result(entries, filters[0].name(), v) {
            Err(e) => Err(e),
            Ok(w) => apply_filters(entries, filters.skip(1), w),
        }
    }
}

/// The text of an interpolation: the filtered value's display form, or a
/// fixed marker where there is no value.
pub open spec fn expression_out(
    g: GlobalContext,
    frames: Seq<Seq<(Seq<char>, Val)>>,
    e: FullExpression,
) -> Outcome {
    match eval_result(frames, e.expr) {
        Err(err) => failed(err),
        Ok(v) => match apply_filters(g.env.filters@, e.filters@, v) {
            Err(err) => failed(err),
            Ok(None) => wrote("#None"@),
            Ok(Some(x)) => match text_of(x) {
                Some(t) => wrote(t),
                None => failed(Fault::Format),
            },
        },
    }
}

/// The outcome of rendering the nodes from position `i` on, in order.
pub open spec fn nodes_from(
    g: GlobalContext,
    frames: Seq<Seq<(Seq<char>, Val)>>,
    nodes: Seq<Node>,
    i: int,
    depth: nat,
) -> Outcome
    decreases depth, 0nat, nodes, nodes.len() - i,
{
    if 0 <= i < nodes.len() {
        followed(node_out(g, frames, nodes[i], depth), nodes_from(g, frames, nodes, i + 1, depth))
    } else {
        done()
    }
}

/// The outcome of rendering a node sequence.
pub open spec fn nodes_out(
    g: GlobalContext,
    frames: Seq<Seq<(Seq<char>, Val)>>,
    nodes: Seq<Node>,
    depth: nat,
) -> Outcome {
    nodes_from(g, frames, nodes, 0, depth)
}

/// The outcome of the loop's iterations from position `i` on: each renders
/// the body in a fresh child scope.
pub open spec fn loop_from(
    g: GlobalContext,
    frames: Seq<Seq<(Seq<char>, Val)>>,
    stmt: ForStatement,
    items: Seq<Val>,
    i: int,
    depth: nat,
) -> Outcome
    decreases depth, 0nat, stmt, items.len() - i,
{
    if 0 <= i < items.len() {
        followed(
            nodes_from(
                g,
                nested(frames, loop_frame(stmt.value_var@, items[i], i == 0)),
                stmt.block@,
                0,
                depth,
            ),
            loop_from(g, frames, stmt, items, i + 1, depth),
        )
    } else {
        done()
    }
}

/// The outcome of a conditional from branch `i` on: the body of the first
/// branch whose condition is present and true; later conditions are not
/// evaluated. With no such branch, the else body, if there is one.
pub open spec fn branches_from(
    g: GlobalContext,
    frames: Seq<Seq<(Seq<char>, Val)>>,
    stmt: IfStatement,
    i: int,
    depth: nat,
) -> Outcome
    decreases depth, 0nat, stmt, stmt.if_branches@.len() - i,
{
    if 0 <= i < stmt.if_branches@.len() {
        match eval_result(frames, stmt.if_branches@[i].expr.expr) {
            Err(e) => failed(e),
            Ok(Some(v)) => if truth(v) {
                nodes_from(g, frames, stmt.if_branches@[i].block@, 0, depth)
            } else {
                branches_from(g, frames, stmt, i + 1, depth)
            },
            Ok(None) => branches_from(g, frames, stmt, i + 1, depth),
        }
    } else {
        match stmt.else_branch {
            Some(body) => nodes_from(g, frames, body@, 0, depth),
            None => done(),
        }
    }
}

/// The outcome of rendering one node. A block reference or an include
/// uses up one level of the depth that is left.
pub open spec fn node_out(
    g: GlobalContext,
    frames: Seq<Seq<(Seq<char>, Val)>>,
    node: Node,
    depth: nat,
) -> Outcome
    decreases depth, 0nat, node, 0nat,
{
    match node {
        Node::Text(t) => wrote(t@),
        Node::Mustache(m) => expression_out(g, frames, m.expr),
        Node::For(stmt) => match eval_result(frames, stmt.expression.expr) {
            Err(e) => failed(e),
            Ok(None) => done(),
            Ok(Some(v)) => match items_of(v) {
                None => done(),
                Some(items) => loop_from(g, frames, stmt, items, 0, depth),
            },
        },
        Node::If(stmt) => branches_from(g, frames, stmt, 0, depth),
        Node::Block(name) => if depth == 0 {
            failed(Fault::TooDeep)
        } else {
            block_out(g, frames, name@, (depth - 1) as nat)
        },
        Node::Include(e) => if depth == 0 {
            failed(Fault::TooDeep)
        } else {
            include_out(g, frames, e, (depth - 1) as nat)
        },
    }
}

/// The outcome of a block reference: the body from the most derived
/// template that declares the block, or nothing if none does.
pub open spec fn block_out(
    g: GlobalContext,
    frames: Seq<Seq<(Seq<char>, Val)>>,
    id: Seq<char>,
    depth: nat,
) -> Outcome
    decreases depth, 1nat, frames, 0nat,
{
    match stack_block(g.templates@, id) {
        Some(nodes) => nodes_from(g, frames, nodes, 0, depth),
        None => done(),
    }
}

/// The outcome of an include: the named template's root, rendered in the
/// scope of the include itself.
pub open spec fn include_out(
    g: GlobalContext,
    frames: Seq<Seq<(Seq<char>, Val)>>,
    e: FullExpression,
    depth: nat,
) -> Outcome
    decreases depth, 1nat, frames, 0nat,
{
    match eval_result(frames, e.expr) {
        Err(err) => failed(err),
        Ok(None) => failed(Fault::NameAbsent),
        Ok(Some(v)) => match text_of(v) {
            None => failed(Fault::NameNotString),
            Some(name) => match find_template(g.env.templates@, name) {
                None => failed(Fault::TemplateNotFound(name)),
                Some(t) => nodes_from(g, frames, t.root@, 0, depth),
            },
        },
    }
}

/// A render step did what the outcome says: the text was appended to the
/// sink, and the result carries the error, if any.
pub open spec fn committed(
    before: Seq<char>,
    after: Seq<char>,
    r: RenderResult<()>,
    out: Outcome,
) -> bool {
    &&& after == before + out.text
    &&& match out.error {
        None => r is Ok,
        Some(e) => r is Err && r->Err_0@ == e,
    }
}

/// Renders the least derived template of the context's inheritance chain
/// into a fresh buffer; with no template at all, the text is empty.
pub fn text(context: &VarContext) -> (r: RenderResult<String>)
    ensures
        context.global.templates@.len() == 0 ==> r is Ok && r->Ok_0@ == Seq::<char>::empty(),
        context.global.templates@.len() > 0 ==> ({
            let out = nodes_out(
                *context.global,
                context.frames(),
                context.global.templates@.last().root@,
                context.global.limit as nat,
            );
            match out.error {
                None => r is Ok && r->Ok_0@ == out.text,
                Some(e) => r is Err && r->Err_0@ == e,
            }
        }),
{
    let mut writer = Writer::new();
    match context.template() {
        None => Ok(writer.buffer),
        Some(template) => {
            match render_text(&mut writer, context, &template.root, context.global().limit) {
                Ok(()) => {
                    proof {
                        assert(writer@ =~= nodes_out(
                            *context.global,
                            context.frames(),
                            template.root@,
                            context.global.limit as nat,
                        ).text);
                    }
                    Ok(writer.buffer)
                },
                Err(e) => Err(e),
            }
        },
    }
}

/// Renders the nodes in order into the sink, stopping at the first error.
pub fn render_text(writer: &mut Writer, context: &VarContext, nodes: &Vec<Node>, depth: usize) -> (r:
    RenderResult<()>)
    ensures
        committed(
            old(writer)@,
            final(writer)@,
            r,
            nodes_out(*context.global, context.frames(), nodes@, depth as nat),
        ),
    decreases depth, 0nat, nodes,
{
    let ghost g = *context.global;
    let ghost frames = context.frames();
    let ghost start = writer@;
    let ghost whole = nodes_from(g, frames, nodes@, 0, depth as nat);
    let mut i: usize = 0;
    proof {
        assert(start + whole.text =~= writer@ + whole.text);
    }
    while i < nodes.len()
        invariant
            i <= nodes.len(),
            g == *context.global,
            frames == context.frames(),
            whole == nodes_from(g, frames, nodes@, 0, depth as nat),
            start == old(writer)@,
            start + whole.text == writer@ + nodes_from(g, frames, nodes@, i as int, depth as nat).text,
            whole.error == nodes_from(g, frames, nodes@, i as int, depth as nat).error,
        decreases nodes.len() - i,
    {
        let ghost before = writer@;
        let ghost first = node_out(g, frames, nodes@[i as int], depth as nat);
        let ghost rest = nodes_from(g, frames, nodes@, i as int + 1, depth as nat);
        let step = render_node(writer, context, &nodes[i], depth);
        match step {
            Err(e) => {
                proof {
                    assert(start + whole.text =~= before + first.text);
                }
                return Err(e);
            },
            Ok(()) => {
                proof {
                    assert(before + (first.text + rest.text) =~= (before + first.text) + rest.text);
                }
            },
        }
        i += 1;
    }
    proof {
        assert(start + whole.text =~= writer@ + Seq::<char>::empty());
        assert(writer@ + Seq::<char>::empty() =~= writer@);
    }
    Ok(())
}

/// Renders one node into the sink.
pub fn render_node(writer: &mut Writer, context: &VarContext, node: &Node, depth: usize) -> (r:
    RenderResult<()>)
    ensures
        committed(
            old(writer)@,
            final(writer)@,
            r,
            node_out(*context.global, context.frames(), *node, depth as nat),
        ),
    decreases depth, 0nat, node,
{
    match node {
        Node::Text(txt) => match writer.write_str(txt.as_str()) {
            Ok(()) => Ok(()),
            Err(_) => Err(RenderError::Format),
        },
        Node::Mustache(mus) => render_mustache(writer, context, mus),
        Node::For(stmt) => render_for(writer, context, stmt, depth),
        Node::If(stmt) => render_if(writer, context, stmt, depth),
        Node::Block(name) => {
            if depth == 0 {
                proof {
                    assert(writer@ + Seq::<char>::empty() =~= writer@);
                }
                Err(RenderError::TooDeep)
            } else {
                render_block(writer, context, name.as_str(), depth - 1)
            }
        },
        Node::Include(expr) => {
            if depth == 0 {
                proof {
                    assert(writer@ + Seq::<char>::empty() =~= writer@);
                }
                Err(RenderError::TooDeep)
            } else {
                render_include(writer, context, expr, depth - 1)
            }
        },
    }
}

/// Renders an interpolation.
pub fn render_mustache(writer: &mut Writer, context: &VarContext, mus: &Mustache) -> (r:
    RenderResult<()>)
    ensures
        committed(
            old(writer)@,
            final(writer)@,
            r,
            expression_out(*context.global, context.frames(), mus.expr),
        ),
{
    render_expression(writer, context, &mus.expr)
}

/// Applies the named filters to a value, from left to right.
pub fn filter_chain(context: &VarContext, filters: &Vec<FilterItem>, value: Option<BType>) -> (r:
    Result<Option<BType>, RenderError>)
    ensures
        result_view(r) == apply_filters(context.global.env.filters@, filters@, opt_view(value)),
{
    let env = context.env();
    let ghost target = apply_filters(env.filters@, filters@, opt_view(value));
    let mut acc = value;
    let mut i: usize = 0;
    proof {
        assert(filters@.skip(0) =~= filters@);
    }
    while i < filters.len()
        invariant
            i <= filters.len(),
            env == context.global.env,
            target == apply_filters(env.filters@, filters@, opt_view(value)),
            target == apply_filters(env.filters@, filters@.skip(i as int), opt_view(acc)),
        decreases filters.len() - i,
    {
        proof {
            assert(filters@.skip(i as int).skip(1) =~= filters@.skip(i as int + 1));
        }
        let step = match &filters[i] {
            FilterItem::Simple(id) => env.filter(id.as_str(), context, acc),
        };
        match step {
            Err(e) => {
                return Err(e);
            },
            Ok(next) => {
                acc = next;
            },
        }
        i += 1;
    }
    Ok(acc)
}

/// Evaluates an expression, filters the value and writes its display form.
pub fn render_expression(writer: &mut Writer, context: &VarContext, expr: &FullExpression) -> (r:
    RenderResult<()>)
    ensures
        committed(
            old(writer)@,
            final(writer)@,
            r,
            expression_out(*context.global, context.frames(), *expr),
        ),
{
    proof {
        assert(writer@ + Seq::<char>::empty() =~= writer@);
    }
    let value = match eval_expr(context, &expr.expr) {
        Err(e) => {
            return Err(e);
        },
        Ok(v) => v,
    };
    let acc = match filter_chain(context, &expr.filters, value) {
        Err(e) => {
            return Err(e);
        },
        Ok(v) => v,
    };
    match acc {
        None => match writer.write_str("#None") {
            Ok(()) => Ok(()),
            Err(_) => Err(RenderError::Format),
        },
        Some(v) => match v.render(writer) {
            Ok(()) => Ok(()),
            Err(_) => Err(RenderError::Format),
        },
    }
}

/// Renders a loop: the body once for each element, in order, each time in
/// a fresh child scope. A source that is absent or cannot be iterated
/// renders nothing.
pub fn render_for(writer: &mut Writer, context: &VarContext, stmt: &ForStatement, depth: usize) -> (r:
    RenderResult<()>)
    ensures
        committed(
            old(writer)@,
            final(writer)@,
            r,
            node_out(*context.global, context.frames(), Node::For(*stmt), depth as nat),
        ),
    decreases depth, 0nat, stmt,
{
    proof {
        assert(writer@ + Seq::<char>::empty() =~= writer@);
    }
    let value = match eval_expr(context, &stmt.expression.expr) {
        Err(e) => {
            return Err(e);
        },
        Ok(None) => {
            return Ok(());
        },
        Ok(Some(v)) => v,
    };
    let iterable = match value.try_as_iterable() {
        None => {
            return Ok(());
        },
        Some(l) => l,
    };
    let ghost g = *context.global;
    let ghost frames = context.frames();
    let ghost items = views(iterable@);
    let ghost start = writer@;
    let ghost whole = loop_from(g, frames, *stmt, items, 0, depth as nat);
    let mut state = LoopState::new(false);
    let mut it = iterable.ivalues();
    let ghost mut i: int = 0;
    proof {
        assert(start + whole.text =~= writer@ + whole.text);
        assert(items.skip(0) =~= items);
    }
    loop
        invariant
            0 <= i <= items.len(),
            it.remaining() == items.skip(i),
            g == *context.global,
            frames == context.frames(),
            state.first == (i == 0),
            whole == loop_from(g, frames, *stmt, items, 0, depth as nat),
            whole == node_out(g, frames, Node::For(*stmt), depth as nat),
            start == old(writer)@,
            start + whole.text == writer@ + loop_from(g, frames, *stmt, items, i, depth as nat).text,
            whole.error == loop_from(g, frames, *stmt, items, i, depth as nat).error,
        decreases items.len() - i,
    {
        let ghost before = writer@;
        let v = match it.next() {
            None => {
                proof {
                    assert(start + whole.text =~= writer@ + Seq::<char>::empty());
                    assert(writer@ + Seq::<char>::empty() =~= writer@);
                }
                return Ok(());
            },
            Some(v) => v,
        };
        let ghost inner = nested(frames, loop_frame(stmt.value_var@, items[i], i == 0));
        let ghost first = nodes_from(g, inner, stmt.block@, 0, depth as nat);
        let ghost rest = loop_from(g, frames, *stmt, items, i + 1, depth as nat);
        let mut local: Args = Vec::new();
        local.push(Attr { name: String::from_str("loop"), value: state.to_value() });
        local.push(Attr { name: stmt.value_var.clone(), value: v });
        proof {
            assert(items.skip(i)[0] == items[i]);
            assert(items.skip(i).skip(1) =~= items.skip(i + 1));
            assert(attr_views(local@) =~= loop_frame(stmt.value_var@, items[i], i == 0));
        }
        let child = context.nested_scope(&local);
        let step = render_text(writer, &child, &stmt.block, depth);
        match step {
            Err(e) => {
                proof {
                    assert(start + whole.text =~= before + first.text);
                }
                return Err(e);
            },
            Ok(()) => {
                proof {
                    assert(before + (first.text + rest.text) =~= (before + first.text) + rest.text);
                }
            },
        }
        state = state.next(false);
        proof {
            i = i + 1;
        }
    }
}

/// Renders a conditional: the body of the first branch whose condition is
/// present and true, else the else body, else nothing.
pub fn render_if(writer: &mut Writer, context: &VarContext, stmt: &IfStatement, depth: usize) -> (r:
    RenderResult<()>)
    ensures
        committed(
            old(writer)@,
            final(writer)@,
            r,
            node_out(*context.global, context.frames(), Node::If(*stmt), depth as nat),
        ),
    decreases depth, 0nat, stmt,
{
    let ghost g = *context.global;
    let ghost frames = context.frames();
    let ghost whole = branches_from(g, frames, *stmt, 0, depth as nat);
    let mut i: usize = 0;
    proof {
        assert(writer@ + Seq::<char>::empty() =~= writer@);
    }
    while i < stmt.if_branches.len()
        invariant
            i <= stmt.if_branches.len(),
            g == *context.global,
            frames == context.frames(),
            writer@ == old(writer)@,
            whole == node_out(g, frames, Node::If(*stmt), depth as nat),
            whole == branches_from(g, frames, *stmt, i as int, depth as nat),
        decreases stmt.if_branches.len() - i,
    {
        proof {
            assert(writer@ + Seq::<char>::empty() =~= writer@);
        }
        match eval_expr(context, &stmt.if_branches[i].expr.expr) {
            Err(e) => {
                return Err(e);
            },
            Ok(Some(res)) => {
                if res.to_bool() {
                    return render_text(writer, context, &stmt.if_branches[i].block, depth);
                }
            },
            Ok(None) => {},
        }
        i += 1;
    }
    match &stmt.else_branch {
        Some(body) => render_text(writer, context, body, depth),
        None => Ok(()),
    }
}

/// Renders the body that the most derived template of the inheritance
/// chain declares under the name; nothing if none declares it.
pub fn render_block(writer: &mut Writer, context: &VarContext, name: &str, depth: usize) -> (r:
    RenderResult<()>)
    ensures
        committed(
            old(writer)@,
            final(writer)@,
            r,
            block_out(*context.global, context.frames(), name@, depth as nat),
        ),
    decreases depth, 1nat, context,
{
    let stack = context.global().stack();
    let ghost all = stack@;
    let mut i: usize = 0;
    proof {
        assert(all.skip(0) =~= all);
        assert(writer@ + Seq::<char>::empty() =~= writer@);
    }
    while i < stack.len()
        invariant
            i <= stack.len(),
            all == stack@,
            all == context.global.templates@,
            writer@ == old(writer)@,
            stack_block(all, name@) == stack_block(all.skip(i as int), name@),
        decreases stack.len() - i,
    {
        proof {
            assert(all.skip(i as int).skip(1) =~= all.skip(i as int + 1));
        }
        match stack[i].block(name) {
            Some(block) => {
                return render_text(writer, context, block, depth);
            },
            None => {},
        }
        i += 1;
    }
    Ok(())
}

/// Renders the root of the template that the expression names, in the
/// scope of the include itself.
pub fn render_include(
    writer: &mut Writer,
    context: &VarContext,
    expr: &FullExpression,
    depth: usize,
) -> (r: RenderResult<()>)
    ensures
        committed(
            old(writer)@,
            final(writer)@,
            r,
            include_out(*context.global, context.frames(), *expr, depth as nat),
        ),
    decreases depth, 1nat, context,
{
    proof {
        assert(writer@ + Seq::<char>::empty() =~= writer@);
    }
    let value = match eval_expr(context, &expr.expr) {
        Err(e) => {
            return Err(e);
        },
        Ok(None) => {
            return Err(RenderError::NameAbsent);
        },
        Ok(Some(v)) => v,
    };
    let name = match value.try_as_string() {
        None => {
            return Err(RenderError::NameNotString);
        },
        Some(n) => n,
    };
    let template = match context.global().env().get_template(name.as_str()) {
        Err(e) => {
            return Err(e);
        },
        Ok(t) => t,
    };
    render_text(writer, context, &template.root, depth)
}

} // verus!
