//! The chain of variable scopes, the render-wide context, and the state a
//! loop shows to its body.

use crate::abc::IComposable;
use crate::container::{find_block, Environment, Node, Template};
use crate::types::{attr_views, find_attr, opt_view, Attr, BType, Val};
use vstd::prelude::*;
use vstd::string::StringExecFns;

verus! {

/// The bindings of one frame. Where a name is bound twice in one frame,
/// the first binding counts.
pub type Args = Vec<Attr>;

/// The value bound to a name: the innermost frame that binds it decides.
/// Frames are listed innermost first.
pub open spec fn lookup_in(frames: Seq<Seq<(Seq<char>, Val)>>, id: Seq<char>) -> Option<Val>
    decreases frames.len(),
{
    if frames.len() == 0 {
        None
    } else {
        match find_attr(frames[0], id) {
            Some(v) => Some(v),
            None => lookup_in(frames.skip(1), id),
        }
    }
}

/// The scope that layers one more frame over the given ones.
pub open spec fn nested(
    frames: Seq<Seq<(Seq<char>, Val)>>,
    local: Seq<(Seq<char>, Val)>,
) -> Seq<Seq<(Seq<char>, Val)>> {
    seq![local] + frames
}

/// The body of a block as the most derived template that declares it has
/// it. Templates are listed most derived first.
pub open spec fn stack_block(stack: Seq<&Template>, id: Seq<char>) -> Option<Seq<Node>>
    decreases stack.len(),
{
    if stack.len() == 0 {
        None
    } else {
        match find_block(stack[0].blocks@, id) {
            Some(nodes) => Some(nodes),
            None => stack_block(stack.skip(1), id),
        }
    }
}

/// What every frame of one render shares: the environment, the templates
/// taking part in inheritance (most derived first), and the number of
/// block references and includes that may be nested in one another.
pub struct GlobalContext<'a> {
    pub env: &'a Environment,
    pub templates: Vec<&'a Template>,
    pub limit: usize,
}

impl<'a> GlobalContext<'a> {
    pub fn new(env: &'a Environment, templates: Vec<&'a Template>, limit: usize) -> (g: Self)
        ensures
            g.env == env,
            g.templates == templates,
            g.limit == limit,
    {
        GlobalContext { env, templates, limit }
    }

    pub fn env(&self) -> (e: &'a Environment)
        ensures
            e == self.env,
    {
        self.env
    }

    /// The templates of the inheritance chain, most derived first.
    pub fn stack(&self) -> (s: &Vec<&'a Template>)
        ensures
            *s == self.templates,
    {
        &self.templates
    }

    /// The template whose root is rendered: the least derived one.
    pub fn template(&self) -> (t: Option<&'a Template>)
        ensures
            self.templates@.len() == 0 ==> t is None,
            self.templates@.len() > 0 ==> t == Some(self.templates@.last()),
    {
        let n: usize = self.templates.len();
        if n == 0 {
            None
        } else {
            Some(self.templates[n - 1])
        }
    }

    /// A scope with no parent over the given bindings.
    pub fn top_scope<'b>(&'b self, local: &'b Args) -> (c: VarContext<'b>)
        ensures
            c.frames() == seq![attr_views(local@)],
            *c.global == *self,
    {
        let c = VarContext { global: self, parent: None, local };
        proof {
            assert(c.frames() =~= seq![attr_views(local@)]);
        }
        c
    }
}

/// One frame of bindings over the scope it was nested in.
pub struct VarContext<'a> {
    pub global: &'a GlobalContext<'a>,
    pub parent: Option<&'a VarContext<'a>>,
    pub local: &'a Args,
}

impl<'a> VarContext<'a> {
    /// The frames of the chain, innermost first.
    pub open spec fn frames(&self) -> Seq<Seq<(Seq<char>, Val)>>
        decreases self,
    {
        match self.parent {
            Some(p) => nested(p.frames(), attr_views(self.local@)),
            None => seq![attr_views(self.local@)],
        }
    }

    pub fn global(&self) -> (g: &'a GlobalContext<'a>)
        ensures
            g == self.global,
    {
        self.global
    }

    pub fn env(&self) -> (e: &'a Environment)
        ensures
            e == self.global.env,
    {
        self.global.env
    }

    pub fn template(&self) -> (t: Option<&'a Template>)
        ensures
            self.global.templates@.len() == 0 ==> t is None,
            self.global.templates@.len() > 0 ==> t == Some(self.global.templates@.last()),
    {
        self.global.template()
    }

    /// A copy of the value bound to the name, if any frame binds it.
    pub fn lookup(&self, id: &str) -> (r: Option<BType>)
        ensures
            opt_view(r) == lookup_in(self.frames(), id@),
        decreases self,
    {
        proof {
            assert(self.frames().len() > 0);
            assert(self.frames()[0] == attr_views(self.local@));
        }
        match self.local.get_attr(id) {
            Some(v) => Some(v),
            None => match self.parent {
                Some(p) => {
                    proof {
                        assert(self.frames().skip(1) =~= p.frames());
                    }
                    p.lookup(id)
                },
                None => {
                    proof {
                        assert(self.frames().skip(1) =~= Seq::empty());
                        assert(lookup_in(self.frames().skip(1), id@) is None);
                    }
                    None
                },
            },
        }
    }

    /// A child scope that layers the bindings over this one, which stays
    /// as it was.
    pub fn nested_scope<'b>(&'b self, local: &'b Args) -> (c: VarContext<'b>)
        ensures
            c.frames() == nested(self.frames(), attr_views(local@)),
            *c.global == *self.global,
    {
        VarContext { global: self.global, parent: Some(self), local }
    }
}

/// A binding shadows every outer binding of the same name: the nested
/// scope gives the new value, whatever the parent gives, and a name that
/// the new frame does not bind is looked up in the parent as before.
pub proof fn lemma_nested_shadows(
    frames: Seq<Seq<(Seq<char>, Val)>>,
    local: Seq<(Seq<char>, Val)>,
    id: Seq<char>,
)
    ensures
        find_attr(local, id) is Some ==> lookup_in(nested(frames, local), id) == find_attr(
            local,
            id,
        ),
        find_attr(local, id) is None ==> lookup_in(nested(frames, local), id) == lookup_in(
            frames,
            id,
        ),
{
    assert(nested(frames, local).skip(1) =~= frames);
}

/// The value that a one-binding frame gives for its own name.
pub proof fn lemma_single_binding(id: Seq<char>, a: Val)
    ensures
        find_attr(seq![(id, a)], id) == Some(a),
{
}

/// What a loop body sees of the iteration it runs in.
#[derive(Clone, Copy, PartialEq, Eq, Structural, Debug)]
pub struct LoopState {
    pub first: bool,
    pub last: bool,
}

/// The value under which a loop shows its state to the body.
pub open spec fn loop_value(first: bool) -> Val {
    Val::Record(seq![("first"@, Val::Bool(first))])
}

impl LoopState {
    /// The state of the first iteration.
    pub fn new(last: bool) -> (s: LoopState)
        ensures
            s == (LoopState { first: true, last }),
    {
        LoopState { first: true, last }
    }

    /// The state of the iteration after this one.
    pub fn next(self, last: bool) -> (s: LoopState)
        ensures
            s == (LoopState { first: false, last }),
    {
        LoopState { first: false, last }
    }

    pub fn is_first(&self) -> (r: bool)
        ensures
            r == self.first,
    {
        self.first
    }

    /// The record that templates see under the loop's reserved name.
    pub fn to_value(&self) -> (v: BType)
        ensures
            v@ == loop_value(self.first),
    {
        let mut attrs: Vec<Attr> = Vec::new();
        attrs.push(Attr { name: String::from_str("first"), value: BType::Bool(self.first) });
        proof {
            assert(attr_views(attrs@) =~= seq![("first"@, Val::Bool(self.first))]);
        }
        BType::Record(attrs)
    }
}

} // verus!
