//! The parsed template tree, and the environment of filters and named
//! templates that a render draws on.

use crate::abc::AsBool;
use crate::btype::same_text;
use crate::types::{opt_view, truth, views, BType, Op, Val};
use crate::context::VarContext;
use vstd::prelude::*;
use vstd::string::StringExecFns;

verus! {

/// Why a render stopped.
#[derive(Debug, Clone, PartialEq, Eq)]
pub enum RenderError {
    /// An expression could not be reduced to a value.
    Evaluation,
    /// No filter is registered under the name.
    UnknownFilter(String),
    /// The filter of this name does not take this kind of value.
    FilterRejected(String),
    /// The name of a template to include evaluated to nothing.
    NameAbsent,
    /// The name of a template to include has no text form.
    NameNotString,
    /// No template is registered under the name.
    TemplateNotFound(String),
    /// The value to write has no display form.
    Format,
    /// Blocks and includes are nested deeper than the limit.
    TooDeep,
}

/// The mathematical content of an error.
pub enum Fault {
    Evaluation,
    UnknownFilter(Seq<char>),
    FilterRejected(Seq<char>),
    NameAbsent,
    NameNotString,
    TemplateNotFound(Seq<char>),
    Format,
    TooDeep,
}

impl View for RenderError {
    type V = Fault;

    open spec fn view(&self) -> Fault {
        match self {
            RenderError::Evaluation => Fault::Evaluation,
            RenderError::UnknownFilter(id) => Fault::UnknownFilter(id@),
            RenderError::FilterRejected(id) => Fault::FilterRejected(id@),
            RenderError::NameAbsent => Fault::NameAbsent,
            RenderError::NameNotString => Fault::NameNotString,
            RenderError::TemplateNotFound(id) => Fault::TemplateNotFound(id@),
            RenderError::Format => Fault::Format,
            RenderError::TooDeep => Fault::TooDeep,
        }
    }
}

pub type RenderResult<T> = Result<T, RenderError>;

#[derive(Debug, PartialEq)]
pub enum Expression {
    Literal(BType),
    Variable(String),
    Attribute(Box<Expression>, String),
    Binary(Op, Box<Expression>, Box<Expression>),
}

#[derive(Debug, PartialEq)]
pub enum FilterItem {
    Simple(String),
}

impl FilterItem {
    /// The name under which the filter is looked up.
    pub open spec fn name(&self) -> Seq<char> {
        match self {
            FilterItem::Simple(id) => id@,
        }
    }
}

#[derive(Debug, PartialEq)]
pub struct FullExpression {
    pub expr: Expression,
    pub filters: Vec<FilterItem>,
}

#[derive(Debug, PartialEq)]
pub struct Mustache {
    pub expr: FullExpression,
}

#[derive(Debug, PartialEq)]
pub struct ForStatement {
    pub value_var: String,
    pub expression: FullExpression,
    pub block: Vec<Node>,
}

#[derive(Debug, PartialEq)]
pub struct IfBranch {
    pub expr: FullExpression,
    pub block: Vec<Node>,
}

#[derive(Debug, PartialEq)]
pub struct IfStatement {
    pub if_branches: Vec<IfBranch>,
    pub else_branch: Option<Vec<Node>>,
}

#[derive(Debug, PartialEq)]
pub enum Node {
    Text(String),
    Mustache(Mustache),
    For(ForStatement),
    If(IfStatement),
    Block(String),
    Include(FullExpression),
}

/// One overridable body of a template, under its name.
#[derive(Debug, PartialEq)]
pub struct NamedBlock {
    pub name: String,
    pub nodes: Vec<Node>,
}

#[derive(Debug, PartialEq)]
pub struct Template {
    pub root: Vec<Node>,
    pub blocks: Vec<NamedBlock>,
}

/// The transformations that can be registered as filters.
#[derive(Clone, Copy, PartialEq, Eq, Structural, Debug)]
pub enum Filter {
    /// The number of elements of a list, or of characters of a text.
    Length,
    /// The negated truth of any value.
    Not,
    /// The first element of a list; nothing for an empty one.
    First,
}

#[derive(Debug, PartialEq)]
pub struct FilterEntry {
    pub name: String,
    pub filter: Filter,
}

#[derive(Debug, PartialEq)]
pub struct TemplateEntry {
    pub name: String,
    pub template: Template,
}

/// The filters and templates known to every render, by name. Where a name
/// is registered twice, the first entry counts.
#[derive(Debug, PartialEq)]
pub struct Environment {
    pub filters: Vec<FilterEntry>,
    pub templates: Vec<TemplateEntry>,
}

/// The body of the first block with the given name.
pub open spec fn find_block(blocks: Seq<NamedBlock>, id: Seq<char>) -> Option<Seq<Node>>
    decreases blocks.len(),
{
    if blocks.len() == 0 {
        None
    } else if blocks[0].name@ == id {
        Some(blocks[0].nodes@)
    } else {
        find_block(blocks.skip(1), id)
    }
}

/// The first filter registered under the given name.
pub open spec fn find_filter(entries: Seq<FilterEntry>, id: Seq<char>) -> Option<Filter>
    decreases entries.len(),
{
    if entries.len() == 0 {
        None
    } else if entries[0].name@ == id {
        Some(entries[0].filter)
    } else {
        find_filter(entries.skip(1), id)
    }
}

/// The first template registered under the given name.
pub open spec fn find_template(entries: Seq<TemplateEntry>, id: Seq<char>) -> Option<Template>
    decreases entries.len(),
{
    if entries.len() == 0 {
        None
    } else if entries[0].name@ == id {
        Some(entries[0].template)
    } else {
        find_template(entries.skip(1), id)
    }
}

/// What a filter makes of a value; `id` is the name it was called by.
pub open spec fn filtered(f: Filter, id: Seq<char>, v: Val) -> Result<Option<Val>, Fault> {
    match f {
        Filter::Length => match v {
            Val::List(l) => if l.len() <= i64::MAX {
                Ok(Some(Val::Int(l.len() as int)))
            } else {
                Err(Fault::FilterRejected(id))
            },
            Val::Str(s) => if s.len() <= i64::MAX {
                Ok(Some(Val::Int(s.len() as int)))
            } else {
                Err(Fault::FilterRejected(id))
            },
            _ => Err(Fault::FilterRejected(id)),
        },
        Filter::Not => Ok(Some(Val::Bool(!truth(v)))),
        Filter::First => match v {
            Val::List(l) => if l.len() > 0 {
                Ok(Some(l[0]))
            } else {
                Ok(None)
            },
            _ => Err(Fault::FilterRejected(id)),
        },
    }
}

/// What the filter registered under a name makes of an optional value: an
/// unknown name is an error, and an absent value stays absent.
pub open spec fn filter_result(entries: Seq<FilterEntry>, id: Seq<char>, v: Option<Val>) -> Result<
    Option<Val>,
    Fault,
> {
    match find_filter(entries, id) {
        None => Err(Fault::UnknownFilter(id)),
        Some(f) => match v {
            None => Ok(None),
            Some(x) => filtered(f, id, x),
        },
    }
}

/// The contents of the outcome of an evaluation step.
pub open spec fn result_view(r: Result<Option<BType>, RenderError>) -> Result<
    Option<Val>,
    Fault,
> {
    match r {
        Ok(Some(v)) => Ok(Some(v@)),
        Ok(None) => Ok(None),
        Err(e) => Err(e@),
    }
}

impl Filter {
    /// Applies the transformation to a value; `id` is the name it was
    /// called by.
    pub fn apply(&self, id: &str, v: &BType) -> (r: Result<Option<BType>, RenderError>)
        ensures
            result_view(r) == filtered(*self, id@, v@),
    {
        match self {
            Filter::Length => match v {
                BType::List(l) => {
                    proof {
                        assert(views(l@).len() == l@.len());
                    }
                    let n: u64 = l.len() as u64;
                    if n <= 0x7fff_ffff_ffff_ffffu64 {
                        Ok(Some(BType::Int(n as i64)))
                    } else {
                        Err(RenderError::FilterRejected(String::from_str(id)))
                    }
                },
                BType::Str(s) => {
                    let n: u64 = s.as_str().unicode_len() as u64;
                    if n <= 0x7fff_ffff_ffff_ffffu64 {
                        Ok(Some(BType::Int(n as i64)))
                    } else {
                        Err(RenderError::FilterRejected(String::from_str(id)))
                    }
                },
                _ => Err(RenderError::FilterRejected(String::from_str(id))),
            },
            Filter::Not => Ok(Some(BType::Bool(!v.to_bool()))),
            Filter::First => match v {
                BType::List(l) => {
                    proof {
                        assert(views(l@).len() == l@.len());
                    }
                    if l.len() > 0 {
                        Ok(Some(l[0].duplicate()))
                    } else {
                        Ok(None)
                    }
                },
                _ => Err(RenderError::FilterRejected(String::from_str(id))),
            },
        }
    }
}

impl Template {
    /// The body that this template declares under a block name, if any.
    pub fn block(&self, id: &str) -> (r: Option<&Vec<Node>>)
        ensures
            match find_block(self.blocks@, id@) {
                Some(nodes) => r is Some && r->0@ == nodes,
                None => r is None,
            },
    {
        let ghost all = self.blocks@;
        let mut i: usize = 0;
        proof {
            assert(all.skip(0) =~= all);
        }
        while i < self.blocks.len()
            invariant
                i <= self.blocks.len(),
                all == self.blocks@,
                find_block(all, id@) == find_block(all.skip(i as int), id@),
            decreases self.blocks.len() - i,
        {
            proof {
                assert(all.skip(i as int).skip(1) =~= all.skip(i as int + 1));
            }
            if same_text(self.blocks[i].name.as_str(), id) {
                return Some(&self.blocks[i].nodes);
            }
            i += 1;
        }
        None
    }
}

impl Environment {
    /// Applies the filter registered under a name to an optional value. The
    /// scope is at the filter's disposal; none of the built-in ones reads it.
    pub fn filter(&self, id: &str, context: &VarContext, value: Option<BType>) -> (r: Result<
        Option<BType>,
        RenderError,
    >)
        ensures
            result_view(r) == filter_result(self.filters@, id@, opt_view(value)),
    {
        let ghost all = self.filters@;
        let mut i: usize = 0;
        proof {
            assert(all.skip(0) =~= all);
        }
        while i < self.filters.len()
            invariant
                i <= self.filters.len(),
                all == self.filters@,
                find_filter(all, id@) == find_filter(all.skip(i as int), id@),
            decreases self.filters.len() - i,
        {
            proof {
                assert(all.skip(i as int).skip(1) =~= all.skip(i as int + 1));
            }
            if same_text(self.filters[i].name.as_str(), id) {
                return match value {
                    Some(v) => self.filters[i].filter.apply(id, &v),
                    None => Ok(None),
                };
            }
            i += 1;
        }
        Err(RenderError::UnknownFilter(String::from_str(id)))
    }

    /// The template registered under a name.
    pub fn get_template(&self, id: &str) -> (r: Result<&Template, RenderError>)
        ensures
            match find_template(self.templates@, id@) {
                Some(t) => r is Ok && *r->Ok_0 == t,
                None => r is Err && r->Err_0@ == Fault::TemplateNotFound(id@),
            },
    {
        let ghost all = self.templates@;
        let mut i: usize = 0;
        proof {
            assert(all.skip(0) =~= all);
        }
        while i < self.templates.len()
            invariant
                i <= self.templates.len(),
                all == self.templates@,
                find_template(all, id@) == find_template(all.skip(i as int), id@),
            decreases self.templates.len() - i,
        {
            proof {
                assert(all.skip(i as int).skip(1) =~= all.skip(i as int + 1));
            }
            if same_text(self.templates[i].name.as_str(), id) {
                return Ok(&self.templates[i].template);
            }
            i += 1;
        }
        Err(RenderError::TemplateNotFound(String::from_str(id)))
    }
}

} // verus!
