//! The parsed template tree: the node sum the walker interprets, and the
//! template set that stores parsed trees by name.

use vstd::prelude::*;
use crate::value::Value;

verus! {

/// One stage of a pipeline. Its first node selects the evaluation strategy;
/// the remaining nodes are its arguments.
pub struct Command {
    pub args: Vec<Node>,
}

/// A pipeline: an optional list of declared variable names and a non-empty
/// list of commands folded left to right.
pub struct Pipe {
    pub decl: Vec<String>,
    pub cmds: Vec<Command>,
}

/// The shared shape of `if`, `with` and `range` nodes: a guard pipeline, a
/// body, and an optional else body.
pub struct Branch {
    pub pipe: Pipe,
    pub body: Vec<Node>,
    pub else_body: Option<Vec<Node>>,
}

/// A node of the parse tree. The walker dispatches on the variant tag.
pub enum Node {
    /// Literal text, written verbatim (trimming already applied by the parser).
    Text(String),
    /// A `{{ ... }}` site: evaluates its pipeline and prints the value unless
    /// the pipeline declares variables.
    Action(Pipe),
    /// A sequence of nodes walked in order.
    List(Vec<Node>),
    If(Branch),
    With(Branch),
    Range(Branch),
    /// Invocation of a named template; the optional pipeline supplies the new
    /// dot, evaluated against the caller's context.
    TemplateCall { name: String, pipe: Option<Pipe> },
    /// A parenthesized sub-pipeline in expression position.
    Pipe(Pipe),
    /// A base expression followed by dotted field names.
    Chain { base: Box<Node>, fields: Vec<String> },
    /// A `$name` reference, optionally followed by field names.
    Variable(Vec<String>),
    /// A function identifier.
    Ident(String),
    /// A `.name.name` field chain resolved against dot.
    Field(Vec<String>),
    Dot,
    Nil,
    Bool(bool),
    /// A number literal, already carried as its parsed value.
    Number(Value),
    /// A string literal.
    Str(String),
}

/// One named tree of the template set.
pub struct TreeEntry {
    pub name: String,
    pub root: Option<Node>,
}

/// Looks up the latest tree of a given name among the first `j` entries;
/// later entries shadow earlier ones, as re-adding a name replaces its tree.
pub open spec fn s_find_tree(ts: Seq<TreeEntry>, j: int, name: Seq<char>) -> Option<Option<Node>>
    decreases j,
{
    if j <= 0 || j > ts.len() {
        None
    } else if ts[j - 1].name@ == name {
        Some(ts[j - 1].root)
    } else {
        s_find_tree(ts, j - 1, name)
    }
}

/// Looks up the latest name bound to a tree id among the first `j` entries.
pub open spec fn s_find_id(ids: Seq<(usize, String)>, j: int, id: usize) -> Option<Seq<char>>
    decreases j,
{
    if j <= 0 || j > ids.len() {
        None
    } else if ids[j - 1].0 == id {
        Some(ids[j - 1].1@)
    } else {
        s_find_id(ids, j - 1, id)
    }
}

/// The template set: parsed trees by name, an id map locating the root
/// tree, and the name of the template as a whole.
pub struct Template {
    pub name: String,
    pub tree_ids: Vec<(usize, String)>,
    pub tree_set: Vec<TreeEntry>,
}

} // verus!
