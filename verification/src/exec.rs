//! The execution driver: the recursive walker that interprets a template
//! tree against a context and writes the rendered text, proved to match the
//! specification-level interpreter clause for clause.

use vstd::prelude::*;
use crate::errors::EngineError;
use crate::node::{Node, Pipe, Command, Branch, Template, TreeEntry, s_find_tree, s_find_id};
use crate::value::{
    Value, ValM, Pair, is_true, res_view, vals_view, pairs_view, lemma_vals_view,
    lemma_pairs_view, eval_field_chain, value_text, text_of, names_view,
};
use crate::vars::{State, StackM};
use crate::sem::{
    EvalOut, WalkOut, MAX_TEMPLATE_DEPTH, s_eval_pipe, s_eval_cmds, s_eval_cmd, s_eval_call,
    s_eval_args, s_eval_arg, s_eval_chain, s_eval_variable, s_declare_all, iter_pairs, s_walk,
    s_walk_list, s_if_with, s_one_iter, s_range_iters, s_template_call, s_execute,
};
use crate::funcs::{is_function, call_builtin};

verus! {

/// A context for the template: the current dot value.
pub struct Context {
    pub dot: Value,
}

impl Context {
    /// A context carrying the sentinel of an empty context: never truthy,
    /// with no textual form.
    pub fn empty() -> (c: Context)
        ensures
            c.dot@ == ValM::Nothing,
    {
        Context { dot: Value::Nothing }
    }

    /// A context over the given value. Every value is accepted.
    pub fn from(value: Value) -> (r: Result<Context, EngineError>)
        ensures
            r matches Ok(c) && c.dot@ == value@,
    {
        Ok(Context { dot: value })
    }

    /// Wraps an already-built dynamic value, with no failure channel.
    pub fn from_any(value: Value) -> (c: Context)
        ensures
            c.dot@ == value@,
    {
        Context { dot: value }
    }
}

/// The view of an optional trailing input.
pub open spec fn opt_view(o: Option<Value>) -> Option<ValM> {
    match o {
        Some(v) => Some(v@),
        None => None,
    }
}

/// The view of a key-element pair list.
pub open spec fn kv_view(ps: Seq<(Value, Value)>) -> Seq<(ValM, ValM)> {
    ps.map_values(|p: (Value, Value)| (p.0@, p.1@))
}

/// The fuel that is left at a nesting depth.
pub open spec fn fuel_of(depth: usize) -> nat {
    (MAX_TEMPLATE_DEPTH - depth) as nat
}

/// How an expression result relates exec to spec.
pub open spec fn eval_post(e: EvalOut, r: Result<Value, EngineError>, st1: StackM) -> bool {
    &&& res_view(r) == e.res
    &&& st1 == e.vars
}

/// How a walk result relates exec to spec: the error channel agrees, the
/// sink grew by exactly the specified text, and the stack is as specified.
pub open spec fn walk_post(
    w: WalkOut,
    r: Result<(), EngineError>,
    out0: Seq<char>,
    out1: Seq<char>,
    st1: StackM,
) -> bool {
    &&& match r {
        Ok(_) => w.err is None,
        Err(e) => w.err == Some(e),
    }
    &&& out1 == out0 + w.out
    &&& st1 == w.vars
}

/// Rejects arguments and trailing input for a non-function first node.
fn not_a_function(nargs: usize, fin: &Option<Value>) -> (r: Result<(), EngineError>)
    ensures
        r is Ok <==> !(nargs > 1 || fin is Some),
        r matches Err(e) ==> e == EngineError::NotAFunction,
{
    if nargs > 1 || fin.is_some() {
        Err(EngineError::NotAFunction)
    } else {
        Ok(())
    }
}

/// Writes a value's canonical text to the sink.
fn print_value(out: &mut String, val: &Value) -> (r: Result<(), EngineError>)
    ensures
        match text_of(val@) {
            Some(t) => r is Ok && final(out)@ == old(out)@ + t,
            None => r matches Err(e) && e == EngineError::UnformattableValue && final(out)@
                == old(out)@,
        },
{
    match value_text(val) {
        Ok(s) => {
            out.append(s.as_str());
            Ok(())
        },
        Err(e) => Err(e),
    }
}

fn find_id<'a>(ids: &'a Vec<(usize, String)>, j: usize, id: usize) -> (r: Option<&'a String>)
    requires
        j <= ids@.len(),
    ensures
        match s_find_id(ids@, j as int, id) {
            None => r is None,
            Some(nm) => r matches Some(s) && s@ == nm,
        },
    decreases j,
{
    if j == 0 {
        None
    } else if ids[j - 1].0 == id {
        Some(&ids[j - 1].1)
    } else {
        find_id(ids, j - 1, id)
    }
}

fn find_tree<'a>(ts: &'a Vec<TreeEntry>, j: usize, name: &String) -> (r: Option<&'a TreeEntry>)
    requires
        j <= ts@.len(),
    ensures
        match s_find_tree(ts@, j as int, name@) {
            None => r is None,
            Some(root) => r matches Some(e) && e.root == root,
        },
    decreases j,
{
    if j == 0 {
        None
    } else if ts[j - 1].name == *name {
        Some(&ts[j - 1])
    } else {
        find_tree(ts, j - 1, name)
    }
}

impl Default for Template {
    /// An empty template set with an empty name.
    fn default() -> (t: Template)
        ensures
            t.name@ == Seq::<char>::empty(),
            t.tree_ids@ == Seq::<(usize, String)>::empty(),
            t.tree_set@ == Seq::<TreeEntry>::empty(),
    {
        Template { name: String::new(), tree_ids: Vec::new(), tree_set: Vec::new() }
    }
}

impl Template {
    /// Adds a named tree; the first tree added gets id 1 and so becomes the
    /// root that `execute` renders.
    pub fn add_tree(&mut self, name: &str, root: Node)
        requires
            old(self).tree_ids@.len() < usize::MAX,
        ensures
            final(self).name == old(self).name,
            final(self).tree_ids@.len() == old(self).tree_ids@.len() + 1,
            final(self).tree_set@.len() == old(self).tree_set@.len() + 1,
            final(self).tree_ids@.drop_last() == old(self).tree_ids@,
            final(self).tree_set@.drop_last() == old(self).tree_set@,
            final(self).tree_ids@.last().0 == old(self).tree_ids@.len() + 1,
            final(self).tree_ids@.last().1@ == name@,
            final(self).tree_set@.last().name@ == name@,
            final(self).tree_set@.last().root == Some(root),
    {
        let id = self.tree_ids.len() + 1;
        self.tree_ids.push((id, name.to_owned()));
        self.tree_set.push(TreeEntry { name: name.to_owned(), root: Some(root) });
        proof {
            assert(self.tree_ids@.drop_last() =~= old(self).tree_ids@);
            assert(self.tree_set@.drop_last() =~= old(self).tree_set@);
        }
    }

    /// Renders the root template into the sink; every failure aborts the
    /// walk at once, keeping the text already written.
    pub fn execute(&self, out: &mut String, data: &Context) -> (r: Result<(), EngineError>)
        ensures
            ({
                let w = s_execute(*self, data.dot@);
                &&& match r {
                    Ok(_) => w.err is None,
                    Err(e) => w.err == Some(e),
                }
                &&& final(out)@ == old(out)@ + w.out
            }),
    {
        let root_opt = match find_id(&self.tree_ids, self.tree_ids.len(), 1) {
            None => None,
            Some(nm) => match find_tree(&self.tree_set, self.tree_set.len(), nm) {
                Some(entry) => match &entry.root {
                    Some(root) => Some(root),
                    None => None,
                },
                None => None,
            },
        };
        match root_opt {
            None => {
                proof {
                    assert(old(out)@ + Seq::<char>::empty() =~= old(out)@);
                }
                Err(EngineError::IncompleteTemplate)
            },
            Some(root) => {
                let mut st = State::with_root(&data.dot, 0);
                let r = st.walk(self, out, data, root);
                proof {
                    assert(fuel_of(0) == MAX_TEMPLATE_DEPTH as nat);
                }
                r
            },
        }
    }

    /// Renders the root template into a fresh string.
    pub fn render(&self, data: &Context) -> (r: Result<String, EngineError>)
        ensures
            ({
                let w = s_execute(*self, data.dot@);
                match r {
                    Ok(s) => w.err is None && s@ == w.out,
                    Err(e) => w.err == Some(e),
                }
            }),
    {
        let mut w = String::new();
        match self.execute(&mut w, data) {
            Ok(_) => {
                proof {
                    assert(Seq::<char>::empty() + s_execute(*self, data.dot@).out =~= s_execute(
                        *self,
                        data.dot@,
                    ).out);
                }
                Ok(w)
            },
            Err(e) => {
                proof {
                    assert(Seq::<char>::empty() + s_execute(*self, data.dot@).out =~= s_execute(
                        *self,
                        data.dot@,
                    ).out);
                }
                Err(e)
            },
        }
    }
}

impl State {
    /// Appends each declared name of a pipeline, bound to the pipeline's
    /// value.
    fn declare_all(&mut self, decls: &Vec<String>, i: usize, v: &Value)
        requires
            old(self).vars@.len() >= 1,
        ensures
            final(self)@ == s_declare_all(old(self)@, names_view(decls@), i as int, v@),
            final(self).depth == old(self).depth,
            final(self).vars@.len() == old(self).vars@.len(),
        decreases decls@.len() - i,
    {
        if i < decls.len() {
            proof {
                assert(names_view(decls@)[i as int] == decls@[i as int]@);
            }
            self.declare_var(decls[i].clone(), v.deep_clone());
            self.declare_all(decls, i + 1, v);
        }
    }

    /// Evaluates a pipeline and binds its declared names.
    fn eval_pipeline(&mut self, ctx: &Context, pipe: &Pipe) -> (r: Result<Value, EngineError>)
        requires
            old(self).vars@.len() >= 1,
        ensures
            eval_post(s_eval_pipe(old(self)@, ctx.dot@, *pipe), r, final(self)@),
            final(self).depth == old(self).depth,
            final(self).vars@.len() == old(self).vars@.len(),
        decreases *pipe, 2int, 0int,
    {
        match self.eval_cmds(ctx, &pipe.cmds, 0, None) {
            Err(e) => Err(e),
            Ok(v) => {
                self.declare_all(&pipe.decl, 0, &v);
                Ok(v)
            },
        }
    }

    /// Evaluates the commands of a pipeline from `i` on, threading the
    /// previous value as trailing input.
    fn eval_cmds(
        &mut self,
        ctx: &Context,
        cmds: &Vec<Command>,
        i: usize,
        prev: Option<Value>,
    ) -> (r: Result<Value, EngineError>)
        requires
            old(self).vars@.len() >= 1,
        ensures
            eval_post(
                s_eval_cmds(old(self)@, ctx.dot@, cmds@, i as int, opt_view(prev)),
                r,
                final(self)@,
            ),
            final(self).depth == old(self).depth,
            final(self).vars@.len() == old(self).vars@.len(),
        decreases cmds@, 2int, cmds@.len() - i,
    {
        if i >= cmds.len() {
            match prev {
                Some(v) => Ok(v),
                None => Err(EngineError::MalformedTree),
            }
        } else {
            match self.eval_command(ctx, &cmds[i], &prev) {
                Err(e) => Err(e),
                Ok(v) => self.eval_cmds(ctx, cmds, i + 1, Some(v)),
            }
        }
    }

    /// Evaluates one command, dispatching on its first node.
    fn eval_command(
        &mut self,
        ctx: &Context,
        cmd: &Command,
        fin: &Option<Value>,
    ) -> (r: Result<Value, EngineError>)
        requires
            old(self).vars@.len() >= 1,
        ensures
            eval_post(s_eval_cmd(old(self)@, ctx.dot@, *cmd, opt_view(*fin)), r, final(self)@),
            final(self).depth == old(self).depth,
            final(self).vars@.len() == old(self).vars@.len(),
        decreases *cmd, 2int, 0int,
    {
        if cmd.args.len() == 0 {
            return Err(EngineError::MalformedTree);
        }
        let hargs = cmd.args.len() > 1 || fin.is_some();
        match &cmd.args[0] {
            Node::Field(ident) => eval_field_chain(&ctx.dot, ident, 0, hargs),
            Node::Variable(ident) => self.eval_variable_node(ident, hargs),
            Node::Pipe(p) => self.eval_pipeline(ctx, p),
            Node::Chain { .. } => self.eval_chain_node(ctx, &cmd.args[0], hargs),
            Node::Ident(name) => self.eval_function(ctx, name, &cmd.args, fin),
            _ => {
                match not_a_function(cmd.args.len(), fin) {
                    Err(e) => Err(e),
                    Ok(_) => match &cmd.args[0] {
                        Node::Bool(b) => Ok(Value::Bool(*b)),
                        Node::Dot => Ok(ctx.dot.deep_clone()),
                        Node::Number(v) => Ok(v.deep_clone()),
                        Node::Str(s) => Ok(Value::Str(s.clone())),
                        _ => Err(EngineError::MalformedTree),
                    },
                }
            },
        }
    }

    /// Resolves a `$name` reference and walks its field chain.
    fn eval_variable_node(&self, ident: &Vec<String>, hargs: bool) -> (r: Result<
        Value,
        EngineError,
    >)
        ensures
            res_view(r) == s_eval_variable(self@, names_view(ident@), hargs),
    {
        if ident.len() == 0 {
            return Err(EngineError::MalformedTree);
        }
        proof {
            assert(names_view(ident@)[0] == ident@[0]@);
        }
        match self.var_value(&ident[0]) {
            Err(e) => Err(e),
            Ok(v) => {
                if ident.len() == 1 {
                    if hargs {
                        Err(EngineError::NotAFunction)
                    } else {
                        Ok(v)
                    }
                } else {
                    eval_field_chain(&v, ident, 1, hargs)
                }
            },
        }
    }

    /// Looks the identifier up in the function table and calls it.
    fn eval_function(
        &mut self,
        ctx: &Context,
        name: &String,
        args: &Vec<Node>,
        fin: &Option<Value>,
    ) -> (r: Result<Value, EngineError>)
        requires
            old(self).vars@.len() >= 1,
        ensures
            eval_post(
                s_eval_call(old(self)@, ctx.dot@, name@, args@, opt_view(*fin)),
                r,
                final(self)@,
            ),
            final(self).depth == old(self).depth,
            final(self).vars@.len() == old(self).vars@.len(),
        decreases args@, 4int, 0int,
    {
        if !is_function(name) {
            Err(EngineError::UnknownFunction)
        } else {
            self.eval_call(ctx, name, args, fin)
        }
    }

    /// Evaluates the argument nodes, appends the trailing input, and
    /// invokes the function.
    fn eval_call(
        &mut self,
        ctx: &Context,
        name: &String,
        args: &Vec<Node>,
        fin: &Option<Value>,
    ) -> (r: Result<Value, EngineError>)
        requires
            old(self).vars@.len() >= 1,
            crate::funcs::is_builtin(name@),
        ensures
            eval_post(
                s_eval_call(old(self)@, ctx.dot@, name@, args@, opt_view(*fin)),
                r,
                final(self)@,
            ),
            final(self).depth == old(self).depth,
            final(self).vars@.len() == old(self).vars@.len(),
        decreases args@, 3int, 0int,
    {
        match self.eval_args(ctx, args, 1) {
            Err(e) => Err(e),
            Ok(mut vals) => {
                let ghost pre = vals_view(vals@);
                match fin {
                    Some(f) => {
                        let ghost fv = f@;
                        let ghost vs0 = vals@;
                        vals.push(f.deep_clone());
                        proof {
                            lemma_vals_view(vs0);
                            lemma_vals_view(vals@);
                            assert forall|j: int| 0 <= j < vals@.len() implies vals_view(vals@)[j]
                                == pre.push(fv)[j] by {
                                if j < vals@.len() - 1 {
                                    assert(vals@[j] == vs0[j]);
                                    assert(vals_view(vals@)[j] == vals@[j]@);
                                    assert(pre[j] == vs0[j]@);
                                }
                            }
                            assert(vals_view(vals@) =~= pre.push(fv));
                        }
                    },
                    None => {},
                }
                call_builtin(name, &vals)
            },
        }
    }

    /// Evaluates the argument nodes from `i` on, in order.
    fn eval_args(&mut self, ctx: &Context, args: &Vec<Node>, i: usize) -> (r: Result<
        Vec<Value>,
        EngineError,
    >)
        requires
            old(self).vars@.len() >= 1,
        ensures
            ({
                let a = s_eval_args(old(self)@, ctx.dot@, args@, i as int);
                &&& match r {
                    Ok(vs) => a.res matches Ok(ms) && vals_view(vs@) == ms,
                    Err(e) => a.res matches Err(x) && x == e,
                }
                &&& final(self)@ == a.vars
            }),
            final(self).depth == old(self).depth,
            final(self).vars@.len() == old(self).vars@.len(),
        decreases args@, 2int, args@.len() - i,
    {
        if i >= args.len() {
            let empty: Vec<Value> = Vec::new();
            proof {
                assert(vals_view(empty@) =~= Seq::<ValM>::empty());
            }
            Ok(empty)
        } else {
            match self.eval_arg(ctx, &args[i]) {
                Err(e) => Err(e),
                Ok(v) => {
                    let ghost vv = v@;
                    match self.eval_args(ctx, args, i + 1) {
                        Err(e) => Err(e),
                        Ok(mut rest) => {
                            let ghost restm = vals_view(rest@);
                            proof {
                                lemma_vals_view(rest@);
                            }
                            rest.insert(0, v);
                            proof {
                                lemma_vals_view(rest@);
                                assert forall|j: int| 0 <= j < vals_view(rest@).len() implies
                                    vals_view(rest@)[j] == (seq![vv] + restm)[j] by {
                                    if j == 0 {
                                        assert(rest@[0]@ == vv);
                                    } else {
                                        assert(rest@[j]@ == restm[j - 1]);
                                    }
                                }
                                assert(vals_view(rest@) =~= seq![vv] + restm);
                            }
                            Ok(rest)
                        },
                    }
                },
            }
        }
    }

    /// Evaluates one argument node.
    fn eval_arg(&mut self, ctx: &Context, node: &Node) -> (r: Result<Value, EngineError>)
        requires
            old(self).vars@.len() >= 1,
        ensures
            eval_post(s_eval_arg(old(self)@, ctx.dot@, *node), r, final(self)@),
            final(self).depth == old(self).depth,
            final(self).vars@.len() == old(self).vars@.len(),
        decreases *node, 2int, 0int,
    {
        match node {
            Node::Dot => Ok(ctx.dot.deep_clone()),
            Node::Field(ident) => eval_field_chain(&ctx.dot, ident, 0, false),
            Node::Variable(ident) => self.eval_variable_node(ident, false),
            Node::Pipe(p) => self.eval_pipeline(ctx, p),
            Node::Chain { .. } => self.eval_chain_node(ctx, node, false),
            Node::Str(s) => Ok(Value::Str(s.clone())),
            Node::Bool(b) => Ok(Value::Bool(*b)),
            Node::Number(v) => Ok(v.deep_clone()),
            _ => Err(EngineError::UnsupportedArg),
        }
    }

    /// Evaluates a chain node: its base expression, then its field chain.
    fn eval_chain_node(&mut self, ctx: &Context, node: &Node, hargs: bool) -> (r: Result<
        Value,
        EngineError,
    >)
        requires
            old(self).vars@.len() >= 1,
        ensures
            eval_post(s_eval_chain(old(self)@, ctx.dot@, *node, hargs), r, final(self)@),
            final(self).depth == old(self).depth,
            final(self).vars@.len() == old(self).vars@.len(),
        decreases *node, 1int, 0int,
    {
        match node {
            Node::Chain { base, fields } => {
                if fields.len() == 0 {
                    return Err(EngineError::MalformedTree);
                }
                if matches!(&**base, Node::Nil) {
                    return Err(EngineError::IndirectionThroughNil);
                }
                match self.eval_arg(ctx, &**base) {
                    Err(e) => Err(e),
                    Ok(v) => eval_field_chain(&v, fields, 0, hargs),
                }
            },
            _ => Err(EngineError::MalformedTree),
        }
    }
}

/// Builds the iteration pairs of a value: `(index, element)` for a
/// sequence, `(key, entry)` for a mapping or record in stored order.
fn build_pairs(v: &Value) -> (r: Option<Vec<(Value, Value)>>)
    ensures
        match iter_pairs(v@) {
            Some(ms) => r matches Some(ps) && kv_view(ps@) == ms,
            None => r is None,
        },
{
    match v {
        Value::Arr(vs) => {
            proof {
                lemma_vals_view(vs@);
            }
            let mut out: Vec<(Value, Value)> = Vec::new();
            let mut i: usize = 0;
            while i < vs.len()
                invariant
                    i <= vs@.len(),
                    out@.len() == i,
                    vals_view(vs@).len() == vs@.len(),
                    forall|j: int| 0 <= j < vs@.len() ==> vals_view(vs@)[j] == #[trigger] vs@[j]@,
                    forall|j: int| 0 <= j < i ==> #[trigger] out@[j].0@ == ValM::Int(j)
                        && out@[j].1@ == vs@[j]@,
                decreases vs@.len() - i,
            {
                out.push((Value::Int(i as i128), vs[i].deep_clone()));
                i += 1;
            }
            proof {
                assert(kv_view(out@) =~= iter_pairs(v@).unwrap());
            }
            Some(out)
        },
        Value::MapV(ps) => Some(build_entry_pairs(ps)),
        Value::Obj(ps) => Some(build_entry_pairs(ps)),
        _ => None,
    }
}

fn build_entry_pairs(ps: &Vec<Pair>) -> (r: Vec<(Value, Value)>)
    ensures
        kv_view(r@) == Seq::new(
            pairs_view(ps@).len(),
            |i: int| (
                ValM::Str(pairs_view(ps@)[i].0),
                pairs_view(ps@)[i].1,
            ),
        ),
{
    proof {
        lemma_pairs_view(ps@);
    }
    let mut out: Vec<(Value, Value)> = Vec::new();
    let mut i: usize = 0;
    while i < ps.len()
        invariant
            i <= ps@.len(),
            out@.len() == i,
            pairs_view(ps@).len() == ps@.len(),
            forall|j: int| 0 <= j < ps@.len() ==> pairs_view(ps@)[j] == ((
                #[trigger] ps@[j]).key@,
                ps@[j].val@,
            ),
            forall|j: int| 0 <= j < i ==> #[trigger] out@[j].0@ == ValM::Str(ps@[j].key@)
                && out@[j].1@ == ps@[j].val@,
        decreases ps@.len() - i,
    {
        out.push((Value::Str(ps[i].key.clone()), ps[i].val.deep_clone()));
        i += 1;
    }
    proof {
        assert(kv_view(out@) =~= Seq::new(
            pairs_view(ps@).len(),
            |i: int| (
                ValM::Str(pairs_view(ps@)[i].0),
                pairs_view(ps@)[i].1,
            ),
        ));
    }
    out
}

impl State {
    /// The top-level walk: dispatches on the node kind and drives output.
    fn walk(&mut self, t: &Template, out: &mut String, ctx: &Context, node: &Node) -> (r: Result<
        (),
        EngineError,
    >)
        requires
            old(self).vars@.len() >= 1,
            old(self).depth <= MAX_TEMPLATE_DEPTH,
        ensures
            walk_post(
                s_walk(*t, fuel_of(old(self).depth), old(self)@, ctx.dot@, *node),
                r,
                old(out)@,
                final(out)@,
                final(self)@,
            ),
            final(self).depth == old(self).depth,
            final(self).vars@.len() == old(self).vars@.len(),
        decreases MAX_TEMPLATE_DEPTH - self.depth, *node, 2int, 0int,
    {
        proof {
            assert(old(out)@ + Seq::<char>::empty() =~= old(out)@);
        }
        match node {
            Node::Text(s) => {
                out.append(s.as_str());
                Ok(())
            },
            Node::Action(p) => {
                match self.eval_pipeline(ctx, p) {
                    Err(e) => Err(e),
                    Ok(v) => {
                        if p.decl.len() > 0 {
                            Ok(())
                        } else {
                            print_value(out, &v)
                        }
                    },
                }
            },
            Node::List(ns) => self.walk_list(t, out, ctx, ns, 0),
            Node::If(b) => self.walk_if_or_with(t, out, ctx, b, false),
            Node::With(b) => self.walk_if_or_with(t, out, ctx, b, true),
            Node::Range(b) => self.walk_range(t, out, ctx, b),
            Node::TemplateCall { name, pipe } => self.walk_template(t, out, ctx, name, pipe),
            _ => Err(EngineError::MalformedTree),
        }
    }

    /// Walks the children of a list from `i` on; the first failure aborts.
    fn walk_list(
        &mut self,
        t: &Template,
        out: &mut String,
        ctx: &Context,
        nodes: &Vec<Node>,
        i: usize,
    ) -> (r: Result<(), EngineError>)
        requires
            old(self).vars@.len() >= 1,
            old(self).depth <= MAX_TEMPLATE_DEPTH,
        ensures
            walk_post(
                s_walk_list(*t, fuel_of(old(self).depth), old(self)@, ctx.dot@, nodes@, i as int),
                r,
                old(out)@,
                final(out)@,
                final(self)@,
            ),
            final(self).depth == old(self).depth,
            final(self).vars@.len() == old(self).vars@.len(),
        decreases MAX_TEMPLATE_DEPTH - self.depth, nodes@, 2int, nodes@.len() - i,
    {
        if i >= nodes.len() {
            proof {
                assert(old(out)@ + Seq::<char>::empty() =~= old(out)@);
            }
            Ok(())
        } else {
            let ghost w = s_walk(*t, fuel_of(self.depth), self@, ctx.dot@, nodes@[i as int]);
            match self.walk(t, out, ctx, &nodes[i]) {
                Err(e) => Err(e),
                Ok(_) => {
                    let ghost mid = out@;
                    let r = self.walk_list(t, out, ctx, nodes, i + 1);
                    proof {
                        let rest = s_walk_list(
                            *t,
                            fuel_of(old(self).depth),
                            w.vars,
                            ctx.dot@,
                            nodes@,
                            i + 1,
                        );
                        assert(out@ =~= old(out)@ + (w.out + rest.out));
                    }
                    r
                },
            }
        }
    }

    /// Walks an `if` or `with` node: both test the guard pipeline's truth;
    /// `with` additionally rebinds dot for its body.
    fn walk_if_or_with(
        &mut self,
        t: &Template,
        out: &mut String,
        ctx: &Context,
        b: &Branch,
        is_with: bool,
    ) -> (r: Result<(), EngineError>)
        requires
            old(self).vars@.len() >= 1,
            old(self).depth <= MAX_TEMPLATE_DEPTH,
        ensures
            walk_post(
                s_if_with(*t, fuel_of(old(self).depth), old(self)@, ctx.dot@, *b, is_with),
                r,
                old(out)@,
                final(out)@,
                final(self)@,
            ),
            final(self).depth == old(self).depth,
            final(self).vars@.len() == old(self).vars@.len(),
        decreases MAX_TEMPLATE_DEPTH - self.depth, *b, 2int, 0int,
    {
        proof {
            assert(old(out)@ + Seq::<char>::empty() =~= old(out)@);
        }
        match self.eval_pipeline(ctx, &b.pipe) {
            Err(e) => Err(e),
            Ok(v) => {
                if is_true(&v) {
                    if is_with {
                        let ctx2 = Context { dot: v };
                        self.walk_list(t, out, &ctx2, &b.body, 0)
                    } else {
                        self.walk_list(t, out, ctx, &b.body, 0)
                    }
                } else {
                    match &b.else_body {
                        Some(ns) => self.walk_list(t, out, ctx, ns, 0),
                        None => Ok(()),
                    }
                }
            },
        }
    }

    /// One `range` iteration: rebind the declared variables, push a frame,
    /// walk the body with dot set to the element, pop the frame on every
    /// exit path.
    fn one_iteration(
        &mut self,
        t: &Template,
        out: &mut String,
        key: &Value,
        val: &Value,
        b: &Branch,
    ) -> (r: Result<(), EngineError>)
        requires
            old(self).vars@.len() >= 1,
            old(self).depth <= MAX_TEMPLATE_DEPTH,
        ensures
            walk_post(
                s_one_iter(*t, fuel_of(old(self).depth), old(self)@, *b, key@, val@),
                r,
                old(out)@,
                final(out)@,
                final(self)@,
            ),
            final(self).depth == old(self).depth,
            final(self).vars@.len() == old(self).vars@.len(),
        decreases MAX_TEMPLATE_DEPTH - self.depth, *b, 0int, 0int,
    {
        proof {
            assert(old(out)@ + Seq::<char>::empty() =~= old(out)@);
        }
        if b.pipe.decl.len() > 0 {
            match self.set_kth_last_var_value(1, val.deep_clone()) {
                Err(e) => {
                    return Err(e);
                },
                Ok(_) => {},
            }
        }
        if b.pipe.decl.len() > 1 {
            match self.set_kth_last_var_value(2, key.deep_clone()) {
                Err(e) => {
                    return Err(e);
                },
                Ok(_) => {},
            }
        }
        self.push_frame();
        let ctx2 = Context { dot: val.deep_clone() };
        let r = self.walk_list(t, out, &ctx2, &b.body, 0);
        self.pop_frame();
        r
    }

    /// The `range` iterations from `i` on.
    fn range_iters(
        &mut self,
        t: &Template,
        out: &mut String,
        b: &Branch,
        pairs: &Vec<(Value, Value)>,
        i: usize,
    ) -> (r: Result<(), EngineError>)
        requires
            old(self).vars@.len() >= 1,
            old(self).depth <= MAX_TEMPLATE_DEPTH,
        ensures
            walk_post(
                s_range_iters(
                    *t,
                    fuel_of(old(self).depth),
                    old(self)@,
                    *b,
                    kv_view(pairs@),
                    i as int,
                ),
                r,
                old(out)@,
                final(out)@,
                final(self)@,
            ),
            final(self).depth == old(self).depth,
            final(self).vars@.len() == old(self).vars@.len(),
        decreases MAX_TEMPLATE_DEPTH - self.depth, *b, 1int, pairs@.len() - i,
    {
        if i >= pairs.len() {
            proof {
                assert(old(out)@ + Seq::<char>::empty() =~= old(out)@);
            }
            Ok(())
        } else {
            proof {
                assert(kv_view(pairs@)[i as int] == (pairs@[i as int].0@, pairs@[i as int].1@));
            }
            let ghost w = s_one_iter(
                *t,
                fuel_of(self.depth),
                self@,
                *b,
                pairs@[i as int].0@,
                pairs@[i as int].1@,
            );
            match self.one_iteration(t, out, &pairs[i].0, &pairs[i].1, b) {
                Err(e) => Err(e),
                Ok(_) => {
                    let r = self.range_iters(t, out, b, pairs, i + 1);
                    proof {
                        let rest = s_range_iters(
                            *t,
                            fuel_of(old(self).depth),
                            w.vars,
                            *b,
                            kv_view(pairs@),
                            i + 1,
                        );
                        assert(out@ =~= old(out)@ + (w.out + rest.out));
                    }
                    r
                },
            }
        }
    }

    /// Walks a `range` node: iterate the pairs of the pipeline's value, or
    /// walk the else body when there are none; a non-iterable value fails.
    fn walk_range(
        &mut self,
        t: &Template,
        out: &mut String,
        ctx: &Context,
        b: &Branch,
    ) -> (r: Result<(), EngineError>)
        requires
            old(self).vars@.len() >= 1,
            old(self).depth <= MAX_TEMPLATE_DEPTH,
        ensures
            walk_post(
                s_walk(*t, fuel_of(old(self).depth), old(self)@, ctx.dot@, Node::Range(*b)),
                r,
                old(out)@,
                final(out)@,
                final(self)@,
            ),
            final(self).depth == old(self).depth,
            final(self).vars@.len() == old(self).vars@.len(),
        decreases MAX_TEMPLATE_DEPTH - self.depth, *b, 2int, 0int,
    {
        proof {
            assert(old(out)@ + Seq::<char>::empty() =~= old(out)@);
        }
        match self.eval_pipeline(ctx, &b.pipe) {
            Err(e) => Err(e),
            Ok(v) => {
                match build_pairs(&v) {
                    None => Err(EngineError::RangeNotIterable),
                    Some(pairs) => {
                        if pairs.len() == 0 {
                            match &b.else_body {
                                Some(ns) => self.walk_list(t, out, ctx, ns, 0),
                                None => Ok(()),
                            }
                        } else {
                            self.range_iters(t, out, b, &pairs, 0)
                        }
                    },
                }
            },
        }
    }

    /// Walks a template invocation: evaluate the new dot against the
    /// caller's context, then walk the named root in a fresh state.
    fn walk_template(
        &mut self,
        t: &Template,
        out: &mut String,
        ctx: &Context,
        name: &String,
        pipe: &Option<Pipe>,
    ) -> (r: Result<(), EngineError>)
        requires
            old(self).vars@.len() >= 1,
            old(self).depth <= MAX_TEMPLATE_DEPTH,
        ensures
            walk_post(
                s_template_call(
                    *t,
                    fuel_of(old(self).depth),
                    old(self)@,
                    ctx.dot@,
                    name@,
                    *pipe,
                ),
                r,
                old(out)@,
                final(out)@,
                final(self)@,
            ),
            final(self).depth == old(self).depth,
            final(self).vars@.len() == old(self).vars@.len(),
        decreases MAX_TEMPLATE_DEPTH - self.depth, *pipe, 1int, 0int,
    {
        proof {
            assert(old(out)@ + Seq::<char>::empty() =~= old(out)@);
        }
        let nd = match pipe {
            Some(p) => match self.eval_pipeline(ctx, p) {
                Err(e) => {
                    return Err(e);
                },
                Ok(v) => v,
            },
            None => ctx.dot.deep_clone(),
        };
        match find_tree(&t.tree_set, t.tree_set.len(), name) {
            None => Err(EngineError::UnknownTemplate),
            Some(entry) => match &entry.root {
                None => Err(EngineError::IncompleteTemplate),
                Some(root) => {
                    if self.depth >= MAX_TEMPLATE_DEPTH {
                        Err(EngineError::TemplateRecursionTooDeep)
                    } else {
                        let mut fresh = State::with_root(&nd, self.depth + 1);
                        let ctx2 = Context { dot: nd };
                        let r = fresh.walk(t, out, &ctx2, root);
                        proof {
                            assert(fuel_of((old(self).depth + 1) as usize) == (fuel_of(
                                old(self).depth,
                            ) - 1) as nat);
                        }
                        r
                    }
                },
            },
        }
    }
}

} // verus!
