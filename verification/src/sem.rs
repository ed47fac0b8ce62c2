//! The meaning of a template: a specification-level interpreter over the
//! node tree and the mathematical value model. Every walker function of the
//! engine is proved to return exactly what these functions say.

use vstd::prelude::*;
use crate::errors::EngineError;
use crate::node::{Node, Pipe, Command, Branch, Template, s_find_tree, s_find_id};
use crate::value::{ValM, names_view, is_true_m, text_of, s_field_chain};
use crate::vars::{StackM, s_lookup_var, s_declare, s_set_kth_last};
use crate::funcs::{is_builtin, s_call_builtin};

verus! {

/// The ceiling on nested template invocations: deeper nesting fails with
/// `TemplateRecursionTooDeep` instead of exhausting the host stack.
pub const MAX_TEMPLATE_DEPTH: usize = 64;

/// The outcome of evaluating an expression: a value or an error, plus the
/// variable stack as the evaluation left it.
#[verifier::ext_equal]
pub struct EvalOut {
    pub res: Result<ValM, EngineError>,
    pub vars: StackM,
}

/// The outcome of evaluating an argument list.
#[verifier::ext_equal]
pub struct ArgsOut {
    pub res: Result<Seq<ValM>, EngineError>,
    pub vars: StackM,
}

/// The outcome of walking a node: the text it contributed to the sink, the
/// error that aborted it if any, and the variable stack it left.
#[verifier::ext_equal]
pub struct WalkOut {
    pub err: Option<EngineError>,
    pub out: Seq<char>,
    pub vars: StackM,
}

/// Appends each declared name in turn, every one bound to the same value.
pub open spec fn s_declare_all(st: StackM, decls: Seq<Seq<char>>, i: int, v: ValM) -> StackM
    decreases decls.len() - i,
{
    if i < 0 || i >= decls.len() {
        st
    } else {
        s_declare_all(s_declare(st, decls[i], v), decls, i + 1, v)
    }
}

/// The iteration pairs of a value: index and element for a sequence, key
/// and entry value for a mapping or record in stored order; `None` for
/// anything else.
pub open spec fn iter_pairs(v: ValM) -> Option<Seq<(ValM, ValM)>> {
    match v {
        ValM::Arr(vs) => Some(Seq::new(vs.len(), |i: int| (ValM::Int(i), vs[i]))),
        ValM::MapV(ps) => Some(Seq::new(ps.len(), |i: int| (ValM::Str(ps[i].0), ps[i].1))),
        ValM::Obj(ps) => Some(Seq::new(ps.len(), |i: int| (ValM::Str(ps[i].0), ps[i].1))),
        _ => None,
    }
}

/// Resolving a `$name` reference and its optional field chain.
pub open spec fn s_eval_variable(st: StackM, names: Seq<Seq<char>>, hargs: bool) -> Result<
    ValM,
    EngineError,
> {
    if names.len() == 0 {
        Err(EngineError::MalformedTree)
    } else {
        match s_lookup_var(st, names[0]) {
            None => Err(EngineError::UnboundVariable),
            Some(v) => if names.len() == 1 {
                if hargs {
                    Err(EngineError::NotAFunction)
                } else {
                    Ok(v)
                }
            } else {
                s_field_chain(v, names, 1, hargs)
            },
        }
    }
}

/// A pipeline: its commands folded left to right, then each declared name
/// bound to the final value.
pub open spec fn s_eval_pipe(st: StackM, dot: ValM, p: Pipe) -> EvalOut
    decreases p, 2int, 0int,
{
    let c = s_eval_cmds(st, dot, p.cmds@, 0, None);
    match c.res {
        Err(e) => EvalOut { res: Err(e), vars: c.vars },
        Ok(v) => EvalOut { res: Ok(v), vars: s_declare_all(c.vars, names_view(p.decl@), 0, v) },
    }
}

/// The commands from `i` on, the previous command's value passed as the
/// implicit trailing argument of the next.
pub open spec fn s_eval_cmds(
    st: StackM,
    dot: ValM,
    cs: Seq<Command>,
    i: int,
    prev: Option<ValM>,
) -> EvalOut
    decreases cs, 2int, cs.len() - i,
{
    if i < 0 || i >= cs.len() {
        match prev {
            Some(v) => EvalOut { res: Ok(v), vars: st },
            None => EvalOut { res: Err(EngineError::MalformedTree), vars: st },
        }
    } else {
        let e = s_eval_cmd(st, dot, cs[i], prev);
        match e.res {
            Err(_) => e,
            Ok(v) => s_eval_cmds(e.vars, dot, cs, i + 1, Some(v)),
        }
    }
}

/// One command: its first node selects the strategy, the remaining nodes
/// are arguments; a non-function first node refuses arguments and trailing
/// input.
pub open spec fn s_eval_cmd(st: StackM, dot: ValM, c: Command, fin: Option<ValM>) -> EvalOut
    decreases c, 2int, 0int,
{
    if c.args@.len() == 0 {
        EvalOut { res: Err(EngineError::MalformedTree), vars: st }
    } else {
        let first = c.args@[0];
        let hargs = c.args@.len() > 1 || fin is Some;
        match first {
            Node::Field(ident) => EvalOut {
                res: s_field_chain(dot, names_view(ident@), 0, hargs),
                vars: st,
            },
            Node::Variable(ident) => EvalOut {
                res: s_eval_variable(st, names_view(ident@), hargs),
                vars: st,
            },
            Node::Pipe(p) => s_eval_pipe(st, dot, p),
            Node::Chain { .. } => s_eval_chain(st, dot, first, hargs),
            Node::Ident(name) => s_eval_call(st, dot, name@, c.args@, fin),
            _ => if hargs {
                EvalOut { res: Err(EngineError::NotAFunction), vars: st }
            } else {
                match first {
                    Node::Bool(b) => EvalOut { res: Ok(ValM::Bool(b)), vars: st },
                    Node::Dot => EvalOut { res: Ok(dot), vars: st },
                    Node::Number(v) => EvalOut { res: Ok(v@), vars: st },
                    Node::Str(s) => EvalOut { res: Ok(ValM::Str(s@)), vars: st },
                    _ => EvalOut { res: Err(EngineError::MalformedTree), vars: st },
                }
            },
        }
    }
}

/// A function call: the identifier must be registered, the argument nodes
/// are evaluated in order, and the trailing input, if any, is appended as
/// the last argument.
pub open spec fn s_eval_call(
    st: StackM,
    dot: ValM,
    name: Seq<char>,
    args: Seq<Node>,
    fin: Option<ValM>,
) -> EvalOut
    decreases args, 3int, 0int,
{
    if !is_builtin(name) {
        EvalOut { res: Err(EngineError::UnknownFunction), vars: st }
    } else {
        let a = s_eval_args(st, dot, args, 1);
        match a.res {
            Err(e) => EvalOut { res: Err(e), vars: a.vars },
            Ok(vals) => EvalOut {
                res: s_call_builtin(
                    name,
                    match fin {
                        Some(f) => vals.push(f),
                        None => vals,
                    },
                ),
                vars: a.vars,
            },
        }
    }
}

/// The argument nodes from `i` on, each evaluated with no arguments of its
/// own and no trailing input.
pub open spec fn s_eval_args(st: StackM, dot: ValM, args: Seq<Node>, i: int) -> ArgsOut
    decreases args, 2int, args.len() - i,
{
    if i < 0 || i >= args.len() {
        ArgsOut { res: Ok(Seq::empty()), vars: st }
    } else {
        let e = s_eval_arg(st, dot, args[i]);
        match e.res {
            Err(err) => ArgsOut { res: Err(err), vars: e.vars },
            Ok(v) => {
                let rest = s_eval_args(e.vars, dot, args, i + 1);
                match rest.res {
                    Err(err) => ArgsOut { res: Err(err), vars: rest.vars },
                    Ok(vs) => ArgsOut { res: Ok(seq![v] + vs), vars: rest.vars },
                }
            },
        }
    }
}

/// One argument node.
pub open spec fn s_eval_arg(st: StackM, dot: ValM, n: Node) -> EvalOut
    decreases n, 2int, 0int,
{
    match n {
        Node::Dot => EvalOut { res: Ok(dot), vars: st },
        Node::Field(ident) => EvalOut {
            res: s_field_chain(dot, names_view(ident@), 0, false),
            vars: st,
        },
        Node::Variable(ident) => EvalOut {
            res: s_eval_variable(st, names_view(ident@), false),
            vars: st,
        },
        Node::Pipe(p) => s_eval_pipe(st, dot, p),
        Node::Chain { .. } => s_eval_chain(st, dot, n, false),
        Node::Str(s) => EvalOut { res: Ok(ValM::Str(s@)), vars: st },
        Node::Bool(b) => EvalOut { res: Ok(ValM::Bool(b)), vars: st },
        Node::Number(v) => EvalOut { res: Ok(v@), vars: st },
        _ => EvalOut { res: Err(EngineError::UnsupportedArg), vars: st },
    }
}

/// A chain node: a non-empty field list over a base that must not be
/// explicit nil.
pub open spec fn s_eval_chain(st: StackM, dot: ValM, n: Node, hargs: bool) -> EvalOut
    decreases n, 1int, 0int,
{
    match n {
        Node::Chain { base, fields } => {
            if fields@.len() == 0 {
                EvalOut { res: Err(EngineError::MalformedTree), vars: st }
            } else if *base is Nil {
                EvalOut { res: Err(EngineError::IndirectionThroughNil), vars: st }
            } else {
                let b = s_eval_arg(st, dot, *base);
                match b.res {
                    Err(e) => EvalOut { res: Err(e), vars: b.vars },
                    Ok(v) => EvalOut {
                        res: s_field_chain(v, names_view(fields@), 0, hargs),
                        vars: b.vars,
                    },
                }
            }
        },
        _ => EvalOut { res: Err(EngineError::MalformedTree), vars: st },
    }
}

/// Walking one node against the current dot.
pub open spec fn s_walk(t: Template, fuel: nat, st: StackM, dot: ValM, n: Node) -> WalkOut
    decreases fuel, n, 2int, 0int,
{
    match n {
        Node::Text(s) => WalkOut { err: None, out: s@, vars: st },
        Node::Action(p) => {
            let e = s_eval_pipe(st, dot, p);
            match e.res {
                Err(err) => WalkOut { err: Some(err), out: Seq::empty(), vars: e.vars },
                Ok(v) => if p.decl@.len() > 0 {
                    WalkOut { err: None, out: Seq::empty(), vars: e.vars }
                } else {
                    match text_of(v) {
                        Some(txt) => WalkOut { err: None, out: txt, vars: e.vars },
                        None => WalkOut {
                            err: Some(EngineError::UnformattableValue),
                            out: Seq::empty(),
                            vars: e.vars,
                        },
                    }
                },
            }
        },
        Node::List(ns) => s_walk_list(t, fuel, st, dot, ns@, 0),
        Node::If(b) => s_if_with(t, fuel, st, dot, b, false),
        Node::With(b) => s_if_with(t, fuel, st, dot, b, true),
        Node::Range(b) => {
            let e = s_eval_pipe(st, dot, b.pipe);
            match e.res {
                Err(err) => WalkOut { err: Some(err), out: Seq::empty(), vars: e.vars },
                Ok(v) => match iter_pairs(v) {
                    None => WalkOut {
                        err: Some(EngineError::RangeNotIterable),
                        out: Seq::empty(),
                        vars: e.vars,
                    },
                    Some(prs) => if prs.len() == 0 {
                        match b.else_body {
                            Some(ns) => s_walk_list(t, fuel, e.vars, dot, ns@, 0),
                            None => WalkOut { err: None, out: Seq::empty(), vars: e.vars },
                        }
                    } else {
                        s_range_iters(t, fuel, e.vars, b, prs, 0)
                    },
                },
            }
        },
        Node::TemplateCall { name, pipe } => s_template_call(t, fuel, st, dot, name@, pipe),
        _ => WalkOut { err: Some(EngineError::MalformedTree), out: Seq::empty(), vars: st },
    }
}

/// A template invocation: the optional pipeline, evaluated against the
/// caller's context, supplies the new dot; the named root is walked in a
/// fresh single-frame stack binding `$` to that dot, the caller's stack
/// untouched by the body.
pub open spec fn s_template_call(
    t: Template,
    fuel: nat,
    st: StackM,
    dot: ValM,
    name: Seq<char>,
    pipe: Option<Pipe>,
) -> WalkOut
    decreases fuel, pipe, 1int, 0int,
{
    let e = match pipe {
        Some(p) => s_eval_pipe(st, dot, p),
        None => EvalOut { res: Ok(dot), vars: st },
    };
    match e.res {
        Err(err) => WalkOut { err: Some(err), out: Seq::empty(), vars: e.vars },
        Ok(nd) => match s_find_tree(t.tree_set@, t.tree_set@.len() as int, name) {
            None => WalkOut {
                err: Some(EngineError::UnknownTemplate),
                out: Seq::empty(),
                vars: e.vars,
            },
            Some(None) => WalkOut {
                err: Some(EngineError::IncompleteTemplate),
                out: Seq::empty(),
                vars: e.vars,
            },
            Some(Some(root)) => if fuel == 0 {
                WalkOut {
                    err: Some(EngineError::TemplateRecursionTooDeep),
                    out: Seq::empty(),
                    vars: e.vars,
                }
            } else {
                let w = s_walk(t, (fuel - 1) as nat, seq![seq![("$"@, nd)]], nd, root);
                WalkOut { err: w.err, out: w.out, vars: e.vars }
            },
        },
    }
}

/// Walking the nodes of a list from `i` on, in order; the first failure
/// aborts, keeping the text written so far.
pub open spec fn s_walk_list(
    t: Template,
    fuel: nat,
    st: StackM,
    dot: ValM,
    ns: Seq<Node>,
    i: int,
) -> WalkOut
    decreases fuel, ns, 2int, ns.len() - i,
{
    if i < 0 || i >= ns.len() {
        WalkOut { err: None, out: Seq::empty(), vars: st }
    } else {
        let w = s_walk(t, fuel, st, dot, ns[i]);
        match w.err {
            Some(_) => w,
            None => {
                let rest = s_walk_list(t, fuel, w.vars, dot, ns, i + 1);
                WalkOut { err: rest.err, out: w.out + rest.out, vars: rest.vars }
            },
        }
    }
}

/// `if` and `with` share one shape: walk the body when the guard value is
/// true — `with` rebinding dot to that value, `if` keeping it — and walk
/// the else body, dot unchanged, when it is not.
pub open spec fn s_if_with(
    t: Template,
    fuel: nat,
    st: StackM,
    dot: ValM,
    b: Branch,
    is_with: bool,
) -> WalkOut
    decreases fuel, b, 2int, 0int,
{
    let e = s_eval_pipe(st, dot, b.pipe);
    match e.res {
        Err(err) => WalkOut { err: Some(err), out: Seq::empty(), vars: e.vars },
        Ok(v) => if is_true_m(v) {
            s_walk_list(t, fuel, e.vars, if is_with { v } else { dot }, b.body@, 0)
        } else {
            match b.else_body {
                Some(ns) => s_walk_list(t, fuel, e.vars, dot, ns@, 0),
                None => WalkOut { err: None, out: Seq::empty(), vars: e.vars },
            }
        },
    }
}

/// One `range` iteration: rebind the declared element and key variables in
/// the top frame, push a fresh frame, walk the body with dot set to the
/// element, and pop the frame on every exit path.
pub open spec fn s_one_iter(
    t: Template,
    fuel: nat,
    st: StackM,
    b: Branch,
    key: ValM,
    v: ValM,
) -> WalkOut
    decreases fuel, b, 0int, 0int,
{
    let st1 = if b.pipe.decl@.len() > 0 {
        s_set_kth_last(st, 1, v)
    } else {
        Ok(st)
    };
    match st1 {
        Err(e) => WalkOut { err: Some(e), out: Seq::empty(), vars: st },
        Ok(st1) => {
            let st2 = if b.pipe.decl@.len() > 1 {
                s_set_kth_last(st1, 2, key)
            } else {
                Ok(st1)
            };
            match st2 {
                Err(e) => WalkOut { err: Some(e), out: Seq::empty(), vars: st1 },
                Ok(st2) => {
                    let w = s_walk_list(t, fuel, st2.push(Seq::empty()), v, b.body@, 0);
                    WalkOut { err: w.err, out: w.out, vars: w.vars.drop_last() }
                },
            }
        },
    }
}

/// The `range` iterations from `i` on; after the pairs are exhausted the
/// else body is not walked.
pub open spec fn s_range_iters(
    t: Template,
    fuel: nat,
    st: StackM,
    b: Branch,
    prs: Seq<(ValM, ValM)>,
    i: int,
) -> WalkOut
    decreases fuel, b, 1int, prs.len() - i,
{
    if i < 0 || i >= prs.len() {
        WalkOut { err: None, out: Seq::empty(), vars: st }
    } else {
        let w = s_one_iter(t, fuel, st, b, prs[i].0, prs[i].1);
        match w.err {
            Some(_) => w,
            None => {
                let rest = s_range_iters(t, fuel, w.vars, b, prs, i + 1);
                WalkOut { err: rest.err, out: w.out + rest.out, vars: rest.vars }
            },
        }
    }
}

/// The root tree of the template: located through id 1.
pub open spec fn s_root(t: Template) -> Option<Node> {
    match s_find_id(t.tree_ids@, t.tree_ids@.len() as int, 1) {
        None => None,
        Some(nm) => match s_find_tree(t.tree_set@, t.tree_set@.len() as int, nm) {
            Some(Some(root)) => Some(root),
            _ => None,
        },
    }
}

/// What a whole render does: walk the root tree against the given dot with
/// a fresh single-frame stack binding `$`, or fail `IncompleteTemplate`
/// when there is no root.
pub open spec fn s_execute(t: Template, dot: ValM) -> WalkOut {
    match s_root(t) {
        None => WalkOut {
            err: Some(EngineError::IncompleteTemplate),
            out: Seq::empty(),
            vars: seq![seq![("$"@, dot)]],
        },
        Some(root) => s_walk(
            t,
            MAX_TEMPLATE_DEPTH as nat,
            seq![seq![("$"@, dot)]],
            dot,
            root,
        ),
    }
}

} // verus!
