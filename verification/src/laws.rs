//! The engine's laws: properties that hold of every render, stated over the
//! specification interpreter and proved once and for all.

use vstd::prelude::*;
use crate::errors::EngineError;
use crate::node::{Node, Pipe, Command, Branch, Template};
use crate::value::{ValM, is_true_m, text_of, names_view, s_field_one, s_lookup_pairs};
use crate::vars::{StackM, s_declare, s_set_kth_last};
use crate::sem::{
    EvalOut, WalkOut, MAX_TEMPLATE_DEPTH, s_eval_pipe, s_eval_cmds, s_eval_cmd, s_eval_call, s_eval_args, s_eval_arg,
    s_eval_chain, s_declare_all, iter_pairs, s_walk, s_walk_list, s_if_with, s_one_iter,
    s_range_iters, s_template_call, s_root, s_execute,
};

verus! {

/// Binding names never changes the number of live frames.
pub proof fn lemma_declare_all_frames(st: StackM, decls: Seq<Seq<char>>, i: int, v: ValM)
    ensures
        s_declare_all(st, decls, i, v).len() == st.len(),
    decreases decls.len() - i,
{
    if 0 <= i < decls.len() {
        lemma_declare_all_frames(s_declare(st, decls[i], v), decls, i + 1, v);
    }
}

pub proof fn lemma_eval_pipe_frames(st: StackM, dot: ValM, p: Pipe)
    ensures
        s_eval_pipe(st, dot, p).vars.len() == st.len(),
    decreases p, 2int, 0int,
{
    lemma_eval_cmds_frames(st, dot, p.cmds@, 0, None);
    let c = s_eval_cmds(st, dot, p.cmds@, 0, None);
    match c.res {
        Ok(v) => {
            lemma_declare_all_frames(c.vars, names_view(p.decl@), 0, v);
        },
        Err(_) => {},
    }
}

pub proof fn lemma_eval_cmds_frames(
    st: StackM,
    dot: ValM,
    cs: Seq<Command>,
    i: int,
    prev: Option<ValM>,
)
    ensures
        s_eval_cmds(st, dot, cs, i, prev).vars.len() == st.len(),
    decreases cs, 2int, cs.len() - i,
{
    if 0 <= i < cs.len() {
        lemma_eval_cmd_frames(st, dot, cs[i], prev);
        let e = s_eval_cmd(st, dot, cs[i], prev);
        match e.res {
            Ok(v) => {
                lemma_eval_cmds_frames(e.vars, dot, cs, i + 1, Some(v));
            },
            Err(_) => {},
        }
    }
}

pub proof fn lemma_eval_cmd_frames(st: StackM, dot: ValM, c: Command, fin: Option<ValM>)
    ensures
        s_eval_cmd(st, dot, c, fin).vars.len() == st.len(),
    decreases c, 2int, 0int,
{
    if c.args@.len() > 0 {
        let first = c.args@[0];
        let hargs = c.args@.len() > 1 || fin is Some;
        match first {
            Node::Pipe(p) => lemma_eval_pipe_frames(st, dot, p),
            Node::Chain { .. } => lemma_eval_chain_frames(st, dot, first, hargs),
            Node::Ident(name) => lemma_eval_call_frames(st, dot, name@, c.args@, fin),
            _ => {},
        }
    }
}

pub proof fn lemma_eval_call_frames(
    st: StackM,
    dot: ValM,
    name: Seq<char>,
    args: Seq<Node>,
    fin: Option<ValM>,
)
    ensures
        s_eval_call(st, dot, name, args, fin).vars.len() == st.len(),
    decreases args, 3int, 0int,
{
    lemma_eval_args_frames(st, dot, args, 1);
}

pub proof fn lemma_eval_args_frames(st: StackM, dot: ValM, args: Seq<Node>, i: int)
    ensures
        s_eval_args(st, dot, args, i).vars.len() == st.len(),
    decreases args, 2int, args.len() - i,
{
    if 0 <= i < args.len() {
        lemma_eval_arg_frames(st, dot, args[i]);
        let e = s_eval_arg(st, dot, args[i]);
        match e.res {
            Ok(_) => {
                lemma_eval_args_frames(e.vars, dot, args, i + 1);
            },
            Err(_) => {},
        }
    }
}

pub proof fn lemma_eval_arg_frames(st: StackM, dot: ValM, n: Node)
    ensures
        s_eval_arg(st, dot, n).vars.len() == st.len(),
    decreases n, 2int, 0int,
{
    match n {
        Node::Pipe(p) => lemma_eval_pipe_frames(st, dot, p),
        Node::Chain { .. } => lemma_eval_chain_frames(st, dot, n, false),
        _ => {},
    }
}

pub proof fn lemma_eval_chain_frames(st: StackM, dot: ValM, n: Node, hargs: bool)
    ensures
        s_eval_chain(st, dot, n, hargs).vars.len() == st.len(),
    decreases n, 1int, 0int,
{
    match n {
        Node::Chain { base, fields } => {
            if fields@.len() > 0 && !(*base is Nil) {
                lemma_eval_arg_frames(st, dot, *base);
            }
        },
        _ => {},
    }
}

/// Walking a node never changes the number of live frames: every frame a
/// `range` pushes is popped again on every exit path, errors included.
pub proof fn lemma_walk_frames(t: Template, fuel: nat, st: StackM, dot: ValM, n: Node)
    ensures
        s_walk(t, fuel, st, dot, n).vars.len() == st.len(),
    decreases fuel, n, 2int, 0int,
{
    match n {
        Node::Action(p) => lemma_eval_pipe_frames(st, dot, p),
        Node::List(ns) => lemma_walk_list_frames(t, fuel, st, dot, ns@, 0),
        Node::If(b) => lemma_if_with_frames(t, fuel, st, dot, b, false),
        Node::With(b) => lemma_if_with_frames(t, fuel, st, dot, b, true),
        Node::Range(b) => {
            lemma_eval_pipe_frames(st, dot, b.pipe);
            let e = s_eval_pipe(st, dot, b.pipe);
            match e.res {
                Ok(v) => match iter_pairs(v) {
                    Some(prs) => if prs.len() == 0 {
                        match b.else_body {
                            Some(ns) => lemma_walk_list_frames(t, fuel, e.vars, dot, ns@, 0),
                            None => {},
                        }
                    } else {
                        lemma_range_iters_frames(t, fuel, e.vars, b, prs, 0);
                    },
                    None => {},
                },
                Err(_) => {},
            }
        },
        Node::TemplateCall { name, pipe } => {
            lemma_template_call_frames(t, fuel, st, dot, name@, pipe);
        },
        _ => {},
    }
}

pub proof fn lemma_walk_list_frames(
    t: Template,
    fuel: nat,
    st: StackM,
    dot: ValM,
    ns: Seq<Node>,
    i: int,
)
    ensures
        s_walk_list(t, fuel, st, dot, ns, i).vars.len() == st.len(),
    decreases fuel, ns, 2int, ns.len() - i,
{
    if 0 <= i < ns.len() {
        lemma_walk_frames(t, fuel, st, dot, ns[i]);
        let w = s_walk(t, fuel, st, dot, ns[i]);
        match w.err {
            None => {
                lemma_walk_list_frames(t, fuel, w.vars, dot, ns, i + 1);
            },
            Some(_) => {},
        }
    }
}

pub proof fn lemma_if_with_frames(
    t: Template,
    fuel: nat,
    st: StackM,
    dot: ValM,
    b: Branch,
    is_with: bool,
)
    ensures
        s_if_with(t, fuel, st, dot, b, is_with).vars.len() == st.len(),
    decreases fuel, b, 2int, 0int,
{
    lemma_eval_pipe_frames(st, dot, b.pipe);
    let e = s_eval_pipe(st, dot, b.pipe);
    match e.res {
        Ok(v) => if is_true_m(v) {
            lemma_walk_list_frames(t, fuel, e.vars, if is_with { v } else { dot }, b.body@, 0);
        } else {
            match b.else_body {
                Some(ns) => lemma_walk_list_frames(t, fuel, e.vars, dot, ns@, 0),
                None => {},
            }
        },
        Err(_) => {},
    }
}

pub proof fn lemma_one_iter_frames(
    t: Template,
    fuel: nat,
    st: StackM,
    b: Branch,
    key: ValM,
    v: ValM,
)
    ensures
        s_one_iter(t, fuel, st, b, key, v).vars.len() == st.len(),
    decreases fuel, b, 0int, 0int,
{
    let st1r = if b.pipe.decl@.len() > 0 {
        s_set_kth_last(st, 1, v)
    } else {
        Ok(st)
    };
    match st1r {
        Ok(st1) => {
            let st2r = if b.pipe.decl@.len() > 1 {
                s_set_kth_last(st1, 2, key)
            } else {
                Ok(st1)
            };
            match st2r {
                Ok(st2) => {
                    lemma_walk_list_frames(t, fuel, st2.push(Seq::empty()), v, b.body@, 0);
                },
                Err(_) => {},
            }
        },
        Err(_) => {},
    }
}

pub proof fn lemma_range_iters_frames(
    t: Template,
    fuel: nat,
    st: StackM,
    b: Branch,
    prs: Seq<(ValM, ValM)>,
    i: int,
)
    ensures
        s_range_iters(t, fuel, st, b, prs, i).vars.len() == st.len(),
    decreases fuel, b, 1int, prs.len() - i,
{
    if 0 <= i < prs.len() {
        lemma_one_iter_frames(t, fuel, st, b, prs[i].0, prs[i].1);
        let w = s_one_iter(t, fuel, st, b, prs[i].0, prs[i].1);
        match w.err {
            None => {
                lemma_range_iters_frames(t, fuel, w.vars, b, prs, i + 1);
            },
            Some(_) => {},
        }
    }
}

pub proof fn lemma_template_call_frames(
    t: Template,
    fuel: nat,
    st: StackM,
    dot: ValM,
    name: Seq<char>,
    pipe: Option<Pipe>,
)
    ensures
        s_template_call(t, fuel, st, dot, name, pipe).vars.len() == st.len(),
    decreases fuel, pipe, 1int, 0int,
{
    match pipe {
        Some(p) => lemma_eval_pipe_frames(st, dot, p),
        None => {},
    }
}

/// Stack discipline: after a whole render, successful or failing, exactly
/// the one frame created at entry is live.
pub proof fn law_stack_discipline(t: Template, dot: ValM)
    ensures
        s_execute(t, dot).vars.len() == 1,
{
    match s_root(t) {
        None => {},
        Some(root) => {
            lemma_walk_frames(
                t,
                MAX_TEMPLATE_DEPTH as nat,
                seq![seq![("$"@, dot)]],
                dot,
                root,
            );
        },
    }
}

/// Output ordering: a list writes the output of its children in order —
/// each child's contribution stands left of everything the rest of the
/// list writes, and an erring child ends the output.
pub proof fn law_output_ordering(
    t: Template,
    fuel: nat,
    st: StackM,
    dot: ValM,
    ns: Seq<Node>,
    i: int,
)
    requires
        0 <= i < ns.len(),
    ensures
        ({
            let w = s_walk(t, fuel, st, dot, ns[i]);
            s_walk_list(t, fuel, st, dot, ns, i) == if w.err is Some {
                w
            } else {
                let rest = s_walk_list(t, fuel, w.vars, dot, ns, i + 1);
                WalkOut { err: rest.err, out: w.out + rest.out, vars: rest.vars }
            }
        }),
{
}

/// Output ordering, at the leaves: a text node contributes exactly its
/// literal text, and an action whose pipeline declares nothing contributes
/// exactly the canonical text of the pipeline's value.
pub proof fn law_leaf_output(t: Template, fuel: nat, st: StackM, dot: ValM, s: String, p: Pipe, v: ValM, txt: Seq<char>)
    requires
        s_eval_pipe(st, dot, p).res == Ok::<ValM, EngineError>(v),
        p.decl@.len() == 0,
        text_of(v) == Some(txt),
    ensures
        s_walk(t, fuel, st, dot, Node::Text(s)).out == s@,
        s_walk(t, fuel, st, dot, Node::Action(p)).out == txt,
        s_walk(t, fuel, st, dot, Node::Action(p)).err is None,
{
}

/// Truthiness agreement: `if` walks its body exactly when the guard value
/// is true under the value bridge, and its else body, dot unchanged,
/// exactly when it is not.
pub proof fn law_truthiness_agreement(
    t: Template,
    fuel: nat,
    st: StackM,
    dot: ValM,
    b: Branch,
    v: ValM,
)
    requires
        s_eval_pipe(st, dot, b.pipe).res == Ok::<ValM, EngineError>(v),
    ensures
        is_true_m(v) ==> s_if_with(t, fuel, st, dot, b, false) == s_walk_list(
            t,
            fuel,
            s_eval_pipe(st, dot, b.pipe).vars,
            dot,
            b.body@,
            0,
        ),
        !is_true_m(v) && b.else_body is Some ==> s_if_with(t, fuel, st, dot, b, false)
            == s_walk_list(
            t,
            fuel,
            s_eval_pipe(st, dot, b.pipe).vars,
            dot,
            b.else_body->0@,
            0,
        ),
        !is_true_m(v) && b.else_body is None ==> s_if_with(t, fuel, st, dot, b, false) == (WalkOut {
            err: None,
            out: Seq::empty(),
            vars: s_eval_pipe(st, dot, b.pipe).vars,
        }),
{
}

/// Pipeline fold: a two-stage pipeline without declarations equals the
/// second command evaluated with the first command's value as its implicit
/// trailing argument.
pub proof fn law_pipeline_fold(st: StackM, dot: ValM, p: Pipe, v1: ValM)
    requires
        p.cmds@.len() == 2,
        p.decl@.len() == 0,
        s_eval_cmd(st, dot, p.cmds@[0], None).res == Ok::<ValM, EngineError>(v1),
    ensures
        s_eval_pipe(st, dot, p) == s_eval_cmd(
            s_eval_cmd(st, dot, p.cmds@[0], None).vars,
            dot,
            p.cmds@[1],
            Some(v1),
        ),
{
    let e0 = s_eval_cmd(st, dot, p.cmds@[0], None);
    let e1 = s_eval_cmd(e0.vars, dot, p.cmds@[1], Some(v1));
    assert(s_eval_cmds(st, dot, p.cmds@, 0, None) == if e1.res is Ok {
        s_eval_cmds(e1.vars, dot, p.cmds@, 2, e1.res.ok())
    } else {
        e1
    });
    match e1.res {
        Ok(v2) => {
            assert(s_eval_pipe(st, dot, p) =~= e1);
        },
        Err(_) => {
            assert(s_eval_pipe(st, dot, p) =~= e1);
        },
    }
}

/// Template isolation: whatever a nested template invocation declares in
/// its own stack, the caller's stack after the call is exactly what
/// evaluating the dot pipeline left — the body touches it not at all.
pub proof fn law_template_isolation(
    t: Template,
    fuel: nat,
    st: StackM,
    dot: ValM,
    name: Seq<char>,
    pipe: Option<Pipe>,
)
    ensures
        match pipe {
            Some(p) => s_template_call(t, fuel, st, dot, name, pipe).vars == s_eval_pipe(
                st,
                dot,
                p,
            ).vars,
            None => s_template_call(t, fuel, st, dot, name, pipe).vars == st,
        },
{
    match pipe {
        Some(p) => {
            let e = s_eval_pipe(st, dot, p);
            match e.res {
                Ok(_) => {},
                Err(_) => {},
            }
        },
        None => {},
    }
}

/// `NoValue` against `MissingField`: a key missed in a mapping yields the
/// `NoValue` sentinel, the same key missed in a record is an error.
pub proof fn law_novalue_vs_missing_field(ps: Seq<(Seq<char>, ValM)>, name: Seq<char>)
    requires
        s_lookup_pairs(ps, name, 0) is None,
    ensures
        s_field_one(ValM::MapV(ps), name, false) == Ok::<ValM, EngineError>(ValM::NoValue),
        s_field_one(ValM::Obj(ps), name, false) == Err::<ValM, EngineError>(
            EngineError::MissingField,
        ),
{
}

/// Rendering `{{.}}` yields the dot's canonical text.
pub proof fn law_dot_renders_canonical_text(t: Template, dot: ValM, p: Pipe, txt: Seq<char>)
    requires
        s_root(t) == Some(Node::Action(p)),
        p.decl@.len() == 0,
        p.cmds@.len() == 1,
        p.cmds@[0].args@ =~= seq![Node::Dot],
        text_of(dot) == Some(txt),
    ensures
        s_execute(t, dot).err is None,
        s_execute(t, dot).out == txt,
{
    let st = seq![seq![("$"@, dot)]];
    let fuel = MAX_TEMPLATE_DEPTH as nat;
    let c = p.cmds@[0];
    assert(s_eval_cmd(st, dot, c, None) == EvalOut { res: Ok::<ValM, EngineError>(dot), vars: st });
    assert(s_eval_cmds(st, dot, p.cmds@, 1, Some(dot)) == EvalOut {
        res: Ok::<ValM, EngineError>(dot),
        vars: st,
    });
    assert(s_eval_pipe(st, dot, p).res == Ok::<ValM, EngineError>(dot));
}

/// `range` over an empty iterable walks the else body exactly when one is
/// present, and emits nothing otherwise.
pub proof fn law_range_empty_else(
    t: Template,
    fuel: nat,
    st: StackM,
    dot: ValM,
    b: Branch,
    v: ValM,
)
    requires
        s_eval_pipe(st, dot, b.pipe).res == Ok::<ValM, EngineError>(v),
        iter_pairs(v) matches Some(prs) && prs.len() == 0,
    ensures
        b.else_body is Some ==> s_walk(t, fuel, st, dot, Node::Range(b)) == s_walk_list(
            t,
            fuel,
            s_eval_pipe(st, dot, b.pipe).vars,
            dot,
            b.else_body->0@,
            0,
        ),
        b.else_body is None ==> s_walk(t, fuel, st, dot, Node::Range(b)) == (WalkOut {
            err: None,
            out: Seq::empty(),
            vars: s_eval_pipe(st, dot, b.pipe).vars,
        }),
{
}

/// `range` over a non-iterable value fails `RangeNotIterable` at once: the
/// else body is not walked and nothing is written.
pub proof fn law_range_not_iterable(
    t: Template,
    fuel: nat,
    st: StackM,
    dot: ValM,
    b: Branch,
    v: ValM,
)
    requires
        s_eval_pipe(st, dot, b.pipe).res == Ok::<ValM, EngineError>(v),
        iter_pairs(v) is None,
    ensures
        s_walk(t, fuel, st, dot, Node::Range(b)) == (WalkOut {
            err: Some(EngineError::RangeNotIterable),
            out: Seq::empty(),
            vars: s_eval_pipe(st, dot, b.pipe).vars,
        }),
{
}

/// `with` on an untrue value does not rebind dot: its else body is walked
/// against the original dot.
pub proof fn law_with_falsy_keeps_dot(
    t: Template,
    fuel: nat,
    st: StackM,
    dot: ValM,
    b: Branch,
    v: ValM,
)
    requires
        s_eval_pipe(st, dot, b.pipe).res == Ok::<ValM, EngineError>(v),
        !is_true_m(v),
        b.else_body is Some,
    ensures
        s_if_with(t, fuel, st, dot, b, true) == s_walk_list(
            t,
            fuel,
            s_eval_pipe(st, dot, b.pipe).vars,
            dot,
            b.else_body->0@,
            0,
        ),
{
}

} // verus!
