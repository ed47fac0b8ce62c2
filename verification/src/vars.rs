//! The lexically scoped variable stack: a stack of frames, each an ordered
//! sequence of bindings, with shadowing lookup and per-iteration rebinding.

use vstd::prelude::*;
use crate::errors::EngineError;
use crate::value::{Value, ValM};

verus! {

/// One binding of a `$name` to a value.
pub struct Var {
    pub name: String,
    pub value: Value,
}

/// The mathematical image of a frame.
pub type FrameM = Seq<(Seq<char>, ValM)>;

/// The mathematical image of the whole stack, bottom frame first.
pub type StackM = Seq<Seq<(Seq<char>, ValM)>>;

pub open spec fn frame_view(fr: Seq<Var>) -> FrameM {
    fr.map_values(|v: Var| (v.name@, v.value@))
}

pub open spec fn stack_view(st: Seq<Vec<Var>>) -> StackM {
    st.map_values(|f: Vec<Var>| frame_view(f@))
}

/// Lookup among the first `i` bindings of a frame, most recent first.
pub open spec fn s_lookup_frame(fr: FrameM, i: int, name: Seq<char>) -> Option<ValM>
    decreases i,
{
    if i <= 0 || i > fr.len() {
        None
    } else if fr[i - 1].0 == name {
        Some(fr[i - 1].1)
    } else {
        s_lookup_frame(fr, i - 1, name)
    }
}

/// Lookup across the first `j` frames, top of stack first.
pub open spec fn s_lookup_stack(st: StackM, j: int, name: Seq<char>) -> Option<ValM>
    decreases j,
{
    if j <= 0 || j > st.len() {
        None
    } else {
        match s_lookup_frame(st[j - 1], st[j - 1].len() as int, name) {
            Some(v) => Some(v),
            None => s_lookup_stack(st, j - 1, name),
        }
    }
}

/// Lookup over the whole stack.
pub open spec fn s_lookup_var(st: StackM, name: Seq<char>) -> Option<ValM> {
    s_lookup_stack(st, st.len() as int, name)
}

/// Appending a binding to the top frame.
pub open spec fn s_declare(st: StackM, name: Seq<char>, v: ValM) -> StackM {
    if st.len() == 0 {
        st
    } else {
        st.update(st.len() - 1, st.last().push((name, v)))
    }
}

/// Rebinding the value of the kth-last slot of the top frame, keeping the
/// slot's name; fails when the frame holds fewer than `k` bindings.
pub open spec fn s_set_kth_last(st: StackM, k: int, v: ValM) -> Result<StackM, EngineError> {
    if st.len() == 0 {
        Err(EngineError::FrameTooSmall)
    } else {
        let fr = st.last();
        if 1 <= k && k <= fr.len() {
            Ok(
                st.update(
                    st.len() - 1,
                    fr.update(fr.len() - k, (fr[fr.len() - k].0, v)),
                ),
            )
        } else {
            Err(EngineError::FrameTooSmall)
        }
    }
}

/// The per-render mutable state of the walker: the variable stack and the
/// nesting depth of template invocations.
pub struct State {
    pub vars: Vec<Vec<Var>>,
    pub depth: usize,
}

impl View for State {
    type V = StackM;

    open spec fn view(&self) -> StackM {
        stack_view(self.vars@)
    }
}

fn lookup_in_frame(fr: &Vec<Var>, i: usize, key: &String) -> (r: Option<Value>)
    requires
        i <= fr@.len(),
    ensures
        match s_lookup_frame(frame_view(fr@), i as int, key@) {
            Some(v) => r matches Some(x) && x@ == v,
            None => r is None,
        },
    decreases i,
{
    if i == 0 {
        None
    } else if fr[i - 1].name == *key {
        Some(fr[i - 1].value.deep_clone())
    } else {
        lookup_in_frame(fr, i - 1, key)
    }
}

fn lookup_frames(vars: &Vec<Vec<Var>>, j: usize, key: &String) -> (r: Option<Value>)
    requires
        j <= vars@.len(),
    ensures
        match s_lookup_stack(stack_view(vars@), j as int, key@) {
            Some(v) => r matches Some(x) && x@ == v,
            None => r is None,
        },
    decreases j,
{
    if j == 0 {
        None
    } else {
        let fr = &vars[j - 1];
        match lookup_in_frame(fr, fr.len(), key) {
            Some(v) => Some(v),
            None => lookup_frames(vars, j - 1, key),
        }
    }
}

impl State {
    /// A fresh single-frame stack binding `$` to the given root dot.
    pub fn with_root(dot: &Value, depth: usize) -> (s: State)
        ensures
            s@ =~= seq![seq![("$"@, dot@)]],
            s.depth == depth,
            s.vars@.len() == 1,
    {
        let mut frame: Vec<Var> = Vec::new();
        frame.push(Var { name: "$".to_owned(), value: dot.deep_clone() });
        let mut vars: Vec<Vec<Var>> = Vec::new();
        vars.push(frame);
        let s = State { vars, depth };
        proof {
            assert(frame_view(frame@) =~= seq![("$"@, dot@)]);
            assert(s@ =~= seq![seq![("$"@, dot@)]]);
        }
        s
    }

    /// The value of `$name`, scanning frames from the top and bindings from
    /// the most recent; a miss is `UnboundVariable`.
    pub fn var_value(&self, key: &String) -> (r: Result<Value, EngineError>)
        ensures
            match s_lookup_var(self@, key@) {
                Some(v) => r matches Ok(x) && x@ == v,
                None => r matches Err(e) && e == EngineError::UnboundVariable,
            },
    {
        match lookup_frames(&self.vars, self.vars.len(), key) {
            Some(v) => Ok(v),
            None => Err(EngineError::UnboundVariable),
        }
    }

    /// Appends a binding to the top frame.
    pub fn declare_var(&mut self, name: String, value: Value)
        requires
            old(self).vars@.len() > 0,
        ensures
            final(self)@ == s_declare(old(self)@, name@, value@),
            final(self).depth == old(self).depth,
            final(self).vars@.len() == old(self).vars@.len(),
    {
        let ghost old_stack = self@;
        let ghost nm = name@;
        let ghost vv = value@;
        let mut fr = self.vars.pop().unwrap();
        fr.push(Var { name, value });
        self.vars.push(fr);
        proof {
            assert(frame_view(fr@) =~= old_stack.last().push((nm, vv)));
            assert(self@ =~= old_stack.update(old_stack.len() - 1, old_stack.last().push((nm, vv))));
        }
    }

    /// Pushes a fresh empty frame.
    pub fn push_frame(&mut self)
        ensures
            final(self)@ == old(self)@.push(Seq::empty()),
            final(self).depth == old(self).depth,
            final(self).vars@.len() == old(self).vars@.len() + 1,
    {
        let ghost old_stack = self@;
        self.vars.push(Vec::new());
        proof {
            assert(self@ =~~= old_stack.push(Seq::empty()));
        }
    }

    /// Pops the top frame.
    pub fn pop_frame(&mut self)
        requires
            old(self).vars@.len() > 0,
        ensures
            final(self)@ == old(self)@.drop_last(),
            final(self).depth == old(self).depth,
            final(self).vars@.len() == old(self).vars@.len() - 1,
    {
        let ghost old_stack = self@;
        let _ = self.vars.pop();
        proof {
            assert(self@ =~= old_stack.drop_last());
        }
    }

    /// Rebinds the kth-last slot of the top frame to a new value.
    pub fn set_kth_last_var_value(&mut self, k: usize, value: Value) -> (r: Result<
        (),
        EngineError,
    >)
        requires
            old(self).vars@.len() > 0,
        ensures
            final(self).depth == old(self).depth,
            final(self).vars@.len() == old(self).vars@.len(),
            match s_set_kth_last(old(self)@, k as int, value@) {
                Ok(st) => r is Ok && final(self)@ == st,
                Err(e) => r matches Err(x) && x == e && final(self)@ == old(self)@,
            },
    {
        let ghost old_stack = self@;
        let ghost vv = value@;
        let mut fr = self.vars.pop().unwrap();
        if k == 0 || k > fr.len() {
            self.vars.push(fr);
            proof {
                assert(self.vars@ =~= old(self).vars@);
                assert(self@ == old(self)@);
            }
            Err(EngineError::FrameTooSmall)
        } else {
            let ghost old_frame = frame_view(fr@);
            let i = fr.len() - k;
            let old_var = fr.remove(i);
            fr.insert(i, Var { name: old_var.name, value });
            self.vars.push(fr);
            proof {
                let target = old_frame.update(i as int, (old_frame[i as int].0, vv));
                assert forall|x: int| 0 <= x < frame_view(fr@).len() implies frame_view(fr@)[x]
                    == target[x] by {
                    assert(frame_view(fr@)[x] == (fr@[x].name@, fr@[x].value@));
                }
                assert(frame_view(fr@) =~= old_frame.update(i as int, (old_frame[i as int].0, vv)));
                assert(self@ =~= old_stack.update(
                    old_stack.len() - 1,
                    old_frame.update(i as int, (old_frame[i as int].0, vv)),
                ));
            }
            Ok(())
        }
    }
}

} // verus!
