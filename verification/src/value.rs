//! The dynamic value model: the tagged sum over which templates evaluate,
//! together with its mathematical view, truthiness, field lookup and
//! canonical textual form.

use vstd::prelude::*;
use crate::errors::EngineError;

verus! {

/// A float carried through the engine as its raw bits plus the canonical
/// text it renders to. The engine itself never does float arithmetic; it
/// only compares bits and emits the text.
pub struct FloatVal {
    pub bits: u64,
    pub text: String,
}

/// One string-keyed entry of a mapping or record value.
pub struct Pair {
    pub key: String,
    pub val: Value,
}

/// The dynamic value sum type: every piece of user data the engine touches
/// is one of these.
pub enum Value {
    /// Sentinel carried by an empty context: not formattable, never truthy.
    Nothing,
    /// Explicit nil.
    Null,
    /// Sentinel for "lookup produced nothing"; renders as `<no value>`.
    NoValue,
    Bool(bool),
    Int(i128),
    Float(FloatVal),
    Str(String),
    /// Ordered sequence.
    Arr(Vec<Value>),
    /// String-keyed mapping; a missing key yields `NoValue`.
    MapV(Vec<Pair>),
    /// String-keyed record; a missing field is an error.
    Obj(Vec<Pair>),
}

/// The mathematical image of a `Value`.
#[verifier::ext_equal]
pub enum ValM {
    Nothing,
    Null,
    NoValue,
    Bool(bool),
    Int(int),
    Float { bits: u64, text: Seq<char> },
    Str(Seq<char>),
    Arr(Seq<ValM>),
    MapV(Seq<(Seq<char>, ValM)>),
    Obj(Seq<(Seq<char>, ValM)>),
}

/// The view of a sequence of values, element by element.
pub open spec fn vals_view(vs: Seq<Value>) -> Seq<ValM>
    decreases vs,
{
    if vs.len() == 0 {
        Seq::empty()
    } else {
        vals_view(vs.drop_last()).push(vs.last()@)
    }
}

/// The view of a sequence of entries, entry by entry.
pub open spec fn pairs_view(ps: Seq<Pair>) -> Seq<(Seq<char>, ValM)>
    decreases ps,
{
    if ps.len() == 0 {
        Seq::empty()
    } else {
        pairs_view(ps.drop_last()).push((ps.last().key@, ps.last().val@))
    }
}

impl View for Value {
    type V = ValM;

    open spec fn view(&self) -> ValM
        decreases self,
    {
        match self {
            Value::Nothing => ValM::Nothing,
            Value::Null => ValM::Null,
            Value::NoValue => ValM::NoValue,
            Value::Bool(b) => ValM::Bool(*b),
            Value::Int(i) => ValM::Int(*i as int),
            Value::Float(f) => ValM::Float { bits: f.bits, text: f.text@ },
            Value::Str(s) => ValM::Str(s@),
            Value::Arr(vs) => ValM::Arr(vals_view(vs@)),
            Value::MapV(ps) => ValM::MapV(pairs_view(ps@)),
            Value::Obj(ps) => ValM::Obj(pairs_view(ps@)),
        }
    }
}

/// `vals_view` maps the sequence pointwise.
pub broadcast proof fn lemma_vals_view(vs: Seq<Value>)
    ensures
        (#[trigger] vals_view(vs)).len() == vs.len(),
        forall|i: int| 0 <= i < vs.len() ==> vals_view(vs)[i] == #[trigger] vs[i]@,
    decreases vs,
{
    if vs.len() > 0 {
        lemma_vals_view(vs.drop_last());
        assert(vals_view(vs) == vals_view(vs.drop_last()).push(vs.last()@));
        assert forall|i: int| 0 <= i < vs.len() implies vals_view(vs)[i] == vs[i]@ by {
            if i < vs.len() - 1 {
                assert(vals_view(vs)[i] == vals_view(vs.drop_last())[i]);
                assert(vs.drop_last()[i] == vs[i]);
            } else {
                assert(vs[i] == vs.last());
            }
        }
    }
}

/// `pairs_view` maps the sequence pointwise.
pub broadcast proof fn lemma_pairs_view(ps: Seq<Pair>)
    ensures
        (#[trigger] pairs_view(ps)).len() == ps.len(),
        forall|i: int| 0 <= i < ps.len()
            ==> pairs_view(ps)[i] == ((#[trigger] ps[i]).key@, ps[i].val@),
    decreases ps,
{
    if ps.len() > 0 {
        lemma_pairs_view(ps.drop_last());
        assert(pairs_view(ps) == pairs_view(ps.drop_last()).push((ps.last().key@, ps.last().val@)));
        assert forall|i: int| 0 <= i < ps.len() implies pairs_view(ps)[i] == (ps[i].key@, ps[i].val@) by {
            if i < ps.len() - 1 {
                assert(pairs_view(ps)[i] == pairs_view(ps.drop_last())[i]);
                assert(ps.drop_last()[i] == ps[i]);
            } else {
                assert(ps[i] == ps.last());
            }
        }
    }
}

/// The view of a sequence of names.
pub open spec fn names_view(ss: Seq<String>) -> Seq<Seq<char>> {
    ss.map_values(|s: String| s@)
}

/// Truthiness: the empty or zero value of every kind is false, everything
/// else is true; the sentinels are never true.
pub open spec fn is_true_m(v: ValM) -> bool {
    match v {
        ValM::Nothing => false,
        ValM::Null => false,
        ValM::NoValue => false,
        ValM::Bool(b) => b,
        ValM::Int(i) => i != 0,
        ValM::Float { bits, .. } => !(bits == 0 || bits == 0x8000_0000_0000_0000u64),
        ValM::Str(s) => s.len() > 0,
        ValM::Arr(vs) => vs.len() > 0,
        ValM::MapV(ps) => ps.len() > 0,
        ValM::Obj(ps) => ps.len() > 0,
    }
}

/// Reports whether a value counts as true under `if`, `with` and the
/// boolean functions. A float is zero exactly when its bits are one of the
/// two signed-zero patterns.
pub fn is_true(v: &Value) -> (r: bool)
    ensures
        r == is_true_m(v@),
{
    match v {
        Value::Nothing => false,
        Value::Null => false,
        Value::NoValue => false,
        Value::Bool(b) => *b,
        Value::Int(i) => *i != 0,
        Value::Float(f) => !(f.bits == 0 || f.bits == 0x8000_0000_0000_0000u64),
        Value::Str(s) => s.as_str().unicode_len() > 0,
        Value::Arr(vs) => {
            proof { lemma_vals_view(vs@); }
            vs.len() > 0
        },
        Value::MapV(ps) => {
            proof { lemma_pairs_view(ps@); }
            ps.len() > 0
        },
        Value::Obj(ps) => {
            proof { lemma_pairs_view(ps@); }
            ps.len() > 0
        },
    }
}

/// First-match lookup among string-keyed entries, scanning from the front
/// starting at `i`.
pub open spec fn s_lookup_pairs(ps: Seq<(Seq<char>, ValM)>, name: Seq<char>, i: int) -> Option<ValM>
    decreases ps.len() - i,
{
    if i < 0 || i >= ps.len() {
        None
    } else if ps[i].0 == name {
        Some(ps[i].1)
    } else {
        s_lookup_pairs(ps, name, i + 1)
    }
}

/// A single field access: records fail on a miss, mappings yield the
/// `NoValue` sentinel, every other kind is not indexable; extra arguments
/// make the access not callable.
pub open spec fn s_field_one(v: ValM, name: Seq<char>, has_args: bool) -> Result<ValM, EngineError> {
    if has_args {
        Err(EngineError::NotCallable)
    } else {
        match v {
            ValM::Obj(ps) => match s_lookup_pairs(ps, name, 0) {
                Some(r) => Ok(r),
                None => Err(EngineError::MissingField),
            },
            ValM::MapV(ps) => match s_lookup_pairs(ps, name, 0) {
                Some(r) => Ok(r),
                None => Ok(ValM::NoValue),
            },
            _ => Err(EngineError::NotIndexable),
        }
    }
}

/// A field chain from `i` on: every step but the last takes no arguments;
/// the last step carries the caller's arguments.
pub open spec fn s_field_chain(v: ValM, flds: Seq<Seq<char>>, i: int, has_args: bool) -> Result<
    ValM,
    EngineError,
>
    decreases flds.len() - i,
{
    if i < 0 || i >= flds.len() {
        Err(EngineError::MalformedTree)
    } else if i == flds.len() - 1 {
        s_field_one(v, flds[i], has_args)
    } else {
        match s_field_one(v, flds[i], false) {
            Ok(r) => s_field_chain(r, flds, i + 1, has_args),
            Err(e) => Err(e),
        }
    }
}

/// The decimal digits of a non-negative integer, most significant first.
pub open spec fn digit_char(d: int) -> char {
    if d == 0 { '0' }
    else if d == 1 { '1' }
    else if d == 2 { '2' }
    else if d == 3 { '3' }
    else if d == 4 { '4' }
    else if d == 5 { '5' }
    else if d == 6 { '6' }
    else if d == 7 { '7' }
    else if d == 8 { '8' }
    else { '9' }
}

pub open spec fn dec_nat(n: int) -> Seq<char>
    decreases n,
{
    if n < 10 {
        seq![digit_char(n)]
    } else {
        dec_nat(n / 10).push(digit_char(n % 10))
    }
}

/// The canonical decimal text of an integer.
pub open spec fn dec_int(n: int) -> Seq<char> {
    if n < 0 {
        seq!['-'] + dec_nat(-n)
    } else {
        dec_nat(n)
    }
}

/// The canonical text of a value, if it has one: integers in decimal,
/// booleans as `true`/`false`, strings verbatim, floats as their carried
/// text, the lookup sentinel as `<no value>`, sequences as `[a b c]`,
/// mappings and records as `map[k:v ...]` in stored order. The empty-context
/// sentinel has none.
pub open spec fn text_of(v: ValM) -> Option<Seq<char>>
    decreases v, 0int,
{
    match v {
        ValM::Nothing => None,
        ValM::Null => Some("<nil>"@),
        ValM::NoValue => Some("<no value>"@),
        ValM::Bool(b) => Some(if b { "true"@ } else { "false"@ }),
        ValM::Int(i) => Some(dec_int(i)),
        ValM::Float { text, .. } => Some(text),
        ValM::Str(s) => Some(s),
        ValM::Arr(vs) => match texts_join(vs, 0) {
            Some(j) => Some("["@ + j + "]"@),
            None => None,
        },
        ValM::MapV(ps) => match pair_texts_join(ps, 0) {
            Some(j) => Some("map["@ + j + "]"@),
            None => None,
        },
        ValM::Obj(ps) => match pair_texts_join(ps, 0) {
            Some(j) => Some("map["@ + j + "]"@),
            None => None,
        },
    }
}

/// The space-separated texts of the elements from `i` on.
pub open spec fn texts_join(vs: Seq<ValM>, i: int) -> Option<Seq<char>>
    decreases vs, vs.len() - i,
{
    if i < 0 || i >= vs.len() {
        Some(Seq::empty())
    } else {
        match text_of(vs[i]) {
            None => None,
            Some(t) => match texts_join(vs, i + 1) {
                None => None,
                Some(r) => Some((if i > 0 { seq![' '] } else { Seq::empty() }) + t + r),
            },
        }
    }
}

/// The space-separated `key:value` texts of the entries from `i` on.
pub open spec fn pair_texts_join(ps: Seq<(Seq<char>, ValM)>, i: int) -> Option<Seq<char>>
    decreases ps, ps.len() - i,
{
    if i < 0 || i >= ps.len() {
        Some(Seq::empty())
    } else {
        match text_of(ps[i].1) {
            None => None,
            Some(t) => match pair_texts_join(ps, i + 1) {
                None => None,
                Some(r) => Some(
                    (if i > 0 { seq![' '] } else { Seq::empty() }) + ps[i].0 + seq![':'] + t + r,
                ),
            },
        }
    }
}

/// The view of an evaluation result.
pub open spec fn res_view(r: Result<Value, EngineError>) -> Result<ValM, EngineError> {
    match r {
        Ok(v) => Ok(v@),
        Err(e) => Err(e),
    }
}

impl Value {
    /// A structural copy of the value.
    pub fn deep_clone(&self) -> (res: Value)
        ensures
            res@ == self@,
        decreases self, 0int,
    {
        match self {
            Value::Nothing => Value::Nothing,
            Value::Null => Value::Null,
            Value::NoValue => Value::NoValue,
            Value::Bool(b) => Value::Bool(*b),
            Value::Int(i) => Value::Int(*i),
            Value::Float(f) => Value::Float(FloatVal { bits: f.bits, text: f.text.clone() }),
            Value::Str(s) => Value::Str(s.clone()),
            Value::Arr(vs) => Value::Arr(clone_vals(vs)),
            Value::MapV(ps) => Value::MapV(clone_pairs(ps)),
            Value::Obj(ps) => Value::Obj(clone_pairs(ps)),
        }
    }
}

fn clone_vals(vs: &Vec<Value>) -> (res: Vec<Value>)
    ensures
        vals_view(res@) == vals_view(vs@),
    decreases vs, 1int,
{
    let mut res: Vec<Value> = Vec::new();
    let mut i: usize = 0;
    while i < vs.len()
        invariant
            i <= vs.len(),
            res@.len() == i,
            forall|j: int| 0 <= j < i ==> res@[j]@ == vs@[j]@,
        decreases vs@.len() - i,
    {
        res.push(vs[i].deep_clone());
        i += 1;
    }
    proof {
        lemma_vals_view(res@);
        lemma_vals_view(vs@);
        assert forall|j: int| 0 <= j < res@.len() implies vals_view(res@)[j] == vals_view(vs@)[j] by {
            assert(res@[j]@ == vs@[j]@);
        }
        assert(vals_view(res@) =~= vals_view(vs@));
    }
    res
}

fn clone_pairs(ps: &Vec<Pair>) -> (res: Vec<Pair>)
    ensures
        pairs_view(res@) == pairs_view(ps@),
    decreases ps, 1int,
{
    let mut res: Vec<Pair> = Vec::new();
    let mut i: usize = 0;
    while i < ps.len()
        invariant
            i <= ps.len(),
            res@.len() == i,
            forall|j: int| 0 <= j < i
                ==> #[trigger] res@[j].key@ == ps@[j].key@ && res@[j].val@ == ps@[j].val@,
        decreases ps@.len() - i,
    {
        res.push(Pair { key: ps[i].key.clone(), val: ps[i].val.deep_clone() });
        i += 1;
    }
    proof {
        lemma_pairs_view(res@);
        lemma_pairs_view(ps@);
        assert forall|j: int| 0 <= j < res@.len() implies pairs_view(res@)[j] == pairs_view(ps@)[j] by {
            assert(res@[j].key@ == ps@[j].key@ && res@[j].val@ == ps@[j].val@);
        }
        assert(pairs_view(res@) =~= pairs_view(ps@));
    }
    res
}

/// Structural equality of two values: same kind and same contents; floats
/// compare by bits and carried text.
pub fn value_eq(a: &Value, b: &Value) -> (r: bool)
    ensures
        r == (a@ == b@),
    decreases a, 0int,
{
    match (a, b) {
        (Value::Nothing, Value::Nothing) => true,
        (Value::Null, Value::Null) => true,
        (Value::NoValue, Value::NoValue) => true,
        (Value::Bool(x), Value::Bool(y)) => x == y,
        (Value::Int(x), Value::Int(y)) => x == y,
        (Value::Float(f), Value::Float(g)) => f.bits == g.bits && f.text == g.text,
        (Value::Str(x), Value::Str(y)) => *x == *y,
        (Value::Arr(x), Value::Arr(y)) => vals_eq(x, y),
        (Value::MapV(x), Value::MapV(y)) => pairs_eq(x, y),
        (Value::Obj(x), Value::Obj(y)) => pairs_eq(x, y),
        _ => false,
    }
}

fn vals_eq(a: &Vec<Value>, b: &Vec<Value>) -> (r: bool)
    ensures
        r == (vals_view(a@) == vals_view(b@)),
    decreases a, 1int,
{
    proof {
        lemma_vals_view(a@);
        lemma_vals_view(b@);
    }
    if a.len() != b.len() {
        return false;
    }
    let mut i: usize = 0;
    while i < a.len()
        invariant
            a@.len() == b@.len(),
            i <= a@.len(),
            vals_view(a@).len() == a@.len(),
            vals_view(b@).len() == b@.len(),
            forall|j: int| 0 <= j < a@.len() ==> vals_view(a@)[j] == #[trigger] a@[j]@,
            forall|j: int| 0 <= j < b@.len() ==> vals_view(b@)[j] == #[trigger] b@[j]@,
            forall|j: int| 0 <= j < i ==> #[trigger] a@[j]@ == b@[j]@,
        decreases a@.len() - i,
    {
        if !value_eq(&a[i], &b[i]) {
            proof {
                assert(a@[i as int]@ != b@[i as int]@);
                assert(vals_view(a@)[i as int] != vals_view(b@)[i as int]);
            }
            return false;
        }
        i += 1;
    }
    proof {
        assert forall|j: int| 0 <= j < a@.len() implies vals_view(a@)[j] == vals_view(b@)[j] by {
            assert(a@[j]@ == b@[j]@);
        }
        assert(vals_view(a@) =~= vals_view(b@));
    }
    true
}

fn pairs_eq(a: &Vec<Pair>, b: &Vec<Pair>) -> (r: bool)
    ensures
        r == (pairs_view(a@) == pairs_view(b@)),
    decreases a, 1int,
{
    proof {
        lemma_pairs_view(a@);
        lemma_pairs_view(b@);
    }
    if a.len() != b.len() {
        return false;
    }
    let mut i: usize = 0;
    while i < a.len()
        invariant
            a@.len() == b@.len(),
            i <= a@.len(),
            pairs_view(a@).len() == a@.len(),
            pairs_view(b@).len() == b@.len(),
            forall|j: int| 0 <= j < a@.len()
                ==> pairs_view(a@)[j] == ((#[trigger] a@[j]).key@, a@[j].val@),
            forall|j: int| 0 <= j < b@.len()
                ==> pairs_view(b@)[j] == ((#[trigger] b@[j]).key@, b@[j].val@),
            forall|j: int| 0 <= j < i
                ==> (#[trigger] a@[j]).key@ == b@[j].key@ && a@[j].val@ == b@[j].val@,
        decreases a@.len() - i,
    {
        if !(a[i].key == b[i].key) {
            proof {
                assert(a@[i as int].key@ != b@[i as int].key@);
                assert(pairs_view(a@)[i as int] != pairs_view(b@)[i as int]);
            }
            return false;
        }
        if !value_eq(&a[i].val, &b[i].val) {
            proof {
                assert(a@[i as int].val@ != b@[i as int].val@);
                assert(pairs_view(a@)[i as int] != pairs_view(b@)[i as int]);
            }
            return false;
        }
        i += 1;
    }
    proof {
        assert forall|j: int| 0 <= j < a@.len() implies pairs_view(a@)[j] == pairs_view(b@)[j] by {
            assert(a@[j].key@ == b@[j].key@ && a@[j].val@ == b@[j].val@);
        }
        assert(pairs_view(a@) =~= pairs_view(b@));
    }
    true
}

/// First-match lookup of a key, from entry `i` on; a hit hands back a copy
/// of the entry's value.
pub fn lookup_pair(ps: &Vec<Pair>, name: &String, i: usize) -> (r: Option<Value>)
    ensures
        match s_lookup_pairs(pairs_view(ps@), name@, i as int) {
            Some(v) => r matches Some(x) && x@ == v,
            None => r is None,
        },
    decreases ps@.len() - i,
{
    proof {
        lemma_pairs_view(ps@);
    }
    if i >= ps.len() {
        None
    } else if ps[i].key == *name {
        Some(ps[i].val.deep_clone())
    } else {
        lookup_pair(ps, name, i + 1)
    }
}

/// One field access against a single value.
pub fn eval_field(v: &Value, name: &String, has_args: bool) -> (r: Result<Value, EngineError>)
    ensures
        res_view(r) == s_field_one(v@, name@, has_args),
{
    if has_args {
        Err(EngineError::NotCallable)
    } else {
        match v {
            Value::Obj(ps) => match lookup_pair(ps, name, 0) {
                Some(x) => Ok(x),
                None => Err(EngineError::MissingField),
            },
            Value::MapV(ps) => match lookup_pair(ps, name, 0) {
                Some(x) => Ok(x),
                None => Ok(Value::NoValue),
            },
            _ => Err(EngineError::NotIndexable),
        }
    }
}

/// A field chain from `i` on: intermediate steps carry no arguments, the
/// final step carries the caller's.
pub fn eval_field_chain(v: &Value, flds: &Vec<String>, i: usize, has_args: bool) -> (r: Result<
    Value,
    EngineError,
>)
    ensures
        res_view(r) == s_field_chain(v@, names_view(flds@), i as int, has_args),
    decreases flds@.len() - i,
{
    if i >= flds.len() {
        Err(EngineError::MalformedTree)
    } else if i == flds.len() - 1 {
        eval_field(v, &flds[i], has_args)
    } else {
        match eval_field(v, &flds[i], false) {
            Ok(r) => eval_field_chain(&r, flds, i + 1, has_args),
            Err(e) => Err(e),
        }
    }
}

fn digit_str(d: u128) -> (r: &'static str)
    requires
        d < 10,
    ensures
        r@ == seq![digit_char(d as int)],
{
    proof {
        reveal_strlit("0");
        reveal_strlit("1");
        reveal_strlit("2");
        reveal_strlit("3");
        reveal_strlit("4");
        reveal_strlit("5");
        reveal_strlit("6");
        reveal_strlit("7");
        reveal_strlit("8");
        reveal_strlit("9");
    }
    let r = if d == 0 { "0" }
    else if d == 1 { "1" }
    else if d == 2 { "2" }
    else if d == 3 { "3" }
    else if d == 4 { "4" }
    else if d == 5 { "5" }
    else if d == 6 { "6" }
    else if d == 7 { "7" }
    else if d == 8 { "8" }
    else { "9" };
    proof {
        assert(r@ =~= seq![digit_char(d as int)]);
    }
    r
}

fn fmt_mag(n: u128) -> (r: String)
    ensures
        r@ == dec_nat(n as int),
    decreases n,
{
    if n < 10 {
        let r = digit_str(n).to_owned();
        proof {
            assert(r@ =~= seq![digit_char(n as int)]);
        }
        r
    } else {
        let mut s = fmt_mag(n / 10);
        s.append(digit_str(n % 10));
        proof {
            assert(s@ =~= dec_nat((n / 10) as int).push(digit_char((n % 10) as int)));
            assert((n / 10) as int == n as int / 10);
            assert((n % 10) as int == n as int % 10);
        }
        s
    }
}

/// The canonical decimal text of an integer: digits, a leading `-` for a
/// negative value.
fn fmt_int(n: i128) -> (r: String)
    ensures
        r@ == dec_int(n as int),
{
    if n >= 0 {
        fmt_mag(n as u128)
    } else {
        let mag: u128 = ((-(n + 1)) as u128) + 1;
        proof {
            assert(mag as int == -(n as int));
        }
        let mut s = "-".to_owned();
        proof {
            reveal_strlit("-");
            assert(s@ =~= seq!['-']);
        }
        s.append(fmt_mag(mag).as_str());
        s
    }
}

/// The canonical text of a value, or `UnformattableValue` where it has
/// none.
pub fn value_text(v: &Value) -> (r: Result<String, EngineError>)
    ensures
        match text_of(v@) {
            Some(t) => r matches Ok(s) && s@ == t,
            None => r matches Err(e) && e == EngineError::UnformattableValue,
        },
    decreases v, 0int,
{
    match v {
        Value::Nothing => Err(EngineError::UnformattableValue),
        Value::Null => Ok("<nil>".to_owned()),
        Value::NoValue => Ok("<no value>".to_owned()),
        Value::Bool(b) => Ok(if *b { "true".to_owned() } else { "false".to_owned() }),
        Value::Int(i) => Ok(fmt_int(*i)),
        Value::Float(f) => Ok(f.text.clone()),
        Value::Str(s) => Ok(s.clone()),
        Value::Arr(vs) => match arr_text(vs, 0) {
            Ok(j) => {
                let mut out = "[".to_owned();
                out.append(j.as_str());
                out.append("]");
                Ok(out)
            },
            Err(e) => Err(e),
        },
        Value::MapV(ps) => match pairs_text(ps, 0) {
            Ok(j) => {
                let mut out = "map[".to_owned();
                out.append(j.as_str());
                out.append("]");
                Ok(out)
            },
            Err(e) => Err(e),
        },
        Value::Obj(ps) => match pairs_text(ps, 0) {
            Ok(j) => {
                let mut out = "map[".to_owned();
                out.append(j.as_str());
                out.append("]");
                Ok(out)
            },
            Err(e) => Err(e),
        },
    }
}

fn arr_text(vs: &Vec<Value>, i: usize) -> (r: Result<String, EngineError>)
    ensures
        match texts_join(vals_view(vs@), i as int) {
            Some(t) => r matches Ok(s) && s@ == t,
            None => r matches Err(e) && e == EngineError::UnformattableValue,
        },
    decreases vs, vs@.len() - i,
{
    proof {
        lemma_vals_view(vs@);
    }
    if i >= vs.len() {
        Ok(String::new())
    } else {
        match value_text(&vs[i]) {
            Err(e) => Err(e),
            Ok(t) => match arr_text(vs, i + 1) {
                Err(e) => Err(e),
                Ok(rest) => {
                    let mut out = String::new();
                    if i > 0 {
                        out.append(" ");
                        proof {
                            reveal_strlit(" ");
                            assert(out@ =~= seq![' ']);
                        }
                    }
                    out.append(t.as_str());
                    out.append(rest.as_str());
                    Ok(out)
                },
            },
        }
    }
}

fn pairs_text(ps: &Vec<Pair>, i: usize) -> (r: Result<String, EngineError>)
    ensures
        match pair_texts_join(pairs_view(ps@), i as int) {
            Some(t) => r matches Ok(s) && s@ == t,
            None => r matches Err(e) && e == EngineError::UnformattableValue,
        },
    decreases ps, ps@.len() - i,
{
    proof {
        lemma_pairs_view(ps@);
    }
    if i >= ps.len() {
        Ok(String::new())
    } else {
        match value_text(&ps[i].val) {
            Err(e) => Err(e),
            Ok(t) => match pairs_text(ps, i + 1) {
                Err(e) => Err(e),
                Ok(rest) => {
                    let mut out = String::new();
                    if i > 0 {
                        out.append(" ");
                        proof {
                            reveal_strlit(" ");
                            assert(out@ =~= seq![' ']);
                        }
                    }
                    out.append(ps[i].key.as_str());
                    let ghost before_colon = out@;
                    out.append(":");
                    proof {
                        reveal_strlit(":");
                        assert(out@ =~= before_colon + seq![':']);
                    }
                    out.append(t.as_str());
                    out.append(rest.as_str());
                    Ok(out)
                },
            },
        }
    }
}

} // verus!
