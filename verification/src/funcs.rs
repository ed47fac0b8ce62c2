//! The function table: the preregistered user-callable functions and their
//! uniform call contract, dispatched by identifier.

use vstd::prelude::*;
use crate::errors::EngineError;
use crate::value::{
    Value, ValM, is_true, is_true_m, text_of, value_eq, value_text, res_view, vals_view,
    lemma_vals_view, lemma_pairs_view, lookup_pair, s_lookup_pairs,
};

verus! {

/// The identifiers the engine preregisters.
pub open spec fn is_builtin(name: Seq<char>) -> bool {
    ||| name == "len"@
    ||| name == "eq"@
    ||| name == "ne"@
    ||| name == "lt"@
    ||| name == "le"@
    ||| name == "gt"@
    ||| name == "ge"@
    ||| name == "and"@
    ||| name == "or"@
    ||| name == "not"@
    ||| name == "print"@
    ||| name == "println"@
    ||| name == "printf"@
    ||| name == "index"@
}

/// `len`: the number of characters of a string, or of elements or entries
/// of a sequence, mapping or record.
pub open spec fn s_len(args: Seq<ValM>) -> Result<ValM, EngineError> {
    if args.len() != 1 {
        Err(EngineError::FunctionError)
    } else {
        match args[0] {
            ValM::Str(s) => Ok(ValM::Int(s.len() as int)),
            ValM::Arr(vs) => Ok(ValM::Int(vs.len() as int)),
            ValM::MapV(ps) => Ok(ValM::Int(ps.len() as int)),
            ValM::Obj(ps) => Ok(ValM::Int(ps.len() as int)),
            _ => Err(EngineError::FunctionError),
        }
    }
}

/// `eq`: whether the first argument structurally equals any of the rest.
pub open spec fn s_eq(args: Seq<ValM>) -> Result<ValM, EngineError> {
    if args.len() < 2 {
        Err(EngineError::FunctionError)
    } else {
        Ok(ValM::Bool(exists|i: int| 1 <= i < args.len() && #[trigger] args[i] == args[0]))
    }
}

/// `ne`: structural inequality of exactly two arguments.
pub open spec fn s_ne(args: Seq<ValM>) -> Result<ValM, EngineError> {
    if args.len() != 2 {
        Err(EngineError::FunctionError)
    } else {
        Ok(ValM::Bool(args[0] != args[1]))
    }
}

/// The shared shape of the four integer-ordering functions.
pub open spec fn s_int_cmp(args: Seq<ValM>) -> Result<(int, int), EngineError> {
    if args.len() != 2 {
        Err(EngineError::FunctionError)
    } else {
        match (args[0], args[1]) {
            (ValM::Int(a), ValM::Int(b)) => Ok((a, b)),
            _ => Err(EngineError::FunctionError),
        }
    }
}

pub open spec fn s_lt(args: Seq<ValM>) -> Result<ValM, EngineError> {
    match s_int_cmp(args) {
        Ok((a, b)) => Ok(ValM::Bool(a < b)),
        Err(e) => Err(e),
    }
}

pub open spec fn s_le(args: Seq<ValM>) -> Result<ValM, EngineError> {
    match s_int_cmp(args) {
        Ok((a, b)) => Ok(ValM::Bool(a <= b)),
        Err(e) => Err(e),
    }
}

pub open spec fn s_gt(args: Seq<ValM>) -> Result<ValM, EngineError> {
    match s_int_cmp(args) {
        Ok((a, b)) => Ok(ValM::Bool(a > b)),
        Err(e) => Err(e),
    }
}

pub open spec fn s_ge(args: Seq<ValM>) -> Result<ValM, EngineError> {
    match s_int_cmp(args) {
        Ok((a, b)) => Ok(ValM::Bool(a >= b)),
        Err(e) => Err(e),
    }
}

/// `and`: the first untrue argument, or the last argument.
pub open spec fn s_and_from(args: Seq<ValM>, i: int) -> ValM
    decreases args.len() - i,
{
    if i < 0 || i >= args.len() - 1 || !is_true_m(args[i]) {
        args[i]
    } else {
        s_and_from(args, i + 1)
    }
}

pub open spec fn s_and(args: Seq<ValM>) -> Result<ValM, EngineError> {
    if args.len() == 0 {
        Err(EngineError::FunctionError)
    } else {
        Ok(s_and_from(args, 0))
    }
}

/// `or`: the first true argument, or the last argument.
pub open spec fn s_or_from(args: Seq<ValM>, i: int) -> ValM
    decreases args.len() - i,
{
    if i < 0 || i >= args.len() - 1 || is_true_m(args[i]) {
        args[i]
    } else {
        s_or_from(args, i + 1)
    }
}

pub open spec fn s_or(args: Seq<ValM>) -> Result<ValM, EngineError> {
    if args.len() == 0 {
        Err(EngineError::FunctionError)
    } else {
        Ok(s_or_from(args, 0))
    }
}

/// `not`: the boolean negation of the single argument's truth.
pub open spec fn s_not(args: Seq<ValM>) -> Result<ValM, EngineError> {
    if args.len() != 1 {
        Err(EngineError::FunctionError)
    } else {
        Ok(ValM::Bool(!is_true_m(args[0])))
    }
}

/// The texts of the operands from `i` on, a space between two adjacent
/// operands when neither is a string.
pub open spec fn s_print_join(args: Seq<ValM>, i: int) -> Option<Seq<char>>
    decreases args.len() - i,
{
    if i < 0 || i >= args.len() {
        Some(Seq::empty())
    } else {
        match text_of(args[i]) {
            None => None,
            Some(t) => match s_print_join(args, i + 1) {
                None => None,
                Some(r) => Some(
                    t + (if i + 1 < args.len() && !(args[i] is Str) && !(args[i + 1] is Str) {
                        seq![' ']
                    } else {
                        Seq::empty()
                    }) + r,
                ),
            },
        }
    }
}

/// `print`: the concatenated texts of the operands, spaces added between
/// adjacent non-string operands.
pub open spec fn s_print(args: Seq<ValM>) -> Result<ValM, EngineError> {
    match s_print_join(args, 0) {
        None => Err(EngineError::UnformattableValue),
        Some(t) => Ok(ValM::Str(t)),
    }
}

/// The texts of the operands from `i` on, a space between every two.
pub open spec fn s_println_join(args: Seq<ValM>, i: int) -> Option<Seq<char>>
    decreases args.len() - i,
{
    if i < 0 || i >= args.len() {
        Some(Seq::empty())
    } else {
        match text_of(args[i]) {
            None => None,
            Some(t) => match s_println_join(args, i + 1) {
                None => None,
                Some(r) => Some(
                    t + (if i + 1 < args.len() {
                        seq![' ']
                    } else {
                        Seq::empty()
                    }) + r,
                ),
            },
        }
    }
}

/// `println`: the operands' texts separated by spaces, with a final newline.
pub open spec fn s_println(args: Seq<ValM>) -> Result<ValM, EngineError> {
    match s_println_join(args, 0) {
        None => Err(EngineError::UnformattableValue),
        Some(t) => Ok(ValM::Str(t + seq!['\n'])),
    }
}

/// One step of `index`: a sequence indexed by an in-range integer, or a
/// mapping or record indexed by a string, a miss yielding the sentinel.
pub open spec fn s_index_step(v: ValM, key: ValM) -> Result<ValM, EngineError> {
    match (v, key) {
        (ValM::Arr(vs), ValM::Int(k)) => if 0 <= k < vs.len() {
            Ok(vs[k])
        } else {
            Err(EngineError::FunctionError)
        },
        (ValM::MapV(ps), ValM::Str(k)) => match s_lookup_pairs(ps, k, 0) {
            Some(r) => Ok(r),
            None => Ok(ValM::NoValue),
        },
        (ValM::Obj(ps), ValM::Str(k)) => match s_lookup_pairs(ps, k, 0) {
            Some(r) => Ok(r),
            None => Ok(ValM::NoValue),
        },
        _ => Err(EngineError::FunctionError),
    }
}

pub open spec fn s_index_from(v: ValM, args: Seq<ValM>, i: int) -> Result<ValM, EngineError>
    decreases args.len() - i,
{
    if i < 0 || i >= args.len() {
        Ok(v)
    } else {
        match s_index_step(v, args[i]) {
            Ok(r) => s_index_from(r, args, i + 1),
            Err(e) => Err(e),
        }
    }
}

/// `index`: the first argument indexed by each following key in turn.
pub open spec fn s_index(args: Seq<ValM>) -> Result<ValM, EngineError> {
    if args.len() < 2 {
        Err(EngineError::FunctionError)
    } else {
        s_index_from(args[0], args, 1)
    }
}

/// `printf` is preregistered but not interpreted: it always fails.
pub open spec fn s_printf(args: Seq<ValM>) -> Result<ValM, EngineError> {
    Err(EngineError::FunctionError)
}

/// What a call of a preregistered function returns; an identifier outside
/// the table is `UnknownFunction`.
pub open spec fn s_call_builtin(name: Seq<char>, args: Seq<ValM>) -> Result<ValM, EngineError> {
    if name == "len"@ { s_len(args) }
    else if name == "eq"@ { s_eq(args) }
    else if name == "ne"@ { s_ne(args) }
    else if name == "lt"@ { s_lt(args) }
    else if name == "le"@ { s_le(args) }
    else if name == "gt"@ { s_gt(args) }
    else if name == "ge"@ { s_ge(args) }
    else if name == "and"@ { s_and(args) }
    else if name == "or"@ { s_or(args) }
    else if name == "not"@ { s_not(args) }
    else if name == "print"@ { s_print(args) }
    else if name == "println"@ { s_println(args) }
    else if name == "printf"@ { s_printf(args) }
    else if name == "index"@ { s_index(args) }
    else { Err(EngineError::UnknownFunction) }
}

fn name_is(name: &String, lit: &str) -> (r: bool)
    ensures
        r == (name@ == lit@),
{
    *name == lit.to_owned()
}

/// Whether the identifier names a preregistered function.
pub fn is_function(name: &String) -> (r: bool)
    ensures
        r == is_builtin(name@),
{
    name_is(name, "len") || name_is(name, "eq") || name_is(name, "ne") || name_is(name, "lt")
        || name_is(name, "le") || name_is(name, "gt") || name_is(name, "ge") || name_is(
        name,
        "and",
    ) || name_is(name, "or") || name_is(name, "not") || name_is(name, "print") || name_is(
        name,
        "println",
    ) || name_is(name, "printf") || name_is(name, "index")
}

fn fn_len(args: &Vec<Value>) -> (r: Result<Value, EngineError>)
    ensures
        res_view(r) == s_len(vals_view(args@)),
{
    proof {
        lemma_vals_view(args@);
    }
    if args.len() != 1 {
        Err(EngineError::FunctionError)
    } else {
        proof {
            assert(vals_view(args@)[0] == args@[0]@);
        }
        match &args[0] {
            Value::Str(s) => {
                let l = s.as_str().unicode_len();
                Ok(Value::Int(l as i128))
            },
            Value::Arr(vs) => {
                proof {
                    lemma_vals_view(vs@);
                }
                Ok(Value::Int(vs.len() as i128))
            },
            Value::MapV(ps) => {
                proof {
                    lemma_pairs_view(ps@);
                }
                Ok(Value::Int(ps.len() as i128))
            },
            Value::Obj(ps) => {
                proof {
                    lemma_pairs_view(ps@);
                }
                Ok(Value::Int(ps.len() as i128))
            },
            _ => Err(EngineError::FunctionError),
        }
    }
}

fn fn_eq(args: &Vec<Value>) -> (r: Result<Value, EngineError>)
    ensures
        res_view(r) == s_eq(vals_view(args@)),
{
    proof {
        lemma_vals_view(args@);
    }
    if args.len() < 2 {
        return Err(EngineError::FunctionError);
    }
    let ghost vm = vals_view(args@);
    let mut i: usize = 1;
    while i < args.len()
        invariant
            1 <= i <= args@.len(),
            2 <= args@.len(),
            vm == vals_view(args@),
            vm.len() == args@.len(),
            forall|j: int| 0 <= j < args@.len() ==> vm[j] == #[trigger] args@[j]@,
            forall|j: int| 1 <= j < i ==> #[trigger] vm[j] != vm[0],
        decreases args@.len() - i,
    {
        if value_eq(&args[0], &args[i]) {
            proof {
                assert(vm[i as int] == vm[0]);
            }
            return Ok(Value::Bool(true));
        }
        i += 1;
    }
    Ok(Value::Bool(false))
}

fn fn_ne(args: &Vec<Value>) -> (r: Result<Value, EngineError>)
    ensures
        res_view(r) == s_ne(vals_view(args@)),
{
    proof {
        lemma_vals_view(args@);
    }
    if args.len() != 2 {
        Err(EngineError::FunctionError)
    } else {
        proof {
            assert(vals_view(args@)[0] == args@[0]@);
            assert(vals_view(args@)[1] == args@[1]@);
        }
        Ok(Value::Bool(!value_eq(&args[0], &args[1])))
    }
}

fn int_pair(args: &Vec<Value>) -> (r: Result<(i128, i128), EngineError>)
    ensures
        match s_int_cmp(vals_view(args@)) {
            Ok((a, b)) => r matches Ok(p) && p.0 as int == a && p.1 as int == b,
            Err(e) => r matches Err(x) && x == e,
        },
{
    proof {
        lemma_vals_view(args@);
    }
    if args.len() != 2 {
        Err(EngineError::FunctionError)
    } else {
        proof {
            assert(vals_view(args@)[0] == args@[0]@);
            assert(vals_view(args@)[1] == args@[1]@);
        }
        match (&args[0], &args[1]) {
            (Value::Int(a), Value::Int(b)) => Ok((*a, *b)),
            _ => Err(EngineError::FunctionError),
        }
    }
}

fn fn_lt(args: &Vec<Value>) -> (r: Result<Value, EngineError>)
    ensures
        res_view(r) == s_lt(vals_view(args@)),
{
    match int_pair(args) {
        Ok((a, b)) => Ok(Value::Bool(a < b)),
        Err(e) => Err(e),
    }
}

fn fn_le(args: &Vec<Value>) -> (r: Result<Value, EngineError>)
    ensures
        res_view(r) == s_le(vals_view(args@)),
{
    match int_pair(args) {
        Ok((a, b)) => Ok(Value::Bool(a <= b)),
        Err(e) => Err(e),
    }
}

fn fn_gt(args: &Vec<Value>) -> (r: Result<Value, EngineError>)
    ensures
        res_view(r) == s_gt(vals_view(args@)),
{
    match int_pair(args) {
        Ok((a, b)) => Ok(Value::Bool(a > b)),
        Err(e) => Err(e),
    }
}

fn fn_ge(args: &Vec<Value>) -> (r: Result<Value, EngineError>)
    ensures
        res_view(r) == s_ge(vals_view(args@)),
{
    match int_pair(args) {
        Ok((a, b)) => Ok(Value::Bool(a >= b)),
        Err(e) => Err(e),
    }
}

fn and_from(args: &Vec<Value>, i: usize) -> (r: Value)
    requires
        i < args@.len(),
    ensures
        r@ == s_and_from(vals_view(args@), i as int),
    decreases args@.len() - i,
{
    proof {
        lemma_vals_view(args@);
    }
    proof {
        assert(vals_view(args@)[i as int] == args@[i as int]@);
    }
    if i >= args.len() - 1 || !is_true(&args[i]) {
        args[i].deep_clone()
    } else {
        and_from(args, i + 1)
    }
}

fn fn_and(args: &Vec<Value>) -> (r: Result<Value, EngineError>)
    ensures
        res_view(r) == s_and(vals_view(args@)),
{
    proof {
        lemma_vals_view(args@);
    }
    if args.len() == 0 {
        Err(EngineError::FunctionError)
    } else {
        Ok(and_from(args, 0))
    }
}

fn or_from(args: &Vec<Value>, i: usize) -> (r: Value)
    requires
        i < args@.len(),
    ensures
        r@ == s_or_from(vals_view(args@), i as int),
    decreases args@.len() - i,
{
    proof {
        lemma_vals_view(args@);
    }
    proof {
        assert(vals_view(args@)[i as int] == args@[i as int]@);
    }
    if i >= args.len() - 1 || is_true(&args[i]) {
        args[i].deep_clone()
    } else {
        or_from(args, i + 1)
    }
}

fn fn_or(args: &Vec<Value>) -> (r: Result<Value, EngineError>)
    ensures
        res_view(r) == s_or(vals_view(args@)),
{
    proof {
        lemma_vals_view(args@);
    }
    if args.len() == 0 {
        Err(EngineError::FunctionError)
    } else {
        Ok(or_from(args, 0))
    }
}

fn fn_not(args: &Vec<Value>) -> (r: Result<Value, EngineError>)
    ensures
        res_view(r) == s_not(vals_view(args@)),
{
    proof {
        lemma_vals_view(args@);
    }
    if args.len() != 1 {
        Err(EngineError::FunctionError)
    } else {
        proof {
            assert(vals_view(args@)[0] == args@[0]@);
        }
        Ok(Value::Bool(!is_true(&args[0])))
    }
}

fn print_join(args: &Vec<Value>, i: usize) -> (r: Result<String, EngineError>)
    ensures
        match s_print_join(vals_view(args@), i as int) {
            Some(t) => r matches Ok(s) && s@ == t,
            None => r matches Err(e) && e == EngineError::UnformattableValue,
        },
    decreases args@.len() - i,
{
    proof {
        lemma_vals_view(args@);
    }
    if i >= args.len() {
        Ok(String::new())
    } else {
        proof {
            assert(vals_view(args@)[i as int] == args@[i as int]@);
            if i + 1 < args.len() {
                assert(vals_view(args@)[i + 1] == args@[i + 1]@);
            }
        }
        match value_text(&args[i]) {
            Err(e) => Err(e),
            Ok(t) => match print_join(args, i + 1) {
                Err(e) => Err(e),
                Ok(rest) => {
                    let mut out = t;
                    if i + 1 < args.len() && !(matches!(&args[i], Value::Str(_))) && !(matches!(
                        &args[i + 1],
                        Value::Str(_),
                    )) {
                        let ghost before = out@;
                        out.append(" ");
                        proof {
                            reveal_strlit(" ");
                            assert(out@ =~= before + seq![' ']);
                        }
                    }
                    out.append(rest.as_str());
                    Ok(out)
                },
            },
        }
    }
}

fn fn_print(args: &Vec<Value>) -> (r: Result<Value, EngineError>)
    ensures
        res_view(r) == s_print(vals_view(args@)),
{
    match print_join(args, 0) {
        Ok(t) => Ok(Value::Str(t)),
        Err(e) => Err(e),
    }
}

fn println_join(args: &Vec<Value>, i: usize) -> (r: Result<String, EngineError>)
    ensures
        match s_println_join(vals_view(args@), i as int) {
            Some(t) => r matches Ok(s) && s@ == t,
            None => r matches Err(e) && e == EngineError::UnformattableValue,
        },
    decreases args@.len() - i,
{
    proof {
        lemma_vals_view(args@);
    }
    if i >= args.len() {
        Ok(String::new())
    } else {
        proof {
            assert(vals_view(args@)[i as int] == args@[i as int]@);
            if i + 1 < args.len() {
                assert(vals_view(args@)[i + 1] == args@[i + 1]@);
            }
        }
        match value_text(&args[i]) {
            Err(e) => Err(e),
            Ok(t) => match println_join(args, i + 1) {
                Err(e) => Err(e),
                Ok(rest) => {
                    let mut out = t;
                    if i + 1 < args.len() {
                        let ghost before = out@;
                        out.append(" ");
                        proof {
                            reveal_strlit(" ");
                            assert(out@ =~= before + seq![' ']);
                        }
                    }
                    out.append(rest.as_str());
                    Ok(out)
                },
            },
        }
    }
}

fn fn_println(args: &Vec<Value>) -> (r: Result<Value, EngineError>)
    ensures
        res_view(r) == s_println(vals_view(args@)),
{
    match println_join(args, 0) {
        Ok(t) => {
            let mut out = t;
            let ghost before = out@;
            out.append("\n");
            proof {
                reveal_strlit("\n");
                assert(out@ =~= before + seq!['\n']);
            }
            Ok(Value::Str(out))
        },
        Err(e) => Err(e),
    }
}

fn index_step(v: &Value, key: &Value) -> (r: Result<Value, EngineError>)
    ensures
        res_view(r) == s_index_step(v@, key@),
{
    match (v, key) {
        (Value::Arr(vs), Value::Int(k)) => {
            proof {
                lemma_vals_view(vs@);
            }
            if 0 <= *k && *k < vs.len() as i128 {
                Ok(vs[*k as usize].deep_clone())
            } else {
                Err(EngineError::FunctionError)
            }
        },
        (Value::MapV(ps), Value::Str(k)) => {
            proof {
                lemma_pairs_view(ps@);
            }
            match lookup_pair(ps, k, 0) {
                Some(x) => Ok(x),
                None => Ok(Value::NoValue),
            }
        },
        (Value::Obj(ps), Value::Str(k)) => {
            proof {
                lemma_pairs_view(ps@);
            }
            match lookup_pair(ps, k, 0) {
                Some(x) => Ok(x),
                None => Ok(Value::NoValue),
            }
        },
        _ => Err(EngineError::FunctionError),
    }
}

fn index_from(v: Value, args: &Vec<Value>, i: usize) -> (r: Result<Value, EngineError>)
    ensures
        res_view(r) == s_index_from(v@, vals_view(args@), i as int),
    decreases args@.len() - i,
{
    proof {
        lemma_vals_view(args@);
    }
    if i >= args.len() {
        Ok(v)
    } else {
        proof {
            assert(vals_view(args@)[i as int] == args@[i as int]@);
        }
        match index_step(&v, &args[i]) {
            Ok(r) => index_from(r, args, i + 1),
            Err(e) => Err(e),
        }
    }
}

fn fn_index(args: &Vec<Value>) -> (r: Result<Value, EngineError>)
    ensures
        res_view(r) == s_index(vals_view(args@)),
{
    proof {
        lemma_vals_view(args@);
    }
    if args.len() < 2 {
        Err(EngineError::FunctionError)
    } else {
        proof {
            assert(vals_view(args@)[0] == args@[0]@);
        }
        index_from(args[0].deep_clone(), args, 1)
    }
}

/// Calls the function the identifier names on the evaluated arguments.
pub fn call_builtin(name: &String, args: &Vec<Value>) -> (r: Result<Value, EngineError>)
    ensures
        res_view(r) == s_call_builtin(name@, vals_view(args@)),
{
    if name_is(name, "len") {
        fn_len(args)
    } else if name_is(name, "eq") {
        fn_eq(args)
    } else if name_is(name, "ne") {
        fn_ne(args)
    } else if name_is(name, "lt") {
        fn_lt(args)
    } else if name_is(name, "le") {
        fn_le(args)
    } else if name_is(name, "gt") {
        fn_gt(args)
    } else if name_is(name, "ge") {
        fn_ge(args)
    } else if name_is(name, "and") {
        fn_and(args)
    } else if name_is(name, "or") {
        fn_or(args)
    } else if name_is(name, "not") {
        fn_not(args)
    } else if name_is(name, "print") {
        fn_print(args)
    } else if name_is(name, "println") {
        fn_println(args)
    } else if name_is(name, "printf") {
        Err(EngineError::FunctionError)
    } else if name_is(name, "index") {
        fn_index(args)
    } else {
        Err(EngineError::UnknownFunction)
    }
}

} // verus!
