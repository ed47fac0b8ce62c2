//! Behavior tests: canonical formatting, boundary behavior of `range` and
//! `with`, template isolation, the error kinds, and the built-in functions.

use gtmpl_exec::errors::EngineError;
use gtmpl_exec::exec::Context;
use gtmpl_exec::node::{Branch, Command, Node, Pipe, Template};
use gtmpl_exec::value::{FloatVal, Pair, Value};

fn txt(s: &str) -> Node {
    Node::Text(s.to_string())
}

fn cmd(args: Vec<Node>) -> Command {
    Command { args }
}

fn pipe(cmds: Vec<Command>) -> Pipe {
    Pipe { decl: vec![], cmds }
}

fn action(args: Vec<Node>) -> Node {
    Node::Action(pipe(vec![cmd(args)]))
}

fn field(names: Vec<&str>) -> Node {
    Node::Field(names.iter().map(|s| s.to_string()).collect())
}

fn variable(names: Vec<&str>) -> Node {
    Node::Variable(names.iter().map(|s| s.to_string()).collect())
}

fn ident(name: &str) -> Node {
    Node::Ident(name.to_string())
}

fn num(i: i128) -> Value {
    Value::Int(i)
}

fn vstr(s: &str) -> Value {
    Value::Str(s.to_string())
}

fn obj(entries: Vec<(&str, Value)>) -> Value {
    Value::Obj(entries.into_iter().map(|(k, v)| Pair { key: k.to_string(), val: v }).collect())
}

fn mapv(entries: Vec<(&str, Value)>) -> Value {
    Value::MapV(entries.into_iter().map(|(k, v)| Pair { key: k.to_string(), val: v }).collect())
}

fn render_one(root: Node, dot: Value) -> Result<String, EngineError> {
    let mut t = Template::default();
    t.add_tree("main", root);
    t.render(&Context::from(dot).unwrap())
}

#[test]
fn dot_renders_canonical_text() {
    assert_eq!(render_one(action(vec![Node::Dot]), num(7)).unwrap(), "7");
    assert_eq!(render_one(action(vec![Node::Dot]), num(-42)).unwrap(), "-42");
    assert_eq!(render_one(action(vec![Node::Dot]), vstr("hi")).unwrap(), "hi");
    assert_eq!(render_one(action(vec![Node::Dot]), Value::Bool(true)).unwrap(), "true");
    assert_eq!(render_one(action(vec![Node::Dot]), Value::Bool(false)).unwrap(), "false");
    assert_eq!(render_one(action(vec![Node::Dot]), Value::Null).unwrap(), "<nil>");
    assert_eq!(render_one(action(vec![Node::Dot]), Value::NoValue).unwrap(), "<no value>");
    let f = Value::Float(FloatVal { bits: 1.5f64.to_bits(), text: format!("{}", 1.5f64) });
    assert_eq!(render_one(action(vec![Node::Dot]), f).unwrap(), "1.5");
    assert_eq!(
        render_one(action(vec![Node::Dot]), Value::Arr(vec![num(1), num(2), num(3)])).unwrap(),
        "[1 2 3]",
    );
    assert_eq!(
        render_one(action(vec![Node::Dot]), mapv(vec![("a", num(1)), ("b", num(2))])).unwrap(),
        "map[a:1 b:2]",
    );
}

#[test]
fn dot_renders_extreme_integers() {
    assert_eq!(
        render_one(action(vec![Node::Dot]), num(i128::MIN)).unwrap(),
        "-170141183460469231731687303715884105728",
    );
    assert_eq!(
        render_one(action(vec![Node::Dot]), num(i128::MAX)).unwrap(),
        "170141183460469231731687303715884105727",
    );
    assert_eq!(render_one(action(vec![Node::Dot]), num(0)).unwrap(), "0");
}

#[test]
fn rendering_twice_is_identical() {
    let mut t = Template::default();
    t.add_tree(
        "main",
        Node::List(vec![txt("x="), action(vec![field(vec!["x"])]), txt("!")]),
    );
    let data = Context::from(obj(vec![("x", num(9))])).unwrap();
    let first = t.render(&data).unwrap();
    let second = t.render(&data).unwrap();
    assert_eq!(first, second);
    assert_eq!(first, "x=9!");
}

#[test]
fn range_empty_runs_else_iff_present() {
    let with_else = Node::Range(Branch {
        pipe: pipe(vec![cmd(vec![Node::Dot])]),
        body: vec![txt("B")],
        else_body: Some(vec![txt("E")]),
    });
    assert_eq!(render_one(with_else, Value::Arr(vec![])).unwrap(), "E");

    let without_else = Node::Range(Branch {
        pipe: pipe(vec![cmd(vec![Node::Dot])]),
        body: vec![txt("B")],
        else_body: None,
    });
    assert_eq!(render_one(without_else, Value::Arr(vec![])).unwrap(), "");
}

#[test]
fn range_nonempty_skips_else() {
    let tree = Node::Range(Branch {
        pipe: pipe(vec![cmd(vec![Node::Dot])]),
        body: vec![action(vec![Node::Dot])],
        else_body: Some(vec![txt("E")]),
    });
    assert_eq!(render_one(tree, Value::Arr(vec![num(1), num(2)])).unwrap(), "12");
}

#[test]
fn range_not_iterable_fails_not_else() {
    let tree = Node::Range(Branch {
        pipe: pipe(vec![cmd(vec![Node::Dot])]),
        body: vec![txt("B")],
        else_body: Some(vec![txt("E")]),
    });
    assert_eq!(render_one(tree, num(5)), Err(EngineError::RangeNotIterable));
}

#[test]
fn with_falsy_does_not_shadow_dot() {
    // {{ with .foo }}X{{ else }}{{ .bar }}{{ end }}, foo untrue
    let tree = Node::With(Branch {
        pipe: pipe(vec![cmd(vec![field(vec!["foo"])])]),
        body: vec![txt("X")],
        else_body: Some(vec![action(vec![field(vec!["bar"])])]),
    });
    let out = render_one(tree, obj(vec![("foo", num(0)), ("bar", num(7))]));
    assert_eq!(out.unwrap(), "7");
}

#[test]
fn template_call_sets_new_dot() {
    let mut t = Template::default();
    t.add_tree(
        "main",
        Node::List(vec![Node::TemplateCall {
            name: "sub".to_string(),
            pipe: Some(pipe(vec![cmd(vec![field(vec!["foo"])])])),
        }]),
    );
    t.add_tree("sub", Node::List(vec![action(vec![Node::Dot])]));
    let out = t.render(&Context::from(obj(vec![("foo", num(1))])).unwrap());
    assert_eq!(out.unwrap(), "1");
}

#[test]
fn template_isolation_of_variables() {
    // The nested template declares $x; the caller cannot see it afterwards.
    let mut t = Template::default();
    t.add_tree(
        "main",
        Node::List(vec![
            Node::TemplateCall { name: "sub".to_string(), pipe: None },
            action(vec![variable(vec!["$x"])]),
        ]),
    );
    t.add_tree(
        "sub",
        Node::List(vec![Node::Action(Pipe {
            decl: vec!["$x".to_string()],
            cmds: vec![cmd(vec![Node::Dot])],
        })]),
    );
    let out = t.render(&Context::from(num(1)).unwrap());
    assert_eq!(out, Err(EngineError::UnboundVariable));
}

#[test]
fn declared_variable_suppresses_output_and_binds() {
    // {{ $x := . }}{{ $x }}
    let tree = Node::List(vec![
        Node::Action(Pipe { decl: vec!["$x".to_string()], cmds: vec![cmd(vec![Node::Dot])] }),
        action(vec![variable(vec!["$x"])]),
    ]);
    assert_eq!(render_one(tree, num(5)).unwrap(), "5");
}

#[test]
fn error_kinds_are_the_documented_ones() {
    // root template missing
    let t = Template::default();
    assert_eq!(t.render(&Context::from(num(1)).unwrap()), Err(EngineError::IncompleteTemplate));

    // named template missing
    let tree = Node::List(vec![Node::TemplateCall { name: "nope".to_string(), pipe: None }]);
    assert_eq!(render_one(tree, num(1)), Err(EngineError::UnknownTemplate));

    // unbound variable
    assert_eq!(
        render_one(action(vec![variable(vec!["$x"])]), num(1)),
        Err(EngineError::UnboundVariable),
    );

    // field miss on a record
    assert_eq!(
        render_one(action(vec![field(vec!["nope"])]), obj(vec![("foo", num(1))])),
        Err(EngineError::MissingField),
    );

    // field access on a scalar
    assert_eq!(render_one(action(vec![field(vec!["foo"])]), num(1)), Err(EngineError::NotIndexable));

    // arguments to a non-function
    assert_eq!(
        render_one(action(vec![Node::Bool(true), Node::Number(num(1))]), num(1)),
        Err(EngineError::NotAFunction),
    );

    // a pipeline tail fed into a field access
    let piped = Node::Action(pipe(vec![
        cmd(vec![Node::Number(num(1))]),
        cmd(vec![field(vec!["foo"])]),
    ]));
    assert_eq!(
        render_one(piped, obj(vec![("foo", num(1))])),
        Err(EngineError::NotCallable),
    );

    // a chain through explicit nil
    let chain = Node::Chain { base: Box::new(Node::Nil), fields: vec!["a".to_string()] };
    assert_eq!(render_one(action(vec![chain]), num(1)), Err(EngineError::IndirectionThroughNil));

    // an identifier outside the function table
    assert_eq!(render_one(action(vec![ident("nosuch")]), num(1)), Err(EngineError::UnknownFunction));

    // a function that rejects its arguments
    assert_eq!(
        render_one(action(vec![ident("len"), Node::Dot, Node::Dot]), num(1)),
        Err(EngineError::FunctionError),
    );

    // an argument node kind the evaluator does not accept
    assert_eq!(
        render_one(action(vec![ident("eq"), Node::Nil, Node::Nil]), num(1)),
        Err(EngineError::UnsupportedArg),
    );

    // printing the empty-context sentinel
    let mut t = Template::default();
    t.add_tree("main", action(vec![Node::Dot]));
    assert_eq!(t.render(&Context::empty()), Err(EngineError::UnformattableValue));

    // an empty pipeline
    assert_eq!(
        render_one(Node::Action(pipe(vec![])), num(1)),
        Err(EngineError::MalformedTree),
    );

    // unbounded template recursion
    let mut t = Template::default();
    t.add_tree(
        "main",
        Node::List(vec![Node::TemplateCall { name: "main".to_string(), pipe: None }]),
    );
    assert_eq!(
        t.render(&Context::from(num(1)).unwrap()),
        Err(EngineError::TemplateRecursionTooDeep),
    );
}

#[test]
fn execute_keeps_partial_output_on_error() {
    let mut t = Template::default();
    t.add_tree(
        "main",
        Node::List(vec![txt("A"), action(vec![field(vec!["foo"])]), txt("B")]),
    );
    let mut out = String::new();
    let r = t.execute(&mut out, &Context::from(num(1)).unwrap());
    assert_eq!(r, Err(EngineError::NotIndexable));
    assert_eq!(out, "A");
}

#[test]
fn builtin_comparisons() {
    let guard = |args: Vec<Node>| {
        Node::List(vec![Node::If(Branch {
            pipe: pipe(vec![cmd(args)]),
            body: vec![txt("y")],
            else_body: Some(vec![txt("n")]),
        })])
    };
    assert_eq!(
        render_one(guard(vec![ident("lt"), Node::Number(num(1)), Node::Number(num(2))]), num(1))
            .unwrap(),
        "y",
    );
    assert_eq!(
        render_one(guard(vec![ident("le"), Node::Number(num(2)), Node::Number(num(2))]), num(1))
            .unwrap(),
        "y",
    );
    assert_eq!(
        render_one(guard(vec![ident("gt"), Node::Number(num(1)), Node::Number(num(2))]), num(1))
            .unwrap(),
        "n",
    );
    assert_eq!(
        render_one(guard(vec![ident("ge"), Node::Number(num(3)), Node::Number(num(2))]), num(1))
            .unwrap(),
        "y",
    );
    assert_eq!(
        render_one(
            guard(vec![ident("ne"), Node::Str("a".to_string()), Node::Str("b".to_string())]),
            num(1),
        )
        .unwrap(),
        "y",
    );
    assert_eq!(
        render_one(guard(vec![ident("not"), Node::Number(num(0))]), num(1)).unwrap(),
        "y",
    );
}

#[test]
fn builtin_and_or_return_operands() {
    assert_eq!(
        render_one(action(vec![ident("and"), Node::Number(num(1)), Node::Number(num(2))]), num(0))
            .unwrap(),
        "2",
    );
    assert_eq!(
        render_one(action(vec![ident("and"), Node::Number(num(0)), Node::Number(num(2))]), num(0))
            .unwrap(),
        "0",
    );
    assert_eq!(
        render_one(action(vec![ident("or"), Node::Number(num(0)), Node::Number(num(2))]), num(0))
            .unwrap(),
        "2",
    );
}

#[test]
fn builtin_index() {
    assert_eq!(
        render_one(
            action(vec![ident("index"), Node::Dot, Node::Number(num(1))]),
            Value::Arr(vec![num(10), num(20), num(30)]),
        )
        .unwrap(),
        "20",
    );
    assert_eq!(
        render_one(
            action(vec![ident("index"), Node::Dot, Node::Str("b".to_string())]),
            mapv(vec![("a", num(1)), ("b", num(2))]),
        )
        .unwrap(),
        "2",
    );
    assert_eq!(
        render_one(
            action(vec![ident("index"), Node::Dot, Node::Str("zz".to_string())]),
            mapv(vec![("a", num(1))]),
        )
        .unwrap(),
        "<no value>",
    );
}

#[test]
fn builtin_print_spacing() {
    // spaces only between adjacent non-string operands
    assert_eq!(
        render_one(action(vec![ident("print"), Node::Number(num(1)), Node::Number(num(2))]), num(0))
            .unwrap(),
        "1 2",
    );
    assert_eq!(
        render_one(
            action(vec![ident("print"), Node::Str("a".to_string()), Node::Number(num(1))]),
            num(0),
        )
        .unwrap(),
        "a1",
    );
    assert_eq!(
        render_one(
            action(vec![ident("println"), Node::Number(num(1)), Node::Number(num(2))]),
            num(0),
        )
        .unwrap(),
        "1 2\n",
    );
}

#[test]
fn printf_is_registered_but_refuses() {
    // registered: the failure is the function's own, not an unknown name
    assert_eq!(
        render_one(action(vec![ident("printf"), Node::Str("x".to_string())]), num(0)),
        Err(EngineError::FunctionError),
    );
}

#[test]
fn eq_accepts_several_candidates() {
    // eq a b1 b2: true when any of the rest equals the first
    let guard = |args: Vec<Node>| {
        Node::List(vec![Node::If(Branch {
            pipe: pipe(vec![cmd(args)]),
            body: vec![txt("y")],
            else_body: Some(vec![txt("n")]),
        })])
    };
    assert_eq!(
        render_one(
            guard(vec![ident("eq"), Node::Number(num(1)), Node::Number(num(2)), Node::Number(num(1))]),
            num(0),
        )
        .unwrap(),
        "y",
    );
    assert_eq!(
        render_one(
            guard(vec![ident("eq"), Node::Number(num(1)), Node::Number(num(2)), Node::Number(num(3))]),
            num(0),
        )
        .unwrap(),
        "n",
    );
}

#[test]
fn string_literal_is_a_value() {
    assert_eq!(render_one(action(vec![Node::Str("lit".to_string())]), num(0)).unwrap(), "lit");
}
