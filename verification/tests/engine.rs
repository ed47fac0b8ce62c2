//! End-to-end tests of the template engine: trees are built by hand in the
//! shape the parser would produce (text trimming already applied).

use gtmpl_exec::errors::EngineError;
use gtmpl_exec::exec::Context;
use gtmpl_exec::node::{Branch, Command, Node, Pipe, Template};
use gtmpl_exec::value::{FloatVal, Pair, Value};

fn txt(s: &str) -> Node {
    Node::Text(s.to_string())
}

fn cmd(args: Vec<Node>) -> Command {
    Command { args }
}

fn pipe(cmds: Vec<Command>) -> Pipe {
    Pipe { decl: vec![], cmds }
}

fn pipe_decl(decl: Vec<&str>, cmds: Vec<Command>) -> Pipe {
    Pipe { decl: decl.iter().map(|s| s.to_string()).collect(), cmds }
}

fn field(names: Vec<&str>) -> Node {
    Node::Field(names.iter().map(|s| s.to_string()).collect())
}

fn variable(names: Vec<&str>) -> Node {
    Node::Variable(names.iter().map(|s| s.to_string()).collect())
}

fn ident(name: &str) -> Node {
    Node::Ident(name.to_string())
}

fn action(args: Vec<Node>) -> Node {
    Node::Action(pipe(vec![cmd(args)]))
}

fn if_node(guard: Vec<Node>, body: Vec<Node>, else_body: Option<Vec<Node>>) -> Node {
    Node::If(Branch { pipe: pipe(vec![cmd(guard)]), body, else_body })
}

fn with_node(guard: Vec<Node>, body: Vec<Node>, else_body: Option<Vec<Node>>) -> Node {
    Node::With(Branch { pipe: pipe(vec![cmd(guard)]), body, else_body })
}

fn num(i: i128) -> Value {
    Value::Int(i)
}

fn vstr(s: &str) -> Value {
    Value::Str(s.to_string())
}

fn float(f: f64) -> Value {
    Value::Float(FloatVal { bits: f.to_bits(), text: format!("{}", f) })
}

fn pairs(entries: Vec<(&str, Value)>) -> Vec<Pair> {
    entries.into_iter().map(|(k, v)| Pair { key: k.to_string(), val: v }).collect()
}

fn obj(entries: Vec<(&str, Value)>) -> Value {
    Value::Obj(pairs(entries))
}

fn mapv(entries: Vec<(&str, Value)>) -> Value {
    Value::MapV(pairs(entries))
}

fn new_tmpl(root: Node) -> Template {
    let mut t = Template::default();
    t.add_tree("main", root);
    t
}

fn render_one(root: Node, dot: Value) -> Result<String, EngineError> {
    let t = new_tmpl(root);
    let data = Context::from(dot).unwrap();
    t.render(&data)
}

fn to_sorted_string(s: String) -> String {
    let mut chars: Vec<char> = s.chars().collect();
    chars.sort();
    chars.iter().cloned().collect::<String>()
}

#[test]
fn simple_template() {
    // {{ if false }} 2000 {{ end }}, dot 1
    let out = render_one(
        Node::List(vec![if_node(vec![Node::Bool(false)], vec![txt(" 2000 ")], None)]),
        num(1),
    );
    assert!(out.is_ok());
    assert_eq!(out.unwrap(), "");

    // {{ if true }} 2000 {{ end }}
    let out = render_one(
        Node::List(vec![if_node(vec![Node::Bool(true)], vec![txt(" 2000 ")], None)]),
        num(1),
    );
    assert!(out.is_ok());
    assert_eq!(out.unwrap(), " 2000 ");

    // {{ if true -}} 2000 {{- end }}
    let out = render_one(
        Node::List(vec![if_node(vec![Node::Bool(true)], vec![txt("2000")], None)]),
        num(1),
    );
    assert!(out.is_ok());
    assert_eq!(out.unwrap(), "2000");

    // {{ if false -}} 2000 {{- else -}} 3000 {{- end }}
    let out = render_one(
        Node::List(vec![
            if_node(vec![Node::Bool(false)], vec![txt("2000")], Some(vec![txt("3000")])),
        ]),
        num(1),
    );
    assert!(out.is_ok());
    assert_eq!(out.unwrap(), "3000");
}

#[test]
fn test_dot() {
    // {{ if . -}} 2000 {{- else -}} 3000 {{- end }}, dot 1
    let out = render_one(
        Node::List(vec![if_node(vec![Node::Dot], vec![txt("2000")], Some(vec![txt("3000")]))]),
        num(1),
    );
    assert!(out.is_ok());
    assert_eq!(out.unwrap(), "2000");

    // same, dot false
    let out = render_one(
        Node::List(vec![if_node(vec![Node::Dot], vec![txt("2000")], Some(vec![txt("3000")]))]),
        Value::Bool(false),
    );
    assert!(out.is_ok());
    assert_eq!(out.unwrap(), "3000");
}

#[test]
fn test_sub() {
    // {{.}}, dot 1
    let out = render_one(Node::List(vec![action(vec![Node::Dot])]), num(1));
    assert!(out.is_ok());
    assert_eq!(out.unwrap(), "1");

    // {{.foo}}, dot a record with foo = 1
    let out = render_one(
        Node::List(vec![action(vec![field(vec!["foo"])])]),
        obj(vec![("foo", num(1))]),
    );
    assert!(out.is_ok());
    assert_eq!(out.unwrap(), "1");
}

#[test]
fn test_novalue() {
    // {{.foobar}} on a record without the field: an error
    let out = render_one(
        Node::List(vec![action(vec![field(vec!["foobar"])])]),
        obj(vec![("foo", num(1))]),
    );
    assert!(out.is_err());

    // {{.foo2}} on a mapping without the key: the sentinel text
    let out = render_one(
        Node::List(vec![action(vec![field(vec!["foo2"])])]),
        mapv(vec![("foo", num(23))]),
    );
    assert!(out.is_ok());
    assert_eq!(out.unwrap(), "<no value>");
}

#[test]
fn test_dollar_dot() {
    // {{$.foo}}
    let out = render_one(
        Node::List(vec![action(vec![variable(vec!["$", "foo"])])]),
        obj(vec![("foo", num(1))]),
    );
    assert!(out.is_ok());
    assert_eq!(out.unwrap(), "1");
}

#[test]
fn test_dot_value() {
    // {{ if .foo -}} 2000 {{- else -}} 3000 {{- end }}, foo = 1
    let tree = || Node::List(vec![
        if_node(vec![field(vec!["foo"])], vec![txt("2000")], Some(vec![txt("3000")])),
    ]);
    let out = render_one(tree(), obj(vec![("foo", num(1))]));
    assert!(out.is_ok());
    assert_eq!(out.unwrap(), "2000");

    // foo = 0
    let out = render_one(tree(), obj(vec![("foo", num(0))]));
    assert!(out.is_ok());
    assert_eq!(out.unwrap(), "3000");

    // {{ if .bar.foo -}} ... across two records
    let deep = || Node::List(vec![
        if_node(vec![field(vec!["bar", "foo"])], vec![txt("2000")], Some(vec![txt("3000")])),
    ]);
    let out = render_one(deep(), obj(vec![("bar", obj(vec![("foo", num(1))]))]));
    assert!(out.is_ok());
    assert_eq!(out.unwrap(), "2000");

    let out = render_one(deep(), obj(vec![("bar", obj(vec![("foo", num(0))]))]));
    assert!(out.is_ok());
    assert_eq!(out.unwrap(), "3000");
}

#[test]
fn test_with() {
    // {{ with .foo -}} {{.}} {{- else -}} 3000 {{- end }}, foo = 1000
    let out = render_one(
        Node::List(vec![
            with_node(
                vec![field(vec!["foo"])],
                vec![action(vec![Node::Dot])],
                Some(vec![txt("3000")]),
            ),
        ]),
        obj(vec![("foo", num(1000))]),
    );
    assert!(out.is_ok());
    assert_eq!(out.unwrap(), "1000");
}

#[test]
fn test_range() {
    // {{ range . -}} {{.}} {{- end }}, dot a mapping {a:1, b:2}
    let range = Node::Range(Branch {
        pipe: pipe(vec![cmd(vec![Node::Dot])]),
        body: vec![action(vec![Node::Dot])],
        else_body: None,
    });
    let out = render_one(
        Node::List(vec![range]),
        mapv(vec![("a", num(1)), ("b", num(2))]),
    );
    assert!(out.is_ok());
    assert_eq!(to_sorted_string(out.unwrap()), "12");

    // dot an array ["foo", "bar", "2000"]
    let range = Node::Range(Branch {
        pipe: pipe(vec![cmd(vec![Node::Dot])]),
        body: vec![action(vec![Node::Dot])],
        else_body: None,
    });
    let out = render_one(
        Node::List(vec![range]),
        Value::Arr(vec![vstr("foo"), vstr("bar"), vstr("2000")]),
    );
    assert!(out.is_ok());
    assert_eq!(out.unwrap(), "foobar2000");
}

#[test]
fn test_proper_range() {
    // {{ range $k, $v := . -}} {{ $v }} {{- end }}, dot {a:1, b:2}
    let tree = Node::List(vec![Node::Range(Branch {
        pipe: pipe_decl(vec!["$k", "$v"], vec![cmd(vec![Node::Dot])]),
        body: vec![action(vec![variable(vec!["$v"])])],
        else_body: None,
    })]);
    let out = render_one(tree, mapv(vec![("a", num(1)), ("b", num(2))]));
    assert!(out.is_ok());
    assert_eq!(to_sorted_string(out.unwrap()), "12");

    // {{ range $k, $v := . -}} {{ $k }}{{ $v }} {{- end }}, dot {a:"b", c:"d"}
    let tree = Node::List(vec![Node::Range(Branch {
        pipe: pipe_decl(vec!["$k", "$v"], vec![cmd(vec![Node::Dot])]),
        body: vec![action(vec![variable(vec!["$k"])]), action(vec![variable(vec!["$v"])])],
        else_body: None,
    })]);
    let out = render_one(tree, mapv(vec![("a", vstr("b")), ("c", vstr("d"))]));
    assert!(out.is_ok());
    assert_eq!(to_sorted_string(out.unwrap()), "abcd");

    // same shape over {a:1, b:2}
    let tree = Node::List(vec![Node::Range(Branch {
        pipe: pipe_decl(vec!["$k", "$v"], vec![cmd(vec![Node::Dot])]),
        body: vec![action(vec![variable(vec!["$k"])]), action(vec![variable(vec!["$v"])])],
        else_body: None,
    })]);
    let out = render_one(tree, mapv(vec![("a", num(1)), ("b", num(2))]));
    assert!(out.is_ok());
    assert_eq!(to_sorted_string(out.unwrap()), "12ab");

    // {{ range $k, $v := .foo -}} {{ $v }} {{- end }}, foo a mapping
    let tree = Node::List(vec![Node::Range(Branch {
        pipe: pipe_decl(vec!["$k", "$v"], vec![cmd(vec![field(vec!["foo"])])]),
        body: vec![action(vec![variable(vec!["$v"])])],
        else_body: None,
    })]);
    let out = render_one(tree, obj(vec![("foo", mapv(vec![("a", num(1)), ("b", num(2))]))]));
    assert!(out.is_ok());
    assert_eq!(to_sorted_string(out.unwrap()), "12");

    // {{ range $k, $v := . -}} {{ $v.bar }} {{- end }}, values are records
    let tree = Node::List(vec![Node::Range(Branch {
        pipe: pipe_decl(vec!["$k", "$v"], vec![cmd(vec![Node::Dot])]),
        body: vec![action(vec![variable(vec!["$v", "bar"])])],
        else_body: None,
    })]);
    let out = render_one(
        tree,
        mapv(vec![
            ("a", obj(vec![("bar", num(1))])),
            ("b", obj(vec![("bar", num(2))])),
        ]),
    );
    assert!(out.is_ok());
    assert_eq!(to_sorted_string(out.unwrap()), "12");
}

#[test]
fn test_len() {
    // my len is {{ len . }}, dot [1,2,3]
    let out = render_one(
        Node::List(vec![txt("my len is "), action(vec![ident("len"), Node::Dot])]),
        Value::Arr(vec![num(1), num(2), num(3)]),
    );
    assert!(out.is_ok());
    assert_eq!(out.unwrap(), "my len is 3");

    // {{ len . }}, dot "hello"
    let out = render_one(
        Node::List(vec![action(vec![ident("len"), Node::Dot])]),
        vstr("hello"),
    );
    assert!(out.is_ok());
    assert_eq!(out.unwrap(), "5");
}

#[test]
fn test_pipeline_function() {
    // {{ if ( 1 | eq . ) -}} 2000 {{- end }}, dot 1
    let sub = Node::Pipe(pipe(vec![
        cmd(vec![Node::Number(num(1))]),
        cmd(vec![ident("eq"), Node::Dot]),
    ]));
    let out = render_one(
        Node::List(vec![if_node(vec![sub], vec![txt("2000")], None)]),
        num(1),
    );
    assert!(out.is_ok());
    assert_eq!(out.unwrap(), "2000");
}

#[test]
fn test_function() {
    // {{ if eq . . -}} 2000 {{- end }}, dot 1
    let out = render_one(
        Node::List(vec![if_node(vec![ident("eq"), Node::Dot, Node::Dot], vec![txt("2000")], None)]),
        num(1),
    );
    assert!(out.is_ok());
    assert_eq!(out.unwrap(), "2000");
}

#[test]
fn test_eq() {
    let eq_template = |a: Node, b: Node| {
        Node::List(vec![if_node(vec![ident("eq"), a, b], vec![txt("2000")], None)])
    };

    // {{ if eq "a" "a" -}} 2000 {{- end }}
    let out = render_one(eq_template(Node::Str("a".to_string()), Node::Str("a".to_string())), num(1));
    assert!(out.is_ok());
    assert_eq!(out.unwrap(), "2000");

    // {{ if eq "a" "b" -}} 2000 {{- end }}
    let out = render_one(eq_template(Node::Str("a".to_string()), Node::Str("b".to_string())), num(1));
    assert!(out.is_ok());
    assert_eq!(out.unwrap(), "");

    // {{ if eq true true -}} 2000 {{- end }}
    let out = render_one(eq_template(Node::Bool(true), Node::Bool(true)), num(1));
    assert!(out.is_ok());
    assert_eq!(out.unwrap(), "2000");

    // {{ if eq true false -}} 2000 {{- end }}
    let out = render_one(eq_template(Node::Bool(true), Node::Bool(false)), num(1));
    assert!(out.is_ok());
    assert_eq!(out.unwrap(), "");

    // {{ if eq 23.42 23.42 -}} 2000 {{- end }}
    let out = render_one(
        eq_template(Node::Number(float(23.42)), Node::Number(float(23.42))),
        num(1),
    );
    assert!(out.is_ok());
    assert_eq!(out.unwrap(), "2000");

    // {{ if eq 1 . -}} 2000 {{- end }}, dot 1
    let out = render_one(eq_template(Node::Number(num(1)), Node::Dot), num(1));
    assert!(out.is_ok());
    assert_eq!(out.unwrap(), "2000");
}
