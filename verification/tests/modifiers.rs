use brush_codegen::decl::{Receiver, Signature};
use brush_codegen::error::ErrorKind;
use brush_codegen::modifiers::{
    modifier_definition, modifiers, Chain, ExtraParam, Invocation, ModifierDecl, Passing,
};
use std::collections::HashMap;

fn decl(name: &str, ret: &str) -> ModifierDecl {
    ModifierDecl {
        name: name.to_string(),
        receiver: Receiver::Static,
        instance: Passing::MutableReference,
        thunk_ret: ret.to_string(),
        extras: vec![],
        ret: ret.to_string(),
    }
}

fn invoke(name: &str, args: &[&str]) -> Invocation {
    Invocation { modifier: name.to_string(), args: args.iter().map(|a| a.to_string()).collect() }
}

fn method(ret: &str) -> Signature {
    Signature {
        name: "main_logic".to_string(),
        receiver: Receiver::Shared,
        params: vec![],
        ret: ret.to_string(),
    }
}

fn wrap(name: &str, args: &[&str], inner: Chain) -> Chain {
    Chain::Wrap {
        modifier: name.to_string(),
        args: args.iter().map(|a| a.to_string()).collect(),
        inner: Box::new(inner),
    }
}

#[test]
fn modifier_definition_accepts_a_well_formed_modifier() {
    let mut d = decl("once", "");
    d.extras.push(ExtraParam {
        name: "_example_data".to_string(),
        ty: "u8".to_string(),
        passing: Passing::Value,
    });
    assert!(modifier_definition(&d).is_ok());
    d.instance = Passing::Reference;
    assert!(modifier_definition(&d).is_ok());
}

#[test]
fn modifier_definition_refuses_a_receiver() {
    let mut d = decl("once", "");
    d.receiver = Receiver::Mutable;
    let e = modifier_definition(&d).unwrap_err();
    assert_eq!(e.kind, ErrorKind::UnsupportedShape);
    assert_eq!(e.name, "once");
}

#[test]
fn modifier_definition_refuses_a_handle_by_value() {
    let mut d = decl("once", "");
    d.instance = Passing::Value;
    let e = modifier_definition(&d).unwrap_err();
    assert_eq!(e.kind, ErrorKind::UnsupportedShape);
    assert_eq!(e.name, "once");
}

#[test]
fn modifier_definition_refuses_an_extra_parameter_by_reference() {
    let mut d = decl("limit", "");
    d.extras.push(ExtraParam { name: "a".to_string(), ty: "u8".to_string(), passing: Passing::Value });
    d.extras.push(ExtraParam {
        name: "b".to_string(),
        ty: "&Config".to_string(),
        passing: Passing::Reference,
    });
    let e = modifier_definition(&d).unwrap_err();
    assert_eq!(e.kind, ErrorKind::UnsupportedShape);
    assert_eq!(e.name, "limit");
}

#[test]
fn modifier_definition_refuses_a_thunk_of_another_return_type() {
    let mut d = decl("audit", "u32");
    d.thunk_ret = "()".to_string();
    let e = modifier_definition(&d).unwrap_err();
    assert_eq!(e.kind, ErrorKind::ReturnTypeMismatch);
    assert_eq!(e.code(), 5);
    assert_eq!(e.name, "audit");
}

#[test]
fn modifier_definition_judges_the_shape_first() {
    let mut d = decl("audit", "u32");
    d.thunk_ret = "()".to_string();
    d.receiver = Receiver::Shared;
    assert_eq!(modifier_definition(&d).unwrap_err().kind, ErrorKind::UnsupportedShape);
}

#[test]
fn modifiers_nests_in_declared_order() {
    let scope = vec![decl("A", "&'static str"), decl("B", "&'static str"), decl("C", "&'static str")];
    let list = vec![invoke("A", &[]), invoke("B", &["_data"]), invoke("C", &[])];
    let sig = method("&'static str");
    let out = modifiers(&list, &sig, "return \"Return value\"", &scope).unwrap();
    assert_eq!(out.sig, sig);
    assert_eq!(
        out.chain,
        wrap(
            "A",
            &[],
            wrap("B", &["_data"], wrap("C", &[], Chain::Body("return \"Return value\"".to_string())))
        )
    );
}

#[test]
fn modifiers_without_invocations_keeps_the_body() {
    let out = modifiers(&vec![], &method("u8"), "1", &vec![]).unwrap();
    assert_eq!(out.chain, Chain::Body("1".to_string()));
}

#[test]
fn modifiers_keeps_every_argument_in_order() {
    let scope = vec![decl("limit", "")];
    let list = vec![invoke("limit", &["a", "7", "b"]), invoke("limit", &["b"])];
    let out = modifiers(&list, &method(""), "{}", &scope).unwrap();
    assert_eq!(
        out.chain,
        wrap("limit", &["a", "7", "b"], wrap("limit", &["b"], Chain::Body("{}".to_string())))
    );
}

#[test]
fn modifiers_names_the_unresolved_modifier() {
    let scope = vec![decl("A", "")];
    let list = vec![invoke("A", &[]), invoke("missing", &[]), invoke("gone", &[])];
    let e = modifiers(&list, &method(""), "{}", &scope).unwrap_err();
    assert_eq!(e.kind, ErrorKind::UnresolvedModifier);
    assert_eq!(e.code(), 4);
    assert_eq!(e.name, "missing");
}

#[test]
fn modifiers_names_the_modifier_of_another_return_type() {
    let scope = vec![decl("A", "u32"), decl("B", "bool")];
    let list = vec![invoke("A", &[]), invoke("B", &[])];
    let e = modifiers(&list, &method("u32"), "0", &scope).unwrap_err();
    assert_eq!(e.kind, ErrorKind::ReturnTypeMismatch);
    assert_eq!(e.name, "B");
}

#[test]
fn modifiers_reports_the_first_fault_in_declared_order() {
    let scope = vec![decl("A", "u32"), decl("B", "bool")];
    let list = vec![invoke("B", &[]), invoke("missing", &[])];
    let e = modifiers(&list, &method("u32"), "0", &scope).unwrap_err();
    assert_eq!(e.kind, ErrorKind::ReturnTypeMismatch);
    assert_eq!(e.name, "B");
    let list = vec![invoke("missing", &[]), invoke("B", &[])];
    let e = modifiers(&list, &method("u32"), "0", &scope).unwrap_err();
    assert_eq!(e.kind, ErrorKind::UnresolvedModifier);
    assert_eq!(e.name, "missing");
}

#[test]
fn modifiers_resolves_to_the_first_declaration_of_a_name() {
    let scope = vec![decl("A", "bool"), decl("A", "u32")];
    let e = modifiers(&vec![invoke("A", &[])], &method("u32"), "0", &scope).unwrap_err();
    assert_eq!(e.kind, ErrorKind::ReturnTypeMismatch);
    assert!(modifiers(&vec![invoke("A", &[])], &method("bool"), "true", &scope).is_ok());
}

// What follows runs compiled chains. A stage clones the value bound to each
// of its arguments where it is entered, then calls its modifier with the
// object, a thunk for the rest of the chain, and the clones.

struct Object {
    log: Vec<String>,
    open: bool,
    seen: Vec<Vec<u8>>,
}

type Modifier = fn(&mut Object, &mut dyn FnMut(&mut Object), Vec<Vec<u8>>);

fn run(
    chain: &Chain,
    object: &mut Object,
    table: &HashMap<&str, Modifier>,
    bindings: &HashMap<&str, Vec<u8>>,
) {
    match chain {
        Chain::Body(text) => object.log.push(format!("body {}", text)),
        Chain::Wrap { modifier, args, inner } => {
            let clones: Vec<Vec<u8>> = args.iter().map(|a| bindings[a.as_str()].clone()).collect();
            let call = table[modifier.as_str()];
            let mut thunk = |o: &mut Object| run(inner, o, table, bindings);
            call(object, &mut thunk, clones);
        }
    }
}

fn first(object: &mut Object, body: &mut dyn FnMut(&mut Object), _args: Vec<Vec<u8>>) {
    object.log.push("first before".to_string());
    body(object);
    object.log.push("first after".to_string());
}

fn second(object: &mut Object, body: &mut dyn FnMut(&mut Object), _args: Vec<Vec<u8>>) {
    object.log.push("second before".to_string());
    body(object);
    object.log.push("second after".to_string());
}

fn third(object: &mut Object, body: &mut dyn FnMut(&mut Object), _args: Vec<Vec<u8>>) {
    object.log.push("third before".to_string());
    body(object);
    object.log.push("third after".to_string());
}

fn guard(object: &mut Object, body: &mut dyn FnMut(&mut Object), _args: Vec<Vec<u8>>) {
    object.log.push("guard before".to_string());
    if object.open {
        body(object);
    }
    object.log.push("guard after".to_string());
}

fn logger(object: &mut Object, body: &mut dyn FnMut(&mut Object), _args: Vec<Vec<u8>>) {
    object.log.push("logger before".to_string());
    body(object);
    object.log.push("logger after".to_string());
}

fn twice(object: &mut Object, body: &mut dyn FnMut(&mut Object), _args: Vec<Vec<u8>>) {
    object.log.push("twice before".to_string());
    body(object);
    body(object);
    object.log.push("twice after".to_string());
}

fn scribble(object: &mut Object, body: &mut dyn FnMut(&mut Object), mut args: Vec<Vec<u8>>) {
    object.seen.push(args[0].clone());
    args[0].push(99);
    args[0][0] = 0;
    body(object);
    object.seen.push(args[0].clone());
}

fn observe(object: &mut Object, body: &mut dyn FnMut(&mut Object), args: Vec<Vec<u8>>) {
    object.seen.push(args[0].clone());
    body(object);
}

fn table() -> HashMap<&'static str, Modifier> {
    let mut t: HashMap<&'static str, Modifier> = HashMap::new();
    t.insert("first", first);
    t.insert("second", second);
    t.insert("third", third);
    t.insert("guard", guard);
    t.insert("logger", logger);
    t.insert("twice", twice);
    t.insert("scribble", scribble);
    t.insert("observe", observe);
    t
}

fn scope() -> Vec<ModifierDecl> {
    ["first", "second", "third", "guard", "logger", "twice", "scribble", "observe"]
        .iter()
        .map(|n| decl(n, ""))
        .collect()
}

fn compile(list: Vec<Invocation>) -> Chain {
    modifiers(&list, &method(""), "B", &scope()).unwrap().chain
}

fn fresh(open: bool) -> Object {
    Object { log: vec![], open, seen: vec![] }
}

#[test]
fn run_enters_in_declared_order_and_leaves_in_reverse() {
    let chain = compile(vec![invoke("first", &[]), invoke("second", &[]), invoke("third", &[])]);
    let mut object = fresh(true);
    run(&chain, &mut object, &table(), &HashMap::new());
    assert_eq!(
        object.log,
        vec![
            "first before",
            "second before",
            "third before",
            "body B",
            "third after",
            "second after",
            "first after",
        ]
    );
}

#[test]
fn run_of_a_single_modifier_wraps_the_body() {
    let chain = compile(vec![invoke("logger", &[])]);
    let mut object = fresh(true);
    run(&chain, &mut object, &table(), &HashMap::new());
    assert_eq!(object.log, vec!["logger before", "body B", "logger after"]);
}

#[test]
fn guard_that_skips_its_thunk_short_circuits() {
    let chain = compile(vec![invoke("guard", &[]), invoke("logger", &[])]);
    let mut closed = fresh(false);
    run(&chain, &mut closed, &table(), &HashMap::new());
    assert_eq!(closed.log, vec!["guard before", "guard after"]);
    let mut open = fresh(true);
    run(&chain, &mut open, &table(), &HashMap::new());
    assert_eq!(
        open.log,
        vec!["guard before", "logger before", "body B", "logger after", "guard after"]
    );
}

#[test]
fn inner_guard_stops_only_what_it_wraps() {
    let chain = compile(vec![invoke("logger", &[]), invoke("guard", &[]), invoke("first", &[])]);
    let mut closed = fresh(false);
    run(&chain, &mut closed, &table(), &HashMap::new());
    assert_eq!(closed.log, vec!["logger before", "guard before", "guard after", "logger after"]);
}

#[test]
fn thunk_invoked_twice_runs_the_rest_twice() {
    let chain = compile(vec![invoke("twice", &[]), invoke("logger", &[])]);
    let mut object = fresh(true);
    run(&chain, &mut object, &table(), &HashMap::new());
    assert_eq!(
        object.log,
        vec![
            "twice before",
            "logger before",
            "body B",
            "logger after",
            "logger before",
            "body B",
            "logger after",
            "twice after",
        ]
    );
}

#[test]
fn arguments_are_copied_for_each_modifier() {
    let chain = compile(vec![invoke("scribble", &["data"]), invoke("observe", &["data"])]);
    let mut bindings: HashMap<&str, Vec<u8>> = HashMap::new();
    bindings.insert("data", vec![1, 2, 3]);
    let mut object = fresh(true);
    run(&chain, &mut object, &table(), &bindings);
    assert_eq!(object.seen, vec![vec![1, 2, 3], vec![1, 2, 3], vec![0, 2, 3, 99]]);
    assert_eq!(bindings["data"], vec![1, 2, 3]);
}
