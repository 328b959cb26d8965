use brush_codegen::behavior::{trait_definition, BehaviorModule, Method, Registry};
use brush_codegen::compose::{contract, ComposedObject, Override};
use brush_codegen::decl::{Param, Receiver, Signature};
use brush_codegen::error::ErrorKind;
use brush_codegen::fragment::{Field, Fragment, Shape, Tag};
use brush_codegen::storage::{register, storage_key};

fn sig(name: &str, receiver: Receiver, params: &[(&str, &str)], ret: &str) -> Signature {
    Signature {
        name: name.to_string(),
        receiver,
        params: params
            .iter()
            .map(|(n, t)| Param { name: n.to_string(), ty: t.to_string() })
            .collect(),
        ret: ret.to_string(),
    }
}

fn fragment(name: &str, field: &str) -> Fragment {
    Fragment {
        name: name.to_string(),
        shape: Shape::Named,
        fields: vec![Field {
            name: Some(field.to_string()),
            ty: "u128".to_string(),
            tags: vec![Tag::Lazy],
        }],
    }
}

fn token() -> BehaviorModule {
    BehaviorModule {
        name: "PSP22".to_string(),
        methods: vec![
            Method {
                sig: sig("balance_of", Receiver::Shared, &[("owner", "AccountId")], "Balance"),
                external: true,
                body: Some("self.get().balances.get(&owner).copied().unwrap_or(0)".to_string()),
            },
            Method {
                sig: sig(
                    "_transfer_from_to",
                    Receiver::Mutable,
                    &[("from", "AccountId"), ("to", "AccountId"), ("amount", "Balance")],
                    "",
                ),
                external: false,
                body: Some("...".to_string()),
            },
            Method {
                sig: sig("transfer", Receiver::Mutable, &[("to", "AccountId"), ("value", "Balance")], ""),
                external: true,
                body: Some("self._transfer_from_to(to, to, value)".to_string()),
            },
            Method { sig: sig("_emit", Receiver::Shared, &[], ""), external: false, body: None },
        ],
        fragment: Some(fragment("Data", "supply")),
    }
}

fn capped() -> BehaviorModule {
    BehaviorModule {
        name: "PSP22Capped".to_string(),
        methods: vec![Method {
            sig: sig("cap", Receiver::Shared, &[], "Balance"),
            external: true,
            body: Some("self._cap()".to_string()),
        }],
        fragment: Some(fragment("Data", "cap")),
    }
}

fn ownable() -> BehaviorModule {
    BehaviorModule {
        name: "Ownable".to_string(),
        methods: vec![Method {
            sig: sig("owner", Receiver::Shared, &[], "AccountId"),
            external: true,
            body: None,
        }],
        fragment: Some(fragment("OwnableData", "owner")),
    }
}

fn stateless() -> BehaviorModule {
    BehaviorModule { name: "Pausable".to_string(), methods: vec![], fragment: None }
}

fn registry(modules: &[BehaviorModule]) -> Registry {
    let mut r = Registry::new();
    for m in modules {
        assert!(r.record(trait_definition(m).record));
    }
    r
}

fn object(modules: &[&str]) -> ComposedObject {
    ComposedObject {
        name: "Contract".to_string(),
        modules: modules.iter().map(|m| m.to_string()).collect(),
        overrides: vec![],
        fragments: vec![],
    }
}

#[test]
fn split_keeps_every_method_in_the_internal_trait() {
    let module = token();
    let split = trait_definition(&module);
    assert_eq!(split.internal.name, "PSP22");
    assert_eq!(split.internal.methods, module.methods);
}

#[test]
fn split_exposes_only_external_signatures() {
    let module = token();
    let split = trait_definition(&module);
    assert_eq!(split.external.module, "PSP22");
    assert_eq!(
        split.external.methods,
        vec![module.methods[0].sig.clone(), module.methods[2].sig.clone()]
    );
}

#[test]
fn split_records_signatures_and_fragment() {
    let module = token();
    let split = trait_definition(&module);
    assert_eq!(split.record.name, "PSP22");
    assert_eq!(split.record.methods.len(), 4);
    for (recorded, declared) in split.record.methods.iter().zip(module.methods.iter()) {
        assert_eq!(recorded.sig, declared.sig);
        assert_eq!(recorded.external, declared.external);
    }
    assert_eq!(split.record.fragment, module.fragment);
    assert_eq!(split.record.facade(), split.external);
}

#[test]
fn split_of_a_module_without_external_methods_has_an_empty_facade() {
    let mut module = token();
    for m in module.methods.iter_mut() {
        m.external = false;
    }
    let split = trait_definition(&module);
    assert!(split.external.methods.is_empty());
    assert_eq!(split.internal.methods.len(), 4);
}

#[test]
fn record_finds_signatures_exactly() {
    let record = trait_definition(&token()).record;
    assert!(record.has_signature(&sig("balance_of", Receiver::Shared, &[("owner", "AccountId")], "Balance")));
    assert!(!record.has_signature(&sig("balance_of", Receiver::Mutable, &[("owner", "AccountId")], "Balance")));
    assert!(!record.has_signature(&sig("balance_of", Receiver::Shared, &[("who", "AccountId")], "Balance")));
    assert!(!record.has_signature(&sig("balance_of", Receiver::Shared, &[("owner", "AccountId")], "")));
    assert!(!record.has_signature(&sig("balance_of", Receiver::Shared, &[], "Balance")));
    assert!(!record.has_signature(&sig("balance", Receiver::Shared, &[("owner", "AccountId")], "Balance")));
}

#[test]
fn registry_records_a_module_once() {
    let mut r = Registry::new();
    assert!(r.lookup("PSP22").is_none());
    assert!(r.record(trait_definition(&token()).record));
    assert!(r.record(trait_definition(&ownable()).record));
    let mut other = token();
    other.methods.clear();
    assert!(!r.record(trait_definition(&other).record));
    assert_eq!(r.lookup("PSP22").unwrap().methods.len(), 4);
    assert_eq!(r.lookup("Ownable").unwrap().name, "Ownable");
    assert!(r.lookup("Pausable").is_none());
}

#[test]
fn contract_composes_in_any_order_of_recording() {
    let a = registry(&[token(), ownable(), stateless()]);
    let b = registry(&[stateless(), ownable(), token()]);
    let o = object(&["PSP22", "Pausable", "Ownable"]);
    let ca = contract(&o, &a).unwrap();
    let cb = contract(&o, &b).unwrap();
    assert_eq!(ca, cb);
    assert_eq!(ca.object, "Contract");
    let names: Vec<&str> = ca.facades.iter().map(|f| f.module.as_str()).collect();
    assert_eq!(names, vec!["PSP22", "Pausable", "Ownable"]);
    assert_eq!(ca.facades[0], trait_definition(&token()).external);
    assert!(ca.facades[1].methods.is_empty());
}

#[test]
fn contract_lays_out_module_fragments_then_its_own() {
    let r = registry(&[token(), ownable(), stateless()]);
    let mut o = object(&["Ownable", "Pausable", "PSP22"]);
    o.fragments.push(fragment("Own", "flag"));
    let c = contract(&o, &r).unwrap();
    let names: Vec<&str> = c.layout.fragments.iter().map(|f| f.name.as_str()).collect();
    assert_eq!(names, vec!["OwnableData", "Data", "Own"]);
    assert_eq!(c.layout.fragments[1], register(&fragment("Data", "supply")).unwrap());
    assert_eq!(c.layout.fragments[2].key, storage_key("Own"));
}

#[test]
fn contract_names_the_unknown_module() {
    let r = registry(&[token()]);
    let e = contract(&object(&["PSP22", "Ownable", "Pausable"]), &r).unwrap_err();
    assert_eq!(e.kind, ErrorKind::UnknownModule);
    assert_eq!(e.code(), 2);
    assert_eq!(e.name, "Ownable");
}

#[test]
fn contract_accepts_an_override_with_the_declared_signature() {
    let r = registry(&[token()]);
    let mut o = object(&["PSP22"]);
    o.overrides.push(Override {
        module: "PSP22".to_string(),
        sig: sig(
            "_transfer_from_to",
            Receiver::Mutable,
            &[("from", "AccountId"), ("to", "AccountId"), ("amount", "Balance")],
            "",
        ),
    });
    assert!(contract(&o, &r).is_ok());
}

#[test]
fn contract_names_the_method_of_a_mismatched_override() {
    let r = registry(&[token()]);
    let mut o = object(&["PSP22"]);
    o.overrides.push(Override {
        module: "PSP22".to_string(),
        sig: sig("transfer", Receiver::Mutable, &[("to", "AccountId"), ("value", "u64")], ""),
    });
    let e = contract(&o, &r).unwrap_err();
    assert_eq!(e.kind, ErrorKind::SignatureMismatch);
    assert_eq!(e.code(), 1);
    assert_eq!(e.name, "transfer");
}

#[test]
fn contract_refuses_an_override_of_a_module_it_does_not_include() {
    let r = registry(&[token(), ownable()]);
    let mut o = object(&["PSP22"]);
    o.overrides.push(Override {
        module: "Ownable".to_string(),
        sig: sig("owner", Receiver::Shared, &[], "AccountId"),
    });
    let e = contract(&o, &r).unwrap_err();
    assert_eq!(e.kind, ErrorKind::UnknownModule);
    assert_eq!(e.name, "Ownable");
}

#[test]
fn contract_refuses_two_modules_with_a_fragment_of_one_name() {
    let r = registry(&[token(), capped()]);
    let e = contract(&object(&["PSP22", "PSP22Capped"]), &r).unwrap_err();
    assert_eq!(e.kind, ErrorKind::DuplicateFragment);
    assert_eq!(e.name, "Data");
    let e = contract(&object(&["PSP22Capped", "PSP22"]), &r).unwrap_err();
    assert_eq!(e.kind, ErrorKind::DuplicateFragment);
    assert_eq!(e.name, "Data");
    assert!(contract(&object(&["PSP22"]), &r).is_ok());
    assert!(contract(&object(&["PSP22Capped"]), &r).is_ok());
}

#[test]
fn contract_refuses_an_own_fragment_named_like_a_modules() {
    let r = registry(&[ownable()]);
    let mut o = object(&["Ownable"]);
    o.fragments.push(fragment("OwnableData", "other"));
    let e = contract(&o, &r).unwrap_err();
    assert_eq!(e.kind, ErrorKind::DuplicateFragment);
    assert_eq!(e.name, "OwnableData");
}

#[test]
fn contract_refuses_a_module_included_twice_with_its_fragment() {
    let r = registry(&[ownable()]);
    let e = contract(&object(&["Ownable", "Ownable"]), &r).unwrap_err();
    assert_eq!(e.kind, ErrorKind::DuplicateFragment);
    assert_eq!(e.name, "OwnableData");
}

#[test]
fn contract_checks_modules_before_overrides_before_storage() {
    let r = registry(&[token(), capped()]);
    let mut o = object(&["PSP22", "PSP22Capped", "Missing"]);
    o.overrides.push(Override { module: "PSP22".to_string(), sig: sig("nothing", Receiver::Static, &[], "") });
    let e = contract(&o, &r).unwrap_err();
    assert_eq!((e.kind, e.name.as_str()), (ErrorKind::UnknownModule, "Missing"));
    o.modules.pop();
    let e = contract(&o, &r).unwrap_err();
    assert_eq!((e.kind, e.name.as_str()), (ErrorKind::SignatureMismatch, "nothing"));
    o.overrides.clear();
    let e = contract(&o, &r).unwrap_err();
    assert_eq!((e.kind, e.name.as_str()), (ErrorKind::DuplicateFragment, "Data"));
}

#[test]
fn contract_of_an_object_without_modules_is_empty() {
    let c = contract(&object(&[]), &Registry::new()).unwrap();
    assert!(c.facades.is_empty());
    assert!(c.layout.fragments.is_empty());
}

#[test]
fn check_facade_accepts_what_the_splitter_made() {
    for module in [token(), capped(), ownable(), stateless()] {
        let split = trait_definition(&module);
        assert!(brush_codegen::behavior::check_facade(&split.internal, &split.external).is_ok());
    }
}

#[test]
fn check_facade_names_the_method_that_differs() {
    let mut split = trait_definition(&token());
    split.external.methods[1].params[1].ty = "u64".to_string();
    let e = brush_codegen::behavior::check_facade(&split.internal, &split.external).unwrap_err();
    assert_eq!(e.kind, ErrorKind::SignatureMismatch);
    assert_eq!(e.name, "transfer");
}

#[test]
fn check_facade_names_the_method_that_is_missing() {
    let mut split = trait_definition(&token());
    split.external.methods.remove(0);
    let e = brush_codegen::behavior::check_facade(&split.internal, &split.external).unwrap_err();
    assert_eq!((e.kind, e.name.as_str()), (ErrorKind::SignatureMismatch, "balance_of"));
}

#[test]
fn check_facade_refuses_a_method_that_is_not_external() {
    let mut split = trait_definition(&token());
    split.external.methods.push(split.internal.methods[1].sig.clone());
    let e = brush_codegen::behavior::check_facade(&split.internal, &split.external).unwrap_err();
    assert_eq!((e.kind, e.name.as_str()), (ErrorKind::SignatureMismatch, "_transfer_from_to"));
    split.internal.methods[1].external = true;
    assert!(brush_codegen::behavior::check_facade(&split.internal, &split.external).is_ok());
}

#[test]
fn check_facade_judges_the_trait_before_the_facade() {
    let mut split = trait_definition(&token());
    split.external.methods[0].name = "balance".to_string();
    let e = brush_codegen::behavior::check_facade(&split.internal, &split.external).unwrap_err();
    assert_eq!(e.name, "balance_of");
    split.internal.methods[0].external = false;
    let e = brush_codegen::behavior::check_facade(&split.internal, &split.external).unwrap_err();
    assert_eq!(e.name, "balance");
}
