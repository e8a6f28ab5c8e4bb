use rusty_procedure_call::expand::{
    create_struct_field, parse_attr, persistent_struct, rpc_expansion, Attr, Expansion, ItemKind,
    MacroError, StructField, StructFields, ADDED_FIELDS,
};
use rusty_procedure_call::model::{get_function_types, Arg, ImplFn, ImplItem, SelfKind};
use rusty_procedure_call::plan::{args_without_types, plan, rpc_names};

fn arg(pat: &str, ident: Option<&str>, ty: &str) -> Arg {
    Arg { pat: pat.to_string(), ident: ident.map(|s| s.to_string()), ty: ty.to_string() }
}

fn method(name: &str, is_public: bool, receiver: SelfKind, args: Vec<Arg>, ret: Option<&str>) -> ImplItem {
    ImplItem::Fn(ImplFn {
        name: name.to_string(),
        is_public,
        receiver,
        args,
        ret: ret.map(|s| s.to_string()),
    })
}

/// The `Server` of the example: `add_one(&mut self)`, `get_value(&self) -> u128`.
fn example_items() -> Vec<ImplItem> {
    vec![
        method("add_one", true, SelfKind::Reference, vec![], None),
        method("get_value", true, SelfKind::Reference, vec![], Some("u128")),
    ]
}

#[test]
fn only_public_reference_methods_are_exported() {
    let items = vec![
        method("r#priv", false, SelfKind::Reference, vec![], Some("bool")),
        method("alive", true, SelfKind::Reference, vec![], Some("bool")),
        method("consume", true, SelfKind::Owned, vec![], None),
        method("make", true, SelfKind::NoSelf, vec![arg("x", Some("x"), "u8")], Some("Self")),
        ImplItem::Other,
        method("add_to_me", true, SelfKind::Reference, vec![arg("i", Some("i"), "usize")], Some("usize")),
    ];
    let ft = get_function_types(items);
    let names: Vec<&str> = ft.functions.iter().map(|f| f.name.as_str()).collect();
    assert_eq!(names, vec!["alive", "add_to_me"]);
    assert_eq!(ft.functions[1].args.len(), 1);
    assert_eq!(ft.functions[1].args[0].ty, "usize");
    assert_eq!(ft.functions[1].ret.as_deref(), Some("usize"));
    assert!(get_function_types(vec![]).functions.is_empty());
}

#[test]
fn generated_names() {
    let n = rpc_names("Server");
    assert_eq!(n.arg_enum, "__ServerRpcArg");
    assert_eq!(n.rpc_client, "ServerRpc");
    assert_eq!(n.server, "ServerServer");
    assert_eq!(n.client, "ServerClient");
    assert_eq!(n.connection, "ServerConnection");
}

#[test]
fn arguments_passed_on_are_the_plain_identifiers() {
    let args = vec![arg("a", Some("a"), "u8"), arg("(b, c)", None, "(u8, u8)"), arg("mut d", Some("d"), "String")];
    assert_eq!(args_without_types(&args), vec!["a".to_string(), "d".to_string()]);
    assert!(args_without_types(&vec![]).is_empty());
}

#[test]
fn plan_of_the_example_server() {
    let p = plan("Server", example_items());
    assert_eq!(p.names.rpc_client, "ServerRpc");
    assert_eq!(p.methods.len(), 2);
    assert_eq!(p.methods[0].name, "add_one");
    assert_eq!(p.methods[0].ret, "()");
    assert!(!p.methods[0].request_carries_args);
    assert!(!p.methods[0].variant_has_fields);
    assert_eq!(p.methods[1].name, "get_value");
    assert_eq!(p.methods[1].ret, "u128");
}

#[test]
fn plan_of_a_method_with_arguments() {
    let items = vec![
        method("print", true, SelfKind::Reference, vec![arg("string", Some("string"), "String")], None),
        method("pair", true, SelfKind::Reference, vec![arg("(x, y)", None, "(u8, u8)")], Some("u8")),
        method("hidden", false, SelfKind::Reference, vec![], None),
    ];
    let p = plan("Node", items);
    assert_eq!(p.names.arg_enum, "__NodeRpcArg");
    assert_eq!(p.methods.len(), 2);
    assert_eq!(p.methods[0].arg_names, vec!["string".to_string()]);
    assert!(p.methods[0].request_carries_args);
    assert!(p.methods[0].variant_has_fields);
    assert_eq!(p.methods[0].params[0].ty, "String");
    assert!(p.methods[1].arg_names.is_empty());
    assert!(!p.methods[1].request_carries_args);
    assert!(p.methods[1].variant_has_fields);
}

#[test]
fn attribute_arguments() {
    assert_eq!(parse_attr(&vec![]), Ok(Attr::NonPersistent));
    assert_eq!(parse_attr(&vec![Some("Persistent".to_string())]), Ok(Attr::Persistent));
    assert_eq!(parse_attr(&vec![Some("persistent".to_string())]), Err(MacroError::BadAttribute));
    assert_eq!(parse_attr(&vec![None]), Err(MacroError::AttributeNotIdent));
    assert_eq!(
        parse_attr(&vec![Some("Persistent".to_string()), Some("Persistent".to_string())]),
        Err(MacroError::BadAttribute)
    );
}

#[test]
fn expansion_per_item_kind() {
    let none: Vec<Option<String>> = vec![];
    let pers = vec![Some("Persistent".to_string())];
    let bad = vec![Some("Other".to_string())];
    assert_eq!(rpc_expansion(&none, ItemKind::Impl), Ok(Expansion::NonPersistent));
    assert_eq!(rpc_expansion(&pers, ItemKind::Impl), Ok(Expansion::Persistent));
    assert_eq!(rpc_expansion(&pers, ItemKind::Struct), Ok(Expansion::PersistentStruct));
    assert_eq!(rpc_expansion(&none, ItemKind::Struct), Err(MacroError::UnsupportedItem));
    assert_eq!(rpc_expansion(&none, ItemKind::Other), Err(MacroError::UnsupportedItem));
    assert_eq!(rpc_expansion(&pers, ItemKind::Other), Err(MacroError::UnsupportedItem));
    // the arguments are checked before the item
    assert_eq!(rpc_expansion(&bad, ItemKind::Other), Err(MacroError::BadAttribute));
}

#[test]
fn error_messages() {
    assert_eq!(
        MacroError::BadAttribute.message(),
        "the attribute needs to be either `Persistent`, `PersistentClient, <type>` or nothing at all"
    );
    assert_eq!(MacroError::UnsupportedItem.message(), "using rpc on non impl/structs is not supported");
    assert_eq!(
        MacroError::UnnamedFields.message(),
        "persistent does not work on structs without named fields"
    );
    assert_eq!(MacroError::AttributeNotIdent.message(), "the attribute needs to be a plain identifier");
}

#[test]
fn persistent_struct_adds_the_server_fields() {
    let f = create_struct_field("value", "u128");
    assert_eq!((f.name.as_str(), f.ty.as_str()), ("value", "u128"));
    let fields = persistent_struct(StructFields::Named(vec![
        StructField { name: "value".to_string(), ty: "u128".to_string() },
    ]))
    .unwrap();
    assert_eq!(fields.len(), 1 + ADDED_FIELDS);
    let got: Vec<(&str, &str)> = fields.iter().map(|f| (f.name.as_str(), f.ty.as_str())).collect();
    assert_eq!(
        got,
        vec![
            ("value", "u128"),
            (
                "__client_channels",
                "std::collections::HashMap<u64, tokio::sync::mpsc::Sender<Vec<u8>>>"
            ),
            ("__receiver", "tokio::sync::mpsc::Receiver<__MessageHandler>"),
            ("__sender", "tokio::sync::mpsc::Sender<__MessageHandler>"),
            ("id", "usize"),
        ]
    );
    assert_eq!(persistent_struct(StructFields::Unnamed).err(), Some(MacroError::UnnamedFields));
    assert_eq!(persistent_struct(StructFields::Unit).err(), Some(MacroError::UnnamedFields));
}
