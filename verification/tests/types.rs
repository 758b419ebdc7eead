use std::collections::HashMap;
use wasmtime_wit_bindgen::errors::{
    find_type, resolve_type_definition_id, single_result, special_case_trappable_error,
};
use wasmtime_wit_bindgen::interface::{Direction, InterfaceGenerator, InterfaceName};
use wasmtime_wit_bindgen::modules::{emit_modules, path_of_module, Module, PackageModules};
use wasmtime_wit_bindgen::names::{strip_resource_prefix, to_rust_ident, to_rust_upper_camel_case};
use wasmtime_wit_bindgen::ordered::OrderedMap;
use wasmtime_wit_bindgen::resources::{get_resource_from_ty, get_resource_from_tyid};
use wasmtime_wit_bindgen::rust::{
    print_list_, print_optional_ty_, print_ty, print_ty_, print_tyid_, takes_generics,
    RustGenerator, TypeMode,
};
use wasmtime_wit_bindgen::schema::{
    Case, Docs, Enum, EnumCase, Field, Flag, Flags, Function, FunctionKind, Handle, Interface,
    Package, PackageName, Record, Result_, Results, Schema, Tuple, Type, TypeDef, TypeDefKind,
    TypeOwner, Variant, World, WorldItem, WorldKey,
};
use wasmtime_wit_bindgen::text::push_numbered;
use wasmtime_wit_bindgen::types::{TypeInfo, Types};
use wasmtime_wit_bindgen::{push_decimal, NameMap, Opts, Ownership, TrappableError};

fn undocumented() -> Docs {
    Docs { contents: None }
}

fn def(name: Option<&str>, kind: TypeDefKind, owner: TypeOwner, size: usize, align: usize) -> TypeDef {
    TypeDef { name: name.map(|n| n.to_string()), kind, owner, docs: undocumented(), size, align }
}

fn freestanding(name: &str, params: Vec<(&str, Type)>, results: Results) -> Function {
    Function {
        name: name.to_string(),
        kind: FunctionKind::Freestanding,
        params: params.into_iter().map(|(n, t)| (n.to_string(), t)).collect(),
        results,
        docs: undocumented(),
    }
}

/// Types of one interface `shapes` of package `geo:kit`:
///   0  point         record { x: s32, y: s32 }            param and result
///   1  names         list<string>                         param only
///   2  label         record { text: string, at: point }   param and result
///   3  color         enum { red, dark-blue }              unused
///   4  (anonymous)   list<label>
///   5  path          type alias of 4                      param only
///   6  (anonymous)   option<point>
///   7  (anonymous)   result<label, color>
///   8  (anonymous)   tuple<u8, names>
///   9  id            type alias of u64                    result only
///  10  perms         flags { read, write-all }            unused
///  11  shape         variant { dot(point), text(label), none }   result only
fn shapes() -> Schema {
    let owner = TypeOwner::Interface(0);
    let point = def(
        Some("point"),
        TypeDefKind::Record(Record {
            fields: vec![
                Field { name: "x".to_string(), ty: Type::S32, docs: undocumented() },
                Field { name: "y".to_string(), ty: Type::S32, docs: undocumented() },
            ],
        }),
        owner,
        8,
        4,
    );
    let names = def(Some("names"), TypeDefKind::List(Type::String), owner, 8, 4);
    let label = def(
        Some("label"),
        TypeDefKind::Record(Record {
            fields: vec![
                Field {
                    name: "text".to_string(),
                    ty: Type::String,
                    docs: Docs { contents: Some("What it says.".to_string()) },
                },
                Field { name: "type".to_string(), ty: Type::Id(0), docs: undocumented() },
            ],
        }),
        owner,
        16,
        4,
    );
    let color = def(
        Some("color"),
        TypeDefKind::Enum(Enum {
            cases: vec![
                EnumCase { name: "red".to_string(), docs: undocumented() },
                EnumCase { name: "dark-blue".to_string(), docs: undocumented() },
            ],
        }),
        owner,
        1,
        1,
    );
    let labels = def(None, TypeDefKind::List(Type::Id(2)), TypeOwner::Unowned, 8, 4);
    let path = def(Some("path"), TypeDefKind::Type(Type::Id(4)), owner, 8, 4);
    let maybe_point = def(None, TypeDefKind::Option(Type::Id(0)), TypeOwner::Unowned, 12, 4);
    let outcome = def(
        None,
        TypeDefKind::Result(Result_ { ok: Some(Type::Id(2)), err: Some(Type::Id(3)) }),
        TypeOwner::Unowned,
        20,
        4,
    );
    let pair = def(
        None,
        TypeDefKind::Tuple(Tuple { types: vec![Type::U8, Type::Id(1)] }),
        TypeOwner::Unowned,
        12,
        4,
    );
    let id = def(Some("id"), TypeDefKind::Type(Type::U64), owner, 8, 8);
    let perms = def(
        Some("perms"),
        TypeDefKind::Flags(Flags {
            flags: vec![
                Flag { name: "read".to_string(), docs: undocumented() },
                Flag { name: "write-all".to_string(), docs: undocumented() },
            ],
        }),
        owner,
        1,
        1,
    );
    let shape = def(
        Some("shape"),
        TypeDefKind::Variant(Variant {
            cases: vec![
                Case { name: "dot".to_string(), ty: Some(Type::Id(0)), docs: undocumented() },
                Case { name: "text".to_string(), ty: Some(Type::Id(2)), docs: undocumented() },
                Case { name: "none".to_string(), ty: None, docs: undocumented() },
            ],
        }),
        owner,
        20,
        4,
    );
    let draw = freestanding(
        "draw",
        vec![("where", Type::Id(5)), ("tags", Type::Id(8)), ("origin", Type::Id(6))],
        Results::Anon(Type::Id(7)),
    );
    let fresh = freestanding("fresh", vec![], Results::Named(vec![
        ("id".to_string(), Type::Id(9)),
        ("shape".to_string(), Type::Id(11)),
    ]));
    Schema {
        types: vec![
            point, names, label, color, labels, path, maybe_point, outcome, pair, id, perms,
            shape,
        ],
        interfaces: vec![Interface {
            name: Some("shapes".to_string()),
            types: vec![
                ("point".to_string(), 0),
                ("names".to_string(), 1),
                ("label".to_string(), 2),
                ("color".to_string(), 3),
                ("path".to_string(), 5),
                ("id".to_string(), 9),
                ("perms".to_string(), 10),
                ("shape".to_string(), 11),
            ],
            functions: vec![draw, fresh],
            package: Some(0),
        }],
        worlds: vec![World {
            name: "drawing".to_string(),
            imports: vec![],
            exports: vec![(WorldKey::Interface(0), WorldItem::Interface(0))],
        }],
        packages: vec![Package {
            name: PackageName {
                namespace: "geo".to_string(),
                name: "kit".to_string(),
                version: None,
            },
        }],
    }
}

fn analysis(schema: &Schema, opts: &Opts) -> Types {
    let mut types = Types::new();
    types.analyze(schema, 0, &opts.trappable_error_type);
    types
}

fn opts_with(ownership: Ownership) -> Opts {
    let mut opts = Opts::default();
    opts.ownership = ownership;
    opts
}

fn info(borrowed: bool, owned: bool, error: bool, has_list: bool) -> TypeInfo {
    TypeInfo { borrowed, owned, error, has_list }
}

#[test]
fn decimal_numerals() {
    let mut out = String::from("n=");
    push_decimal(&mut out, 0);
    out.push(' ');
    push_decimal(&mut out, 7);
    out.push(' ');
    push_decimal(&mut out, 10);
    out.push(' ');
    push_decimal(&mut out, 4096);
    out.push(' ');
    push_decimal(&mut out, 1234567890);
    assert_eq!(out, "n=0 7 10 4096 1234567890");
    let mut out = String::new();
    push_decimal(&mut out, usize::MAX);
    assert_eq!(out, usize::MAX.to_string());
}

#[test]
fn numbered_texts() {
    let mut out = String::new();
    push_numbered(&mut out, "arg", ", ", 0, 3);
    assert_eq!(out, "arg0, arg1, arg2, ");
    let mut out = String::from("(");
    push_numbered(&mut out, "ret", ",", 1, 3);
    assert_eq!(out, "(ret1,ret2,");
    let mut out = String::new();
    push_numbered(&mut out, "x", "y", 5, 5);
    assert_eq!(out, "");
}

#[test]
fn identifiers_escape_keywords() {
    assert_eq!(to_rust_ident("as"), "as_");
    assert_eq!(to_rust_ident("type"), "type_");
    assert_eq!(to_rust_ident("self"), "self_");
    assert_eq!(to_rust_ident("try"), "try_");
    assert_eq!(to_rust_ident("yield"), "yield_");
    assert_eq!(to_rust_ident("extern"), "extern_");
    assert_eq!(to_rust_ident("final"), "final_");
    for keyword in [
        "break", "const", "continue", "crate", "else", "enum", "false", "fn", "for", "if", "impl",
        "in", "let", "loop", "match", "mod", "move", "mut", "pub", "ref", "return", "static",
        "struct", "super", "trait", "true", "unsafe", "use", "where", "while", "async", "await",
        "dyn", "abstract", "become", "box", "do", "macro", "override", "priv", "typeof", "unsized",
        "virtual",
    ] {
        assert_eq!(to_rust_ident(keyword), format!("{}_", keyword));
    }
}

#[test]
fn identifiers_are_snake_case() {
    assert_eq!(to_rust_ident("get-value"), "get_value");
    assert_eq!(to_rust_ident("HTTPRequest"), "http_request");
    assert_eq!(to_rust_ident("already_snake"), "already_snake");
    assert_eq!(to_rust_ident("Type"), "type");
    assert_eq!(to_rust_ident("[method]counter.increment"), "method_counter_increment");
    assert_eq!(to_rust_ident(""), "");
}

#[test]
fn type_names_are_upper_camel_case() {
    assert_eq!(to_rust_upper_camel_case("host"), "Host_");
    assert_eq!(to_rust_upper_camel_case("my-error"), "MyError");
    assert_eq!(to_rust_upper_camel_case("Host"), "Host");
    assert_eq!(to_rust_upper_camel_case("hosts"), "Hosts");
    assert_eq!(to_rust_upper_camel_case("http_request"), "HttpRequest");
}

#[test]
fn name_map_keeps_insertion_order() {
    let mut map = NameMap::new();
    assert!(map.is_empty());
    assert_eq!(map.insert("b".to_string(), "1".to_string()), None);
    assert_eq!(map.insert("a".to_string(), "2".to_string()), None);
    assert_eq!(map.insert("b".to_string(), "3".to_string()), Some("1".to_string()));
    assert_eq!(map.len(), 2);
    assert_eq!(map.key(0), "b");
    assert_eq!(map.value(0), "3");
    assert_eq!(map.key(1), "a");
    assert_eq!(map.get("a"), Some(&"2".to_string()));
    assert_eq!(map.get("b"), Some(&"3".to_string()));
    assert_eq!(map.get("c"), None);
    assert_eq!(NameMap::default().len(), 0);
}

#[test]
fn ordered_map_keeps_key_order() {
    let mut map: OrderedMap<String> = OrderedMap::new();
    map.insert("pear".to_string(), "1".to_string());
    map.insert("apple".to_string(), "2".to_string());
    map.insert("zebra".to_string(), "3".to_string());
    map.insert("Pear".to_string(), "4".to_string());
    map.insert("pea".to_string(), "5".to_string());
    map.insert("apple".to_string(), "6".to_string());
    assert_eq!(map.len(), 5);
    let keys: Vec<&str> = (0..map.len()).map(|i| map.key(i).as_str()).collect();
    assert_eq!(keys, vec!["Pear", "apple", "pea", "pear", "zebra"]);
    assert_eq!(map.value(1), "6");
    assert_eq!(map.get("pea"), Some(&"5".to_string()));
    assert_eq!(map.get("peach"), None);
    assert!(map.contains_key("zebra"));
    assert!(!map.contains_key(""));
    assert!(OrderedMap::<String>::default().is_empty());
}

fn module(package: Option<(&str, &str)>, snake: &str) -> Module {
    Module {
        package: package.map(|(a, b)| (a.to_string(), b.to_string())),
        snake: snake.to_string(),
        module: format!("mod {} {{}}", snake),
    }
}

#[test]
fn modules_are_kept_by_package() {
    let mut modules = PackageModules::new();
    assert!(modules.is_empty());
    modules.place(module(Some(("wasi", "io")), "streams"));
    modules.place(module(Some(("acme", "zeta")), "a"));
    modules.place(module(None, "top"));
    modules.place(module(Some(("wasi", "clocks")), "wall"));
    modules.place(module(Some(("wasi", "io")), "poll"));
    modules.place(module(None, "second"));
    modules.place(module(Some(("Acme-Co", "x")), "y"));
    assert_eq!(modules.len(), 7);
    let order: Vec<String> = (0..modules.len()).map(|i| path_of_module(modules.get(i))).collect();
    assert_eq!(
        order,
        vec![
            "top",
            "second",
            "acme_co::x::y",
            "acme::zeta::a",
            "wasi::clocks::wall",
            "wasi::io::streams",
            "wasi::io::poll",
        ]
    );
    let mut out = String::from("// tree\n");
    emit_modules(&mut out, &modules);
    assert_eq!(
        out,
        "// tree\nmod top {}\nmod second {}\npub mod acme_co {\npub mod x {\nmod y {}\n}\n}\npub mod acme {\npub mod zeta {\nmod a {}\n}\n}\npub mod wasi {\npub mod clocks {\nmod wall {}\n}\npub mod io {\nmod streams {}\nmod poll {}\n}\n}\n"
    );
    let mut out = String::new();
    emit_modules(&mut out, &PackageModules::new());
    assert_eq!(out, "");
}

#[test]
fn schema_names_world_keys() {
    let mut schema = shapes();
    assert_eq!(schema.name_world_key(&WorldKey::Name("plain".to_string())), "plain");
    assert_eq!(schema.name_world_key(&WorldKey::Interface(0)), "geo:kit/shapes");
    schema.packages[0].name.version = Some("0.2.1".to_string());
    assert_eq!(schema.name_world_key(&WorldKey::Interface(0)), "geo:kit/shapes@0.2.1");
}

#[test]
fn schema_check_finds_what_is_out_of_place() {
    assert!(shapes().check());
    let mut schema = shapes();
    schema.types[2].kind = TypeDefKind::List(Type::Id(2));
    assert!(!schema.check());
    let mut schema = shapes();
    schema.types[8].kind = TypeDefKind::Tuple(Tuple { types: vec![Type::U8, Type::Id(9)] });
    assert!(!schema.check());
    let mut schema = shapes();
    schema.types[3].owner = TypeOwner::Interface(1);
    assert!(!schema.check());
    let mut schema = shapes();
    schema.types[3].owner = TypeOwner::World(0);
    assert!(schema.check());
    let mut schema = shapes();
    schema.interfaces[0].types.push(("labels".to_string(), 4));
    assert!(!schema.check());
    let mut schema = shapes();
    schema.interfaces[0].functions[0].params[0].1 = Type::Id(12);
    assert!(!schema.check());
    let mut schema = shapes();
    schema.interfaces[0].functions[0].kind = FunctionKind::Method(4);
    assert!(!schema.check());
    let mut schema = shapes();
    schema.interfaces[0].package = Some(1);
    assert!(!schema.check());
    let mut schema = shapes();
    schema.interfaces[0].name = None;
    assert!(!schema.check());
    let mut schema = shapes();
    schema.worlds[0].exports[0].1 = WorldItem::Interface(1);
    assert!(!schema.check());
    let mut schema = shapes();
    schema.types.push(def(None, TypeDefKind::Resource, TypeOwner::Unowned, 0, 0));
    assert!(!schema.check());
    schema.types[12].name = Some("res".to_string());
    schema.types.push(def(None, TypeDefKind::Handle(Handle::Borrow(12)), TypeOwner::Unowned, 4, 4));
    assert!(schema.check());
    schema.types[13].kind = TypeDefKind::Handle(Handle::Own(13));
    assert!(!schema.check());
}

#[test]
fn analysis_marks_uses_and_lists() {
    let schema = shapes();
    let types = analysis(&schema, &Opts::default());
    assert_eq!(types.len(), 12);
    // point: inside path (param), option (param) and the result
    assert_eq!(types.get(0), info(true, true, false, false));
    // names: inside the tuple parameter
    assert_eq!(types.get(1), info(true, false, false, true));
    // label: inside path (param) and the result
    assert_eq!(types.get(2), info(true, true, false, true));
    // color: error of the result, but no mapping names it
    assert_eq!(types.get(3), info(false, true, false, false));
    assert_eq!(types.get(4), info(true, false, false, true));
    assert_eq!(types.get(5), info(true, false, false, true));
    assert_eq!(types.get(6), info(true, false, false, false));
    assert_eq!(types.get(7), info(false, true, false, true));
    assert_eq!(types.get(8), info(true, false, false, true));
    assert_eq!(types.get(9), info(false, true, false, false));
    assert_eq!(types.get(10), info(false, false, false, false));
    assert_eq!(types.get(11), info(false, true, false, true));
}

#[test]
fn analysis_marks_the_error_of_a_mapping() {
    let schema = shapes();
    let mut opts = Opts::default();
    opts.trappable_error_type.push(TrappableError {
        wit_name: "color".to_string(),
        wit_owner: Some("shapes".to_string()),
        rust_name: "ColorError".to_string(),
    });
    let types = analysis(&schema, &opts);
    assert_eq!(types.get(3), info(false, true, true, false));
    assert_eq!(types.get(2), info(true, true, false, true));
    let draw = &schema.interfaces[0].functions[0];
    let found = special_case_trappable_error(
        &schema,
        &opts.trappable_error_type,
        TypeOwner::Interface(0),
        &draw.results,
    );
    assert!(matches!(found, Some((r, 0)) if r.ok == Some(Type::Id(2)) && r.err == Some(Type::Id(3))));
    let fresh = &schema.interfaces[0].functions[1];
    assert!(special_case_trappable_error(
        &schema,
        &opts.trappable_error_type,
        TypeOwner::Interface(0),
        &fresh.results,
    )
    .is_none());
    assert!(special_case_trappable_error(
        &schema,
        &opts.trappable_error_type,
        TypeOwner::Unowned,
        &draw.results,
    )
    .is_none());
    assert!(matches!(single_result(&schema, &draw.results), Some((_, 3))));
    assert!(single_result(&schema, &fresh.results).is_none());
}

#[test]
fn aliases_are_followed_to_the_definition() {
    let mut schema = shapes();
    schema.types.push(def(Some("way"), TypeDefKind::Type(Type::Id(5)), TypeOwner::Interface(0), 8, 4));
    schema.types.push(def(Some("road"), TypeDefKind::Type(Type::Id(12)), TypeOwner::Interface(0), 8, 4));
    assert_eq!(resolve_type_definition_id(&schema, 13), 4);
    assert_eq!(resolve_type_definition_id(&schema, 5), 4);
    assert_eq!(resolve_type_definition_id(&schema, 9), 9);
    assert_eq!(resolve_type_definition_id(&schema, 0), 0);
    assert_eq!(find_type(&schema.interfaces[0].types, "label"), Some(2));
    assert_eq!(find_type(&schema.interfaces[0].types, "labels"), None);
}

fn generator<'a>(
    opts: &'a Opts,
    types: &'a Types,
    names: &'a HashMap<usize, InterfaceName>,
    schema: &'a Schema,
) -> InterfaceGenerator<'a> {
    InterfaceGenerator::new(opts, types, names, schema)
}

fn named_modes(gen: &InterfaceGenerator, id: usize) -> Vec<(String, Option<&'static str>)> {
    gen.modes_of(id)
        .into_iter()
        .map(|(name, mode)| {
            let lifetime = match mode {
                TypeMode::Owned => None,
                TypeMode::AllBorrowed(lt) => Some(lt),
            };
            (name, lifetime)
        })
        .collect()
}

#[test]
fn owning_policy_has_one_owned_representation() {
    let schema = shapes();
    let opts = Opts::default();
    let types = analysis(&schema, &opts);
    let names = HashMap::new();
    let gen = generator(&opts, &types, &names, &schema);
    for id in [0usize, 1, 2, 3, 5, 9, 11] {
        let camel = to_rust_upper_camel_case(schema.types[id].name.as_ref().unwrap());
        assert_eq!(named_modes(&gen, id), vec![(camel.clone(), None)]);
        let info = gen.info(id);
        assert!(!gen.uses_two_names(&info));
        assert_eq!(gen.lifetime_for(&info, TypeMode::Owned), None);
        assert_eq!(gen.lifetime_for(&info, TypeMode::AllBorrowed("'a")), None);
        assert_eq!(gen.param_name(id), camel);
        assert_eq!(gen.result_name(id), camel);
    }
    assert_eq!(named_modes(&gen, 10), vec![]);
}

#[test]
fn borrowing_policy_with_duplicates_names_both_representations() {
    let schema = shapes();
    let opts = opts_with(Ownership::Borrowing { duplicate_if_necessary: true });
    let types = analysis(&schema, &opts);
    let names = HashMap::new();
    let gen = generator(&opts, &types, &names, &schema);
    // label: list inside, used both ways
    assert_eq!(
        named_modes(&gen, 2),
        vec![("LabelResult".to_string(), None), ("LabelParam".to_string(), Some("'a"))]
    );
    let label = gen.info(2);
    assert!(gen.uses_two_names(&label));
    assert_eq!(gen.lifetime_for(&label, TypeMode::AllBorrowed("'a")), Some("'a"));
    assert_eq!(gen.lifetime_for(&label, TypeMode::AllBorrowed("'_")), Some("'_"));
    assert_eq!(gen.lifetime_for(&label, TypeMode::Owned), None);
    assert_eq!(gen.param_name(2), "LabelParam");
    assert_eq!(gen.result_name(2), "LabelResult");
    // point: used both ways, but no list
    assert_eq!(named_modes(&gen, 0), vec![("Point".to_string(), None)]);
    assert_eq!(gen.lifetime_for(&gen.info(0), TypeMode::AllBorrowed("'a")), None);
    // names: a list that is only borrowed
    assert_eq!(named_modes(&gen, 1), vec![("Names".to_string(), Some("'a"))]);
    assert_eq!(gen.lifetime_for(&gen.info(1), TypeMode::AllBorrowed("'a")), Some("'a"));
    // shape: a list inside, only owned
    assert_eq!(named_modes(&gen, 11), vec![("Shape".to_string(), None)]);
    assert_eq!(gen.lifetime_for(&gen.info(11), TypeMode::AllBorrowed("'a")), None);
    // resolving again gives the same
    assert_eq!(named_modes(&gen, 2), named_modes(&gen, 2));
}

#[test]
fn borrowing_policy_without_duplicates_reuses_the_owned_representation() {
    let schema = shapes();
    let opts = opts_with(Ownership::Borrowing { duplicate_if_necessary: false });
    let types = analysis(&schema, &opts);
    let names = HashMap::new();
    let gen = generator(&opts, &types, &names, &schema);
    assert_eq!(named_modes(&gen, 2), vec![("Label".to_string(), None)]);
    let label = gen.info(2);
    assert!(!gen.uses_two_names(&label));
    assert_eq!(gen.lifetime_for(&label, TypeMode::AllBorrowed("'a")), None);
    assert_eq!(named_modes(&gen, 1), vec![("Names".to_string(), Some("'a"))]);
    assert_eq!(named_modes(&gen, 6 - 6), vec![("Point".to_string(), None)]);
}

#[test]
fn generics_are_spelled_with_a_trailing_comma() {
    let schema = shapes();
    let opts = Opts::default();
    let types = analysis(&schema, &opts);
    let names = HashMap::new();
    let mut gen = generator(&opts, &types, &names, &schema);
    assert_eq!(gen.print_generics_(None), None);
    assert_eq!(gen.print_generics_(Some("'a")), Some("<'a,>".to_string()));
    RustGenerator::print_generics(&mut gen, Some("'x"));
    RustGenerator::print_generics(&mut gen, None);
    assert_eq!(gen.src, "<'x,>");
}

#[test]
fn primitive_types_are_spelled() {
    let schema = shapes();
    let opts = Opts::default();
    let types = analysis(&schema, &opts);
    let names = HashMap::new();
    let gen = generator(&opts, &types, &names, &schema);
    let expected = [
        (Type::Bool, "bool"),
        (Type::U8, "u8"),
        (Type::U16, "u16"),
        (Type::U32, "u32"),
        (Type::U64, "u64"),
        (Type::S8, "i8"),
        (Type::S16, "i16"),
        (Type::S32, "i32"),
        (Type::S64, "i64"),
        (Type::Float32, "f32"),
        (Type::Float64, "f64"),
        (Type::Char, "char"),
        (Type::String, "String"),
    ];
    for (ty, text) in expected {
        assert_eq!(print_ty_(&gen, &ty, TypeMode::Owned), text);
    }
    assert_eq!(print_ty_(&gen, &Type::String, TypeMode::AllBorrowed("'a")), "&'a str");
    assert_eq!(print_ty_(&gen, &Type::String, TypeMode::AllBorrowed("'_")), "&str");
    assert_eq!(print_ty_(&gen, &Type::U32, TypeMode::AllBorrowed("'a")), "u32");
    assert_eq!(print_optional_ty_(&gen, None, TypeMode::Owned), "()");
    assert_eq!(print_optional_ty_(&gen, Some(&Type::Char), TypeMode::Owned), "char");
}

#[test]
fn structural_types_are_spelled_under_the_owning_policy() {
    let schema = shapes();
    let opts = Opts::default();
    let types = analysis(&schema, &opts);
    let names = HashMap::new();
    let key = WorldKey::Interface(0);
    let mut gen = generator(&opts, &types, &names, &schema);
    gen.current_interface = Some((0, &key, true));
    let borrowed = TypeMode::AllBorrowed("'_");
    assert_eq!(print_tyid_(&gen, 0, TypeMode::Owned), "Point");
    assert_eq!(print_tyid_(&gen, 0, borrowed), "Point");
    assert_eq!(print_tyid_(&gen, 2, TypeMode::Owned), "Label");
    assert_eq!(print_tyid_(&gen, 2, borrowed), "&Label");
    assert_eq!(print_tyid_(&gen, 2, TypeMode::AllBorrowed("'a")), "&'a Label");
    assert_eq!(print_tyid_(&gen, 4, TypeMode::Owned), "Vec<Label>");
    assert_eq!(print_tyid_(&gen, 4, borrowed), "&[Label]");
    assert_eq!(print_tyid_(&gen, 5, borrowed), "&Path");
    assert_eq!(print_tyid_(&gen, 6, TypeMode::Owned), "Option<Point>");
    assert_eq!(print_tyid_(&gen, 7, TypeMode::Owned), "Result<Label,Color>");
    assert_eq!(print_tyid_(&gen, 7, borrowed), "Result<&Label,Color>");
    assert_eq!(print_tyid_(&gen, 8, TypeMode::Owned), "(u8,Names,)");
    assert_eq!(print_tyid_(&gen, 8, TypeMode::AllBorrowed("'a")), "(u8,&'a Names,)");
    assert_eq!(print_list_(&gen, &Type::String, TypeMode::Owned), "Vec<String>");
    assert_eq!(print_list_(&gen, &Type::String, TypeMode::AllBorrowed("'a")), "&'a [String]");
    assert_eq!(print_list_(&gen, &Type::Id(4), borrowed), "&[Vec<Label>]");
    print_ty(&mut gen, &Type::Id(6), TypeMode::Owned);
    print_ty(&mut gen, &Type::Bool, TypeMode::Owned);
    assert_eq!(gen.src, "Option<Point>bool");
}

#[test]
fn named_types_take_path_and_lifetime_under_the_borrowing_policy() {
    let schema = shapes();
    let opts = opts_with(Ownership::Borrowing { duplicate_if_necessary: true });
    let types = analysis(&schema, &opts);
    let mut names = HashMap::new();
    names.insert(0, InterfaceName { remapped: false, path: "geo::kit::shapes".to_string() });
    let gen = generator(&opts, &types, &names, &schema);
    assert_eq!(print_tyid_(&gen, 2, TypeMode::Owned), "geo::kit::shapes::LabelResult");
    assert_eq!(
        print_tyid_(&gen, 2, TypeMode::AllBorrowed("'a")),
        "geo::kit::shapes::LabelParam<'a,>"
    );
    assert_eq!(print_tyid_(&gen, 1, TypeMode::AllBorrowed("'a")), "geo::kit::shapes::Names<'a,>");
    assert_eq!(print_tyid_(&gen, 1, TypeMode::Owned), "geo::kit::shapes::Names");
    assert_eq!(print_tyid_(&gen, 5, TypeMode::AllBorrowed("'_")), "geo::kit::shapes::Path<'_,>");
    assert_eq!(print_tyid_(&gen, 11, TypeMode::AllBorrowed("'a")), "&'a geo::kit::shapes::Shape");
    assert_eq!(print_tyid_(&gen, 0, TypeMode::AllBorrowed("'a")), "geo::kit::shapes::Point");
    assert!(takes_generics(&schema, 5));
    assert!(takes_generics(&schema, 0));
    assert!(!takes_generics(&schema, 9));
    // from a module of another interface the path starts at the root
    let other = WorldKey::Name("other".to_string());
    let mut gen = generator(&opts, &types, &names, &schema);
    gen.current_interface = Some((7, &other, false));
    assert_eq!(print_tyid_(&gen, 0, TypeMode::Owned), "super::geo::kit::shapes::Point");
    gen.current_interface = Some((7, &other, true));
    assert_eq!(print_tyid_(&gen, 0, TypeMode::Owned), "super::super::geo::kit::shapes::Point");
    let foreign = WorldKey::Interface(7);
    gen.current_interface = Some((7, &foreign, true));
    assert_eq!(
        print_tyid_(&gen, 0, TypeMode::Owned),
        "super::super::super::super::geo::kit::shapes::Point"
    );
}

#[test]
fn spelling_is_refused_for_types_without_name_or_path() {
    let schema = shapes();
    let opts = Opts::default();
    let types = analysis(&schema, &opts);
    let names = HashMap::new();
    let key = WorldKey::Interface(0);
    let mut gen = generator(&opts, &types, &names, &schema);
    assert!(gen.can_print(&Type::U8));
    assert!(!gen.can_print(&Type::Id(0)));
    assert!(!gen.can_print(&Type::Id(6)));
    assert!(!gen.has_path(0));
    gen.current_interface = Some((0, &key, false));
    assert!(gen.has_path(0));
    assert!(gen.can_print(&Type::Id(0)));
    assert!(gen.can_print(&Type::Id(6)));
    assert!(gen.can_print_id(8));
    assert!(!gen.can_print(&Type::Id(12)));
    assert!(gen.can_print_optional(&None));
    assert!(gen.can_print_fn(&schema.interfaces[0].functions[0]));
    assert!(gen.can_print_sig(TypeOwner::Interface(0), &schema.interfaces[0].functions[0]));
    assert!(!gen.can_print_sig(TypeOwner::World(0), &schema.interfaces[0].functions[0]));
    assert!(gen.can_define(Direction::Export, 2));
    assert!(!gen.can_define(Direction::Export, 4));
    assert!(gen.can_define_types(Direction::Export, 0));
    assert!(gen.can_export_struct(0, &key));
    assert!(gen.can_link(0));
}

#[test]
fn record_definition() {
    let schema = shapes();
    let opts = Opts::default();
    let types = analysis(&schema, &opts);
    let names = HashMap::new();
    let key = WorldKey::Interface(0);
    let mut gen = generator(&opts, &types, &names, &schema);
    gen.current_interface = Some((0, &key, true));
    gen.define_type(Direction::Export, "label", 2);
    assert_eq!(
        gen.src,
        "#[derive(wasmtime::component::ComponentType)]\n#[derive(wasmtime::component::Lift)]\n#[derive(wasmtime::component::Lower)]\n#[component(record)]\n#[derive(Clone)]\npub struct Label {\n/// What it says.\n#[component(name = \"text\")]\npub text: String,\n#[component(name = \"type\")]\npub type_: Point,\n}\nimpl core::fmt::Debug for Label {\nfn fmt(&self, f: &mut core::fmt::Formatter<'_>) -> core::fmt::Result {\nf.debug_struct(\"Label\").field(\"text\", &self.text).field(\"type\", &self.type_).finish()\n}\n}\nconst _: () = {\nassert!(16 == <Label as wasmtime::component::ComponentType>::SIZE32);\nassert!(4 == <Label as wasmtime::component::ComponentType>::ALIGN32);\n};\n"
    );
}

#[test]
fn record_definitions_for_both_modes() {
    let schema = shapes();
    let opts = opts_with(Ownership::Borrowing { duplicate_if_necessary: true });
    let types = analysis(&schema, &opts);
    let names = HashMap::new();
    let key = WorldKey::Interface(0);
    let mut gen = generator(&opts, &types, &names, &schema);
    gen.current_interface = Some((0, &key, true));
    gen.type_record(2, match &schema.types[2].kind {
        TypeDefKind::Record(r) => r,
        _ => unreachable!(),
    });
    let text = gen.src.clone();
    let owned = text.find("pub struct LabelResult {\n").unwrap();
    let borrowed = text.find("pub struct LabelParam<'a,> {\n").unwrap();
    assert!(owned < borrowed);
    assert!(text.contains("pub struct LabelResult {\n/// What it says.\n#[component(name = \"text\")]\npub text: String,\n"));
    assert!(text.contains("pub struct LabelParam<'a,> {\n/// What it says.\n#[component(name = \"text\")]\npub text: &'a str,\n"));
    assert!(text.contains("impl<'a,> core::fmt::Debug for LabelParam<'a,> {\n"));
    assert_eq!(text.matches("#[derive(wasmtime::component::Lift)]\n").count(), 1);
    assert!(text.contains("assert!(16 == <LabelResult as wasmtime::component::ComponentType>::SIZE32);\n"));
    assert!(text.contains("assert!(4 == <LabelParam as wasmtime::component::ComponentType>::ALIGN32);\n"));
}

#[test]
fn other_definitions() {
    let schema = shapes();
    let opts = Opts::default();
    let types = analysis(&schema, &opts);
    let names = HashMap::new();
    let key = WorldKey::Interface(0);
    let mut gen = generator(&opts, &types, &names, &schema);
    gen.current_interface = Some((0, &key, true));
    gen.define_type(Direction::Export, "names", 1);
    assert_eq!(
        gen.src,
        "pub type Names = Vec<String>;\nconst _: () = {\nassert!(8 == <Names as wasmtime::component::ComponentType>::SIZE32);\nassert!(4 == <Names as wasmtime::component::ComponentType>::ALIGN32);\n};\n"
    );
    gen.src.clear();
    gen.define_type(Direction::Export, "id", 9);
    assert_eq!(
        gen.src,
        "pub type Id = u64;\nconst _: () = {\nassert!(8 == <Id as wasmtime::component::ComponentType>::SIZE32);\nassert!(8 == <Id as wasmtime::component::ComponentType>::ALIGN32);\n};\n"
    );
    gen.src.clear();
    gen.define_type(Direction::Export, "perms", 10);
    assert_eq!(
        gen.src,
        "wasmtime::component::flags!(\nPerms {\n#[component(name=\"read\")] const READ;\n#[component(name=\"write-all\")] const WRITE_ALL;\n}\n);\n\nconst _: () = {\nassert!(1 == <Perms as wasmtime::component::ComponentType>::SIZE32);\nassert!(1 == <Perms as wasmtime::component::ComponentType>::ALIGN32);\n};\n"
    );
    gen.src.clear();
    gen.define_type(Direction::Export, "color", 3);
    assert_eq!(
        gen.src,
        "#[derive(wasmtime::component::ComponentType)]\n#[derive(wasmtime::component::Lift)]\n#[derive(wasmtime::component::Lower)]\n#[component(enum)]\n#[derive(Clone, Copy, PartialEq, Eq)]\npub enum Color {\n#[component(name = \"red\")]Red,\n#[component(name = \"dark-blue\")]DarkBlue,\n}\nimpl core::fmt::Debug for Color {\nfn fmt(&self, f: &mut core::fmt::Formatter<'_>) -> core::fmt::Result {\nmatch self {\nColor::Red => {\nf.debug_tuple(\"Color::Red\").finish()\n}\nColor::DarkBlue => {\nf.debug_tuple(\"Color::DarkBlue\").finish()\n}\n}\n}\n}\nconst _: () = {\nassert!(1 == <Color as wasmtime::component::ComponentType>::SIZE32);\nassert!(1 == <Color as wasmtime::component::ComponentType>::ALIGN32);\n};\n"
    );
    gen.src.clear();
    gen.define_type(Direction::Export, "shape", 11);
    assert_eq!(
        gen.src,
        "#[derive(wasmtime::component::ComponentType)]\n#[derive(wasmtime::component::Lift)]\n#[derive(wasmtime::component::Lower)]\n#[component(variant)]\n#[derive(Clone)]\npub enum Shape{\n#[component(name = \"dot\")] Dot(Point),\n#[component(name = \"text\")] Text(Label),\n#[component(name = \"none\")] None,\n}\nimpl core::fmt::Debug for Shape {\nfn fmt(&self, f: &mut core::fmt::Formatter<'_>) -> core::fmt::Result {\nmatch self {\nShape::Dot(e) => {\nf.debug_tuple(\"Shape::Dot\").field(e).finish()\n}\nShape::Text(e) => {\nf.debug_tuple(\"Shape::Text\").field(e).finish()\n}\nShape::None => {\nf.debug_tuple(\"Shape::None\").finish()\n}\n}\n}\n}\nconst _: () = {\nassert!(20 == <Shape as wasmtime::component::ComponentType>::SIZE32);\nassert!(4 == <Shape as wasmtime::component::ComponentType>::ALIGN32);\n};\n"
    );
    gen.src.clear();
    gen.assert_type(0, "Point");
    assert_eq!(
        gen.src,
        "const _: () = {\nassert!(8 == <Point as wasmtime::component::ComponentType>::SIZE32);\nassert!(4 == <Point as wasmtime::component::ComponentType>::ALIGN32);\n};\n"
    );
    gen.src.clear();
    gen.define_type(Direction::Export, "perms", 10);
    gen.src.clear();
    gen.types(Direction::Export, 0);
    assert_eq!(gen.src.matches("const _: () = {\n").count(), 8);
}

#[test]
fn documentation_becomes_doc_comments() {
    let schema = shapes();
    let opts = Opts::default();
    let types = analysis(&schema, &opts);
    let names = HashMap::new();
    let mut gen = generator(&opts, &types, &names, &schema);
    gen.rustdoc(&Docs { contents: None });
    assert_eq!(gen.src, "");
    gen.rustdoc(&Docs { contents: Some("\n  First line.\r\n   indented\n\nlast  \n\n".to_string()) });
    assert_eq!(gen.src, "/// First line.\n///    indented\n/// \n/// last\n");
    gen.src.clear();
    gen.rustdoc(&Docs { contents: Some("   ".to_string()) });
    assert_eq!(gen.src, "");
}

#[test]
fn result_types_of_functions() {
    let schema = shapes();
    let opts = Opts::default();
    let types = analysis(&schema, &opts);
    let names = HashMap::new();
    let key = WorldKey::Interface(0);
    let mut gen = generator(&opts, &types, &names, &schema);
    gen.current_interface = Some((0, &key, true));
    assert_eq!(gen.print_result_ty_(&Results::Named(vec![]), TypeMode::Owned), "()");
    assert_eq!(
        gen.print_result_ty_(&Results::Named(vec![("a".to_string(), Type::U8)]), TypeMode::Owned),
        "u8"
    );
    assert_eq!(
        gen.print_result_ty_(&schema.interfaces[0].functions[1].results, TypeMode::Owned),
        "(Id, Shape)"
    );
    assert_eq!(gen.print_result_ty_(&Results::Anon(Type::Id(7)), TypeMode::Owned), "Result<Label,Color>");
    let draw = &schema.interfaces[0].functions[0];
    assert_eq!(
        gen.extract_typed_function(draw),
        (
            "draw".to_string(),
            "*__exports.typed_func::<(&Path, (u8,&Names,), Option<Point>, ), (Result<Label,Color>, )>(\"draw\")?.func()"
                .to_string()
        )
    );
    gen.generate_function_trait_sig(TypeOwner::Interface(0), draw);
    assert_eq!(
        gen.src,
        "fn draw(&mut self, where_: Path,tags: (u8,Names,),origin: Option<Point>,) -> wasmtime::Result<Result<Label,Color>>;\n"
    );
}

#[test]
fn resources_of_types() {
    let counter = def(Some("counter"), TypeDefKind::Resource, TypeOwner::Interface(0), 0, 0);
    let own = def(None, TypeDefKind::Handle(Handle::Own(0)), TypeOwner::Unowned, 4, 4);
    let list = def(None, TypeDefKind::List(Type::Id(1)), TypeOwner::Unowned, 8, 4);
    let file = def(Some("file"), TypeDefKind::Resource, TypeOwner::Interface(3), 0, 0);
    let borrow = def(None, TypeDefKind::Handle(Handle::Borrow(3)), TypeOwner::Unowned, 4, 4);
    let pair = def(
        None,
        TypeDefKind::Tuple(Tuple { types: vec![Type::Id(4), Type::U8, Type::Id(2)] }),
        TypeOwner::Unowned,
        16,
        4,
    );
    let holder = def(
        Some("holder"),
        TypeDefKind::Record(Record {
            fields: vec![Field { name: "c".to_string(), ty: Type::Id(1), docs: undocumented() }],
        }),
        TypeOwner::Unowned,
        4,
        4,
    );
    let outcome = def(
        None,
        TypeDefKind::Result(Result_ { ok: Some(Type::Id(1)), err: Some(Type::Id(4)) }),
        TypeOwner::Unowned,
        8,
        4,
    );
    let schema = Schema {
        types: vec![counter, own, list, file, borrow, pair, holder, outcome],
        interfaces: vec![
            Interface { name: None, types: vec![], functions: vec![], package: None },
            Interface { name: None, types: vec![], functions: vec![], package: None },
            Interface { name: None, types: vec![], functions: vec![], package: None },
            Interface { name: None, types: vec![], functions: vec![], package: None },
        ],
        worlds: vec![],
        packages: vec![],
    };
    assert!(schema.check());
    let counter = ("counter".to_string(), TypeOwner::Interface(0));
    let file = ("file".to_string(), TypeOwner::Interface(3));
    assert_eq!(get_resource_from_tyid(&schema, 0), vec![counter.clone()]);
    assert_eq!(get_resource_from_tyid(&schema, 2), vec![counter.clone()]);
    assert_eq!(
        get_resource_from_tyid(&schema, 5),
        vec![file.clone(), counter.clone()]
    );
    assert_eq!(get_resource_from_tyid(&schema, 6), vec![]);
    assert_eq!(get_resource_from_tyid(&schema, 7), vec![counter.clone(), file.clone()]);
    assert_eq!(get_resource_from_ty(&schema, &Type::String), vec![]);
    assert_eq!(get_resource_from_ty(&schema, &Type::Id(4)), vec![file]);
}

#[test]
fn declared_names_of_resource_functions() {
    assert_eq!(strip_resource_prefix("[static]counter.make"), "make");
    assert_eq!(strip_resource_prefix("[static]counter.make.more"), "make.more");
    assert_eq!(strip_resource_prefix("counter."), "");
    assert_eq!(strip_resource_prefix(".x"), "x");
    assert_eq!(strip_resource_prefix("plain"), "plain");
    assert_eq!(strip_resource_prefix(""), "");
    assert_eq!(strip_resource_prefix("[static]zähler.größe"), "größe");
}

#[test]
fn trappable_errors_of_a_scope() {
    let schema = shapes();
    let mut opts = Opts::default();
    for (name, owner, rust) in [
        ("color", None, "ColorError"),
        ("label", Some("other"), "Unused"),
        ("missing", None, "Nothing"),
        ("label", Some("shapes"), "LabelError"),
    ] {
        opts.trappable_error_type.push(TrappableError {
            wit_name: name.to_string(),
            wit_owner: owner.map(|o: &str| o.to_string()),
            rust_name: rust.to_string(),
        });
    }
    let types = analysis(&schema, &opts);
    let names = HashMap::new();
    let mut gen = generator(&opts, &types, &names, &schema);
    assert_eq!(
        gen.trappable_error_types(TypeOwner::Interface(0)),
        vec![(3, "ColorError".to_string()), (2, "LabelError".to_string())]
    );
    assert_eq!(gen.trappable_error_types(TypeOwner::Unowned), vec![]);
    gen.generate_trappable_error_types(TypeOwner::Interface(0));
    assert_eq!(gen.src.matches("#[derive(Debug)]\npub struct ").count(), 2);
    assert!(gen.src.contains("impl From<Color> for ColorError {\n"));
    assert!(gen.src.contains("pub fn downcast_ref(&self) -> Option<&Label> {\n"));
}

#[test]
fn error_types_must_not_borrow() {
    let schema = shapes();
    let mut opts = opts_with(Ownership::Borrowing { duplicate_if_necessary: true });
    opts.trappable_error_type.push(TrappableError {
        wit_name: "color".to_string(),
        wit_owner: None,
        rust_name: "ColorError".to_string(),
    });
    {
        let types = analysis(&schema, &opts);
        let names = HashMap::new();
        let gen = generator(&opts, &types, &names, &schema);
        assert!(gen.can_trap(TypeOwner::Interface(0)));
    }
    assert!(opts.try_generate(&schema, 0).is_ok());
    // `label` holds a string and is used both ways: what the error type
    // would wrap is the borrowed `LabelParam<'a>`
    opts.trappable_error_type.push(TrappableError {
        wit_name: "label".to_string(),
        wit_owner: None,
        rust_name: "LabelError".to_string(),
    });
    {
        let types = analysis(&schema, &opts);
        let names = HashMap::new();
        let gen = generator(&opts, &types, &names, &schema);
        assert!(!gen.can_trap(TypeOwner::Interface(0)));
        assert!(gen.can_trap(TypeOwner::Unowned));
    }
    assert_eq!(
        opts.try_generate(&schema, 0),
        Err(wasmtime_wit_bindgen::generate::Refusal::Export(
            0,
            wasmtime_wit_bindgen::world::Cause::ErrorType
        ))
    );
    opts.ownership = Ownership::Owning;
    assert!(opts.try_generate(&schema, 0).is_ok());
}
