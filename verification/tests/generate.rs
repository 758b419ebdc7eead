use std::collections::HashMap;
use wasmtime_wit_bindgen::interface::{InterfaceGenerator, InterfaceName};
use wasmtime_wit_bindgen::rust::RustGenerator;
use wasmtime_wit_bindgen::schema::{
    Docs, Enum, EnumCase, Field, Function, FunctionKind, Handle, Interface, Package, PackageName,
    Record, Result_, Results, Schema, Type, TypeDef, TypeDefKind, TypeOwner, World, WorldItem,
    WorldKey,
};
use wasmtime_wit_bindgen::types::Types;
use wasmtime_wit_bindgen::generate::Refusal;
use wasmtime_wit_bindgen::world::Cause;
use wasmtime_wit_bindgen::{Opts, TrappableError};

fn no_docs() -> Docs {
    Docs { contents: None }
}

fn function(name: &str, kind: FunctionKind, params: Vec<(&str, Type)>, results: Results) -> Function {
    Function {
        name: name.to_string(),
        kind,
        params: params.into_iter().map(|(n, t)| (n.to_string(), t)).collect(),
        results,
        docs: no_docs(),
    }
}

fn package() -> Package {
    Package {
        name: PackageName {
            namespace: "example".to_string(),
            name: "calc".to_string(),
            version: None,
        },
    }
}

fn counter_world() -> Schema {
    let resource = TypeDef {
        name: Some("counter".to_string()),
        kind: TypeDefKind::Resource,
        owner: TypeOwner::Interface(0),
        docs: no_docs(),
        size: usize::MAX,
        align: usize::MAX,
    };
    let own = TypeDef {
        name: None,
        kind: TypeDefKind::Handle(Handle::Own(0)),
        owner: TypeOwner::Unowned,
        docs: no_docs(),
        size: 4,
        align: 4,
    };
    let borrow = TypeDef {
        name: None,
        kind: TypeDefKind::Handle(Handle::Borrow(0)),
        owner: TypeOwner::Unowned,
        docs: no_docs(),
        size: 4,
        align: 4,
    };
    let constructor = function(
        "[constructor]counter",
        FunctionKind::Constructor(0),
        vec![("start", Type::U32)],
        Results::Anon(Type::Id(1)),
    );
    let increment = function(
        "[method]counter.increment",
        FunctionKind::Method(0),
        vec![("self", Type::Id(2))],
        Results::Anon(Type::U32),
    );
    Schema {
        types: vec![resource, own, borrow],
        interfaces: vec![Interface {
            name: Some("counter".to_string()),
            types: vec![("counter".to_string(), 0)],
            functions: vec![constructor, increment],
            package: Some(0),
        }],
        worlds: vec![World {
            name: "counting".to_string(),
            imports: vec![],
            exports: vec![(WorldKey::Name("counter".to_string()), WorldItem::Interface(0))],
        }],
        packages: vec![package()],
    }
}

fn error_world() -> Schema {
    let my_error = TypeDef {
        name: Some("my-error".to_string()),
        kind: TypeDefKind::Enum(Enum {
            cases: vec![
                EnumCase {
                    name: "not-found".to_string(),
                    docs: Docs { contents: Some("  nothing there \n".to_string()) },
                },
                EnumCase {
                    name: "denied".to_string(),
                    docs: no_docs(),
                },
            ],
        }),
        owner: TypeOwner::Interface(0),
        docs: Docs { contents: Some("What can go wrong.\nSecond line.".to_string()) },
        size: 1,
        align: 1,
    };
    let result = TypeDef {
        name: None,
        kind: TypeDefKind::Result(Result_ { ok: Some(Type::String), err: Some(Type::Id(0)) }),
        owner: TypeOwner::Unowned,
        docs: no_docs(),
        size: 12,
        align: 4,
    };
    let read = function(
        "read",
        FunctionKind::Freestanding,
        vec![("path", Type::String)],
        Results::Anon(Type::Id(1)),
    );
    Schema {
        types: vec![my_error, result],
        interfaces: vec![Interface {
            name: Some("files".to_string()),
            types: vec![("my-error".to_string(), 0)],
            functions: vec![read],
            package: Some(0),
        }],
        worlds: vec![World {
            name: "reader".to_string(),
            imports: vec![(WorldKey::Interface(0), WorldItem::Interface(0))],
            exports: vec![],
        }],
        packages: vec![package()],
    }
}


fn math_world() -> Schema {
    let add = function(
        "add",
        FunctionKind::Freestanding,
        vec![("a", Type::U32), ("b", Type::U32)],
        Results::Anon(Type::U32),
    );
    Schema {
        types: vec![],
        interfaces: vec![Interface {
            name: Some("math".to_string()),
            types: vec![],
            functions: vec![add],
            package: Some(0),
        }],
        worlds: vec![World {
            name: "calculator".to_string(),
            imports: vec![(WorldKey::Name("math".to_string()), WorldItem::Interface(0))],
            exports: vec![],
        }],
        packages: vec![package()],
    }
}

fn count(text: &str, part: &str) -> usize {
    text.matches(part).count()
}

fn error_opts() -> Opts {
    let mut opts = Opts::default();
    opts.trappable_error_type.push(TrappableError {
        wit_name: "my-error".to_string(),
        wit_owner: None,
        rust_name: "FilesError".to_string(),
    });
    opts
}

#[test]
fn imported_interface_gets_host_trait_and_one_registration() {
    let schema = math_world();
    assert!(schema.check());
    let opts = Opts::default();
    assert!(opts.can_generate(&schema, 0));
    let text = opts.generate(&schema, 0);
    assert!(text.contains(
        "pub trait Host {\nfn add(&mut self, a: u32,b: u32,) -> wasmtime::Result<u32>;\n}\n"
    ));
    assert_eq!(count(&text, "fn add("), 1);
    assert!(text.contains(
        "let mut inst = linker.instance(\"math\")?;\ninst.func_wrap(\"add\", move |mut caller: wasmtime::StoreContextMut<'_, T>, (arg0,arg1,) : (u32, u32, ) | { \nlet host = get(caller.data_mut());\nlet r = host.add(arg0, arg1, );\nOk((r?,))\n}\n)?;\nOk(())\n}\n"
    ));
    assert_eq!(count(&text, "linker.instance("), 1);
    assert_eq!(count(&text, ".func_wrap("), 1);
    assert!(text.contains("\n#[allow(clippy::all)]\npub mod math {\n"));
    assert!(text.starts_with("pub struct Calculator {\n}\n"));
    assert!(text.contains("where U: math::Host,\n{\nmath::add_to_linker(linker, get)?;\nOk(())\n}\n"));
    assert!(!text.contains("pub mod exports"));
    assert_eq!(opts.try_generate(&schema, 0), Ok(text));
}

#[test]
fn generation_is_deterministic() {
    let schema = counter_world();
    let first = Opts::default().generate(&schema, 0);
    let second = Opts::default().generate(&schema, 0);
    assert_eq!(first, second);
}

#[test]
fn exported_resource_gets_trait_and_wrapper() {
    let schema = counter_world();
    let text = Opts::default().try_generate(&schema, 0).unwrap();
    assert!(text.contains(
        "pub trait Counter {\nfn new<S: wasmtime::AsContextMut>(store: S, instance: &wasmtime::component::Instance, ) -> wasmtime::Result<Self> where Self: Sized;\nfn method_counter_increment<S: wasmtime::AsContextMut>(&self, store: S, ) -> wasmtime::Result<u32> where Self: Sized;\n}\n"
    ));
    assert!(text.contains(
        "pub struct RepCounter {\npub handle: wasmtime::component::ResourceAny,\nconstructor_counter: wasmtime::component::Func,\nmethod_counter_increment: wasmtime::component::Func,\n}\n"
    ));
    assert!(text.contains("impl Counter for RepCounter {\n"));
    assert!(text.contains(
        "let constructor_counter = *__exports.typed_func::<(u32, ), (wasmtime::component::ResourceAny, )>(\"[constructor]counter\")?.func();\nlet method_counter_increment = *__exports.typed_func::<(wasmtime::component::ResourceAny, ), (u32, )>(\"[method]counter.increment\")?.func();\n"
    ));
    assert!(text.contains(
        "Ok(Self {\nhandle: ret0,\nconstructor_counter,\nmethod_counter_increment,\n})\n"
    ));
    assert!(text.contains("pub mod exports {\n\n#[allow(clippy::all)]\npub mod counter {\n"));
    assert!(text.contains("pub struct Counting {\ninterface0: exports::counter::Counter,\n}\n"));
    assert!(text.contains(
        "let interface0 = exports::counter::Counter::new(\n&mut __exports.instance(\"counter\")\n.ok_or_else(|| anyhow::anyhow!(\"exported instance `counter` not present\"))?\n)?;\n"
    ));
    assert!(text.contains(
        "\npub fn counter(&self) -> &exports::counter::Counter {\n&self.interface0\n}\n"
    ));
}

#[test]
fn resource_method_calls_once_and_cleans_up_once() {
    let schema = counter_world();
    let opts = Opts::default();
    let mut types = Types::new();
    types.analyze(&schema, 0, &opts.trappable_error_type);
    let names: HashMap<usize, InterfaceName> = HashMap::new();
    let key = WorldKey::Name("counter".to_string());
    let mut gen = InterfaceGenerator::new(&opts, &types, &names, &schema);
    gen.current_interface = Some((0, &key, true));
    let iface = &schema.interfaces[0];
    gen.define_rust_guest_export_resource_representation(None, &iface.functions[1], iface);
    assert_eq!(
        gen.src,
        " fn method_counter_increment<S: wasmtime::AsContextMut>(&self, mut store: S, ) -> wasmtime::Result<u32> {\n\nlet () = {\n\n()\n};\nlet callee = unsafe {\nwasmtime::component::TypedFunc::<(wasmtime::component::ResourceAny, ), (u32, )>::new_unchecked(self.method_counter_increment)\n};\nlet (ret0,) = callee.call(store.as_context_mut(), (self.to_handle(), ))?;\ncallee.post_return(store.as_context_mut())?;\nOk(ret0)\n}\n"
    );
    assert_eq!(count(&gen.src, "callee.call"), 1);
    assert_eq!(count(&gen.src, "callee.post_return"), 1);
}

#[test]
fn trappable_error_is_returned_as_value_or_aborts() {
    let schema = error_world();
    let opts = error_opts();
    let text = opts.try_generate(&schema, 0).unwrap();
    assert!(text.contains("fn read(&mut self, path: String,) -> Result<String,FilesError>;\n"));
    assert!(text.contains(
        "let r = host.read(arg0, );\nmatch r {\nOk(a) => Ok((Ok(a),)),\nErr(e) => match e.downcast() {\nOk(api_error) => Ok((Err(api_error),)),\nErr(anyhow_error) => Err(anyhow_error),\n}\n}}\n)?;\n"
    ));
    assert!(text.contains("pub struct FilesError {\ninner: anyhow::Error,\n}\n"));
    assert!(text.contains(
        "pub fn downcast(self) -> Result<MyError, anyhow::Error> {\nself.inner.downcast()\n}\n"
    ));
    assert!(text.contains("impl From<MyError> for FilesError {\n"));
    assert!(text.contains("impl std::error::Error for MyError{}\n"));
    assert!(text.contains(
        "pub fn name(&self) -> &'static str {\nmatch self {\nMyError::NotFound => \"not-found\",\nMyError::Denied => \"denied\",\n}\n}\n"
    ));
    assert!(text.contains(
        "pub fn message(&self) -> &'static str {\nmatch self {\nMyError::NotFound => \"nothing there\",\nMyError::Denied => \"\",\n}\n}\n"
    ));
    assert!(text.contains("/// What can go wrong.\n/// Second line.\n#[derive(wasmtime::component::ComponentType)]\n"));
    assert!(text.contains(
        "const _: () = {\nassert!(1 == <MyError as wasmtime::component::ComponentType>::SIZE32);\nassert!(1 == <MyError as wasmtime::component::ComponentType>::ALIGN32);\n};\n"
    ));
    assert!(text.contains("pub mod example {\npub mod calc {\n\n#[allow(clippy::all)]\npub mod files {\n"));
    assert!(text.ends_with("\n}\n\n}\n}\n"));
    assert!(text.contains("let mut inst = linker.instance(\"example:calc/files\")?;\n"));
    assert!(text.contains("where U: example::calc::files::Host,\n{\nexample::calc::files::add_to_linker(linker, get)?;\n"));
}

#[test]
fn without_mapping_the_error_is_an_ordinary_result() {
    let schema = error_world();
    let text = Opts::default().try_generate(&schema, 0).unwrap();
    assert!(text.contains(
        "fn read(&mut self, path: String,) -> wasmtime::Result<Result<String,MyError>>;\n"
    ));
    assert!(text.contains("let r = host.read(arg0, );\nOk((r?,))\n}\n"));
    assert!(!text.contains("downcast"));
    assert!(!text.contains("impl std::error::Error for MyError"));
    assert!(text.contains("impl core::fmt::Debug for MyError {\n"));
}

#[test]
fn mapping_with_another_owner_does_not_apply() {
    let schema = error_world();
    let mut opts = Opts::default();
    opts.trappable_error_type.push(TrappableError {
        wit_name: "my-error".to_string(),
        wit_owner: Some("other".to_string()),
        rust_name: "FilesError".to_string(),
    });
    let text = opts.try_generate(&schema, 0).unwrap();
    assert!(!text.contains("FilesError"));
    opts.trappable_error_type[0].wit_owner = Some("files".to_string());
    let text = opts.try_generate(&schema, 0).unwrap();
    assert!(text.contains("Result<String,FilesError>"));
}

#[test]
fn remapped_interface_adds_only_an_alias() {
    let schema = math_world();
    let mut opts = Opts::default();
    opts.with.insert("math".to_string(), "crate::my_math".to_string());
    let text = opts.try_generate(&schema, 0).unwrap();
    assert!(text.starts_with("use crate::my_math as __with_name0;\n"));
    assert_eq!(count(&text, "__with_name0"), 1);
    assert!(!text.contains("pub mod math"));
    assert!(!text.contains("pub trait Host"));
    assert!(!text.contains("add_to_linker"));
}

#[test]
fn remapped_export_adds_only_an_alias() {
    let schema = counter_world();
    let mut opts = Opts::default();
    opts.with.insert("counter".to_string(), "crate::counters".to_string());
    let text = opts.try_generate(&schema, 0).unwrap();
    assert!(text.starts_with("use crate::counters as __with_name0;\n"));
    assert!(!text.contains("pub mod exports"));
    assert!(!text.contains("RepCounter"));
    assert!(text.contains("pub struct Counting {\n}\n"));
}

#[test]
fn only_interfaces_leaves_out_the_world_struct() {
    let schema = math_world();
    let mut opts = Opts::default();
    opts.only_interfaces = true;
    let text = opts.try_generate(&schema, 0).unwrap();
    assert!(text.starts_with("\n#[allow(clippy::all)]\npub mod math {\n"));
    assert!(!text.contains("pub struct Calculator"));
}

#[test]
fn async_option_makes_traits_and_dispatch_async() {
    let schema = math_world();
    let mut opts = Opts::default();
    opts.async_ = true;
    let text = opts.try_generate(&schema, 0).unwrap();
    assert!(text.contains(
        "#[wasmtime::component::__internal::async_trait]\npub trait Host {\nasync fn add(&mut self, a: u32,b: u32,) -> wasmtime::Result<u32>;\n}\n"
    ));
    assert!(text.contains("where T: Send, U: Host + Send,\n"));
    assert!(text.contains(
        "inst.func_wrap_async(\"add\", move |mut caller: wasmtime::StoreContextMut<'_, T>, (arg0,arg1,) : (u32, u32, ) | Box::new(async move { \nlet host = get(caller.data_mut());\nlet r = host.add(arg0, arg1, ).await;\nOk((r?,))\n})\n)?;\n"
    ));
    assert_eq!(count(&text, ".await"), 3);
    assert!(text.contains("pub async fn instantiate_async<T :Send>(\n"));
    assert!(text.contains("where U: math::Host + Send, T: Send,\n"));
}

#[test]
fn tracing_option_adds_spans_and_events() {
    let schema = math_world();
    let mut opts = Opts::default();
    opts.tracing = true;
    let text = opts.try_generate(&schema, 0).unwrap();
    assert!(text.contains(
        "\nlet span = tracing::span!(\ntracing::Level::TRACE,\n\"wit-bindgen import\",\nmodule = \"math\",\nfunction = \"add\",\n);\nlet _enter = span.enter();\ntracing::event!(tracing::Level::TRACE, a = tracing::field::debug(&arg0), b = tracing::field::debug(&arg1), \"call\");\n"
    ));
    assert!(text.contains(
        "tracing::event!(tracing::Level::TRACE, result = tracing::field::debug(&r), \"return\");Ok((r?,))\n"
    ));
}

fn world_function_schema() -> Schema {
    let log = function(
        "log-line",
        FunctionKind::Freestanding,
        vec![("type", Type::String)],
        Results::Named(vec![]),
    );
    let run = function(
        "run",
        FunctionKind::Freestanding,
        vec![("args", Type::Id(0))],
        Results::Named(vec![("code".to_string(), Type::S32), ("ok".to_string(), Type::Bool)]),
    );
    Schema {
        types: vec![TypeDef {
            name: None,
            kind: TypeDefKind::List(Type::String),
            owner: TypeOwner::Unowned,
            docs: no_docs(),
            size: 8,
            align: 4,
        }],
        interfaces: vec![],
        worlds: vec![World {
            name: "host".to_string(),
            imports: vec![(WorldKey::Name("log-line".to_string()), WorldItem::Function(log))],
            exports: vec![(WorldKey::Name("run".to_string()), WorldItem::Function(run))],
        }],
        packages: vec![],
    }
}

#[test]
fn functions_of_the_world_itself() {
    let schema = world_function_schema();
    let text = Opts::default().try_generate(&schema, 0).unwrap();
    assert!(text.starts_with("pub struct Host_ {\nrun: wasmtime::component::Func,\n}\n"));
    assert!(text.contains(
        "pub trait Host_Imports {\nfn log_line(&mut self, type_: String,) -> wasmtime::Result<()>;\n\n}\n"
    ));
    assert!(text.contains("where U: Host_Imports,\n{\nSelf::add_root_to_linker(linker, get)?;\nOk(())\n}\n"));
    assert!(text.contains(
        "where U: Host_Imports\n{\nlet mut linker = linker.root();\nlinker.func_wrap(\"log-line\", move |mut caller: wasmtime::StoreContextMut<'_, T>, (arg0,) : (String, ) | { \nlet host = get(caller.data_mut());\nlet r = host.log_line(arg0, );\nr\n}\n)?;\n\nOk(())\n}\n"
    ));
    assert!(text.contains(
        "let run = *__exports.typed_func::<(&[String], ), (i32, bool, )>(\"run\")?.func();\n"
    ));
    assert!(text.contains(
        "pub  fn call_run<S: wasmtime::AsContextMut>(&self, mut store: S, arg0: &[String],) -> wasmtime::Result<(i32, bool)> {\nlet callee = unsafe {\nwasmtime::component::TypedFunc::<(&[String],), (i32, bool, )>::new_unchecked(self.run)\n};\nlet (ret0,ret1,) = callee.call(store.as_context_mut(), (arg0, ))?;\ncallee.post_return(store.as_context_mut())?;\nOk((ret0,ret1,))\n}\n"
    ));
}

#[test]
fn unsupported_worlds_are_refused() {
    let opts = Opts::default();
    // no such world
    assert_eq!(opts.try_generate(&math_world(), 1), Err(Refusal::NoWorld));
    assert!(!opts.can_generate(&math_world(), 1));

    // a type that refers to a later type
    let mut schema = world_function_schema();
    schema.types[0].kind = TypeDefKind::List(Type::Id(0));
    assert!(!schema.check());
    assert_eq!(opts.try_generate(&schema, 0), Err(Refusal::Malformed));
    assert_eq!(opts.try_generate(&schema, 5), Err(Refusal::Malformed));

    // a parameter of a record type without name
    let mut schema = world_function_schema();
    schema.types[0].kind = TypeDefKind::Record(Record {
        fields: vec![Field { name: "x".to_string(), ty: Type::U8, docs: no_docs() }],
    });
    assert!(schema.check());
    assert_eq!(opts.try_generate(&schema, 0), Err(Refusal::Export(0, Cause::Type)));
    assert!(!opts.can_generate(&schema, 0));

    // two exports that ask for one field of the world struct
    let mut schema = world_function_schema();
    let again = function("Run", FunctionKind::Freestanding, vec![], Results::Named(vec![]));
    schema.worlds[0].exports.push((WorldKey::Name("Run".to_string()), WorldItem::Function(again)));
    assert_eq!(opts.try_generate(&schema, 0), Err(Refusal::Export(1, Cause::Field)));

    // an exported type
    let mut schema = world_function_schema();
    schema.worlds[0].exports.push((WorldKey::Name("t".to_string()), WorldItem::Type(0)));
    assert!(!schema.check());
    assert_eq!(opts.try_generate(&schema, 0), Err(Refusal::Malformed));

    // an import that cannot be spelled comes before any export
    let mut schema = world_function_schema();
    schema.types.push(TypeDef {
        name: None,
        kind: TypeDefKind::Enum(Enum { cases: vec![] }),
        owner: TypeOwner::Unowned,
        docs: no_docs(),
        size: 1,
        align: 1,
    });
    let bad = function("bad", FunctionKind::Freestanding, vec![("e", Type::Id(1))], Results::Named(vec![]));
    schema.worlds[0].imports.push((WorldKey::Name("bad".to_string()), WorldItem::Function(bad)));
    schema.worlds[0].exports.push((WorldKey::Name("t".to_string()), WorldItem::Interface(9)));
    assert_eq!(opts.try_generate(&schema, 0), Err(Refusal::Malformed));
    schema.worlds[0].exports.pop();
    assert_eq!(opts.try_generate(&schema, 0), Err(Refusal::Import(1, Cause::Type)));
    let mut only = Opts::default();
    only.only_interfaces = true;
    assert!(only.try_generate(&schema, 0).is_ok());
}

fn resource_import_world() -> Schema {
    let mut schema = counter_world();
    let world = &mut schema.worlds[0];
    world.imports = vec![(WorldKey::Name("counter".to_string()), WorldItem::Interface(0))];
    world.exports = vec![];
    schema
}

#[test]
fn imported_resource_needs_a_host_type() {
    let schema = resource_import_world();
    let mut opts = Opts::default();
    assert_eq!(opts.try_generate(&schema, 0), Err(Refusal::Import(0, Cause::Resource)));
    opts.resources.insert("counter".to_string(), "MyCounter".to_string());
    let text = opts.try_generate(&schema, 0).unwrap();
    assert!(text.contains("use super::super::super::MyCounter;\n"));
    assert!(text.contains(
        "pub trait Counter {\nfn new(start: u32,) -> wasmtime::Result<Self> where Self: Sized;\nfn method_counter_increment(&self, ) -> wasmtime::Result<u32> where Self: Sized;\n}\n"
    ));
    assert!(text.contains("where T: wasmtime::component::ResourceTable<MyCounter>, U: Host,\n"));
    assert!(text.contains(
        "\ninst.resource::<MyCounter>(\"counter\", |mut store, rep| {\nstore.data_mut().drop_resource(rep);\n})?;\n\n"
    ));
    assert!(text.contains(
        "inst.func_wrap(\"[constructor]counter\", move |mut caller: wasmtime::StoreContextMut<'_, T>, (arg0,) : (u32, ) | { \nlet resource = MyCounter::new(arg0,)?;\nlet r = caller.data_mut().new_resource(resource);Ok((r,))\n}\n)?;\n"
    ));
    assert!(text.contains(
        "inst.func_wrap(\"[method]counter.increment\", move |mut caller: wasmtime::StoreContextMut<'_, T>, (arg0,) : (wasmtime::component::Resource<MyCounter>, ) | { \nlet mut resource = caller.data_mut().get_resource_mut(arg0);\nlet r = resource.method_counter_increment();\nOk((r?,))\n}\n)?;\n"
    ));
    assert!(text.contains("where U: counter::Host, T: wasmtime::component::ResourceTable<MyCounter>,\n"));
    assert!(!text.contains("RepCounter"));
}

#[test]
fn modules_stand_in_the_tree_of_their_packages() {
    let mut schema = math_world();
    schema.packages.push(Package {
        name: PackageName {
            namespace: "acme".to_string(),
            name: "tools".to_string(),
            version: Some("1.2.0".to_string()),
        },
    });
    schema.interfaces.push(Interface {
        name: Some("clock".to_string()),
        types: vec![],
        functions: vec![],
        package: Some(1),
    });
    schema.interfaces.push(Interface {
        name: Some("extra-ops".to_string()),
        types: vec![],
        functions: vec![],
        package: Some(0),
    });
    schema.worlds[0].imports = vec![
        (WorldKey::Interface(0), WorldItem::Interface(0)),
        (WorldKey::Interface(1), WorldItem::Interface(1)),
        (WorldKey::Name("plain".to_string()), WorldItem::Interface(2)),
        (WorldKey::Interface(2), WorldItem::Interface(2)),
    ];
    let text = Opts::default().try_generate(&schema, 0).unwrap();
    let plain = text.find("pub mod plain {").unwrap();
    let acme = text.find("pub mod acme {\npub mod tools {\n").unwrap();
    let clock = text.find("pub mod clock {").unwrap();
    let example = text.find("}\n}\npub mod example {\npub mod calc {\n").unwrap();
    let math = text.find("pub mod math {").unwrap();
    let extra = text.find("pub mod extra_ops {").unwrap();
    assert!(plain < acme && acme < clock && clock < example && example < math && math < extra);
    assert!(text.contains("let mut inst = linker.instance(\"acme:tools/clock@1.2.0\")?;\n"));
    assert!(text.contains(
        "where U: plain::Host + acme::tools::clock::Host + example::calc::math::Host + example::calc::extra_ops::Host,\n{\nplain::add_to_linker(linker, get)?;\nacme::tools::clock::add_to_linker(linker, get)?;\nexample::calc::math::add_to_linker(linker, get)?;\nexample::calc::extra_ops::add_to_linker(linker, get)?;\nOk(())\n}\n"
    ));
}

#[test]
fn packages_of_one_name_must_agree_in_version() {
    let mut schema = math_world();
    schema.packages.push(Package {
        name: PackageName {
            namespace: "example".to_string(),
            name: "calc".to_string(),
            version: Some("2.0.0".to_string()),
        },
    });
    schema.interfaces.push(Interface {
        name: Some("more".to_string()),
        types: vec![],
        functions: vec![],
        package: Some(1),
    });
    schema.worlds[0].imports = vec![
        (WorldKey::Interface(0), WorldItem::Interface(0)),
        (WorldKey::Interface(1), WorldItem::Interface(1)),
    ];
    assert!(schema.check());
    assert_eq!(Opts::default().try_generate(&schema, 0), Err(Refusal::Versions));
    schema.packages[1].name.version = None;
    assert!(Opts::default().try_generate(&schema, 0).is_ok());
}

#[test]
fn generator_spells_types_through_the_trait() {
    let schema = error_world();
    let opts = Opts::default();
    let mut types = Types::new();
    types.analyze(&schema, 0, &opts.trappable_error_type);
    let mut names: HashMap<usize, InterfaceName> = HashMap::new();
    names.insert(0, InterfaceName { remapped: false, path: "example::calc::files".to_string() });
    let mut gen = InterfaceGenerator::new(&opts, &types, &names, &schema);
    assert_eq!(gen.path_to_interface(0), Some("example::calc::files".to_string()));
    let key = WorldKey::Interface(0);
    gen.current_interface = Some((0, &key, true));
    assert_eq!(gen.path_to_interface(0), None);
    gen.push_str("a");
    gen.push_str("b");
    assert_eq!(gen.src, "ab");
    assert_eq!(gen.resolve().types.len(), 2);
    assert!(!gen.info(0).has_list);
    assert!(gen.info(1).has_list);
}

fn static_world() -> Schema {
    let mut schema = counter_world();
    let zero = function(
        "[static]counter.from-zero",
        FunctionKind::Static(0),
        vec![],
        Results::Anon(Type::Id(1)),
    );
    schema.interfaces[0].functions.push(zero);
    schema
}

#[test]
fn static_functions_keep_their_declared_name() {
    let mut schema = static_world();
    let text = Opts::default().try_generate(&schema, 0).unwrap();
    assert!(text.contains(
        "fn from_zero<S: wasmtime::AsContextMut>(&self, store: S, ) -> wasmtime::Result<wasmtime::component::ResourceAny> where Self: Sized;\n"
    ));
    assert!(text.contains(
        " fn from_zero<S: wasmtime::AsContextMut>(&self, mut store: S, ) -> wasmtime::Result<wasmtime::component::ResourceAny> {\n"
    ));
    assert!(text.contains("static_counter_from_zero: wasmtime::component::Func,\n"));
    assert!(text.contains(
        "let (ret0,) = callee.call(store.as_context_mut(), ())?;\ncallee.post_return(store.as_context_mut())?;\nOk(ret0)\n"
    ));
    let world = &mut schema.worlds[0];
    world.imports = vec![(WorldKey::Name("counter".to_string()), WorldItem::Interface(0))];
    world.exports = vec![];
    let mut opts = Opts::default();
    opts.resources.insert("counter".to_string(), "MyCounter".to_string());
    let text = opts.try_generate(&schema, 0).unwrap();
    assert!(text.contains("fn from_zero(&self, ) -> wasmtime::Result<wasmtime::component::ResourceAny> where Self: Sized;\n"));
    assert!(text.contains(
        "inst.func_wrap(\"[static]counter.from-zero\", move |mut caller: wasmtime::StoreContextMut<'_, T>, () : () | { \nlet r = MyCounter::from_zero();\nOk((r?,))\n}\n)?;\n"
    ));
}

fn foreign_resource_world() -> Schema {
    let mut schema = counter_world();
    schema.interfaces.push(Interface {
        name: Some("tally".to_string()),
        types: vec![],
        functions: vec![
            function(
                "reset-all",
                FunctionKind::Freestanding,
                vec![("first", Type::Id(1)), ("n", Type::U8), ("second", Type::Id(2))],
                Results::Named(vec![]),
            ),
        ],
        package: Some(0),
    });
    schema.worlds[0].exports = vec![
        (WorldKey::Name("counter".to_string()), WorldItem::Interface(0)),
        (WorldKey::Interface(1), WorldItem::Interface(1)),
    ];
    schema
}

#[test]
fn wrappers_take_type_parameters_for_foreign_resources() {
    let schema = foreign_resource_world();
    let text = Opts::default().try_generate(&schema, 0).unwrap();
    assert!(text.contains(
        "pub  fn call_reset_all<R1: Counter + 'static,\nT: wasmtime::component::ResourceTable<R1> ,\nS: wasmtime::AsContextMut<Data = T>,>(&self, mut store: S, \narg0: R1,arg1: u8,arg2: R1,) -> wasmtime::Result<()> {\n"
    ));
    assert!(text.contains(
        "wasmtime::component::TypedFunc::<(wasmtime::component::Resource<R1>,u8,wasmtime::component::Resource<R1>,), ()>::new_unchecked(self.reset_all)\n"
    ));
    assert!(text.contains(
        "let arg0 = store.as_context_mut().data_mut().new_resource(arg0);let arg2 = store.as_context_mut().data_mut().new_resource(arg2);let () = callee.call(store.as_context_mut(), (arg0, arg1, arg2, ))?;\n"
    ));
    assert!(text.contains("pub struct Counting {\ninterface0: exports::counter::Counter,\ninterface1: exports::example::calc::tally::Tally,\n}\n"));
    assert!(text.contains("\npub fn example_calc_tally(&self) -> &exports::example::calc::tally::Tally {\n&self.interface1\n}\n"));
}

#[test]
fn async_resources_add_send_bounds() {
    let mut schema = counter_world();
    let world = &mut schema.worlds[0];
    world.imports = vec![(WorldKey::Name("counter".to_string()), WorldItem::Interface(0))];
    world.exports = vec![];
    let mut opts = Opts::default();
    opts.async_ = true;
    opts.resources.insert("counter".to_string(), "MyCounter".to_string());
    opts.resources.insert("file".to_string(), "MyFile".to_string());
    let text = opts.try_generate(&schema, 0).unwrap();
    assert!(text.contains(
        "where T: wasmtime::component::ResourceTable<MyCounter> + wasmtime::component::ResourceTable<MyFile> + Send, U: Host + Send,\n"
    ));
    assert!(text.contains(
        "where U: counter::Host + Send, T: wasmtime::component::ResourceTable<MyCounter> + wasmtime::component::ResourceTable<MyFile> + Send,\n"
    ));
    assert!(text.contains("inst.resource::<MyFile>(\"file\", |mut store, rep| {\n"));
    assert!(text.contains("let resource = MyCounter::new(arg0,).await;\n"));
}

#[test]
fn types_of_the_world_are_defined_at_the_top() {
    let mut schema = world_function_schema();
    schema.types[0].name = Some("args".to_string());
    schema.worlds[0].imports.insert(0, (WorldKey::Name("args".to_string()), WorldItem::Type(0)));
    let text = Opts::default().try_generate(&schema, 0).unwrap();
    assert!(text.starts_with(
        "pub type Args = Vec<String>;\nconst _: () = {\nassert!(8 == <Args as wasmtime::component::ComponentType>::SIZE32);\nassert!(4 == <Args as wasmtime::component::ComponentType>::ALIGN32);\n};\npub struct Host_ {\n"
    ));
    assert!(text.contains("arg0: &Args,) -> wasmtime::Result<(i32, bool)> {\n"));
    schema.worlds[0].imports[0].0 = WorldKey::Interface(0);
    assert_eq!(Opts::default().try_generate(&schema, 0), Err(Refusal::Malformed));
}

#[test]
fn resources_in_results_of_imports_need_a_host_type() {
    let mut schema = counter_world();
    schema.interfaces.push(Interface {
        name: Some("factory".to_string()),
        types: vec![],
        functions: vec![function(
            "make",
            FunctionKind::Freestanding,
            vec![],
            Results::Anon(Type::Id(1)),
        )],
        package: Some(0),
    });
    schema.worlds[0].exports = vec![];
    schema.worlds[0].imports = vec![(WorldKey::Name("factory".to_string()), WorldItem::Interface(1))];
    let mut opts = Opts::default();
    assert_eq!(opts.try_generate(&schema, 0), Err(Refusal::Import(0, Cause::Resource)));
    opts.resources.insert("counter".to_string(), "MyCounter".to_string());
    let text = opts.try_generate(&schema, 0).unwrap();
    assert!(text.contains(
        "fn make(&mut self, ) -> wasmtime::Result<wasmtime::component::ResourceAny>;\n"
    ));
    assert!(text.contains("where U: Host,\n"));
    assert!(!text.contains("use super::super::super::MyCounter;"));
}

#[test]
fn refusals_name_their_cause() {
    let opts = Opts::default();
    // an interface whose function takes an enumeration without name
    let mut schema = math_world();
    schema.types.push(TypeDef {
        name: None,
        kind: TypeDefKind::Enum(Enum { cases: vec![] }),
        owner: TypeOwner::Unowned,
        docs: no_docs(),
        size: 1,
        align: 1,
    });
    schema.interfaces[0].functions[0].params[0].1 = Type::Id(0);
    assert_eq!(opts.try_generate(&schema, 0), Err(Refusal::Import(0, Cause::Type)));
    // an interface that exports a type of another interface that has no module yet
    let mut schema = math_world();
    schema.types.push(TypeDef {
        name: Some("limit".to_string()),
        kind: TypeDefKind::Type(Type::U8),
        owner: TypeOwner::Interface(1),
        docs: no_docs(),
        size: 1,
        align: 1,
    });
    schema.types.push(TypeDef {
        name: Some("bound".to_string()),
        kind: TypeDefKind::Type(Type::Id(0)),
        owner: TypeOwner::Interface(0),
        docs: no_docs(),
        size: 1,
        align: 1,
    });
    schema.interfaces.push(Interface {
        name: Some("limits".to_string()),
        types: vec![("limit".to_string(), 0)],
        functions: vec![],
        package: Some(0),
    });
    schema.interfaces[0].types.push(("bound".to_string(), 1));
    schema.interfaces[0].functions[0].params[0].1 = Type::Id(1);
    assert_eq!(opts.try_generate(&schema, 0), Err(Refusal::Import(0, Cause::Type)));
    schema.worlds[0].imports.insert(0, (WorldKey::Interface(1), WorldItem::Interface(1)));
    let text = opts.try_generate(&schema, 0).unwrap();
    assert!(text.contains("pub type Bound = super::example::calc::limits::Limit;\n"));
    // a type of the world under the key of an interface
    let mut schema = world_function_schema();
    schema.types[0].name = Some("args".to_string());
    schema.interfaces.push(Interface {
        name: Some("x".to_string()),
        types: vec![],
        functions: vec![],
        package: None,
    });
    schema.worlds[0].imports.insert(0, (WorldKey::Name("args".to_string()), WorldItem::Type(0)));
    assert!(opts.try_generate(&schema, 0).is_ok());
}
