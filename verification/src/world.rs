//! The collection of the bindings of a world, item by item: the names of
//! the interfaces, and what each import and export adds.

use vstd::prelude::*;
use vstd::string::StringExecFns;
use std::collections::HashMap;
use crate::calls::{fn_printable, typed_func_text};
use crate::checks::key_is_named;
use crate::error_types::{errors_static, scope_error_types_text};
use crate::exports::{
    export_struct_printable, export_struct_text, guest_export_text, interface_name,
};
use crate::imports::{
    add_function_text, add_to_linker_text, closure_printable, linkable, sigs_printable,
};
use crate::interface::{
    lemma_names_view_insert, names_view, Direction, Env, InterfaceGenerator, InterfaceName,
    InterfaceNameView,
};
use crate::modules::{placed, Module, ModuleView, PackageModules};
use crate::names::{rust_upper_camel_case, snake_case, snake_case_of, to_rust_upper_camel_case};
use crate::opts::Opts;
use crate::ordered::{has_key, sorted_insert, OrderedMap};
use crate::rust::RustGenerator;
use crate::schema::{InterfaceId, Schema, TypeOwner, WorldItem, WorldKey};
use crate::sigs::{host_sig_text, sig_printable};
use crate::text::{decimal, group_text, lemma_decimal_injective, push_decimal};
use crate::typedefs::{type_definable, type_text, types_definable, types_defs_text};
use crate::types::{TypeInfo, Types};

verus! {

broadcast use {group_text, vstd::std_specs::hash::group_hash_axioms};

/// The signature and the registration of a function that the world
/// imports by itself.
#[derive(Debug)]
pub struct ImportFunction {
    pub add_to_linker: String,
    pub sig: String,
}

/// What is collected for the exports of the world.
#[derive(Debug)]
pub struct Exports {
    /// The fields of the world struct by name, each with its type and the
    /// expression that gets its value.
    pub fields: OrderedMap<(String, String)>,
    /// The modules of the exported interfaces.
    pub modules: PackageModules,
    /// The functions of the world struct.
    pub funcs: Vec<String>,
}

/// The generator of a world.
#[derive(Debug)]
pub struct Wasmtime<'a> {
    pub src: String,
    pub opts: &'a Opts,
    pub import_interfaces: PackageModules,
    pub import_functions: Vec<ImportFunction>,
    pub exports: Exports,
    pub types: Types,
    pub interface_names: HashMap<InterfaceId, InterfaceName>,
    pub with_name_counter: usize,
}

/// What a generation run works from: the schema, the options and the
/// analysis of the types.
pub struct Config {
    pub schema: Schema,
    pub opts: Opts,
    pub infos: Seq<TypeInfo>,
}

/// What has been collected for a world at some point of its generation.
pub struct Assembly {
    /// The text at the top of the generated code.
    pub src: Seq<char>,
    /// The modules of the imported interfaces.
    pub imports: Seq<ModuleView>,
    /// The signature and the registration of each imported function.
    pub import_functions: Seq<(Seq<char>, Seq<char>)>,
    /// The fields of the world struct.
    pub fields: Seq<(Seq<char>, (Seq<char>, Seq<char>))>,
    /// The modules of the exported interfaces.
    pub export_modules: Seq<ModuleView>,
    /// The functions of the world struct.
    pub funcs: Seq<Seq<char>>,
    /// The names of the interfaces met so far.
    pub names: Map<InterfaceId, InterfaceNameView>,
    /// The number of remapped interfaces met so far.
    pub counter: nat,
}

/// The texts that a list of strings holds.
pub open spec fn texts(strings: Seq<String>) -> Seq<Seq<char>> {
    Seq::new(strings.len(), |i: int| strings[i]@)
}

/// The signatures and registrations that a list of imported functions
/// holds.
pub open spec fn import_functions_view(functions: Seq<ImportFunction>) -> Seq<
    (Seq<char>, Seq<char>),
> {
    Seq::new(functions.len(), |i: int| (functions[i].sig@, functions[i].add_to_linker@))
}

impl Config {
    /// What the generator of a module works from, given the names of the
    /// interfaces and the interface of the module.
    pub open spec fn env(
        self,
        names: Map<InterfaceId, InterfaceNameView>,
        current: Option<(InterfaceId, WorldKey, bool)>,
    ) -> Env {
        Env { schema: self.schema, infos: self.infos, opts: self.opts, names, current }
    }

    /// The path to which the options remap the interface that the world
    /// holds under `key`.
    pub open spec fn remap_of(self, key: WorldKey) -> Option<Seq<char>> {
        self.opts.with.value_of(self.schema.world_key_name(key))
    }
}

/// The path of the module of the interface at `id`, which the world holds
/// under `key`: the name of the key, or namespace, package and interface
/// where the interface itself is the key.
pub open spec fn plain_path(schema: Schema, id: InterfaceId, key: WorldKey) -> Seq<char> {
    match key {
        WorldKey::Name(name) => snake_case_of(name@),
        WorldKey::Interface(_) => {
            let iface = schema.interfaces@[id as int];
            let package = schema.packages@[iface.package->0 as int].name;
            snake_case_of(package.namespace@) + "::"@ + snake_case_of(package.name@) + "::"@
                + snake_case_of(iface.name->0@)
        },
    }
}

/// The alias of the `n`-th remapped interface.
pub open spec fn alias_name(n: nat) -> Seq<char> {
    "__with_name"@ + decimal(n)
}

/// What is collected after the interface at `id`, which the world holds
/// under `key`, got its name: a remapped interface gets a fresh alias,
/// bound to the path that the options give; any other interface gets the
/// path of its module.
pub open spec fn interface_named(cfg: Config, st: Assembly, id: InterfaceId, key: WorldKey) -> Assembly {
    match cfg.remap_of(key) {
        Some(path) => Assembly {
            src: st.src + "use "@ + path + " as "@ + alias_name(st.counter) + ";\n"@,
            names: st.names.insert(
                id,
                InterfaceNameView { remapped: true, path: alias_name(st.counter) },
            ),
            counter: st.counter + 1,
            ..st
        },
        None => Assembly {
            names: st.names.insert(
                id,
                InterfaceNameView { remapped: false, path: plain_path(cfg.schema, id, key) },
            ),
            ..st
        },
    }
}

/// Whether the interface at `id` can be named under `key`.
pub open spec fn nameable(schema: Schema, id: InterfaceId, key: WorldKey) -> bool {
    &&& schema.wf()
    &&& id < schema.interfaces@.len()
    &&& schema.key_named(key)
    &&& key is Interface ==> key == WorldKey::Interface(id)
}

impl<'a> Wasmtime<'a> {
    /// What has been collected.
    pub open spec fn view(&self) -> Assembly {
        Assembly {
            src: self.src@,
            imports: self.import_interfaces@,
            import_functions: import_functions_view(self.import_functions@),
            fields: self.exports.fields@,
            export_modules: self.exports.modules@,
            funcs: texts(self.exports.funcs@),
            names: names_view(self.interface_names@),
            counter: self.with_name_counter as nat,
        }
    }

    /// What the run works from.
    pub open spec fn cfg(&self, schema: Schema) -> Config {
        Config { schema, opts: *self.opts, infos: self.types@ }
    }

    /// A generator that has collected nothing.
    pub fn new(opts: &'a Opts) -> (r: Self)
        ensures
            r.opts == opts,
            r.types@.len() == 0,
            r@ == (Assembly {
                src: Seq::empty(),
                imports: Seq::empty(),
                import_functions: Seq::empty(),
                fields: Seq::empty(),
                export_modules: Seq::empty(),
                funcs: Seq::empty(),
                names: Map::empty(),
                counter: 0,
            }),
    {
        let r = Wasmtime {
            src: String::new(),
            opts,
            import_interfaces: PackageModules::new(),
            import_functions: Vec::new(),
            exports: Exports {
                fields: OrderedMap::new(),
                modules: PackageModules::new(),
                funcs: Vec::new(),
            },
            types: Types::new(),
            interface_names: HashMap::new(),
            with_name_counter: 0,
        };
        assert(r@.import_functions =~= Seq::empty());
        assert(r@.funcs =~= Seq::empty());
        assert(r@.names =~= Map::empty());
        r
    }

    /// Names the interface at `id`, which the world holds under `key`.
    /// Returns whether the interface is remapped.
    pub fn name_interface(&mut self, resolve: &Schema, id: InterfaceId, key: &WorldKey) -> (remapped:
        bool)
        requires
            nameable(*resolve, id, *key),
            old(self).with_name_counter < usize::MAX,
        ensures
            final(self).opts == old(self).opts,
            final(self).types == old(self).types,
            final(self)@ == interface_named(old(self).cfg(*resolve), old(self)@, id, *key),
            remapped == (old(self).cfg(*resolve).remap_of(*key) is Some),
    {
        let with_name = resolve.name_world_key(key);
        let ghost names = self.interface_names@;
        let remapped_path = match self.opts.with.get(with_name.as_str()) {
            Some(path) => Some(path.clone()),
            None => None,
        };
        let entry = if let Some(remapped_path) = remapped_path {
            let mut name = "__with_name".to_owned();
            push_decimal(&mut name, self.with_name_counter);
            self.with_name_counter += 1;
            self.src.append("use ");
            self.src.append(remapped_path.as_str());
            self.src.append(" as ");
            self.src.append(name.as_str());
            self.src.append(";\n");
            InterfaceName { remapped: true, path: name }
        } else {
            let path = match key {
                WorldKey::Name(name) => snake_case(name.as_str()),
                WorldKey::Interface(_) => {
                    let iface = &resolve.interfaces[id];
                    let mut path = String::new();
                    match (&iface.package, &iface.name) {
                        (Some(package), Some(name)) => {
                            let package = &resolve.packages[*package].name;
                            let ns = snake_case(package.namespace.as_str());
                            path.append(ns.as_str());
                            path.append("::");
                            let pkg = snake_case(package.name.as_str());
                            path.append(pkg.as_str());
                            path.append("::");
                            let iface_name = snake_case(name.as_str());
                            path.append(iface_name.as_str());
                        },
                        _ => {},
                    }
                    path
                },
            };
            InterfaceName { remapped: false, path }
        };
        let remapped = entry.remapped;
        proof {
            lemma_names_view_insert(names, id, entry);
        }
        self.interface_names.insert(id, entry);
        remapped
    }
}

/// The module named `snake` with the body `body`.
#[verifier::opaque]
pub open spec fn module_wrap(snake: Seq<char>, body: Seq<char>) -> Seq<char> {
    "\n#[allow(clippy::all)]\npub mod "@ + snake
        + " {\n#[allow(unused_imports)]\nuse wasmtime::component::__internal::anyhow;\n\n"@ + body
        + "\n}\n"@
}

/// The namespace and the name of the package of the interface at `id`
/// where the interface itself is the key under which the world holds it.
pub open spec fn key_package(schema: Schema, id: InterfaceId, key: WorldKey) -> Option<
    (Seq<char>, Seq<char>),
> {
    match key {
        WorldKey::Name(_) => None,
        WorldKey::Interface(_) => {
            let package = schema.packages@[schema.interfaces@[id as int].package->0 as int].name;
            Some((package.namespace@, package.name@))
        },
    }
}

/// The body of the module of the imported interface at `id`: the
/// definitions of its types, the error types of its trappable errors, the
/// `Host` trait and `add_to_linker`.
pub open spec fn import_body_text(env: Env, id: InterfaceId, key: WorldKey) -> Seq<char> {
    types_defs_text(
        env,
        Direction::Import,
        id,
        env.schema.interfaces@[id as int].types@.len(),
    ) + scope_error_types_text(env, TypeOwner::Interface(id)) + add_to_linker_text(env, id, env.schema.world_key_name(key))
}

/// The body of the module of the exported interface at `id`: the
/// definitions of its types, the error types of its trappable errors and
/// the struct of its typed functions.
pub open spec fn export_body_text(env: Env, id: InterfaceId, key: WorldKey) -> Seq<char> {
    types_defs_text(
        env,
        Direction::Export,
        id,
        env.schema.interfaces@[id as int].types@.len(),
    ) + scope_error_types_text(env, TypeOwner::Interface(id)) + export_struct_text(env, id, key)
}

/// What is collected after the import of `item` under `key`.  A function
/// adds its signature and its registration; a type adds its definition to
/// the text at the top; an interface gets its name and, unless it is
/// remapped, adds its module.  A remapped interface adds nothing but the
/// binding of its alias.
#[verifier::opaque]
pub open spec fn imported(cfg: Config, st: Assembly, key: WorldKey, item: WorldItem) -> Assembly {
    match item {
        WorldItem::Function(f) => {
            let env = cfg.env(st.names, None);
            Assembly {
                import_functions: st.import_functions.push(
                    (
                        host_sig_text(env, TypeOwner::Unowned, f),
                        add_function_text(env, TypeOwner::Unowned, f, "linker"@),
                    ),
                ),
                ..st
            }
        },
        WorldItem::Interface(id) => {
            let named = interface_named(cfg, st, id, key);
            if cfg.remap_of(key) is Some {
                named
            } else {
                interface_imported(cfg, named, id, key)
            }
        },
        WorldItem::Type(ty) => {
            let env = cfg.env(st.names, None);
            Assembly { src: st.src + type_text(env, Direction::Import, key->Name_0@, ty), ..st }
        },
    }
}

/// Whether `item` can be imported under `key` after what `st` holds was
/// collected.
#[verifier::opaque]
pub open spec fn import_ok(cfg: Config, st: Assembly, key: WorldKey, item: WorldItem) -> bool {
    match item {
        WorldItem::Function(f) => closure_printable(cfg.env(st.names, None), TypeOwner::Unowned, f),
        WorldItem::Interface(id) => {
            &&& nameable(cfg.schema, id, key)
            &&& st.counter < usize::MAX
            &&& cfg.remap_of(key) is None ==> interface_importable(
                cfg,
                interface_named(cfg, st, id, key),
                id,
                key,
            )
        },
        WorldItem::Type(ty) => key is Name && type_definable(
            cfg.env(st.names, None),
            Direction::Import,
            ty,
        ),
    }
}

/// Why an import or an export cannot be generated.
#[derive(Clone, Copy, Debug, PartialEq, Eq, Structural)]
pub enum Cause {
    /// The key of the item has no name, or does not fit the item.
    Key,
    /// A type without a name stands where only a declared type can be
    /// spelled or defined.
    Type,
    /// The type of a trappable error would be wrapped in a
    /// representation that borrows.
    ErrorType,
    /// The options name no host type for a resource.
    Resource,
    /// The world struct has a field of the name that the item asks for.
    Field,
}

/// Why `item` cannot be imported under `key` after what `st` holds was
/// collected, if it cannot: the first of the causes in the order in which
/// the bindings are generated.
#[verifier::opaque]
pub open spec fn import_cause(cfg: Config, st: Assembly, key: WorldKey, item: WorldItem) -> Option<
    Cause,
> {
    match item {
        WorldItem::Function(f) => {
            let env = cfg.env(st.names, None);
            if !sig_printable(env, TypeOwner::Unowned, f) {
                Some(Cause::Type)
            } else if !closure_printable(env, TypeOwner::Unowned, f) {
                Some(Cause::Resource)
            } else {
                None
            }
        },
        WorldItem::Interface(id) => {
            let env = cfg.env(interface_named(cfg, st, id, key).names, Some((id, key, false)));
            if !nameable(cfg.schema, id, key) || st.counter >= usize::MAX {
                Some(Cause::Key)
            } else if cfg.remap_of(key) is Some {
                None
            } else if !env.wf() || (key is Interface && cfg.schema.interfaces@[id as int].name
                is None) {
                Some(Cause::Key)
            } else if !types_definable(env, Direction::Import, id) {
                Some(Cause::Type)
            } else if !errors_static(env, TypeOwner::Interface(id)) {
                Some(Cause::ErrorType)
            } else if !sigs_printable(env, id) {
                Some(Cause::Type)
            } else if !linkable(env, id) {
                Some(Cause::Resource)
            } else {
                None
            }
        },
        WorldItem::Type(ty) => if !(key is Name) {
            Some(Cause::Key)
        } else if !type_definable(cfg.env(st.names, None), Direction::Import, ty) {
            Some(Cause::Type)
        } else {
            None
        },
    }
}

/// Why `item` cannot be exported under `key` after what `st` holds was
/// collected, if it cannot: the first of the causes in the order in which
/// the bindings are generated.
#[verifier::opaque]
pub open spec fn export_cause(cfg: Config, st: Assembly, key: WorldKey, item: WorldItem) -> Option<
    Cause,
> {
    match item {
        WorldItem::Function(f) => if !fn_printable(cfg.env(st.names, None), f) {
            Some(Cause::Type)
        } else if has_key(st.fields, snake_case_of(f.name@)) {
            Some(Cause::Field)
        } else {
            None
        },
        WorldItem::Interface(id) => {
            let named = interface_named(cfg, st, id, key);
            let env = cfg.env(named.names, Some((id, key, true)));
            if !nameable(cfg.schema, id, key) || st.counter >= usize::MAX {
                Some(Cause::Key)
            } else if cfg.remap_of(key) is Some {
                None
            } else if !env.wf() {
                Some(Cause::Key)
            } else if !types_definable(env, Direction::Export, id) {
                Some(Cause::Type)
            } else if !errors_static(env, TypeOwner::Interface(id)) {
                Some(Cause::ErrorType)
            } else if !export_struct_printable(env, id, key) {
                Some(Cause::Type)
            } else if has_key(named.fields, interface_field(named.fields.len())) {
                Some(Cause::Field)
            } else {
                None
            }
        },
        WorldItem::Type(_) => Some(Cause::Key),
    }
}

/// An item can be imported exactly if nothing causes its refusal, and so
/// for an export.
pub proof fn lemma_ok_iff_no_cause(cfg: Config, st: Assembly, key: WorldKey, item: WorldItem)
    ensures
        import_ok(cfg, st, key, item) <==> import_cause(cfg, st, key, item) is None,
        export_ok(cfg, st, key, item) <==> export_cause(cfg, st, key, item) is None,
{
    reveal(import_ok);
    reveal(import_cause);
    reveal(export_ok);
    reveal(export_cause);
    if let WorldItem::Interface(id) = item {
        let env = cfg.env(interface_named(cfg, st, id, key).names, Some((id, key, false)));
        if linkable(env, id) {
            assert forall|i: int|
                0 <= i < env.schema.interfaces@[id as int].functions@.len() implies sig_printable(
                env,
                TypeOwner::Interface(id),
                #[trigger] env.schema.interfaces@[id as int].functions@[i],
            ) by {
                assert(closure_printable(
                    env,
                    TypeOwner::Interface(id),
                    env.schema.interfaces@[id as int].functions@[i],
                ));
            }
        }
    }
}

/// The path of the struct of an exported interface, and the name of the
/// function of the world struct that gives it.
pub open spec fn export_path(schema: Schema, id: InterfaceId, key: WorldKey) -> (
    Seq<char>,
    Seq<char>,
) {
    let name = interface_name(schema, id, key);
    let snake = snake_case_of(name);
    let camel = rust_upper_camel_case(name);
    match key_package(schema, id, key) {
        Some((namespace, package)) => (
            "exports::"@ + snake_case_of(namespace) + "::"@ + snake_case_of(package) + "::"@
                + snake + "::"@ + camel,
            snake_case_of(namespace) + "_"@ + snake_case_of(package) + "_"@ + snake,
        ),
        None => ("exports::"@ + snake + "::"@ + camel, snake),
    }
}

/// The expression that makes the struct at `path` from the exported
/// instance named `name`; it fails where the instance is not present.
#[verifier::opaque]
pub open spec fn export_getter_text(path: Seq<char>, name: Seq<char>) -> Seq<char> {
    path + "::new(\n&mut __exports.instance(\""@ + name
        + "\")\n.ok_or_else(|| anyhow::anyhow!(\"exported instance `"@ + name
        + "` not present\"))?\n)?"@
}

/// The function of the world struct that gives the struct of an exported
/// interface.
#[verifier::opaque]
pub open spec fn accessor_text(method: Seq<char>, path: Seq<char>, field: Seq<char>) -> Seq<char> {
    "\npub fn "@ + method + "(&self) -> &"@ + path + " {\n&self."@ + field + "\n}\n"@
}

/// The name of the field of the world struct for the `n`-th field, where
/// it holds the struct of an exported interface.
pub open spec fn interface_field(n: nat) -> Seq<char> {
    "interface"@ + decimal(n)
}

/// What is collected after the export of `item` under `key`.  A function
/// adds its wrapper and the field of its typed function; an interface
/// gets its name and, unless it is remapped, adds its module, the field
/// of its struct and the function that gives that struct.
#[verifier::opaque]
pub open spec fn exported(cfg: Config, st: Assembly, key: WorldKey, item: WorldItem) -> Assembly {
    match item {
        WorldItem::Function(f) => {
            let env = cfg.env(st.names, None);
            Assembly {
                funcs: st.funcs.push(guest_export_text(env, None, f, TypeOwner::Unowned)),
                fields: sorted_insert(
                    st.fields,
                    snake_case_of(f.name@),
                    ("wasmtime::component::Func"@, typed_func_text(env, f)),
                ),
                ..st
            }
        },
        WorldItem::Interface(id) => {
            let named = interface_named(cfg, st, id, key);
            if cfg.remap_of(key) is Some {
                named
            } else {
                interface_exported(cfg, named, id, key)
            }
        },
        WorldItem::Type(_) => st,
    }
}

/// Whether `item` can be exported under `key` after what `st` holds was
/// collected: its text can be generated, and the world struct has no
/// field of the name that the item asks for.
#[verifier::opaque]
pub open spec fn export_ok(cfg: Config, st: Assembly, key: WorldKey, item: WorldItem) -> bool {
    match item {
        WorldItem::Function(f) => {
            &&& fn_printable(cfg.env(st.names, None), f)
            &&& !has_key(st.fields, snake_case_of(f.name@))
        },
        WorldItem::Interface(id) => {
            &&& nameable(cfg.schema, id, key)
            &&& st.counter < usize::MAX
            &&& cfg.remap_of(key) is None ==> interface_exportable(
                cfg,
                interface_named(cfg, st, id, key),
                id,
                key,
            )
        },
        WorldItem::Type(_) => false,
    }
}

/// The view of a list of strings with one more string.
pub proof fn lemma_texts_push(strings: Seq<String>, s: String)
    ensures
        texts(strings.push(s)) == texts(strings).push(s@),
{
    assert(texts(strings.push(s)) =~= texts(strings).push(s@));
}

/// The view of a list of imported functions with one more function.
pub proof fn lemma_import_functions_push(functions: Seq<ImportFunction>, f: ImportFunction)
    ensures
        import_functions_view(functions.push(f)) == import_functions_view(functions).push(
            (f.sig@, f.add_to_linker@),
        ),
{
    assert(import_functions_view(functions.push(f)) =~= import_functions_view(functions).push(
        (f.sig@, f.add_to_linker@),
    ));
}

/// Wraps the body of a module in the module named `snake`.
fn wrap_module(snake: &str, body: &str) -> (r: String)
    ensures
        r@ == module_wrap(snake@, body@),
{
    reveal(module_wrap);
    let mut out = String::new();
    out.append("\n#[allow(clippy::all)]\npub mod ");
    out.append(snake);
    out.append(" {\n#[allow(unused_imports)]\nuse wasmtime::component::__internal::anyhow;\n\n");
    out.append(body);
    out.append("\n}\n");
    out
}

/// The namespace and the name of the package of the interface at `id`
/// where the interface itself is the key.
fn package_of_key(schema: &Schema, id: InterfaceId, key: &WorldKey) -> (r: Option<(String, String)>)
    requires
        nameable(*schema, id, *key),
    ensures
        match r {
            Some((namespace, name)) => key_package(*schema, id, *key) == Some((namespace@, name@)),
            None => key_package(*schema, id, *key) is None,
        },
{
    match key {
        WorldKey::Name(_) => None,
        WorldKey::Interface(_) => match schema.interfaces[id].package {
            Some(package) => {
                let name = &schema.packages[package].name;
                Some((name.namespace.clone(), name.name.clone()))
            },
            None => None,
        },
    }
}

/// What is collected after the module of the imported interface at `id`
/// was generated; `st` holds the name of the interface.
pub open spec fn interface_imported(cfg: Config, st: Assembly, id: InterfaceId, key: WorldKey) -> Assembly {
    let env = cfg.env(st.names, Some((id, key, false)));
    let snake = snake_case_of(interface_name(cfg.schema, id, key));
    Assembly {
        imports: placed(
            st.imports,
            ModuleView {
                package: key_package(cfg.schema, id, key),
                snake,
                module: module_wrap(snake, import_body_text(env, id, key)),
            },
        ),
        ..st
    }
}

/// Whether the module of the imported interface at `id` can be generated
/// once `st` holds the name of the interface.
pub open spec fn interface_importable(cfg: Config, st: Assembly, id: InterfaceId, key: WorldKey) -> bool {
    let env = cfg.env(st.names, Some((id, key, false)));
    &&& env.wf()
    &&& key is Interface ==> cfg.schema.interfaces@[id as int].name is Some
    &&& types_definable(env, Direction::Import, id)
    &&& errors_static(env, TypeOwner::Interface(id))
    &&& linkable(env, id)
}

/// What is collected after the module of the exported interface at `id`
/// was generated; `st` holds the name of the interface.
pub open spec fn interface_exported(cfg: Config, st: Assembly, id: InterfaceId, key: WorldKey) -> Assembly {
    let env = cfg.env(st.names, Some((id, key, true)));
    let snake = snake_case_of(interface_name(cfg.schema, id, key));
    let (path, method) = export_path(cfg.schema, id, key);
    let field = interface_field(st.fields.len());
    Assembly {
        export_modules: placed(
            st.export_modules,
            ModuleView {
                package: key_package(cfg.schema, id, key),
                snake,
                module: module_wrap(snake, export_body_text(env, id, key)),
            },
        ),
        funcs: st.funcs.push(accessor_text(method, path, field)),
        fields: sorted_insert(
            st.fields,
            field,
            (path, export_getter_text(path, cfg.schema.world_key_name(key))),
        ),
        ..st
    }
}

/// Whether the module of the exported interface at `id` can be generated
/// once `st` holds the name of the interface.
pub open spec fn interface_exportable(cfg: Config, st: Assembly, id: InterfaceId, key: WorldKey) -> bool {
    let env = cfg.env(st.names, Some((id, key, true)));
    &&& env.wf()
    &&& types_definable(env, Direction::Export, id)
    &&& errors_static(env, TypeOwner::Interface(id))
    &&& export_struct_printable(env, id, key)
    &&& !has_key(st.fields, interface_field(st.fields.len()))
}

impl<'a> Wasmtime<'a> {
    /// Generates the module of the imported interface at `id`, which has
    /// its name already.
    pub fn import_interface(&mut self, resolve: &Schema, id: InterfaceId, name: &WorldKey)
        requires
            nameable(*resolve, id, *name),
            interface_importable(old(self).cfg(*resolve), old(self)@, id, *name),
        ensures
            final(self).opts == old(self).opts,
            final(self).types == old(self).types,
            final(self)@ == interface_imported(old(self).cfg(*resolve), old(self)@, id, *name),
    {
        let ghost cfg = self.cfg(*resolve);
        let ghost named = self@;
        let mut gen = InterfaceGenerator::new(
            self.opts,
            &self.types,
            &self.interface_names,
            resolve,
        );
        gen.current_interface = Some((id, name, false));
        assert(gen.env() == cfg.env(named.names, Some((id, *name, false))));
        gen.types(Direction::Import, id);
        gen.generate_trappable_error_types(TypeOwner::Interface(id));
        let key_name = resolve.name_world_key(name);
        gen.generate_add_to_linker(id, key_name.as_str());
        let snake = snake_case(gen.interface_name(id, name));
        let module = wrap_module(snake.as_str(), gen.src.as_str());
        let package = package_of_key(resolve, id, name);
        self.import_interfaces.place(Module { package, snake, module });
    }

    /// Generates the module of the exported interface at `id`, which has
    /// its name already.
    pub fn export_interface(&mut self, resolve: &Schema, id: InterfaceId, name: &WorldKey)
        requires
            nameable(*resolve, id, *name),
            interface_exportable(old(self).cfg(*resolve), old(self)@, id, *name),
        ensures
            final(self).opts == old(self).opts,
            final(self).types == old(self).types,
            final(self)@ == interface_exported(old(self).cfg(*resolve), old(self)@, id, *name),
    {
        let ghost cfg = self.cfg(*resolve);
        let ghost named = self@;
        let mut gen = InterfaceGenerator::new(
            self.opts,
            &self.types,
            &self.interface_names,
            resolve,
        );
        gen.current_interface = Some((id, name, true));
        assert(gen.env() == cfg.env(named.names, Some((id, *name, true))));
        gen.types(Direction::Export, id);
        gen.generate_trappable_error_types(TypeOwner::Interface(id));
        gen.export_struct(id, name);
        let iface_name = gen.interface_name(id, name);
        let camel = to_rust_upper_camel_case(iface_name);
        let snake = snake_case(iface_name);
        let module = wrap_module(snake.as_str(), gen.src.as_str());
        let package = package_of_key(resolve, id, name);
        let mut path = "exports::".to_owned();
        let mut method_name = String::new();
        if let Some((namespace, package_name)) = &package {
            let ns = snake_case(namespace.as_str());
            let pkg = snake_case(package_name.as_str());
            path.append(ns.as_str());
            path.append("::");
            path.append(pkg.as_str());
            path.append("::");
            method_name.append(ns.as_str());
            method_name.append("_");
            method_name.append(pkg.as_str());
            method_name.append("_");
        }
        path.append(snake.as_str());
        path.append("::");
        path.append(camel.as_str());
        method_name.append(snake.as_str());
        self.exports.modules.place(Module { package, snake, module });
        let key_name = resolve.name_world_key(name);
        let getter = export_getter(path.as_str(), key_name.as_str());
        let mut field = "interface".to_owned();
        push_decimal(&mut field, self.exports.fields.len());
        let accessor = accessor(method_name.as_str(), path.as_str(), field.as_str());
        proof {
            lemma_texts_push(self.exports.funcs@, accessor);
        }
        self.exports.funcs.push(accessor);
        self.exports.fields.insert(field, (path, getter));
    }
}

impl<'a> Wasmtime<'a> {
    /// Collects the bindings of the import of `item` under `name`.
    pub fn import(&mut self, resolve: &Schema, name: &WorldKey, item: &WorldItem)
        requires
            import_ok(old(self).cfg(*resolve), old(self)@, *name, *item),
        ensures
            final(self).opts == old(self).opts,
            final(self).types == old(self).types,
            final(self)@ == imported(old(self).cfg(*resolve), old(self)@, *name, *item),
    {
        reveal(imported);
        reveal(import_ok);
        let ghost cfg = self.cfg(*resolve);
        let ghost st = self@;
        match item {
            WorldItem::Function(func) => {
                let mut gen = InterfaceGenerator::new(
                    self.opts,
                    &self.types,
                    &self.interface_names,
                    resolve,
                );
                assert(gen.env() == cfg.env(st.names, None));
                gen.generate_function_trait_sig(TypeOwner::Unowned, func);
                let sig = gen.src;
                let mut gen = InterfaceGenerator::new(
                    self.opts,
                    &self.types,
                    &self.interface_names,
                    resolve,
                );
                gen.generate_add_function_to_linker(TypeOwner::Unowned, func, "linker");
                let add_to_linker = gen.src;
                let f = ImportFunction { sig, add_to_linker };
                proof {
                    lemma_import_functions_push(self.import_functions@, f);
                }
                self.import_functions.push(f);
            },
            WorldItem::Interface(id) => {
                if self.name_interface(resolve, *id, name) {
                    return ;
                }
                self.import_interface(resolve, *id, name);
            },
            WorldItem::Type(ty) => {
                let name = match name {
                    WorldKey::Name(name) => name,
                    WorldKey::Interface(_) => {
                        return ;
                    },
                };
                let mut gen = InterfaceGenerator::new(
                    self.opts,
                    &self.types,
                    &self.interface_names,
                    resolve,
                );
                assert(gen.env() == cfg.env(st.names, None));
                gen.define_type(Direction::Import, name.as_str(), *ty);
                let body = gen.src;
                self.src.append(body.as_str());
            },
        }
    }

    /// Collects the bindings of the export of `item` under `name`.
    pub fn export(&mut self, resolve: &Schema, name: &WorldKey, item: &WorldItem)
        requires
            export_ok(old(self).cfg(*resolve), old(self)@, *name, *item),
        ensures
            final(self).opts == old(self).opts,
            final(self).types == old(self).types,
            final(self)@ == exported(old(self).cfg(*resolve), old(self)@, *name, *item),
    {
        reveal(exported);
        reveal(export_ok);
        let ghost cfg = self.cfg(*resolve);
        let ghost st = self@;
        match item {
            WorldItem::Function(func) => {
                let mut gen = InterfaceGenerator::new(
                    self.opts,
                    &self.types,
                    &self.interface_names,
                    resolve,
                );
                assert(gen.env() == cfg.env(st.names, None));
                gen.define_rust_guest_export(None, func, TypeOwner::Unowned);
                let (_name, getter) = gen.extract_typed_function(func);
                let body = gen.src;
                proof {
                    lemma_texts_push(self.exports.funcs@, body);
                }
                self.exports.funcs.push(body);
                self.exports.fields.insert(
                    snake_case(func.name.as_str()),
                    ("wasmtime::component::Func".to_owned(), getter),
                );
            },
            WorldItem::Type(_) => {},
            WorldItem::Interface(id) => {
                if self.name_interface(resolve, *id, name) {
                    return ;
                }
                self.export_interface(resolve, *id, name);
            },
        }
    }
}

/// The expression that makes the struct at `path` from the exported
/// instance named `name`.
fn export_getter(path: &str, name: &str) -> (r: String)
    ensures
        r@ == export_getter_text(path@, name@),
{
    reveal(export_getter_text);
    let mut out = String::new();
    out.append(path);
    out.append("::new(\n&mut __exports.instance(\"");
    out.append(name);
    out.append("\")\n.ok_or_else(|| anyhow::anyhow!(\"exported instance `");
    out.append(name);
    out.append("` not present\"))?\n)?");
    out
}

/// The function of the world struct that gives the struct of an exported
/// interface.
fn accessor(method: &str, path: &str, field: &str) -> (r: String)
    ensures
        r@ == accessor_text(method@, path@, field@),
{
    reveal(accessor_text);
    let mut out = String::new();
    out.append("\npub fn ");
    out.append(method);
    out.append("(&self) -> &");
    out.append(path);
    out.append(" {\n&self.");
    out.append(field);
    out.append("\n}\n");
    out
}

impl<'a> Wasmtime<'a> {
    /// Collects the bindings of the import of `item` under `name` where
    /// that is possible, and says why where it is not.
    pub fn try_import(&mut self, resolve: &Schema, name: &WorldKey, item: &WorldItem) -> (r: Option<
        Cause,
    >)
        requires
            old(self).cfg(*resolve).env(old(self)@.names, None).wf(),
            resolve.item_ok((*name, *item)),
        ensures
            final(self).opts == old(self).opts,
            final(self).types == old(self).types,
            r == import_cause(old(self).cfg(*resolve), old(self)@, *name, *item),
            r is None <==> import_ok(old(self).cfg(*resolve), old(self)@, *name, *item),
            r is None ==> final(self)@ == imported(
                old(self).cfg(*resolve),
                old(self)@,
                *name,
                *item,
            ),
    {
        reveal(imported);
        reveal(import_ok);
        reveal(import_cause);
        let ghost cfg = self.cfg(*resolve);
        let ghost st = self@;
        proof {
            lemma_ok_iff_no_cause(cfg, st, *name, *item);
        }
        match item {
            WorldItem::Function(func) => {
                let gen = InterfaceGenerator::new(
                    self.opts,
                    &self.types,
                    &self.interface_names,
                    resolve,
                );
                assert(gen.env() == cfg.env(st.names, None));
                if !gen.can_print_sig(TypeOwner::Unowned, func) {
                    return Some(Cause::Type);
                }
                if !gen.can_dispatch(TypeOwner::Unowned, func) {
                    return Some(Cause::Resource);
                }
                self.import(resolve, name, item);
                None
            },
            WorldItem::Type(ty) => {
                if let WorldKey::Interface(_) = name {
                    return Some(Cause::Key);
                }
                let gen = InterfaceGenerator::new(
                    self.opts,
                    &self.types,
                    &self.interface_names,
                    resolve,
                );
                assert(gen.env() == cfg.env(st.names, None));
                if !gen.can_define(Direction::Import, *ty) {
                    return Some(Cause::Type);
                }
                self.import(resolve, name, item);
                None
            },
            WorldItem::Interface(id) => {
                if !key_is_named(resolve, name) || self.with_name_counter == usize::MAX {
                    return Some(Cause::Key);
                }
                if let WorldKey::Interface(key) = name {
                    if *key != *id {
                        return Some(Cause::Key);
                    }
                }
                if self.name_interface(resolve, *id, name) {
                    return None;
                }
                let ghost named = self@;
                let mut gen = InterfaceGenerator::new(
                    self.opts,
                    &self.types,
                    &self.interface_names,
                    resolve,
                );
                gen.current_interface = Some((*id, name, false));
                assert(gen.env() == cfg.env(named.names, Some((*id, *name, false))));
                if let WorldKey::Interface(_) = name {
                    if resolve.interfaces[*id].name.is_none() {
                        return Some(Cause::Key);
                    }
                }
                if !gen.can_define_types(Direction::Import, *id) {
                    return Some(Cause::Type);
                }
                if !gen.can_trap(TypeOwner::Interface(*id)) {
                    return Some(Cause::ErrorType);
                }
                if !gen.can_print_sigs(*id) {
                    return Some(Cause::Type);
                }
                if !gen.can_link(*id) {
                    return Some(Cause::Resource);
                }
                self.import_interface(resolve, *id, name);
                None
            },
        }
    }

    /// Collects the bindings of the export of `item` under `name` where
    /// that is possible, and says why where it is not.
    pub fn try_export(&mut self, resolve: &Schema, name: &WorldKey, item: &WorldItem) -> (r: Option<
        Cause,
    >)
        requires
            old(self).cfg(*resolve).env(old(self)@.names, None).wf(),
            resolve.item_ok((*name, *item)),
        ensures
            final(self).opts == old(self).opts,
            final(self).types == old(self).types,
            r == export_cause(old(self).cfg(*resolve), old(self)@, *name, *item),
            r is None <==> export_ok(old(self).cfg(*resolve), old(self)@, *name, *item),
            r is None ==> final(self)@ == exported(
                old(self).cfg(*resolve),
                old(self)@,
                *name,
                *item,
            ),
    {
        reveal(exported);
        reveal(export_ok);
        reveal(export_cause);
        let ghost cfg = self.cfg(*resolve);
        let ghost st = self@;
        proof {
            lemma_ok_iff_no_cause(cfg, st, *name, *item);
        }
        match item {
            WorldItem::Function(func) => {
                let gen = InterfaceGenerator::new(
                    self.opts,
                    &self.types,
                    &self.interface_names,
                    resolve,
                );
                assert(gen.env() == cfg.env(st.names, None));
                if !gen.can_print_fn(func) {
                    return Some(Cause::Type);
                }
                let field = snake_case(func.name.as_str());
                if self.exports.fields.contains_key(field.as_str()) {
                    return Some(Cause::Field);
                }
                self.export(resolve, name, item);
                None
            },
            WorldItem::Type(_) => Some(Cause::Key),
            WorldItem::Interface(id) => {
                if !key_is_named(resolve, name) || self.with_name_counter == usize::MAX {
                    return Some(Cause::Key);
                }
                if let WorldKey::Interface(key) = name {
                    if *key != *id {
                        return Some(Cause::Key);
                    }
                }
                if self.name_interface(resolve, *id, name) {
                    return None;
                }
                let ghost named = self@;
                let mut gen = InterfaceGenerator::new(
                    self.opts,
                    &self.types,
                    &self.interface_names,
                    resolve,
                );
                gen.current_interface = Some((*id, name, true));
                assert(gen.env() == cfg.env(named.names, Some((*id, *name, true))));
                if !gen.can_define_types(Direction::Export, *id) {
                    return Some(Cause::Type);
                }
                if !gen.can_trap(TypeOwner::Interface(*id)) {
                    return Some(Cause::ErrorType);
                }
                if !gen.can_export_struct(*id, name) {
                    return Some(Cause::Type);
                }
                let mut field = "interface".to_owned();
                push_decimal(&mut field, self.exports.fields.len());
                if self.exports.fields.contains_key(field.as_str()) {
                    return Some(Cause::Field);
                }
                self.export_interface(resolve, *id, name);
                None
            },
        }
    }
}

/// A remapped interface adds no module and nothing else but the binding
/// of its alias: after its import or export the modules, functions and
/// fields collected are what they were, and the text at the top has grown
/// by one `use` of the remapped path under a fresh alias.
pub proof fn law_remapped_interface_adds_only_an_alias(
    cfg: Config,
    st: Assembly,
    key: WorldKey,
    id: InterfaceId,
)
    requires
        cfg.remap_of(key) is Some,
    ensures
        ({
            let alias = "use "@ + cfg.remap_of(key)->0 + " as "@ + alias_name(st.counter) + ";\n"@;
            let after_import = imported(cfg, st, key, WorldItem::Interface(id));
            let after_export = exported(cfg, st, key, WorldItem::Interface(id));
            &&& after_import == after_export
            &&& after_import.src == st.src + alias
            &&& after_import.imports == st.imports
            &&& after_import.export_modules == st.export_modules
            &&& after_import.import_functions == st.import_functions
            &&& after_import.fields == st.fields
            &&& after_import.funcs == st.funcs
            &&& after_import.names[id].remapped
            &&& after_import.counter == st.counter + 1
        }),
{
    reveal(imported);
    reveal(exported);
}

/// The aliases of remapped interfaces are fresh: two remapped interfaces
/// never get one alias.
pub proof fn law_aliases_are_fresh(first: nat, second: nat)
    requires
        first != second,
    ensures
        alias_name(first) != alias_name(second),
{
    if alias_name(first) == alias_name(second) {
        let prefix = "__with_name"@;
        assert(decimal(first) =~= alias_name(first).skip(prefix.len() as int));
        assert(decimal(second) =~= alias_name(second).skip(prefix.len() as int));
        lemma_decimal_injective(first, second);
    }
}

} // verus!
