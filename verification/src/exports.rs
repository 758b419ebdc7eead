//! The wrappers through which a host calls the functions that the guest
//! exports.

use vstd::prelude::*;
use vstd::string::StringExecFns;
use crate::calls::{async_suffix, async_word, await_text, export_module, find_first_resource, first_resource, fn_printable, ok_text, post_return_text, rets_text, tracing_text};
use crate::interface::{rustdoc_text, Env, InterfaceGenerator};
use crate::names::{snake_case, snake_case_of, upper_camel_case, upper_camel_case_of};
use crate::ordered::{find, sorted_insert, OrderedMap};
use crate::rust::{print_ty_, printable, ty_text, RustGenerator, TypeMode};
use crate::schema::{Function, InterfaceId, Schema, Type, TypeOwner, WorldKey};
use crate::calls::typed_func_text;
use crate::names::{rust_upper_camel_case, to_rust_upper_camel_case};
use crate::sigs::results_text;
use crate::text::{decimal, group_text, numbered, push_decimal};
use crate::typedefs::types_text;

verus! {

broadcast use group_text;

/// The number of the first `n` parameters that refer to a resource.
pub open spec fn resource_count(schema: Schema, params: Seq<(String, Type)>, n: nat) -> nat
    decreases n,
{
    if n == 0 {
        0
    } else {
        resource_count(schema, params, (n - 1) as nat) + (if first_resource(
            schema,
            params[n - 1].1,
        ) is Some {
            1nat
        } else {
            0nat
        })
    }
}

/// The type parameters that a wrapper takes for the resources of its
/// first `n` parameters: one for each resource trait that the scope
/// `owner` does not own, named `R` with the number that the parameter has
/// among those that refer to a resource.  The entries are in the order of
/// the trait names; of two parameters with one trait the later names the
/// type parameter.
pub open spec fn export_args(
    schema: Schema,
    owner: TypeOwner,
    params: Seq<(String, Type)>,
    n: nat,
) -> Seq<(Seq<char>, Seq<char>)>
    decreases n,
{
    if n == 0 {
        Seq::empty()
    } else {
        let prev = export_args(schema, owner, params, (n - 1) as nat);
        match first_resource(schema, params[n - 1].1) {
            Some((name, o)) => if o == owner {
                prev
            } else {
                sorted_insert(
                    prev,
                    upper_camel_case_of(name),
                    "R"@ + decimal(resource_count(schema, params, (n - 1) as nat)),
                )
            },
            None => prev,
        }
    }
}

/// The bounds of the first `n` type parameters: each implements its
/// resource trait.
pub open spec fn arg_bounds_text(args: Seq<(Seq<char>, Seq<char>)>, n: nat) -> Seq<char>
    decreases n,
{
    if n == 0 {
        Seq::empty()
    } else {
        arg_bounds_text(args, (n - 1) as nat) + args[n - 1].1 + ": "@ + args[n - 1].0
            + " + 'static,\n"@
    }
}

/// The bound of the store's data for the first `n` type parameters: a
/// resource table for each, joined with `+`.
pub open spec fn table_bounds_text(args: Seq<(Seq<char>, Seq<char>)>, n: nat) -> Seq<char>
    decreases n,
{
    if n == 0 {
        Seq::empty()
    } else {
        table_bounds_text(args, (n - 1) as nat) + "wasmtime::component::ResourceTable<"@ + args[n
            - 1].1 + "> "@ + (if n != args.len() {
            "+ "@
        } else {
            Seq::empty()
        })
    }
}

/// The generics of a wrapper and the start of its parameters.
#[verifier::opaque]
pub open spec fn export_generics_text(args: Seq<(Seq<char>, Seq<char>)>) -> Seq<char> {
    if args.len() == 0 {
        "S: wasmtime::AsContextMut>(&self, mut store: S, "@
    } else {
        arg_bounds_text(args, args.len()) + "T: "@ + table_bounds_text(args, args.len()) + ",\n"@
            + "S: wasmtime::AsContextMut<Data = T>,>(&self, mut store: S, \n"@
    }
}

/// The type of the argument that a wrapper takes for a parameter of type
/// `ty`: the type parameter for a resource of a trait that the scope does
/// not own, wrapped in `Resource` where `typed` asks for the type that the
/// guest sees, else the borrowed type.
pub open spec fn export_arg_type(
    env: Env,
    owner: TypeOwner,
    args: Seq<(Seq<char>, Seq<char>)>,
    ty: Type,
    typed: bool,
) -> Seq<char> {
    let plain = ty_text(env.cx(), ty, TypeMode::AllBorrowed("'_"));
    match first_resource(env.schema, ty) {
        Some((name, o)) => match find(args, upper_camel_case_of(name)) {
            Some(arg) => if o != owner {
                if typed {
                    "wasmtime::component::Resource<"@ + arg + ">"@
                } else {
                    arg
                }
            } else {
                plain
            },
            None => plain,
        },
        None => plain,
    }
}

/// The first `n` parameters of a wrapper of an exported function.
pub open spec fn export_params_text(
    env: Env,
    owner: TypeOwner,
    args: Seq<(Seq<char>, Seq<char>)>,
    params: Seq<(String, Type)>,
    n: nat,
) -> Seq<char>
    decreases n,
{
    if n == 0 {
        Seq::empty()
    } else {
        export_params_text(env, owner, args, params, (n - 1) as nat) + "arg"@ + decimal(
            (n - 1) as nat,
        ) + ": "@ + export_arg_type(env, owner, args, params[n - 1].1, false) + ","@
    }
}

/// The types of the first `n` arguments as the guest sees them.
pub open spec fn export_typed_text(
    env: Env,
    owner: TypeOwner,
    args: Seq<(Seq<char>, Seq<char>)>,
    params: Seq<(String, Type)>,
    n: nat,
) -> Seq<char>
    decreases n,
{
    if n == 0 {
        Seq::empty()
    } else {
        export_typed_text(env, owner, args, params, (n - 1) as nat) + export_arg_type(
            env,
            owner,
            args,
            params[n - 1].1,
            true,
        ) + ","@
    }
}

/// The statements that register, for the first `n` parameters, the
/// arguments that refer to a resource in the resource table.
pub open spec fn new_resources_text(schema: Schema, params: Seq<(String, Type)>, n: nat) -> Seq<
    char,
>
    decreases n,
{
    if n == 0 {
        Seq::empty()
    } else {
        new_resources_text(schema, params, (n - 1) as nat) + (if first_resource(
            schema,
            params[n - 1].1,
        ) is Some {
            "let arg"@ + decimal((n - 1) as nat)
                + " = store.as_context_mut().data_mut().new_resource(arg"@ + decimal(
                (n - 1) as nat,
            ) + ");"@
        } else {
            Seq::empty()
        })
    }
}

/// The end of the header of a wrapper.
pub open spec fn export_where_text(env: Env) -> Seq<char> {
    if env.opts.async_ {
        "> where <S as wasmtime::AsContext>::Data: Send {\n"@
    } else {
        "> {\n"@
    }
}

/// The header of the wrapper of the exported function `f`.
#[verifier::opaque]
pub open spec fn export_head_text(env: Env, owner: TypeOwner, f: Function) -> Seq<char> {
    let args = export_args(env.schema, owner, f.params@, f.params@.len());
    rustdoc_text(f.docs) + "pub "@ + async_word(env) + " fn call_"@ + snake_case_of(f.name@)
        + "<"@ + export_generics_text(args) + export_params_text(
        env,
        owner,
        args,
        f.params@,
        f.params@.len(),
    ) + ") -> wasmtime::Result<"@ + results_text(env, f.results, TypeMode::Owned)
        + export_where_text(env)
}

/// The statement that binds the typed function to call.
#[verifier::opaque]
pub open spec fn export_callee_text(env: Env, owner: TypeOwner, f: Function) -> Seq<char> {
    let args = export_args(env.schema, owner, f.params@, f.params@.len());
    "let callee = unsafe {\n"@ + "wasmtime::component::TypedFunc::<("@ + export_typed_text(
        env,
        owner,
        args,
        f.params@,
        f.params@.len(),
    ) + "), ("@ + types_text(
        env,
        f.results.types(),
        TypeMode::Owned,
        ", "@,
        f.results.types().len(),
    ) + ")>::new_unchecked(self."@ + snake_case_of(f.name@) + ")\n"@ + "};\n"@
}

/// The call of the guest with the `params` arguments of a wrapper, which
/// binds the `results` results.
#[verifier::opaque]
pub open spec fn export_call_text(env: Env, params: nat, results: nat) -> Seq<char> {
    "let ("@ + rets_text(results) + ") = callee.call"@ + async_suffix(env)
        + "(store.as_context_mut(), ("@ + numbered("arg"@, ", "@, 0, params) + "))"@ + await_text(
        env,
    ) + "?;\n"@
}

/// The wrapper `call_…` of the exported function `f` in the scope of
/// `owner`: it binds the typed function, registers the arguments that are
/// resources, calls the guest once, runs the clean-up after the call once
/// and returns the results.
#[verifier::opaque]
pub open spec fn guest_export_text(
    env: Env,
    ns: Option<WorldKey>,
    f: Function,
    owner: TypeOwner,
) -> Seq<char> {
    let args = export_args(env.schema, owner, f.params@, f.params@.len());
    export_head_text(env, owner, f) + tracing_text(
        env,
        "wit-bindgen export"@,
        export_module(env.schema, ns),
        f.name@,
    ) + export_callee_text(env, owner, f) + (if args.len() != 0 {
        new_resources_text(env.schema, f.params@, f.params@.len())
    } else {
        Seq::empty()
    }) + export_call_text(env, f.params@.len(), f.results.types().len()) + post_return_text(env)
        + ok_text(f.results.types().len()) + "}\n"@
}

impl<'a> InterfaceGenerator<'a> {
    /// The type parameters that the wrapper of `f` takes for resources.
    fn export_args(&self, owner: TypeOwner, f: &Function) -> (args: OrderedMap<String>)
        requires
            self.env().wf(),
            self.env().schema.function_ok(*f),
        ensures
            args@ == export_args(self.env().schema, owner, f.params@, f.params@.len()),
    {
        let schema = self.resolve;
        let mut args: OrderedMap<String> = OrderedMap::new();
        let mut count: usize = 0;
        let mut i: usize = 0;
        while i < f.params.len()
            invariant
                i <= f.params@.len(),
                count <= i,
                schema.wf(),
                schema.function_ok(*f),
                count == resource_count(*schema, f.params@, i as nat),
                args@ == export_args(*schema, owner, f.params@, i as nat),
            decreases f.params@.len() - i,
        {
            assert(schema.type_ok(f.params@[i as int].1));
            if let Some((name, resource_owner)) = find_first_resource(schema, &f.params[i].1) {
                if resource_owner != owner {
                    let mut arg = "R".to_owned();
                    push_decimal(&mut arg, count);
                    args.insert(upper_camel_case(name.as_str()), arg);
                }
                count += 1;
            }
            i += 1;
        }
        args
    }

    /// Appends the generics of a wrapper and the start of its parameters.
    fn export_generics(&mut self, args: &OrderedMap<String>)
        ensures
            final(self).emitted(old(self), export_generics_text(args@)),
    {
        reveal(export_generics_text);
        if args.is_empty() {
            self.push_str("S: wasmtime::AsContextMut>(&self, mut store: S, ");
        } else {
            let mut t = String::new();
            let ghost env = self.env();
            let ghost start = self.src@;
            let mut i: usize = 0;
            while i < args.len()
                invariant
                    i <= args@.len(),
                    self.env() == env,
                    self.src@ == start + arg_bounds_text(args@, i as nat),
                    t@ == table_bounds_text(args@, i as nat),
                decreases args@.len() - i,
            {
                self.push_str(args.value(i).as_str());
                self.push_str(": ");
                self.push_str(args.key(i).as_str());
                self.push_str(" + 'static,\n");
                t.append("wasmtime::component::ResourceTable<");
                t.append(args.value(i).as_str());
                t.append("> ");
                if i != args.len() - 1 {
                    t.append("+ ");
                }
                i += 1;
            }
            self.push_str("T: ");
            self.push_str(t.as_str());
            self.push_str(",\n");
            self.push_str("S: wasmtime::AsContextMut<Data = T>,>(&self, mut store: S, \n");
        }
    }

    /// Spells the type of the argument that a wrapper takes for a
    /// parameter of type `ty`.
    fn export_arg(&self, owner: TypeOwner, args: &OrderedMap<String>, ty: &Type, typed: bool) -> (r:
        String)
        requires
            self.env().wf(),
            printable(self.env().cx(), *ty),
            self.env().schema.type_ok(*ty),
        ensures
            r@ == export_arg_type(self.env(), owner, args@, *ty, typed),
    {
        if let Some((name, resource_owner)) = find_first_resource(self.resolve, ty) {
            let trait_name = upper_camel_case(name.as_str());
            if let Some(arg) = args.get(trait_name.as_str()) {
                if resource_owner != owner {
                    if typed {
                        let mut out = "wasmtime::component::Resource<".to_owned();
                        out.append(arg.as_str());
                        out.append(">");
                        return out;
                    } else {
                        return arg.clone();
                    }
                }
            }
        }
        print_ty_(self, ty, TypeMode::AllBorrowed("'_"))
    }

    /// Appends the header of the wrapper of the exported function `f`.
    fn export_head(&mut self, owner: TypeOwner, f: &Function, args: &OrderedMap<String>)
        requires
            fn_printable(old(self).env(), *f),
            args@ == export_args(old(self).env().schema, owner, f.params@, f.params@.len()),
        ensures
            final(self).emitted(old(self), export_head_text(old(self).env(), owner, *f)),
    {
        reveal(export_head_text);
        self.rustdoc(&f.docs);
        self.push_str("pub ");
        self.push_async_word();
        self.push_str(" fn call_");
        let snake = snake_case(f.name.as_str());
        self.push_str(snake.as_str());
        self.push_str("<");
        self.export_generics(args);
        let ghost env = self.env();
        let ghost start = self.src@;
        let mut i: usize = 0;
        while i < f.params.len()
            invariant
                i <= f.params@.len(),
                fn_printable(env, *f),
                self.env() == env,
                self.src@ == start + export_params_text(env, owner, args@, f.params@, i as nat),
            decreases f.params@.len() - i,
        {
            self.push_str("arg");
            self.push_usize(i);
            self.push_str(": ");
            assert(env.schema.type_ok(f.params@[i as int].1));
            let ty = self.export_arg(owner, args, &f.params[i].1, false);
            self.push_str(ty.as_str());
            self.push_str(",");
            i += 1;
        }
        self.push_str(") -> wasmtime::Result<");
        self.print_result_ty(&f.results, TypeMode::Owned);
        if self.opts.async_ {
            self.push_str("> where <S as wasmtime::AsContext>::Data: Send {\n");
        } else {
            self.push_str("> {\n");
        }
    }

    /// Appends the statement that binds the typed function to call.
    fn export_callee(&mut self, owner: TypeOwner, f: &Function, args: &OrderedMap<String>)
        requires
            fn_printable(old(self).env(), *f),
            args@ == export_args(old(self).env().schema, owner, f.params@, f.params@.len()),
        ensures
            final(self).emitted(old(self), export_callee_text(old(self).env(), owner, *f)),
    {
        reveal(export_callee_text);
        self.push_str("let callee = unsafe {\n");
        self.push_str("wasmtime::component::TypedFunc::<(");
        let ghost env = self.env();
        let ghost start = self.src@;
        let mut i: usize = 0;
        while i < f.params.len()
            invariant
                i <= f.params@.len(),
                fn_printable(env, *f),
                self.env() == env,
                self.src@ == start + export_typed_text(env, owner, args@, f.params@, i as nat),
            decreases f.params@.len() - i,
        {
            assert(env.schema.type_ok(f.params@[i as int].1));
            let ty = self.export_arg(owner, args, &f.params[i].1, true);
            self.push_str(ty.as_str());
            self.push_str(",");
            i += 1;
        }
        self.push_str("), (");
        let results = self.result_types(&f.results, TypeMode::Owned, ", ");
        self.push_str(results.as_str());
        self.push_str(")>::new_unchecked(self.");
        let snake = snake_case(f.name.as_str());
        self.push_str(snake.as_str());
        self.push_str(")\n");
        self.push_str("};\n");
    }

    /// Appends the statements that register the arguments that refer to a
    /// resource.
    fn new_resources(&mut self, f: &Function)
        requires
            old(self).env().wf(),
            old(self).env().schema.function_ok(*f),
        ensures
            final(self).emitted(
                old(self),
                new_resources_text(old(self).env().schema, f.params@, f.params@.len()),
            ),
    {
        let schema = self.resolve;
        let ghost env = self.env();
        let ghost start = self.src@;
        let mut i: usize = 0;
        while i < f.params.len()
            invariant
                i <= f.params@.len(),
                env.wf(),
                env.schema.function_ok(*f),
                *schema == env.schema,
                self.env() == env,
                self.src@ == start + new_resources_text(env.schema, f.params@, i as nat),
            decreases f.params@.len() - i,
        {
            assert(schema.type_ok(f.params@[i as int].1));
            if find_first_resource(schema, &f.params[i].1).is_some() {
                self.push_str("let arg");
                self.push_usize(i);
                self.push_str(" = store.as_context_mut().data_mut().new_resource(arg");
                self.push_usize(i);
                self.push_str(");");
            }
            i += 1;
        }
    }

    /// Appends the call of the guest with `params` arguments, which binds
    /// `results` results.
    pub fn export_call(&mut self, params: usize, results: usize)
        ensures
            final(self).emitted(
                old(self),
                export_call_text(old(self).env(), params as nat, results as nat),
            ),
    {
        reveal(export_call_text);
        self.push_str("let (");
        self.push_numbered("ret", ",", 0, results);
        self.push_str(") = callee.call");
        self.push_async_suffix();
        self.push_str("(store.as_context_mut(), (");
        self.push_numbered("arg", ", ", 0, params);
        self.push_str("))");
        self.push_await();
        self.push_str("?;\n");
    }

    /// Appends the wrapper `call_…` of the exported function `f` in the
    /// scope of `owner`.
    pub fn define_rust_guest_export(&mut self, ns: Option<&WorldKey>, f: &Function, owner: TypeOwner)
        requires
            fn_printable(old(self).env(), *f),
            ns is Some ==> old(self).env().schema.key_named(*ns->0),
        ensures
            final(self).emitted(
                old(self),
                guest_export_text(
                    old(self).env(),
                    match ns {
                        Some(key) => Some(*key),
                        None => None,
                    },
                    *f,
                    owner,
                ),
            ),
    {
        reveal(guest_export_text);
        let schema = self.resolve;
        let args = self.export_args(owner, f);
        self.export_head(owner, f, &args);
        let module = match ns {
            Some(key) => schema.name_world_key(key),
            None => "default".to_owned(),
        };
        self.tracing_span("wit-bindgen export", module.as_str(), f.name.as_str());
        self.export_callee(owner, f, &args);
        if !args.is_empty() {
            self.new_resources(f);
        }
        self.export_call(f.params.len(), f.results.len());
        self.post_return();
        self.ok_results(f.results.len());
        self.push_str("}\n");
    }
}

/// The fields of the struct of an exported interface for the first `n`
/// functions: a typed function for each freestanding function.
pub open spec fn free_fields_text(functions: Seq<Function>, n: nat) -> Seq<char>
    decreases n,
{
    if n == 0 {
        Seq::empty()
    } else {
        free_fields_text(functions, (n - 1) as nat) + (if functions[n - 1].kind is Freestanding {
            snake_case_of(functions[n - 1].name@) + ": wasmtime::component::Func,\n"@
        } else {
            Seq::empty()
        })
    }
}

/// The statements that get the typed functions of the freestanding
/// functions among the first `n` from the exports of the instance.
pub open spec fn free_lets_text(env: Env, functions: Seq<Function>, n: nat) -> Seq<char>
    decreases n,
{
    if n == 0 {
        Seq::empty()
    } else {
        free_lets_text(env, functions, (n - 1) as nat) + (if functions[n - 1].kind
            is Freestanding {
            "let "@ + snake_case_of(functions[n - 1].name@) + " = "@ + typed_func_text(
                env,
                functions[n - 1],
            ) + ";\n"@
        } else {
            Seq::empty()
        })
    }
}

/// The fields of the struct literal for the freestanding functions among
/// the first `n`.
pub open spec fn free_inits_text(functions: Seq<Function>, n: nat) -> Seq<char>
    decreases n,
{
    if n == 0 {
        Seq::empty()
    } else {
        free_inits_text(functions, (n - 1) as nat) + (if functions[n - 1].kind is Freestanding {
            snake_case_of(functions[n - 1].name@) + ",\n"@
        } else {
            Seq::empty()
        })
    }
}

/// The wrappers of the freestanding functions among the first `n`
/// functions of the interface at `id`.
pub open spec fn free_calls_text(
    env: Env,
    key: WorldKey,
    id: InterfaceId,
    functions: Seq<Function>,
    n: nat,
) -> Seq<char>
    decreases n,
{
    if n == 0 {
        Seq::empty()
    } else {
        free_calls_text(env, key, id, functions, (n - 1) as nat) + (if functions[n - 1].kind
            is Freestanding {
            guest_export_text(env, Some(key), functions[n - 1], TypeOwner::Interface(id))
        } else {
            Seq::empty()
        })
    }
}

/// The name under which the world holds an interface: the name of the
/// key, or the name of the interface where the interface itself is the
/// key.
pub open spec fn interface_name(schema: Schema, id: InterfaceId, key: WorldKey) -> Seq<char> {
    match key {
        WorldKey::Name(name) => name@,
        WorldKey::Interface(_) => schema.interfaces@[id as int].name->0@,
    }
}

/// The constructor of the struct of an exported interface: it gets every
/// typed function from the exports of the instance by name, and fails
/// where the instance lacks one.
#[verifier::opaque]
pub open spec fn export_new_text(env: Env, camel: Seq<char>, functions: Seq<Function>) -> Seq<char> {
    "\npub fn new(\n__exports: &mut wasmtime::component::ExportInstance<'_, '_>,\n) -> wasmtime::Result<"@
        + camel + "> {\n"@ + free_lets_text(env, functions, functions.len()) + "Ok("@ + camel
        + " {\n"@ + free_inits_text(functions, functions.len()) + "})\n"@ + "}\n"@
}

/// The struct of the exported interface at `id`, which the world holds
/// under `key`: a typed function for each freestanding function, the
/// constructor, and a wrapper `call_…` for each.
#[verifier::opaque]
pub open spec fn export_struct_text(env: Env, id: InterfaceId, key: WorldKey) -> Seq<char> {
    let functions = env.schema.interfaces@[id as int].functions@;
    let camel = rust_upper_camel_case(interface_name(env.schema, id, key));
    "pub struct "@ + camel + " {\n"@ + free_fields_text(functions, functions.len()) + "}\n"@
        + "impl "@ + camel + " {\n"@ + export_new_text(env, camel, functions) + free_calls_text(
        env,
        key,
        id,
        functions,
        functions.len(),
    ) + "}\n"@
}

/// Whether the struct of the exported interface at `id` can be generated:
/// the freestanding functions of the interface can be spelled.
pub open spec fn export_struct_printable(env: Env, id: InterfaceId, key: WorldKey) -> bool {
    &&& env.wf()
    &&& id < env.schema.interfaces@.len()
    &&& env.schema.key_named(key)
    &&& key is Interface ==> env.schema.interfaces@[id as int].name is Some
    &&& forall|i: int|
        0 <= i < env.schema.interfaces@[id as int].functions@.len() && (
        #[trigger] env.schema.interfaces@[id as int].functions@[i]).kind is Freestanding
            ==> fn_printable(env, env.schema.interfaces@[id as int].functions@[i])
}

impl<'a> InterfaceGenerator<'a> {
    /// The name under which the world holds the interface at `id`.
    pub fn interface_name(&self, id: InterfaceId, key: &'a WorldKey) -> (r: &'a str)
        requires
            id < self.env().schema.interfaces@.len(),
            key is Interface ==> self.env().schema.interfaces@[id as int].name is Some,
        ensures
            r@ == interface_name(self.env().schema, id, *key),
    {
        let schema = self.resolve;
        match key {
            WorldKey::Name(name) => name.as_str(),
            WorldKey::Interface(_) => match &schema.interfaces[id].name {
                Some(name) => name.as_str(),
                None => "",
            },
        }
    }

    /// Appends the constructor of the struct of an exported interface.
    fn export_new(&mut self, camel: &str, id: InterfaceId, key: &WorldKey)
        requires
            export_struct_printable(old(self).env(), id, *key),
        ensures
            final(self).emitted(
                old(self),
                export_new_text(
                    old(self).env(),
                    camel@,
                    old(self).env().schema.interfaces@[id as int].functions@,
                ),
            ),
    {
        reveal(export_new_text);
        let schema = self.resolve;
        let iface = &schema.interfaces[id];
        self.push_str(
            "\npub fn new(\n__exports: &mut wasmtime::component::ExportInstance<'_, '_>,\n) -> wasmtime::Result<",
        );
        self.push_str(camel);
        self.push_str("> {\n");
        let ghost env = self.env();
        let ghost start = self.src@;
        let mut i: usize = 0;
        while i < iface.functions.len()
            invariant
                i <= iface.functions@.len(),
                export_struct_printable(env, id, *key),
                *iface == env.schema.interfaces@[id as int],
                self.env() == env,
                self.src@ == start + free_lets_text(env, iface.functions@, i as nat),
            decreases iface.functions@.len() - i,
        {
            let f = &iface.functions[i];
            if let crate::schema::FunctionKind::Freestanding = f.kind {
                let (name, getter) = self.extract_typed_function(f);
                self.push_str("let ");
                self.push_str(name.as_str());
                self.push_str(" = ");
                self.push_str(getter.as_str());
                self.push_str(";\n");
            }
            i += 1;
        }
        self.push_str("Ok(");
        self.push_str(camel);
        self.push_str(" {\n");
        let ghost start = self.src@;
        let mut i: usize = 0;
        while i < iface.functions.len()
            invariant
                i <= iface.functions@.len(),
                self.env() == env,
                self.src@ == start + free_inits_text(iface.functions@, i as nat),
            decreases iface.functions@.len() - i,
        {
            let f = &iface.functions[i];
            if let crate::schema::FunctionKind::Freestanding = f.kind {
                let name = snake_case(f.name.as_str());
                self.push_str(name.as_str());
                self.push_str(",\n");
            }
            i += 1;
        }
        self.push_str("})\n");
        self.push_str("}\n");
    }

    /// Appends the struct of the exported interface at `id`, which the
    /// world holds under `key`.
    pub fn export_struct(&mut self, id: InterfaceId, key: &'a WorldKey)
        requires
            export_struct_printable(old(self).env(), id, *key),
        ensures
            final(self).emitted(old(self), export_struct_text(old(self).env(), id, *key)),
    {
        reveal(export_struct_text);
        let schema = self.resolve;
        let iface = &schema.interfaces[id];
        let camel = to_rust_upper_camel_case(self.interface_name(id, key));
        self.push_str("pub struct ");
        self.push_str(camel.as_str());
        self.push_str(" {\n");
        let ghost env = self.env();
        let ghost start = self.src@;
        let mut i: usize = 0;
        while i < iface.functions.len()
            invariant
                i <= iface.functions@.len(),
                self.env() == env,
                self.src@ == start + free_fields_text(iface.functions@, i as nat),
            decreases iface.functions@.len() - i,
        {
            let f = &iface.functions[i];
            if let crate::schema::FunctionKind::Freestanding = f.kind {
                let name = snake_case(f.name.as_str());
                self.push_str(name.as_str());
                self.push_str(": wasmtime::component::Func,\n");
            }
            i += 1;
        }
        self.push_str("}\n");
        self.push_str("impl ");
        self.push_str(camel.as_str());
        self.push_str(" {\n");
        self.export_new(camel.as_str(), id, key);
        let ghost start = self.src@;
        let mut i: usize = 0;
        while i < iface.functions.len()
            invariant
                i <= iface.functions@.len(),
                export_struct_printable(env, id, *key),
                *iface == env.schema.interfaces@[id as int],
                self.env() == env,
                self.src@ == start + free_calls_text(env, *key, id, iface.functions@, i as nat),
            decreases iface.functions@.len() - i,
        {
            let f = &iface.functions[i];
            if let crate::schema::FunctionKind::Freestanding = f.kind {
                self.define_rust_guest_export(Some(key), f, TypeOwner::Interface(id));
            }
            i += 1;
        }
        self.push_str("}\n");
    }
}

} // verus!
