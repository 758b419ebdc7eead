//! The bindings of imports: the `Host` trait of an interface, the closures
//! that dispatch a call of the guest into the host, and their
//! registration with a linker.

use vstd::prelude::*;
use vstd::string::StringExecFns;
use crate::calls::{find_first_resource, first_resource, tracing_text};
use crate::errors::{owner_in_scope, trappable_error};
use crate::interface::{Env, InterfaceGenerator};
use crate::names::{rust_ident, snake_case, snake_case_of, to_rust_ident};
use crate::resource_types::async_trait_text;
use crate::resources::{get_resource_from_ty, refs_view, resources_of};
use crate::rust::{ty_text, RustGenerator, TypeMode};
use crate::schema::{Function, FunctionKind, InterfaceId, Schema, Type, TypeOwner};
use crate::sigs::{call_name, host_sig_text, name_to_call, sig_printable};
use crate::text::{decimal, group_text, holds_texts, numbered, same};

verus! {

broadcast use group_text;

/// The host type that implements the resource named `name`.
pub open spec fn impl_of(env: Env, name: Seq<char>) -> Seq<char> {
    env.opts.resources.value_of(name)->0
}

/// The type of the argument of a dispatch closure for a parameter of type
/// `ty`: a handle to the host type where the parameter refers to a
/// resource of the scope `owner`, else the owned type.
pub open spec fn import_arg_type(env: Env, owner: TypeOwner, ty: Type) -> Seq<char> {
    match first_resource(env.schema, ty) {
        Some((name, o)) => if o == owner {
            "wasmtime::component::Resource<"@ + impl_of(env, name) + ">"@
        } else {
            ty_text(env.cx(), ty, TypeMode::Owned)
        },
        None => ty_text(env.cx(), ty, TypeMode::Owned),
    }
}

/// The types of the first `n` arguments of a dispatch closure.
pub open spec fn import_arg_types_text(
    env: Env,
    owner: TypeOwner,
    params: Seq<(String, Type)>,
    n: nat,
) -> Seq<char>
    decreases n,
{
    if n == 0 {
        Seq::empty()
    } else {
        import_arg_types_text(env, owner, params, (n - 1) as nat) + import_arg_type(
            env,
            owner,
            params[n - 1].1,
        ) + ", "@
    }
}

/// The schema name of the resource that a function belongs to.
pub open spec fn resource_name(schema: Schema, f: Function) -> Seq<char> {
    match f.kind {
        FunctionKind::Method(id) => schema.types@[id as int].name->0@,
        FunctionKind::Static(id) => schema.types@[id as int].name->0@,
        FunctionKind::Constructor(id) => schema.types@[id as int].name->0@,
        FunctionKind::Freestanding => Seq::empty(),
    }
}

/// Whether the options name the host type of every resource that a use
/// of `ty` refers to.
pub open spec fn all_bound(env: Env, ty: Type) -> bool {
    forall|k: int|
        0 <= k < resources_of(env.schema, ty).len() ==> env.opts.resources.value_of(
            (#[trigger] resources_of(env.schema, ty)[k]).0,
        ) is Some
}

/// Whether the dispatch closure of `f` can be generated in the scope of
/// `owner`: the signature of `f` can be spelled, and the options name the
/// host type of every resource that a parameter or a result of `f` refers
/// to, and of the resource that a static function or a constructor
/// belongs to.
pub open spec fn closure_printable(env: Env, owner: TypeOwner, f: Function) -> bool {
    &&& sig_printable(env, owner, f)
    &&& forall|i: int| 0 <= i < f.params@.len() ==> all_bound(env, (#[trigger] f.params@[i]).1)
    &&& forall|i: int|
        0 <= i < f.results.types().len() ==> all_bound(env, #[trigger] f.results.types()[i])
    &&& (f.kind is Static || f.kind is Constructor) ==> env.opts.resources.value_of(
        resource_name(env.schema, f),
    ) is Some
}

/// The name of the module that the tracing span of an import names.
pub open spec fn import_module(schema: Schema, owner: TypeOwner) -> Seq<char> {
    match owner {
        TypeOwner::Interface(id) => match schema.interfaces@[id as int].name {
            Some(name) => name@,
            None => "<no module>"@,
        },
        TypeOwner::World(id) => schema.worlds@[id as int].name@,
        TypeOwner::Unowned => "<no owner>"@,
    }
}

/// The fields of the tracing event for the first `n` arguments.
pub open spec fn event_fields_text(params: Seq<(String, Type)>, n: nat) -> Seq<char>
    decreases n,
{
    if n == 0 {
        Seq::empty()
    } else {
        event_fields_text(params, (n - 1) as nat) + rust_ident(params[n - 1].0@)
            + " = tracing::field::debug(&arg"@ + decimal((n - 1) as nat) + "), "@
    }
}

/// The tracing of the entry into a dispatch closure.
#[verifier::opaque]
pub open spec fn import_tracing_text(env: Env, owner: TypeOwner, f: Function) -> Seq<char> {
    tracing_text(env, "wit-bindgen import"@, import_module(env.schema, owner), f.name@) + (
    if env.opts.tracing {
        "tracing::event!(tracing::Level::TRACE, "@ + event_fields_text(f.params@, f.params@.len())
            + "\"call\""@ + ");\n"@
    } else {
        Seq::empty()
    })
}

/// The end of a call of the host: awaited where the options ask for
/// async functions.
pub open spec fn call_end_text(env: Env) -> Seq<char> {
    if env.opts.async_ {
        ").await;\n"@
    } else {
        ");\n"@
    }
}

/// The number of parameters of `f` after the first.
pub open spec fn rest_count(f: Function) -> nat {
    if f.params@.len() >= 1 {
        (f.params@.len() - 1) as nat
    } else {
        0
    }
}

/// The call of the host: a freestanding function is called on the host
/// state; a method on the resource that its first argument is a handle
/// of, without that argument; a static function and a constructor on the
/// host type of the resource, and what the constructor returns is put in
/// the resource table.
#[verifier::opaque]
pub open spec fn dispatch_text(env: Env, f: Function) -> Seq<char> {
    let name = snake_case_of(call_name(f));
    let n = f.params@.len();
    match f.kind {
        FunctionKind::Freestanding => "let host = get(caller.data_mut());\n"@ + "let r = host."@
            + name + "("@ + numbered("arg"@, ", "@, 0, n) + call_end_text(env),
        FunctionKind::Method(_) => "let mut resource = caller.data_mut().get_resource_mut(arg0);\n"@
            + "let r = resource."@ + name + "("@ + numbered("arg"@, ", "@, 1, rest_count(f))
            + call_end_text(env),
        FunctionKind::Static(_) => "let r = "@ + impl_of(env, resource_name(env.schema, f))
            + "::"@ + name + "("@ + numbered("arg"@, ", "@, 0, n) + call_end_text(env),
        FunctionKind::Constructor(_) => "let resource = "@ + impl_of(
            env,
            resource_name(env.schema, f),
        ) + "::new("@ + numbered("arg"@, ","@, 0, n) + (if env.opts.async_ {
            ").await;\n"@
        } else {
            ")?;\n"@
        }) + "let r = caller.data_mut().new_resource(resource);"@,
    }
}

/// What a dispatch closure hands back to the guest.  A function with a
/// trappable error hands its error back as a value where the error of the
/// host is of the mapped type, and aborts the call with any other error.
#[verifier::opaque]
pub open spec fn hand_back_text(env: Env, owner: TypeOwner, f: Function) -> Seq<char> {
    if trappable_error(env.schema, env.opts.trappable_error_type@, owner, f.results) is Some {
        "match r {\nOk(a) => Ok((Ok(a),)),\nErr(e) => match e.downcast() {\nOk(api_error) => Ok((Err(api_error),)),\nErr(anyhow_error) => Err(anyhow_error),\n}\n}"@
    } else if f.results.types().len() == 1 {
        if f.kind is Constructor {
            "Ok((r,))\n"@
        } else {
            "Ok((r?,))\n"@
        }
    } else {
        "r\n"@
    }
}

/// The closure that dispatches a call of the imported function `f` into
/// the host.
#[verifier::opaque]
pub open spec fn import_closure_text(env: Env, owner: TypeOwner, f: Function) -> Seq<char> {
    "move |mut caller: wasmtime::StoreContextMut<'_, T>, ("@ + numbered(
        "arg"@,
        ","@,
        0,
        f.params@.len(),
    ) + ") : ("@ + import_arg_types_text(env, owner, f.params@, f.params@.len()) + ") |"@ + (
    if env.opts.async_ {
        " Box::new(async move { \n"@
    } else {
        " { \n"@
    }) + import_tracing_text(env, owner, f) + dispatch_text(env, f) + (if env.opts.tracing {
        "tracing::event!(tracing::Level::TRACE, result = tracing::field::debug(&r), \"return\");"@
    } else {
        Seq::empty()
    }) + hand_back_text(env, owner, f) + (if env.opts.async_ {
        "})\n"@
    } else {
        "}\n"@
    })
}

/// The registration of the imported function `f` with the linker named
/// `linker`.
#[verifier::opaque]
pub open spec fn add_function_text(env: Env, owner: TypeOwner, f: Function, linker: Seq<char>) -> Seq<
    char,
> {
    linker + "."@ + (if env.opts.async_ {
        "func_wrap_async"@
    } else {
        "func_wrap"@
    }) + "(\""@ + f.name@ + "\", "@ + import_closure_text(env, owner, f) + ")?;\n"@
}

impl<'a> InterfaceGenerator<'a> {
    /// The host type that the options name for the resource `name`.
    fn resource_impl(&self, name: &str) -> (r: String)
        requires
            self.env().opts.resources.value_of(name@) is Some,
        ensures
            r@ == impl_of(self.env(), name@),
    {
        match self.opts.resources.get(name) {
            Some(name) => name.clone(),
            None => String::new(),
        }
    }

    /// The name of the resource that the method, static function or
    /// constructor `f` belongs to.
    fn resource_name(&self, f: &Function) -> (r: String)
        requires
            self.env().wf(),
            self.env().schema.function_ok(*f),
        ensures
            r@ == resource_name(self.env().schema, *f),
    {
        let schema = self.resolve;
        match f.kind {
            FunctionKind::Method(id) | FunctionKind::Static(id) | FunctionKind::Constructor(id) => {
                match &schema.types[id].name {
                    Some(name) => name.clone(),
                    None => String::new(),
                }
            },
            FunctionKind::Freestanding => String::new(),
        }
    }

    /// Appends the types of the arguments of the dispatch closure of `f`.
    fn import_arg_types(&mut self, owner: TypeOwner, f: &Function)
        requires
            closure_printable(old(self).env(), owner, *f),
        ensures
            final(self).emitted(
                old(self),
                import_arg_types_text(old(self).env(), owner, f.params@, f.params@.len()),
            ),
    {
        let schema = self.resolve;
        let ghost env = self.env();
        let ghost start = self.src@;
        let mut i: usize = 0;
        while i < f.params.len()
            invariant
                i <= f.params@.len(),
                closure_printable(env, owner, *f),
                *schema == env.schema,
                self.env() == env,
                self.src@ == start + import_arg_types_text(env, owner, f.params@, i as nat),
            decreases f.params@.len() - i,
        {
            let ty = &f.params[i].1;
            assert(schema.type_ok(f.params@[i as int].1));
            let mut handled = false;
            assert(all_bound(env, f.params@[i as int].1));
            if let Some((name, resource_owner)) = find_first_resource(schema, ty) {
                assert(resources_of(env.schema, *ty)[0] == (name@, resource_owner));
                if resource_owner == owner {
                    let impl_name = self.resource_impl(name.as_str());
                    self.push_str("wasmtime::component::Resource<");
                    self.push_str(impl_name.as_str());
                    self.push_str(">");
                    handled = true;
                }
            }
            if !handled {
                self.print_ty(ty, TypeMode::Owned);
            }
            self.push_str(", ");
            i += 1;
        }
    }

    /// Appends the tracing of the entry into the dispatch closure of `f`.
    fn import_tracing(&mut self, owner: TypeOwner, f: &Function)
        requires
            old(self).env().wf(),
            owner_in_scope(old(self).env().schema, owner),
        ensures
            final(self).emitted(old(self), import_tracing_text(old(self).env(), owner, *f)),
    {
        reveal(import_tracing_text);
        let schema = self.resolve;
        let module: &str = match owner {
            TypeOwner::Interface(id) => match &schema.interfaces[id].name {
                Some(name) => name.as_str(),
                None => "<no module>",
            },
            TypeOwner::World(id) => schema.worlds[id].name.as_str(),
            TypeOwner::Unowned => "<no owner>",
        };
        self.tracing_span("wit-bindgen import", module, f.name.as_str());
        if self.opts.tracing {
            self.push_str("tracing::event!(tracing::Level::TRACE, ");
            let ghost env = self.env();
            let ghost start = self.src@;
            let mut i: usize = 0;
            while i < f.params.len()
                invariant
                    i <= f.params@.len(),
                    self.env() == env,
                    self.src@ == start + event_fields_text(f.params@, i as nat),
                decreases f.params@.len() - i,
            {
                let name = to_rust_ident(f.params[i].0.as_str());
                self.push_str(name.as_str());
                self.push_str(" = tracing::field::debug(&arg");
                self.push_usize(i);
                self.push_str("), ");
                i += 1;
            }
            self.push_str("\"call\"");
            self.push_str(");\n");
        }
    }

    /// Appends the end of a call of the host.
    fn call_end(&mut self)
        ensures
            final(self).emitted(old(self), call_end_text(old(self).env())),
    {
        if self.opts.async_ {
            self.push_str(").await;\n");
        } else {
            self.push_str(");\n");
        }
    }

    /// Appends the call of the host for `f`.
    fn dispatch(&mut self, owner: TypeOwner, f: &Function)
        requires
            closure_printable(old(self).env(), owner, *f),
        ensures
            final(self).emitted(old(self), dispatch_text(old(self).env(), *f)),
    {
        reveal(dispatch_text);
        let func_name = snake_case(name_to_call(f));
        let n = f.params.len();
        match f.kind {
            FunctionKind::Freestanding => {
                self.push_str("let host = get(caller.data_mut());\n");
                self.push_str("let r = host.");
                self.push_str(func_name.as_str());
                self.push_str("(");
                self.push_numbered("arg", ", ", 0, n);
                self.call_end();
            },
            FunctionKind::Method(_) => {
                self.push_str("let mut resource = caller.data_mut().get_resource_mut(arg0);\n");
                self.push_str("let r = resource.");
                self.push_str(func_name.as_str());
                self.push_str("(");
                if n >= 1 {
                    self.push_numbered("arg", ", ", 1, n);
                }
                self.call_end();
            },
            FunctionKind::Static(_) => {
                let impl_name = self.resource_impl(self.resource_name(f).as_str());
                self.push_str("let r = ");
                self.push_str(impl_name.as_str());
                self.push_str("::");
                self.push_str(func_name.as_str());
                self.push_str("(");
                self.push_numbered("arg", ", ", 0, n);
                self.call_end();
            },
            FunctionKind::Constructor(_) => {
                let impl_name = self.resource_impl(self.resource_name(f).as_str());
                self.push_str("let resource = ");
                self.push_str(impl_name.as_str());
                self.push_str("::new(");
                self.push_numbered("arg", ",", 0, n);
                if self.opts.async_ {
                    self.push_str(").await;\n");
                } else {
                    self.push_str(")?;\n");
                }
                self.push_str("let r = caller.data_mut().new_resource(resource);");
            },
        }
    }

    /// Appends what the dispatch closure of `f` hands back to the guest.
    fn hand_back(&mut self, owner: TypeOwner, f: &Function)
        requires
            sig_printable(old(self).env(), owner, *f),
        ensures
            final(self).emitted(old(self), hand_back_text(old(self).env(), owner, *f)),
    {
        reveal(hand_back_text);
        if self.special_case_trappable_error(owner, &f.results).is_some() {
            self.push_str(
                "match r {\nOk(a) => Ok((Ok(a),)),\nErr(e) => match e.downcast() {\nOk(api_error) => Ok((Err(api_error),)),\nErr(anyhow_error) => Err(anyhow_error),\n}\n}",
            );
        } else if f.results.len() == 1 {
            match f.kind {
                FunctionKind::Constructor(_) => {
                    self.push_str("Ok((r,))\n");
                },
                _ => {
                    self.push_str("Ok((r?,))\n");
                },
            }
        } else {
            self.push_str("r\n");
        }
    }

    /// Appends the closure that dispatches a call of the imported
    /// function `f` into the host.
    pub fn generate_guest_import_closure(&mut self, owner: TypeOwner, f: &Function)
        requires
            closure_printable(old(self).env(), owner, *f),
        ensures
            final(self).emitted(old(self), import_closure_text(old(self).env(), owner, *f)),
    {
        reveal(import_closure_text);
        self.push_str("move |mut caller: wasmtime::StoreContextMut<'_, T>, (");
        self.push_numbered("arg", ",", 0, f.params.len());
        self.push_str(") : (");
        self.import_arg_types(owner, f);
        self.push_str(") |");
        if self.opts.async_ {
            self.push_str(" Box::new(async move { \n");
        } else {
            self.push_str(" { \n");
        }
        self.import_tracing(owner, f);
        self.dispatch(owner, f);
        if self.opts.tracing {
            self.push_str(
                "tracing::event!(tracing::Level::TRACE, result = tracing::field::debug(&r), \"return\");",
            );
        }
        self.hand_back(owner, f);
        if self.opts.async_ {
            self.push_str("})\n");
        } else {
            self.push_str("}\n");
        }
    }

    /// Appends the registration of the imported function `f` with the
    /// linker named `linker`.
    pub fn generate_add_function_to_linker(&mut self, owner: TypeOwner, f: &Function, linker: &str)
        requires
            closure_printable(old(self).env(), owner, *f),
        ensures
            final(self).emitted(
                old(self),
                add_function_text(old(self).env(), owner, *f, linker@),
            ),
    {
        reveal(add_function_text);
        self.push_str(linker);
        self.push_str(".");
        if self.opts.async_ {
            self.push_str("func_wrap_async");
        } else {
            self.push_str("func_wrap");
        }
        self.push_str("(\"");
        self.push_str(f.name.as_str());
        self.push_str("\", ");
        self.generate_guest_import_closure(owner, f);
        self.push_str(")?;\n");
    }
}

/// The names `set` with `name`, which is added at the end where the set
/// does not hold it.
pub open spec fn with_name(set: Seq<Seq<char>>, name: Seq<char>) -> Seq<Seq<char>> {
    if set.contains(name) {
        set
    } else {
        set.push(name)
    }
}

/// The names `set` with the names of the first `n` of the resources.
pub open spec fn with_resources(
    set: Seq<Seq<char>>,
    resources: Seq<(Seq<char>, TypeOwner)>,
    n: nat,
) -> Seq<Seq<char>>
    decreases n,
{
    if n == 0 {
        set
    } else {
        with_name(with_resources(set, resources, (n - 1) as nat), resources[n - 1].0)
    }
}

/// The names `set` with the names of the resources that the first `n`
/// parameters refer to.
pub open spec fn with_params(
    schema: Schema,
    set: Seq<Seq<char>>,
    params: Seq<(String, Type)>,
    n: nat,
) -> Seq<Seq<char>>
    decreases n,
{
    if n == 0 {
        set
    } else {
        let resources = resources_of(schema, params[n - 1].1);
        with_resources(
            with_params(schema, set, params, (n - 1) as nat),
            resources,
            resources.len(),
        )
    }
}

/// The names of the resources that the parameters of the first `n`
/// functions refer to, each once, in the order in which the functions
/// mention them first.
pub open spec fn resource_set(schema: Schema, functions: Seq<Function>, n: nat) -> Seq<Seq<char>>
    decreases n,
{
    if n == 0 {
        Seq::empty()
    } else {
        with_params(
            schema,
            resource_set(schema, functions, (n - 1) as nat),
            functions[n - 1].params@,
            functions[n - 1].params@.len(),
        )
    }
}

/// The imports of the host types of the first `n` resources.
pub open spec fn uses_text(env: Env, names: Seq<Seq<char>>, n: nat) -> Seq<char>
    decreases n,
{
    if n == 0 {
        Seq::empty()
    } else {
        uses_text(env, names, (n - 1) as nat) + "use super::super::super::"@ + impl_of(
            env,
            names[n - 1],
        ) + ";\n"@
    }
}

/// The methods of the `Host` trait for the first `n` functions: one for
/// each freestanding function.
pub open spec fn host_sigs_text(env: Env, owner: TypeOwner, functions: Seq<Function>, n: nat) -> Seq<
    char,
>
    decreases n,
{
    if n == 0 {
        Seq::empty()
    } else {
        host_sigs_text(env, owner, functions, (n - 1) as nat) + (if functions[n - 1].kind
            is Freestanding {
            host_sig_text(env, owner, functions[n - 1])
        } else {
            Seq::empty()
        })
    }
}

/// The resource tables of the first `n` host types that the options
/// name, joined with ` + `.
pub open spec fn resource_tables_text(resources: Seq<(Seq<char>, Seq<char>)>, n: nat) -> Seq<char>
    decreases n,
{
    if n == 0 {
        Seq::empty()
    } else {
        resource_tables_text(resources, (n - 1) as nat) + (if n > 1 {
            " + "@
        } else {
            Seq::empty()
        }) + "wasmtime::component::ResourceTable<"@ + resources[n - 1].1 + ">"@
    }
}

/// The bounds of `add_to_linker` of an interface; `tables` says whether
/// the store's data is to hold the resource tables.
#[verifier::opaque]
pub open spec fn where_text(env: Env, tables: bool) -> Seq<char> {
    let resources = env.opts.resources@;
    if tables {
        "T: "@ + resource_tables_text(resources, resources.len()) + (if env.opts.async_ {
            " + Send, U: Host + Send"@
        } else {
            ", U: Host"@
        })
    } else if env.opts.async_ {
        "T: Send, U: Host + Send"@
    } else {
        "U: Host"@
    }
}

/// The registrations of the clean-up of the first `n` resources that the
/// options name: dropping a handle drops the resource of the host.
pub open spec fn drops_text(resources: Seq<(Seq<char>, Seq<char>)>, n: nat) -> Seq<char>
    decreases n,
{
    if n == 0 {
        Seq::empty()
    } else {
        drops_text(resources, (n - 1) as nat) + "\ninst.resource::<"@ + resources[n - 1].1
            + ">(\""@ + resources[n - 1].0
            + "\", |mut store, rep| {\nstore.data_mut().drop_resource(rep);\n})?;\n\n"@
    }
}

/// The registrations of the first `n` functions with the linker of the
/// instance.
pub open spec fn add_functions_text(env: Env, owner: TypeOwner, functions: Seq<Function>, n: nat) -> Seq<
    char,
>
    decreases n,
{
    if n == 0 {
        Seq::empty()
    } else {
        add_functions_text(env, owner, functions, (n - 1) as nat) + add_function_text(
            env,
            owner,
            functions[n - 1],
            "inst"@,
        )
    }
}

/// The function `add_to_linker` of the interface at `id`, which the world
/// imports under the name `name`: it registers the clean-up of the
/// resources and every function of the interface, and fails with the
/// first registration that fails.
#[verifier::opaque]
pub open spec fn add_to_linker_fn_text(env: Env, id: InterfaceId, name: Seq<char>) -> Seq<char> {
    let functions = env.schema.interfaces@[id as int].functions@;
    let owner = TypeOwner::Interface(id);
    let set = resource_set(env.schema, functions, functions.len());
    "\npub fn add_to_linker<T, U>(\nlinker: &mut wasmtime::component::Linker<T>,\nget: impl Fn(&mut T) -> &mut U + Send + Sync + Copy + 'static,\n) -> wasmtime::Result<()>\nwhere "@
        + where_text(env, set.len() != 0) + ",\n{\n\n"@ + "let mut inst = linker.instance(\""@
        + name + "\")?;\n"@ + (if set.len() != 0 {
        drops_text(env.opts.resources@, env.opts.resources@.len())
    } else {
        Seq::empty()
    }) + add_functions_text(env, owner, functions, functions.len()) + "Ok(())\n"@ + "}\n"@
}

/// The bindings of the imported interface at `id`: the imports of the
/// host types of its resources, the `Host` trait with a method for each
/// freestanding function, and `add_to_linker`.
#[verifier::opaque]
pub open spec fn add_to_linker_text(env: Env, id: InterfaceId, name: Seq<char>) -> Seq<char> {
    let functions = env.schema.interfaces@[id as int].functions@;
    let owner = TypeOwner::Interface(id);
    let set = resource_set(env.schema, functions, functions.len());
    uses_text(env, set, set.len()) + async_trait_text(env) + "pub trait Host {\n"@
        + host_sigs_text(env, owner, functions, functions.len()) + "}\n"@ + add_to_linker_fn_text(
        env,
        id,
        name,
    )
}

/// Whether the bindings of the imported interface at `id` can be
/// generated: the dispatch closure of each of its functions can, and the
/// options name the host type of every resource that a parameter refers
/// to.
pub open spec fn linkable(env: Env, id: InterfaceId) -> bool {
    let functions = env.schema.interfaces@[id as int].functions@;
    let set = resource_set(env.schema, functions, functions.len());
    &&& env.wf()
    &&& id < env.schema.interfaces@.len()
    &&& forall|i: int|
        0 <= i < functions.len() ==> closure_printable(
            env,
            TypeOwner::Interface(id),
            #[trigger] functions[i],
        )
    &&& forall|i: int|
        0 <= i < set.len() ==> env.opts.resources.value_of(#[trigger] set[i]) is Some
}

/// Whether the signatures of the functions of the interface at `id` can
/// be spelled.
pub open spec fn sigs_printable(env: Env, id: InterfaceId) -> bool {
    &&& env.wf()
    &&& id < env.schema.interfaces@.len()
    &&& forall|i: int|
        0 <= i < env.schema.interfaces@[id as int].functions@.len() ==> sig_printable(
            env,
            TypeOwner::Interface(id),
            #[trigger] env.schema.interfaces@[id as int].functions@[i],
        )
}

/// Whether the list holds `name`.
pub(crate) fn holds_name(names: &Vec<String>, name: &str, texts: Ghost<Seq<Seq<char>>>) -> (r: bool)
    requires
        holds_texts(names@, texts@),
    ensures
        r == texts@.contains(name@),
{
    let mut i: usize = 0;
    while i < names.len()
        invariant
            i <= names@.len(),
            holds_texts(names@, texts@),
            forall|j: int| 0 <= j < i ==> texts@[j] != name@,
        decreases names@.len() - i,
    {
        if same(names[i].as_str(), name) {
            assert(texts@[i as int] == name@);
            return true;
        }
        i += 1;
    }
    false
}

/// The names of the resources that the parameters of the functions refer
/// to, each once.
pub(crate) fn collect_resource_set(schema: &Schema, functions: &Vec<Function>) -> (r: Vec<String>)
    requires
        schema.wf(),
        forall|i: int| 0 <= i < functions@.len() ==> schema.function_ok(#[trigger] functions@[i]),
    ensures
        holds_texts(r@, resource_set(*schema, functions@, functions@.len())),
{
    let mut set: Vec<String> = Vec::new();
    let mut i: usize = 0;
    while i < functions.len()
        invariant
            i <= functions@.len(),
            schema.wf(),
            forall|i: int|
                0 <= i < functions@.len() ==> schema.function_ok(#[trigger] functions@[i]),
            holds_texts(set@, resource_set(*schema, functions@, i as nat)),
        decreases functions@.len() - i,
    {
        let f = &functions[i];
        let ghost base = resource_set(*schema, functions@, i as nat);
        let mut j: usize = 0;
        while j < f.params.len()
            invariant
                j <= f.params@.len(),
                schema.wf(),
                schema.function_ok(*f),
                holds_texts(set@, with_params(*schema, base, f.params@, j as nat)),
            decreases f.params@.len() - j,
        {
            assert(schema.type_ok(f.params@[j as int].1));
            let resources = get_resource_from_ty(schema, &f.params[j].1);
            let ghost refs = resources_of(*schema, f.params@[j as int].1);
            let ghost start = with_params(*schema, base, f.params@, j as nat);
            let mut k: usize = 0;
            while k < resources.len()
                invariant
                    k <= resources@.len(),
                    refs_view(resources@) == refs,
                    holds_texts(set@, with_resources(start, refs, k as nat)),
                decreases resources@.len() - k,
            {
                assert(refs[k as int] == (resources@[k as int].0@, resources@[k as int].1));
                let ghost texts = with_resources(start, refs, k as nat);
                if !holds_name(&set, resources[k].0.as_str(), Ghost(texts)) {
                    set.push(resources[k].0.clone());
                }
                k += 1;
            }
            j += 1;
        }
        i += 1;
    }
    set
}

impl<'a> InterfaceGenerator<'a> {
    /// Appends the function `add_to_linker` of an interface.
    fn add_to_linker_fn(&mut self, id: InterfaceId, name: &str, tables: bool)
        requires
            linkable(old(self).env(), id),
            tables == (resource_set(
                old(self).env().schema,
                old(self).env().schema.interfaces@[id as int].functions@,
                old(self).env().schema.interfaces@[id as int].functions@.len(),
            ).len() != 0),
        ensures
            final(self).emitted(old(self), add_to_linker_fn_text(old(self).env(), id, name@)),
    {
        reveal(add_to_linker_fn_text);
        let schema = self.resolve;
        let opts = self.opts;
        let iface = &schema.interfaces[id];
        let owner = TypeOwner::Interface(id);
        self.push_str(
            "\npub fn add_to_linker<T, U>(\nlinker: &mut wasmtime::component::Linker<T>,\nget: impl Fn(&mut T) -> &mut U + Send + Sync + Copy + 'static,\n) -> wasmtime::Result<()>\nwhere ",
        );
        self.where_clause(tables);
        self.push_str(",\n{\n\n");
        self.push_str("let mut inst = linker.instance(\"");
        self.push_str(name);
        self.push_str("\")?;\n");
        if tables {
            let ghost env = self.env();
            let ghost start = self.src@;
            let mut i: usize = 0;
            while i < opts.resources.len()
                invariant
                    i <= opts.resources@.len(),
                    *opts == env.opts,
                    self.env() == env,
                    self.src@ == start + drops_text(opts.resources@, i as nat),
                decreases opts.resources@.len() - i,
            {
                self.push_str("\ninst.resource::<");
                self.push_str(opts.resources.value(i).as_str());
                self.push_str(">(\"");
                self.push_str(opts.resources.key(i).as_str());
                self.push_str(
                    "\", |mut store, rep| {\nstore.data_mut().drop_resource(rep);\n})?;\n\n",
                );
                i += 1;
            }
        }
        let ghost env = self.env();
        let ghost start = self.src@;
        let mut i: usize = 0;
        while i < iface.functions.len()
            invariant
                i <= iface.functions@.len(),
                linkable(env, id),
                *iface == env.schema.interfaces@[id as int],
                owner == TypeOwner::Interface(id),
                self.env() == env,
                self.src@ == start + add_functions_text(env, owner, iface.functions@, i as nat),
            decreases iface.functions@.len() - i,
        {
            self.generate_add_function_to_linker(owner, &iface.functions[i], "inst");
            i += 1;
        }
        self.push_str("Ok(())\n");
        self.push_str("}\n");
    }

    /// Appends the bounds of `add_to_linker` of an interface.
    fn where_clause(&mut self, tables: bool)
        ensures
            final(self).emitted(old(self), where_text(old(self).env(), tables)),
    {
        reveal(where_text);
        let opts = self.opts;
        if tables {
            self.push_str("T: ");
            let ghost env = self.env();
            let ghost start = self.src@;
            let mut i: usize = 0;
            while i < opts.resources.len()
                invariant
                    i <= opts.resources@.len(),
                    *opts == env.opts,
                    self.env() == env,
                    self.src@ == start + resource_tables_text(opts.resources@, i as nat),
                decreases opts.resources@.len() - i,
            {
                if i > 0 {
                    self.push_str(" + ");
                }
                self.push_str("wasmtime::component::ResourceTable<");
                self.push_str(opts.resources.value(i).as_str());
                self.push_str(">");
                i += 1;
            }
            if opts.async_ {
                self.push_str(" + Send, U: Host + Send");
            } else {
                self.push_str(", U: Host");
            }
        } else if opts.async_ {
            self.push_str("T: Send, U: Host + Send");
        } else {
            self.push_str("U: Host");
        }
    }

    /// Appends the bindings of the imported interface at `id`, which the
    /// world imports under the name `name`.
    pub fn generate_add_to_linker(&mut self, id: InterfaceId, name: &str)
        requires
            linkable(old(self).env(), id),
        ensures
            final(self).emitted(old(self), add_to_linker_text(old(self).env(), id, name@)),
    {
        reveal(add_to_linker_text);
        let schema = self.resolve;
        let iface = &schema.interfaces[id];
        let owner = TypeOwner::Interface(id);
        assert(schema.interface_ok(id as int));
        let set = collect_resource_set(schema, &iface.functions);
        let ghost names = resource_set(*schema, iface.functions@, iface.functions@.len());
        let ghost env = self.env();
        let ghost start = self.src@;
        let mut i: usize = 0;
        while i < set.len()
            invariant
                i <= set@.len(),
                linkable(env, id),
                names == resource_set(
                    env.schema,
                    env.schema.interfaces@[id as int].functions@,
                    env.schema.interfaces@[id as int].functions@.len(),
                ),
                holds_texts(set@, names),
                self.env() == env,
                self.src@ == start + uses_text(env, names, i as nat),
            decreases set@.len() - i,
        {
            assert(env.opts.resources.value_of(names[i as int]) is Some);
            let impl_name = self.resource_impl(set[i].as_str());
            self.push_str("use super::super::super::");
            self.push_str(impl_name.as_str());
            self.push_str(";\n");
            i += 1;
        }
        self.async_trait();
        self.push_str("pub trait Host {\n");
        let ghost start = self.src@;
        let mut i: usize = 0;
        while i < iface.functions.len()
            invariant
                i <= iface.functions@.len(),
                linkable(env, id),
                *iface == env.schema.interfaces@[id as int],
                owner == TypeOwner::Interface(id),
                self.env() == env,
                self.src@ == start + host_sigs_text(env, owner, iface.functions@, i as nat),
            decreases iface.functions@.len() - i,
        {
            let f = &iface.functions[i];
            if let FunctionKind::Freestanding = f.kind {
                assert(closure_printable(env, owner, *f));
                self.generate_function_trait_sig(owner, f);
            }
            i += 1;
        }
        self.push_str("}\n");
        self.add_to_linker_fn(id, name, set.len() != 0);
    }
}

} // verus!
