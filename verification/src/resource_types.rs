//! The traits and wrappers of resources: the trait that lists the
//! functions of a resource, and for an exported resource the wrapper that
//! pairs a handle with the typed functions of the guest.

use vstd::prelude::*;
use vstd::string::StringExecFns;
use crate::calls::{
    arg_params_text, async_suffix, async_word, await_text, export_module, fn_printable, ok_text,
    param_types_text, post_return_text, rets_text, tracing_text, typed_func_text,
};
use crate::exports::export_call_text;
use crate::interface::{rustdoc_text, Direction, Env, InterfaceGenerator};
use crate::names::{snake_case, snake_case_of, upper_camel_case, upper_camel_case_of};
use crate::rust::{RustGenerator, TypeMode};
use crate::schema::{Function, FunctionKind, Interface, TypeId, TypeOwner, WorldKey};
use crate::sigs::{
    call_name, export_resource_sig_text, import_resource_sig_text, name_to_call, results_text,
    sig_printable,
};
use crate::text::{group_text, holds_texts, numbered};
use crate::typedefs::types_text;

verus! {

broadcast use group_text;

/// Whether `f` is a method, a static function or the constructor of the
/// resource at `id`.
pub open spec fn of_resource(f: Function, id: TypeId) -> bool {
    match f.kind {
        FunctionKind::Method(r) => r == id,
        FunctionKind::Static(r) => r == id,
        FunctionKind::Constructor(r) => r == id,
        FunctionKind::Freestanding => false,
    }
}

/// Whether `f` is a method, a static function or the constructor of the
/// resource at `id`.
pub fn belongs_to(f: &Function, id: TypeId) -> (r: bool)
    ensures
        r == of_resource(*f, id),
{
    match f.kind {
        FunctionKind::Method(r) | FunctionKind::Static(r) | FunctionKind::Constructor(r) => r
            == id,
        FunctionKind::Freestanding => false,
    }
}

/// The names of the fields that hold the typed functions of the first `n`
/// functions: one for each function of a resource.
pub open spec fn func_fields(functions: Seq<Function>, n: nat) -> Seq<Seq<char>>
    decreases n,
{
    if n == 0 {
        Seq::empty()
    } else if functions[n - 1].kind is Freestanding {
        func_fields(functions, (n - 1) as nat)
    } else {
        func_fields(functions, (n - 1) as nat).push(snake_case_of(functions[n - 1].name@))
    }
}

/// The statements that get the typed functions of the first `n`
/// functions from the exports of the instance.
pub open spec fn extractions_text(env: Env, functions: Seq<Function>, n: nat) -> Seq<char>
    decreases n,
{
    if n == 0 {
        Seq::empty()
    } else if functions[n - 1].kind is Freestanding {
        extractions_text(env, functions, (n - 1) as nat)
    } else {
        extractions_text(env, functions, (n - 1) as nat) + "let "@ + snake_case_of(
            functions[n - 1].name@,
        ) + " = "@ + typed_func_text(env, functions[n - 1]) + ";\n"@
    }
}

/// The first `n` names, separated by `, `.
pub open spec fn joined_names(names: Seq<Seq<char>>, n: nat) -> Seq<char>
    decreases n,
{
    if n == 0 {
        Seq::empty()
    } else {
        joined_names(names, (n - 1) as nat) + (if n > 1 {
            ", "@
        } else {
            Seq::empty()
        }) + names[n - 1]
    }
}

/// The first `n` names, each as a field of a struct literal.
pub open spec fn field_lines_text(names: Seq<Seq<char>>, n: nat) -> Seq<char>
    decreases n,
{
    if n == 0 {
        Seq::empty()
    } else {
        field_lines_text(names, (n - 1) as nat) + names[n - 1] + ",\n"@
    }
}

/// The number of parameters of `f` after the first.
pub open spec fn rest_params(f: Function) -> nat {
    if f.params@.len() >= 1 {
        (f.params@.len() - 1) as nat
    } else {
        0
    }
}

/// The header of the function of the wrapper of a resource for `f`.
#[verifier::opaque]
pub open spec fn rep_head_text(env: Env, f: Function) -> Seq<char> {
    rustdoc_text(f.docs) + (match f.kind {
        FunctionKind::Freestanding => Seq::empty(),
        FunctionKind::Constructor(_) => async_word(env)
            + " fn new<S: wasmtime::AsContextMut>(mut store: S, instance: &wasmtime::component::Instance, "@
            + arg_params_text(env, f.params@, 0, f.params@.len()) + ") -> wasmtime::Result<Self"@,
        _ => async_word(env) + " fn "@ + snake_case_of(call_name(f))
            + "<S: wasmtime::AsContextMut>("@ + "&self, mut store: S, "@ + arg_params_text(
            env,
            f.params@,
            1,
            rest_params(f),
        ) + ") -> wasmtime::Result<"@ + results_text(env, f.results, TypeMode::Owned),
    }) + (if env.opts.async_ {
        "> where <S as wasmtime::AsContext>::Data: Send, Self: Sized{\n"@
    } else {
        "> {\n"@
    })
}

/// The key under which the world holds the interface being generated.
pub open spec fn current_key(env: Env) -> WorldKey {
    (env.current->0).1
}

/// The statement that binds the typed functions of a resource: for the
/// constructor they are got from the exports of the instance, each under
/// the name of its field; other functions bind nothing.
#[verifier::opaque]
pub open spec fn rep_bindings_text(env: Env, f: Function, iface: Interface) -> Seq<char> {
    let n = iface.functions@.len();
    let fields = if f.kind is Constructor {
        func_fields(iface.functions@, n)
    } else {
        Seq::empty()
    };
    let extractions = if f.kind is Constructor {
        let name = env.schema.world_key_name(current_key(env));
        "\nlet mut exports = instance.exports(store.as_context_mut());\nlet mut __exports = exports.instance(\""@
            + name + "\")\n.ok_or_else(|| anyhow::anyhow!(\"exported instance `"@ + name
            + "` not present\"))?;\n"@ + extractions_text(env, iface.functions@, n)
    } else {
        Seq::empty()
    };
    "\nlet ("@ + joined_names(fields, fields.len()) + ") = {\n"@ + extractions + "\n("@
        + joined_names(fields, fields.len()) + ")\n};\n"@
}

/// The statement that binds the typed function to call.
#[verifier::opaque]
pub open spec fn rep_callee_text(env: Env, f: Function) -> Seq<char> {
    "let callee = unsafe {\n"@ + "wasmtime::component::TypedFunc::<("@ + param_types_text(
        env,
        f.params@,
        TypeMode::AllBorrowed("'_"),
        ", "@,
        f.params@.len(),
    ) + "), ("@ + types_text(
        env,
        f.results.types(),
        TypeMode::Owned,
        ", "@,
        f.results.types().len(),
    ) + (if f.kind is Constructor {
        ")>::new_unchecked("@
    } else {
        ")>::new_unchecked(self."@
    }) + snake_case_of(f.name@) + ")\n"@ + "};\n"@
}

/// The call of the guest and what the function of the wrapper returns:
/// the constructor returns the wrapper with the handle and the typed
/// functions; a method passes its handle as first argument; both run the
/// clean-up after the call once.
#[verifier::opaque]
pub open spec fn rep_call_text(env: Env, f: Function, iface: Interface) -> Seq<char> {
    let results = f.results.types().len();
    if f.kind is Constructor {
        let fields = func_fields(iface.functions@, iface.functions@.len());
        export_call_text(env, f.params@.len(), results) + post_return_text(env) + "Ok(Self {\n"@
            + "handle: ret0,\n"@ + field_lines_text(fields, fields.len()) + "})\n"@
    } else {
        "let ("@ + rets_text(results) + ") = callee.call"@ + async_suffix(env)
            + "(store.as_context_mut(), ("@ + (if f.kind is Method {
            "self.to_handle(), "@
        } else {
            Seq::empty()
        }) + numbered("arg"@, ", "@, 0, rest_params(f)) + "))"@ + await_text(env) + "?;\n"@
            + post_return_text(env) + ok_text(results)
    }
}

/// The function of the wrapper of an exported resource for `f`, a
/// function of the interface `iface`.
#[verifier::opaque]
pub open spec fn rep_fn_text(env: Env, ns: Option<WorldKey>, f: Function, iface: Interface) -> Seq<
    char,
> {
    rep_head_text(env, f) + tracing_text(
        env,
        "wit-bindgen export"@,
        export_module(env.schema, ns),
        f.name@,
    ) + rep_bindings_text(env, f, iface) + rep_callee_text(env, f) + rep_call_text(env, f, iface)
        + "}\n"@
}

/// Whether the functions of the wrapper of a resource of `iface` can be
/// generated: the functions of the resources of the interface can be
/// spelled, and the interface being generated has a key with a name.
pub open spec fn rep_printable(env: Env, iface: Interface) -> bool {
    &&& env.wf()
    &&& env.current is Some
    &&& env.schema.key_named(current_key(env))
    &&& forall|i: int|
        0 <= i < iface.functions@.len() && !((#[trigger] iface.functions@[i]).kind
            is Freestanding) ==> fn_printable(env, iface.functions@[i])
}

impl<'a> InterfaceGenerator<'a> {
    /// Appends the header of the function of the wrapper of a resource
    /// for `f`.
    fn rep_head(&mut self, f: &Function)
        requires
            fn_printable(old(self).env(), *f),
        ensures
            final(self).emitted(old(self), rep_head_text(old(self).env(), *f)),
    {
        reveal(rep_head_text);
        self.rustdoc(&f.docs);
        match f.kind {
            FunctionKind::Freestanding => {},
            FunctionKind::Method(_) | FunctionKind::Static(_) => {
                self.push_async_word();
                self.push_str(" fn ");
                let snake = snake_case(name_to_call(f));
                self.push_str(snake.as_str());
                self.push_str("<S: wasmtime::AsContextMut>(");
                self.push_str("&self, mut store: S, ");
                self.arg_params(&f.params, 1);
                self.push_str(") -> wasmtime::Result<");
                self.print_result_ty(&f.results, TypeMode::Owned);
            },
            FunctionKind::Constructor(_) => {
                self.push_async_word();
                self.push_str(
                    " fn new<S: wasmtime::AsContextMut>(mut store: S, instance: &wasmtime::component::Instance, ",
                );
                self.arg_params(&f.params, 0);
                self.push_str(") -> wasmtime::Result<Self");
            },
        }
        if self.opts.async_ {
            self.push_str("> where <S as wasmtime::AsContext>::Data: Send, Self: Sized{\n");
        } else {
            self.push_str("> {\n");
        }
    }

    /// The statements that get the typed functions of the resources of
    /// `iface`, and the names of the fields that hold them.
    fn extractions(&self, iface: &Interface) -> (r: (String, Vec<String>))
        requires
            rep_printable(self.env(), *iface),
        ensures
            r.0@ == extractions_text(self.env(), iface.functions@, iface.functions@.len()),
            holds_texts(r.1@, func_fields(iface.functions@, iface.functions@.len())),
    {
        let mut s = String::new();
        let mut fields: Vec<String> = Vec::new();
        let mut i: usize = 0;
        while i < iface.functions.len()
            invariant
                i <= iface.functions@.len(),
                rep_printable(self.env(), *iface),
                s@ == extractions_text(self.env(), iface.functions@, i as nat),
                holds_texts(fields@, func_fields(iface.functions@, i as nat)),
            decreases iface.functions@.len() - i,
        {
            let f = &iface.functions[i];
            match f.kind {
                FunctionKind::Freestanding => {},
                _ => {
                    let (name, getter) = self.extract_typed_function(f);
                    s.append("let ");
                    s.append(name.as_str());
                    s.append(" = ");
                    s.append(getter.as_str());
                    s.append(";\n");
                    fields.push(name);
                },
            }
            i += 1;
        }
        (s, fields)
    }

    /// Appends the names, separated by `, `.
    fn push_joined(&mut self, names: &Vec<String>, texts: Ghost<Seq<Seq<char>>>)
        requires
            holds_texts(names@, texts@),
        ensures
            final(self).emitted(old(self), joined_names(texts@, texts@.len())),
    {
        let ghost env = self.env();
        let ghost start = self.src@;
        let mut i: usize = 0;
        while i < names.len()
            invariant
                i <= names@.len(),
                holds_texts(names@, texts@),
                self.env() == env,
                self.src@ == start + joined_names(texts@, i as nat),
            decreases names@.len() - i,
        {
            if i > 0 {
                self.push_str(", ");
            }
            self.push_str(names[i].as_str());
            i += 1;
        }
    }

    /// Appends the names, each as a field of a struct literal.
    fn push_field_lines(&mut self, names: &Vec<String>, texts: Ghost<Seq<Seq<char>>>)
        requires
            holds_texts(names@, texts@),
        ensures
            final(self).emitted(old(self), field_lines_text(texts@, texts@.len())),
    {
        let ghost env = self.env();
        let ghost start = self.src@;
        let mut i: usize = 0;
        while i < names.len()
            invariant
                i <= names@.len(),
                holds_texts(names@, texts@),
                self.env() == env,
                self.src@ == start + field_lines_text(texts@, i as nat),
            decreases names@.len() - i,
        {
            self.push_str(names[i].as_str());
            self.push_str(",\n");
            i += 1;
        }
    }

    /// Appends the statement that binds the typed functions of a
    /// resource; gives the names of the fields that hold them.
    fn rep_bindings(&mut self, f: &Function, iface: &Interface) -> (fields: Vec<String>)
        requires
            rep_printable(old(self).env(), *iface),
        ensures
            final(self).emitted(old(self), rep_bindings_text(old(self).env(), *f, *iface)),
            holds_texts(
                fields@,
                if f.kind is Constructor {
                    func_fields(iface.functions@, iface.functions@.len())
                } else {
                    Seq::empty()
                },
            ),
    {
        reveal(rep_bindings_text);
        let schema = self.resolve;
        let mut fields: Vec<String> = Vec::new();
        let mut extractions = String::new();
        let ghost mut texts: Seq<Seq<char>> = Seq::empty();
        if let FunctionKind::Constructor(_) = f.kind {
            if let Some((_, key, _)) = self.current_interface {
                let name = schema.name_world_key(key);
                extractions.append(
                    "\nlet mut exports = instance.exports(store.as_context_mut());\nlet mut __exports = exports.instance(\"",
                );
                extractions.append(name.as_str());
                extractions.append("\")\n.ok_or_else(|| anyhow::anyhow!(\"exported instance `");
                extractions.append(name.as_str());
                extractions.append("` not present\"))?;\n");
                let (lines, names) = self.extractions(iface);
                extractions.append(lines.as_str());
                fields = names;
                proof {
                    texts = func_fields(iface.functions@, iface.functions@.len());
                }
            }
        }
        self.push_str("\nlet (");
        self.push_joined(&fields, Ghost(texts));
        self.push_str(") = {\n");
        self.push_str(extractions.as_str());
        self.push_str("\n(");
        self.push_joined(&fields, Ghost(texts));
        self.push_str(")\n};\n");
        fields
    }

    /// Appends the statement that binds the typed function to call.
    fn rep_callee(&mut self, f: &Function)
        requires
            fn_printable(old(self).env(), *f),
        ensures
            final(self).emitted(old(self), rep_callee_text(old(self).env(), *f)),
    {
        reveal(rep_callee_text);
        self.push_str("let callee = unsafe {\n");
        self.push_str("wasmtime::component::TypedFunc::<(");
        let params = self.param_types(&f.params, TypeMode::AllBorrowed("'_"), ", ");
        self.push_str(params.as_str());
        self.push_str("), (");
        let results = self.result_types(&f.results, TypeMode::Owned, ", ");
        self.push_str(results.as_str());
        match f.kind {
            FunctionKind::Constructor(_) => {
                self.push_str(")>::new_unchecked(");
            },
            _ => {
                self.push_str(")>::new_unchecked(self.");
            },
        }
        let snake = snake_case(f.name.as_str());
        self.push_str(snake.as_str());
        self.push_str(")\n");
        self.push_str("};\n");
    }

    /// Appends the call of the guest and what the function returns.
    fn rep_call(&mut self, f: &Function, iface: &Interface, fields: &Vec<String>)
        requires
            holds_texts(
                fields@,
                if f.kind is Constructor {
                    func_fields(iface.functions@, iface.functions@.len())
                } else {
                    Seq::empty()
                },
            ),
        ensures
            final(self).emitted(old(self), rep_call_text(old(self).env(), *f, *iface)),
    {
        reveal(rep_call_text);
        match f.kind {
            FunctionKind::Constructor(_) => {
                self.export_call(f.params.len(), f.results.len());
                self.post_return();
                self.push_str("Ok(Self {\n");
                self.push_str("handle: ret0,\n");
                self.push_field_lines(
                    fields,
                    Ghost(func_fields(iface.functions@, iface.functions@.len())),
                );
                self.push_str("})\n");
            },
            _ => {
                self.push_str("let (");
                self.push_numbered("ret", ",", 0, f.results.len());
                self.push_str(") = callee.call");
                self.push_async_suffix();
                self.push_str("(store.as_context_mut(), (");
                if let FunctionKind::Method(_) = f.kind {
                    self.push_str("self.to_handle(), ");
                }
                let rest = if f.params.len() >= 1 {
                    f.params.len() - 1
                } else {
                    0
                };
                self.push_numbered("arg", ", ", 0, rest);
                self.push_str("))");
                self.push_await();
                self.push_str("?;\n");
                self.post_return();
                self.ok_results(f.results.len());
            },
        }
    }

    /// Appends the function of the wrapper of an exported resource for
    /// `f`, a function of the interface `iface`.
    pub fn define_rust_guest_export_resource_representation(
        &mut self,
        ns: Option<&WorldKey>,
        f: &Function,
        iface: &Interface,
    )
        requires
            fn_printable(old(self).env(), *f),
            rep_printable(old(self).env(), *iface),
            ns is Some ==> old(self).env().schema.key_named(*ns->0),
        ensures
            final(self).emitted(
                old(self),
                rep_fn_text(
                    old(self).env(),
                    match ns {
                        Some(key) => Some(*key),
                        None => None,
                    },
                    *f,
                    *iface,
                ),
            ),
    {
        reveal(rep_fn_text);
        let schema = self.resolve;
        self.rep_head(f);
        let module = match ns {
            Some(key) => schema.name_world_key(key),
            None => "default".to_owned(),
        };
        self.tracing_span("wit-bindgen export", module.as_str(), f.name.as_str());
        let fields = self.rep_bindings(f, iface);
        self.rep_callee(f);
        self.rep_call(f, iface, &fields);
        self.push_str("}\n");
    }
}


/// The attribute that makes a trait or an impl async, where the options
/// ask for async functions.
pub open spec fn async_trait_text(env: Env) -> Seq<char> {
    if env.opts.async_ {
        "#[wasmtime::component::__internal::async_trait]\n"@
    } else {
        Seq::empty()
    }
}

/// The methods of the trait of the resource at `id` for the first `n`
/// functions: one for each function of the resource.
pub open spec fn resource_sigs_text(
    env: Env,
    dir: Direction,
    owner: TypeOwner,
    functions: Seq<Function>,
    id: TypeId,
    n: nat,
) -> Seq<char>
    decreases n,
{
    if n == 0 {
        Seq::empty()
    } else {
        resource_sigs_text(env, dir, owner, functions, id, (n - 1) as nat) + (if of_resource(
            functions[n - 1],
            id,
        ) {
            match dir {
                Direction::Export => export_resource_sig_text(env, owner, functions[n - 1]),
                Direction::Import => import_resource_sig_text(env, owner, functions[n - 1]),
            }
        } else {
            Seq::empty()
        })
    }
}

/// The fields of the wrapper of the resource at `id` that hold the typed
/// functions of the first `n` functions.
pub open spec fn rep_fields_text(functions: Seq<Function>, id: TypeId, n: nat) -> Seq<char>
    decreases n,
{
    if n == 0 {
        Seq::empty()
    } else {
        rep_fields_text(functions, id, (n - 1) as nat) + (if of_resource(functions[n - 1], id) {
            snake_case_of(functions[n - 1].name@) + ": wasmtime::component::Func,\n"@
        } else {
            Seq::empty()
        })
    }
}

/// The functions of the wrapper of the resource at `id` for the first `n`
/// functions of `iface`.
pub open spec fn rep_fns_text(env: Env, iface: Interface, id: TypeId, n: nat) -> Seq<char>
    decreases n,
{
    if n == 0 {
        Seq::empty()
    } else {
        rep_fns_text(env, iface, id, (n - 1) as nat) + (if of_resource(
            iface.functions@[n - 1],
            id,
        ) {
            rep_fn_text(env, None, iface.functions@[n - 1], iface)
        } else {
            Seq::empty()
        })
    }
}

/// The interface that owns the type at `id`.
pub open spec fn owning_interface(env: Env, id: TypeId) -> Interface {
    env.schema.interfaces@[env.schema.types@[id as int].owner->Interface_0 as int]
}

/// The wrapper of the exported resource at `id`: a struct that pairs the
/// handle with the typed functions of the resource, and the impl of the
/// trait of the resource for it.
#[verifier::opaque]
pub open spec fn rep_text(env: Env, id: TypeId, camel: Seq<char>) -> Seq<char> {
    let iface = owning_interface(env, id);
    let n = iface.functions@.len();
    "use wasmtime::component::ToHandle;\n"@ + "pub struct Rep"@ + camel + " {\n"@
        + "pub handle: wasmtime::component::ResourceAny,\n"@ + rep_fields_text(
        iface.functions@,
        id,
        n,
    ) + "}\n"@ + "\nimpl wasmtime::component::ToHandle for Rep"@ + camel
        + " {\nfn to_handle(&self) -> wasmtime::component::ResourceAny {\nself.handle\n}\n}\n\n"@
        + async_trait_text(env) + "impl "@ + camel + " for Rep"@ + camel + " {\n"@ + rep_fns_text(
        env,
        iface,
        id,
        n,
    ) + "}\n"@
}

/// The definition of the resource at `id` under the name `name`: the
/// trait that lists the functions of the resource and, for an export, the
/// wrapper that implements it.
#[verifier::opaque]
pub open spec fn resource_text(env: Env, dir: Direction, id: TypeId, name: Seq<char>) -> Seq<char> {
    let def = env.schema.types@[id as int];
    let iface = owning_interface(env, id);
    let camel = upper_camel_case_of(name);
    rustdoc_text(def.docs) + async_trait_text(env) + "pub trait "@ + camel + " {\n"@
        + resource_sigs_text(env, dir, def.owner, iface.functions@, id, iface.functions@.len())
        + "}\n"@ + (if dir == Direction::Import {
        Seq::empty()
    } else {
        rep_text(env, id, camel)
    })
}

/// Whether the resource at `id` can be defined: an interface owns it, the
/// signatures of its functions can be spelled, and for an export so can
/// the functions of its wrapper.
pub open spec fn resource_definable(env: Env, dir: Direction, id: TypeId) -> bool {
    let def = env.schema.types@[id as int];
    &&& env.wf()
    &&& id < env.schema.types@.len()
    &&& def.owner is Interface
    &&& forall|i: int|
        0 <= i < owning_interface(env, id).functions@.len() && of_resource(
            #[trigger] owning_interface(env, id).functions@[i],
            id,
        ) ==> sig_printable(env, def.owner, owning_interface(env, id).functions@[i])
    &&& dir == Direction::Export ==> rep_printable(env, owning_interface(env, id))
}

impl<'a> InterfaceGenerator<'a> {
    /// Appends the attribute that makes a trait or an impl async.
    pub fn async_trait(&mut self)
        ensures
            final(self).emitted(old(self), async_trait_text(old(self).env())),
    {
        if self.opts.async_ {
            self.push_str("#[wasmtime::component::__internal::async_trait]\n");
        }
    }

    /// Appends the methods of the trait of the resource at `id`.
    fn resource_sigs(&mut self, dir: Direction, id: TypeId)
        requires
            resource_definable(old(self).env(), dir, id),
        ensures
            final(self).emitted(
                old(self),
                resource_sigs_text(
                    old(self).env(),
                    dir,
                    old(self).env().schema.types@[id as int].owner,
                    owning_interface(old(self).env(), id).functions@,
                    id,
                    owning_interface(old(self).env(), id).functions@.len(),
                ),
            ),
    {
        let schema = self.resolve;
        assert(schema.typedef_ok(id as int));
        let owner = schema.types[id].owner;
        let iface = match owner {
            TypeOwner::Interface(i) => &schema.interfaces[i],
            _ => {
                return ;
            },
        };
        let ghost env = self.env();
        let ghost start = self.src@;
        let mut i: usize = 0;
        while i < iface.functions.len()
            invariant
                i <= iface.functions@.len(),
                resource_definable(env, dir, id),
                *iface == owning_interface(env, id),
                owner == env.schema.types@[id as int].owner,
                self.env() == env,
                self.src@ == start + resource_sigs_text(
                    env,
                    dir,
                    owner,
                    iface.functions@,
                    id,
                    i as nat,
                ),
            decreases iface.functions@.len() - i,
        {
            let f = &iface.functions[i];
            if belongs_to(f, id) {
                match dir {
                    Direction::Export => {
                        self.generate_guest_export_resource_function_trait_sig(owner, f);
                    },
                    Direction::Import => {
                        self.generate_guest_import_resource_function_trait_sig(owner, f);
                    },
                }
            }
            i += 1;
        }
    }

    /// Appends the fields of the wrapper of the resource at `id` that
    /// hold typed functions.
    fn rep_fields(&mut self, iface: &Interface, id: TypeId)
        ensures
            final(self).emitted(
                old(self),
                rep_fields_text(iface.functions@, id, iface.functions@.len()),
            ),
    {
        let ghost env = self.env();
        let ghost start = self.src@;
        let mut i: usize = 0;
        while i < iface.functions.len()
            invariant
                i <= iface.functions@.len(),
                self.env() == env,
                self.src@ == start + rep_fields_text(iface.functions@, id, i as nat),
            decreases iface.functions@.len() - i,
        {
            let f = &iface.functions[i];
            if belongs_to(f, id) {
                let snake = snake_case(f.name.as_str());
                self.push_str(snake.as_str());
                self.push_str(": wasmtime::component::Func,\n");
            }
            i += 1;
        }
    }

    /// Appends the functions of the wrapper of the resource at `id`.
    fn rep_fns(&mut self, iface: &Interface, id: TypeId)
        requires
            resource_definable(old(self).env(), Direction::Export, id),
            *iface == owning_interface(old(self).env(), id),
        ensures
            final(self).emitted(
                old(self),
                rep_fns_text(old(self).env(), *iface, id, iface.functions@.len()),
            ),
    {
        let ghost env = self.env();
        let ghost start = self.src@;
        let mut i: usize = 0;
        while i < iface.functions.len()
            invariant
                i <= iface.functions@.len(),
                resource_definable(env, Direction::Export, id),
                *iface == owning_interface(env, id),
                self.env() == env,
                self.src@ == start + rep_fns_text(env, *iface, id, i as nat),
            decreases iface.functions@.len() - i,
        {
            let f = &iface.functions[i];
            if belongs_to(f, id) {
                assert(sig_printable(env, env.schema.types@[id as int].owner, *f));
                self.define_rust_guest_export_resource_representation(None, f, iface);
            }
            i += 1;
        }
    }

    /// Appends the wrapper of the exported resource at `id`.
    fn rep(&mut self, id: TypeId, camel: &str)
        requires
            resource_definable(old(self).env(), Direction::Export, id),
        ensures
            final(self).emitted(old(self), rep_text(old(self).env(), id, camel@)),
    {
        reveal(rep_text);
        let schema = self.resolve;
        let iface = match schema.types[id].owner {
            TypeOwner::Interface(i) => {
                assert(schema.typedef_ok(id as int));
                &schema.interfaces[i]
            },
            _ => {
                return ;
            },
        };
        self.push_str("use wasmtime::component::ToHandle;\n");
        self.push_str("pub struct Rep");
        self.push_str(camel);
        self.push_str(" {\n");
        self.push_str("pub handle: wasmtime::component::ResourceAny,\n");
        self.rep_fields(iface, id);
        self.push_str("}\n");
        self.push_str("\nimpl wasmtime::component::ToHandle for Rep");
        self.push_str(camel);
        self.push_str(
            " {\nfn to_handle(&self) -> wasmtime::component::ResourceAny {\nself.handle\n}\n}\n\n",
        );
        self.async_trait();
        self.push_str("impl ");
        self.push_str(camel);
        self.push_str(" for Rep");
        self.push_str(camel);
        self.push_str(" {\n");
        self.rep_fns(iface, id);
        self.push_str("}\n");
    }

    /// Appends the definition of the resource at `id` under the name
    /// `name`.
    pub fn type_resource(&mut self, dir: Direction, id: TypeId, name: &str)
        requires
            resource_definable(old(self).env(), dir, id),
        ensures
            final(self).emitted(old(self), resource_text(old(self).env(), dir, id, name@)),
    {
        reveal(resource_text);
        let schema = self.resolve;
        self.rustdoc(&schema.types[id].docs);
        let camel = upper_camel_case(name);
        self.async_trait();
        self.push_str("pub trait ");
        self.push_str(camel.as_str());
        self.push_str(" {\n");
        self.resource_sigs(dir, id);
        self.push_str("}\n");
        if dir == Direction::Import {
            return ;
        }
        self.rep(id, camel.as_str());
    }
}

} // verus!
