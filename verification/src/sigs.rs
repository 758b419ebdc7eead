//! The signatures of the functions that a host implements: the method of
//! the `Host` trait for a freestanding function, and the method of a
//! resource trait for a function of a resource.

use vstd::prelude::*;
use crate::errors::{owner_in_scope, special_case_trappable_error, trappable_error};
use crate::interface::{rustdoc_text, Env, InterfaceGenerator};
use crate::names::{declared_name, rust_ident, strip_resource_prefix, to_rust_ident};
use crate::rust::{opt_printable, opt_ty_text, printable, ty_text, RustGenerator, TypeMode};
use crate::schema::{Function, FunctionKind, Results, Result_, Type, TypeOwner};
use crate::text::{group_text, same};

verus! {

broadcast use group_text;

/// The first `n` of the types in `mode`, separated by `, `.
pub open spec fn joined_text(env: Env, types: Seq<Type>, mode: TypeMode, n: nat) -> Seq<char>
    decreases n,
{
    if n == 0 {
        Seq::empty()
    } else {
        joined_text(env, types, mode, (n - 1) as nat) + (if n > 1 {
            ", "@
        } else {
            Seq::empty()
        }) + ty_text(env.cx(), types[n - 1], mode)
    }
}

/// The type of the results of a function in `mode`: the unit type for no
/// result, the type of a single result, a tuple of several.
pub open spec fn results_text(env: Env, results: Results, mode: TypeMode) -> Seq<char> {
    match results {
        Results::Named(rs) => if rs@.len() == 0 {
            "()"@
        } else if rs@.len() == 1 {
            ty_text(env.cx(), rs@[0].1, mode)
        } else {
            "("@ + joined_text(env, results.types(), mode, rs@.len()) + ")"@
        },
        Results::Anon(ty) => ty_text(env.cx(), ty, mode),
    }
}

/// Whether the signature of `f`, a function in the scope of `owner`, can
/// be spelled: its parameter and result types can, and so can the success
/// type of the `result` that it returns through a trappable error type.
pub open spec fn sig_printable(env: Env, owner: TypeOwner, f: Function) -> bool {
    &&& env.wf()
    &&& env.schema.function_ok(f)
    &&& owner_in_scope(env.schema, owner)
    &&& forall|i: int| 0 <= i < f.params@.len() ==> printable(env.cx(), (#[trigger] f.params@[i]).1)
    &&& forall|i: int|
        0 <= i < f.results.types().len() ==> printable(env.cx(), #[trigger] f.results.types()[i])
    &&& match trappable_error(env.schema, env.opts.trappable_error_type@, owner, f.results) {
        Some((r, _)) => opt_printable(env.cx(), r.ok),
        None => true,
    }
}

/// The word that makes a generated function `async`, where the options ask
/// for it.
pub open spec fn async_text(env: Env) -> Seq<char> {
    if env.opts.async_ {
        "async "@
    } else {
        Seq::empty()
    }
}

/// The first `n` parameters of a method of the `Host` trait.
pub open spec fn host_params_text(env: Env, params: Seq<(String, Type)>, n: nat) -> Seq<char>
    decreases n,
{
    if n == 0 {
        Seq::empty()
    } else {
        host_params_text(env, params, (n - 1) as nat) + rust_ident(params[n - 1].0@) + ": "@
            + ty_text(env.cx(), params[n - 1].1, TypeMode::Owned) + ","@
    }
}

/// The first `n` parameters of a method of a resource trait that a host
/// implements: the parameter that stands for the resource itself is left
/// out.
pub open spec fn resource_params_text(env: Env, params: Seq<(String, Type)>, n: nat) -> Seq<char>
    decreases n,
{
    if n == 0 {
        Seq::empty()
    } else {
        resource_params_text(env, params, (n - 1) as nat) + (if rust_ident(params[n - 1].0@)
            != "self_"@ {
            rust_ident(params[n - 1].0@) + ": "@ + ty_text(
                env.cx(),
                params[n - 1].1,
                TypeMode::Owned,
            ) + ","@
        } else {
            Seq::empty()
        })
    }
}

/// The return type of a method of the `Host` trait: the result with the
/// generated error type where the function has a trappable error, else the
/// results wrapped in `wasmtime::Result`.
#[verifier::opaque]
pub open spec fn host_return_text(env: Env, owner: TypeOwner, f: Function) -> Seq<char> {
    match trappable_error(env.schema, env.opts.trappable_error_type@, owner, f.results) {
        Some((r, i)) => "Result<"@ + opt_ty_text(env.cx(), r.ok, TypeMode::Owned) + ","@
            + env.opts.trappable_error_type@[i].rust_name@ + ">"@,
        None => "wasmtime::Result<"@ + results_text(env, f.results, TypeMode::Owned) + ">"@,
    }
}

/// The method of the `Host` trait for the freestanding function `f`.
#[verifier::opaque]
pub open spec fn host_sig_text(env: Env, owner: TypeOwner, f: Function) -> Seq<char> {
    rustdoc_text(f.docs) + async_text(env) + "fn "@ + rust_ident(f.name@) + "(&mut self, "@
        + host_params_text(env, f.params@, f.params@.len()) + ")"@ + " -> "@ + host_return_text(
        env,
        owner,
        f,
    ) + ";\n"@
}

/// The name from which the identifiers of the function `f` are made: for
/// a static function of a resource the name as it was declared, without
/// the prefix that names the resource; else the schema name.
pub open spec fn call_name(f: Function) -> Seq<char> {
    match f.kind {
        FunctionKind::Static(_) => declared_name(f.name@),
        _ => f.name@,
    }
}

/// The name from which the identifiers of the function `f` are made.
pub fn name_to_call(f: &Function) -> (r: &str)
    ensures
        r@ == call_name(*f),
{
    match f.kind {
        FunctionKind::Static(_) => strip_resource_prefix(f.name.as_str()),
        _ => f.name.as_str(),
    }
}

/// The name of the method of a resource trait for `f`: `new` for the
/// constructor.
pub open spec fn resource_fn_name(f: Function) -> Seq<char> {
    match f.kind {
        FunctionKind::Constructor(_) => "new"@,
        _ => rust_ident(call_name(f)),
    }
}

/// The receiver of the method of a resource trait for `f`: methods and
/// static functions take `&self`.
pub open spec fn receiver_text(f: Function) -> Seq<char> {
    match f.kind {
        FunctionKind::Method(_) => "&self, "@,
        FunctionKind::Static(_) => "&self, "@,
        _ => Seq::empty(),
    }
}

/// The return type of a method of a resource trait: as for the `Host`
/// trait, but a constructor returns `Self`, and without a trappable error
/// the method asks for `Self: Sized`.
#[verifier::opaque]
pub open spec fn resource_return_text(env: Env, owner: TypeOwner, f: Function) -> Seq<char> {
    match trappable_error(env.schema, env.opts.trappable_error_type@, owner, f.results) {
        Some((r, i)) => "Result<"@ + (match r.ok {
            Some(ok) => match f.kind {
                FunctionKind::Constructor(_) => "Self"@,
                _ => ty_text(env.cx(), ok, TypeMode::Owned),
            },
            None => "()"@,
        }) + ","@ + env.opts.trappable_error_type@[i].rust_name@ + ">"@,
        None => "wasmtime::Result<"@ + (match f.kind {
            FunctionKind::Constructor(_) => "Self"@,
            _ => results_text(env, f.results, TypeMode::Owned),
        }) + "> where Self: Sized"@,
    }
}

/// The method of the trait of an imported resource for `f`.
#[verifier::opaque]
pub open spec fn import_resource_sig_text(env: Env, owner: TypeOwner, f: Function) -> Seq<char> {
    rustdoc_text(f.docs) + async_text(env) + "fn "@ + resource_fn_name(f) + "("@ + receiver_text(
        f,
    ) + resource_params_text(env, f.params@, f.params@.len()) + ")"@ + " -> "@
        + resource_return_text(env, owner, f) + ";\n"@
}

/// The method of the trait of an exported resource for `f`: it takes the
/// store, and where it has no receiver the instance, in place of the
/// parameters of `f`.
#[verifier::opaque]
pub open spec fn export_resource_sig_text(env: Env, owner: TypeOwner, f: Function) -> Seq<char> {
    rustdoc_text(f.docs) + async_text(env) + "fn "@ + resource_fn_name(f)
        + "<S: wasmtime::AsContextMut>("@ + receiver_text(f) + "store: S, "@ + (match f.kind {
        FunctionKind::Freestanding => "instance: &wasmtime::component::Instance, "@,
        FunctionKind::Constructor(_) => "instance: &wasmtime::component::Instance, "@,
        _ => Seq::empty(),
    }) + ")"@ + " -> "@ + resource_return_text(env, owner, f) + ";\n"@
}

impl<'a> InterfaceGenerator<'a> {
    /// Spells the type of the results of a function in `mode`.
    pub fn print_result_ty_(&self, results: &Results, mode: TypeMode) -> (r: String)
        requires
            self.env().wf(),
            forall|i: int|
                0 <= i < results.types().len() ==> printable(
                    self.env().cx(),
                    #[trigger] results.types()[i],
                ),
        ensures
            r@ == results_text(self.env(), *results, mode),
    {
        match results {
            Results::Named(rs) => {
                if rs.len() == 0 {
                    "()".to_owned()
                } else if rs.len() == 1 {
                    assert(results.types()[0] == rs@[0].1);
                    crate::rust::print_ty_(self, &rs[0].1, mode)
                } else {
                    let mut out = "(".to_owned();
                    let mut i: usize = 0;
                    while i < rs.len()
                        invariant
                            i <= rs@.len(),
                            *results == Results::Named(*rs),
                            self.env().wf(),
                            forall|i: int|
                                0 <= i < results.types().len() ==> printable(
                                    self.env().cx(),
                                    #[trigger] results.types()[i],
                                ),
                            out@ == "("@ + joined_text(self.env(), results.types(), mode, i as nat),
                        decreases rs@.len() - i,
                    {
                        if i > 0 {
                            vstd::string::StringExecFns::append(&mut out, ", ");
                        }
                        assert(results.types()[i as int] == rs@[i as int].1);
                        let s = crate::rust::print_ty_(self, &rs[i].1, mode);
                        vstd::string::StringExecFns::append(&mut out, s.as_str());
                        i += 1;
                    }
                    vstd::string::StringExecFns::append(&mut out, ")");
                    out
                }
            },
            Results::Anon(ty) => {
                assert(results.types()[0] == *ty);
                crate::rust::print_ty_(self, ty, mode)
            },
        }
    }

    /// Appends the type of the results of a function in `mode`.
    pub fn print_result_ty(&mut self, results: &Results, mode: TypeMode)
        requires
            old(self).env().wf(),
            forall|i: int|
                0 <= i < results.types().len() ==> printable(
                    old(self).env().cx(),
                    #[trigger] results.types()[i],
                ),
        ensures
            final(self).emitted(old(self), results_text(old(self).env(), *results, mode)),
    {
        let s = self.print_result_ty_(results, mode);
        self.push_str(s.as_str());
    }

    /// Decides whether a function with the given results in the scope of
    /// `owner` has a trappable error; gives the `result` that the function
    /// returns and the name of the generated error type.
    pub fn special_case_trappable_error(&self, owner: TypeOwner, results: &Results) -> (r: Option<
        (Result_, String),
    >)
        requires
            self.env().wf(),
            owner_in_scope(self.env().schema, owner),
            forall|i: int|
                0 <= i < results.types().len() ==> self.env().schema.type_ok(
                    #[trigger] results.types()[i],
                ),
        ensures
            match trappable_error(
                self.env().schema,
                self.env().opts.trappable_error_type@,
                owner,
                *results,
            ) {
                Some((res, i)) => r is Some && (r->0).0 == res && (r->0).1@
                    == self.env().opts.trappable_error_type@[i].rust_name@,
                None => r is None,
            },
    {
        match special_case_trappable_error(
            self.resolve,
            &self.opts.trappable_error_type,
            owner,
            results,
        ) {
            Some((res, i)) => Some((res, self.opts.trappable_error_type[i].rust_name.clone())),
            None => None,
        }
    }

    /// Appends `async ` where the options ask for async functions.
    pub fn push_async(&mut self)
        ensures
            final(self).emitted(old(self), async_text(old(self).env())),
    {
        if self.opts.async_ {
            self.push_str("async ");
        }
    }

    /// Appends the return type of a method of the `Host` trait.
    fn host_return(&mut self, owner: TypeOwner, f: &Function)
        requires
            sig_printable(old(self).env(), owner, *f),
        ensures
            final(self).emitted(old(self), host_return_text(old(self).env(), owner, *f)),
    {
        reveal(host_return_text);
        if let Some((r, error_typename)) = self.special_case_trappable_error(owner, &f.results) {
            self.push_str("Result<");
            self.print_optional_ty(r.ok.as_ref(), TypeMode::Owned);
            self.push_str(",");
            self.push_str(error_typename.as_str());
            self.push_str(">");
        } else {
            self.push_str("wasmtime::Result<");
            self.print_result_ty(&f.results, TypeMode::Owned);
            self.push_str(">");
        }
    }

    /// Appends the method of the `Host` trait for the function `f` in the
    /// scope of `owner`.
    pub fn generate_function_trait_sig(&mut self, owner: TypeOwner, f: &Function)
        requires
            sig_printable(old(self).env(), owner, *f),
        ensures
            final(self).emitted(old(self), host_sig_text(old(self).env(), owner, *f)),
    {
        reveal(host_sig_text);
        self.rustdoc(&f.docs);
        self.push_async();
        self.push_str("fn ");
        let name = to_rust_ident(f.name.as_str());
        self.push_str(name.as_str());
        self.push_str("(&mut self, ");
        let ghost env = self.env();
        let ghost start = self.src@;
        let mut i: usize = 0;
        while i < f.params.len()
            invariant
                i <= f.params@.len(),
                sig_printable(env, owner, *f),
                self.env() == env,
                self.src@ == start + host_params_text(env, f.params@, i as nat),
            decreases f.params@.len() - i,
        {
            let name = to_rust_ident(f.params[i].0.as_str());
            self.push_str(name.as_str());
            self.push_str(": ");
            self.print_ty(&f.params[i].1, TypeMode::Owned);
            self.push_str(",");
            i += 1;
        }
        self.push_str(")");
        self.push_str(" -> ");
        self.host_return(owner, f);
        self.push_str(";\n");
    }

    /// Appends the name of the method of a resource trait for `f`.
    fn resource_fn_name(&mut self, f: &Function)
        ensures
            final(self).emitted(old(self), resource_fn_name(*f)),
    {
        match f.kind {
            FunctionKind::Constructor(_) => {
                self.push_str("new");
            },
            _ => {
                let name = to_rust_ident(name_to_call(f));
                self.push_str(name.as_str());
            },
        }
    }

    /// Appends the receiver of the method of a resource trait for `f`.
    fn receiver(&mut self, f: &Function)
        ensures
            final(self).emitted(old(self), receiver_text(*f)),
    {
        match f.kind {
            FunctionKind::Method(_) | FunctionKind::Static(_) => {
                self.push_str("&self, ");
            },
            _ => {},
        }
    }

    /// Appends the return type of a method of a resource trait.
    fn resource_return(&mut self, owner: TypeOwner, f: &Function)
        requires
            sig_printable(old(self).env(), owner, *f),
        ensures
            final(self).emitted(old(self), resource_return_text(old(self).env(), owner, *f)),
    {
        reveal(resource_return_text);
        if let Some((r, error_typename)) = self.special_case_trappable_error(owner, &f.results) {
            self.push_str("Result<");
            if let Some(ok) = r.ok {
                match f.kind {
                    FunctionKind::Constructor(_) => {
                        self.push_str("Self");
                    },
                    _ => {
                        self.print_ty(&ok, TypeMode::Owned);
                    },
                }
            } else {
                self.push_str("()");
            }
            self.push_str(",");
            self.push_str(error_typename.as_str());
            self.push_str(">");
        } else {
            self.push_str("wasmtime::Result<");
            match f.kind {
                FunctionKind::Constructor(_) => {
                    self.push_str("Self");
                },
                _ => {
                    self.print_result_ty(&f.results, TypeMode::Owned);
                },
            }
            self.push_str("> where Self: Sized");
        }
    }

    /// Appends the method of the trait of an imported resource for `f`.
    pub fn generate_guest_import_resource_function_trait_sig(
        &mut self,
        owner: TypeOwner,
        f: &Function,
    )
        requires
            sig_printable(old(self).env(), owner, *f),
        ensures
            final(self).emitted(old(self), import_resource_sig_text(old(self).env(), owner, *f)),
    {
        reveal(import_resource_sig_text);
        self.rustdoc(&f.docs);
        self.push_async();
        self.push_str("fn ");
        self.resource_fn_name(f);
        self.push_str("(");
        self.receiver(f);
        let ghost env = self.env();
        let ghost start = self.src@;
        let mut i: usize = 0;
        while i < f.params.len()
            invariant
                i <= f.params@.len(),
                sig_printable(env, owner, *f),
                self.env() == env,
                self.src@ == start + resource_params_text(env, f.params@, i as nat),
            decreases f.params@.len() - i,
        {
            let name = to_rust_ident(f.params[i].0.as_str());
            if !same(name.as_str(), "self_") {
                self.push_str(name.as_str());
                self.push_str(": ");
                self.print_ty(&f.params[i].1, TypeMode::Owned);
                self.push_str(",");
            }
            i += 1;
        }
        self.push_str(")");
        self.push_str(" -> ");
        self.resource_return(owner, f);
        self.push_str(";\n");
    }

    /// Appends the method of the trait of an exported resource for `f`.
    pub fn generate_guest_export_resource_function_trait_sig(
        &mut self,
        owner: TypeOwner,
        f: &Function,
    )
        requires
            sig_printable(old(self).env(), owner, *f),
        ensures
            final(self).emitted(old(self), export_resource_sig_text(old(self).env(), owner, *f)),
    {
        reveal(export_resource_sig_text);
        self.rustdoc(&f.docs);
        self.push_async();
        self.push_str("fn ");
        self.resource_fn_name(f);
        self.push_str("<S: wasmtime::AsContextMut>(");
        self.receiver(f);
        self.push_str("store: S, ");
        match f.kind {
            FunctionKind::Freestanding | FunctionKind::Constructor(_) => {
                self.push_str("instance: &wasmtime::component::Instance, ");
            },
            _ => {},
        }
        self.push_str(")");
        self.push_str(" -> ");
        self.resource_return(owner, f);
        self.push_str(";\n");
    }
}

} // verus!
