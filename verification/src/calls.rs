//! Pieces of text that the wrappers around calls into the guest share.

use vstd::prelude::*;
use vstd::string::StringExecFns;
use crate::interface::{Env, InterfaceGenerator};
use crate::names::{snake_case, snake_case_of};
use crate::resources::{get_resource_from_ty, refs_view, resources_of, ResourceRef};
use crate::rust::{print_ty_, printable, ty_text, RustGenerator, TypeMode};
use crate::schema::{Function, Results, Schema, Type, TypeOwner, WorldKey};
use crate::text::{group_text, numbered, push_numbered};
use crate::typedefs::types_text;

verus! {

broadcast use group_text;

/// The keyword before `fn` of a generated function.
pub open spec fn async_word(env: Env) -> Seq<char> {
    if env.opts.async_ {
        "async"@
    } else {
        Seq::empty()
    }
}

/// The suffix of the wasmtime functions for async calls.
pub open spec fn async_suffix(env: Env) -> Seq<char> {
    if env.opts.async_ {
        "_async"@
    } else {
        Seq::empty()
    }
}

/// The `.await` after an async call.
pub open spec fn await_text(env: Env) -> Seq<char> {
    if env.opts.async_ {
        ".await"@
    } else {
        Seq::empty()
    }
}

/// The types of the first `n` parameters in `mode`, each followed by
/// `sep`.
pub open spec fn param_types_text(
    env: Env,
    params: Seq<(String, Type)>,
    mode: TypeMode,
    sep: Seq<char>,
    n: nat,
) -> Seq<char>
    decreases n,
{
    if n == 0 {
        Seq::empty()
    } else {
        param_types_text(env, params, mode, sep, (n - 1) as nat) + ty_text(
            env.cx(),
            params[n - 1].1,
            mode,
        ) + sep
    }
}

/// The first `n` parameters of a wrapper, from the parameter at `skip`
/// on: each is named `arg` with its number, counted from 0, and has its
/// type borrowed.
pub open spec fn arg_params_text(env: Env, params: Seq<(String, Type)>, skip: nat, n: nat) -> Seq<
    char,
>
    decreases n,
{
    if n == 0 {
        Seq::empty()
    } else {
        arg_params_text(env, params, skip, (n - 1) as nat) + "arg"@ + crate::text::decimal(
            (n - 1) as nat,
        ) + ": "@ + ty_text(env.cx(), params[skip + n - 1].1, TypeMode::AllBorrowed("'_")) + ","@
    }
}

/// Whether the types of the parameters and results of `f` can be spelled.
pub open spec fn fn_printable(env: Env, f: Function) -> bool {
    &&& env.wf()
    &&& env.schema.function_ok(f)
    &&& forall|i: int| 0 <= i < f.params@.len() ==> printable(env.cx(), (#[trigger] f.params@[i]).1)
    &&& forall|i: int|
        0 <= i < f.results.types().len() ==> printable(env.cx(), #[trigger] f.results.types()[i])
}

/// The expression that gets the typed function for `f` from the exports
/// of an instance.
#[verifier::opaque]
pub open spec fn typed_func_text(env: Env, f: Function) -> Seq<char> {
    "*__exports.typed_func::<("@ + param_types_text(
        env,
        f.params@,
        TypeMode::AllBorrowed("'_"),
        ", "@,
        f.params@.len(),
    ) + "), ("@ + types_text(
        env,
        f.results.types(),
        TypeMode::Owned,
        ", "@,
        f.results.types().len(),
    ) + ")>(\""@ + f.name@ + "\")?.func()"@
}

/// The tracing span that a wrapper opens, where the options ask for
/// tracing.
#[verifier::opaque]
pub open spec fn tracing_text(env: Env, what: Seq<char>, module: Seq<char>, function: Seq<char>) -> Seq<
    char,
> {
    if env.opts.tracing {
        "\nlet span = tracing::span!(\ntracing::Level::TRACE,\n\""@ + what + "\",\nmodule = \""@
            + module + "\",\nfunction = \""@ + function + "\",\n);\nlet _enter = span.enter();\n"@
    } else {
        Seq::empty()
    }
}

/// The name of the module that the tracing span of an export names.
pub open spec fn export_module(schema: Schema, ns: Option<WorldKey>) -> Seq<char> {
    match ns {
        Some(key) => schema.world_key_name(key),
        None => "default"@,
    }
}

/// The tuple pattern that binds the `n` results of a call.
pub open spec fn rets_text(n: nat) -> Seq<char> {
    numbered("ret"@, ","@, 0, n)
}

/// The mandatory clean-up after a call of the guest.
#[verifier::opaque]
pub open spec fn post_return_text(env: Env) -> Seq<char> {
    "callee.post_return"@ + async_suffix(env) + "(store.as_context_mut())"@ + await_text(env)
        + "?;\n"@
}

/// The value that a wrapper returns for `n` results: the single result
/// itself, else the tuple of the results.
#[verifier::opaque]
pub open spec fn ok_text(n: nat) -> Seq<char> {
    "Ok("@ + (if n == 1 {
        "ret0"@
    } else {
        "("@ + rets_text(n) + ")"@
    }) + ")\n"@
}

/// The first resource that a use of `ty` refers to.
pub open spec fn first_resource(schema: Schema, ty: Type) -> Option<(Seq<char>, TypeOwner)> {
    let all = resources_of(schema, ty);
    if all.len() > 0 {
        Some(all[0])
    } else {
        None
    }
}

/// The name and owner that an optional resource reference holds.
pub open spec fn opt_ref_view(r: Option<ResourceRef>) -> Option<(Seq<char>, TypeOwner)> {
    match r {
        Some(r) => Some((r.0@, r.1)),
        None => None,
    }
}

/// The first resource that a use of `ty` refers to.
pub fn find_first_resource(schema: &Schema, ty: &Type) -> (r: Option<ResourceRef>)
    requires
        schema.wf(),
        schema.type_ok(*ty),
    ensures
        opt_ref_view(r) == first_resource(*schema, *ty),
{
    let mut all = get_resource_from_ty(schema, ty);
    if all.len() > 0 {
        assert(refs_view(all@)[0] == (all@[0].0@, all@[0].1));
        Some(all.swap_remove(0))
    } else {
        None
    }
}

impl<'a> InterfaceGenerator<'a> {
    /// Appends `async` where the options ask for async functions.
    pub fn push_async_word(&mut self)
        ensures
            final(self).emitted(old(self), async_word(old(self).env())),
    {
        if self.opts.async_ {
            self.push_str("async");
        }
    }

    /// Appends `_async` where the options ask for async functions.
    pub fn push_async_suffix(&mut self)
        ensures
            final(self).emitted(old(self), async_suffix(old(self).env())),
    {
        if self.opts.async_ {
            self.push_str("_async");
        }
    }

    /// Appends `.await` where the options ask for async functions.
    pub fn push_await(&mut self)
        ensures
            final(self).emitted(old(self), await_text(old(self).env())),
    {
        if self.opts.async_ {
            self.push_str(".await");
        }
    }

    /// Spells the types of the parameters in `mode`, each followed by
    /// `sep`.
    pub fn param_types(&self, params: &Vec<(String, Type)>, mode: TypeMode, sep: &str) -> (r: String)
        requires
            self.env().wf(),
            forall|i: int|
                0 <= i < params@.len() ==> printable(self.env().cx(), (#[trigger] params@[i]).1),
        ensures
            r@ == param_types_text(self.env(), params@, mode, sep@, params@.len()),
    {
        let mut out = String::new();
        let mut i: usize = 0;
        while i < params.len()
            invariant
                i <= params@.len(),
                self.env().wf(),
                forall|i: int|
                    0 <= i < params@.len() ==> printable(
                        self.env().cx(),
                        (#[trigger] params@[i]).1,
                    ),
                out@ == param_types_text(self.env(), params@, mode, sep@, i as nat),
            decreases params@.len() - i,
        {
            let s = print_ty_(self, &params[i].1, mode);
            out.append(s.as_str());
            out.append(sep);
            i += 1;
        }
        out
    }

    /// Spells the types of the results in `mode`, each followed by `sep`.
    pub fn result_types(&self, results: &Results, mode: TypeMode, sep: &str) -> (r: String)
        requires
            self.env().wf(),
            forall|i: int|
                0 <= i < results.types().len() ==> printable(
                    self.env().cx(),
                    #[trigger] results.types()[i],
                ),
        ensures
            r@ == types_text(
                self.env(),
                results.types(),
                mode,
                sep@,
                results.types().len(),
            ),
    {
        let mut out = String::new();
        let mut i: usize = 0;
        while i < results.len()
            invariant
                i <= results.types().len(),
                self.env().wf(),
                forall|i: int|
                    0 <= i < results.types().len() ==> printable(
                        self.env().cx(),
                        #[trigger] results.types()[i],
                    ),
                out@ == types_text(self.env(), results.types(), mode, sep@, i as nat),
            decreases results.types().len() - i,
        {
            let ty = results.ty(i);
            let s = print_ty_(self, &ty, mode);
            out.append(s.as_str());
            out.append(sep);
            i += 1;
        }
        out
    }

    /// Appends the parameters of a wrapper from the parameter at `skip`
    /// on.
    pub fn arg_params(&mut self, params: &Vec<(String, Type)>, skip: usize)
        requires
            old(self).env().wf(),
            forall|i: int|
                0 <= i < params@.len() ==> printable(
                    old(self).env().cx(),
                    (#[trigger] params@[i]).1,
                ),
        ensures
            final(self).emitted(
                old(self),
                arg_params_text(
                    old(self).env(),
                    params@,
                    skip as nat,
                    if params@.len() >= skip {
                        (params@.len() - skip) as nat
                    } else {
                        0
                    },
                ),
            ),
    {
        let ghost env = self.env();
        let ghost start = self.src@;
        let mut i: usize = 0;
        while i < params.len() && skip < params.len() - i
            invariant
                env.wf(),
                forall|i: int|
                    0 <= i < params@.len() ==> printable(env.cx(), (#[trigger] params@[i]).1),
                params@.len() >= skip ==> i <= params@.len() - skip,
                params@.len() < skip ==> i == 0,
                self.env() == env,
                self.src@ == start + arg_params_text(env, params@, skip as nat, i as nat),
            decreases params@.len() - i,
        {
            self.push_str("arg");
            self.push_usize(i);
            self.push_str(": ");
            self.print_ty(&params[skip + i].1, TypeMode::AllBorrowed("'_"));
            self.push_str(",");
            i += 1;
        }
    }

    /// Appends `prefix`, a number and `suffix` for each number from
    /// `start` up to, not including, `end`.
    pub fn push_numbered(&mut self, prefix: &str, suffix: &str, start: usize, end: usize)
        requires
            start <= end,
        ensures
            final(self).emitted(
                old(self),
                numbered(prefix@, suffix@, start as nat, (end - start) as nat),
            ),
    {
        push_numbered(&mut self.src, prefix, suffix, start, end);
    }

    /// The name of the field and the getter of the typed function for
    /// `f`.
    pub fn extract_typed_function(&self, f: &Function) -> (r: (String, String))
        requires
            fn_printable(self.env(), *f),
        ensures
            r.0@ == snake_case_of(f.name@),
            r.1@ == typed_func_text(self.env(), *f),
    {
        reveal(typed_func_text);
        let snake = snake_case(f.name.as_str());
        let mut out = String::new();
        out.append("*__exports.typed_func::<(");
        let params = self.param_types(&f.params, TypeMode::AllBorrowed("'_"), ", ");
        out.append(params.as_str());
        out.append("), (");
        let results = self.result_types(&f.results, TypeMode::Owned, ", ");
        out.append(results.as_str());
        out.append(")>(\"");
        out.append(f.name.as_str());
        out.append("\")?.func()");
        (snake, out)
    }

    /// Appends the tracing span of a wrapper, where the options ask for
    /// tracing.
    pub fn tracing_span(&mut self, what: &str, module: &str, function: &str)
        ensures
            final(self).emitted(
                old(self),
                tracing_text(old(self).env(), what@, module@, function@),
            ),
    {
        reveal(tracing_text);
        if self.opts.tracing {
            self.push_str("\nlet span = tracing::span!(\ntracing::Level::TRACE,\n\"");
            self.push_str(what);
            self.push_str("\",\nmodule = \"");
            self.push_str(module);
            self.push_str("\",\nfunction = \"");
            self.push_str(function);
            self.push_str("\",\n);\nlet _enter = span.enter();\n");
        }
    }

    /// Appends the mandatory clean-up after a call of the guest.
    pub fn post_return(&mut self)
        ensures
            final(self).emitted(old(self), post_return_text(old(self).env())),
    {
        reveal(post_return_text);
        self.push_str("callee.post_return");
        self.push_async_suffix();
        self.push_str("(store.as_context_mut())");
        self.push_await();
        self.push_str("?;\n");
    }

    /// Appends the value that a wrapper returns for `n` results.
    pub fn ok_results(&mut self, n: usize)
        ensures
            final(self).emitted(old(self), ok_text(n as nat)),
    {
        reveal(ok_text);
        self.push_str("Ok(");
        if n == 1 {
            self.push_str("ret0");
        } else {
            self.push_str("(");
            self.push_numbered("ret", ",", 0, n);
            self.push_str(")");
        }
        self.push_str(")\n");
    }
}

} // verus!
