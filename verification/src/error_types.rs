//! The generated error types of trappable errors: each carries either
//! the error of the schema or a trap.

use vstd::prelude::*;
use crate::errors::{mapped_type, mapping_type, owner_in_scope};
use crate::interface::{Env, InterfaceGenerator};
use crate::rust::{lifetime_of, RustGenerator, TypeMode};
use crate::opts::TrappableError;
use crate::schema::{Schema, TypeId, TypeOwner};
use crate::text::group_text;

verus! {

broadcast use group_text;

/// The error type named `name` that carries either an error of the type
/// named `abi` or a trap: it is made from a trap or from the error, gives
/// the error back by `downcast` and takes context.
#[verifier::opaque]
pub open spec fn error_type_text(name: Seq<char>, abi: Seq<char>) -> Seq<char> {
    "\n#[derive(Debug)]\npub struct "@ + name
        + " {\ninner: anyhow::Error,\n}\nimpl std::fmt::Display for "@ + name
        + " {\nfn fmt(&self, f: &mut std::fmt::Formatter<'_>) -> std::fmt::Result {\nwrite!(f, \"{}\", self.inner)\n}\n}\nimpl std::error::Error for "@
        + name
        + " {\nfn source(&self) -> Option<&(dyn std::error::Error + 'static)> {\nself.inner.source()\n}\n}\nimpl "@
        + name
        + " {\npub fn trap(inner: anyhow::Error) -> Self {\nSelf { inner }\n}\npub fn downcast(self) -> Result<"@
        + abi
        + ", anyhow::Error> {\nself.inner.downcast()\n}\npub fn downcast_ref(&self) -> Option<&"@
        + abi
        + "> {\nself.inner.downcast_ref()\n}\npub fn context(self, s: impl Into<String>) -> Self {\nSelf { inner: self.inner.context(s.into()) }\n}\n}\nimpl From<"@
        + abi + "> for "@ + name + " {\nfn from(abi: "@ + abi + ") -> "@ + name + " {\n"@ + name
        + " { inner: anyhow::Error::from(abi) }\n}\n}\n\n"@
}

/// The trappable errors of the scope `owner` among the first `n`
/// mappings: for each mapping that stands for a type of the scope, the
/// type and the name of the error type to generate.
pub open spec fn trappable_errors(
    schema: Schema,
    mappings: Seq<TrappableError>,
    owner: TypeOwner,
    n: nat,
) -> Seq<(TypeId, Seq<char>)>
    decreases n,
{
    if n == 0 {
        Seq::empty()
    } else {
        let before = trappable_errors(schema, mappings, owner, (n - 1) as nat);
        match mapped_type(schema, mappings[n - 1], owner) {
            Some(id) => before.push((id, mappings[n - 1].rust_name@)),
            None => before,
        }
    }
}

/// The error types of the first `n` of the trappable errors.
pub open spec fn error_types_text(env: Env, errors: Seq<(TypeId, Seq<char>)>, n: nat) -> Seq<char>
    decreases n,
{
    if n == 0 {
        Seq::empty()
    } else {
        error_types_text(env, errors, (n - 1) as nat) + error_type_text(
            errors[n - 1].1,
            env.cx().param_name(errors[n - 1].0),
        )
    }
}

/// The error types of the trappable errors of the scope `owner`.
pub open spec fn scope_error_types_text(env: Env, owner: TypeOwner) -> Seq<char> {
    let errors = trappable_errors(
        env.schema,
        env.opts.trappable_error_type@,
        owner,
        env.opts.trappable_error_type@.len(),
    );
    error_types_text(env, errors, errors.len())
}

/// Whether the type at `id` can serve as an error behind a generated
/// error type: the representation that the error type wraps carries no
/// lifetime.
pub open spec fn static_safe(env: Env, id: TypeId) -> bool {
    lifetime_of(env.opts.ownership, env.infos[id as int], TypeMode::AllBorrowed("'a")) is None
}

/// Whether every trappable error of the scope `owner` can serve as an
/// error.
pub open spec fn errors_static(env: Env, owner: TypeOwner) -> bool {
    let errors = trappable_errors(
        env.schema,
        env.opts.trappable_error_type@,
        owner,
        env.opts.trappable_error_type@.len(),
    );
    forall|i: int| 0 <= i < errors.len() ==> static_safe(env, (#[trigger] errors[i]).0)
}

/// The types and names that a list of trappable errors holds.
pub open spec fn errors_view(errors: Seq<(TypeId, String)>) -> Seq<(TypeId, Seq<char>)> {
    Seq::new(errors.len(), |i: int| (errors[i].0, errors[i].1@))
}

impl<'a> InterfaceGenerator<'a> {
    /// Appends the error type named `name` for the schema error type
    /// whose representation is named `abi`.
    fn error_type(&mut self, name: &str, abi: &str)
        ensures
            final(self).emitted(old(self), error_type_text(name@, abi@)),
    {
        reveal(error_type_text);
        self.push_str("\n#[derive(Debug)]\npub struct ");
        self.push_str(name);
        self.push_str(" {\ninner: anyhow::Error,\n}\nimpl std::fmt::Display for ");
        self.push_str(name);
        self.push_str(
            " {\nfn fmt(&self, f: &mut std::fmt::Formatter<'_>) -> std::fmt::Result {\nwrite!(f, \"{}\", self.inner)\n}\n}\nimpl std::error::Error for ",
        );
        self.push_str(name);
        self.push_str(
            " {\nfn source(&self) -> Option<&(dyn std::error::Error + 'static)> {\nself.inner.source()\n}\n}\nimpl ",
        );
        self.push_str(name);
        self.push_str(
            " {\npub fn trap(inner: anyhow::Error) -> Self {\nSelf { inner }\n}\npub fn downcast(self) -> Result<",
        );
        self.push_str(abi);
        self.push_str(
            ", anyhow::Error> {\nself.inner.downcast()\n}\npub fn downcast_ref(&self) -> Option<&",
        );
        self.push_str(abi);
        self.push_str(
            "> {\nself.inner.downcast_ref()\n}\npub fn context(self, s: impl Into<String>) -> Self {\nSelf { inner: self.inner.context(s.into()) }\n}\n}\nimpl From<",
        );
        self.push_str(abi);
        self.push_str("> for ");
        self.push_str(name);
        self.push_str(" {\nfn from(abi: ");
        self.push_str(abi);
        self.push_str(") -> ");
        self.push_str(name);
        self.push_str(" {\n");
        self.push_str(name);
        self.push_str(" { inner: anyhow::Error::from(abi) }\n}\n}\n\n");
    }

    /// The trappable errors of the scope `owner`: for each mapping that
    /// stands for a type of the scope, the type and the name of the error
    /// type to generate.
    pub fn trappable_error_types(&self, owner: TypeOwner) -> (r: Vec<(TypeId, String)>)
        requires
            self.env().wf(),
            owner_in_scope(self.env().schema, owner),
        ensures
            errors_view(r@) == trappable_errors(
                self.env().schema,
                self.env().opts.trappable_error_type@,
                owner,
                self.env().opts.trappable_error_type@.len(),
            ),
            forall|i: int|
                0 <= i < r@.len() ==> (#[trigger] r@[i]).0 < self.env().schema.types@.len()
                    && self.env().schema.types@[r@[i].0 as int].name is Some,
    {
        let schema = self.resolve;
        let opts = self.opts;
        let mut errors: Vec<(TypeId, String)> = Vec::new();
        assert(errors_view(errors@) =~= Seq::empty());
        let mut i: usize = 0;
        while i < opts.trappable_error_type.len()
            invariant
                i <= opts.trappable_error_type@.len(),
                schema.wf(),
                owner_in_scope(*schema, owner),
                errors_view(errors@) == trappable_errors(
                    *schema,
                    opts.trappable_error_type@,
                    owner,
                    i as nat,
                ),
                forall|i: int|
                    0 <= i < errors@.len() ==> (#[trigger] errors@[i]).0 < schema.types@.len()
                        && schema.types@[errors@[i].0 as int].name is Some,
            decreases opts.trappable_error_type@.len() - i,
        {
            let mapping = &opts.trappable_error_type[i];
            if let Some(id) = mapping_type(schema, mapping, owner) {
                let ghost before = errors@;
                errors.push((id, mapping.rust_name.clone()));
                assert(errors_view(errors@) =~= errors_view(before).push(
                    (id, mapping.rust_name@),
                ));
            }
            i += 1;
        }
        errors
    }

    /// Decides whether every trappable error of the scope `owner` can
    /// serve as an error.
    pub fn can_trap(&self, owner: TypeOwner) -> (r: bool)
        requires
            self.env().wf(),
            owner_in_scope(self.env().schema, owner),
        ensures
            r == errors_static(self.env(), owner),
    {
        let errors = self.trappable_error_types(owner);
        let ghost views = errors_view(errors@);
        let mut i: usize = 0;
        while i < errors.len()
            invariant
                i <= errors@.len(),
                self.env().wf(),
                views == errors_view(errors@),
                views == trappable_errors(
                    self.env().schema,
                    self.env().opts.trappable_error_type@,
                    owner,
                    self.env().opts.trappable_error_type@.len(),
                ),
                forall|i: int|
                    0 <= i < errors@.len() ==> (#[trigger] errors@[i]).0
                        < self.env().schema.types@.len(),
                forall|j: int| 0 <= j < i ==> static_safe(self.env(), (#[trigger] views[j]).0),
            decreases errors@.len() - i,
        {
            assert(views[i as int] == (errors@[i as int].0, errors@[i as int].1@));
            let info = self.info(errors[i].0);
            if self.lifetime_for(&info, TypeMode::AllBorrowed("'a")).is_some() {
                assert(!static_safe(self.env(), views[i as int].0));
                return false;
            }
            i += 1;
        }
        true
    }

    /// Appends the error types of the trappable errors of the scope
    /// `owner`.
    pub fn generate_trappable_error_types(&mut self, owner: TypeOwner)
        requires
            old(self).env().wf(),
            owner_in_scope(old(self).env().schema, owner),
            errors_static(old(self).env(), owner),
        ensures
            final(self).emitted(old(self), scope_error_types_text(old(self).env(), owner)),
    {
        let errors = self.trappable_error_types(owner);
        let ghost views = errors_view(errors@);
        let ghost env = self.env();
        let ghost start = self.src@;
        let mut i: usize = 0;
        while i < errors.len()
            invariant
                i <= errors@.len(),
                env.wf(),
                views == errors_view(errors@),
                forall|i: int|
                    0 <= i < errors@.len() ==> (#[trigger] errors@[i]).0 < env.schema.types@.len()
                        && env.schema.types@[errors@[i].0 as int].name is Some,
                self.env() == env,
                self.src@ == start + error_types_text(env, views, i as nat),
            decreases errors@.len() - i,
        {
            let wit_type = errors[i].0;
            assert(views[i as int] == (errors@[i as int].0, errors@[i as int].1@));
            let abi_type = self.param_name(wit_type);
            self.error_type(errors[i].1.as_str(), abi_type.as_str());
            i += 1;
        }
    }
}

} // verus!
