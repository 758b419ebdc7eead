//! The definitions of the types of an interface: for every representation
//! of a type its declaration, its `Debug` and error glue, and the assertion
//! of its size and alignment.

use vstd::prelude::*;
use crate::interface::{assert_text, rustdoc_text, Direction, Env, InterfaceGenerator};
use crate::resource_types::{resource_definable, resource_text};
use crate::names::{
    rust_ident, rust_upper_camel_case, shouty_snake_case, shouty_snake_case_of, to_rust_ident,
    to_rust_upper_camel_case, upper_camel_case, upper_camel_case_of,
};
use crate::rust::{
    generics_text, id_printable, lifetime_of, list_text, opt_printable, opt_ty_text, print_list_,
    print_optional_ty_, print_ty_, print_tyid_, printable, ty_text, tyid_text, RustGenerator,
    TypeMode,
};
use crate::schema::{
    Case, Enum, EnumCase, Field, Flag, Flags, Handle, InterfaceId, Record, Result_, Tuple, Type,
    TypeDefKind, TypeId, Variant,
};
use crate::text::{ends_with, group_text, lemma_ends_with_concat, trim, trimmed_of};

verus! {

broadcast use group_text;

/// The declarations of the first `n` fields of a record in `mode`.
pub open spec fn fields_text(env: Env, fields: Seq<Field>, mode: TypeMode, n: nat) -> Seq<char>
    decreases n,
{
    if n == 0 {
        Seq::empty()
    } else {
        let field = fields[n - 1];
        fields_text(env, fields, mode, (n - 1) as nat) + rustdoc_text(field.docs)
            + "#[component(name = \""@ + field.name@ + "\")]\n"@ + "pub "@ + rust_ident(
            field.name@,
        ) + ": "@ + ty_text(env.cx(), field.ty, mode) + ",\n"@
    }
}

/// The calls that show the first `n` fields of a record in its `Debug`
/// form.
pub open spec fn debug_fields_text(fields: Seq<Field>, n: nat) -> Seq<char>
    decreases n,
{
    if n == 0 {
        Seq::empty()
    } else {
        let field = fields[n - 1];
        debug_fields_text(fields, (n - 1) as nat) + ".field(\""@ + field.name@ + "\", &self."@
            + rust_ident(field.name@) + ")"@
    }
}

/// The header of an impl of the trait at `path` for the representation
/// named `name` with the given lifetime.
#[verifier::opaque]
pub open spec fn impl_head_text(
    lt: Option<&'static str>,
    path: Seq<char>,
    name: Seq<char>,
) -> Seq<char> {
    "impl"@ + generics_text(lt) + path + name + generics_text(lt) + " {\n"@
}

/// The component derives of a record or variant representation: lifting
/// only for a representation without lifetime.
#[verifier::opaque]
pub open spec fn derives_text(lt: Option<&'static str>, component: Seq<char>) -> Seq<char> {
    "#[derive(wasmtime::component::ComponentType)]\n"@ + (if lt is None {
        "#[derive(wasmtime::component::Lift)]\n"@
    } else {
        Seq::empty()
    }) + "#[derive(wasmtime::component::Lower)]\n"@ + "#[component("@ + component + ")]\n"@
}

/// The `Display` and `Error` impls of a record that is an error.
#[verifier::opaque]
pub open spec fn record_error_text(lt: Option<&'static str>, name: Seq<char>) -> Seq<char> {
    impl_head_text(lt, " core::fmt::Display for "@, name)
        + "fn fmt(&self, f: &mut core::fmt::Formatter<'_>) -> core::fmt::Result {\n"@
        + "write!(f, \"{:?}\", self)\n"@ + "}\n"@ + "}\n"@ + "impl std::error::Error for "@ + name
        + "{}\n"@
}

/// The representation of the record at `id` that is named `name` and
/// spelled in `mode`.
#[verifier::opaque]
pub open spec fn record_text(env: Env, id: TypeId, record: Record, name: Seq<char>, mode: TypeMode) -> Seq<
    char,
> {
    let def = env.schema.types@[id as int];
    let info = env.infos[id as int];
    let lt = lifetime_of(env.opts.ownership, info, mode);
    rustdoc_text(def.docs) + derives_text(lt, "record"@) + (if !info.has_list {
        "#[derive(Copy, Clone)]\n"@
    } else {
        "#[derive(Clone)]\n"@
    }) + "pub struct "@ + name + generics_text(lt) + " {\n"@ + fields_text(
        env,
        record.fields@,
        mode,
        record.fields@.len(),
    ) + "}\n"@ + impl_head_text(lt, " core::fmt::Debug for "@, name)
        + "fn fmt(&self, f: &mut core::fmt::Formatter<'_>) -> core::fmt::Result {\n"@
        + "f.debug_struct(\""@ + name + "\")"@ + debug_fields_text(
        record.fields@,
        record.fields@.len(),
    ) + ".finish()\n"@ + "}\n"@ + "}\n"@ + (if info.error {
        record_error_text(lt, name)
    } else {
        Seq::empty()
    }) + assert_text(env.schema, id, name)
}

/// The elements of the first `n` of the types in `mode`, each followed by
/// `sep`.
pub open spec fn types_text(env: Env, types: Seq<Type>, mode: TypeMode, sep: Seq<char>, n: nat) -> Seq<
    char,
>
    decreases n,
{
    if n == 0 {
        Seq::empty()
    } else {
        types_text(env, types, mode, sep, (n - 1) as nat) + ty_text(env.cx(), types[n - 1], mode)
            + sep
    }
}

/// The start of a type alias named `name` with the given lifetime.
#[verifier::opaque]
pub open spec fn alias_head_text(env: Env, id: TypeId, name: Seq<char>, mode: TypeMode) -> Seq<
    char,
> {
    rustdoc_text(env.schema.types@[id as int].docs) + "pub type "@ + name + generics_text(
        lifetime_of(env.opts.ownership, env.infos[id as int], mode),
    )
}

/// The representation of the tuple at `id` that is named `name` and
/// spelled in `mode`.
#[verifier::opaque]
pub open spec fn tuple_text(env: Env, id: TypeId, tuple: Tuple, name: Seq<char>, mode: TypeMode) -> Seq<
    char,
> {
    alias_head_text(env, id, name, mode) + " = ("@ + types_text(
        env,
        tuple.types@,
        mode,
        ","@,
        tuple.types@.len(),
    ) + ");\n"@ + assert_text(env.schema, id, name)
}

/// The representation of the option at `id` that is named `name` and
/// spelled in `mode`.
#[verifier::opaque]
pub open spec fn option_text(env: Env, id: TypeId, payload: Type, name: Seq<char>, mode: TypeMode) -> Seq<
    char,
> {
    alias_head_text(env, id, name, mode) + "= Option<"@ + ty_text(env.cx(), payload, mode)
        + ">;\n"@ + assert_text(env.schema, id, name)
}

/// The representation of the result at `id` that is named `name` and
/// spelled in `mode`.
#[verifier::opaque]
pub open spec fn result_text(env: Env, id: TypeId, result: Result_, name: Seq<char>, mode: TypeMode) -> Seq<
    char,
> {
    alias_head_text(env, id, name, mode) + "= Result<"@ + opt_ty_text(env.cx(), result.ok, mode)
        + ","@ + opt_ty_text(env.cx(), result.err, mode) + ">;\n"@ + assert_text(
        env.schema,
        id,
        name,
    )
}

/// The representation of the list at `id` that is named `name` and spelled
/// in `mode`.
#[verifier::opaque]
pub open spec fn list_alias_text(env: Env, id: TypeId, elem: Type, name: Seq<char>, mode: TypeMode) -> Seq<
    char,
> {
    alias_head_text(env, id, name, mode) + " = "@ + list_text(env.cx(), elem, mode) + ";\n"@
        + assert_text(env.schema, id, name)
}

/// The representation of the handle at `id` that is named `name` and
/// spelled in `mode`: an alias of the resource.
#[verifier::opaque]
pub open spec fn handle_text(env: Env, id: TypeId, handle: Handle, name: Seq<char>, mode: TypeMode) -> Seq<
    char,
> {
    alias_head_text(env, id, name, mode) + " = "@ + tyid_text(env.cx(), handle.target(), mode)
        + ";\n"@ + assert_text(env.schema, id, name)
}

/// The flags type at `id`, declared under the name `name`.
#[verifier::opaque]
pub open spec fn flags_text(env: Env, id: TypeId, flags: Flags, name: Seq<char>) -> Seq<char> {
    let rust_name = rust_upper_camel_case(name);
    rustdoc_text(env.schema.types@[id as int].docs) + "wasmtime::component::flags!(\n"@ + rust_name
        + " {\n"@ + flag_consts_text(flags.flags@, flags.flags@.len()) + "}\n"@ + ");\n\n"@
        + assert_text(env.schema, id, rust_name)
}

/// The constants of the first `n` flags.
pub open spec fn flag_consts_text(flags: Seq<Flag>, n: nat) -> Seq<char>
    decreases n,
{
    if n == 0 {
        Seq::empty()
    } else {
        flag_consts_text(flags, (n - 1) as nat) + "#[component(name=\""@ + flags[n - 1].name@
            + "\")] const "@ + shouty_snake_case_of(flags[n - 1].name@) + ";\n"@
    }
}

/// The representations of the type at `id`, the first `n` of them: each is
/// what the kind of the type makes of its name and mode.
pub open spec fn modes_text(env: Env, id: TypeId, n: nat) -> Seq<char>
    decreases n,
{
    if n == 0 {
        Seq::empty()
    } else {
        let m = env.cx().modes_of(id)[n - 1];
        modes_text(env, id, (n - 1) as nat) + mode_text(env, id, m.0, m.1)
    }
}

/// The representation of the type at `id` that is named `name` and spelled
/// in `mode`, for the kinds of type that have a representation for each
/// mode.
pub open spec fn mode_text(env: Env, id: TypeId, name: Seq<char>, mode: TypeMode) -> Seq<char> {
    match env.schema.types@[id as int].kind {
        TypeDefKind::Record(r) => record_text(env, id, r, name, mode),
        TypeDefKind::Tuple(t) => tuple_text(env, id, t, name, mode),
        TypeDefKind::Option(t) => option_text(env, id, t, name, mode),
        TypeDefKind::Result(r) => result_text(env, id, r, name, mode),
        TypeDefKind::List(t) => list_alias_text(env, id, t, name, mode),
        TypeDefKind::Handle(h) => handle_text(env, id, h, name, mode),
        TypeDefKind::Variant(v) => variant_text(env, id, v, name, mode),
        TypeDefKind::Type(t) => alias_text(env, id, t, name, mode),
        _ => Seq::empty(),
    }
}

/// The representation of the alias at `id` that is named `name` and
/// spelled in `mode`: a type alias, or an import where the target holds a
/// resource.
#[verifier::opaque]
pub open spec fn alias_text(env: Env, id: TypeId, target: Type, name: Seq<char>, mode: TypeMode) -> Seq<
    char,
> {
    if crate::resources::resources_of(env.schema, target).len() == 0 {
        alias_head_text(env, id, name, mode) + " = "@ + ty_text(env.cx(), target, mode) + ";\n"@
            + assert_text(env.schema, id, name)
    } else {
        rustdoc_text(env.schema.types@[id as int].docs) + "use "@ + ty_text(
            env.cx(),
            target,
            mode,
        ) + ";\n"@
    }
}

/// The declarations of the first `n` cases of a variant in `mode`.
pub open spec fn cases_text(env: Env, cases: Seq<Case>, mode: TypeMode, n: nat) -> Seq<char>
    decreases n,
{
    if n == 0 {
        Seq::empty()
    } else {
        let case = cases[n - 1];
        cases_text(env, cases, mode, (n - 1) as nat) + rustdoc_text(case.docs)
            + "#[component(name = \""@ + case.name@ + "\")] "@ + upper_camel_case_of(case.name@)
            + (match case.ty {
            Some(ty) => "("@ + ty_text(env.cx(), ty, mode) + ")"@,
            None => Seq::empty(),
        }) + ",\n"@
    }
}

/// The match arms that show the first `n` cases of the enum named `name`
/// in its `Debug` form; a case is given by its name and by whether it has
/// a payload.
pub open spec fn debug_arms_text(name: Seq<char>, cases: Seq<(Seq<char>, bool)>, n: nat) -> Seq<
    char,
>
    decreases n,
{
    if n == 0 {
        Seq::empty()
    } else {
        let case = cases[n - 1];
        debug_arms_text(name, cases, (n - 1) as nat) + name + "::"@ + case.0 + (if case.1 {
            "(e)"@
        } else {
            Seq::empty()
        }) + " => {\n"@ + "f.debug_tuple(\""@ + name + "::"@ + case.0 + "\")"@ + (if case.1 {
            ".field(e)"@
        } else {
            Seq::empty()
        }) + ".finish()\n"@ + "}\n"@
    }
}

/// The `Debug` impl of the enum named `name` with the given cases.
#[verifier::opaque]
pub open spec fn enum_debug_text(
    lt: Option<&'static str>,
    name: Seq<char>,
    cases: Seq<(Seq<char>, bool)>,
) -> Seq<char> {
    impl_head_text(lt, " core::fmt::Debug for "@, name)
        + "fn fmt(&self, f: &mut core::fmt::Formatter<'_>) -> core::fmt::Result {\n"@
        + "match self {\n"@ + debug_arms_text(name, cases, cases.len()) + "}\n"@ + "}\n"@ + "}\n"@
}

/// The names of the cases of a variant, each with whether the case has a
/// payload.
pub open spec fn variant_cases(cases: Seq<Case>) -> Seq<(Seq<char>, bool)> {
    Seq::new(cases.len(), |i: int| (upper_camel_case_of(cases[i].name@), cases[i].ty is Some))
}

/// The names of the cases of an enumeration; none has a payload.
pub open spec fn enum_cases(cases: Seq<EnumCase>) -> Seq<(Seq<char>, bool)> {
    Seq::new(cases.len(), |i: int| (upper_camel_case_of(cases[i].name@), false))
}

/// The `Display` and `Error` impls of a variant that is an error.
#[verifier::opaque]
pub open spec fn variant_error_text(lt: Option<&'static str>, name: Seq<char>) -> Seq<char> {
    impl_head_text(lt, " core::fmt::Display for "@, name)
        + "fn fmt(&self, f: &mut core::fmt::Formatter<'_>) -> core::fmt::Result {\n"@
        + "write!(f, \"{:?}\", self)"@ + "}\n"@ + "}\n"@ + "\n"@ + "impl"@ + generics_text(lt)
        + " std::error::Error for "@ + name + generics_text(lt) + " {}\n"@
}

/// The representation of the variant at `id` that is named after `name`
/// and spelled in `mode`.
#[verifier::opaque]
pub open spec fn variant_text(env: Env, id: TypeId, variant: Variant, name: Seq<char>, mode: TypeMode) -> Seq<
    char,
> {
    let def = env.schema.types@[id as int];
    let info = env.infos[id as int];
    let lt = lifetime_of(env.opts.ownership, info, mode);
    let name = rust_upper_camel_case(name);
    rustdoc_text(def.docs) + derives_text(lt, "variant"@) + (if !info.has_list {
        "#[derive(Clone, Copy)]\n"@
    } else {
        "#[derive(Clone)]\n"@
    }) + "pub enum "@ + name + generics_text(lt) + "{\n"@ + cases_text(
        env,
        variant.cases@,
        mode,
        variant.cases@.len(),
    ) + "}\n"@ + enum_debug_text(lt, name, variant_cases(variant.cases@)) + (if info.error {
        variant_error_text(lt, name)
    } else {
        Seq::empty()
    }) + assert_text(env.schema, id, name)
}

/// The declarations of the first `n` cases of an enumeration.
pub open spec fn enum_cases_text(cases: Seq<EnumCase>, n: nat) -> Seq<char>
    decreases n,
{
    if n == 0 {
        Seq::empty()
    } else {
        let case = cases[n - 1];
        enum_cases_text(cases, (n - 1) as nat) + rustdoc_text(case.docs)
            + "#[component(name = \""@ + case.name@ + "\")]"@ + upper_camel_case_of(case.name@)
            + ",\n"@
    }
}

/// The match arms that give the schema name of each of the first `n`
/// cases of the enumeration named `name`.
pub open spec fn name_arms_text(name: Seq<char>, cases: Seq<EnumCase>, n: nat) -> Seq<char>
    decreases n,
{
    if n == 0 {
        Seq::empty()
    } else {
        let case = cases[n - 1];
        name_arms_text(name, cases, (n - 1) as nat) + name + "::"@ + upper_camel_case_of(
            case.name@,
        ) + " => \""@ + case.name@ + "\",\n"@
    }
}

/// The match arms that give the trimmed documentation of each of the
/// first `n` cases of the enumeration named `name`.
pub open spec fn message_arms_text(name: Seq<char>, cases: Seq<EnumCase>, n: nat) -> Seq<char>
    decreases n,
{
    if n == 0 {
        Seq::empty()
    } else {
        let case = cases[n - 1];
        message_arms_text(name, cases, (n - 1) as nat) + name + "::"@ + upper_camel_case_of(
            case.name@,
        ) + " => \""@ + (match case.docs.contents {
            Some(contents) => trimmed_of(contents@),
            None => Seq::empty(),
        }) + "\",\n"@
    }
}

/// The accessors and the `Debug`, `Display` and `Error` impls of an
/// enumeration that is an error.
#[verifier::opaque]
pub open spec fn enum_error_text(name: Seq<char>, cases: Seq<EnumCase>) -> Seq<char> {
    "impl "@ + name + "{\n"@ + "pub fn name(&self) -> &'static str {\n"@ + "match self {\n"@
        + name_arms_text(name, cases, cases.len()) + "}\n"@ + "}\n"@
        + "pub fn message(&self) -> &'static str {\n"@ + "match self {\n"@ + message_arms_text(
        name,
        cases,
        cases.len(),
    ) + "}\n"@ + "}\n"@ + "}\n"@ + "impl core::fmt::Debug for "@ + name
        + "{\nfn fmt(&self, f: &mut core::fmt::Formatter<'_>) -> core::fmt::Result {\n"@
        + "f.debug_struct(\""@ + name + "\")\n"@ + ".field(\"code\", &(*self as i32))\n"@
        + ".field(\"name\", &self.name())\n"@ + ".field(\"message\", &self.message())\n"@
        + ".finish()\n"@ + "}\n"@ + "}\n"@ + "impl core::fmt::Display for "@ + name
        + "{\nfn fmt(&self, f: &mut core::fmt::Formatter<'_>) -> core::fmt::Result {\n"@
        + "write!(f, \"{} (error {})\", self.name(), *self as i32)"@ + "}\n"@ + "}\n"@ + "\n"@
        + "impl std::error::Error for "@ + name + "{}\n"@
}

/// The enumeration at `id`, declared under the name `name`.
#[verifier::opaque]
pub open spec fn enum_text(env: Env, id: TypeId, e: Enum, name: Seq<char>) -> Seq<char> {
    let info = env.infos[id as int];
    let name = rust_upper_camel_case(name);
    rustdoc_text(env.schema.types@[id as int].docs)
        + "#[derive(wasmtime::component::ComponentType)]\n"@
        + "#[derive(wasmtime::component::Lift)]\n"@ + "#[derive(wasmtime::component::Lower)]\n"@
        + "#[component(enum)]\n"@ + "#[derive(Clone, Copy, PartialEq, Eq)]\n"@ + "pub enum "@
        + name + " {\n"@ + enum_cases_text(e.cases@, e.cases@.len()) + "}\n"@ + (if info.error {
        enum_error_text(name, e.cases@)
    } else {
        enum_debug_text(None, name, enum_cases(e.cases@))
    }) + assert_text(env.schema, id, name)
}

/// Whether the members of the type at `id` can be spelled, so that the
/// type can be defined.
pub open spec fn members_printable(env: Env, id: TypeId) -> bool {
    match env.schema.types@[id as int].kind {
        TypeDefKind::Record(r) => forall|i: int|
            0 <= i < r.fields@.len() ==> printable(env.cx(), (#[trigger] r.fields@[i]).ty),
        TypeDefKind::Tuple(t) => forall|i: int|
            0 <= i < t.types@.len() ==> printable(env.cx(), #[trigger] t.types@[i]),
        TypeDefKind::Variant(v) => forall|i: int|
            0 <= i < v.cases@.len() ==> opt_printable(env.cx(), (#[trigger] v.cases@[i]).ty),
        TypeDefKind::Option(t) => printable(env.cx(), t),
        TypeDefKind::Result(r) => opt_printable(env.cx(), r.ok) && opt_printable(env.cx(), r.err),
        TypeDefKind::List(t) => printable(env.cx(), t),
        TypeDefKind::Type(t) => printable(env.cx(), t),
        TypeDefKind::Handle(h) => id_printable(env.cx(), h.target()),
        TypeDefKind::Flags(_) => true,
        TypeDefKind::Enum(_) => true,
        TypeDefKind::Resource => true,
    }
}


/// Whether the generator can define the type at `id`: the type is in the
/// schema and named, and its members can be spelled.
pub open spec fn definable(env: Env, id: TypeId) -> bool {
    &&& env.wf()
    &&& id < env.schema.types@.len()
    &&& env.schema.types@[id as int].name is Some
    &&& members_printable(env, id)
}

impl<'a> InterfaceGenerator<'a> {
    /// Appends the spelling of a use of `ty` in `mode`.
    pub fn print_ty(&mut self, ty: &Type, mode: TypeMode)
        requires
            old(self).env().wf(),
            printable(old(self).env().cx(), *ty),
        ensures
            final(self).emitted(old(self), ty_text(old(self).env().cx(), *ty, mode)),
    {
        let s = print_ty_(&*self, ty, mode);
        self.push_str(s.as_str());
    }

    /// Appends the spelling of a use of an optional type in `mode`.
    pub fn print_optional_ty(&mut self, ty: Option<&Type>, mode: TypeMode)
        requires
            old(self).env().wf(),
            ty is Some ==> printable(old(self).env().cx(), *ty->0),
        ensures
            final(self).emitted(
                old(self),
                opt_ty_text(
                    old(self).env().cx(),
                    match ty {
                        Some(t) => Some(*t),
                        None => None,
                    },
                    mode,
                ),
            ),
    {
        let s = print_optional_ty_(&*self, ty, mode);
        self.push_str(s.as_str());
    }

    /// Appends the spelling of a use of the type at `id` in `mode`.
    pub fn print_tyid(&mut self, id: TypeId, mode: TypeMode)
        requires
            old(self).env().wf(),
            id_printable(old(self).env().cx(), id),
        ensures
            final(self).emitted(old(self), tyid_text(old(self).env().cx(), id, mode)),
    {
        let s = print_tyid_(&*self, id, mode);
        self.push_str(s.as_str());
    }

    /// Appends the spelling of a list of `ty` in `mode`.
    pub fn print_list(&mut self, ty: &Type, mode: TypeMode)
        requires
            old(self).env().wf(),
            printable(old(self).env().cx(), *ty),
        ensures
            final(self).emitted(old(self), list_text(old(self).env().cx(), *ty, mode)),
    {
        let s = print_list_(&*self, ty, mode);
        self.push_str(s.as_str());
    }

    /// Appends the generics of a representation with the given lifetime.
    pub fn print_generics(&mut self, lifetime: Option<&'static str>)
        ensures
            final(self).emitted(old(self), generics_text(lifetime)),
    {
        if let Some(generics) = self.print_generics_(lifetime) {
            self.push_str(generics.as_str());
        }
    }

    /// Appends the header of an impl of the trait at `path` for the
    /// representation named `name`.
    fn impl_head(&mut self, lt: Option<&'static str>, path: &str, name: &str)
        ensures
            final(self).emitted(old(self), impl_head_text(lt, path@, name@)),
    {
        reveal(impl_head_text);
        self.push_str("impl");
        self.print_generics(lt);
        self.push_str(path);
        self.push_str(name);
        self.print_generics(lt);
        self.push_str(" {\n");
    }

    /// Appends the component derives of a record or variant
    /// representation.
    fn derives(&mut self, lt: Option<&'static str>, component: &str)
        ensures
            final(self).emitted(old(self), derives_text(lt, component@)),
    {
        reveal(derives_text);
        self.push_str("#[derive(wasmtime::component::ComponentType)]\n");
        if lt.is_none() {
            self.push_str("#[derive(wasmtime::component::Lift)]\n");
        }
        self.push_str("#[derive(wasmtime::component::Lower)]\n");
        self.push_str("#[component(");
        self.push_str(component);
        self.push_str(")]\n");
    }

    /// Appends the declarations of the fields of a record.
    fn record_fields(&mut self, record: &Record, mode: TypeMode)
        requires
            old(self).env().wf(),
            forall|i: int|
                0 <= i < record.fields@.len() ==> printable(
                    old(self).env().cx(),
                    (#[trigger] record.fields@[i]).ty,
                ),
        ensures
            final(self).emitted(
                old(self),
                fields_text(old(self).env(), record.fields@, mode, record.fields@.len()),
            ),
    {
        let ghost env = self.env();
        let ghost start = self.src@;
        let mut i: usize = 0;
        while i < record.fields.len()
            invariant
                i <= record.fields@.len(),
                env.wf(),
                forall|i: int|
                    0 <= i < record.fields@.len() ==> printable(
                        env.cx(),
                        (#[trigger] record.fields@[i]).ty,
                    ),
                self.env() == env,
                self.src@ == start + fields_text(env, record.fields@, mode, i as nat),
            decreases record.fields@.len() - i,
        {
            let field = &record.fields[i];
            self.rustdoc(&field.docs);
            self.push_str("#[component(name = \"");
            self.push_str(field.name.as_str());
            self.push_str("\")]\n");
            self.push_str("pub ");
            let ident = to_rust_ident(field.name.as_str());
            self.push_str(ident.as_str());
            self.push_str(": ");
            self.print_ty(&field.ty, mode);
            self.push_str(",\n");
            i += 1;
        }
    }

    /// Appends the calls that show the fields of a record in its `Debug`
    /// form.
    fn record_debug_fields(&mut self, record: &Record)
        ensures
            final(self).emitted(
                old(self),
                debug_fields_text(record.fields@, record.fields@.len()),
            ),
    {
        let ghost env = self.env();
        let ghost start = self.src@;
        let mut i: usize = 0;
        while i < record.fields.len()
            invariant
                i <= record.fields@.len(),
                self.env() == env,
                self.src@ == start + debug_fields_text(record.fields@, i as nat),
            decreases record.fields@.len() - i,
        {
            let field = &record.fields[i];
            self.push_str(".field(\"");
            self.push_str(field.name.as_str());
            self.push_str("\", &self.");
            let ident = to_rust_ident(field.name.as_str());
            self.push_str(ident.as_str());
            self.push_str(")");
            i += 1;
        }
    }

    /// Appends the `Display` and `Error` impls of a record that is an
    /// error.
    fn record_error(&mut self, lt: Option<&'static str>, name: &str)
        ensures
            final(self).emitted(old(self), record_error_text(lt, name@)),
    {
        reveal(record_error_text);
        self.impl_head(lt, " core::fmt::Display for ", name);
        self.push_str("fn fmt(&self, f: &mut core::fmt::Formatter<'_>) -> core::fmt::Result {\n");
        self.push_str("write!(f, \"{:?}\", self)\n");
        self.push_str("}\n");
        self.push_str("}\n");
        self.push_str("impl std::error::Error for ");
        self.push_str(name);
        self.push_str("{}\n");
    }

    /// Appends the representation of the record at `id` that is named
    /// `name` and spelled in `mode`.
    fn record_mode(&mut self, id: TypeId, record: &Record, name: &str, mode: TypeMode)
        requires
            definable(old(self).env(), id),
            old(self).env().schema.types@[id as int].kind == TypeDefKind::Record(*record),
        ensures
            final(self).emitted(old(self), record_text(old(self).env(), id, *record, name@, mode)),
    {
        reveal(record_text);
        let schema = self.resolve;
        let info = self.info(id);
        let lt = self.lifetime_for(&info, mode);
        self.rustdoc(&schema.types[id].docs);
        self.derives(lt, "record");
        if !info.has_list {
            self.push_str("#[derive(Copy, Clone)]\n");
        } else {
            self.push_str("#[derive(Clone)]\n");
        }
        self.push_str("pub struct ");
        self.push_str(name);
        self.print_generics(lt);
        self.push_str(" {\n");
        self.record_fields(record, mode);
        self.push_str("}\n");
        self.impl_head(lt, " core::fmt::Debug for ", name);
        self.push_str("fn fmt(&self, f: &mut core::fmt::Formatter<'_>) -> core::fmt::Result {\n");
        self.push_str("f.debug_struct(\"");
        self.push_str(name);
        self.push_str("\")");
        self.record_debug_fields(record);
        self.push_str(".finish()\n");
        self.push_str("}\n");
        self.push_str("}\n");
        if info.error {
            self.record_error(lt, name);
        }
        self.assert_type(id, name);
    }

    /// Appends the start of a type alias named `name`.
    fn alias_head(&mut self, id: TypeId, name: &str, mode: TypeMode)
        requires
            old(self).env().wf(),
            id < old(self).env().schema.types@.len(),
        ensures
            final(self).emitted(old(self), alias_head_text(old(self).env(), id, name@, mode)),
    {
        reveal(alias_head_text);
        let schema = self.resolve;
        let info = self.info(id);
        let lt = self.lifetime_for(&info, mode);
        self.rustdoc(&schema.types[id].docs);
        self.push_str("pub type ");
        self.push_str(name);
        self.print_generics(lt);
    }

    /// Appends the spellings of `types` in `mode`, each followed by `sep`.
    pub fn print_types(&mut self, types: &Vec<Type>, mode: TypeMode, sep: &str)
        requires
            old(self).env().wf(),
            forall|i: int|
                0 <= i < types@.len() ==> printable(old(self).env().cx(), #[trigger] types@[i]),
        ensures
            final(self).emitted(
                old(self),
                types_text(old(self).env(), types@, mode, sep@, types@.len()),
            ),
    {
        let ghost env = self.env();
        let ghost start = self.src@;
        let mut i: usize = 0;
        while i < types.len()
            invariant
                i <= types@.len(),
                env.wf(),
                forall|i: int| 0 <= i < types@.len() ==> printable(env.cx(), #[trigger] types@[i]),
                self.env() == env,
                self.src@ == start + types_text(env, types@, mode, sep@, i as nat),
            decreases types@.len() - i,
        {
            self.print_ty(&types[i], mode);
            self.push_str(sep);
            i += 1;
        }
    }

    /// Appends the representation of the tuple at `id` that is named
    /// `name` and spelled in `mode`.
    fn tuple_mode(&mut self, id: TypeId, tuple: &Tuple, name: &str, mode: TypeMode)
        requires
            definable(old(self).env(), id),
            old(self).env().schema.types@[id as int].kind == TypeDefKind::Tuple(*tuple),
        ensures
            final(self).emitted(old(self), tuple_text(old(self).env(), id, *tuple, name@, mode)),
    {
        reveal(tuple_text);
        assert(self.env().schema.types@[id as int].kind->Tuple_0 == *tuple);
        self.alias_head(id, name, mode);
        self.push_str(" = (");
        self.print_types(&tuple.types, mode, ",");
        self.push_str(");\n");
        self.assert_type(id, name);
    }

    /// Appends the representation of the option at `id` that is named
    /// `name` and spelled in `mode`.
    fn option_mode(&mut self, id: TypeId, payload: &Type, name: &str, mode: TypeMode)
        requires
            definable(old(self).env(), id),
            old(self).env().schema.types@[id as int].kind == TypeDefKind::Option(*payload),
        ensures
            final(self).emitted(old(self), option_text(old(self).env(), id, *payload, name@, mode)),
    {
        reveal(option_text);
        self.alias_head(id, name, mode);
        self.push_str("= Option<");
        self.print_ty(payload, mode);
        self.push_str(">;\n");
        self.assert_type(id, name);
    }

    /// Appends the representation of the result at `id` that is named
    /// `name` and spelled in `mode`.
    fn result_mode(&mut self, id: TypeId, result: &Result_, name: &str, mode: TypeMode)
        requires
            definable(old(self).env(), id),
            old(self).env().schema.types@[id as int].kind == TypeDefKind::Result(*result),
        ensures
            final(self).emitted(old(self), result_text(old(self).env(), id, *result, name@, mode)),
    {
        reveal(result_text);
        self.alias_head(id, name, mode);
        self.push_str("= Result<");
        self.print_optional_ty(result.ok.as_ref(), mode);
        self.push_str(",");
        self.print_optional_ty(result.err.as_ref(), mode);
        self.push_str(">;\n");
        self.assert_type(id, name);
    }

    /// Appends the representation of the list at `id` that is named `name`
    /// and spelled in `mode`.
    fn list_mode(&mut self, id: TypeId, elem: &Type, name: &str, mode: TypeMode)
        requires
            definable(old(self).env(), id),
            old(self).env().schema.types@[id as int].kind == TypeDefKind::List(*elem),
        ensures
            final(self).emitted(
                old(self),
                list_alias_text(old(self).env(), id, *elem, name@, mode),
            ),
    {
        reveal(list_alias_text);
        self.alias_head(id, name, mode);
        self.push_str(" = ");
        self.print_list(elem, mode);
        self.push_str(";\n");
        self.assert_type(id, name);
    }

    /// Appends the representation of the handle at `id` that is named
    /// `name` and spelled in `mode`.
    fn handle_mode(&mut self, id: TypeId, handle: &Handle, name: &str, mode: TypeMode)
        requires
            definable(old(self).env(), id),
            old(self).env().schema.types@[id as int].kind == TypeDefKind::Handle(*handle),
        ensures
            final(self).emitted(old(self), handle_text(old(self).env(), id, *handle, name@, mode)),
    {
        reveal(handle_text);
        self.alias_head(id, name, mode);
        self.push_str(" = ");
        self.print_tyid(handle.resource(), mode);
        self.push_str(";\n");
        self.assert_type(id, name);
    }

    /// Appends the representation of the alias at `id` that is named
    /// `name` and spelled in `mode`.
    fn alias_mode(&mut self, id: TypeId, target: &Type, name: &str, mode: TypeMode)
        requires
            definable(old(self).env(), id),
            old(self).env().schema.types@[id as int].kind == TypeDefKind::Type(*target),
        ensures
            final(self).emitted(old(self), alias_text(old(self).env(), id, *target, name@, mode)),
    {
        reveal(alias_text);
        let schema = self.resolve;
        assert(schema.typedef_ok(id as int));
        let resource = crate::resources::get_resource_from_ty(schema, target);
        if resource.len() == 0 {
            self.alias_head(id, name, mode);
            self.push_str(" = ");
            self.print_ty(target, mode);
            self.push_str(";\n");
            self.assert_type(id, name);
        } else {
            self.rustdoc(&schema.types[id].docs);
            self.push_str("use ");
            self.print_ty(target, mode);
            self.push_str(";\n");
        }
    }

    /// Appends the declarations of the cases of a variant.
    fn variant_cases(&mut self, variant: &Variant, mode: TypeMode)
        requires
            old(self).env().wf(),
            forall|i: int|
                0 <= i < variant.cases@.len() ==> opt_printable(
                    old(self).env().cx(),
                    (#[trigger] variant.cases@[i]).ty,
                ),
        ensures
            final(self).emitted(
                old(self),
                cases_text(old(self).env(), variant.cases@, mode, variant.cases@.len()),
            ),
    {
        let ghost env = self.env();
        let ghost start = self.src@;
        let mut i: usize = 0;
        while i < variant.cases.len()
            invariant
                i <= variant.cases@.len(),
                env.wf(),
                forall|i: int|
                    0 <= i < variant.cases@.len() ==> opt_printable(
                        env.cx(),
                        (#[trigger] variant.cases@[i]).ty,
                    ),
                self.env() == env,
                self.src@ == start + cases_text(env, variant.cases@, mode, i as nat),
            decreases variant.cases@.len() - i,
        {
            let case = &variant.cases[i];
            assert(opt_printable(env.cx(), case.ty));
            self.rustdoc(&case.docs);
            self.push_str("#[component(name = \"");
            self.push_str(case.name.as_str());
            self.push_str("\")] ");
            let case_name = upper_camel_case(case.name.as_str());
            self.push_str(case_name.as_str());
            if let Some(ty) = &case.ty {
                self.push_str("(");
                self.print_ty(ty, mode);
                self.push_str(")");
            }
            self.push_str(",\n");
            i += 1;
        }
    }

    /// Appends the `Debug` impl of the enum named `name`; a case is given
    /// by its name and by whether it has a payload.
    pub fn print_rust_enum_debug(
        &mut self,
        id: TypeId,
        mode: TypeMode,
        name: &str,
        cases: &Vec<(String, bool)>,
    )
        requires
            old(self).env().wf(),
            id < old(self).env().schema.types@.len(),
        ensures
            final(self).emitted(
                old(self),
                enum_debug_text(
                    lifetime_of(
                        old(self).env().opts.ownership,
                        old(self).env().infos[id as int],
                        mode,
                    ),
                    name@,
                    case_views(cases@),
                ),
            ),
    {
        reveal(enum_debug_text);
        let info = self.info(id);
        let lt = self.lifetime_for(&info, mode);
        self.impl_head(lt, " core::fmt::Debug for ", name);
        self.push_str("fn fmt(&self, f: &mut core::fmt::Formatter<'_>) -> core::fmt::Result {\n");
        self.push_str("match self {\n");
        let ghost env = self.env();
        let ghost start = self.src@;
        let ghost views = case_views(cases@);
        let mut i: usize = 0;
        while i < cases.len()
            invariant
                i <= cases@.len(),
                views == case_views(cases@),
                self.env() == env,
                self.src@ == start + debug_arms_text(name@, views, i as nat),
            decreases cases@.len() - i,
        {
            let case = &cases[i];
            assert(views[i as int] == (case.0@, case.1));
            self.push_str(name);
            self.push_str("::");
            self.push_str(case.0.as_str());
            if case.1 {
                self.push_str("(e)");
            }
            self.push_str(" => {\n");
            self.push_str("f.debug_tuple(\"");
            self.push_str(name);
            self.push_str("::");
            self.push_str(case.0.as_str());
            self.push_str("\")");
            if case.1 {
                self.push_str(".field(e)");
            }
            self.push_str(".finish()\n");
            self.push_str("}\n");
            i += 1;
        }
        self.push_str("}\n");
        self.push_str("}\n");
        self.push_str("}\n");
    }

    /// Appends the `Display` and `Error` impls of a variant that is an
    /// error.
    fn variant_error(&mut self, lt: Option<&'static str>, name: &str)
        ensures
            final(self).emitted(old(self), variant_error_text(lt, name@)),
    {
        reveal(variant_error_text);
        self.impl_head(lt, " core::fmt::Display for ", name);
        self.push_str("fn fmt(&self, f: &mut core::fmt::Formatter<'_>) -> core::fmt::Result {\n");
        self.push_str("write!(f, \"{:?}\", self)");
        self.push_str("}\n");
        self.push_str("}\n");
        self.push_str("\n");
        self.push_str("impl");
        self.print_generics(lt);
        self.push_str(" std::error::Error for ");
        self.push_str(name);
        self.print_generics(lt);
        self.push_str(" {}\n");
    }

    /// Appends the representation of the variant at `id` that is named
    /// after `name` and spelled in `mode`.
    fn variant_mode(&mut self, id: TypeId, variant: &Variant, name: &str, mode: TypeMode)
        requires
            definable(old(self).env(), id),
            old(self).env().schema.types@[id as int].kind == TypeDefKind::Variant(*variant),
        ensures
            final(self).emitted(
                old(self),
                variant_text(old(self).env(), id, *variant, name@, mode),
            ),
    {
        reveal(variant_text);
        let schema = self.resolve;
        let info = self.info(id);
        let name = to_rust_upper_camel_case(name);
        let name = name.as_str();
        self.rustdoc(&schema.types[id].docs);
        let lt = self.lifetime_for(&info, mode);
        self.derives(lt, "variant");
        if !info.has_list {
            self.push_str("#[derive(Clone, Copy)]\n");
        } else {
            self.push_str("#[derive(Clone)]\n");
        }
        self.push_str("pub enum ");
        self.push_str(name);
        self.print_generics(lt);
        self.push_str("{\n");
        self.variant_cases(variant, mode);
        self.push_str("}\n");
        let cases = variant_case_names(variant);
        self.print_rust_enum_debug(id, mode, name, &cases);
        if info.error {
            self.variant_error(lt, name);
        }
        self.assert_type(id, name);
    }
}

/// The names and payload marks that a list of cases holds.
pub open spec fn case_views(cases: Seq<(String, bool)>) -> Seq<(Seq<char>, bool)> {
    Seq::new(cases.len(), |i: int| (cases[i].0@, cases[i].1))
}

/// The names of the cases of a variant, each with whether the case has a
/// payload.
fn variant_case_names(variant: &Variant) -> (r: Vec<(String, bool)>)
    ensures
        case_views(r@) == variant_cases(variant.cases@),
{
    let mut names: Vec<(String, bool)> = Vec::new();
    let mut i: usize = 0;
    while i < variant.cases.len()
        invariant
            i <= variant.cases@.len(),
            names@.len() == i,
            forall|j: int|
                0 <= j < i ==> (#[trigger] names@[j]).0@ == upper_camel_case_of(
                    variant.cases@[j].name@,
                ) && names@[j].1 == (variant.cases@[j].ty is Some),
        decreases variant.cases@.len() - i,
    {
        let case = &variant.cases[i];
        names.push((upper_camel_case(case.name.as_str()), case.ty.is_some()));
        i += 1;
    }
    assert(case_views(names@) =~= variant_cases(variant.cases@));
    names
}

/// The names of the cases of an enumeration.
fn enum_case_names(e: &Enum) -> (r: Vec<(String, bool)>)
    ensures
        case_views(r@) == enum_cases(e.cases@),
{
    let mut names: Vec<(String, bool)> = Vec::new();
    let mut i: usize = 0;
    while i < e.cases.len()
        invariant
            i <= e.cases@.len(),
            names@.len() == i,
            forall|j: int|
                0 <= j < i ==> (#[trigger] names@[j]).0@ == upper_camel_case_of(
                    e.cases@[j].name@,
                ) && !names@[j].1,
        decreases e.cases@.len() - i,
    {
        names.push((upper_camel_case(e.cases[i].name.as_str()), false));
        i += 1;
    }
    assert(case_views(names@) =~= enum_cases(e.cases@));
    names
}


impl<'a> InterfaceGenerator<'a> {
    /// Appends every representation of the record at `id`.
    pub fn type_record(&mut self, id: TypeId, record: &Record)
        requires
            definable(old(self).env(), id),
            old(self).env().schema.types@[id as int].kind == TypeDefKind::Record(*record),
        ensures
            final(self).emitted(
                old(self),
                modes_text(old(self).env(), id, old(self).env().cx().modes_of(id).len()),
            ),
    {
        let ghost env = self.env();
        let ghost start = self.src@;
        let modes = self.modes_of(id);
        let mut k: usize = 0;
        while k < modes.len()
            invariant
                k <= modes@.len(),
                definable(env, id),
                env.schema.types@[id as int].kind == TypeDefKind::Record(*record),
                modes@.len() == env.cx().modes_of(id).len(),
                forall|i: int|
                    0 <= i < modes@.len() ==> (#[trigger] modes@[i]).0@ == env.cx().modes_of(id)[i].0
                        && modes@[i].1 == env.cx().modes_of(id)[i].1,
                self.env() == env,
                self.src@ == start + modes_text(env, id, k as nat),
            decreases modes@.len() - k,
        {
            self.record_mode(id, record, modes[k].0.as_str(), modes[k].1);
            k += 1;
        }
    }

    /// Appends every representation of the tuple at `id`.
    pub fn type_tuple(&mut self, id: TypeId, tuple: &Tuple)
        requires
            definable(old(self).env(), id),
            old(self).env().schema.types@[id as int].kind == TypeDefKind::Tuple(*tuple),
        ensures
            final(self).emitted(
                old(self),
                modes_text(old(self).env(), id, old(self).env().cx().modes_of(id).len()),
            ),
    {
        let ghost env = self.env();
        let ghost start = self.src@;
        let modes = self.modes_of(id);
        let mut k: usize = 0;
        while k < modes.len()
            invariant
                k <= modes@.len(),
                definable(env, id),
                env.schema.types@[id as int].kind == TypeDefKind::Tuple(*tuple),
                modes@.len() == env.cx().modes_of(id).len(),
                forall|i: int|
                    0 <= i < modes@.len() ==> (#[trigger] modes@[i]).0@ == env.cx().modes_of(id)[i].0
                        && modes@[i].1 == env.cx().modes_of(id)[i].1,
                self.env() == env,
                self.src@ == start + modes_text(env, id, k as nat),
            decreases modes@.len() - k,
        {
            self.tuple_mode(id, tuple, modes[k].0.as_str(), modes[k].1);
            k += 1;
        }
    }

    /// Appends every representation of the variant at `id`: for each an
    /// enum with a case for each case of the variant, its `Debug` impl,
    /// the error glue where the variant is an error, and the assertion of
    /// its layout.
    pub fn print_rust_enum(&mut self, id: TypeId, variant: &Variant)
        requires
            definable(old(self).env(), id),
            old(self).env().schema.types@[id as int].kind == TypeDefKind::Variant(*variant),
        ensures
            final(self).emitted(
                old(self),
                modes_text(old(self).env(), id, old(self).env().cx().modes_of(id).len()),
            ),
    {
        let ghost env = self.env();
        let ghost start = self.src@;
        let modes = self.modes_of(id);
        let mut k: usize = 0;
        while k < modes.len()
            invariant
                k <= modes@.len(),
                definable(env, id),
                env.schema.types@[id as int].kind == TypeDefKind::Variant(*variant),
                modes@.len() == env.cx().modes_of(id).len(),
                forall|i: int|
                    0 <= i < modes@.len() ==> (#[trigger] modes@[i]).0@ == env.cx().modes_of(id)[i].0
                        && modes@[i].1 == env.cx().modes_of(id)[i].1,
                self.env() == env,
                self.src@ == start + modes_text(env, id, k as nat),
            decreases modes@.len() - k,
        {
            self.variant_mode(id, variant, modes[k].0.as_str(), modes[k].1);
            k += 1;
        }
    }

    /// Appends every representation of the option at `id`.
    pub fn type_option(&mut self, id: TypeId, payload: &Type)
        requires
            definable(old(self).env(), id),
            old(self).env().schema.types@[id as int].kind == TypeDefKind::Option(*payload),
        ensures
            final(self).emitted(
                old(self),
                modes_text(old(self).env(), id, old(self).env().cx().modes_of(id).len()),
            ),
    {
        let ghost env = self.env();
        let ghost start = self.src@;
        let modes = self.modes_of(id);
        let mut k: usize = 0;
        while k < modes.len()
            invariant
                k <= modes@.len(),
                definable(env, id),
                env.schema.types@[id as int].kind == TypeDefKind::Option(*payload),
                modes@.len() == env.cx().modes_of(id).len(),
                forall|i: int|
                    0 <= i < modes@.len() ==> (#[trigger] modes@[i]).0@ == env.cx().modes_of(id)[i].0
                        && modes@[i].1 == env.cx().modes_of(id)[i].1,
                self.env() == env,
                self.src@ == start + modes_text(env, id, k as nat),
            decreases modes@.len() - k,
        {
            self.option_mode(id, payload, modes[k].0.as_str(), modes[k].1);
            k += 1;
        }
    }

    /// Appends every representation of the result at `id`.
    pub fn type_result(&mut self, id: TypeId, result: &Result_)
        requires
            definable(old(self).env(), id),
            old(self).env().schema.types@[id as int].kind == TypeDefKind::Result(*result),
        ensures
            final(self).emitted(
                old(self),
                modes_text(old(self).env(), id, old(self).env().cx().modes_of(id).len()),
            ),
    {
        let ghost env = self.env();
        let ghost start = self.src@;
        let modes = self.modes_of(id);
        let mut k: usize = 0;
        while k < modes.len()
            invariant
                k <= modes@.len(),
                definable(env, id),
                env.schema.types@[id as int].kind == TypeDefKind::Result(*result),
                modes@.len() == env.cx().modes_of(id).len(),
                forall|i: int|
                    0 <= i < modes@.len() ==> (#[trigger] modes@[i]).0@ == env.cx().modes_of(id)[i].0
                        && modes@[i].1 == env.cx().modes_of(id)[i].1,
                self.env() == env,
                self.src@ == start + modes_text(env, id, k as nat),
            decreases modes@.len() - k,
        {
            self.result_mode(id, result, modes[k].0.as_str(), modes[k].1);
            k += 1;
        }
    }

    /// Appends every representation of the alias at `id`.
    pub fn type_alias(&mut self, id: TypeId, ty: &Type)
        requires
            definable(old(self).env(), id),
            old(self).env().schema.types@[id as int].kind == TypeDefKind::Type(*ty),
        ensures
            final(self).emitted(
                old(self),
                modes_text(old(self).env(), id, old(self).env().cx().modes_of(id).len()),
            ),
    {
        let ghost env = self.env();
        let ghost start = self.src@;
        let modes = self.modes_of(id);
        let mut k: usize = 0;
        while k < modes.len()
            invariant
                k <= modes@.len(),
                definable(env, id),
                env.schema.types@[id as int].kind == TypeDefKind::Type(*ty),
                modes@.len() == env.cx().modes_of(id).len(),
                forall|i: int|
                    0 <= i < modes@.len() ==> (#[trigger] modes@[i]).0@ == env.cx().modes_of(id)[i].0
                        && modes@[i].1 == env.cx().modes_of(id)[i].1,
                self.env() == env,
                self.src@ == start + modes_text(env, id, k as nat),
            decreases modes@.len() - k,
        {
            self.alias_mode(id, ty, modes[k].0.as_str(), modes[k].1);
            k += 1;
        }
    }

    /// Appends every representation of the list at `id`.
    pub fn type_list(&mut self, id: TypeId, ty: &Type)
        requires
            definable(old(self).env(), id),
            old(self).env().schema.types@[id as int].kind == TypeDefKind::List(*ty),
        ensures
            final(self).emitted(
                old(self),
                modes_text(old(self).env(), id, old(self).env().cx().modes_of(id).len()),
            ),
    {
        let ghost env = self.env();
        let ghost start = self.src@;
        let modes = self.modes_of(id);
        let mut k: usize = 0;
        while k < modes.len()
            invariant
                k <= modes@.len(),
                definable(env, id),
                env.schema.types@[id as int].kind == TypeDefKind::List(*ty),
                modes@.len() == env.cx().modes_of(id).len(),
                forall|i: int|
                    0 <= i < modes@.len() ==> (#[trigger] modes@[i]).0@ == env.cx().modes_of(id)[i].0
                        && modes@[i].1 == env.cx().modes_of(id)[i].1,
                self.env() == env,
                self.src@ == start + modes_text(env, id, k as nat),
            decreases modes@.len() - k,
        {
            self.list_mode(id, ty, modes[k].0.as_str(), modes[k].1);
            k += 1;
        }
    }

    /// Appends every representation of the handle at `id`.
    pub fn type_handle(&mut self, id: TypeId, h: &Handle)
        requires
            definable(old(self).env(), id),
            old(self).env().schema.types@[id as int].kind == TypeDefKind::Handle(*h),
        ensures
            final(self).emitted(
                old(self),
                modes_text(old(self).env(), id, old(self).env().cx().modes_of(id).len()),
            ),
    {
        let ghost env = self.env();
        let ghost start = self.src@;
        let modes = self.modes_of(id);
        let mut k: usize = 0;
        while k < modes.len()
            invariant
                k <= modes@.len(),
                definable(env, id),
                env.schema.types@[id as int].kind == TypeDefKind::Handle(*h),
                modes@.len() == env.cx().modes_of(id).len(),
                forall|i: int|
                    0 <= i < modes@.len() ==> (#[trigger] modes@[i]).0@ == env.cx().modes_of(id)[i].0
                        && modes@[i].1 == env.cx().modes_of(id)[i].1,
                self.env() == env,
                self.src@ == start + modes_text(env, id, k as nat),
            decreases modes@.len() - k,
        {
            self.handle_mode(id, h, modes[k].0.as_str(), modes[k].1);
            k += 1;
        }
    }

    /// Appends every representation of the variant at `id`.
    pub fn type_variant(&mut self, id: TypeId, variant: &Variant)
        requires
            definable(old(self).env(), id),
            old(self).env().schema.types@[id as int].kind == TypeDefKind::Variant(*variant),
        ensures
            final(self).emitted(
                old(self),
                modes_text(old(self).env(), id, old(self).env().cx().modes_of(id).len()),
            ),
    {
        self.print_rust_enum(id, variant);
    }

    /// Appends the definition of the flags type at `id` under the name
    /// `name`.
    pub fn type_flags(&mut self, id: TypeId, name: &str, flags: &Flags)
        requires
            definable(old(self).env(), id),
        ensures
            final(self).emitted(old(self), flags_text(old(self).env(), id, *flags, name@)),
    {
        reveal(flags_text);
        let schema = self.resolve;
        self.rustdoc(&schema.types[id].docs);
        let rust_name = to_rust_upper_camel_case(name);
        self.push_str("wasmtime::component::flags!(\n");
        self.push_str(rust_name.as_str());
        self.push_str(" {\n");
        let ghost env = self.env();
        let ghost start = self.src@;
        let mut i: usize = 0;
        while i < flags.flags.len()
            invariant
                i <= flags.flags@.len(),
                self.env() == env,
                self.src@ == start + flag_consts_text(flags.flags@, i as nat),
            decreases flags.flags@.len() - i,
        {
            let flag = &flags.flags[i];
            self.push_str("#[component(name=\"");
            self.push_str(flag.name.as_str());
            self.push_str("\")] const ");
            let shouty = shouty_snake_case(flag.name.as_str());
            self.push_str(shouty.as_str());
            self.push_str(";\n");
            i += 1;
        }
        self.push_str("}\n");
        self.push_str(");\n\n");
        self.assert_type(id, rust_name.as_str());
    }

    /// Appends the declarations of the cases of an enumeration.
    fn enum_case_decls(&mut self, e: &Enum)
        ensures
            final(self).emitted(old(self), enum_cases_text(e.cases@, e.cases@.len())),
    {
        let ghost env = self.env();
        let ghost start = self.src@;
        let mut i: usize = 0;
        while i < e.cases.len()
            invariant
                i <= e.cases@.len(),
                self.env() == env,
                self.src@ == start + enum_cases_text(e.cases@, i as nat),
            decreases e.cases@.len() - i,
        {
            let case = &e.cases[i];
            self.rustdoc(&case.docs);
            self.push_str("#[component(name = \"");
            self.push_str(case.name.as_str());
            self.push_str("\")]");
            let camel = upper_camel_case(case.name.as_str());
            self.push_str(camel.as_str());
            self.push_str(",\n");
            i += 1;
        }
    }

    /// Appends the match arms that give the schema name of each case.
    fn enum_name_arms(&mut self, name: &str, e: &Enum)
        ensures
            final(self).emitted(old(self), name_arms_text(name@, e.cases@, e.cases@.len())),
    {
        let ghost env = self.env();
        let ghost start = self.src@;
        let mut i: usize = 0;
        while i < e.cases.len()
            invariant
                i <= e.cases@.len(),
                self.env() == env,
                self.src@ == start + name_arms_text(name@, e.cases@, i as nat),
            decreases e.cases@.len() - i,
        {
            let case = &e.cases[i];
            self.push_str(name);
            self.push_str("::");
            let camel = upper_camel_case(case.name.as_str());
            self.push_str(camel.as_str());
            self.push_str(" => \"");
            self.push_str(case.name.as_str());
            self.push_str("\",\n");
            i += 1;
        }
    }

    /// Appends the match arms that give the documentation of each case.
    fn enum_message_arms(&mut self, name: &str, e: &Enum)
        ensures
            final(self).emitted(old(self), message_arms_text(name@, e.cases@, e.cases@.len())),
    {
        let ghost env = self.env();
        let ghost start = self.src@;
        let mut i: usize = 0;
        while i < e.cases.len()
            invariant
                i <= e.cases@.len(),
                self.env() == env,
                self.src@ == start + message_arms_text(name@, e.cases@, i as nat),
            decreases e.cases@.len() - i,
        {
            let case = &e.cases[i];
            self.push_str(name);
            self.push_str("::");
            let camel = upper_camel_case(case.name.as_str());
            self.push_str(camel.as_str());
            self.push_str(" => \"");
            if let Some(contents) = &case.docs.contents {
                self.push_str(trim(contents.as_str()));
            }
            self.push_str("\",\n");
            i += 1;
        }
    }

    /// Appends the accessors and impls of an enumeration that is an error.
    fn enum_error(&mut self, name: &str, e: &Enum)
        ensures
            final(self).emitted(old(self), enum_error_text(name@, e.cases@)),
    {
        reveal(enum_error_text);
        self.push_str("impl ");
        self.push_str(name);
        self.push_str("{\n");
        self.push_str("pub fn name(&self) -> &'static str {\n");
        self.push_str("match self {\n");
        self.enum_name_arms(name, e);
        self.push_str("}\n");
        self.push_str("}\n");
        self.push_str("pub fn message(&self) -> &'static str {\n");
        self.push_str("match self {\n");
        self.enum_message_arms(name, e);
        self.push_str("}\n");
        self.push_str("}\n");
        self.push_str("}\n");
        self.push_str("impl core::fmt::Debug for ");
        self.push_str(name);
        self.push_str(
            "{\nfn fmt(&self, f: &mut core::fmt::Formatter<'_>) -> core::fmt::Result {\n",
        );
        self.push_str("f.debug_struct(\"");
        self.push_str(name);
        self.push_str("\")\n");
        self.push_str(".field(\"code\", &(*self as i32))\n");
        self.push_str(".field(\"name\", &self.name())\n");
        self.push_str(".field(\"message\", &self.message())\n");
        self.push_str(".finish()\n");
        self.push_str("}\n");
        self.push_str("}\n");
        self.push_str("impl core::fmt::Display for ");
        self.push_str(name);
        self.push_str(
            "{\nfn fmt(&self, f: &mut core::fmt::Formatter<'_>) -> core::fmt::Result {\n",
        );
        self.push_str("write!(f, \"{} (error {})\", self.name(), *self as i32)");
        self.push_str("}\n");
        self.push_str("}\n");
        self.push_str("\n");
        self.push_str("impl std::error::Error for ");
        self.push_str(name);
        self.push_str("{}\n");
    }

    /// Appends the definition of the enumeration at `id` under the name
    /// `name`.
    pub fn type_enum(&mut self, id: TypeId, name: &str, e: &Enum)
        requires
            definable(old(self).env(), id),
        ensures
            final(self).emitted(old(self), enum_text(old(self).env(), id, *e, name@)),
    {
        reveal(enum_text);
        let schema = self.resolve;
        let info = self.info(id);
        let name = to_rust_upper_camel_case(name);
        let name = name.as_str();
        self.rustdoc(&schema.types[id].docs);
        self.push_str("#[derive(wasmtime::component::ComponentType)]\n");
        self.push_str("#[derive(wasmtime::component::Lift)]\n");
        self.push_str("#[derive(wasmtime::component::Lower)]\n");
        self.push_str("#[component(enum)]\n");
        self.push_str("#[derive(Clone, Copy, PartialEq, Eq)]\n");
        self.push_str("pub enum ");
        self.push_str(name);
        self.push_str(" {\n");
        self.enum_case_decls(e);
        self.push_str("}\n");
        if info.error {
            self.enum_error(name, e);
        } else {
            let cases = enum_case_names(e);
            self.print_rust_enum_debug(id, TypeMode::Owned, name, &cases);
        }
        self.assert_type(id, name);
    }
}


/// The definition of the type at `id`, which its interface or world
/// exports under the name `name`: a resource gets its trait and wrapper,
/// flags and an enumeration get one definition, and any other kind of
/// type one definition for each of its representations.
pub open spec fn type_text(env: Env, dir: Direction, name: Seq<char>, id: TypeId) -> Seq<char> {
    match env.schema.types@[id as int].kind {
        TypeDefKind::Flags(flags) => flags_text(env, id, flags, name),
        TypeDefKind::Enum(e) => enum_text(env, id, e, name),
        TypeDefKind::Resource => resource_text(env, dir, id, name),
        _ => modes_text(env, id, env.cx().modes_of(id).len()),
    }
}

/// Whether the type at `id` can be defined for the direction `dir`.
pub open spec fn type_definable(env: Env, dir: Direction, id: TypeId) -> bool {
    &&& definable(env, id)
    &&& env.schema.types@[id as int].kind is Resource ==> resource_definable(env, dir, id)
}

/// The definitions of the first `n` types that the interface at `id`
/// exports.
pub open spec fn types_defs_text(env: Env, dir: Direction, id: InterfaceId, n: nat) -> Seq<char>
    decreases n,
{
    if n == 0 {
        Seq::empty()
    } else {
        let entry = env.schema.interfaces@[id as int].types@[n - 1];
        types_defs_text(env, dir, id, (n - 1) as nat) + type_text(env, dir, entry.0@, entry.1)
    }
}

/// Whether every type that the interface at `id` exports can be defined
/// for the direction `dir`.
pub open spec fn types_definable(env: Env, dir: Direction, id: InterfaceId) -> bool {
    &&& env.wf()
    &&& id < env.schema.interfaces@.len()
    &&& forall|i: int|
        0 <= i < env.schema.interfaces@[id as int].types@.len() ==> type_definable(
            env,
            dir,
            (#[trigger] env.schema.interfaces@[id as int].types@[i]).1,
        )
}

impl<'a> InterfaceGenerator<'a> {
    /// Appends the definition of the type at `id` under the name `name`.
    pub fn define_type(&mut self, dir: Direction, name: &str, id: TypeId)
        requires
            type_definable(old(self).env(), dir, id),
        ensures
            final(self).emitted(old(self), type_text(old(self).env(), dir, name@, id)),
    {
        let schema = self.resolve;
        match &schema.types[id].kind {
            TypeDefKind::Record(record) => self.type_record(id, record),
            TypeDefKind::Flags(flags) => self.type_flags(id, name, flags),
            TypeDefKind::Tuple(tuple) => self.type_tuple(id, tuple),
            TypeDefKind::Enum(e) => self.type_enum(id, name, e),
            TypeDefKind::Variant(variant) => self.type_variant(id, variant),
            TypeDefKind::Option(t) => self.type_option(id, t),
            TypeDefKind::Result(r) => self.type_result(id, r),
            TypeDefKind::List(t) => self.type_list(id, t),
            TypeDefKind::Type(t) => self.type_alias(id, t),
            TypeDefKind::Handle(h) => self.type_handle(id, h),
            TypeDefKind::Resource => self.type_resource(dir, id, name),
        }
    }

    /// Appends the definitions of the types that the interface at `id`
    /// exports.
    pub fn types(&mut self, dir: Direction, id: InterfaceId)
        requires
            types_definable(old(self).env(), dir, id),
        ensures
            final(self).emitted(
                old(self),
                types_defs_text(
                    old(self).env(),
                    dir,
                    id,
                    old(self).env().schema.interfaces@[id as int].types@.len(),
                ),
            ),
    {
        let schema = self.resolve;
        let iface = &schema.interfaces[id];
        let ghost env = self.env();
        let ghost start = self.src@;
        let mut i: usize = 0;
        while i < iface.types.len()
            invariant
                i <= iface.types@.len(),
                types_definable(env, dir, id),
                *iface == env.schema.interfaces@[id as int],
                self.env() == env,
                self.src@ == start + types_defs_text(env, dir, id, i as nat),
            decreases iface.types@.len() - i,
        {
            self.define_type(dir, iface.types[i].0.as_str(), iface.types[i].1);
            i += 1;
        }
    }
}


/// The name under which a representation named `name` of the type at `id`
/// is declared and asserted: a variant is declared under the
/// `UpperCamelCase` form of the name of its representation.
pub open spec fn asserted_name(env: Env, id: TypeId, name: Seq<char>) -> Seq<char> {
    match env.schema.types@[id as int].kind {
        TypeDefKind::Variant(_) => rust_upper_camel_case(name),
        _ => name,
    }
}

/// Every representation that is generated for a structural type ends with
/// the constant that asserts, when the generated code is compiled, that
/// the representation has the size and the alignment that the schema gives
/// the type.  (An alias of a type that holds a resource is an import and
/// has no layout of its own.)
pub proof fn law_every_representation_asserts_its_layout(
    env: Env,
    id: TypeId,
    name: Seq<char>,
    mode: TypeMode,
)
    requires
        match env.schema.types@[id as int].kind {
            TypeDefKind::Record(_) => true,
            TypeDefKind::Tuple(_) => true,
            TypeDefKind::Variant(_) => true,
            TypeDefKind::Option(_) => true,
            TypeDefKind::Result(_) => true,
            TypeDefKind::List(_) => true,
            TypeDefKind::Handle(_) => true,
            TypeDefKind::Type(t) => crate::resources::resources_of(env.schema, t).len() == 0,
            _ => false,
        },
    ensures
        ends_with(
            mode_text(env, id, name, mode),
            assert_text(env.schema, id, asserted_name(env, id, name)),
        ),
{
    reveal(record_text);
    reveal(tuple_text);
    reveal(variant_text);
    reveal(option_text);
    reveal(result_text);
    reveal(list_alias_text);
    reveal(handle_text);
    reveal(alias_text);
    let text = mode_text(env, id, name, mode);
    let tail = assert_text(env.schema, id, asserted_name(env, id, name));
    assert(text.len() >= tail.len() && text =~= text.subrange(0, text.len() - tail.len()) + tail);
    lemma_ends_with_concat(text.subrange(0, text.len() - tail.len()), tail);
}

/// The definition of a flags type or of an enumeration ends with the
/// constant that asserts its size and alignment.
pub proof fn law_flags_and_enums_assert_their_layout(
    env: Env,
    dir: Direction,
    name: Seq<char>,
    id: TypeId,
)
    requires
        env.schema.types@[id as int].kind is Flags || env.schema.types@[id as int].kind is Enum,
    ensures
        ends_with(
            type_text(env, dir, name, id),
            assert_text(env.schema, id, rust_upper_camel_case(name)),
        ),
{
    reveal(flags_text);
    reveal(enum_text);
    let text = type_text(env, dir, name, id);
    let tail = assert_text(env.schema, id, rust_upper_camel_case(name));
    assert(text.len() >= tail.len() && text =~= text.subrange(0, text.len() - tail.len()) + tail);
    lemma_ends_with_concat(text.subrange(0, text.len() - tail.len()), tail);
}

} // verus!
