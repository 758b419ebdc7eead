//! Names, modes and Rust spellings of schema types.
//!
//! The mode resolver decides under which names and in which modes a type
//! definition is generated, and whether a representation carries a lifetime
//! parameter.  The type printer spells a use of a type in a given mode.

use vstd::prelude::*;
use vstd::string::StringExecFns;
use crate::names::{upper_camel_case, upper_camel_case_of};
use crate::opts::Ownership;
use crate::schema::{Handle, InterfaceId, Schema, Type, TypeDefKind, TypeId, TypeOwner};
use crate::text::{group_text, lemma_concat_cancel_right, opt_text, same};
use crate::types::TypeInfo;

verus! {

broadcast use group_text;

/// The mode in which a type is spelled.
#[derive(Debug, Copy, Clone, PartialEq)]
pub enum TypeMode {
    /// The value is owned.
    Owned,
    /// The value is borrowed for the given lifetime.
    AllBorrowed(&'static str),
}

/// Whether a type gets two definitions: it holds a list, is used both
/// borrowed and owned, and the policy asks for duplicates.
pub open spec fn two_names(policy: Ownership, info: TypeInfo) -> bool {
    &&& info.has_list
    &&& info.borrowed
    &&& info.owned
    &&& policy == (Ownership::Borrowing { duplicate_if_necessary: true })
}

/// The lifetime parameter that the representation of a type carries in
/// `mode`, if it carries one.
pub open spec fn lifetime_of(policy: Ownership, info: TypeInfo, mode: TypeMode) -> Option<
    &'static str,
> {
    match mode {
        TypeMode::Owned => None,
        TypeMode::AllBorrowed(lt) => if !(policy is Owning) && info.has_list && (two_names(
            policy,
            info,
        ) || (info.borrowed && !info.owned)) {
            Some(lt)
        } else {
            None
        },
    }
}

/// The name of the borrowed representation of a type whose
/// `UpperCamelCase` name is `camel`.
pub open spec fn param_name_of(policy: Ownership, info: TypeInfo, camel: Seq<char>) -> Seq<char> {
    if two_names(policy, info) {
        camel + "Param"@
    } else {
        camel
    }
}

/// The name of the owned representation of a type whose `UpperCamelCase`
/// name is `camel`.
pub open spec fn result_name_of(policy: Ownership, info: TypeInfo, camel: Seq<char>) -> Seq<
    char,
> {
    if two_names(policy, info) {
        camel + "Result"@
    } else {
        camel
    }
}

/// The mode of the first representation of a used type: owned, unless the
/// type is used only borrowed and the policy is a borrowing one.
pub open spec fn first_mode(policy: Ownership, info: TypeInfo) -> TypeMode {
    if info.owned || !info.borrowed || policy is Owning {
        TypeMode::Owned
    } else {
        TypeMode::AllBorrowed("'a")
    }
}

/// The representations that are generated for a type whose
/// `UpperCamelCase` name is `camel`: none for an unused type, else one, or
/// two where [`two_names`] holds.
pub open spec fn modes(policy: Ownership, info: TypeInfo, camel: Seq<char>) -> Seq<
    (Seq<char>, TypeMode),
> {
    if !info.owned && !info.borrowed {
        Seq::empty()
    } else if two_names(policy, info) {
        seq![
            (result_name_of(policy, info, camel), first_mode(policy, info)),
            (param_name_of(policy, info, camel), TypeMode::AllBorrowed("'a")),
        ]
    } else {
        seq![(result_name_of(policy, info, camel), first_mode(policy, info))]
    }
}

/// The generic parameters of a representation with the given lifetime.
pub open spec fn generics_text(lifetime: Option<&'static str>) -> Seq<char> {
    match lifetime {
        Some(lt) => "<"@ + lt@ + ","@ + ">"@,
        None => Seq::empty(),
    }
}

/// What a generator knows while it spells types: the schema, the analysis
/// of its types, the ownership policy, and the module path under which each
/// named interface is reached from the module being generated (`None` for
/// that module's own interface).
pub struct Context {
    pub schema: Schema,
    pub infos: Seq<TypeInfo>,
    pub policy: Ownership,
    pub paths: Map<InterfaceId, Option<Seq<char>>>,
}

impl Context {
    /// The schema is well formed and every type has its analysis.
    pub open spec fn wf(self) -> bool {
        &&& self.schema.wf()
        &&& self.infos.len() == self.schema.types@.len()
    }

    /// The `UpperCamelCase` name of a named type.
    pub open spec fn camel(self, id: TypeId) -> Seq<char> {
        upper_camel_case_of(self.schema.types@[id as int].name->0@)
    }

    /// The name of the borrowed representation of a named type.
    pub open spec fn param_name(self, id: TypeId) -> Seq<char> {
        param_name_of(self.policy, self.infos[id as int], self.camel(id))
    }

    /// The name of the owned representation of a named type.
    pub open spec fn result_name(self, id: TypeId) -> Seq<char> {
        result_name_of(self.policy, self.infos[id as int], self.camel(id))
    }

    /// The representations generated for a named type.
    pub open spec fn modes_of(self, id: TypeId) -> Seq<(Seq<char>, TypeMode)> {
        modes(self.policy, self.infos[id as int], self.camel(id))
    }

    /// The lifetime of the representation of a type in `mode`.
    pub open spec fn lifetime(self, id: TypeId, mode: TypeMode) -> Option<&'static str> {
        lifetime_of(self.policy, self.infos[id as int], mode)
    }
}

/// The `&` that starts a borrow for lifetime `lt`; the anonymous lifetime
/// is left out.
pub open spec fn borrow_text(lt: Seq<char>) -> Seq<char> {
    if lt != "'_"@ {
        "&"@ + lt + " "@
    } else {
        "&"@
    }
}

/// Whether a use of a named type of this kind takes the generics of its
/// representation: every kind but an alias of a primitive other than
/// `string`.
pub open spec fn needs_generics(schema: Schema, id: TypeId) -> bool
    decreases id,
    when schema.typedef_ok(id as int)
{
    match schema.types@[id as int].kind {
        TypeDefKind::Type(Type::Id(t)) => needs_generics(schema, t),
        TypeDefKind::Type(Type::String) => true,
        TypeDefKind::Type(_) => false,
        _ => true,
    }
}

/// Whether a use of `ty` can be spelled: a type without a name must be a
/// list, an option, a result, a tuple, a handle or an alias of what can be
/// spelled, and the interface that owns a named type must have a path.
pub open spec fn printable(cx: Context, ty: Type) -> bool
    decreases
            (match ty {
                Type::Id(id) => id + 1,
                _ => 0,
            }),
            0nat,
            0nat,
{
    match ty {
        Type::Id(id) => id_printable(cx, id),
        _ => true,
    }
}

/// Whether a use of an optional type can be spelled.
pub open spec fn opt_printable(cx: Context, ty: Option<Type>) -> bool
    decreases
            (match ty {
                Some(Type::Id(id)) => id + 1,
                _ => 0,
            }),
            0nat,
            1nat,
{
    match ty {
        Some(ty) => printable(cx, ty),
        None => true,
    }
}

/// Whether a use of the type at `id` can be spelled.
pub open spec fn id_printable(cx: Context, id: TypeId) -> bool
    decreases id, 1nat, 0nat,
{
    let def = cx.schema.types@[id as int];
    &&& id < cx.schema.types@.len()
    &&& cx.schema.typedef_ok(id as int)
    &&& if def.name is Some {
        match def.owner {
            TypeOwner::Interface(i) => cx.paths.contains_key(i),
            _ => true,
        }
    } else {
        match def.kind {
            TypeDefKind::List(t) => printable(cx, t),
            TypeDefKind::Option(t) => printable(cx, t),
            TypeDefKind::Result(r) => opt_printable(cx, r.ok) && opt_printable(cx, r.err),
            TypeDefKind::Tuple(t) => forall|i: int|
                0 <= i < t.types@.len() ==> printable(cx, #[trigger] t.types@[i]),
            TypeDefKind::Handle(_) => true,
            TypeDefKind::Type(t) => printable(cx, t),
            _ => false,
        }
    }
}

/// The Rust spelling of a use of `ty` in `mode`.
pub open spec fn ty_text(cx: Context, ty: Type, mode: TypeMode) -> Seq<char>
    decreases
            (match ty {
                Type::Id(id) => id + 1,
                _ => 0,
            }),
            0nat,
            0nat,
{
    match ty {
        Type::Id(id) => tyid_text(cx, id, mode),
        Type::Bool => "bool"@,
        Type::U8 => "u8"@,
        Type::U16 => "u16"@,
        Type::U32 => "u32"@,
        Type::U64 => "u64"@,
        Type::S8 => "i8"@,
        Type::S16 => "i16"@,
        Type::S32 => "i32"@,
        Type::S64 => "i64"@,
        Type::Float32 => "f32"@,
        Type::Float64 => "f64"@,
        Type::Char => "char"@,
        Type::String => match mode {
            TypeMode::AllBorrowed(lt) => borrow_text(lt@) + "str"@,
            TypeMode::Owned => "String"@,
        },
    }
}

/// The Rust spelling of a use of an optional type: the unit type where
/// there is none.
pub open spec fn opt_ty_text(cx: Context, ty: Option<Type>, mode: TypeMode) -> Seq<char>
    decreases
            (match ty {
                Some(Type::Id(id)) => id + 1,
                _ => 0,
            }),
            0nat,
            1nat,
{
    match ty {
        Some(ty) => ty_text(cx, ty, mode),
        None => "()"@,
    }
}

/// The Rust spelling of a list of `ty` in `mode`: a slice where borrowed, a
/// vector where owned.  The elements are owned in either mode.
pub open spec fn list_text(cx: Context, ty: Type, mode: TypeMode) -> Seq<char>
    decreases
            (match ty {
                Type::Id(id) => id + 1,
                _ => 0,
            }),
            0nat,
            1nat,
{
    match mode {
        TypeMode::AllBorrowed(lt) => borrow_text(lt@) + "["@ + ty_text(cx, ty, TypeMode::Owned)
            + "]"@,
        TypeMode::Owned => "Vec<"@ + ty_text(cx, ty, TypeMode::Owned) + ">"@,
    }
}

/// The spelling of the first `n` elements of the tuple at `id`, each
/// followed by a comma.
pub open spec fn tuple_elems_text(cx: Context, id: TypeId, mode: TypeMode, n: nat) -> Seq<char>
    decreases id, 0nat, n,
    when cx.schema.typedef_ok(id as int)
{
    match cx.schema.types@[id as int].kind {
        TypeDefKind::Tuple(t) => if 0 < n <= t.types@.len() {
            tuple_elems_text(cx, id, mode, (n - 1) as nat) + ty_text(cx, t.types@[n - 1], mode)
                + ","@
        } else {
            Seq::empty()
        },
        _ => Seq::empty(),
    }
}

/// The spelling of a use of the named type at `id` in `mode`: a `&` where a
/// type that holds a list is borrowed without a lifetime of its own, the
/// path to the interface that owns the type, the name of the
/// representation, and its generics.
pub open spec fn named_text(cx: Context, id: TypeId, mode: TypeMode) -> Seq<char> {
    let def = cx.schema.types@[id as int];
    let info = cx.infos[id as int];
    let lt = cx.lifetime(id, mode);
    let borrow = match mode {
        TypeMode::AllBorrowed(l) => if info.has_list && lt is None {
            borrow_text(l@)
        } else {
            Seq::empty()
        },
        TypeMode::Owned => Seq::empty(),
    };
    let name = if lt is Some {
        cx.param_name(id)
    } else {
        cx.result_name(id)
    };
    let path = match def.owner {
        TypeOwner::Interface(i) => match cx.paths[i] {
            Some(p) => p + "::"@,
            None => Seq::empty(),
        },
        _ => Seq::empty(),
    };
    let generics = if info.has_list && needs_generics(cx.schema, id) {
        generics_text(lt)
    } else {
        Seq::empty()
    };
    borrow + path + name + generics
}

/// The Rust spelling of a use of the type at `id` in `mode`: a named type
/// by its name, a type without a name by its structure.
pub open spec fn tyid_text(cx: Context, id: TypeId, mode: TypeMode) -> Seq<char>
    decreases id, 1nat, 0nat,
    when cx.schema.typedef_ok(id as int)
{
    let def = cx.schema.types@[id as int];
    if def.name is Some {
        named_text(cx, id, mode)
    } else {
        match def.kind {
            TypeDefKind::List(t) => list_text(cx, t, mode),
            TypeDefKind::Option(t) => "Option<"@ + ty_text(cx, t, mode) + ">"@,
            TypeDefKind::Result(r) => "Result<"@ + opt_ty_text(cx, r.ok, mode) + ","@
                + opt_ty_text(cx, r.err, mode) + ">"@,
            TypeDefKind::Tuple(t) => "("@ + tuple_elems_text(cx, id, mode, t.types@.len()) + ")"@,
            TypeDefKind::Handle(_) => "wasmtime::component::ResourceAny"@,
            TypeDefKind::Type(t) => ty_text(cx, t, mode),
            _ => Seq::empty(),
        }
    }
}

/// A generator of Rust text that knows a schema and the analysis of its
/// types.
pub trait RustGenerator<'a> {
    /// What the generator knows of the schema.
    spec fn context(&self) -> Context;

    /// The text generated so far.
    spec fn text(&self) -> Seq<char>;

    /// The schema.
    fn resolve(&self) -> (r: &'a Schema)
        ensures
            *r == self.context().schema,
    ;

    /// Appends `s` to the generated text.
    fn push_str(&mut self, s: &str)
        ensures
            final(self).context() == old(self).context(),
            final(self).text() == old(self).text() + s@,
    ;

    /// The analysis of the type at `ty`.
    fn info(&self, ty: TypeId) -> (r: TypeInfo)
        requires
            ty < self.context().infos.len(),
        ensures
            r == self.context().infos[ty as int],
    ;

    /// The path under which `interface` is reached, or `None` for the
    /// interface being generated.
    fn path_to_interface(&self, interface: InterfaceId) -> (r: Option<String>)
        requires
            self.context().paths.contains_key(interface),
        ensures
            opt_text(r) == self.context().paths[interface],
    ;

    /// Whether generated types own or borrow.
    fn ownership(&self) -> (r: Ownership)
        ensures
            r == self.context().policy,
    ;

    /// Whether a type with this analysis gets two definitions.
    fn uses_two_names(&self, info: &TypeInfo) -> (r: bool)
        ensures
            r == two_names(self.context().policy, *info),
    {
        info.has_list && info.borrowed && info.owned && match self.ownership() {
            Ownership::Borrowing { duplicate_if_necessary } => duplicate_if_necessary,
            Ownership::Owning => false,
        }
    }

    /// The lifetime parameter of the representation of a type with this
    /// analysis in `mode`.
    fn lifetime_for(&self, info: &TypeInfo, mode: TypeMode) -> (r: Option<&'static str>)
        ensures
            r == lifetime_of(self.context().policy, *info, mode),
            !info.has_list ==> r is None,
            self.context().policy is Owning ==> r is None,
    {
        if let Ownership::Owning = self.ownership() {
            return None;
        }
        let lt = match mode {
            TypeMode::AllBorrowed(s) => s,
            TypeMode::Owned => {
                return None;
            },
        };
        if !info.has_list {
            return None;
        }
        if self.uses_two_names(info) || (info.borrowed && !info.owned) {
            Some(lt)
        } else {
            None
        }
    }

    /// The name of the borrowed representation of the named type at `ty`.
    fn param_name(&self, ty: TypeId) -> (r: String)
        requires
            self.context().wf(),
            ty < self.context().schema.types@.len(),
            self.context().schema.types@[ty as int].name is Some,
        ensures
            r@ == self.context().param_name(ty),
    {
        let info = self.info(ty);
        let schema = self.resolve();
        let mut name = match &schema.types[ty].name {
            Some(name) => upper_camel_case(name.as_str()),
            None => String::new(),
        };
        if self.uses_two_names(&info) {
            name.append("Param");
        }
        name
    }

    /// The name of the owned representation of the named type at `ty`.
    fn result_name(&self, ty: TypeId) -> (r: String)
        requires
            self.context().wf(),
            ty < self.context().schema.types@.len(),
            self.context().schema.types@[ty as int].name is Some,
        ensures
            r@ == self.context().result_name(ty),
    {
        let info = self.info(ty);
        let schema = self.resolve();
        let mut name = match &schema.types[ty].name {
            Some(name) => upper_camel_case(name.as_str()),
            None => String::new(),
        };
        if self.uses_two_names(&info) {
            name.append("Result");
        }
        name
    }

    /// The representations to generate for the named type at `ty`, each
    /// with its name and mode.
    fn modes_of(&self, ty: TypeId) -> (r: Vec<(String, TypeMode)>)
        requires
            self.context().wf(),
            ty < self.context().schema.types@.len(),
            self.context().schema.types@[ty as int].name is Some,
        ensures
            r@.len() == self.context().modes_of(ty).len(),
            forall|i: int|
                0 <= i < r@.len() ==> (#[trigger] r@[i]).0@ == self.context().modes_of(ty)[i].0
                    && r@[i].1 == self.context().modes_of(ty)[i].1,
    {
        let info = self.info(ty);
        let mut result: Vec<(String, TypeMode)> = Vec::new();
        if !info.owned && !info.borrowed {
            return result;
        }
        let owning = match self.ownership() {
            Ownership::Owning => true,
            Ownership::Borrowing { .. } => false,
        };
        let first_mode = if info.owned || !info.borrowed || owning {
            TypeMode::Owned
        } else {
            TypeMode::AllBorrowed("'a")
        };
        result.push((self.result_name(ty), first_mode));
        if self.uses_two_names(&info) {
            result.push((self.param_name(ty), TypeMode::AllBorrowed("'a")));
        }
        result
    }

    /// The generics of a representation with the given lifetime, if it has
    /// one.
    fn print_generics_(&self, lifetime: Option<&'static str>) -> (r: Option<String>)
        ensures
            r is Some == lifetime is Some,
            r is Some ==> r->0@ == generics_text(lifetime),
    {
        match lifetime {
            None => None,
            Some(lt) => {
                let mut out = "<".to_owned();
                out.append(lt);
                out.append(",");
                out.append(">");
                Some(out)
            },
        }
    }

    /// Appends the generics of a representation with the given lifetime.
    fn print_generics(&mut self, lifetime: Option<&'static str>)
        ensures
            final(self).context() == old(self).context(),
            final(self).text() == old(self).text() + generics_text(lifetime),
    {
        if let Some(lt) = self.print_generics_(lifetime) {
            self.push_str(lt.as_str());
        }
    }
}

/// Appends the `&` that starts a borrow for lifetime `lt`.
fn push_borrow(out: &mut String, lt: &str)
    ensures
        final(out)@ == old(out)@ + borrow_text(lt@),
{
    out.append("&");
    if !same(lt, "'_") {
        out.append(lt);
        out.append(" ");
    }
}

/// Whether a use of the named type at `id` takes the generics of its
/// representation.
pub fn takes_generics(schema: &Schema, id: TypeId) -> (r: bool)
    requires
        schema.wf(),
        id < schema.types@.len(),
    ensures
        r == needs_generics(*schema, id),
    decreases id,
{
    assert(schema.typedef_ok(id as int));
    match &schema.types[id].kind {
        TypeDefKind::Type(Type::Id(t)) => takes_generics(schema, *t),
        TypeDefKind::Type(Type::String) => true,
        TypeDefKind::Type(_) => false,
        _ => true,
    }
}

/// Spells a use of `ty` in `mode`.
pub fn print_ty_<'a, G: RustGenerator<'a>>(g: &G, ty: &Type, mode: TypeMode) -> (r: String)
    requires
        g.context().wf(),
        printable(g.context(), *ty),
    ensures
        r@ == ty_text(g.context(), *ty, mode),
    decreases
            (match *ty {
                Type::Id(id) => id + 1,
                _ => 0,
            }),
            0nat,
            0nat,
{
    match ty {
        Type::Id(t) => print_tyid_(g, *t, mode),
        Type::Bool => "bool".to_owned(),
        Type::U8 => "u8".to_owned(),
        Type::U16 => "u16".to_owned(),
        Type::U32 => "u32".to_owned(),
        Type::U64 => "u64".to_owned(),
        Type::S8 => "i8".to_owned(),
        Type::S16 => "i16".to_owned(),
        Type::S32 => "i32".to_owned(),
        Type::S64 => "i64".to_owned(),
        Type::Float32 => "f32".to_owned(),
        Type::Float64 => "f64".to_owned(),
        Type::Char => "char".to_owned(),
        Type::String => match mode {
            TypeMode::AllBorrowed(lt) => {
                let mut out = String::new();
                push_borrow(&mut out, lt);
                out.append("str");
                out
            },
            TypeMode::Owned => "String".to_owned(),
        },
    }
}

/// Spells a use of an optional type in `mode`.
pub fn print_optional_ty_<'a, G: RustGenerator<'a>>(
    g: &G,
    ty: Option<&Type>,
    mode: TypeMode,
) -> (r: String)
    requires
        g.context().wf(),
        ty is Some ==> printable(g.context(), *ty->0),
    ensures
        r@ == opt_ty_text(
            g.context(),
            match ty {
                Some(t) => Some(*t),
                None => None,
            },
            mode,
        ),
    decreases
            (match ty {
                Some(Type::Id(id)) => id + 1,
                _ => 0,
            }),
            0nat,
            1nat,
{
    match ty {
        Some(ty) => print_ty_(g, ty, mode),
        None => "()".to_owned(),
    }
}

/// Spells a list of `ty` in `mode`.
pub fn print_list_<'a, G: RustGenerator<'a>>(g: &G, ty: &Type, mode: TypeMode) -> (r: String)
    requires
        g.context().wf(),
        printable(g.context(), *ty),
    ensures
        r@ == list_text(g.context(), *ty, mode),
    decreases
            (match *ty {
                Type::Id(id) => id + 1,
                _ => 0,
            }),
            0nat,
            1nat,
{
    let mut out = String::new();
    match mode {
        TypeMode::AllBorrowed(lt) => {
            push_borrow(&mut out, lt);
            out.append("[");
            let elem = print_ty_(g, ty, TypeMode::Owned);
            out.append(elem.as_str());
            out.append("]");
        },
        TypeMode::Owned => {
            out.append("Vec<");
            let elem = print_ty_(g, ty, TypeMode::Owned);
            out.append(elem.as_str());
            out.append(">");
        },
    }
    out
}

/// Spells a use of the type at `id` in `mode`.
pub fn print_tyid_<'a, G: RustGenerator<'a>>(g: &G, id: TypeId, mode: TypeMode) -> (r: String)
    requires
        g.context().wf(),
        id_printable(g.context(), id),
    ensures
        r@ == tyid_text(g.context(), id, mode),
    decreases id, 1nat, 0nat,
{
    let ghost cx = g.context();
    let info = g.info(id);
    let lt = g.lifetime_for(&info, mode);
    let schema = g.resolve();
    let ty = &schema.types[id];
    let mut out = String::new();
    if ty.name.is_some() {
        if info.has_list && lt.is_none() {
            if let TypeMode::AllBorrowed(l) = mode {
                push_borrow(&mut out, l);
            }
        }
        let name = if lt.is_some() {
            g.param_name(id)
        } else {
            g.result_name(id)
        };
        if let TypeOwner::Interface(i) = ty.owner {
            if let Some(path) = g.path_to_interface(i) {
                out.append(path.as_str());
                out.append("::");
            }
        }
        out.append(name.as_str());
        if info.has_list && takes_generics(schema, id) {
            if let Some(generics) = g.print_generics_(lt) {
                out.append(generics.as_str());
            }
        }
        return out;
    }
    match &ty.kind {
        TypeDefKind::List(t) => {
            let s = print_list_(g, t, mode);
            out.append(s.as_str());
        },
        TypeDefKind::Option(t) => {
            out.append("Option<");
            let s = print_ty_(g, t, mode);
            out.append(s.as_str());
            out.append(">");
        },
        TypeDefKind::Result(r) => {
            out.append("Result<");
            let ok = print_optional_ty_(g, r.ok.as_ref(), mode);
            out.append(ok.as_str());
            out.append(",");
            let err = print_optional_ty_(g, r.err.as_ref(), mode);
            out.append(err.as_str());
            out.append(">");
        },
        TypeDefKind::Tuple(t) => {
            out.append("(");
            let mut i: usize = 0;
            while i < t.types.len()
                invariant
                    i <= t.types@.len(),
                    cx == g.context(),
                    cx.wf(),
                    id_printable(cx, id),
                    *schema == cx.schema,
                    id < schema.types@.len(),
                    schema.types@[id as int].kind == TypeDefKind::Tuple(*t),
                    schema.types@[id as int].name is None,
                    out@ == "("@ + tuple_elems_text(cx, id, mode, i as nat),
                decreases t.types@.len() - i,
            {
                let s = print_ty_(g, &t.types[i], mode);
                out.append(s.as_str());
                out.append(",");
                i += 1;
            }
            out.append(")");
        },
        TypeDefKind::Handle(_) => {
            out.append("wasmtime::component::ResourceAny");
        },
        TypeDefKind::Type(t) => {
            let s = print_ty_(g, t, mode);
            out.append(s.as_str());
        },
        _ => {},
    }
    out
}

/// Appends the spelling of a use of `ty` in `mode`.
pub fn print_ty<'a, G: RustGenerator<'a>>(g: &mut G, ty: &Type, mode: TypeMode)
    requires
        old(g).context().wf(),
        printable(old(g).context(), *ty),
    ensures
        final(g).context() == old(g).context(),
        final(g).text() == old(g).text() + ty_text(old(g).context(), *ty, mode),
{
    let s = print_ty_(&*g, ty, mode);
    g.push_str(s.as_str());
}

/// Appends the spelling of a use of an optional type in `mode`.
pub fn print_optional_ty<'a, G: RustGenerator<'a>>(g: &mut G, ty: Option<&Type>, mode: TypeMode)
    requires
        old(g).context().wf(),
        ty is Some ==> printable(old(g).context(), *ty->0),
    ensures
        final(g).context() == old(g).context(),
        final(g).text() == old(g).text() + opt_ty_text(
            old(g).context(),
            match ty {
                Some(t) => Some(*t),
                None => None,
            },
            mode,
        ),
{
    let s = print_optional_ty_(&*g, ty, mode);
    g.push_str(s.as_str());
}

/// Appends the spelling of a use of the type at `id` in `mode`.
pub fn print_tyid<'a, G: RustGenerator<'a>>(g: &mut G, id: TypeId, mode: TypeMode)
    requires
        old(g).context().wf(),
        id_printable(old(g).context(), id),
    ensures
        final(g).context() == old(g).context(),
        final(g).text() == old(g).text() + tyid_text(old(g).context(), id, mode),
{
    let s = print_tyid_(&*g, id, mode);
    g.push_str(s.as_str());
}

/// Appends the spelling of a list of `ty` in `mode`.
pub fn print_list<'a, G: RustGenerator<'a>>(g: &mut G, ty: &Type, mode: TypeMode)
    requires
        old(g).context().wf(),
        printable(old(g).context(), *ty),
    ensures
        final(g).context() == old(g).context(),
        final(g).text() == old(g).text() + list_text(old(g).context(), *ty, mode),
{
    let s = print_list_(&*g, ty, mode);
    g.push_str(s.as_str());
}

/// A type that holds no list gets no lifetime parameter: not in any mode
/// asked for, under any policy, and so in none of its representations.
pub proof fn law_scalar_types_carry_no_lifetime(
    policy: Ownership,
    info: TypeInfo,
    camel: Seq<char>,
    mode: TypeMode,
)
    requires
        !info.has_list,
    ensures
        lifetime_of(policy, info, mode) is None,
        generics_text(lifetime_of(policy, info, mode)) == Seq::<char>::empty(),
        forall|i: int|
            0 <= i < modes(policy, info, camel).len() ==> lifetime_of(
                policy,
                info,
                (#[trigger] modes(policy, info, camel)[i]).1,
            ) is None,
{
}

/// Under the owning policy no representation carries a lifetime parameter,
/// and a type has at most one representation, which is owned and bears the
/// plain name of the type.
pub proof fn law_owning_never_borrows_nor_duplicates(
    info: TypeInfo,
    camel: Seq<char>,
    mode: TypeMode,
)
    ensures
        lifetime_of(Ownership::Owning, info, mode) is None,
        generics_text(lifetime_of(Ownership::Owning, info, mode)) == Seq::<char>::empty(),
        !two_names(Ownership::Owning, info),
        modes(Ownership::Owning, info, camel).len() <= 1,
        forall|i: int|
            0 <= i < modes(Ownership::Owning, info, camel).len() ==> (#[trigger] modes(
                Ownership::Owning,
                info,
                camel,
            )[i]) == (camel, TypeMode::Owned),
{
}

/// Under the borrowing policy with duplicates, a type that holds a list and
/// is used both owned and borrowed has exactly two representations: the
/// owned one named `…Result` and the borrowed one named `…Param`, which
/// carries the lifetime.  The two names differ from each other and from
/// the plain name.
pub proof fn law_duplicated_type_has_two_names(info: TypeInfo, camel: Seq<char>)
    requires
        info.has_list,
        info.owned,
        info.borrowed,
    ensures
        ({
            let policy = Ownership::Borrowing { duplicate_if_necessary: true };
            let m = modes(policy, info, camel);
            &&& m.len() == 2
            &&& m[0] == (camel + "Result"@, TypeMode::Owned)
            &&& m[1] == (camel + "Param"@, TypeMode::AllBorrowed("'a"))
            &&& m[0].0 != m[1].0
            &&& m[0].0 != camel
            &&& m[1].0 != camel
            &&& lifetime_of(policy, info, m[0].1) is None
            &&& lifetime_of(policy, info, m[1].1) == Some("'a")
        }),
{
    lemma_suffixes(camel, camel);
}

/// The suffixes of duplicated names tell them apart: a name with one
/// suffix is never a name with the other, and never the name itself.
pub proof fn lemma_suffixes(a: Seq<char>, b: Seq<char>)
    ensures
        a + "Result"@ != b + "Param"@,
        a + "Result"@ != a,
        a + "Param"@ != a,
{
    reveal_strlit("Result");
    reveal_strlit("Param");
    let x = a + "Result"@;
    let y = b + "Param"@;
    assert(x.len() == a.len() + 6);
    assert(y.len() == b.len() + 5);
    if x == y {
        assert(x[x.len() - 1] == "Result"@[5]);
        assert(y[y.len() - 1] == "Param"@[4]);
    }
}

/// The names generated for two types never collide, provided that the
/// plain names of the types differ and neither is the other followed by
/// `Param` or `Result`.
pub proof fn law_generated_names_are_distinct(
    policy: Ownership,
    a_info: TypeInfo,
    a: Seq<char>,
    b_info: TypeInfo,
    b: Seq<char>,
)
    requires
        a != b,
        a != b + "Param"@,
        a != b + "Result"@,
        b != a + "Param"@,
        b != a + "Result"@,
    ensures
        forall|i: int, j: int|
            0 <= i < modes(policy, a_info, a).len() && 0 <= j < modes(policy, b_info, b).len()
                ==> (#[trigger] modes(policy, a_info, a)[i]).0 != (#[trigger] modes(
                policy,
                b_info,
                b,
            )[j]).0,
{
    lemma_suffixes(a, b);
    lemma_suffixes(b, a);
    if a + "Result"@ == b + "Result"@ {
        lemma_concat_cancel_right(a, b, "Result"@);
    }
    if a + "Param"@ == b + "Param"@ {
        lemma_concat_cancel_right(a, b, "Param"@);
    }
}

/// The representations of a type and their lifetimes depend on nothing but
/// the policy, the analysis of the type and its name: two generators that
/// agree on these resolve the type alike, and so does one generator asked
/// twice.
pub proof fn law_resolution_is_deterministic(
    first: Context,
    second: Context,
    id: TypeId,
    mode: TypeMode,
)
    requires
        first.policy == second.policy,
        first.infos[id as int] == second.infos[id as int],
        first.schema.types@[id as int].name == second.schema.types@[id as int].name,
    ensures
        first.modes_of(id) == second.modes_of(id),
        first.lifetime(id, mode) == second.lifetime(id, mode),
        first.param_name(id) == second.param_name(id),
        first.result_name(id) == second.result_name(id),
{
}

} // verus!
