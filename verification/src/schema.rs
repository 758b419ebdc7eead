//! The resolved interface schema: packages, interfaces, worlds, functions
//! and the structural type graph.
//!
//! A [`Schema`] is the read-only input of generation.  Types, interfaces,
//! worlds and packages are referred to by their index in the schema's
//! tables.  Every type definition carries the byte size and alignment that
//! the canonical layout gives it.

use vstd::prelude::*;
use vstd::string::StringExecFns;
use crate::text::group_text;

verus! {

/// Index of a type definition in [`Schema::types`].
pub type TypeId = usize;

/// Index of an interface in [`Schema::interfaces`].
pub type InterfaceId = usize;

/// Index of a world in [`Schema::worlds`].
pub type WorldId = usize;

/// Index of a package in [`Schema::packages`].
pub type PackageId = usize;

/// A type as it is written at a use site: a primitive, or a reference to a
/// type definition.
#[derive(Clone, Copy, Debug, PartialEq, Eq, Structural)]
pub enum Type {
    Bool,
    U8,
    U16,
    U32,
    U64,
    S8,
    S16,
    S32,
    S64,
    Float32,
    Float64,
    Char,
    String,
    Id(TypeId),
}

/// Documentation attached to a schema item.
#[derive(Clone, Debug)]
pub struct Docs {
    pub contents: Option<String>,
}

/// A field of a record.
#[derive(Clone, Debug)]
pub struct Field {
    pub name: String,
    pub ty: Type,
    pub docs: Docs,
}

/// A record: named fields in order.
#[derive(Clone, Debug)]
pub struct Record {
    pub fields: Vec<Field>,
}

/// One flag of a flags type.
#[derive(Clone, Debug)]
pub struct Flag {
    pub name: String,
    pub docs: Docs,
}

/// A set of named flags.
#[derive(Clone, Debug)]
pub struct Flags {
    pub flags: Vec<Flag>,
}

/// A tuple: unnamed elements in order.
#[derive(Clone, Debug)]
pub struct Tuple {
    pub types: Vec<Type>,
}

/// A case of a variant, with an optional payload.
#[derive(Clone, Debug)]
pub struct Case {
    pub name: String,
    pub ty: Option<Type>,
    pub docs: Docs,
}

/// A variant: named cases in order.
#[derive(Clone, Debug)]
pub struct Variant {
    pub cases: Vec<Case>,
}

/// A case of an enumeration.
#[derive(Clone, Debug)]
pub struct EnumCase {
    pub name: String,
    pub docs: Docs,
}

/// An enumeration: named cases without payload.
#[derive(Clone, Debug)]
pub struct Enum {
    pub cases: Vec<EnumCase>,
}

/// The payload types of a `result`.
#[derive(Clone, Copy, Debug)]
pub struct Result_ {
    pub ok: Option<Type>,
    pub err: Option<Type>,
}

/// A handle to a resource, owning or borrowing.
#[derive(Clone, Copy, Debug)]
pub enum Handle {
    Own(TypeId),
    Borrow(TypeId),
}

/// What a type definition is.
#[derive(Clone, Debug)]
pub enum TypeDefKind {
    Record(Record),
    Resource,
    Handle(Handle),
    Flags(Flags),
    Tuple(Tuple),
    Variant(Variant),
    Enum(Enum),
    Option(Type),
    Result(Result_),
    List(Type),
    Type(Type),
}

/// Where a type was defined.
#[derive(Clone, Copy, Debug, PartialEq, Eq, Structural)]
pub enum TypeOwner {
    World(WorldId),
    Interface(InterfaceId),
    Unowned,
}

/// A type definition.
#[derive(Clone, Debug)]
pub struct TypeDef {
    pub name: Option<String>,
    pub kind: TypeDefKind,
    pub owner: TypeOwner,
    pub docs: Docs,
    /// Byte size of a value of this type in the canonical layout.
    pub size: usize,
    /// Byte alignment of a value of this type in the canonical layout.
    pub align: usize,
}

/// How a function relates to a resource.
#[derive(Clone, Copy, Debug)]
pub enum FunctionKind {
    Freestanding,
    Method(TypeId),
    Static(TypeId),
    Constructor(TypeId),
}

/// The results of a function: a list of named results, or one unnamed.
#[derive(Clone, Debug)]
pub enum Results {
    Named(Vec<(String, Type)>),
    Anon(Type),
}

/// A function of an interface or a world.
#[derive(Clone, Debug)]
pub struct Function {
    pub name: String,
    pub kind: FunctionKind,
    pub params: Vec<(String, Type)>,
    pub results: Results,
    pub docs: Docs,
}

/// An interface: named types and functions.
#[derive(Clone, Debug)]
pub struct Interface {
    /// `None` for an interface declared inline in a world.
    pub name: Option<String>,
    /// The types that the interface exports, by name, in declaration order.
    pub types: Vec<(String, TypeId)>,
    /// The functions of the interface, in declaration order.
    pub functions: Vec<Function>,
    pub package: Option<PackageId>,
}

/// The key under which a world imports or exports an item.
#[derive(Clone, Debug)]
pub enum WorldKey {
    Name(String),
    Interface(InterfaceId),
}

/// An item that a world imports or exports.
#[derive(Clone, Debug)]
pub enum WorldItem {
    Interface(InterfaceId),
    Function(Function),
    Type(TypeId),
}

/// A world: the unit of generation.
#[derive(Clone, Debug)]
pub struct World {
    pub name: String,
    pub imports: Vec<(WorldKey, WorldItem)>,
    pub exports: Vec<(WorldKey, WorldItem)>,
}

/// The identity of a package.
#[derive(Clone, Debug)]
pub struct PackageName {
    pub namespace: String,
    pub name: String,
    /// The version as it is written after `@`, if the package has one.
    pub version: Option<String>,
}

/// A package.
#[derive(Clone, Debug)]
pub struct Package {
    pub name: PackageName,
}

/// A resolved schema.
#[derive(Clone, Debug)]
pub struct Schema {
    pub types: Vec<TypeDef>,
    pub interfaces: Vec<Interface>,
    pub worlds: Vec<World>,
    pub packages: Vec<Package>,
}

impl Type {
    /// Whether the type refers to no definition at index `n` or above.
    pub open spec fn below(self, n: int) -> bool {
        match self {
            Type::Id(id) => id < n,
            _ => true,
        }
    }
}

/// Whether an optional type refers to no definition at index `n` or above.
pub open spec fn opt_below(ty: Option<Type>, n: int) -> bool {
    match ty {
        Some(ty) => ty.below(n),
        None => true,
    }
}

/// Whether none of the types refers to a definition at index `n` or above.
pub open spec fn types_below(types: Seq<Type>, n: int) -> bool {
    forall|i: int| 0 <= i < types.len() ==> (#[trigger] types[i]).below(n)
}

impl Handle {
    /// The resource that the handle refers to.
    pub open spec fn target(self) -> TypeId {
        match self {
            Handle::Own(id) => id,
            Handle::Borrow(id) => id,
        }
    }

    /// The resource that the handle refers to.
    pub fn resource(&self) -> (r: TypeId)
        ensures
            r == self.target(),
    {
        match self {
            Handle::Own(id) => *id,
            Handle::Borrow(id) => *id,
        }
    }
}

impl TypeDefKind {
    /// Whether every type that the definition mentions has an index below
    /// `n`.
    pub open spec fn below(self, n: int) -> bool {
        match self {
            TypeDefKind::Record(r) => forall|i: int|
                0 <= i < r.fields@.len() ==> (#[trigger] r.fields@[i]).ty.below(n),
            TypeDefKind::Resource => true,
            TypeDefKind::Handle(h) => h.target() < n,
            TypeDefKind::Flags(_) => true,
            TypeDefKind::Tuple(t) => types_below(t.types@, n),
            TypeDefKind::Variant(v) => forall|i: int|
                0 <= i < v.cases@.len() ==> opt_below((#[trigger] v.cases@[i]).ty, n),
            TypeDefKind::Enum(_) => true,
            TypeDefKind::Option(t) => t.below(n),
            TypeDefKind::Result(r) => opt_below(r.ok, n) && opt_below(r.err, n),
            TypeDefKind::List(t) => t.below(n),
            TypeDefKind::Type(t) => t.below(n),
        }
    }
}

impl Results {
    /// The result types in order.
    pub open spec fn types(self) -> Seq<Type> {
        match self {
            Results::Named(rs) => Seq::new(rs@.len(), |i: int| rs@[i].1),
            Results::Anon(ty) => seq![ty],
        }
    }

    /// The number of results.
    pub fn len(&self) -> (n: usize)
        ensures
            n == self.types().len(),
    {
        match self {
            Results::Named(rs) => rs.len(),
            Results::Anon(_) => 1,
        }
    }

    /// The `i`-th result type.
    pub fn ty(&self, i: usize) -> (t: Type)
        requires
            i < self.types().len(),
        ensures
            t == self.types()[i as int],
    {
        match self {
            Results::Named(rs) => rs[i].1,
            Results::Anon(ty) => *ty,
        }
    }
}

impl Schema {
    /// Whether `ty` refers to a definition of this schema, if to any.
    pub open spec fn type_ok(&self, ty: Type) -> bool {
        ty.below(self.types@.len() as int)
    }

    /// Whether `id` is a named resource of this schema.
    pub open spec fn resource_ok(&self, id: TypeId) -> bool {
        &&& id < self.types@.len()
        &&& self.types@[id as int].name is Some
    }

    /// Whether the types and the resource that `f` mentions are in the
    /// schema.
    pub open spec fn function_ok(&self, f: Function) -> bool {
        &&& forall|i: int| 0 <= i < f.params@.len() ==> self.type_ok((#[trigger] f.params@[i]).1)
        &&& forall|i: int|
            0 <= i < f.results.types().len() ==> self.type_ok(#[trigger] f.results.types()[i])
        &&& match f.kind {
            FunctionKind::Freestanding => true,
            FunctionKind::Method(id) => self.resource_ok(id),
            FunctionKind::Static(id) => self.resource_ok(id),
            FunctionKind::Constructor(id) => self.resource_ok(id),
        }
    }

    /// Whether what the interface at `id` mentions is in the schema, and the
    /// types it exports are named.
    pub open spec fn interface_ok(&self, id: int) -> bool {
        let iface = self.interfaces@[id];
        &&& match iface.package {
            Some(p) => p < self.packages@.len(),
            None => true,
        }
        &&& forall|i: int|
            0 <= i < iface.types@.len() ==> {
                &&& (#[trigger] iface.types@[i]).1 < self.types@.len()
                &&& self.types@[iface.types@[i].1 as int].name is Some
            }
        &&& forall|i: int|
            0 <= i < iface.functions@.len() ==> self.function_ok(#[trigger] iface.functions@[i])
    }

    /// Whether an import or export of a world is well formed: what it
    /// mentions is in the schema, and an item keyed by an interface is that
    /// interface, which then has a name and a package.
    pub open spec fn item_ok(&self, entry: (WorldKey, WorldItem)) -> bool {
        &&& match entry.1 {
            WorldItem::Interface(id) => id < self.interfaces@.len(),
            WorldItem::Function(f) => self.function_ok(f),
            WorldItem::Type(id) => id < self.types@.len(),
        }
        &&& match entry.0 {
            WorldKey::Name(_) => true,
            WorldKey::Interface(key) => {
                &&& entry.1 == WorldItem::Interface(key)
                &&& key < self.interfaces@.len()
                &&& self.interfaces@[key as int].name is Some
                &&& self.interfaces@[key as int].package is Some
            },
        }
    }

    /// Whether the world at `id` is well formed: its imports and exports
    /// are, and it exports no bare type.
    pub open spec fn world_ok(&self, id: int) -> bool {
        let world = self.worlds@[id];
        &&& forall|i: int|
            0 <= i < world.imports@.len() ==> self.item_ok(#[trigger] world.imports@[i])
        &&& forall|i: int|
            0 <= i < world.exports@.len() ==> {
                &&& self.item_ok(#[trigger] world.exports@[i])
                &&& !(world.exports@[i].1 is Type)
            }
    }

    /// Whether the definition at `id` mentions only earlier definitions, has
    /// an owner in the schema and, where it is a resource, a name.
    pub open spec fn typedef_ok(&self, id: int) -> bool {
        let def = self.types@[id];
        &&& def.kind.below(id)
        &&& (def.kind is Resource ==> def.name is Some)
        &&& match def.owner {
            TypeOwner::World(w) => w < self.worlds@.len(),
            TypeOwner::Interface(i) => i < self.interfaces@.len(),
            TypeOwner::Unowned => true,
        }
    }

    /// Well-formedness of a resolved schema: every index points into its
    /// table, and a type definition mentions only definitions that precede
    /// it, so that no chain of references runs on for ever.
    pub open spec fn wf(&self) -> bool {
        &&& forall|i: int| 0 <= i < self.types@.len() ==> #[trigger] self.typedef_ok(i)
        &&& forall|i: int| 0 <= i < self.interfaces@.len() ==> #[trigger] self.interface_ok(i)
        &&& forall|i: int| 0 <= i < self.worlds@.len() ==> #[trigger] self.world_ok(i)
    }
}


impl Schema {
    /// Whether the key of a world item has a name: an interface that serves
    /// as key has a name and a package.
    pub open spec fn key_named(&self, key: WorldKey) -> bool {
        match key {
            WorldKey::Name(_) => true,
            WorldKey::Interface(id) => {
                &&& id < self.interfaces@.len()
                &&& self.interfaces@[id as int].name is Some
                &&& self.interfaces@[id as int].package is Some
                &&& self.interfaces@[id as int].package->0 < self.packages@.len()
            },
        }
    }

    /// The name of the key of a world item: the name itself, or for an
    /// interface `namespace:package/interface`, followed by `@` and the
    /// version where the package has one.
    pub open spec fn world_key_name(&self, key: WorldKey) -> Seq<char> {
        match key {
            WorldKey::Name(name) => name@,
            WorldKey::Interface(id) => {
                let iface = self.interfaces@[id as int];
                let package = self.packages@[iface.package->0 as int].name;
                package.namespace@ + ":"@ + package.name@ + "/"@ + iface.name->0@ + (
                match package.version {
                    Some(version) => "@"@ + version@,
                    None => Seq::empty(),
                })
            },
        }
    }

    /// The name of the key of a world item.
    pub fn name_world_key(&self, key: &WorldKey) -> (r: String)
        requires
            self.key_named(*key),
        ensures
            r@ == self.world_key_name(*key),
    {
        broadcast use group_text;

        match key {
            WorldKey::Name(name) => name.clone(),
            WorldKey::Interface(id) => {
                let iface = &self.interfaces[*id];
                let mut base = String::new();
                match (&iface.package, &iface.name) {
                    (Some(package), Some(name)) => {
                        let package = &self.packages[*package].name;
                        base.append(package.namespace.as_str());
                        base.append(":");
                        base.append(package.name.as_str());
                        base.append("/");
                        base.append(name.as_str());
                        if let Some(version) = &package.version {
                            base.append("@");
                            base.append(version.as_str());
                        }
                    },
                    _ => {},
                }
                base
            },
        }
    }
}


/// Whether `ty` refers to no definition at index `n` or above.
fn type_below(ty: &Type, n: usize) -> (r: bool)
    ensures
        r == ty.below(n as int),
{
    match ty {
        Type::Id(id) => *id < n,
        _ => true,
    }
}

/// Whether an optional type refers to no definition at index `n` or
/// above.
fn opt_type_below(ty: &Option<Type>, n: usize) -> (r: bool)
    ensures
        r == opt_below(*ty, n as int),
{
    match ty {
        Some(ty) => type_below(ty, n),
        None => true,
    }
}

/// Whether every type that the definition mentions has an index below
/// `n`.
fn kind_below(kind: &TypeDefKind, n: usize) -> (r: bool)
    ensures
        r == kind.below(n as int),
{
    match kind {
        TypeDefKind::Record(record) => {
            let mut i: usize = 0;
            while i < record.fields.len()
                invariant
                    i <= record.fields@.len(),
                    *kind == TypeDefKind::Record(*record),
                    forall|j: int| 0 <= j < i ==> (#[trigger] record.fields@[j]).ty.below(n as int),
                decreases record.fields@.len() - i,
            {
                if !type_below(&record.fields[i].ty, n) {
                    assert(kind->Record_0 == *record);
                    assert(!record.fields@[i as int].ty.below(n as int));
                    return false;
                }
                i += 1;
            }
            true
        },
        TypeDefKind::Resource => true,
        TypeDefKind::Handle(h) => h.resource() < n,
        TypeDefKind::Flags(_) => true,
        TypeDefKind::Tuple(tuple) => {
            let mut i: usize = 0;
            while i < tuple.types.len()
                invariant
                    i <= tuple.types@.len(),
                    *kind == TypeDefKind::Tuple(*tuple),
                    forall|j: int| 0 <= j < i ==> (#[trigger] tuple.types@[j]).below(n as int),
                decreases tuple.types@.len() - i,
            {
                if !type_below(&tuple.types[i], n) {
                    assert(kind->Tuple_0 == *tuple);
                    assert(!tuple.types@[i as int].below(n as int));
                    return false;
                }
                i += 1;
            }
            true
        },
        TypeDefKind::Variant(variant) => {
            let mut i: usize = 0;
            while i < variant.cases.len()
                invariant
                    i <= variant.cases@.len(),
                    *kind == TypeDefKind::Variant(*variant),
                    forall|j: int|
                        0 <= j < i ==> opt_below((#[trigger] variant.cases@[j]).ty, n as int),
                decreases variant.cases@.len() - i,
            {
                if !opt_type_below(&variant.cases[i].ty, n) {
                    assert(kind->Variant_0 == *variant);
                    assert(!opt_below(variant.cases@[i as int].ty, n as int));
                    return false;
                }
                i += 1;
            }
            true
        },
        TypeDefKind::Enum(_) => true,
        TypeDefKind::Option(t) => type_below(t, n),
        TypeDefKind::Result(r) => opt_type_below(&r.ok, n) && opt_type_below(&r.err, n),
        TypeDefKind::List(t) => type_below(t, n),
        TypeDefKind::Type(t) => type_below(t, n),
    }
}

impl Schema {
    /// Whether the definition at `id` is well formed.
    fn check_typedef(&self, id: usize) -> (r: bool)
        requires
            id < self.types@.len(),
        ensures
            r == self.typedef_ok(id as int),
    {
        let def = &self.types[id];
        if !kind_below(&def.kind, id) {
            return false;
        }
        if let TypeDefKind::Resource = def.kind {
            if def.name.is_none() {
                return false;
            }
        }
        match def.owner {
            TypeOwner::World(w) => w < self.worlds.len(),
            TypeOwner::Interface(i) => i < self.interfaces.len(),
            TypeOwner::Unowned => true,
        }
    }

    /// Whether `id` is a named resource of this schema.
    fn check_resource(&self, id: TypeId) -> (r: bool)
        ensures
            r == self.resource_ok(id),
    {
        id < self.types.len() && self.types[id].name.is_some()
    }

    /// Whether the types and the resource that `f` mentions are in the
    /// schema.
    fn check_function(&self, f: &Function) -> (r: bool)
        ensures
            r == self.function_ok(*f),
    {
        let n = self.types.len();
        let mut i: usize = 0;
        while i < f.params.len()
            invariant
                i <= f.params@.len(),
                n == self.types@.len(),
                forall|j: int| 0 <= j < i ==> self.type_ok((#[trigger] f.params@[j]).1),
            decreases f.params@.len() - i,
        {
            if !type_below(&f.params[i].1, n) {
                return false;
            }
            i += 1;
        }
        let mut i: usize = 0;
        while i < f.results.len()
            invariant
                i <= f.results.types().len(),
                n == self.types@.len(),
                forall|j: int| 0 <= j < i ==> self.type_ok(#[trigger] f.results.types()[j]),
            decreases f.results.types().len() - i,
        {
            let ty = f.results.ty(i);
            if !type_below(&ty, n) {
                return false;
            }
            i += 1;
        }
        match f.kind {
            FunctionKind::Freestanding => true,
            FunctionKind::Method(id) => self.check_resource(id),
            FunctionKind::Static(id) => self.check_resource(id),
            FunctionKind::Constructor(id) => self.check_resource(id),
        }
    }

    /// Whether the interface at `id` is well formed.
    fn check_interface(&self, id: usize) -> (r: bool)
        requires
            id < self.interfaces@.len(),
        ensures
            r == self.interface_ok(id as int),
    {
        let iface = &self.interfaces[id];
        if let Some(p) = iface.package {
            if p >= self.packages.len() {
                return false;
            }
        }
        let mut i: usize = 0;
        while i < iface.types.len()
            invariant
                i <= iface.types@.len(),
                id < self.interfaces@.len(),
                *iface == self.interfaces@[id as int],
                forall|j: int|
                    0 <= j < i ==> {
                        &&& (#[trigger] iface.types@[j]).1 < self.types@.len()
                        &&& self.types@[iface.types@[j].1 as int].name is Some
                    },
            decreases iface.types@.len() - i,
        {
            let ty = iface.types[i].1;
            if ty >= self.types.len() {
                assert(!(iface.types@[i as int].1 < self.types@.len()));
                return false;
            }
            if self.types[ty].name.is_none() {
                assert(self.types@[iface.types@[i as int].1 as int].name is None);
                return false;
            }
            i += 1;
        }
        let mut i: usize = 0;
        while i < iface.functions.len()
            invariant
                i <= iface.functions@.len(),
                id < self.interfaces@.len(),
                *iface == self.interfaces@[id as int],
                iface.package is Some ==> iface.package->0 < self.packages@.len(),
                forall|j: int|
                    0 <= j < iface.types@.len() ==> {
                        &&& (#[trigger] iface.types@[j]).1 < self.types@.len()
                        &&& self.types@[iface.types@[j].1 as int].name is Some
                    },
                forall|j: int| 0 <= j < i ==> self.function_ok(#[trigger] iface.functions@[j]),
            decreases iface.functions@.len() - i,
        {
            if !self.check_function(&iface.functions[i]) {
                assert(!self.function_ok(iface.functions@[i as int]));
                return false;
            }
            i += 1;
        }
        true
    }

    /// Whether an import or export of a world is well formed.
    fn check_item(&self, entry: &(WorldKey, WorldItem)) -> (r: bool)
        ensures
            r == self.item_ok(*entry),
    {
        let item_ok = match &entry.1 {
            WorldItem::Interface(id) => *id < self.interfaces.len(),
            WorldItem::Function(f) => self.check_function(f),
            WorldItem::Type(id) => *id < self.types.len(),
        };
        if !item_ok {
            return false;
        }
        match &entry.0 {
            WorldKey::Name(_) => true,
            WorldKey::Interface(key) => {
                let same_interface = match &entry.1 {
                    WorldItem::Interface(id) => *id == *key,
                    _ => false,
                };
                same_interface && *key < self.interfaces.len() && self.interfaces[*key].name.is_some()
                    && self.interfaces[*key].package.is_some()
            },
        }
    }

    /// Whether the world at `id` is well formed.
    fn check_world(&self, id: usize) -> (r: bool)
        requires
            id < self.worlds@.len(),
        ensures
            r == self.world_ok(id as int),
    {
        let world = &self.worlds[id];
        let mut i: usize = 0;
        while i < world.imports.len()
            invariant
                i <= world.imports@.len(),
                id < self.worlds@.len(),
                *world == self.worlds@[id as int],
                forall|j: int| 0 <= j < i ==> self.item_ok(#[trigger] world.imports@[j]),
            decreases world.imports@.len() - i,
        {
            if !self.check_item(&world.imports[i]) {
                assert(!self.item_ok(world.imports@[i as int]));
                return false;
            }
            i += 1;
        }
        let mut i: usize = 0;
        while i < world.exports.len()
            invariant
                i <= world.exports@.len(),
                id < self.worlds@.len(),
                *world == self.worlds@[id as int],
                forall|j: int|
                    0 <= j < world.imports@.len() ==> self.item_ok(#[trigger] world.imports@[j]),
                forall|j: int|
                    0 <= j < i ==> {
                        &&& self.item_ok(#[trigger] world.exports@[j])
                        &&& !(world.exports@[j].1 is Type)
                    },
            decreases world.exports@.len() - i,
        {
            if !self.check_item(&world.exports[i]) {
                assert(!self.item_ok(world.exports@[i as int]));
                return false;
            }
            if let WorldItem::Type(_) = world.exports[i].1 {
                assert(world.exports@[i as int].1 is Type);
                return false;
            }
            i += 1;
        }
        true
    }

    /// Decides whether the schema is well formed.
    pub fn check(&self) -> (r: bool)
        ensures
            r == self.wf(),
    {
        let mut i: usize = 0;
        while i < self.types.len()
            invariant
                i <= self.types@.len(),
                forall|j: int| 0 <= j < i ==> #[trigger] self.typedef_ok(j),
            decreases self.types@.len() - i,
        {
            if !self.check_typedef(i) {
                return false;
            }
            i += 1;
        }
        let mut i: usize = 0;
        while i < self.interfaces.len()
            invariant
                i <= self.interfaces@.len(),
                forall|j: int| 0 <= j < self.types@.len() ==> #[trigger] self.typedef_ok(j),
                forall|j: int| 0 <= j < i ==> #[trigger] self.interface_ok(j),
            decreases self.interfaces@.len() - i,
        {
            if !self.check_interface(i) {
                return false;
            }
            i += 1;
        }
        let mut i: usize = 0;
        while i < self.worlds.len()
            invariant
                i <= self.worlds@.len(),
                forall|j: int| 0 <= j < self.types@.len() ==> #[trigger] self.typedef_ok(j),
                forall|j: int| 0 <= j < self.interfaces@.len() ==> #[trigger] self.interface_ok(j),
                forall|j: int| 0 <= j < i ==> #[trigger] self.world_ok(j),
            decreases self.worlds@.len() - i,
        {
            if !self.check_world(i) {
                return false;
            }
            i += 1;
        }
        true
    }
}

} // verus!
