//! Decisions on what can be generated: whether the types of a signature
//! can be spelled, whether a type can be defined, and whether the options
//! name what a binding needs.

use vstd::prelude::*;
use crate::calls::fn_printable;
use crate::resources::{get_resource_from_ty, refs_view, resources_of};
use crate::exports::export_struct_printable;
use crate::imports::{
    all_bound, closure_printable, collect_resource_set, linkable, resource_set, sigs_printable,
};
use crate::interface::{Direction, InterfaceGenerator};
use crate::resource_types::{belongs_to, of_resource, owning_interface, rep_printable, resource_definable};
use crate::rust::{id_printable, opt_printable, printable, RustGenerator};
use crate::schema::{
    Function, FunctionKind, Interface, InterfaceId, Schema, Type, TypeDefKind, TypeId, TypeOwner,
    WorldKey,
};
use crate::sigs::sig_printable;
use crate::text::holds_texts;
use crate::typedefs::{members_printable, type_definable, types_definable};

verus! {

broadcast use vstd::std_specs::hash::group_hash_axioms;

/// Whether the key of a world item has a name.
pub fn key_is_named(schema: &Schema, key: &WorldKey) -> (r: bool)
    ensures
        r == schema.key_named(*key),
{
    match key {
        WorldKey::Name(_) => true,
        WorldKey::Interface(id) => {
            if *id >= schema.interfaces.len() {
                return false;
            }
            let iface = &schema.interfaces[*id];
            match iface.package {
                Some(p) => iface.name.is_some() && p < schema.packages.len(),
                None => false,
            }
        },
    }
}

impl<'a> InterfaceGenerator<'a> {
    /// Whether the interface at `id` has a path from the module being
    /// generated.
    pub fn has_path(&self, id: InterfaceId) -> (r: bool)
        ensures
            r == self.env().cx().paths.contains_key(id),
    {
        if let Some((cur, _, _)) = self.current_interface {
            if cur == id {
                return true;
            }
        }
        self.interface_names.contains_key(&id)
    }

    /// Decides whether a use of `ty` can be spelled.
    pub fn can_print(&self, ty: &Type) -> (r: bool)
        requires
            self.env().wf(),
        ensures
            r == printable(self.env().cx(), *ty),
        decreases
                (match *ty {
                    Type::Id(id) => id + 1,
                    _ => 0,
                }),
                0nat,
                0nat,
    {
        match ty {
            Type::Id(id) => self.can_print_id(*id),
            _ => true,
        }
    }

    /// Decides whether a use of an optional type can be spelled.
    pub fn can_print_optional(&self, ty: &Option<Type>) -> (r: bool)
        requires
            self.env().wf(),
        ensures
            r == opt_printable(self.env().cx(), *ty),
        decreases
                (match *ty {
                    Some(Type::Id(id)) => id + 1,
                    _ => 0,
                }),
                0nat,
                1nat,
    {
        match ty {
            Some(ty) => self.can_print(ty),
            None => true,
        }
    }

    /// Decides whether a use of the type at `id` can be spelled.
    pub fn can_print_id(&self, id: TypeId) -> (r: bool)
        requires
            self.env().wf(),
        ensures
            r == id_printable(self.env().cx(), id),
        decreases id, 1nat, 0nat,
    {
        let schema = self.resolve;
        if id >= schema.types.len() {
            return false;
        }
        assert(schema.typedef_ok(id as int));
        assert(schema.types@[id as int].kind.below(id as int));
        let def = &schema.types[id];
        if def.name.is_some() {
            return match def.owner {
                TypeOwner::Interface(i) => self.has_path(i),
                _ => true,
            };
        }
        match &def.kind {
            TypeDefKind::List(t) => self.can_print(t),
            TypeDefKind::Option(t) => self.can_print(t),
            TypeDefKind::Result(r) => self.can_print_optional(&r.ok) && self.can_print_optional(
                &r.err,
            ),
            TypeDefKind::Tuple(t) => {
                let mut i: usize = 0;
                while i < t.types.len()
                    invariant
                        i <= t.types@.len(),
                        self.env().wf(),
                        *schema == self.env().schema,
                        id < schema.types@.len(),
                        schema.types@[id as int].kind == TypeDefKind::Tuple(*t),
                        schema.types@[id as int].name is None,
                        forall|j: int|
                            0 <= j < i ==> printable(self.env().cx(), #[trigger] t.types@[j]),
                    decreases t.types@.len() - i,
                {
                    assert(schema.typedef_ok(id as int));
                    assert(schema.types@[id as int].kind.below(id as int));
                    assert(t.types@[i as int].below(id as int));
                    if !self.can_print(&t.types[i]) {
                        assert(schema.types@[id as int].kind->Tuple_0 == *t);
                        assert(!printable(self.env().cx(), t.types@[i as int]));
                        return false;
                    }
                    i += 1;
                }
                assert(schema.types@[id as int].kind->Tuple_0 == *t);
                true
            },
            TypeDefKind::Handle(_) => true,
            TypeDefKind::Type(t) => self.can_print(t),
            _ => false,
        }
    }

    /// Decides whether the types of the parameters and results of `f` can
    /// be spelled.
    pub fn can_print_fn(&self, f: &Function) -> (r: bool)
        requires
            self.env().wf(),
            self.env().schema.function_ok(*f),
        ensures
            r == fn_printable(self.env(), *f),
    {
        let mut i: usize = 0;
        while i < f.params.len()
            invariant
                i <= f.params@.len(),
                self.env().wf(),
                forall|j: int|
                    0 <= j < i ==> printable(self.env().cx(), (#[trigger] f.params@[j]).1),
            decreases f.params@.len() - i,
        {
            if !self.can_print(&f.params[i].1) {
                assert(!printable(self.env().cx(), f.params@[i as int].1));
                return false;
            }
            i += 1;
        }
        let mut i: usize = 0;
        while i < f.results.len()
            invariant
                i <= f.results.types().len(),
                self.env().wf(),
                forall|j: int|
                    0 <= j < f.params@.len() ==> printable(
                        self.env().cx(),
                        (#[trigger] f.params@[j]).1,
                    ),
                forall|j: int|
                    0 <= j < i ==> printable(self.env().cx(), #[trigger] f.results.types()[j]),
            decreases f.results.types().len() - i,
        {
            let ty = f.results.ty(i);
            if !self.can_print(&ty) {
                assert(!printable(self.env().cx(), f.results.types()[i as int]));
                return false;
            }
            i += 1;
        }
        true
    }

    /// Decides whether the signature of `f` can be spelled in the scope
    /// of `owner`.
    pub fn can_print_sig(&self, owner: TypeOwner, f: &Function) -> (r: bool)
        requires
            self.env().wf(),
            self.env().schema.function_ok(*f),
        ensures
            r == sig_printable(self.env(), owner, *f),
    {
        let in_scope = match owner {
            TypeOwner::Interface(id) => id < self.resolve.interfaces.len(),
            TypeOwner::World(_) => false,
            TypeOwner::Unowned => true,
        };
        if !in_scope {
            return false;
        }
        if !self.can_print_fn(f) {
            return false;
        }
        match crate::errors::special_case_trappable_error(
            self.resolve,
            &self.opts.trappable_error_type,
            owner,
            &f.results,
        ) {
            Some((r, _)) => self.can_print_optional(&r.ok),
            None => true,
        }
    }

    /// Decides whether the options name the host type of the resource
    /// named `name`.
    pub fn has_resource_impl(&self, name: &str) -> (r: bool)
        ensures
            r == (self.env().opts.resources.value_of(name@) is Some),
    {
        self.opts.resources.get(name).is_some()
    }

    /// Decides whether the options name the host type of every resource
    /// that a use of `ty` refers to.
    pub fn has_all_impls(&self, ty: &Type) -> (r: bool)
        requires
            self.env().wf(),
            self.env().schema.type_ok(*ty),
        ensures
            r == all_bound(self.env(), *ty),
    {
        let resources = get_resource_from_ty(self.resolve, ty);
        let ghost refs = resources_of(self.env().schema, *ty);
        let mut k: usize = 0;
        while k < resources.len()
            invariant
                k <= resources@.len(),
                refs_view(resources@) == refs,
                refs == resources_of(self.env().schema, *ty),
                forall|j: int|
                    0 <= j < k ==> self.env().opts.resources.value_of((#[trigger] refs[j]).0)
                        is Some,
            decreases resources@.len() - k,
        {
            assert(refs[k as int] == (resources@[k as int].0@, resources@[k as int].1));
            if !self.has_resource_impl(resources[k].0.as_str()) {
                return false;
            }
            k += 1;
        }
        true
    }

    /// Decides whether the dispatch closure of `f` can be generated in the
    /// scope of `owner`.
    pub fn can_dispatch(&self, owner: TypeOwner, f: &Function) -> (r: bool)
        requires
            self.env().wf(),
            self.env().schema.function_ok(*f),
        ensures
            r == closure_printable(self.env(), owner, *f),
    {
        let schema = self.resolve;
        if !self.can_print_sig(owner, f) {
            return false;
        }
        let mut i: usize = 0;
        while i < f.params.len()
            invariant
                i <= f.params@.len(),
                self.env().wf(),
                *schema == self.env().schema,
                schema.function_ok(*f),
                forall|j: int| 0 <= j < i ==> all_bound(self.env(), (#[trigger] f.params@[j]).1),
            decreases f.params@.len() - i,
        {
            assert(schema.type_ok(f.params@[i as int].1));
            if !self.has_all_impls(&f.params[i].1) {
                assert(!all_bound(self.env(), f.params@[i as int].1));
                return false;
            }
            i += 1;
        }
        let mut i: usize = 0;
        while i < f.results.len()
            invariant
                i <= f.results.types().len(),
                self.env().wf(),
                *schema == self.env().schema,
                schema.function_ok(*f),
                forall|j: int|
                    0 <= j < f.params@.len() ==> all_bound(
                        self.env(),
                        (#[trigger] f.params@[j]).1,
                    ),
                forall|j: int|
                    0 <= j < i ==> all_bound(self.env(), #[trigger] f.results.types()[j]),
            decreases f.results.types().len() - i,
        {
            let ty = f.results.ty(i);
            assert(schema.type_ok(f.results.types()[i as int]));
            if !self.has_all_impls(&ty) {
                assert(!all_bound(self.env(), f.results.types()[i as int]));
                return false;
            }
            i += 1;
        }
        match f.kind {
            FunctionKind::Static(id) | FunctionKind::Constructor(id) => {
                match &schema.types[id].name {
                    Some(name) => self.has_resource_impl(name.as_str()),
                    None => false,
                }
            },
            _ => true,
        }
    }

    /// Decides whether the signatures of the functions of the interface
    /// at `id` can be spelled.
    pub fn can_print_sigs(&self, id: InterfaceId) -> (r: bool)
        requires
            self.env().wf(),
            id < self.env().schema.interfaces@.len(),
        ensures
            r == sigs_printable(self.env(), id),
    {
        let schema = self.resolve;
        let iface = &schema.interfaces[id];
        assert(schema.interface_ok(id as int));
        let mut i: usize = 0;
        while i < iface.functions.len()
            invariant
                i <= iface.functions@.len(),
                self.env().wf(),
                *schema == self.env().schema,
                id < schema.interfaces@.len(),
                *iface == schema.interfaces@[id as int],
                schema.interface_ok(id as int),
                forall|j: int|
                    0 <= j < i ==> sig_printable(
                        self.env(),
                        TypeOwner::Interface(id),
                        #[trigger] iface.functions@[j],
                    ),
            decreases iface.functions@.len() - i,
        {
            if !self.can_print_sig(TypeOwner::Interface(id), &iface.functions[i]) {
                assert(!sig_printable(
                    self.env(),
                    TypeOwner::Interface(id),
                    iface.functions@[i as int],
                ));
                return false;
            }
            i += 1;
        }
        true
    }

    /// Decides whether the bindings of the imported interface at `id` can
    /// be generated.
    pub fn can_link(&self, id: InterfaceId) -> (r: bool)
        requires
            self.env().wf(),
            id < self.env().schema.interfaces@.len(),
        ensures
            r == linkable(self.env(), id),
    {
        let schema = self.resolve;
        let iface = &schema.interfaces[id];
        assert(schema.interface_ok(id as int));
        let mut i: usize = 0;
        while i < iface.functions.len()
            invariant
                i <= iface.functions@.len(),
                self.env().wf(),
                *schema == self.env().schema,
                id < schema.interfaces@.len(),
                *iface == schema.interfaces@[id as int],
                schema.interface_ok(id as int),
                forall|j: int|
                    0 <= j < i ==> closure_printable(
                        self.env(),
                        TypeOwner::Interface(id),
                        #[trigger] iface.functions@[j],
                    ),
            decreases iface.functions@.len() - i,
        {
            if !self.can_dispatch(TypeOwner::Interface(id), &iface.functions[i]) {
                assert(!closure_printable(
                    self.env(),
                    TypeOwner::Interface(id),
                    iface.functions@[i as int],
                ));
                return false;
            }
            i += 1;
        }
        let set = collect_resource_set(schema, &iface.functions);
        let ghost names = resource_set(*schema, iface.functions@, iface.functions@.len());
        let mut i: usize = 0;
        while i < set.len()
            invariant
                i <= set@.len(),
                holds_texts(set@, names),
                self.env().wf(),
                id < self.env().schema.interfaces@.len(),
                names == resource_set(
                    self.env().schema,
                    self.env().schema.interfaces@[id as int].functions@,
                    self.env().schema.interfaces@[id as int].functions@.len(),
                ),
                forall|j: int|
                    0 <= j < self.env().schema.interfaces@[id as int].functions@.len()
                        ==> closure_printable(
                        self.env(),
                        TypeOwner::Interface(id),
                        #[trigger] self.env().schema.interfaces@[id as int].functions@[j],
                    ),
                forall|j: int|
                    0 <= j < i ==> self.env().opts.resources.value_of(#[trigger] names[j]) is Some,
            decreases set@.len() - i,
        {
            if !self.has_resource_impl(set[i].as_str()) {
                assert(self.env().opts.resources.value_of(names[i as int]) is None);
                return false;
            }
            i += 1;
        }
        true
    }

    /// Decides whether the members of the type at `id` can be spelled.
    pub fn can_print_members(&self, id: TypeId) -> (r: bool)
        requires
            self.env().wf(),
            id < self.env().schema.types@.len(),
        ensures
            r == members_printable(self.env(), id),
    {
        let schema = self.resolve;
        let ghost kind = schema.types@[id as int].kind;
        match &schema.types[id].kind {
            TypeDefKind::Record(r) => {
                let mut i: usize = 0;
                while i < r.fields.len()
                    invariant
                        i <= r.fields@.len(),
                        self.env().wf(),
                        id < self.env().schema.types@.len(),
                        kind == self.env().schema.types@[id as int].kind,
                        kind == TypeDefKind::Record(*r),
                        forall|j: int|
                            0 <= j < i ==> printable(
                                self.env().cx(),
                                (#[trigger] r.fields@[j]).ty,
                            ),
                    decreases r.fields@.len() - i,
                {
                    if !self.can_print(&r.fields[i].ty) {
                        assert(kind->Record_0 == *r);
                        assert(!printable(self.env().cx(), r.fields@[i as int].ty));
                        return false;
                    }
                    i += 1;
                }
                assert(kind->Record_0 == *r);
                true
            },
            TypeDefKind::Tuple(t) => {
                let mut i: usize = 0;
                while i < t.types.len()
                    invariant
                        i <= t.types@.len(),
                        self.env().wf(),
                        id < self.env().schema.types@.len(),
                        kind == self.env().schema.types@[id as int].kind,
                        kind == TypeDefKind::Tuple(*t),
                        forall|j: int|
                            0 <= j < i ==> printable(self.env().cx(), #[trigger] t.types@[j]),
                    decreases t.types@.len() - i,
                {
                    if !self.can_print(&t.types[i]) {
                        assert(kind->Tuple_0 == *t);
                        assert(!printable(self.env().cx(), t.types@[i as int]));
                        return false;
                    }
                    i += 1;
                }
                assert(kind->Tuple_0 == *t);
                true
            },
            TypeDefKind::Variant(v) => {
                let mut i: usize = 0;
                while i < v.cases.len()
                    invariant
                        i <= v.cases@.len(),
                        self.env().wf(),
                        id < self.env().schema.types@.len(),
                        kind == self.env().schema.types@[id as int].kind,
                        kind == TypeDefKind::Variant(*v),
                        forall|j: int|
                            0 <= j < i ==> opt_printable(
                                self.env().cx(),
                                (#[trigger] v.cases@[j]).ty,
                            ),
                    decreases v.cases@.len() - i,
                {
                    if !self.can_print_optional(&v.cases[i].ty) {
                        assert(kind->Variant_0 == *v);
                        assert(!opt_printable(self.env().cx(), v.cases@[i as int].ty));
                        return false;
                    }
                    i += 1;
                }
                assert(kind->Variant_0 == *v);
                true
            },
            TypeDefKind::Option(t) => self.can_print(t),
            TypeDefKind::Result(r) => self.can_print_optional(&r.ok) && self.can_print_optional(
                &r.err,
            ),
            TypeDefKind::List(t) => self.can_print(t),
            TypeDefKind::Type(t) => self.can_print(t),
            TypeDefKind::Handle(h) => self.can_print_id(h.resource()),
            TypeDefKind::Flags(_) => true,
            TypeDefKind::Enum(_) => true,
            TypeDefKind::Resource => true,
        }
    }

    /// Decides whether the functions of the wrapper of a resource of
    /// `iface` can be generated.
    pub fn can_wrap(&self, iface: &Interface) -> (r: bool)
        requires
            self.env().wf(),
            forall|i: int|
                0 <= i < iface.functions@.len() ==> self.env().schema.function_ok(
                    #[trigger] iface.functions@[i],
                ),
        ensures
            r == rep_printable(self.env(), *iface),
    {
        let key = match self.current_interface {
            Some((_, key, _)) => key,
            None => {
                return false;
            },
        };
        if !key_is_named(self.resolve, key) {
            return false;
        }
        let mut i: usize = 0;
        while i < iface.functions.len()
            invariant
                i <= iface.functions@.len(),
                self.env().wf(),
                forall|i: int|
                    0 <= i < iface.functions@.len() ==> self.env().schema.function_ok(
                        #[trigger] iface.functions@[i],
                    ),
                forall|j: int|
                    0 <= j < i && !((#[trigger] iface.functions@[j]).kind is Freestanding)
                        ==> fn_printable(self.env(), iface.functions@[j]),
            decreases iface.functions@.len() - i,
        {
            let f = &iface.functions[i];
            let freestanding = match f.kind {
                FunctionKind::Freestanding => true,
                _ => false,
            };
            if !freestanding && !self.can_print_fn(f) {
                assert(!fn_printable(self.env(), iface.functions@[i as int]));
                return false;
            }
            i += 1;
        }
        true
    }

    /// Decides whether the resource at `id` can be defined for the
    /// direction `dir`.
    pub fn can_define_resource(&self, dir: Direction, id: TypeId) -> (r: bool)
        requires
            self.env().wf(),
            id < self.env().schema.types@.len(),
        ensures
            r == resource_definable(self.env(), dir, id),
    {
        let schema = self.resolve;
        assert(schema.typedef_ok(id as int));
        let owner = schema.types[id].owner;
        let iface = match owner {
            TypeOwner::Interface(i) => {
                assert(schema.interface_ok(i as int));
                &schema.interfaces[i]
            },
            _ => {
                return false;
            },
        };
        let mut i: usize = 0;
        while i < iface.functions.len()
            invariant
                i <= iface.functions@.len(),
                self.env().wf(),
                *schema == self.env().schema,
                id < schema.types@.len(),
                owner == schema.types@[id as int].owner,
                owner is Interface,
                *iface == owning_interface(self.env(), id),
                forall|j: int|
                    0 <= j < iface.functions@.len() ==> schema.function_ok(
                        #[trigger] iface.functions@[j],
                    ),
                forall|j: int|
                    0 <= j < i && of_resource(#[trigger] iface.functions@[j], id) ==> sig_printable(
                        self.env(),
                        owner,
                        iface.functions@[j],
                    ),
            decreases iface.functions@.len() - i,
        {
            let f = &iface.functions[i];
            if belongs_to(f, id) && !self.can_print_sig(owner, f) {
                assert(of_resource(iface.functions@[i as int], id));
                assert(!sig_printable(self.env(), owner, iface.functions@[i as int]));
                return false;
            }
            i += 1;
        }
        if dir == Direction::Export {
            self.can_wrap(iface)
        } else {
            true
        }
    }

    /// Decides whether the type at `id` can be defined for the direction
    /// `dir`.
    pub fn can_define(&self, dir: Direction, id: TypeId) -> (r: bool)
        requires
            self.env().wf(),
        ensures
            r == type_definable(self.env(), dir, id),
    {
        let schema = self.resolve;
        if id >= schema.types.len() {
            return false;
        }
        if schema.types[id].name.is_none() {
            return false;
        }
        if !self.can_print_members(id) {
            return false;
        }
        if let TypeDefKind::Resource = schema.types[id].kind {
            self.can_define_resource(dir, id)
        } else {
            true
        }
    }

    /// Decides whether every type that the interface at `id` exports can
    /// be defined for the direction `dir`.
    pub fn can_define_types(&self, dir: Direction, id: InterfaceId) -> (r: bool)
        requires
            self.env().wf(),
            id < self.env().schema.interfaces@.len(),
        ensures
            r == types_definable(self.env(), dir, id),
    {
        let schema = self.resolve;
        let iface = &schema.interfaces[id];
        let mut i: usize = 0;
        while i < iface.types.len()
            invariant
                i <= iface.types@.len(),
                self.env().wf(),
                *schema == self.env().schema,
                id < schema.interfaces@.len(),
                *iface == schema.interfaces@[id as int],
                forall|j: int|
                    0 <= j < i ==> type_definable(self.env(), dir, (#[trigger] iface.types@[j]).1),
            decreases iface.types@.len() - i,
        {
            if !self.can_define(dir, iface.types[i].1) {
                assert(!type_definable(self.env(), dir, iface.types@[i as int].1));
                return false;
            }
            i += 1;
        }
        true
    }

    /// Decides whether the struct of the exported interface at `id`,
    /// which the world holds under `key`, can be generated.
    pub fn can_export_struct(&self, id: InterfaceId, key: &WorldKey) -> (r: bool)
        requires
            self.env().wf(),
            id < self.env().schema.interfaces@.len(),
        ensures
            r == export_struct_printable(self.env(), id, *key),
    {
        let schema = self.resolve;
        let iface = &schema.interfaces[id];
        assert(schema.interface_ok(id as int));
        if !key_is_named(schema, key) {
            return false;
        }
        if let WorldKey::Interface(_) = key {
            if iface.name.is_none() {
                return false;
            }
        }
        let mut i: usize = 0;
        while i < iface.functions.len()
            invariant
                i <= iface.functions@.len(),
                self.env().wf(),
                *schema == self.env().schema,
                id < schema.interfaces@.len(),
                *iface == schema.interfaces@[id as int],
                schema.interface_ok(id as int),
                forall|j: int|
                    0 <= j < i && (#[trigger] iface.functions@[j]).kind is Freestanding
                        ==> fn_printable(self.env(), iface.functions@[j]),
            decreases iface.functions@.len() - i,
        {
            let f = &iface.functions[i];
            if let FunctionKind::Freestanding = f.kind {
                if !self.can_print_fn(f) {
                    assert(iface.functions@[i as int].kind is Freestanding);
                    assert(!fn_printable(self.env(), iface.functions@[i as int]));
                    return false;
                }
            }
            i += 1;
        }
        true
    }
}

} // verus!
