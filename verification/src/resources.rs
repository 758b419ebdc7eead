//! The resources that a type refers to.

use vstd::prelude::*;
use crate::schema::{Schema, Type, TypeDefKind, TypeId, TypeOwner};

verus! {

/// A resource as the generator refers to it: its schema name and where it
/// was defined.
pub type ResourceRef = (String, TypeOwner);

/// The names and owners that a list of resource references holds.
pub open spec fn refs_view(refs: Seq<ResourceRef>) -> Seq<(Seq<char>, TypeOwner)> {
    Seq::new(refs.len(), |i: int| (refs[i].0@, refs[i].1))
}

/// The resources that a use of `ty` refers to, in the order in which the
/// type mentions them.
pub open spec fn resources_of(schema: Schema, ty: Type) -> Seq<(Seq<char>, TypeOwner)>
    decreases
            (match ty {
                Type::Id(id) => id + 1,
                _ => 0,
            }),
            0nat,
            0nat,
{
    match ty {
        Type::Id(id) => id_resources_of(schema, id),
        _ => Seq::empty(),
    }
}

/// The resources that an optional type refers to.
pub open spec fn opt_resources_of(schema: Schema, ty: Option<Type>) -> Seq<(Seq<char>, TypeOwner)>
    decreases
            (match ty {
                Some(Type::Id(id)) => id + 1,
                _ => 0,
            }),
            0nat,
            1nat,
{
    match ty {
        Some(ty) => resources_of(schema, ty),
        None => Seq::empty(),
    }
}

/// The resources that the first `n` elements of the tuple at `id` refer
/// to.
pub open spec fn tuple_resources_of(schema: Schema, id: TypeId, n: nat) -> Seq<
    (Seq<char>, TypeOwner),
>
    decreases id, 0nat, n,
    when schema.typedef_ok(id as int)
{
    match schema.types@[id as int].kind {
        TypeDefKind::Tuple(t) => if 0 < n <= t.types@.len() {
            tuple_resources_of(schema, id, (n - 1) as nat) + resources_of(schema, t.types@[n - 1])
        } else {
            Seq::empty()
        },
        _ => Seq::empty(),
    }
}

/// The resources that the type at `id` refers to: the type itself where
/// it is a resource, the resource of a handle, and what the members of a
/// tuple, an option, a result, a list or an alias refer to.  The fields of
/// a record and the cases of a variant are not looked into.
pub open spec fn id_resources_of(schema: Schema, id: TypeId) -> Seq<(Seq<char>, TypeOwner)>
    decreases id, 1nat, 0nat,
    when schema.typedef_ok(id as int)
{
    let def = schema.types@[id as int];
    match def.kind {
        TypeDefKind::Resource => seq![(def.name->0@, def.owner)],
        TypeDefKind::Handle(h) => id_resources_of(schema, h.target()),
        TypeDefKind::Tuple(t) => tuple_resources_of(schema, id, t.types@.len()),
        TypeDefKind::Option(t) => resources_of(schema, t),
        TypeDefKind::Result(r) => opt_resources_of(schema, r.ok) + opt_resources_of(
            schema,
            r.err,
        ),
        TypeDefKind::List(t) => resources_of(schema, t),
        TypeDefKind::Type(t) => resources_of(schema, t),
        _ => Seq::empty(),
    }
}

/// The view of a list of references with one more reference is the view
/// of the list with the view of the reference.
pub proof fn lemma_refs_view_push(refs: Seq<ResourceRef>, r: ResourceRef)
    ensures
        refs_view(refs.push(r)) == refs_view(refs).push((r.0@, r.1)),
{
    assert(refs_view(refs.push(r)) =~= refs_view(refs).push((r.0@, r.1)));
}

/// Appends to `out` the resources that a use of `ty` refers to.
pub fn collect_resources(schema: &Schema, ty: &Type, out: &mut Vec<ResourceRef>)
    requires
        schema.wf(),
        schema.type_ok(*ty),
    ensures
        refs_view(final(out)@) == refs_view(old(out)@) + resources_of(*schema, *ty),
    decreases
            (match *ty {
                Type::Id(id) => id + 1,
                _ => 0,
            }),
            0nat,
            0nat,
{
    match ty {
        Type::Id(id) => collect_id_resources(schema, *id, out),
        _ => {
            assert(refs_view(out@) + Seq::empty() =~= refs_view(out@));
        },
    }
}

/// Appends to `out` the resources that the type at `id` refers to.
pub fn collect_id_resources(schema: &Schema, id: TypeId, out: &mut Vec<ResourceRef>)
    requires
        schema.wf(),
        id < schema.types@.len(),
    ensures
        refs_view(final(out)@) == refs_view(old(out)@) + id_resources_of(*schema, id),
    decreases id, 1nat, 0nat,
{
    let ghost before = refs_view(out@);
    assert(schema.typedef_ok(id as int));
    assert(schema.types@[id as int].kind.below(id as int));
    assert(before + Seq::empty() =~= before);
    let def = &schema.types[id];
    match &def.kind {
        TypeDefKind::Resource => {
            let name = match &def.name {
                Some(name) => name.clone(),
                None => String::new(),
            };
            proof {
                lemma_refs_view_push(out@, (name, def.owner));
            }
            out.push((name, def.owner));
            assert(before.push((name@, def.owner)) =~= before + seq![(name@, def.owner)]);
        },
        TypeDefKind::Handle(h) => {
            collect_id_resources(schema, h.resource(), out);
        },
        TypeDefKind::Tuple(t) => {
            let mut i: usize = 0;
            while i < t.types.len()
                invariant
                    i <= t.types@.len(),
                    schema.wf(),
                    id < schema.types@.len(),
                    schema.types@[id as int].kind == TypeDefKind::Tuple(*t),
                    refs_view(out@) == before + tuple_resources_of(*schema, id, i as nat),
                decreases t.types@.len() - i,
            {
                assert(schema.typedef_ok(id as int));
                assert(schema.types@[id as int].kind.below(id as int));
                assert(t.types@[i as int].below(id as int));
                collect_resources(schema, &t.types[i], out);
                assert(before + tuple_resources_of(*schema, id, i as nat) + resources_of(
                    *schema,
                    t.types@[i as int],
                ) =~= before + (tuple_resources_of(*schema, id, i as nat) + resources_of(
                    *schema,
                    t.types@[i as int],
                )));
                i += 1;
            }
        },
        TypeDefKind::Option(ty) => {
            collect_resources(schema, ty, out);
        },
        TypeDefKind::Result(r) => {
            let ghost ok = opt_resources_of(*schema, r.ok);
            let ghost err = opt_resources_of(*schema, r.err);
            if let Some(ty) = &r.ok {
                collect_resources(schema, ty, out);
            }
            assert(refs_view(out@) =~= before + ok);
            if let Some(ty) = &r.err {
                collect_resources(schema, ty, out);
            }
            assert(refs_view(out@) =~= before + ok + err);
            assert(before + ok + err =~= before + (ok + err));
        },
        TypeDefKind::List(ty) => {
            collect_resources(schema, ty, out);
        },
        TypeDefKind::Type(ty) => {
            collect_resources(schema, ty, out);
        },
        _ => {},
    }
}

/// The resources that the type at `id` refers to.
pub fn get_resource_from_tyid(schema: &Schema, id: TypeId) -> (r: Vec<ResourceRef>)
    requires
        schema.wf(),
        id < schema.types@.len(),
    ensures
        refs_view(r@) == id_resources_of(*schema, id),
{
    let mut types: Vec<ResourceRef> = Vec::new();
    assert(refs_view(types@) =~= Seq::empty());
    collect_id_resources(schema, id, &mut types);
    assert(Seq::empty() + id_resources_of(*schema, id) =~= id_resources_of(*schema, id));
    types
}

/// The resources that a use of `ty` refers to.
pub fn get_resource_from_ty(schema: &Schema, ty: &Type) -> (r: Vec<ResourceRef>)
    requires
        schema.wf(),
        schema.type_ok(*ty),
    ensures
        refs_view(r@) == resources_of(*schema, *ty),
{
    let mut types: Vec<ResourceRef> = Vec::new();
    assert(refs_view(types@) =~= Seq::empty());
    collect_resources(schema, ty, &mut types);
    assert(Seq::empty() + resources_of(*schema, *ty) =~= resources_of(*schema, *ty));
    types
}

} // verus!
