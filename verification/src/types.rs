//! What the type graph says of each type: where it is used and whether it
//! holds a list.

use vstd::prelude::*;
use crate::errors::{single_result, special_case_trappable_error, trapped_type};
use crate::opts::TrappableError;
use crate::schema::{
    Function, Schema, Type, TypeDefKind, TypeId, TypeOwner, WorldId, WorldItem, WorldKey,
};

verus! {

/// How one type definition is used by the world under generation.
#[derive(Clone, Copy, Debug, PartialEq, Eq, Structural)]
pub struct TypeInfo {
    /// Whether the type is used, directly or inside another type, where a
    /// borrowed value is acceptable: in a parameter of a function.
    pub borrowed: bool,
    /// Whether the type is used, directly or inside another type, where an
    /// owned value is required: in a result of a function.
    pub owned: bool,
    /// Whether the type is the error of a `result` that a function returns
    /// through a trappable error type.
    pub error: bool,
    /// Whether the type holds a list or a string, directly or inside
    /// another type.
    pub has_list: bool,
}

impl TypeInfo {
    /// The information on a type that nothing uses and that holds no list.
    pub open spec fn unused() -> TypeInfo {
        TypeInfo { borrowed: false, owned: false, error: false, has_list: false }
    }
}

impl Default for TypeInfo {
    fn default() -> (r: Self)
        ensures
            r == TypeInfo::unused(),
    {
        TypeInfo { borrowed: false, owned: false, error: false, has_list: false }
    }
}


/// Whether `ty` holds a list or a string, directly or inside another type.
pub open spec fn has_list(schema: Schema, ty: Type) -> bool
    decreases
            (match ty {
                Type::Id(id) => id + 1,
                _ => 0,
            }),
            0nat,
{
    match ty {
        Type::String => true,
        Type::Id(id) => id_has_list(schema, id),
        _ => false,
    }
}

/// Whether the type at `id` is a list or holds a list or a string in one of
/// its members.
pub open spec fn id_has_list(schema: Schema, id: TypeId) -> bool
    decreases id, 1nat,
    when schema.typedef_ok(id as int)
{
    match schema.types@[id as int].kind {
        TypeDefKind::Record(r) => exists|i: int|
            0 <= i < r.fields@.len() && has_list(schema, (#[trigger] r.fields@[i]).ty),
        TypeDefKind::Tuple(t) => exists|i: int|
            0 <= i < t.types@.len() && has_list(schema, #[trigger] t.types@[i]),
        TypeDefKind::Variant(v) => exists|i: int|
            0 <= i < v.cases@.len() && (#[trigger] v.cases@[i]).ty is Some && has_list(
                schema,
                v.cases@[i].ty->0,
            ),
        TypeDefKind::Option(t) => has_list(schema, t),
        TypeDefKind::Result(r) => (r.ok is Some && has_list(schema, r.ok->0)) || (r.err is Some
            && has_list(schema, r.err->0)),
        TypeDefKind::List(_) => true,
        TypeDefKind::Type(t) => has_list(schema, t),
        TypeDefKind::Resource => false,
        TypeDefKind::Handle(_) => false,
        TypeDefKind::Flags(_) => false,
        TypeDefKind::Enum(_) => false,
    }
}

/// Whether a use of `ty` is a use of the type at `target`: `ty` is that
/// type or holds it in one of its members.
pub open spec fn reaches(schema: Schema, ty: Type, target: TypeId) -> bool
    decreases
            (match ty {
                Type::Id(id) => id + 1,
                _ => 0,
            }),
            0nat,
{
    match ty {
        Type::Id(id) => id_reaches(schema, id, target),
        _ => false,
    }
}

/// Whether the type at `id` is the type at `target` or holds it in one of
/// its members.
pub open spec fn id_reaches(schema: Schema, id: TypeId, target: TypeId) -> bool
    decreases id, 1nat,
    when schema.typedef_ok(id as int)
{
    id == target || match schema.types@[id as int].kind {
        TypeDefKind::Record(r) => exists|i: int|
            0 <= i < r.fields@.len() && reaches(schema, (#[trigger] r.fields@[i]).ty, target),
        TypeDefKind::Tuple(t) => exists|i: int|
            0 <= i < t.types@.len() && reaches(schema, #[trigger] t.types@[i], target),
        TypeDefKind::Variant(v) => exists|i: int|
            0 <= i < v.cases@.len() && (#[trigger] v.cases@[i]).ty is Some && reaches(
                schema,
                v.cases@[i].ty->0,
                target,
            ),
        TypeDefKind::Option(t) => reaches(schema, t, target),
        TypeDefKind::Result(r) => (r.ok is Some && reaches(schema, r.ok->0, target)) || (r.err
            is Some && reaches(schema, r.err->0, target)),
        TypeDefKind::List(t) => reaches(schema, t, target),
        TypeDefKind::Type(t) => reaches(schema, t, target),
        TypeDefKind::Handle(h) => id_reaches(schema, h.target(), target),
        TypeDefKind::Resource => false,
        TypeDefKind::Flags(_) => false,
        TypeDefKind::Enum(_) => false,
    }
}

/// Whether a parameter of `f` uses the type at `target`.
pub open spec fn fn_borrows(schema: Schema, f: Function, target: TypeId) -> bool {
    exists|i: int| 0 <= i < f.params@.len() && reaches(schema, (#[trigger] f.params@[i]).1, target)
}

/// Whether a result of `f` uses the type at `target`.
pub open spec fn fn_owns(schema: Schema, f: Function, target: TypeId) -> bool {
    exists|i: int|
        0 <= i < f.results.types().len() && reaches(
            schema,
            #[trigger] f.results.types()[i],
            target,
        )
}

/// Whether `f`, a function in the scope of `owner`, reports the type at
/// `target` through a trappable error type.
pub open spec fn fn_errs(
    schema: Schema,
    mappings: Seq<TrappableError>,
    owner: TypeOwner,
    f: Function,
    target: TypeId,
) -> bool {
    trapped_type(schema, mappings, owner, f.results) == Some(target)
}

/// Whether a function of the world item has a parameter that uses the type
/// at `target`.
pub open spec fn item_borrows(schema: Schema, item: WorldItem, target: TypeId) -> bool {
    match item {
        WorldItem::Function(f) => fn_borrows(schema, f, target),
        WorldItem::Interface(id) => exists|j: int|
            0 <= j < schema.interfaces@[id as int].functions@.len() && fn_borrows(
                schema,
                #[trigger] schema.interfaces@[id as int].functions@[j],
                target,
            ),
        WorldItem::Type(_) => false,
    }
}

/// Whether a function of the world item has a result that uses the type at
/// `target`.
pub open spec fn item_owns(schema: Schema, item: WorldItem, target: TypeId) -> bool {
    match item {
        WorldItem::Function(f) => fn_owns(schema, f, target),
        WorldItem::Interface(id) => exists|j: int|
            0 <= j < schema.interfaces@[id as int].functions@.len() && fn_owns(
                schema,
                #[trigger] schema.interfaces@[id as int].functions@[j],
                target,
            ),
        WorldItem::Type(_) => false,
    }
}

/// Whether a function of the world item reports the type at `target`
/// through a trappable error type.
pub open spec fn item_errs(
    schema: Schema,
    mappings: Seq<TrappableError>,
    item: WorldItem,
    target: TypeId,
) -> bool {
    match item {
        WorldItem::Function(f) => fn_errs(schema, mappings, TypeOwner::Unowned, f, target),
        WorldItem::Interface(id) => exists|j: int|
            0 <= j < schema.interfaces@[id as int].functions@.len() && fn_errs(
                schema,
                mappings,
                TypeOwner::Interface(id),
                #[trigger] schema.interfaces@[id as int].functions@[j],
                target,
            ),
        WorldItem::Type(_) => false,
    }
}

/// What the first `n` of the items say of the type at `target`, added to
/// `base`.
pub open spec fn items_info(
    schema: Schema,
    mappings: Seq<TrappableError>,
    items: Seq<(WorldKey, WorldItem)>,
    n: int,
    base: TypeInfo,
    target: TypeId,
) -> TypeInfo {
    TypeInfo {
        borrowed: base.borrowed || exists|i: int|
            0 <= i < n && item_borrows(schema, (#[trigger] items[i]).1, target),
        owned: base.owned || exists|i: int|
            0 <= i < n && item_owns(schema, (#[trigger] items[i]).1, target),
        error: base.error || exists|i: int|
            0 <= i < n && item_errs(schema, mappings, (#[trigger] items[i]).1, target),
        has_list: base.has_list,
    }
}

/// The analysis of the type at `target` for the generation of `world`: it
/// is borrowed where a parameter of a function of the world uses it, owned
/// where a result does, an error where a function reports it through a
/// trappable error type, and it has a list where it holds a list or a
/// string.
pub open spec fn analysis(
    schema: Schema,
    mappings: Seq<TrappableError>,
    world: WorldId,
    target: TypeId,
) -> TypeInfo {
    let w = schema.worlds@[world as int];
    let base = TypeInfo {
        borrowed: false,
        owned: false,
        error: false,
        has_list: id_has_list(schema, target),
    };
    items_info(
        schema,
        mappings,
        w.exports@,
        w.exports@.len() as int,
        items_info(schema, mappings, w.imports@, w.imports@.len() as int, base, target),
        target,
    )
}

/// Whether a set of types holds, with each of its types, the types that
/// the type uses.
pub open spec fn closed(schema: Schema, live: Seq<bool>) -> bool {
    forall|id: TypeId, target: TypeId|
        id < live.len() && target < live.len() && live[id as int] && #[trigger] id_reaches(
            schema,
            id,
            target,
        ) ==> live[target as int]
}

/// Whether `live` holds, beside the type at `id` itself, the types of
/// `before` and the types that the type at `id` uses.
pub open spec fn grown_by(schema: Schema, before: Seq<bool>, live: Seq<bool>, id: TypeId) -> bool {
    forall|t: TypeId|
        #![trigger live[t as int]]
        #![trigger id_reaches(schema, id, t)]
        t < live.len() && t != id ==> live[t as int] == (before[t as int] || id_reaches(
            schema,
            id,
            t,
        ))
}

/// Whether `live` holds the types of `before` and the types that a use of
/// `ty` uses.
pub open spec fn marked(schema: Schema, before: Seq<bool>, live: Seq<bool>, ty: Type) -> bool {
    forall|t: TypeId|
        #![trigger live[t as int]]
        #![trigger reaches(schema, ty, t)]
        t < before.len() ==> live[t as int] == (before[t as int] || reaches(schema, ty, t))
}

/// Whether `live` holds the types of `before`, the type at `id` and the
/// types that it uses.
pub open spec fn id_marked(schema: Schema, before: Seq<bool>, live: Seq<bool>, id: TypeId) -> bool {
    forall|t: TypeId|
        #![trigger live[t as int]]
        #![trigger id_reaches(schema, id, t)]
        t < before.len() ==> live[t as int] == (before[t as int] || id_reaches(schema, id, t))
}

/// Adds to `live` the types that a use of `ty` uses.
fn add_type(schema: &Schema, live: &mut Vec<bool>, ty: &Type)
    requires
        schema.wf(),
        old(live)@.len() == schema.types@.len(),
        schema.type_ok(*ty),
        closed(*schema, old(live)@),
    ensures
        final(live)@.len() == old(live)@.len(),
        closed(*schema, final(live)@),
        marked(*schema, old(live)@, final(live)@, *ty),
    decreases
            (match *ty {
                Type::Id(id) => id + 1,
                _ => 0,
            }),
            0nat,
{
    match ty {
        Type::Id(id) => add_type_id(schema, live, *id),
        _ => {},
    }
}

/// Adds to `live` the type at `id` and the types that it uses.  A type
/// that is in the set already is not walked again.
fn add_type_id(schema: &Schema, live: &mut Vec<bool>, id: TypeId)
    requires
        schema.wf(),
        old(live)@.len() == schema.types@.len(),
        id < schema.types@.len(),
        closed(*schema, old(live)@),
    ensures
        final(live)@.len() == old(live)@.len(),
        closed(*schema, final(live)@),
        id_marked(*schema, old(live)@, final(live)@, id),
    decreases id, 1nat,
{
    let ghost before = live@;
    if live[id] {
        return ;
    }
    assert(schema.typedef_ok(id as int));
    assert(schema.types@[id as int].kind.below(id as int));
    match &schema.types[id].kind {
        TypeDefKind::Type(t) => {
            add_type(schema, live, t);
            assert(grown_by(*schema, before, live@, id));
        },
        TypeDefKind::List(t) => {
            add_type(schema, live, t);
            assert(grown_by(*schema, before, live@, id));
        },
        TypeDefKind::Option(t) => {
            add_type(schema, live, t);
            assert(grown_by(*schema, before, live@, id));
        },
        TypeDefKind::Handle(h) => {
            add_type_id(schema, live, h.resource());
            assert(grown_by(*schema, before, live@, id));
        },
        TypeDefKind::Resource => {
            assert(grown_by(*schema, before, live@, id));
        },
        TypeDefKind::Flags(_) => {
            assert(grown_by(*schema, before, live@, id));
        },
        TypeDefKind::Enum(_) => {
            assert(grown_by(*schema, before, live@, id));
        },
        TypeDefKind::Record(r) => {
            let mut i: usize = 0;
            while i < r.fields.len()
                invariant
                    i <= r.fields@.len(),
                    schema.wf(),
                    id < schema.types@.len(),
                    schema.types@[id as int].kind == TypeDefKind::Record(*r),
                    live@.len() == schema.types@.len(),
                    before.len() == live@.len(),
                    closed(*schema, live@),
                    forall|t: TypeId|
                        t < live@.len() ==> #[trigger] live@[t as int] == (before[t as int]
                            || exists|j: int|
                            0 <= j < i && reaches(*schema, (#[trigger] r.fields@[j]).ty, t)),
                decreases r.fields@.len() - i,
            {
                assert(schema.typedef_ok(id as int));
                assert(schema.types@[id as int].kind.below(id as int));
                assert(r.fields@[i as int].ty.below(id as int));
                let ghost prev = live@;
                add_type(schema, live, &r.fields[i].ty);
                proof {
                    assert forall|t: TypeId| t < live@.len() implies #[trigger] live@[t as int] == (
                    before[t as int] || exists|j: int|
                        0 <= j < i + 1 && reaches(*schema, (#[trigger] r.fields@[j]).ty, t)) by {
                        assert(live@[t as int] == (prev[t as int] || reaches(
                            *schema,
                            r.fields@[i as int].ty,
                            t,
                        )));
                    }
                }
                i += 1;
            }
            assert(grown_by(*schema, before, live@, id));
        },
        TypeDefKind::Tuple(r) => {
            let mut i: usize = 0;
            while i < r.types.len()
                invariant
                    i <= r.types@.len(),
                    schema.wf(),
                    id < schema.types@.len(),
                    schema.types@[id as int].kind == TypeDefKind::Tuple(*r),
                    live@.len() == schema.types@.len(),
                    before.len() == live@.len(),
                    closed(*schema, live@),
                    forall|t: TypeId|
                        t < live@.len() ==> #[trigger] live@[t as int] == (before[t as int]
                            || exists|j: int|
                            0 <= j < i && reaches(*schema, #[trigger] r.types@[j], t)),
                decreases r.types@.len() - i,
            {
                assert(schema.typedef_ok(id as int));
                assert(schema.types@[id as int].kind.below(id as int));
                assert(r.types@[i as int].below(id as int));
                let ghost prev = live@;
                add_type(schema, live, &r.types[i]);
                proof {
                    assert forall|t: TypeId| t < live@.len() implies #[trigger] live@[t as int] == (
                    before[t as int] || exists|j: int|
                        0 <= j < i + 1 && reaches(*schema, #[trigger] r.types@[j], t)) by {
                        assert(live@[t as int] == (prev[t as int] || reaches(
                            *schema,
                            r.types@[i as int],
                            t,
                        )));
                    }
                }
                i += 1;
            }
            assert(grown_by(*schema, before, live@, id));
        },
        TypeDefKind::Variant(v) => {
            let mut i: usize = 0;
            while i < v.cases.len()
                invariant
                    i <= v.cases@.len(),
                    schema.wf(),
                    id < schema.types@.len(),
                    schema.types@[id as int].kind == TypeDefKind::Variant(*v),
                    live@.len() == schema.types@.len(),
                    before.len() == live@.len(),
                    closed(*schema, live@),
                    forall|t: TypeId|
                        t < live@.len() ==> #[trigger] live@[t as int] == (before[t as int]
                            || exists|j: int|
                            0 <= j < i && (#[trigger] v.cases@[j]).ty is Some && reaches(
                                *schema,
                                v.cases@[j].ty->0,
                                t,
                            )),
                decreases v.cases@.len() - i,
            {
                assert(schema.typedef_ok(id as int));
                assert(schema.types@[id as int].kind.below(id as int));
                assert(crate::schema::opt_below(v.cases@[i as int].ty, id as int));
                let ghost prev = live@;
                if let Some(ty) = &v.cases[i].ty {
                    add_type(schema, live, ty);
                }
                proof {
                    assert forall|t: TypeId| t < live@.len() implies #[trigger] live@[t as int] == (
                    before[t as int] || exists|j: int|
                        0 <= j < i + 1 && (#[trigger] v.cases@[j]).ty is Some && reaches(
                            *schema,
                            v.cases@[j].ty->0,
                            t,
                        )) by {
                        assert(live@[t as int] == (prev[t as int] || (v.cases@[i as int].ty
                            is Some && reaches(*schema, v.cases@[i as int].ty->0, t))));
                    }
                }
                i += 1;
            }
            assert(grown_by(*schema, before, live@, id));
        },
        TypeDefKind::Result(r) => {
            if let Some(ty) = &r.ok {
                add_type(schema, live, ty);
            }
            if let Some(ty) = &r.err {
                add_type(schema, live, ty);
            }
            assert(grown_by(*schema, before, live@, id));
        },
    }
    let ghost members = live@;
    live.set(id, true);
    proof {
        assert forall|a: TypeId, b: TypeId|
            a < live@.len() && b < live@.len() && live@[a as int] && #[trigger] id_reaches(
                *schema,
                a,
                b,
            ) implies live@[b as int] by {
            if a != id {
                assert(members[a as int]);
                assert(members[b as int]);
            }
        }
    }
}


/// Whether each analysis of `infos` says of its type whether it has a
/// list.
pub open spec fn listed(schema: Schema, infos: Seq<TypeInfo>) -> bool {
    forall|t: TypeId|
        t < infos.len() ==> (#[trigger] infos[t as int]) == (TypeInfo {
            borrowed: false,
            owned: false,
            error: false,
            has_list: id_has_list(schema, t),
        })
}

/// Whether `ty` holds a list or a string, given the analysis of the types
/// that it may refer to.
fn type_has_list(schema: &Schema, infos: &Vec<TypeInfo>, ty: &Type) -> (r: bool)
    requires
        schema.wf(),
        infos@.len() <= schema.types@.len(),
        ty.below(infos@.len() as int),
        listed(*schema, infos@),
    ensures
        r == has_list(*schema, *ty),
{
    match ty {
        Type::String => true,
        Type::Id(id) => {
            assert(schema.typedef_ok(*id as int));
            infos[*id].has_list
        },
        _ => false,
    }
}

/// Whether the type at `id` has a list, given the analysis of the types
/// before it.
fn type_id_has_list(schema: &Schema, infos: &Vec<TypeInfo>, id: TypeId) -> (r: bool)
    requires
        schema.wf(),
        id < schema.types@.len(),
        infos@.len() == id,
        listed(*schema, infos@),
    ensures
        r == id_has_list(*schema, id),
{
    assert(schema.typedef_ok(id as int));
    assert(schema.types@[id as int].kind.below(id as int));
    match &schema.types[id].kind {
        TypeDefKind::Record(r) => {
            let mut found = false;
            let mut i: usize = 0;
            while i < r.fields.len()
                invariant
                    i <= r.fields@.len(),
                    infos@.len() == id,
                    schema.wf(),
                    id < schema.types@.len(),
                    listed(*schema, infos@),
                    schema.types@[id as int].kind == TypeDefKind::Record(*r),
                    schema.types@[id as int].kind.below(id as int),
                    found == exists|j: int|
                        0 <= j < i && has_list(*schema, (#[trigger] r.fields@[j]).ty),
                decreases r.fields@.len() - i,
            {
                assert(r.fields@[i as int].ty.below(id as int));
                if type_has_list(schema, infos, &r.fields[i].ty) {
                    found = true;
                }
                i += 1;
            }
            found
        },
        TypeDefKind::Tuple(t) => {
            let mut found = false;
            let mut i: usize = 0;
            while i < t.types.len()
                invariant
                    i <= t.types@.len(),
                    infos@.len() == id,
                    schema.wf(),
                    id < schema.types@.len(),
                    listed(*schema, infos@),
                    schema.types@[id as int].kind == TypeDefKind::Tuple(*t),
                    schema.types@[id as int].kind.below(id as int),
                    found == exists|j: int| 0 <= j < i && has_list(*schema, #[trigger] t.types@[j]),
                decreases t.types@.len() - i,
            {
                assert(schema.typedef_ok(id as int));
                assert(schema.types@[id as int].kind.below(id as int));
                assert(t.types@[i as int].below(id as int));
                if type_has_list(schema, infos, &t.types[i]) {
                    found = true;
                }
                i += 1;
            }
            found
        },
        TypeDefKind::Variant(v) => {
            let mut found = false;
            let mut i: usize = 0;
            while i < v.cases.len()
                invariant
                    i <= v.cases@.len(),
                    infos@.len() == id,
                    schema.wf(),
                    id < schema.types@.len(),
                    listed(*schema, infos@),
                    schema.types@[id as int].kind == TypeDefKind::Variant(*v),
                    schema.types@[id as int].kind.below(id as int),
                    found == exists|j: int|
                        0 <= j < i && (#[trigger] v.cases@[j]).ty is Some && has_list(
                            *schema,
                            v.cases@[j].ty->0,
                        ),
                decreases v.cases@.len() - i,
            {
                assert(crate::schema::opt_below(v.cases@[i as int].ty, id as int));
                if let Some(ty) = &v.cases[i].ty {
                    if type_has_list(schema, infos, ty) {
                        found = true;
                    }
                }
                i += 1;
            }
            found
        },
        TypeDefKind::Option(t) => type_has_list(schema, infos, t),
        TypeDefKind::Result(r) => {
            let ok = match &r.ok {
                Some(ty) => type_has_list(schema, infos, ty),
                None => false,
            };
            let err = match &r.err {
                Some(ty) => type_has_list(schema, infos, ty),
                None => false,
            };
            ok || err
        },
        TypeDefKind::List(_) => true,
        TypeDefKind::Type(t) => type_has_list(schema, infos, t),
        TypeDefKind::Resource => false,
        TypeDefKind::Handle(_) => false,
        TypeDefKind::Flags(_) => false,
        TypeDefKind::Enum(_) => false,
    }
}

/// What a function in the scope of `owner` says of the type at `target`,
/// added to `base`.
pub open spec fn fn_info(
    schema: Schema,
    mappings: Seq<TrappableError>,
    owner: TypeOwner,
    f: Function,
    base: TypeInfo,
    target: TypeId,
) -> TypeInfo {
    TypeInfo {
        borrowed: base.borrowed || fn_borrows(schema, f, target),
        owned: base.owned || fn_owns(schema, f, target),
        error: base.error || fn_errs(schema, mappings, owner, f, target),
        has_list: base.has_list,
    }
}

/// What the first `n` functions of the item say of the type at `target`,
/// added to `base`.
pub open spec fn item_info(
    schema: Schema,
    mappings: Seq<TrappableError>,
    item: WorldItem,
    n: int,
    base: TypeInfo,
    target: TypeId,
) -> TypeInfo {
    match item {
        WorldItem::Function(f) => if n > 0 {
            fn_info(schema, mappings, TypeOwner::Unowned, f, base, target)
        } else {
            base
        },
        WorldItem::Interface(id) => {
            let fs = schema.interfaces@[id as int].functions@;
            TypeInfo {
                borrowed: base.borrowed || exists|j: int|
                    0 <= j < n && fn_borrows(schema, #[trigger] fs[j], target),
                owned: base.owned || exists|j: int|
                    0 <= j < n && fn_owns(schema, #[trigger] fs[j], target),
                error: base.error || exists|j: int|
                    0 <= j < n && fn_errs(
                        schema,
                        mappings,
                        TypeOwner::Interface(id),
                        #[trigger] fs[j],
                        target,
                    ),
                has_list: base.has_list,
            }
        },
        WorldItem::Type(_) => base,
    }
}

/// Whether `after` is `before` with what `f` says added for every type.
pub open spec fn fn_applied(
    schema: Schema,
    mappings: Seq<TrappableError>,
    owner: TypeOwner,
    f: Function,
    before: Seq<TypeInfo>,
    after: Seq<TypeInfo>,
) -> bool {
    &&& after.len() == before.len()
    &&& forall|t: TypeId|
        t < before.len() ==> #[trigger] after[t as int] == fn_info(
            schema,
            mappings,
            owner,
            f,
            before[t as int],
            t,
        )
}

/// Whether `after` is `before` with what the first `n` functions of the
/// item say added for every type.
pub open spec fn item_applied(
    schema: Schema,
    mappings: Seq<TrappableError>,
    item: WorldItem,
    n: int,
    before: Seq<TypeInfo>,
    after: Seq<TypeInfo>,
) -> bool {
    &&& after.len() == before.len()
    &&& forall|t: TypeId|
        t < before.len() ==> #[trigger] after[t as int] == item_info(
            schema,
            mappings,
            item,
            n,
            before[t as int],
            t,
        )
}

/// Whether `after` is `before` with what the first `n` items say added for
/// every type.
pub open spec fn items_applied(
    schema: Schema,
    mappings: Seq<TrappableError>,
    items: Seq<(WorldKey, WorldItem)>,
    n: int,
    before: Seq<TypeInfo>,
    after: Seq<TypeInfo>,
) -> bool {
    &&& after.len() == before.len()
    &&& forall|t: TypeId|
        t < before.len() ==> #[trigger] after[t as int] == items_info(
            schema,
            mappings,
            items,
            n,
            before[t as int],
            t,
        )
}

/// Whether `live` holds just the types that the first `n` of `types` use.
pub open spec fn live_of(schema: Schema, types: Seq<Type>, n: int, live: Seq<bool>) -> bool {
    forall|t: TypeId|
        t < live.len() ==> #[trigger] live[t as int] == exists|j: int|
            0 <= j < n && reaches(schema, #[trigger] types[j], t)
}

/// The set of no types.
fn no_types(schema: &Schema) -> (live: Vec<bool>)
    ensures
        live@.len() == schema.types@.len(),
        forall|t: int| 0 <= t < live@.len() ==> !#[trigger] live@[t],
        closed(*schema, live@),
{
    let mut live: Vec<bool> = Vec::new();
    while live.len() < schema.types.len()
        invariant
            live@.len() <= schema.types@.len(),
            forall|t: int| 0 <= t < live@.len() ==> !#[trigger] live@[t],
        decreases schema.types@.len() - live@.len(),
    {
        live.push(false);
    }
    live
}

/// The analysis of the types of a schema for one world.
#[derive(Debug)]
pub struct Types {
    type_info: Vec<TypeInfo>,
}

impl Types {
    /// The analysis of each type, by type index.
    pub closed spec fn view(&self) -> Seq<TypeInfo> {
        self.type_info@
    }

    /// An analysis of no types.
    pub fn new() -> (r: Self)
        ensures
            r@.len() == 0,
    {
        Types { type_info: Vec::new() }
    }

    /// The analysis of the type at `id`.
    pub fn get(&self, id: TypeId) -> (r: TypeInfo)
        requires
            id < self@.len(),
        ensures
            r == self@[id as int],
    {
        self.type_info[id]
    }

    /// The number of types that were analysed.
    pub fn len(&self) -> (n: usize)
        ensures
            n == self@.len(),
    {
        self.type_info.len()
    }

    /// Marks as borrowed the types that the parameters of `f` use.
    fn mark_params(&mut self, schema: &Schema, f: &Function)
        requires
            schema.wf(),
            schema.function_ok(*f),
            old(self)@.len() == schema.types@.len(),
        ensures
            final(self)@.len() == old(self)@.len(),
            borrowed_by(*schema, *f, old(self)@, final(self)@),
    {
        let mut live = no_types(schema);
        let ghost params = Seq::new(f.params@.len(), |j: int| f.params@[j].1);
        let mut i: usize = 0;
        while i < f.params.len()
            invariant
                i <= f.params@.len(),
                schema.wf(),
                schema.function_ok(*f),
                live@.len() == schema.types@.len(),
                closed(*schema, live@),
                params == Seq::new(f.params@.len(), |j: int| f.params@[j].1),
                live_of(*schema, params, i as int, live@),
            decreases f.params@.len() - i,
        {
            let ghost prev = live@;
            add_type(schema, &mut live, &f.params[i].1);
            proof {
                assert(params[i as int] == f.params@[i as int].1);
                assert forall|t: TypeId| t < live@.len() implies #[trigger] live@[t as int]
                    == exists|j: int|
                    0 <= j < i + 1 && reaches(*schema, #[trigger] params[j], t) by {
                    assert(live@[t as int] == (prev[t as int] || reaches(
                        *schema,
                        params[i as int],
                        t,
                    )));
                }
            }
            i += 1;
        }
        let ghost before = self@;
        let mut t: usize = 0;
        while t < self.type_info.len()
            invariant
                t <= self@.len(),
                self@.len() == before.len(),
                live@.len() == before.len(),
                forall|k: TypeId|
                    k < before.len() ==> #[trigger] self@[k as int] == (if k < t && live@[k as int] {
                        TypeInfo { borrowed: true, ..before[k as int] }
                    } else {
                        before[k as int]
                    }),
            decreases self@.len() - t,
        {
            if live[t] {
                let mut info = self.type_info[t];
                info.borrowed = true;
                self.type_info.set(t, info);
            }
            t += 1;
        }
        proof {
            assert forall|k: TypeId| k < before.len() implies #[trigger] self@[k as int] == (TypeInfo {
                borrowed: before[k as int].borrowed || fn_borrows(*schema, *f, k),
                ..before[k as int]
            }) by {
                if live@[k as int] {
                    let j = choose|j: int| 0 <= j < i && reaches(*schema, #[trigger] params[j], k);
                    assert(reaches(*schema, f.params@[j].1, k));
                }
                if fn_borrows(*schema, *f, k) {
                    let j = choose|j: int|
                        0 <= j < f.params@.len() && reaches(
                            *schema,
                            (#[trigger] f.params@[j]).1,
                            k,
                        );
                    assert(reaches(*schema, params[j], k));
                }
            }
        }
    }

    /// Marks as owned the types that the results of `f` use.
    fn mark_results(&mut self, schema: &Schema, f: &Function)
        requires
            schema.wf(),
            schema.function_ok(*f),
            old(self)@.len() == schema.types@.len(),
        ensures
            final(self)@.len() == old(self)@.len(),
            owned_by(*schema, *f, old(self)@, final(self)@),
    {
        let mut live = no_types(schema);
        let ghost results = f.results.types();
        let mut i: usize = 0;
        while i < f.results.len()
            invariant
                i <= results.len(),
                schema.wf(),
                schema.function_ok(*f),
                live@.len() == schema.types@.len(),
                closed(*schema, live@),
                results == f.results.types(),
                live_of(*schema, results, i as int, live@),
            decreases results.len() - i,
        {
            let ghost prev = live@;
            let ty = f.results.ty(i);
            assert(schema.type_ok(results[i as int]));
            add_type(schema, &mut live, &ty);
            proof {
                assert forall|t: TypeId| t < live@.len() implies #[trigger] live@[t as int]
                    == exists|j: int|
                    0 <= j < i + 1 && reaches(*schema, #[trigger] results[j], t) by {
                    assert(live@[t as int] == (prev[t as int] || reaches(
                        *schema,
                        results[i as int],
                        t,
                    )));
                }
            }
            i += 1;
        }
        let ghost before = self@;
        let mut t: usize = 0;
        while t < self.type_info.len()
            invariant
                t <= self@.len(),
                self@.len() == before.len(),
                live@.len() == before.len(),
                forall|k: TypeId|
                    k < before.len() ==> #[trigger] self@[k as int] == (if k < t && live@[k as int] {
                        TypeInfo { owned: true, ..before[k as int] }
                    } else {
                        before[k as int]
                    }),
            decreases self@.len() - t,
        {
            if live[t] {
                let mut info = self.type_info[t];
                info.owned = true;
                self.type_info.set(t, info);
            }
            t += 1;
        }
    }

    /// Adds to the analysis what one function in the scope of `owner` says:
    /// the types that its parameters use are borrowed, the types that its
    /// results use are owned, and the error type that it reports through a
    /// trappable error type is an error.
    fn type_info_func(
        &mut self,
        schema: &Schema,
        mappings: &Vec<TrappableError>,
        owner: TypeOwner,
        f: &Function,
    )
        requires
            schema.wf(),
            schema.function_ok(*f),
            crate::errors::owner_in_scope(*schema, owner),
            old(self)@.len() == schema.types@.len(),
        ensures
            fn_applied(*schema, mappings@, owner, *f, old(self)@, final(self)@),
    {
        let ghost before = self@;
        self.mark_params(schema, f);
        self.mark_results(schema, f);
        let ghost marked = self@;
        if special_case_trappable_error(schema, mappings, owner, &f.results).is_some() {
            if let Some((_, error)) = single_result(schema, &f.results) {
                let mut info = self.type_info[error];
                info.error = true;
                self.type_info.set(error, info);
            }
        }
        proof {
            assert forall|t: TypeId| t < before.len() implies #[trigger] self@[t as int] == fn_info(
                *schema,
                mappings@,
                owner,
                *f,
                before[t as int],
                t,
            ) by {
                assert(marked[t as int].borrowed == (before[t as int].borrowed || fn_borrows(
                    *schema,
                    *f,
                    t,
                )));
            }
        }
    }

    /// Adds to the analysis what the functions of one world item say.
    fn analyze_item(&mut self, schema: &Schema, mappings: &Vec<TrappableError>, item: &WorldItem)
        requires
            schema.wf(),
            match *item {
                WorldItem::Interface(id) => id < schema.interfaces@.len(),
                WorldItem::Function(f) => schema.function_ok(f),
                WorldItem::Type(_) => true,
            },
            old(self)@.len() == schema.types@.len(),
        ensures
            item_applied(
                *schema,
                mappings@,
                *item,
                match *item {
                    WorldItem::Interface(id) => schema.interfaces@[id as int].functions@.len() as int,
                    _ => 1,
                },
                old(self)@,
                final(self)@,
            ),
    {
        let ghost before = self@;
        match item {
            WorldItem::Function(f) => {
                self.type_info_func(schema, mappings, TypeOwner::Unowned, f);
            },
            WorldItem::Interface(id) => {
                let iface = &schema.interfaces[*id];
                let mut j: usize = 0;
                while j < iface.functions.len()
                    invariant
                        j <= iface.functions@.len(),
                        schema.wf(),
                        *id < schema.interfaces@.len(),
                        *iface == schema.interfaces@[*id as int],
                        self@.len() == schema.types@.len(),
                        item_applied(*schema, mappings@, *item, j as int, before, self@),
                        *item == WorldItem::Interface(*id),
                    decreases iface.functions@.len() - j,
                {
                    assert(schema.interface_ok(*id as int));
                    let ghost prev = self@;
                    self.type_info_func(
                        schema,
                        mappings,
                        TypeOwner::Interface(*id),
                        &iface.functions[j],
                    );
                    proof {
                        assert forall|t: TypeId| t < before.len() implies #[trigger] self@[t as int]
                            == item_info(
                            *schema,
                            mappings@,
                            *item,
                            j + 1,
                            before[t as int],
                            t,
                        ) by {
                            assert(prev[t as int] == item_info(
                                *schema,
                                mappings@,
                                *item,
                                j as int,
                                before[t as int],
                                t,
                            ));
                        }
                    }
                    j += 1;
                }
            },
            WorldItem::Type(_) => {},
        }
    }

    /// Adds to the analysis what the functions of the given imports or
    /// exports say.
    fn analyze_items(
        &mut self,
        schema: &Schema,
        mappings: &Vec<TrappableError>,
        items: &Vec<(WorldKey, WorldItem)>,
    )
        requires
            schema.wf(),
            forall|i: int| 0 <= i < items@.len() ==> schema.item_ok(#[trigger] items@[i]),
            old(self)@.len() == schema.types@.len(),
        ensures
            items_applied(
                *schema,
                mappings@,
                items@,
                items@.len() as int,
                old(self)@,
                final(self)@,
            ),
    {
        let ghost before = self@;
        let mut i: usize = 0;
        while i < items.len()
            invariant
                i <= items@.len(),
                schema.wf(),
                forall|i: int| 0 <= i < items@.len() ==> schema.item_ok(#[trigger] items@[i]),
                self@.len() == schema.types@.len(),
                items_applied(*schema, mappings@, items@, i as int, before, self@),
            decreases items@.len() - i,
        {
            assert(schema.item_ok(items@[i as int]));
            let ghost prev = self@;
            self.analyze_item(schema, mappings, &items[i].1);
            proof {
                let item = items@[i as int].1;
                assert forall|t: TypeId| t < before.len() implies #[trigger] self@[t as int]
                    == items_info(*schema, mappings@, items@, i + 1, before[t as int], t) by {
                    assert(prev[t as int] == items_info(
                        *schema,
                        mappings@,
                        items@,
                        i as int,
                        before[t as int],
                        t,
                    ));
                    let n = match item {
                        WorldItem::Interface(id) => schema.interfaces@[id as int].functions@.len() as int,
                        _ => 1,
                    };
                    assert(self@[t as int] == item_info(
                        *schema,
                        mappings@,
                        item,
                        n,
                        prev[t as int],
                        t,
                    ));
                    lemma_item_info(*schema, mappings@, item, prev[t as int], t);
                }
            }
            i += 1;
        }
    }

    /// Analyses the types of `schema` for the generation of `world`.
    pub fn analyze(&mut self, schema: &Schema, world: WorldId, mappings: &Vec<TrappableError>)
        requires
            schema.wf(),
            world < schema.worlds@.len(),
        ensures
            analyzed(*schema, mappings@, world, final(self)@),
    {
        let mut infos: Vec<TypeInfo> = Vec::new();
        while infos.len() < schema.types.len()
            invariant
                infos@.len() <= schema.types@.len(),
                schema.wf(),
                listed(*schema, infos@),
            decreases schema.types@.len() - infos@.len(),
        {
            let has = type_id_has_list(schema, &infos, infos.len());
            infos.push(TypeInfo { borrowed: false, owned: false, error: false, has_list: has });
        }
        self.type_info = infos;
        let ghost base = self@;
        let w = &schema.worlds[world];
        assert(schema.world_ok(world as int));
        self.analyze_items(schema, mappings, &w.imports);
        let ghost imported = self@;
        self.analyze_items(schema, mappings, &w.exports);
        proof {
            assert forall|t: TypeId| t < schema.types@.len() implies #[trigger] self@[t as int]
                == analysis(*schema, mappings@, world, t) by {
                assert(imported[t as int] == items_info(
                    *schema,
                    mappings@,
                    w.imports@,
                    w.imports@.len() as int,
                    base[t as int],
                    t,
                ));
            }
        }
    }
}

impl Default for Types {
    fn default() -> (r: Self)
        ensures
            r@.len() == 0,
    {
        Types::new()
    }
}

/// Whether `after` is `before` with the types that the parameters of `f`
/// use marked as borrowed.
pub open spec fn borrowed_by(
    schema: Schema,
    f: Function,
    before: Seq<TypeInfo>,
    after: Seq<TypeInfo>,
) -> bool {
    forall|t: TypeId|
        t < before.len() ==> #[trigger] after[t as int] == (TypeInfo {
            borrowed: before[t as int].borrowed || fn_borrows(schema, f, t),
            ..before[t as int]
        })
}

/// Whether `after` is `before` with the types that the results of `f` use
/// marked as owned.
pub open spec fn owned_by(
    schema: Schema,
    f: Function,
    before: Seq<TypeInfo>,
    after: Seq<TypeInfo>,
) -> bool {
    forall|t: TypeId|
        t < before.len() ==> #[trigger] after[t as int] == (TypeInfo {
            owned: before[t as int].owned || fn_owns(schema, f, t),
            ..before[t as int]
        })
}

/// Whether `infos` holds the analysis of every type of the schema for the
/// generation of `world`.
pub open spec fn analyzed(
    schema: Schema,
    mappings: Seq<TrappableError>,
    world: WorldId,
    infos: Seq<TypeInfo>,
) -> bool {
    &&& infos.len() == schema.types@.len()
    &&& forall|t: TypeId|
        t < infos.len() ==> #[trigger] infos[t as int] == analysis(schema, mappings, world, t)
}

/// What all functions of an item say of a type is what the item says of it.
pub proof fn lemma_item_info(
    schema: Schema,
    mappings: Seq<TrappableError>,
    item: WorldItem,
    base: TypeInfo,
    target: TypeId,
)
    ensures
        ({
            let n = match item {
                WorldItem::Interface(id) => schema.interfaces@[id as int].functions@.len() as int,
                _ => 1,
            };
            let info = item_info(schema, mappings, item, n, base, target);
            &&& info.borrowed == (base.borrowed || item_borrows(schema, item, target))
            &&& info.owned == (base.owned || item_owns(schema, item, target))
            &&& info.error == (base.error || item_errs(schema, mappings, item, target))
            &&& info.has_list == base.has_list
        }),
{
}

} // verus!
