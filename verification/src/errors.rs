//! Trappable errors: which functions return their error through a generated
//! error type, and which type that is.

use vstd::prelude::*;
use crate::opts::TrappableError;
use crate::schema::{Results, Result_, Schema, Type, TypeDefKind, TypeId, TypeOwner};
use crate::text::same;

verus! {

/// The definition that the type at `id` stands for: aliases of types are
/// followed to their end.
pub open spec fn definition_id(schema: Schema, id: TypeId) -> TypeId
    decreases id,
    when schema.typedef_ok(id as int)
{
    match schema.types@[id as int].kind {
        TypeDefKind::Type(Type::Id(def)) => definition_id(schema, def),
        _ => id,
    }
}

/// Follows aliases of types from `id` to the definition.
pub fn resolve_type_definition_id(schema: &Schema, id: TypeId) -> (r: TypeId)
    requires
        schema.wf(),
        id < schema.types@.len(),
    ensures
        r == definition_id(*schema, id),
        r <= id,
{
    let mut cur = id;
    loop
        invariant
            schema.wf(),
            cur < schema.types@.len(),
            definition_id(*schema, cur) == definition_id(*schema, id),
            cur <= id,
        decreases cur,
    {
        assert(schema.typedef_ok(cur as int));
        match schema.types[cur].kind {
            TypeDefKind::Type(Type::Id(def)) => {
                cur = def;
            },
            _ => {
                return cur;
            },
        }
    }
}

/// The type that the first entry named `name` holds.
pub open spec fn type_named(types: Seq<(String, TypeId)>, name: Seq<char>) -> Option<TypeId>
    decreases types.len(),
{
    if types.len() == 0 {
        None
    } else if types[0].0@ == name {
        Some(types[0].1)
    } else {
        type_named(types.skip(1), name)
    }
}

/// A type that `type_named` finds is the type of one of the entries.
pub proof fn lemma_type_named_is_entry(types: Seq<(String, TypeId)>, name: Seq<char>)
    ensures
        match type_named(types, name) {
            Some(id) => exists|i: int| 0 <= i < types.len() && (#[trigger] types[i]).1 == id,
            None => true,
        },
    decreases types.len(),
{
    if types.len() > 0 && types[0].0@ != name {
        lemma_type_named_is_entry(types.skip(1), name);
        if let Some(id) = type_named(types.skip(1), name) {
            let i = choose|i: int| 0 <= i < types.skip(1).len() && (#[trigger] types.skip(1)[i]).1 == id;
            assert(types[i + 1].1 == id);
        }
    }
}

/// Looks up the type that an interface exports under `name`.
pub fn find_type(types: &Vec<(String, TypeId)>, name: &str) -> (r: Option<TypeId>)
    ensures
        r == type_named(types@, name@),
{
    let mut i: usize = 0;
    assert(types@.skip(0) =~= types@);
    while i < types.len()
        invariant
            i <= types@.len(),
            type_named(types@, name@) == type_named(types@.skip(i as int), name@),
        decreases types@.len() - i,
    {
        assert(types@.skip(i as int)[0] == types@[i as int]);
        if same(types[i].0.as_str(), name) {
            return Some(types[i].1);
        }
        assert(types@.skip(i as int).skip(1) =~= types@.skip(i as int + 1));
        i += 1;
    }
    assert(types@.skip(i as int).len() == 0);
    None
}

/// Whether `owner` is a scope in which functions are generated: an
/// interface of the schema, or no owner, for the functions of the world
/// itself.  Worlds own no types yet.
pub open spec fn owner_in_scope(schema: Schema, owner: TypeOwner) -> bool {
    match owner {
        TypeOwner::Interface(id) => id < schema.interfaces@.len(),
        TypeOwner::World(_) => false,
        TypeOwner::Unowned => true,
    }
}

/// The schema type that a mapping stands for in the scope of `owner`: the
/// type that the owning interface exports under the mapping's name, where
/// the mapping names no owner or names that interface.
pub open spec fn mapped_type(schema: Schema, mapping: TrappableError, owner: TypeOwner) -> Option<
    TypeId,
> {
    match owner {
        TypeOwner::Interface(id) => {
            let iface = schema.interfaces@[id as int];
            let owner_matches = match mapping.wit_owner {
                Some(name) => iface.name is Some && iface.name->0@ == name@,
                None => true,
            };
            if owner_matches {
                type_named(iface.types@, mapping.wit_name@)
            } else {
                None
            }
        },
        _ => None,
    }
}

/// The schema type that a mapping stands for in the scope of `owner`.
pub fn mapping_type(schema: &Schema, mapping: &TrappableError, owner: TypeOwner) -> (r: Option<
    TypeId,
>)
    requires
        schema.wf(),
        owner_in_scope(*schema, owner),
    ensures
        r == mapped_type(*schema, *mapping, owner),
        r is Some ==> r->0 < schema.types@.len() && schema.types@[r->0 as int].name is Some,
{
    match owner {
        TypeOwner::Interface(id) => {
            let iface = &schema.interfaces[id];
            if let Some(name) = &mapping.wit_owner {
                match &iface.name {
                    Some(owner_name) => {
                        if !same(owner_name.as_str(), name.as_str()) {
                            return None;
                        }
                    },
                    None => {
                        return None;
                    },
                }
            }
            let r = find_type(&iface.types, mapping.wit_name.as_str());
            proof {
                assert(schema.interface_ok(id as int));
                lemma_type_named_is_entry(iface.types@, mapping.wit_name@);
            }
            r
        },
        _ => None,
    }
}

/// The first of the first `n` mappings that stands for the type `error` in
/// the scope of `owner`.
pub open spec fn first_mapping(
    schema: Schema,
    mappings: Seq<TrappableError>,
    owner: TypeOwner,
    error: TypeId,
    n: nat,
) -> Option<int>
    decreases n,
{
    if n == 0 {
        None
    } else {
        match first_mapping(schema, mappings, owner, error, (n - 1) as nat) {
            Some(i) => Some(i),
            None => if mapped_type(schema, mappings[n - 1], owner) == Some(error) {
                Some(n - 1)
            } else {
                None
            },
        }
    }
}

/// The `result` that a function returns as its only result, with the
/// definition of its error type, where that is a type of the schema.
pub open spec fn sole_result(schema: Schema, results: Results) -> Option<(Result_, TypeId)> {
    if results.types().len() == 1 {
        match results.types()[0] {
            Type::Id(id) => match schema.types@[id as int].kind {
                TypeDefKind::Result(r) => match r.err {
                    Some(Type::Id(e)) => Some((r, definition_id(schema, e))),
                    _ => None,
                },
                _ => None,
            },
            _ => None,
        }
    } else {
        None
    }
}

/// The trappable error of a function with the given results in the scope
/// of `owner`: the function returns just one `result`, whose error type is
/// the type of a mapping.  Gives the `result` and the index of the first
/// such mapping.
pub open spec fn trappable_error(
    schema: Schema,
    mappings: Seq<TrappableError>,
    owner: TypeOwner,
    results: Results,
) -> Option<(Result_, int)> {
    match sole_result(schema, results) {
        Some((r, error)) => match first_mapping(schema, mappings, owner, error, mappings.len()) {
            Some(i) => Some((r, i)),
            None => None,
        },
        None => None,
    }
}

/// The type that a function with the given results reports through a
/// trappable error type in the scope of `owner`, if it does.
pub open spec fn trapped_type(
    schema: Schema,
    mappings: Seq<TrappableError>,
    owner: TypeOwner,
    results: Results,
) -> Option<TypeId> {
    match sole_result(schema, results) {
        Some((r, error)) => if first_mapping(schema, mappings, owner, error, mappings.len())
            is Some {
            Some(error)
        } else {
            None
        },
        None => None,
    }
}

/// Finds the `result` that a function returns as its only result, with
/// the definition of its error type.
pub fn single_result(schema: &Schema, results: &Results) -> (r: Option<(Result_, TypeId)>)
    requires
        schema.wf(),
        forall|i: int|
            0 <= i < results.types().len() ==> schema.type_ok(#[trigger] results.types()[i]),
    ensures
        r == sole_result(*schema, *results),
        r is Some ==> (r->0).1 < schema.types@.len(),
{
    if results.len() != 1 {
        return None;
    }
    let id = match results.ty(0) {
        Type::Id(id) => id,
        _ => {
            return None;
        },
    };
    assert(schema.type_ok(results.types()[0]));
    assert(schema.typedef_ok(id as int));
    let result = match &schema.types[id].kind {
        TypeDefKind::Result(r) => *r,
        _ => {
            return None;
        },
    };
    match result.err {
        Some(Type::Id(e)) => Some((result, resolve_type_definition_id(schema, e))),
        _ => None,
    }
}

/// Decides whether a function with the given results returns its error
/// through a trappable error type in the scope of `owner`, and through
/// which mapping.
pub fn special_case_trappable_error(
    schema: &Schema,
    mappings: &Vec<TrappableError>,
    owner: TypeOwner,
    results: &Results,
) -> (r: Option<(Result_, usize)>)
    requires
        schema.wf(),
        owner_in_scope(*schema, owner),
        forall|i: int|
            0 <= i < results.types().len() ==> schema.type_ok(#[trigger] results.types()[i]),
    ensures
        match r {
            Some((res, i)) => trappable_error(*schema, mappings@, owner, *results) == Some(
                (res, i as int),
            ) && i < mappings@.len(),
            None => trappable_error(*schema, mappings@, owner, *results) is None,
        },
{
    let (result, error) = match single_result(schema, results) {
        Some(found) => found,
        None => {
            return None;
        },
    };
    let mut i: usize = 0;
    while i < mappings.len()
        invariant
            i <= mappings@.len(),
            schema.wf(),
            owner_in_scope(*schema, owner),
            first_mapping(*schema, mappings@, owner, error, i as nat) is None,
            sole_result(*schema, *results) == Some((result, error)),
        decreases mappings@.len() - i,
    {
        match mapping_type(schema, &mappings[i], owner) {
            Some(id) => {
                if id == error {
                    proof {
                        lemma_first_mapping_found(
                            *schema,
                            mappings@,
                            owner,
                            error,
                            i as int,
                            mappings@.len(),
                        );
                    }
                    return Some((result, i));
                }
            },
            None => {},
        }
        i += 1;
    }
    None
}

/// Where no mapping before the `i`-th stands for `error` and the `i`-th
/// does, the `i`-th is the first among any `n > i` mappings.
pub proof fn lemma_first_mapping_found(
    schema: Schema,
    mappings: Seq<TrappableError>,
    owner: TypeOwner,
    error: TypeId,
    i: int,
    n: nat,
)
    requires
        0 <= i < n,
        first_mapping(schema, mappings, owner, error, i as nat) is None,
        mapped_type(schema, mappings[i], owner) == Some(error),
    ensures
        first_mapping(schema, mappings, owner, error, n) == Some(i),
    decreases n,
{
    if n > i + 1 {
        lemma_first_mapping_found(schema, mappings, owner, error, i, (n - 1) as nat);
    }
}

} // verus!
