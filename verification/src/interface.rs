//! The generator of one interface module: its state and the pieces of text
//! that every part of a module is made of.

use vstd::prelude::*;
use vstd::string::StringExecFns;
use std::collections::HashMap;
use crate::opts::{Opts, Ownership};
use crate::rust::{Context, RustGenerator};
use crate::schema::{Docs, InterfaceId, Schema, TypeId, WorldKey};
use crate::text::{
    decimal, group_text, holds_texts, lines, lines_of, push_decimal, trim, trimmed_of,
};
use crate::types::{TypeInfo, Types};

verus! {

broadcast use {group_text, vstd::std_specs::hash::group_hash_axioms};

/// Whether bindings are generated for an import or for an export of the
/// world.
#[derive(Clone, Copy, Debug, PartialEq, Eq, Structural)]
pub enum Direction {
    Import,
    Export,
}

/// The module that stands for an interface in the generated code.
#[derive(Debug)]
pub struct InterfaceName {
    /// Whether the interface is remapped to a module that exists already.
    pub remapped: bool,
    /// The path of the module, from the root of the generated code.
    pub path: String,
}

/// What the name of an interface holds.
pub struct InterfaceNameView {
    pub remapped: bool,
    pub path: Seq<char>,
}

impl View for InterfaceName {
    type V = InterfaceNameView;

    open spec fn view(&self) -> InterfaceNameView {
        InterfaceNameView { remapped: self.remapped, path: self.path@ }
    }
}

/// What the names of the interfaces hold.
pub open spec fn names_view(names: Map<InterfaceId, InterfaceName>) -> Map<
    InterfaceId,
    InterfaceNameView,
> {
    Map::new(|i: InterfaceId| names.contains_key(i), |i: InterfaceId| names[i]@)
}

/// The names with the name `name` for the interface at `id` hold what the
/// names held, with what `name` holds for `id`.
pub proof fn lemma_names_view_insert(
    names: Map<InterfaceId, InterfaceName>,
    id: InterfaceId,
    name: InterfaceName,
)
    ensures
        names_view(names.insert(id, name)) == names_view(names).insert(id, name@),
{
    assert(names_view(names.insert(id, name)) =~= names_view(names).insert(id, name@));
}

/// The interface whose module is being generated: its index, the key
/// under which the world holds it, and whether the world exports it.
pub type Current<'a> = Option<(InterfaceId, &'a WorldKey, bool)>;

/// The path from the module being generated up to the root of the
/// generated code.
pub open spec fn root_path(current: Option<(InterfaceId, WorldKey, bool)>) -> Seq<char> {
    match current {
        Some((_, key, is_export)) => (match key {
            WorldKey::Name(_) => "super::"@,
            WorldKey::Interface(_) => "super::super::super::"@,
        }) + (if is_export {
            "super::"@
        } else {
            Seq::empty()
        }),
        None => Seq::empty(),
    }
}

/// The paths under which the interfaces are reached from the module being
/// generated: `None` for the module's own interface, and for a named
/// interface the way up to the root followed by the path of its module.
pub open spec fn paths_of(
    names: Map<InterfaceId, InterfaceNameView>,
    current: Option<(InterfaceId, WorldKey, bool)>,
) -> Map<InterfaceId, Option<Seq<char>>> {
    Map::new(
        |i: InterfaceId| names.contains_key(i) || (current is Some && (current->0).0 == i),
        |i: InterfaceId|
            if current is Some && (current->0).0 == i {
                None
            } else {
                Some(root_path(current) + names[i].path)
            },
    )
}

/// What a generator of an interface module works from.
pub struct Env {
    pub schema: Schema,
    pub infos: Seq<TypeInfo>,
    pub opts: Opts,
    pub names: Map<InterfaceId, InterfaceNameView>,
    pub current: Option<(InterfaceId, WorldKey, bool)>,
}

impl Env {
    /// What the generator knows while it spells types.
    pub open spec fn cx(self) -> Context {
        Context {
            schema: self.schema,
            infos: self.infos,
            policy: self.opts.ownership,
            paths: paths_of(self.names, self.current),
        }
    }

    /// The schema is well formed, every type has its analysis, and the
    /// current interface is in the schema.
    pub open spec fn wf(self) -> bool {
        &&& self.cx().wf()
        &&& match self.current {
            Some((id, _, _)) => id < self.schema.interfaces@.len(),
            None => true,
        }
    }
}

/// A generator of the text of one interface module.
pub struct InterfaceGenerator<'a> {
    pub src: String,
    pub opts: &'a Opts,
    pub types: &'a Types,
    pub interface_names: &'a HashMap<InterfaceId, InterfaceName>,
    pub resolve: &'a Schema,
    pub current_interface: Current<'a>,
}

/// The documentation comment made of the first `n` of the lines.
pub open spec fn doc_lines_text(lines: Seq<Seq<char>>, n: nat) -> Seq<char>
    decreases n,
{
    if n == 0 {
        Seq::empty()
    } else {
        doc_lines_text(lines, (n - 1) as nat) + "/// "@ + lines[n - 1] + "\n"@
    }
}

/// The documentation comment for the documentation of a schema item: one
/// comment line for each line of the trimmed documentation.
pub open spec fn rustdoc_text(docs: Docs) -> Seq<char> {
    match docs.contents {
        Some(contents) => {
            let lines = lines_of(trimmed_of(contents@));
            doc_lines_text(lines, lines.len())
        },
        None => Seq::empty(),
    }
}

/// The constant that asserts, when the generated code is compiled, that
/// the representation named `name` has the size and the alignment that the
/// schema gives the type at `id`.
#[verifier::opaque]
pub open spec fn assert_text(schema: Schema, id: TypeId, name: Seq<char>) -> Seq<char> {
    "const _: () = {\n"@ + "assert!("@ + decimal(schema.types@[id as int].size as nat) + " == <"@
        + name + " as wasmtime::component::ComponentType>::SIZE32);\n"@ + "assert!("@ + decimal(
        schema.types@[id as int].align as nat,
    ) + " == <"@ + name + " as wasmtime::component::ComponentType>::ALIGN32);\n"@ + "};\n"@
}

impl<'a> InterfaceGenerator<'a> {
    /// What the generator works from.
    pub open spec fn env(&self) -> Env {
        Env {
            schema: *self.resolve,
            infos: self.types@,
            opts: *self.opts,
            names: names_view(self.interface_names@),
            current: match self.current_interface {
                Some((id, key, is_export)) => Some((id, *key, is_export)),
                None => None,
            },
        }
    }

    /// Whether this generator works from what `before` worked from and has
    /// generated the text of `before` followed by `text`.
    pub open spec fn emitted(&self, before: &Self, text: Seq<char>) -> bool {
        &&& self.env() == before.env()
        &&& self.src@ == before.src@ + text
    }

    /// A generator that has generated nothing and has no current
    /// interface.
    pub fn new(
        opts: &'a Opts,
        types: &'a Types,
        interface_names: &'a HashMap<InterfaceId, InterfaceName>,
        resolve: &'a Schema,
    ) -> (r: InterfaceGenerator<'a>)
        ensures
            r.src@ == Seq::<char>::empty(),
            r.env() == (Env {
                schema: *resolve,
                infos: types@,
                opts: *opts,
                names: names_view(interface_names@),
                current: None,
            }),
    {
        InterfaceGenerator {
            src: String::new(),
            opts,
            types,
            interface_names,
            resolve,
            current_interface: None,
        }
    }

    /// Appends the decimal numeral of `n`.
    pub fn push_usize(&mut self, n: usize)
        ensures
            final(self).emitted(old(self), decimal(n as nat)),
    {
        push_decimal(&mut self.src, n);
    }

    /// Appends the documentation comment for `docs`.
    pub fn rustdoc(&mut self, docs: &Docs)
        ensures
            final(self).emitted(old(self), rustdoc_text(*docs)),
    {
        let docs = match &docs.contents {
            Some(docs) => docs,
            None => {
                return ;
            },
        };
        let all = lines(trim(docs.as_str()));
        let ghost texts = lines_of(trimmed_of(docs@));
        let mut i: usize = 0;
        while i < all.len()
            invariant
                i <= all@.len(),
                holds_texts(all@, texts),
                self.emitted(old(self), doc_lines_text(texts, i as nat)),
            decreases all@.len() - i,
        {
            self.push_str("/// ");
            self.push_str(all[i].as_str());
            self.push_str("\n");
            i += 1;
        }
    }

    /// Appends the constant that asserts the size and the alignment of the
    /// representation named `name` of the type at `id`.
    pub fn assert_type(&mut self, id: TypeId, name: &str)
        requires
            id < old(self).resolve.types@.len(),
        ensures
            final(self).emitted(old(self), assert_text(*old(self).resolve, id, name@)),
    {
        reveal(assert_text);
        let schema = self.resolve;
        self.push_str("const _: () = {\n");
        self.push_str("assert!(");
        self.push_usize(schema.types[id].size);
        self.push_str(" == <");
        self.push_str(name);
        self.push_str(" as wasmtime::component::ComponentType>::SIZE32);\n");
        self.push_str("assert!(");
        self.push_usize(schema.types[id].align);
        self.push_str(" == <");
        self.push_str(name);
        self.push_str(" as wasmtime::component::ComponentType>::ALIGN32);\n");
        self.push_str("};\n");
    }
}

impl<'a> RustGenerator<'a> for InterfaceGenerator<'a> {
    open spec fn context(&self) -> Context {
        self.env().cx()
    }

    open spec fn text(&self) -> Seq<char> {
        self.src@
    }

    fn resolve(&self) -> (r: &'a Schema) {
        self.resolve
    }

    fn push_str(&mut self, s: &str)
        ensures
            final(self).emitted(old(self), s@),
    {
        self.src.append(s);
    }

    fn info(&self, ty: TypeId) -> (r: TypeInfo) {
        self.types.get(ty)
    }

    fn path_to_interface(&self, interface: InterfaceId) -> (r: Option<String>) {
        let mut path_to_root = String::new();
        if let Some((cur, key, is_export)) = self.current_interface {
            if cur == interface {
                return None;
            }
            match key {
                WorldKey::Name(_) => {
                    path_to_root.append("super::");
                },
                WorldKey::Interface(_) => {
                    path_to_root.append("super::super::super::");
                },
            }
            if is_export {
                path_to_root.append("super::");
            }
        }
        match self.interface_names.get(&interface) {
            Some(name) => {
                path_to_root.append(name.path.as_str());
            },
            None => {},
        }
        Some(path_to_root)
    }

    fn ownership(&self) -> (r: Ownership) {
        self.opts.ownership
    }
}

} // verus!
