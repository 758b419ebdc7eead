//! The generation of a world from beginning to end, and the decision
//! whether a world can be generated.

use vstd::prelude::*;
use vstd::string::StringExecFns;
use crate::exports::interface_name;
use crate::modules::{in_package_order, law_placing_keeps_package_order, ModuleView};
use crate::names::snake_case_of;
use crate::opts::{Opts, TrappableError};
use crate::schema::{InterfaceId, Schema, World, WorldId, WorldItem, WorldKey};
use crate::text::{group_text, opt_text, same};
use crate::types::{analysis, TypeInfo};
use crate::world::{
    Assembly, Cause, Config, Wasmtime, export_cause, import_cause, export_body_text, export_ok, exported, import_body_text, import_ok,
    imported, interface_exported, interface_imported, interface_named, key_package, module_wrap,
};
use crate::assemble::finish_text;

verus! {

broadcast use {group_text, vstd::std_specs::hash::group_hash_axioms};

/// Whether the options ask for the bindings of `item`: with
/// `only_interfaces`, only interfaces are generated.
pub open spec fn included(opts: Opts, item: WorldItem) -> bool {
    !opts.only_interfaces || item is Interface
}

/// What is collected before the first item.
pub open spec fn nothing() -> Assembly {
    Assembly {
        src: Seq::empty(),
        imports: Seq::empty(),
        import_functions: Seq::empty(),
        fields: Seq::empty(),
        export_modules: Seq::empty(),
        funcs: Seq::empty(),
        names: Map::empty(),
        counter: 0,
    }
}

/// What is collected after the first `n` imports of the world.
pub open spec fn imports_done(cfg: Config, world: World, n: nat) -> Assembly
    decreases n,
{
    if n == 0 {
        nothing()
    } else {
        let before = imports_done(cfg, world, (n - 1) as nat);
        let entry = world.imports@[n - 1];
        if included(cfg.opts, entry.1) {
            imported(cfg, before, entry.0, entry.1)
        } else {
            before
        }
    }
}

/// What is collected after all imports and the first `n` exports of the
/// world.
pub open spec fn exports_done(cfg: Config, world: World, n: nat) -> Assembly
    decreases n,
{
    if n == 0 {
        imports_done(cfg, world, world.imports@.len())
    } else {
        let before = exports_done(cfg, world, (n - 1) as nat);
        let entry = world.exports@[n - 1];
        if included(cfg.opts, entry.1) {
            exported(cfg, before, entry.0, entry.1)
        } else {
            before
        }
    }
}

/// The analysis of every type of the schema for the world at `world`.
pub open spec fn analysis_of(schema: Schema, mappings: Seq<TrappableError>, world: WorldId) -> Seq<
    TypeInfo,
> {
    Seq::new(schema.types@.len(), |t: int| analysis(schema, mappings, world, t as usize))
}

/// What the generation of the world at `world` works from.
pub open spec fn config(schema: Schema, opts: Opts, world: WorldId) -> Config {
    Config { schema, opts, infos: analysis_of(schema, opts.trappable_error_type@, world) }
}

/// Whether the interfaces that serve as keys of the items come, where
/// they come from packages of one namespace and name, from one version of
/// it: a tree of modules cannot hold two packages of one name.
pub open spec fn versions_agree(schema: Schema, items: Seq<(WorldKey, WorldItem)>) -> bool {
    forall|i: int, j: int|
        0 <= i < items.len() && 0 <= j < items.len() && (#[trigger] items[i]).0 is Interface && (
        #[trigger] items[j]).0 is Interface ==> {
            let a = schema.packages@[schema.interfaces@[items[i].0->Interface_0 as int].package->0 as int].name;
            let b = schema.packages@[schema.interfaces@[items[j].0->Interface_0 as int].package->0 as int].name;
            a.namespace@ == b.namespace@ && a.name@ == b.name@ ==> opt_text(a.version) == opt_text(
                b.version,
            )
        }
}

/// Whether bindings can be generated for the world at `world`: the schema
/// is well formed, every item that the options ask for can be imported or
/// exported when its turn comes, and the packages of the interfaces agree
/// in their versions.
pub open spec fn generatable(schema: Schema, opts: Opts, world: WorldId) -> bool {
    let cfg = config(schema, opts, world);
    let w = schema.worlds@[world as int];
    &&& schema.wf()
    &&& world < schema.worlds@.len()
    &&& versions_agree(schema, w.imports@)
    &&& versions_agree(schema, w.exports@)
    &&& forall|i: int|
        0 <= i < w.imports@.len() && included(opts, (#[trigger] w.imports@[i]).1) ==> import_ok(
            cfg,
            imports_done(cfg, w, i as nat),
            w.imports@[i].0,
            w.imports@[i].1,
        )
    &&& forall|i: int|
        0 <= i < w.exports@.len() && included(opts, (#[trigger] w.exports@[i]).1) ==> export_ok(
            cfg,
            exports_done(cfg, w, i as nat),
            w.exports@[i].0,
            w.exports@[i].1,
        )
}

/// The bindings of the world at `world`.
pub open spec fn generated(schema: Schema, opts: Opts, world: WorldId) -> Seq<char> {
    let cfg = config(schema, opts, world);
    let w = schema.worlds@[world as int];
    finish_text(cfg, exports_done(cfg, w, w.exports@.len()), w.name@)
}

impl<'a> Wasmtime<'a> {
    /// Generates the bindings of the world at `id`.
    pub fn generate(&mut self, resolve: &Schema, id: WorldId) -> (r: String)
        requires
            old(self)@ == nothing(),
            generatable(*resolve, *old(self).opts, id),
        ensures
            r@ == generated(*resolve, *old(self).opts, id),
    {
        let ghost cfg = config(*resolve, *self.opts, id);
        self.types.analyze(resolve, id, &self.opts.trappable_error_type);
        proof {
            assert(resolve.types@.len() == resolve.types.len());
            assert forall|i: int| 0 <= i < cfg.infos.len() implies self.types@[i] == cfg.infos[i] by {
                let t = i as usize;
                assert(t as int == i);
                assert(self.types@[t as int] == analysis(
                    *resolve,
                    self.opts.trappable_error_type@,
                    id,
                    t,
                ));
            }
            assert(self.types@ =~= cfg.infos);
        }
        let world = &resolve.worlds[id];
        let mut i: usize = 0;
        while i < world.imports.len()
            invariant
                i <= world.imports@.len(),
                *world == resolve.worlds@[id as int],
                generatable(*resolve, *self.opts, id),
                self.opts == old(self).opts,
                self.cfg(*resolve) == cfg,
                cfg == config(*resolve, *self.opts, id),
                self@ == imports_done(cfg, *world, i as nat),
            decreases world.imports@.len() - i,
        {
            let included = !self.opts.only_interfaces || match &world.imports[i].1 {
                WorldItem::Interface(_) => true,
                _ => false,
            };
            if included {
                self.import(resolve, &world.imports[i].0, &world.imports[i].1);
            }
            i += 1;
        }
        let mut i: usize = 0;
        while i < world.exports.len()
            invariant
                i <= world.exports@.len(),
                *world == resolve.worlds@[id as int],
                generatable(*resolve, *self.opts, id),
                self.opts == old(self).opts,
                self.cfg(*resolve) == cfg,
                cfg == config(*resolve, *self.opts, id),
                self@ == exports_done(cfg, *world, i as nat),
            decreases world.exports@.len() - i,
        {
            let included = !self.opts.only_interfaces || match &world.exports[i].1 {
                WorldItem::Interface(_) => true,
                _ => false,
            };
            if included {
                self.export(resolve, &world.exports[i].0, &world.exports[i].1);
            }
            i += 1;
        }
        self.finish(resolve, world.name.as_str())
    }
}

impl Opts {
    /// Generates the bindings of the world at `world` of the schema
    /// `resolve`: the text of the Rust code, unformatted.
    pub fn generate(&self, resolve: &Schema, world: WorldId) -> (r: String)
        requires
            generatable(*resolve, *self, world),
        ensures
            r@ == generated(*resolve, *self, world),
    {
        let mut r = Wasmtime::new(self);
        r.generate(resolve, world)
    }
}

/// Whether two optional strings hold the same text, or both none.
fn same_optional(a: &Option<String>, b: &Option<String>) -> (r: bool)
    ensures
        r == (opt_text(*a) == opt_text(*b)),
{
    match (a, b) {
        (Some(a), Some(b)) => same(a.as_str(), b.as_str()),
        (None, None) => true,
        _ => false,
    }
}

/// Whether the packages of the interfaces at `i` and `j` of the items
/// agree in their version where they agree in namespace and name.
pub open spec fn versions_agree_at(
    schema: Schema,
    items: Seq<(WorldKey, WorldItem)>,
    i: int,
    j: int,
) -> bool {
    items[i].0 is Interface && items[j].0 is Interface ==> {
        let a = schema.packages@[schema.interfaces@[items[i].0->Interface_0 as int].package->0 as int].name;
        let b = schema.packages@[schema.interfaces@[items[j].0->Interface_0 as int].package->0 as int].name;
        a.namespace@ == b.namespace@ && a.name@ == b.name@ ==> opt_text(a.version) == opt_text(
            b.version,
        )
    }
}

/// Decides whether the packages of the interfaces that serve as keys of
/// the items agree in their versions.
pub fn check_versions(schema: &Schema, items: &Vec<(WorldKey, WorldItem)>) -> (r: bool)
    requires
        schema.wf(),
        forall|i: int| 0 <= i < items@.len() ==> schema.item_ok(#[trigger] items@[i]),
        forall|i: int|
            0 <= i < schema.interfaces@.len() ==> #[trigger] schema.interface_ok(i),
    ensures
        r == versions_agree(*schema, items@),
{
    let mut i: usize = 0;
    while i < items.len()
        invariant
            i <= items@.len(),
            schema.wf(),
            forall|i: int| 0 <= i < items@.len() ==> schema.item_ok(#[trigger] items@[i]),
            forall|a: int, b: int|
                0 <= a < i && 0 <= b < items@.len() ==> versions_agree_at(*schema, items@, a, b),
        decreases items@.len() - i,
    {
        let mut j: usize = 0;
        while j < items.len()
            invariant
                i < items@.len(),
                j <= items@.len(),
                schema.wf(),
                forall|i: int| 0 <= i < items@.len() ==> schema.item_ok(#[trigger] items@[i]),
                forall|a: int, b: int|
                    0 <= a < i && 0 <= b < items@.len() ==> versions_agree_at(
                        *schema,
                        items@,
                        a,
                        b,
                    ),
                forall|b: int| 0 <= b < j ==> versions_agree_at(*schema, items@, i as int, b),
            decreases items@.len() - j,
        {
            assert(schema.item_ok(items@[i as int]));
            assert(schema.item_ok(items@[j as int]));
            if let WorldKey::Interface(a) = &items[i].0 {
                if let WorldKey::Interface(b) = &items[j].0 {
                    assert(schema.interface_ok(*a as int));
                    assert(schema.interface_ok(*b as int));
                    if let Some(pa) = schema.interfaces[*a].package {
                        if let Some(pb) = schema.interfaces[*b].package {
                            let na = &schema.packages[pa].name;
                            let nb = &schema.packages[pb].name;
                            if same(na.namespace.as_str(), nb.namespace.as_str()) && same(
                                na.name.as_str(),
                                nb.name.as_str(),
                            ) && !same_optional(&na.version, &nb.version) {
                                assert(!versions_agree_at(*schema, items@, i as int, j as int));
                                return false;
                            }
                        }
                    }
                }
            }
            j += 1;
        }
        i += 1;
    }
    assert forall|i: int, j: int|
        0 <= i < items@.len() && 0 <= j < items@.len() && (#[trigger] items@[i]).0 is Interface && (
        #[trigger] items@[j]).0 is Interface implies {
        let a = schema.packages@[schema.interfaces@[items@[i].0->Interface_0 as int].package->0 as int].name;
        let b = schema.packages@[schema.interfaces@[items@[j].0->Interface_0 as int].package->0 as int].name;
        a.namespace@ == b.namespace@ && a.name@ == b.name@ ==> opt_text(a.version) == opt_text(
            b.version,
        )
    } by {
        assert(versions_agree_at(*schema, items@, i, j));
    }
    true
}

impl<'a> Wasmtime<'a> {
    /// Generates the bindings of the world at `id`, or says why they
    /// cannot be generated.
    pub fn try_generate(&mut self, resolve: &Schema, id: WorldId) -> (r: Result<String, Refusal>)
        requires
            old(self)@ == nothing(),
        ensures
            match r {
                Ok(text) => refusal(*resolve, *old(self).opts, id) is None && text@ == generated(
                    *resolve,
                    *old(self).opts,
                    id,
                ),
                Err(e) => refusal(*resolve, *old(self).opts, id) == Some(e),
            },
    {
        if !resolve.check() {
            return Err(Refusal::Malformed);
        }
        if id >= resolve.worlds.len() {
            return Err(Refusal::NoWorld);
        }
        let ghost cfg = config(*resolve, *self.opts, id);
        let world = &resolve.worlds[id];
        assert(resolve.world_ok(id as int));
        if !check_versions(resolve, &world.imports) || !check_versions(resolve, &world.exports) {
            return Err(Refusal::Versions);
        }
        self.types.analyze(resolve, id, &self.opts.trappable_error_type);
        proof {
            assert(resolve.types@.len() == resolve.types.len());
            assert forall|i: int| 0 <= i < cfg.infos.len() implies self.types@[i] == cfg.infos[i] by {
                let t = i as usize;
                assert(t as int == i);
                assert(self.types@[t as int] == analysis(
                    *resolve,
                    self.opts.trappable_error_type@,
                    id,
                    t,
                ));
            }
            assert(self.types@ =~= cfg.infos);
        }
        let mut i: usize = 0;
        while i < world.imports.len()
            invariant
                i <= world.imports@.len(),
                resolve.wf(),
                id < resolve.worlds@.len(),
                *world == resolve.worlds@[id as int],
                resolve.world_ok(id as int),
                self.opts == old(self).opts,
                self.cfg(*resolve) == cfg,
                cfg == config(*resolve, *self.opts, id),
                cfg.infos.len() == resolve.types@.len(),
                self@ == imports_done(cfg, *world, i as nat),
                versions_agree(*resolve, world.imports@),
                versions_agree(*resolve, world.exports@),
                first_bad_import(cfg, *world, i as nat) is None,
            decreases world.imports@.len() - i,
        {
            let included = !self.opts.only_interfaces || match &world.imports[i].1 {
                WorldItem::Interface(_) => true,
                _ => false,
            };
            if included {
                assert(resolve.item_ok(world.imports@[i as int]));
                if let Some(cause) = self.try_import(
                    resolve,
                    &world.imports[i].0,
                    &world.imports[i].1,
                ) {
                    proof {
                        lemma_bad_import_found(cfg, *world, i as int, world.imports@.len());
                    }
                    return Err(Refusal::Import(i, cause));
                }
            }
            i += 1;
        }
        let mut i: usize = 0;
        while i < world.exports.len()
            invariant
                i <= world.exports@.len(),
                resolve.wf(),
                id < resolve.worlds@.len(),
                *world == resolve.worlds@[id as int],
                resolve.world_ok(id as int),
                self.opts == old(self).opts,
                self.cfg(*resolve) == cfg,
                cfg == config(*resolve, *self.opts, id),
                cfg.infos.len() == resolve.types@.len(),
                self@ == exports_done(cfg, *world, i as nat),
                versions_agree(*resolve, world.imports@),
                versions_agree(*resolve, world.exports@),
                first_bad_import(cfg, *world, world.imports@.len()) is None,
                first_bad_export(cfg, *world, i as nat) is None,
            decreases world.exports@.len() - i,
        {
            let included = !self.opts.only_interfaces || match &world.exports[i].1 {
                WorldItem::Interface(_) => true,
                _ => false,
            };
            if included {
                assert(resolve.item_ok(world.exports@[i as int]));
                if let Some(cause) = self.try_export(
                    resolve,
                    &world.exports[i].0,
                    &world.exports[i].1,
                ) {
                    proof {
                        lemma_bad_export_found(cfg, *world, i as int, world.exports@.len());
                    }
                    return Err(Refusal::Export(i, cause));
                }
            }
            i += 1;
        }
        Ok(self.finish(resolve, world.name.as_str()))
    }
}

/// Why bindings cannot be generated for a world.
#[derive(Clone, Copy, Debug, PartialEq, Eq, Structural)]
pub enum Refusal {
    /// The schema is not well formed.
    Malformed,
    /// The schema has no world at the index asked for.
    NoWorld,
    /// Two interfaces come from packages of one namespace and name but of
    /// different versions.
    Versions,
    /// The import at this index cannot be generated, for this cause.
    Import(usize, Cause),
    /// The export at this index cannot be generated, for this cause.
    Export(usize, Cause),
}

/// Whether the import at `i` of the world is asked for and cannot be
/// generated when its turn comes.
pub open spec fn import_fails(cfg: Config, world: World, i: int) -> bool {
    &&& included(cfg.opts, world.imports@[i].1)
    &&& !import_ok(cfg, imports_done(cfg, world, i as nat), world.imports@[i].0, world.imports@[i].1)
}

/// Whether the export at `i` of the world is asked for and cannot be
/// generated when its turn comes.
pub open spec fn export_fails(cfg: Config, world: World, i: int) -> bool {
    &&& included(cfg.opts, world.exports@[i].1)
    &&& !export_ok(cfg, exports_done(cfg, world, i as nat), world.exports@[i].0, world.exports@[i].1)
}

/// The first of the first `n` imports that cannot be generated.
pub open spec fn first_bad_import(cfg: Config, world: World, n: nat) -> Option<int>
    decreases n,
{
    if n == 0 {
        None
    } else {
        match first_bad_import(cfg, world, (n - 1) as nat) {
            Some(i) => Some(i),
            None => if import_fails(cfg, world, n - 1) {
                Some(n - 1)
            } else {
                None
            },
        }
    }
}

/// The first of the first `n` exports that cannot be generated.
pub open spec fn first_bad_export(cfg: Config, world: World, n: nat) -> Option<int>
    decreases n,
{
    if n == 0 {
        None
    } else {
        match first_bad_export(cfg, world, (n - 1) as nat) {
            Some(i) => Some(i),
            None => if export_fails(cfg, world, n - 1) {
                Some(n - 1)
            } else {
                None
            },
        }
    }
}

/// Why bindings cannot be generated for the world at `world`, if they
/// cannot: the first of the reasons in the order of [`Refusal`], and for
/// an import or export the first that cannot be generated.
pub open spec fn refusal(schema: Schema, opts: Opts, world: WorldId) -> Option<Refusal> {
    let cfg = config(schema, opts, world);
    let w = schema.worlds@[world as int];
    if !schema.wf() {
        Some(Refusal::Malformed)
    } else if world >= schema.worlds@.len() {
        Some(Refusal::NoWorld)
    } else if !versions_agree(schema, w.imports@) || !versions_agree(schema, w.exports@) {
        Some(Refusal::Versions)
    } else {
        match first_bad_import(cfg, w, w.imports@.len()) {
            Some(i) => Some(
                Refusal::Import(
                    i as usize,
                    import_cause(cfg, imports_done(cfg, w, i as nat), w.imports@[i].0, w.imports@[i].1)->0,
                ),
            ),
            None => match first_bad_export(cfg, w, w.exports@.len()) {
                Some(i) => Some(
                    Refusal::Export(
                        i as usize,
                        export_cause(
                            cfg,
                            exports_done(cfg, w, i as nat),
                            w.exports@[i].0,
                            w.exports@[i].1,
                        )->0,
                    ),
                ),
                None => None,
            },
        }
    }
}

/// Where no import before the `i`-th fails and the `i`-th does, the
/// `i`-th is the first among any `n > i` imports.
pub proof fn lemma_bad_import_found(cfg: Config, world: World, i: int, n: nat)
    requires
        0 <= i < n,
        first_bad_import(cfg, world, i as nat) is None,
        import_fails(cfg, world, i),
    ensures
        first_bad_import(cfg, world, n) == Some(i),
    decreases n,
{
    if n > i + 1 {
        lemma_bad_import_found(cfg, world, i, (n - 1) as nat);
    }
}

/// Where no export before the `i`-th fails and the `i`-th does, the
/// `i`-th is the first among any `n > i` exports.
pub proof fn lemma_bad_export_found(cfg: Config, world: World, i: int, n: nat)
    requires
        0 <= i < n,
        first_bad_export(cfg, world, i as nat) is None,
        export_fails(cfg, world, i),
    ensures
        first_bad_export(cfg, world, n) == Some(i),
    decreases n,
{
    if n > i + 1 {
        lemma_bad_export_found(cfg, world, i, (n - 1) as nat);
    }
}

/// None of the first `n` imports fails exactly if no first failing import
/// is found among them; and a failing import that is found is in range.
pub proof fn lemma_first_bad_import(cfg: Config, world: World, n: nat)
    ensures
        first_bad_import(cfg, world, n) is None <==> forall|j: int|
            0 <= j < n ==> !#[trigger] import_fails(cfg, world, j),
        first_bad_import(cfg, world, n) is Some ==> 0 <= first_bad_import(cfg, world, n)->0 < n,
    decreases n,
{
    if n > 0 {
        lemma_first_bad_import(cfg, world, (n - 1) as nat);
        if first_bad_import(cfg, world, (n - 1) as nat) is Some {
            let i = first_bad_import(cfg, world, (n - 1) as nat)->0;
            lemma_bad_import_inner(cfg, world, (n - 1) as nat);
            assert(import_fails(cfg, world, i));
        }
    }
}

/// A first failing import that is found fails.
pub proof fn lemma_bad_import_inner(cfg: Config, world: World, n: nat)
    ensures
        first_bad_import(cfg, world, n) is Some ==> import_fails(
            cfg,
            world,
            first_bad_import(cfg, world, n)->0,
        ),
    decreases n,
{
    if n > 0 {
        lemma_bad_import_inner(cfg, world, (n - 1) as nat);
    }
}

/// None of the first `n` exports fails exactly if no first failing export
/// is found among them.
pub proof fn lemma_first_bad_export(cfg: Config, world: World, n: nat)
    ensures
        first_bad_export(cfg, world, n) is None <==> forall|j: int|
            0 <= j < n ==> !#[trigger] export_fails(cfg, world, j),
    decreases n,
{
    if n > 0 {
        lemma_first_bad_export(cfg, world, (n - 1) as nat);
        if first_bad_export(cfg, world, (n - 1) as nat) is Some {
            let i = first_bad_export(cfg, world, (n - 1) as nat)->0;
            lemma_bad_export_inner(cfg, world, (n - 1) as nat);
            assert(export_fails(cfg, world, i));
        }
    }
}

/// A first failing export that is found fails, and is in range.
pub proof fn lemma_bad_export_inner(cfg: Config, world: World, n: nat)
    ensures
        first_bad_export(cfg, world, n) is Some ==> 0 <= first_bad_export(cfg, world, n)->0 < n
            && export_fails(cfg, world, first_bad_export(cfg, world, n)->0),
    decreases n,
{
    if n > 0 {
        lemma_bad_export_inner(cfg, world, (n - 1) as nat);
    }
}

/// Bindings can be generated for a world exactly if nothing refuses it.
pub proof fn lemma_generatable_iff_not_refused(schema: Schema, opts: Opts, world: WorldId)
    ensures
        generatable(schema, opts, world) <==> refusal(schema, opts, world) is None,
{
    let cfg = config(schema, opts, world);
    let w = schema.worlds@[world as int];
    lemma_first_bad_import(cfg, w, w.imports@.len());
    lemma_first_bad_export(cfg, w, w.exports@.len());
    if schema.wf() && world < schema.worlds@.len() && versions_agree(schema, w.imports@)
        && versions_agree(schema, w.exports@) {
        if generatable(schema, opts, world) {
            assert forall|j: int| 0 <= j < w.imports@.len() implies !#[trigger] import_fails(
                cfg,
                w,
                j,
            ) by {
                assert(included(opts, w.imports@[j].1) ==> import_ok(
                    cfg,
                    imports_done(cfg, w, j as nat),
                    w.imports@[j].0,
                    w.imports@[j].1,
                ));
            }
            assert forall|j: int| 0 <= j < w.exports@.len() implies !#[trigger] export_fails(
                cfg,
                w,
                j,
            ) by {
                assert(included(opts, w.exports@[j].1) ==> export_ok(
                    cfg,
                    exports_done(cfg, w, j as nat),
                    w.exports@[j].0,
                    w.exports@[j].1,
                ));
            }
        }
        if refusal(schema, opts, world) is None {
            assert forall|i: int|
                0 <= i < w.imports@.len() && included(
                    opts,
                    (#[trigger] w.imports@[i]).1,
                ) implies import_ok(
                cfg,
                imports_done(cfg, w, i as nat),
                w.imports@[i].0,
                w.imports@[i].1,
            ) by {
                assert(!import_fails(cfg, w, i));
            }
            assert forall|i: int|
                0 <= i < w.exports@.len() && included(
                    opts,
                    (#[trigger] w.exports@[i]).1,
                ) implies export_ok(
                cfg,
                exports_done(cfg, w, i as nat),
                w.exports@[i].0,
                w.exports@[i].1,
            ) by {
                assert(!export_fails(cfg, w, i));
            }
        }
    }
}

impl Opts {
    /// Generates the bindings of the world at `world` of the schema
    /// `resolve`, or says why they cannot be generated.
    pub fn try_generate(&self, resolve: &Schema, world: WorldId) -> (r: Result<String, Refusal>)
        ensures
            match r {
                Ok(text) => generatable(*resolve, *self, world) && text@ == generated(
                    *resolve,
                    *self,
                    world,
                ),
                Err(e) => !generatable(*resolve, *self, world) && refusal(*resolve, *self, world)
                    == Some(e),
            },
    {
        proof {
            lemma_generatable_iff_not_refused(*resolve, *self, world);
        }
        let mut r = Wasmtime::new(self);
        r.try_generate(resolve, world)
    }

    /// Decides whether bindings can be generated for the world at
    /// `world` of the schema `resolve`.
    pub fn can_generate(&self, resolve: &Schema, world: WorldId) -> (r: bool)
        ensures
            r == generatable(*resolve, *self, world),
    {
        self.try_generate(resolve, world).is_ok()
    }
}

/// The modules that are collected for a world are, after all imports and
/// any number of exports, in the order of their packages, whatever the
/// order of the imports and exports.
pub proof fn law_collected_modules_are_in_package_order(cfg: Config, world: World, n: nat)
    ensures
        in_package_order(exports_done(cfg, world, n).imports),
        in_package_order(exports_done(cfg, world, n).export_modules),
    decreases n,
{
    reveal(exported);
    if n > 0 {
        law_collected_modules_are_in_package_order(cfg, world, (n - 1) as nat);
        let before = exports_done(cfg, world, (n - 1) as nat);
        let entry = world.exports@[n - 1];
        if included(cfg.opts, entry.1) {
            if let WorldItem::Interface(id) = entry.1 {
                if cfg.remap_of(entry.0) is None {
                    lemma_placed_module(cfg, interface_named(cfg, before, id, entry.0), id, entry.0);
                }
            }
        }
    } else {
        law_collected_imports_in_order(cfg, world, world.imports@.len());
    }
}

/// The modules that are collected for the imports of a world are in the
/// order of their packages.
pub proof fn law_collected_imports_in_order(cfg: Config, world: World, n: nat)
    ensures
        in_package_order(imports_done(cfg, world, n).imports),
        imports_done(cfg, world, n).export_modules == Seq::<ModuleView>::empty(),
    decreases n,
{
    reveal(imported);
    if n > 0 {
        law_collected_imports_in_order(cfg, world, (n - 1) as nat);
        let before = imports_done(cfg, world, (n - 1) as nat);
        let entry = world.imports@[n - 1];
        if included(cfg.opts, entry.1) {
            if let WorldItem::Interface(id) = entry.1 {
                if cfg.remap_of(entry.0) is None {
                    let named = interface_named(cfg, before, id, entry.0);
                    lemma_placed_module(cfg, named, id, entry.0);
                }
            }
        }
    }
}

/// The module of an interface is placed among modules in package order
/// so that they stay in package order.
pub proof fn lemma_placed_module(cfg: Config, st: Assembly, id: InterfaceId, key: WorldKey)
    ensures
        in_package_order(st.imports) ==> in_package_order(
            interface_imported(cfg, st, id, key).imports,
        ),
        in_package_order(st.export_modules) ==> in_package_order(
            interface_exported(cfg, st, id, key).export_modules,
        ),
        interface_imported(cfg, st, id, key).export_modules == st.export_modules,
        interface_exported(cfg, st, id, key).imports == st.imports,
{
    let env = cfg.env(st.names, Some((id, key, false)));
    let snake = snake_case_of(interface_name(cfg.schema, id, key));
    if in_package_order(st.imports) {
        law_placing_keeps_package_order(
            st.imports,
            ModuleView {
                package: key_package(cfg.schema, id, key),
                snake,
                module: module_wrap(snake, import_body_text(env, id, key)),
            },
        );
    }
    let env = cfg.env(st.names, Some((id, key, true)));
    if in_package_order(st.export_modules) {
        law_placing_keeps_package_order(
            st.export_modules,
            ModuleView {
                package: key_package(cfg.schema, id, key),
                snake,
                module: module_wrap(snake, export_body_text(env, id, key)),
            },
        );
    }
}

} // verus!
