//! The modules of the generated code, kept in the order of their packages,
//! and the tree of namespace and package modules that holds them.

use vstd::prelude::*;
use vstd::string::StringExecFns;
use crate::names::{snake_case, snake_case_of};
use crate::text::{
    group_text, lemma_text_less_irreflexive, lemma_text_less_total, lemma_text_less_transitive,
    less, same, text_less,
};

verus! {

broadcast use group_text;

/// The module of an interface.
#[derive(Debug)]
pub struct Module {
    /// The namespace and the name of the package of the interface; `None`
    /// for an interface that the world holds under a plain name.
    pub package: Option<(String, String)>,
    /// The name of the module.
    pub snake: String,
    /// The text of the module.
    pub module: String,
}

/// What a module holds.
pub struct ModuleView {
    pub package: Option<(Seq<char>, Seq<char>)>,
    pub snake: Seq<char>,
    pub module: Seq<char>,
}

impl View for Module {
    type V = ModuleView;

    open spec fn view(&self) -> ModuleView {
        ModuleView {
            package: match self.package {
                Some((namespace, name)) => Some((namespace@, name@)),
                None => None,
            },
            snake: self.snake@,
            module: self.module@,
        }
    }
}

/// The order of packages: a module without package comes first, then the
/// packages by namespace and, within a namespace, by name.
pub open spec fn package_less(
    a: Option<(Seq<char>, Seq<char>)>,
    b: Option<(Seq<char>, Seq<char>)>,
) -> bool {
    match (a, b) {
        (None, None) => false,
        (None, Some(_)) => true,
        (Some(_), None) => false,
        (Some(a), Some(b)) => text_less(a.0, b.0) || (a.0 == b.0 && text_less(a.1, b.1)),
    }
}

/// The modules `modules`, which are in the order of their packages, with
/// `m`: before the first module of a greater package, so after the
/// modules of its own package.
pub open spec fn placed(modules: Seq<ModuleView>, m: ModuleView) -> Seq<ModuleView>
    decreases modules.len(),
{
    if modules.len() == 0 {
        seq![m]
    } else if package_less(m.package, modules[0].package) {
        seq![m] + modules
    } else {
        seq![modules[0]] + placed(modules.skip(1), m)
    }
}

/// Modules in the order of their packages.
#[derive(Debug)]
pub struct PackageModules {
    modules: Vec<Module>,
}

fn package_before(a: &Option<(String, String)>, b: &Option<(String, String)>) -> (r: bool)
    ensures
        r == package_less(
            match *a {
                Some((namespace, name)) => Some((namespace@, name@)),
                None => None,
            },
            match *b {
                Some((namespace, name)) => Some((namespace@, name@)),
                None => None,
            },
        ),
{
    match (a, b) {
        (None, None) => false,
        (None, Some(_)) => true,
        (Some(_), None) => false,
        (Some(a), Some(b)) => less(a.0.as_str(), b.0.as_str()) || (same(
            a.0.as_str(),
            b.0.as_str(),
        ) && less(a.1.as_str(), b.1.as_str())),
    }
}

impl PackageModules {
    /// What the modules hold, in order.
    pub closed spec fn view(&self) -> Seq<ModuleView> {
        Seq::new(self.modules@.len(), |i: int| self.modules@[i]@)
    }

    /// No modules.
    pub fn new() -> (r: Self)
        ensures
            r@ == Seq::<ModuleView>::empty(),
    {
        let r = PackageModules { modules: Vec::new() };
        assert(r@ =~= Seq::<ModuleView>::empty());
        r
    }

    /// The number of modules.
    pub fn len(&self) -> (n: usize)
        ensures
            n == self@.len(),
    {
        self.modules.len()
    }

    /// Whether there is no module.
    pub fn is_empty(&self) -> (r: bool)
        ensures
            r == (self@.len() == 0),
    {
        self.modules.len() == 0
    }

    /// The `i`-th module.
    pub fn get(&self, i: usize) -> (m: &Module)
        requires
            i < self@.len(),
        ensures
            m@ == self@[i as int],
    {
        &self.modules[i]
    }

    /// Adds a module, keeping the modules in the order of their packages.
    pub fn place(&mut self, m: Module)
        ensures
            final(self)@ == placed(old(self)@, m@),
    {
        let ghost before = self@;
        let mut i: usize = 0;
        assert(before.skip(0) =~= before);
        assert(before.take(0) + placed(before.skip(0), m@) =~= placed(before, m@));
        while i < self.modules.len()
            invariant_except_break
                placed(before, m@) == before.take(i as int) + placed(before.skip(i as int), m@),
            invariant
                i <= before.len(),
                self@ == before,
                before.len() == self.modules@.len(),
            ensures
                placed(before, m@) == before.take(i as int) + (seq![m@] + before.skip(i as int)),
            decreases self.modules@.len() - i,
        {
            let ghost rest = before.skip(i as int);
            assert(rest[0] == before[i as int]);
            if package_before(&m.package, &self.modules[i].package) {
                assert(placed(rest, m@) == seq![m@] + rest);
                break ;
            }
            assert(placed(rest, m@) == seq![rest[0]] + placed(rest.skip(1), m@));
            assert(before.take(i as int) + (seq![rest[0]] + placed(rest.skip(1), m@))
                =~= before.take(i as int + 1) + placed(before.skip(i as int + 1), m@)) by {
                assert(rest.skip(1) =~= before.skip(i as int + 1));
                assert(before.take(i as int) + seq![rest[0]] =~= before.take(i as int + 1));
            }
            i += 1;
        }
        proof {
            if i == before.len() {
                assert(before.skip(i as int).len() == 0);
            }
        }
        self.modules.insert(i, m);
        assert(self@ =~= before.take(i as int) + (seq![m@] + before.skip(i as int)));
    }
}

/// Whether the module at `i` starts a namespace: it has a package, and
/// the module before it, if any, has none or one of another namespace.
pub open spec fn opens_namespace(modules: Seq<ModuleView>, i: int) -> bool {
    &&& modules[i].package is Some
    &&& (i == 0 || modules[i - 1].package is None || (modules[i - 1].package->0).0 != (
    modules[i].package->0).0)
}

/// Whether the module at `i` starts a package within the namespace of the
/// module before it.
pub open spec fn opens_package(modules: Seq<ModuleView>, i: int) -> bool {
    &&& modules[i].package is Some
    &&& !opens_namespace(modules, i)
    &&& (modules[i - 1].package->0).1 != (modules[i].package->0).1
}

/// The first `n` modules in the tree of their namespaces and packages: a
/// module without package stands at the top; the modules of a package
/// stand in a module of the package inside a module of its namespace.
/// The modules of the last package are left open.
pub open spec fn tree_text(modules: Seq<ModuleView>, n: nat) -> Seq<char>
    decreases n,
{
    if n == 0 {
        Seq::empty()
    } else {
        let i = n - 1;
        let m = modules[i];
        tree_text(modules, (n - 1) as nat) + (if opens_namespace(modules, i) {
            (if i > 0 && modules[i - 1].package is Some {
                "}\n}\n"@
            } else {
                Seq::empty()
            }) + "pub mod "@ + snake_case_of((m.package->0).0) + " {\n"@ + "pub mod "@
                + snake_case_of((m.package->0).1) + " {\n"@
        } else if opens_package(modules, i) {
            "}\n"@ + "pub mod "@ + snake_case_of((m.package->0).1) + " {\n"@
        } else {
            Seq::empty()
        }) + m.module + "\n"@
    }
}

/// The modules in the tree of their namespaces and packages.
#[verifier::opaque]
pub open spec fn modules_text(modules: Seq<ModuleView>) -> Seq<char> {
    tree_text(modules, modules.len()) + (if modules.len() > 0 && modules[modules.len()
        - 1].package is Some {
        "}\n}\n"@
    } else {
        Seq::empty()
    })
}

/// Appends the modules in the tree of their namespaces and packages.
pub fn emit_modules(src: &mut String, modules: &PackageModules)
    ensures
        final(src)@ == old(src)@ + modules_text(modules@),
{
    reveal(modules_text);
    let ghost start = src@;
    let mut i: usize = 0;
    while i < modules.len()
        invariant
            i <= modules@.len(),
            src@ == start + tree_text(modules@, i as nat),
        decreases modules@.len() - i,
    {
        let m = modules.get(i);
        if let Some((namespace, name)) = &m.package {
            let mut new_namespace = true;
            let mut new_package = false;
            let mut close = false;
            if i > 0 {
                if let Some((prev_namespace, prev_name)) = &modules.get(i - 1).package {
                    close = true;
                    if same(prev_namespace.as_str(), namespace.as_str()) {
                        new_namespace = false;
                        new_package = !same(prev_name.as_str(), name.as_str());
                    }
                }
            }
            if new_namespace {
                if close {
                    src.append("}\n}\n");
                }
                src.append("pub mod ");
                let ns = snake_case(namespace.as_str());
                src.append(ns.as_str());
                src.append(" {\n");
                src.append("pub mod ");
                let pkg = snake_case(name.as_str());
                src.append(pkg.as_str());
                src.append(" {\n");
            } else if new_package {
                src.append("}\n");
                src.append("pub mod ");
                let pkg = snake_case(name.as_str());
                src.append(pkg.as_str());
                src.append(" {\n");
            }
        }
        src.append(m.module.as_str());
        src.append("\n");
        i += 1;
    }
    if modules.len() > 0 {
        if modules.get(modules.len() - 1).package.is_some() {
            src.append("}\n}\n");
        }
    }
}

/// The path of a module from the root of the generated code.
pub open spec fn path_text(m: ModuleView) -> Seq<char> {
    match m.package {
        Some((namespace, name)) => snake_case_of(namespace) + "::"@ + snake_case_of(name)
            + "::"@ + m.snake,
        None => m.snake,
    }
}

/// The path of a module from the root of the generated code.
pub fn path_of_module(m: &Module) -> (r: String)
    ensures
        r@ == path_text(m@),
{
    let mut path = String::new();
    if let Some((namespace, name)) = &m.package {
        let ns = snake_case(namespace.as_str());
        path.append(ns.as_str());
        path.append("::");
        let pkg = snake_case(name.as_str());
        path.append(pkg.as_str());
        path.append("::");
    }
    path.append(m.snake.as_str());
    path
}


/// The order of packages is transitive.
pub proof fn lemma_package_less_transitive(
    a: Option<(Seq<char>, Seq<char>)>,
    b: Option<(Seq<char>, Seq<char>)>,
    c: Option<(Seq<char>, Seq<char>)>,
)
    requires
        package_less(a, b),
        package_less(b, c),
    ensures
        package_less(a, c),
{
    if a is Some {
        let (a, b, c) = (a->0, b->0, c->0);
        if text_less(a.0, b.0) && text_less(b.0, c.0) {
            lemma_text_less_transitive(a.0, b.0, c.0);
        } else if a.0 == b.0 && b.0 == c.0 {
            lemma_text_less_transitive(a.1, b.1, c.1);
        }
    }
}

/// Whether the modules are in the order of their packages: no module
/// stands before a module of a lesser package.
pub open spec fn in_package_order(modules: Seq<ModuleView>) -> bool {
    forall|i: int, j: int|
        0 <= i < j < modules.len() ==> !package_less(
            (#[trigger] modules[j]).package,
            (#[trigger] modules[i]).package,
        )
}

/// Where a module is placed among modules: before the first module of a
/// greater package.
pub open spec fn place_index(modules: Seq<ModuleView>, m: ModuleView) -> nat
    decreases modules.len(),
{
    if modules.len() == 0 || package_less(m.package, modules[0].package) {
        0
    } else {
        1 + place_index(modules.skip(1), m)
    }
}

/// A module is placed by inserting it at its place: the modules before
/// it are of no greater package, and the module after it is of a greater
/// package.
pub proof fn lemma_placed_is_insert(modules: Seq<ModuleView>, m: ModuleView)
    ensures
        place_index(modules, m) <= modules.len(),
        placed(modules, m) == modules.insert(place_index(modules, m) as int, m),
        forall|i: int|
            0 <= i < place_index(modules, m) ==> !package_less(
                m.package,
                (#[trigger] modules[i]).package,
            ),
        place_index(modules, m) < modules.len() ==> package_less(
            m.package,
            modules[place_index(modules, m) as int].package,
        ),
    decreases modules.len(),
{
    if modules.len() == 0 {
        assert(placed(modules, m) =~= modules.insert(0, m));
    } else if package_less(m.package, modules[0].package) {
        assert(placed(modules, m) =~= modules.insert(0, m));
    } else {
        let rest = modules.skip(1);
        lemma_placed_is_insert(rest, m);
        let k = place_index(rest, m) as int;
        assert(placed(modules, m) =~= modules.insert(k + 1, m));
        assert forall|i: int| 0 <= i < k + 1 implies !package_less(
            m.package,
            (#[trigger] modules[i]).package,
        ) by {
            if i > 0 {
                assert(rest[i - 1] == modules[i]);
            }
        }
        if k < rest.len() {
            assert(rest[k] == modules[k + 1]);
        }
    }
}

/// Placing a module among modules that are in the order of their
/// packages keeps them in that order.
pub proof fn law_placing_keeps_package_order(modules: Seq<ModuleView>, m: ModuleView)
    requires
        in_package_order(modules),
    ensures
        in_package_order(placed(modules, m)),
{
    lemma_placed_is_insert(modules, m);
    let k = place_index(modules, m) as int;
    let after = placed(modules, m);
    assert forall|i: int, j: int| 0 <= i < j < after.len() implies !package_less(
        (#[trigger] after[j]).package,
        (#[trigger] after[i]).package,
    ) by {
        if i == k {
            // `m` stands before a module of a greater package, and the
            // modules after that one are of no lesser package than it
            let next = modules[k];
            assert(after[j] == modules[j - 1]);
            if package_less(after[j].package, m.package) {
                lemma_package_less_transitive(after[j].package, m.package, next.package);
                if j - 1 > k {
                    assert(!package_less(modules[j - 1].package, modules[k].package));
                } else {
                    lemma_package_less_irreflexive(next.package);
                }
            }
        } else if j == k {
            assert(after[i] == modules[i]);
        } else {
            let a = if i < k {
                i
            } else {
                i - 1
            };
            let b = if j < k {
                j
            } else {
                j - 1
            };
            assert(after[i] == modules[a]);
            assert(after[j] == modules[b]);
        }
    }
}

/// No package sorts before itself.
pub proof fn lemma_package_less_irreflexive(a: Option<(Seq<char>, Seq<char>)>)
    ensures
        !package_less(a, a),
{
    if a is Some {
        lemma_text_less_irreflexive((a->0).0);
        lemma_text_less_irreflexive((a->0).1);
    }
}

/// In modules that are in the order of their packages, the modules of one
/// namespace stand together, and within them the modules of one package:
/// so the tree of modules holds each namespace and each package once.
pub proof fn law_packages_stand_together(modules: Seq<ModuleView>, i: int, k: int, j: int)
    requires
        in_package_order(modules),
        0 <= i <= k <= j < modules.len(),
        modules[i].package is Some,
        modules[j].package is Some,
        (modules[i].package->0).0 == (modules[j].package->0).0,
    ensures
        modules[k].package is Some,
        (modules[k].package->0).0 == (modules[i].package->0).0,
        (modules[i].package->0).1 == (modules[j].package->0).1 ==> (modules[k].package->0).1 == (
        modules[i].package->0).1,
{
    let (a, b, c) = (modules[i].package, modules[k].package, modules[j].package);
    if i < k {
        assert(!package_less(modules[k].package, modules[i].package));
    }
    if k < j {
        assert(!package_less(modules[j].package, modules[k].package));
    }
    lemma_text_less_irreflexive((a->0).0);
    lemma_text_less_irreflexive((a->0).1);
    if i < k && k < j {
        let (a, b, c) = (a->0, b->0, c->0);
        if b.0 != a.0 {
            lemma_text_less_total(a.0, b.0);
        } else if a.1 == c.1 && b.1 != a.1 {
            lemma_text_less_total(a.1, b.1);
        }
    }
}

} // verus!
