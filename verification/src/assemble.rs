//! The generated code of a world as one text: the world struct with its
//! constructors and the combined registration, and the trees of modules.

use vstd::prelude::*;
use vstd::string::StringExecFns;
use crate::imports::resource_tables_text;
use crate::modules::{emit_modules, modules_text, path_of_module, path_text, ModuleView};
use crate::names::{rust_upper_camel_case, to_rust_upper_camel_case};
use crate::opts::Opts;
use crate::resource_types::async_trait_text;
use crate::schema::Schema;
use crate::text::group_text;
use crate::world::{Assembly, Config, Wasmtime, import_functions_view, texts};

verus! {

broadcast use {group_text, vstd::std_specs::hash::group_hash_axioms};

/// The signatures of the first `n` imported functions, one to a line.
pub open spec fn import_sigs_text(functions: Seq<(Seq<char>, Seq<char>)>, n: nat) -> Seq<char>
    decreases n,
{
    if n == 0 {
        Seq::empty()
    } else {
        import_sigs_text(functions, (n - 1) as nat) + functions[n - 1].0 + "\n"@
    }
}

/// The registrations of the first `n` imported functions, one to a line.
pub open spec fn import_adds_text(functions: Seq<(Seq<char>, Seq<char>)>, n: nat) -> Seq<char>
    decreases n,
{
    if n == 0 {
        Seq::empty()
    } else {
        import_adds_text(functions, (n - 1) as nat) + functions[n - 1].1 + "\n"@
    }
}

/// The trait that a host implements for the functions that the world
/// imports by itself; nothing where there is no such function.
#[verifier::opaque]
pub open spec fn import_trait_text(cfg: Config, st: Assembly, camel: Seq<char>) -> Seq<char> {
    if st.import_functions.len() == 0 {
        Seq::empty()
    } else {
        async_trait_text(cfg.env(st.names, None)) + "pub trait "@ + camel + "Imports {\n"@
            + import_sigs_text(st.import_functions, st.import_functions.len()) + "}\n"@
    }
}

/// The `Host` traits of the first `n` imported modules, joined with
/// ` + `.
pub open spec fn host_bounds_text(imports: Seq<ModuleView>, n: nat) -> Seq<char>
    decreases n,
{
    if n == 0 {
        Seq::empty()
    } else {
        host_bounds_text(imports, (n - 1) as nat) + (if n > 1 {
            " + "@
        } else {
            Seq::empty()
        }) + path_text(imports[n - 1]) + "::Host"@
    }
}

/// The calls of `add_to_linker` of the first `n` imported modules.
pub open spec fn add_calls_text(imports: Seq<ModuleView>, n: nat) -> Seq<char>
    decreases n,
{
    if n == 0 {
        Seq::empty()
    } else {
        add_calls_text(imports, (n - 1) as nat) + path_text(imports[n - 1])
            + "::add_to_linker(linker, get)?;\n"@
    }
}

/// The bounds that async functions and resources add to the combined
/// registration.
#[verifier::opaque]
pub open spec fn send_bounds_text(opts: Opts) -> Seq<char> {
    let resources = opts.resources@;
    if resources.len() > 0 {
        (if opts.async_ {
            " + Send, T: "@
        } else {
            ", T: "@
        }) + resource_tables_text(resources, resources.len()) + (if opts.async_ {
            " + Send"@
        } else {
            Seq::empty()
        })
    } else if opts.async_ {
        " + Send, T: Send"@
    } else {
        Seq::empty()
    }
}

/// The function that registers the functions that the world imports by
/// itself.
#[verifier::opaque]
pub open spec fn add_root_text(cfg: Config, st: Assembly, camel: Seq<char>) -> Seq<char> {
    "\npub fn add_root_to_linker<T, U>(\nlinker: &mut wasmtime::component::Linker<T>,\nget: impl Fn(&mut T) -> &mut U + Send + Sync + Copy + 'static,\n) -> wasmtime::Result<()>\nwhere U: "@
        + camel + "Imports"@ + send_bounds_text(cfg.opts) + "\n{\nlet mut linker = linker.root();\n"@
        + import_adds_text(st.import_functions, st.import_functions.len()) + "Ok(())\n}\n"@
}

/// The combined registration of the world: `add_to_linker` registers
/// every imported interface and the functions that the world imports by
/// itself, in this order, and fails with the first registration that
/// fails.  Nothing where the world imports neither.
#[verifier::opaque]
pub open spec fn toplevel_add_text(cfg: Config, st: Assembly, camel: Seq<char>) -> Seq<char> {
    if st.imports.len() == 0 && st.import_functions.len() == 0 {
        Seq::empty()
    } else {
        "\npub fn add_to_linker<T, U>(\nlinker: &mut wasmtime::component::Linker<T>,\nget: impl Fn(&mut T) -> &mut U + Send + Sync + Copy + 'static,\n) -> wasmtime::Result<()>\nwhere U: "@
            + host_bounds_text(st.imports, st.imports.len()) + (if st.import_functions.len()
            != 0 {
            (if st.imports.len() > 0 {
                " + "@
            } else {
                Seq::empty()
            }) + camel + "Imports"@
        } else {
            Seq::empty()
        }) + send_bounds_text(cfg.opts) + ",\n{\n"@ + add_calls_text(st.imports, st.imports.len())
            + (if st.import_functions.len() != 0 {
            "Self::add_root_to_linker(linker, get)?;\n"@
        } else {
            Seq::empty()
        }) + "Ok(())\n}\n"@ + (if st.import_functions.len() != 0 {
            add_root_text(cfg, st, camel)
        } else {
            Seq::empty()
        })
    }
}

/// The declarations of the first `n` fields of the world struct.
pub open spec fn field_decls_text(fields: Seq<(Seq<char>, (Seq<char>, Seq<char>))>, n: nat) -> Seq<
    char,
>
    decreases n,
{
    if n == 0 {
        Seq::empty()
    } else {
        field_decls_text(fields, (n - 1) as nat) + fields[n - 1].0 + ": "@ + (fields[n - 1].1).0
            + ",\n"@
    }
}

/// The statements that get the values of the first `n` fields of the
/// world struct.
pub open spec fn field_lets_text(fields: Seq<(Seq<char>, (Seq<char>, Seq<char>))>, n: nat) -> Seq<
    char,
>
    decreases n,
{
    if n == 0 {
        Seq::empty()
    } else {
        field_lets_text(fields, (n - 1) as nat) + "let "@ + fields[n - 1].0 + " = "@ + (fields[n
            - 1].1).1 + ";\n"@
    }
}

/// The first `n` fields of the world struct in its struct literal.
pub open spec fn field_inits_text(fields: Seq<(Seq<char>, (Seq<char>, Seq<char>))>, n: nat) -> Seq<
    char,
>
    decreases n,
{
    if n == 0 {
        Seq::empty()
    } else {
        field_inits_text(fields, (n - 1) as nat) + fields[n - 1].0 + ",\n"@
    }
}

/// The first `n` of the texts, one after the other.
pub open spec fn concat_text(parts: Seq<Seq<char>>, n: nat) -> Seq<char>
    decreases n,
{
    if n == 0 {
        Seq::empty()
    } else {
        concat_text(parts, (n - 1) as nat) + parts[n - 1]
    }
}

/// The constructors of the world struct: `instantiate` and
/// `instantiate_pre` instantiate the component and wrap the instance, and
/// `new`, of which this is the start, wraps an instance.
#[verifier::opaque]
pub open spec fn instantiate_text(opts: Opts) -> Seq<char> {
    let async_ = if opts.async_ {
        "async"@
    } else {
        Seq::empty()
    };
    let suffix = if opts.async_ {
        "_async"@
    } else {
        Seq::empty()
    };
    let send = if opts.async_ {
        ":Send"@
    } else {
        Seq::empty()
    };
    let await_ = if opts.async_ {
        ".await"@
    } else {
        Seq::empty()
    };
    "\n/// Instantiates the provided `module` using the specified\n/// parameters, wrapping up the result in a structure that\n/// translates between wasm and the host.\npub "@
        + async_ + " fn instantiate"@ + suffix + "<T "@ + send
        + ">(\nmut store: impl wasmtime::AsContextMut<Data = T>,\ncomponent: &wasmtime::component::Component,\nlinker: &wasmtime::component::Linker<T>,\n) -> wasmtime::Result<(Self, wasmtime::component::Instance)> {\nlet instance = linker.instantiate"@
        + suffix + "(&mut store, component)"@ + await_
        + "?;\nOk((Self::new(store, &instance)?, instance))\n}\n\n/// Instantiates a pre-instantiated module using the specified\n/// parameters, wrapping up the result in a structure that\n/// translates between wasm and the host.\npub "@
        + async_ + " fn instantiate_pre<T "@ + send
        + ">(\nmut store: impl wasmtime::AsContextMut<Data = T>,\ninstance_pre: &wasmtime::component::InstancePre<T>,\n) -> wasmtime::Result<(Self, wasmtime::component::Instance)> {\nlet instance = instance_pre.instantiate"@
        + suffix + "(&mut store)"@ + await_
        + "?;\nOk((Self::new(store, &instance)?, instance))\n}\n\n/// Low-level creation wrapper for wrapping up the exports\n/// of the `instance` provided in this structure of wasm\n/// exports.\n///\n/// This function will extract exports from the `instance`\n/// defined within `store` and wrap them all up in the\n/// returned structure which can be used to interact with\n/// the wasm module.\npub fn new(\nmut store: impl wasmtime::AsContextMut,\ninstance: &wasmtime::component::Instance,\n) -> wasmtime::Result<Self> {\nlet mut store = store.as_context_mut();\nlet mut exports = instance.exports(&mut store);\nlet mut __exports = exports.root();\n\n"@
}

/// The world struct named after `name`, with its fields, the trait of
/// the imported functions, the combined registration, its constructors
/// and its functions.
#[verifier::opaque]
pub open spec fn build_struct_text(cfg: Config, st: Assembly, name: Seq<char>) -> Seq<char> {
    let camel = rust_upper_camel_case(name);
    "pub struct "@ + camel + " {\n"@ + field_decls_text(st.fields, st.fields.len()) + "}\n"@
        + import_trait_text(cfg, st, camel) + "const _: () = {\n"@
        + "use wasmtime::component::__internal::anyhow;\n"@ + "impl "@ + camel + " {\n"@
        + toplevel_add_text(cfg, st, camel) + instantiate_text(cfg.opts) + field_lets_text(
        st.fields,
        st.fields.len(),
    ) + "Ok("@ + camel + " {\n"@ + field_inits_text(st.fields, st.fields.len()) + "})\n"@ + "}\n"@
        + concat_text(st.funcs, st.funcs.len()) + "}\n"@ + "};\n"@
}

/// The generated code of the world named `name`: the text at the top,
/// the world struct unless only the interfaces are asked for, the tree of
/// the imported modules and, inside the module `exports`, the tree of the
/// exported modules.
#[verifier::opaque]
pub open spec fn finish_text(cfg: Config, st: Assembly, name: Seq<char>) -> Seq<char> {
    st.src + (if !cfg.opts.only_interfaces {
        build_struct_text(cfg, st, name)
    } else {
        Seq::empty()
    }) + modules_text(st.imports) + (if st.export_modules.len() != 0 {
        "pub mod exports {\n"@ + modules_text(st.export_modules) + "}\n"@
    } else {
        Seq::empty()
    })
}

impl<'a> Wasmtime<'a> {
    /// Appends the trait of the functions that the world imports by
    /// itself.
    pub fn toplevel_import_trait(&self, resolve: &Schema, camel: &str, out: &mut String)
        ensures
            final(out)@ == old(out)@ + import_trait_text(self.cfg(*resolve), self@, camel@),
    {
        reveal(import_trait_text);
        if self.import_functions.len() == 0 {
            return ;
        }
        if self.opts.async_ {
            out.append("#[wasmtime::component::__internal::async_trait]\n");
        }
        out.append("pub trait ");
        out.append(camel);
        out.append("Imports {\n");
        let ghost start = out@;
        let ghost functions = self@.import_functions;
        let mut i: usize = 0;
        while i < self.import_functions.len()
            invariant
                i <= self.import_functions@.len(),
                functions == import_functions_view(self.import_functions@),
                out@ == start + import_sigs_text(functions, i as nat),
            decreases self.import_functions@.len() - i,
        {
            assert(functions[i as int].0 == self.import_functions@[i as int].sig@);
            out.append(self.import_functions[i].sig.as_str());
            out.append("\n");
            i += 1;
        }
        out.append("}\n");
    }

    /// Appends the bounds that async functions and resources add to the
    /// combined registration.
    fn send_bounds(&self, out: &mut String)
        ensures
            final(out)@ == old(out)@ + send_bounds_text(*self.opts),
    {
        reveal(send_bounds_text);
        if self.opts.resources.len() > 0 {
            if self.opts.async_ {
                out.append(" + Send, T: ");
            } else {
                out.append(", T: ");
            }
            let ghost start = out@;
            let mut i: usize = 0;
            while i < self.opts.resources.len()
                invariant
                    i <= self.opts.resources@.len(),
                    out@ == start + resource_tables_text(self.opts.resources@, i as nat),
                decreases self.opts.resources@.len() - i,
            {
                if i > 0 {
                    out.append(" + ");
                }
                out.append("wasmtime::component::ResourceTable<");
                out.append(self.opts.resources.value(i).as_str());
                out.append(">");
                i += 1;
            }
            if self.opts.async_ {
                out.append(" + Send");
            }
        } else if self.opts.async_ {
            out.append(" + Send, T: Send");
        }
    }

    /// Appends the function that registers the functions that the world
    /// imports by itself.
    fn add_root(&self, resolve: &Schema, camel: &str, out: &mut String)
        ensures
            final(out)@ == old(out)@ + add_root_text(self.cfg(*resolve), self@, camel@),
    {
        reveal(add_root_text);
        out.append(
            "\npub fn add_root_to_linker<T, U>(\nlinker: &mut wasmtime::component::Linker<T>,\nget: impl Fn(&mut T) -> &mut U + Send + Sync + Copy + 'static,\n) -> wasmtime::Result<()>\nwhere U: ",
        );
        out.append(camel);
        out.append("Imports");
        self.send_bounds(out);
        out.append("\n{\nlet mut linker = linker.root();\n");
        let ghost start = out@;
        let ghost functions = self@.import_functions;
        let mut i: usize = 0;
        while i < self.import_functions.len()
            invariant
                i <= self.import_functions@.len(),
                functions == import_functions_view(self.import_functions@),
                out@ == start + import_adds_text(functions, i as nat),
            decreases self.import_functions@.len() - i,
        {
            assert(functions[i as int].1 == self.import_functions@[i as int].add_to_linker@);
            out.append(self.import_functions[i].add_to_linker.as_str());
            out.append("\n");
            i += 1;
        }
        out.append("Ok(())\n}\n");
    }

    /// Appends the combined registration of the world.
    pub fn toplevel_add_to_linker(&self, resolve: &Schema, camel: &str, out: &mut String)
        ensures
            final(out)@ == old(out)@ + toplevel_add_text(self.cfg(*resolve), self@, camel@),
    {
        reveal(toplevel_add_text);
        if self.import_interfaces.is_empty() && self.import_functions.len() == 0 {
            return ;
        }
        out.append(
            "\npub fn add_to_linker<T, U>(\nlinker: &mut wasmtime::component::Linker<T>,\nget: impl Fn(&mut T) -> &mut U + Send + Sync + Copy + 'static,\n) -> wasmtime::Result<()>\nwhere U: ",
        );
        let ghost start = out@;
        let mut i: usize = 0;
        while i < self.import_interfaces.len()
            invariant
                i <= self.import_interfaces@.len(),
                out@ == start + host_bounds_text(self.import_interfaces@, i as nat),
            decreases self.import_interfaces@.len() - i,
        {
            if i > 0 {
                out.append(" + ");
            }
            let path = path_of_module(self.import_interfaces.get(i));
            out.append(path.as_str());
            out.append("::Host");
            i += 1;
        }
        if self.import_functions.len() != 0 {
            if self.import_interfaces.len() > 0 {
                out.append(" + ");
            }
            out.append(camel);
            out.append("Imports");
        }
        self.send_bounds(out);
        out.append(",\n{\n");
        let ghost start = out@;
        let mut i: usize = 0;
        while i < self.import_interfaces.len()
            invariant
                i <= self.import_interfaces@.len(),
                out@ == start + add_calls_text(self.import_interfaces@, i as nat),
            decreases self.import_interfaces@.len() - i,
        {
            let path = path_of_module(self.import_interfaces.get(i));
            out.append(path.as_str());
            out.append("::add_to_linker(linker, get)?;\n");
            i += 1;
        }
        if self.import_functions.len() != 0 {
            out.append("Self::add_root_to_linker(linker, get)?;\n");
        }
        out.append("Ok(())\n}\n");
        if self.import_functions.len() != 0 {
            self.add_root(resolve, camel, out);
        }
    }

    /// Appends the constructors of the world struct up to the start of
    /// the body of `new`.
    fn instantiate(&self, out: &mut String)
        ensures
            final(out)@ == old(out)@ + instantiate_text(*self.opts),
    {
        reveal(instantiate_text);
        let async_ = if self.opts.async_ {
            "async"
        } else {
            ""
        };
        let suffix = if self.opts.async_ {
            "_async"
        } else {
            ""
        };
        let send = if self.opts.async_ {
            ":Send"
        } else {
            ""
        };
        let await_ = if self.opts.async_ {
            ".await"
        } else {
            ""
        };
        proof {
            reveal_strlit("");
            assert(""@ =~= Seq::<char>::empty());
        }
        out.append(
            "\n/// Instantiates the provided `module` using the specified\n/// parameters, wrapping up the result in a structure that\n/// translates between wasm and the host.\npub ",
        );
        out.append(async_);
        out.append(" fn instantiate");
        out.append(suffix);
        out.append("<T ");
        out.append(send);
        out.append(
            ">(\nmut store: impl wasmtime::AsContextMut<Data = T>,\ncomponent: &wasmtime::component::Component,\nlinker: &wasmtime::component::Linker<T>,\n) -> wasmtime::Result<(Self, wasmtime::component::Instance)> {\nlet instance = linker.instantiate",
        );
        out.append(suffix);
        out.append("(&mut store, component)");
        out.append(await_);
        out.append(
            "?;\nOk((Self::new(store, &instance)?, instance))\n}\n\n/// Instantiates a pre-instantiated module using the specified\n/// parameters, wrapping up the result in a structure that\n/// translates between wasm and the host.\npub ",
        );
        out.append(async_);
        out.append(" fn instantiate_pre<T ");
        out.append(send);
        out.append(
            ">(\nmut store: impl wasmtime::AsContextMut<Data = T>,\ninstance_pre: &wasmtime::component::InstancePre<T>,\n) -> wasmtime::Result<(Self, wasmtime::component::Instance)> {\nlet instance = instance_pre.instantiate",
        );
        out.append(suffix);
        out.append("(&mut store)");
        out.append(await_);
        out.append(
            "?;\nOk((Self::new(store, &instance)?, instance))\n}\n\n/// Low-level creation wrapper for wrapping up the exports\n/// of the `instance` provided in this structure of wasm\n/// exports.\n///\n/// This function will extract exports from the `instance`\n/// defined within `store` and wrap them all up in the\n/// returned structure which can be used to interact with\n/// the wasm module.\npub fn new(\nmut store: impl wasmtime::AsContextMut,\ninstance: &wasmtime::component::Instance,\n) -> wasmtime::Result<Self> {\nlet mut store = store.as_context_mut();\nlet mut exports = instance.exports(&mut store);\nlet mut __exports = exports.root();\n\n",
        );
    }

    /// Appends the world struct named after `name`.
    pub fn build_struct(&self, resolve: &Schema, name: &str, out: &mut String)
        ensures
            final(out)@ == old(out)@ + build_struct_text(self.cfg(*resolve), self@, name@),
    {
        reveal(build_struct_text);
        let camel = to_rust_upper_camel_case(name);
        let camel = camel.as_str();
        let fields = &self.exports.fields;
        out.append("pub struct ");
        out.append(camel);
        out.append(" {\n");
        let ghost start = out@;
        let mut i: usize = 0;
        while i < fields.len()
            invariant
                i <= fields@.len(),
                out@ == start + field_decls_text(fields@, i as nat),
            decreases fields@.len() - i,
        {
            out.append(fields.key(i).as_str());
            out.append(": ");
            out.append(fields.value(i).0.as_str());
            out.append(",\n");
            i += 1;
        }
        out.append("}\n");
        self.toplevel_import_trait(resolve, camel, out);
        out.append("const _: () = {\n");
        out.append("use wasmtime::component::__internal::anyhow;\n");
        out.append("impl ");
        out.append(camel);
        out.append(" {\n");
        self.toplevel_add_to_linker(resolve, camel, out);
        self.instantiate(out);
        let ghost start = out@;
        let mut i: usize = 0;
        while i < fields.len()
            invariant
                i <= fields@.len(),
                out@ == start + field_lets_text(fields@, i as nat),
            decreases fields@.len() - i,
        {
            out.append("let ");
            out.append(fields.key(i).as_str());
            out.append(" = ");
            out.append(fields.value(i).1.as_str());
            out.append(";\n");
            i += 1;
        }
        out.append("Ok(");
        out.append(camel);
        out.append(" {\n");
        let ghost start = out@;
        let mut i: usize = 0;
        while i < fields.len()
            invariant
                i <= fields@.len(),
                out@ == start + field_inits_text(fields@, i as nat),
            decreases fields@.len() - i,
        {
            out.append(fields.key(i).as_str());
            out.append(",\n");
            i += 1;
        }
        out.append("})\n");
        out.append("}\n");
        let ghost start = out@;
        let ghost funcs = texts(self.exports.funcs@);
        let mut i: usize = 0;
        while i < self.exports.funcs.len()
            invariant
                i <= self.exports.funcs@.len(),
                funcs == texts(self.exports.funcs@),
                out@ == start + concat_text(funcs, i as nat),
            decreases self.exports.funcs@.len() - i,
        {
            assert(funcs[i as int] == self.exports.funcs@[i as int]@);
            out.append(self.exports.funcs[i].as_str());
            i += 1;
        }
        out.append("}\n");
        out.append("};\n");
    }

    /// The generated code of the world named `name`, made of what has
    /// been collected.
    pub fn finish(&self, resolve: &Schema, name: &str) -> (r: String)
        ensures
            r@ == finish_text(self.cfg(*resolve), self@, name@),
    {
        reveal(finish_text);
        let mut src = self.src.clone();
        if !self.opts.only_interfaces {
            self.build_struct(resolve, name, &mut src);
        }
        emit_modules(&mut src, &self.import_interfaces);
        if !self.exports.modules.is_empty() {
            src.append("pub mod exports {\n");
            emit_modules(&mut src, &self.exports.modules);
            src.append("}\n");
        }
        src
    }
}

} // verus!
