//! Host state for neural-network inference: tables that hand out integer
//! handles for loaded graphs and execution contexts, and the plan by which
//! graphs are preloaded from directories.

use vstd::prelude::*;
use vstd::string::StringExecFns;
use std::collections::HashMap;
use std::hash::Hash;
use vstd::std_specs::convert::FromSpec;
use vstd::std_specs::hash::obeys_key_model;
use crate::text::{decimal, group_text, push_decimal, same};

verus! {

broadcast use {group_text, vstd::std_specs::hash::group_hash_axioms};

/// The handle of a loaded graph.
pub type GraphId = u32;

/// The handle of an execution context.
pub type GraphExecutionContextId = u32;

/// The name of a backend, as a guest or a configuration writes it.
pub type BackendName = String;

/// The directory that holds the files of a graph.
pub type GraphDirectory = String;

/// Records values under handles that are handed out in increasing order.
pub struct Table<K, V> {
    entries: HashMap<K, V>,
    next_key: u32,
}

/// `HashMap::get_mut`: a mutable reference to the value of `key`, if the
/// map holds one.  What the caller writes through the reference is what
/// the map holds for `key` afterwards; nothing else changes.
#[verifier::external_body]
fn entry_mut<'a, K: Eq + Hash, V>(map: &'a mut HashMap<K, V>, key: &K) -> (r: Option<&'a mut V>)
    ensures
        obeys_key_model::<K>() ==> match r {
            Some(v) => old(map)@.contains_key(*key) && *v == old(map)@[*key] && final(map)@ == old(
                map,
            )@.insert(*key, *final(v)),
            None => !old(map)@.contains_key(*key) && final(map)@ == old(map)@,
        },
{
    map.get_mut(key)
}

impl<K, V> Table<K, V> {
    /// The values by handle.
    pub closed spec fn view(&self) -> Map<K, V> {
        self.entries@
    }

    /// The number from which the next handle is made.
    pub closed spec fn next_key(&self) -> u32 {
        self.next_key
    }
}

impl<K, V> Table<K, V> where K: Eq + Hash + From<u32> + Copy {
    /// Adds `value` under the next handle and returns the handle.
    pub fn insert(&mut self, value: V) -> (key: K)
        requires
            old(self).next_key() < u32::MAX,
            obeys_key_model::<K>(),
        ensures
            <K as FromSpec<u32>>::obeys_from_spec() ==> key == <K as FromSpec<u32>>::from_spec(
                old(self).next_key(),
            ),
            final(self)@ == old(self)@.insert(key, value),
            final(self).next_key() == old(self).next_key() + 1,
    {
        let key = self.use_next_key();
        self.entries.insert(key, value);
        key
    }

    /// Adds `value` under the next handle and returns the handle, unless
    /// the handles are used up: then the table stays as it is and the
    /// value comes back.
    pub fn try_insert(&mut self, value: V) -> (r: Result<K, V>)
        requires
            obeys_key_model::<K>(),
        ensures
            match r {
                Ok(key) => {
                    &&& old(self).next_key() < u32::MAX
                    &&& <K as FromSpec<u32>>::obeys_from_spec() ==> key == <K as FromSpec<
                        u32,
                    >>::from_spec(old(self).next_key())
                    &&& final(self)@ == old(self)@.insert(key, value)
                    &&& final(self).next_key() == old(self).next_key() + 1
                },
                Err(back) => {
                    &&& old(self).next_key() == u32::MAX
                    &&& back == value
                    &&& final(self)@ == old(self)@
                    &&& final(self).next_key() == old(self).next_key()
                },
            },
    {
        if self.next_key == u32::MAX {
            Err(value)
        } else {
            Ok(self.insert(value))
        }
    }

    /// The value under `key`.
    pub fn get(&self, key: K) -> (r: Option<&V>)
        requires
            obeys_key_model::<K>(),
        ensures
            match r {
                Some(v) => self@.contains_key(key) && *v == self@[key],
                None => !self@.contains_key(key),
            },
    {
        self.entries.get(&key)
    }

    /// The value under `key`, to be changed in place.
    pub fn get_mut(&mut self, key: K) -> (r: Option<&mut V>)
        requires
            obeys_key_model::<K>(),
        ensures
            final(self).next_key() == old(self).next_key(),
            match r {
                Some(v) => old(self)@.contains_key(key) && *v == old(self)@[key] && final(self)@
                    == old(self)@.insert(key, *final(v)),
                None => !old(self)@.contains_key(key) && final(self)@ == old(self)@,
            },
    {
        entry_mut(&mut self.entries, &key)
    }

    /// Takes the next handle: each call gives the handle of a number one
    /// greater than the call before.
    pub fn use_next_key(&mut self) -> (key: K)
        requires
            old(self).next_key() < u32::MAX,
        ensures
            <K as FromSpec<u32>>::obeys_from_spec() ==> key == <K as FromSpec<u32>>::from_spec(
                old(self).next_key(),
            ),
            final(self)@ == old(self)@,
            final(self).next_key() == old(self).next_key() + 1,
    {
        let current = self.next_key;
        self.next_key += 1;
        K::from(current)
    }
}

impl<K, V> Default for Table<K, V> {
    fn default() -> (r: Self)
        ensures
            r@ == Map::<K, V>::empty(),
            r.next_key() == 0,
    {
        Table { entries: HashMap::new(), next_key: 0 }
    }
}

/// A registry of graphs by name.
pub trait GraphRegistry<G> {
    /// The graph registered under `name`, to be used in place.
    fn get_mut(&mut self, name: &str) -> Option<&mut G>;
}

/// The state that calls into the inference backends need: the backends,
/// the registry of named graphs, and the tables of the graphs and
/// execution contexts that guests hold handles of.
pub struct WasiNnCtx<B, R, G, E> {
    pub backends: B,
    pub registry: R,
    pub graphs: Table<GraphId, G>,
    pub executions: Table<GraphExecutionContextId, E>,
}

impl<B, R, G, E> WasiNnCtx<B, R, G, E> {
    /// A context with the given backends and registry, and with no graph
    /// and no execution context.
    pub fn new(backends: B, registry: R) -> (r: Self)
        ensures
            r.backends == backends,
            r.registry == registry,
            r.graphs@ == Map::<GraphId, G>::empty(),
            r.graphs.next_key() == 0,
            r.executions@ == Map::<GraphExecutionContextId, E>::empty(),
            r.executions.next_key() == 0,
    {
        WasiNnCtx {
            backends,
            registry,
            graphs: Table::default(),
            executions: Table::default(),
        }
    }
}


/// The encoding of a graph.
#[derive(Clone, Copy, Debug, PartialEq, Eq, Structural)]
pub enum GraphEncoding {
    Openvino,
    Onnx,
    Tensorflow,
    Pytorch,
    Tensorflowlite,
    Autodetect,
}

impl GraphEncoding {
    /// The name of the encoding.
    pub open spec fn name_text(self) -> Seq<char> {
        match self {
            GraphEncoding::Openvino => "Openvino"@,
            GraphEncoding::Onnx => "Onnx"@,
            GraphEncoding::Tensorflow => "Tensorflow"@,
            GraphEncoding::Pytorch => "Pytorch"@,
            GraphEncoding::Tensorflowlite => "Tensorflowlite"@,
            GraphEncoding::Autodetect => "Autodetect"@,
        }
    }

    /// The name of the encoding.
    pub fn name(&self) -> (r: &'static str)
        ensures
            r@ == self.name_text(),
    {
        match self {
            GraphEncoding::Openvino => "Openvino",
            GraphEncoding::Onnx => "Onnx",
            GraphEncoding::Tensorflow => "Tensorflow",
            GraphEncoding::Pytorch => "Pytorch",
            GraphEncoding::Tensorflowlite => "Tensorflowlite",
            GraphEncoding::Autodetect => "Autodetect",
        }
    }
}

/// A wrong use of the context by a guest.
#[derive(Debug)]
pub enum UsageError {
    InvalidContext,
    InvalidEncoding(GraphEncoding),
    InvalidNumberOfBuilders(u32),
    InvalidGraphHandle,
    InvalidExecutionContextHandle,
    NotEnoughMemory(u32),
    NotFound(String),
}

impl UsageError {
    /// What the error says.
    pub open spec fn message_text(self) -> Seq<char> {
        match self {
            UsageError::InvalidContext => "Invalid context; has the load function been called?"@,
            UsageError::InvalidEncoding(encoding) =>
                "Only OpenVINO's IR is currently supported, passed encoding: "@
                    + encoding.name_text(),
            UsageError::InvalidNumberOfBuilders(n) =>
                "OpenVINO expects only two buffers (i.e. [ir, weights]), passed: "@ + decimal(
                    n as nat,
                ),
            UsageError::InvalidGraphHandle => "Invalid graph handle; has it been loaded?"@,
            UsageError::InvalidExecutionContextHandle =>
                "Invalid execution context handle; has it been initialized?"@,
            UsageError::NotEnoughMemory(n) => "Not enough memory to copy tensor data of size: "@
                + decimal(n as nat),
            UsageError::NotFound(name) => "No graph found with name: "@ + name@,
        }
    }

    /// What the error says.
    pub fn message(&self) -> (r: String)
        ensures
            r@ == self.message_text(),
    {
        match self {
            UsageError::InvalidContext => {
                "Invalid context; has the load function been called?".to_owned()
            },
            UsageError::InvalidEncoding(encoding) => {
                let mut out =
                    "Only OpenVINO's IR is currently supported, passed encoding: ".to_owned();
                out.append(encoding.name());
                out
            },
            UsageError::InvalidNumberOfBuilders(n) => {
                let mut out =
                    "OpenVINO expects only two buffers (i.e. [ir, weights]), passed: ".to_owned();
                push_decimal(&mut out, *n as usize);
                out
            },
            UsageError::InvalidGraphHandle => "Invalid graph handle; has it been loaded?".to_owned(),
            UsageError::InvalidExecutionContextHandle => {
                "Invalid execution context handle; has it been initialized?".to_owned()
            },
            UsageError::NotEnoughMemory(n) => {
                let mut out = "Not enough memory to copy tensor data of size: ".to_owned();
                push_decimal(&mut out, *n as usize);
                out
            },
            UsageError::NotFound(name) => {
                let mut out = "No graph found with name: ".to_owned();
                out.append(name.as_str());
                out
            },
        }
    }
}

/// The error of a guest that misuses memory, as `wiggle` reports it.
#[verifier::external_type_specification]
#[verifier::external_body]
pub struct ExGuestError(wiggle::GuestError);

/// An error of a call into the context: of a backend, of the access to
/// the memory of the guest, or of the use of the context.
pub enum WasiNnError<B> {
    BackendError(B),
    GuestError(wiggle::GuestError),
    UsageError(UsageError),
}

impl<B> WasiNnError<B> {
    /// What the error says.
    pub open spec fn message_text(self) -> Seq<char> {
        match self {
            WasiNnError::BackendError(_) => "backend error"@,
            WasiNnError::GuestError(_) => "guest error"@,
            WasiNnError::UsageError(_) => "usage error"@,
        }
    }

    /// What the error says.
    pub fn message(&self) -> (r: String)
        ensures
            r@ == self.message_text(),
    {
        match self {
            WasiNnError::BackendError(_) => "backend error".to_owned(),
            WasiNnError::GuestError(_) => "guest error".to_owned(),
            WasiNnError::UsageError(_) => "usage error".to_owned(),
        }
    }
}

impl<B> From<UsageError> for WasiNnError<B> {
    fn from(error: UsageError) -> (r: Self) {
        WasiNnError::UsageError(error)
    }
}

impl<B> vstd::std_specs::convert::FromSpecImpl<UsageError> for WasiNnError<B> {
    open spec fn obeys_from_spec() -> bool {
        true
    }

    open spec fn from_spec(error: UsageError) -> Self {
        WasiNnError::UsageError(error)
    }
}

impl<B> From<wiggle::GuestError> for WasiNnError<B> {
    fn from(error: wiggle::GuestError) -> (r: Self) {
        WasiNnError::GuestError(error)
    }
}

impl<B> vstd::std_specs::convert::FromSpecImpl<wiggle::GuestError> for WasiNnError<B> {
    open spec fn obeys_from_spec() -> bool {
        true
    }

    open spec fn from_spec(error: wiggle::GuestError) -> Self {
        WasiNnError::GuestError(error)
    }
}

/// The result of a call into the context.
pub type WasiNnResult<T, B> = std::result::Result<T, WasiNnError<B>>;

/// A backend that is available to the context.
#[derive(Debug)]
pub struct BackendInfo {
    /// The name of the backend.
    pub name: BackendName,
    /// Whether the backend can load a graph from a directory.
    pub dir_loadable: bool,
}

/// Why a graph cannot be preloaded.
#[derive(Debug)]
pub enum PreloadError {
    /// No backend of this name is available.
    Unsupported(BackendName),
    /// The backend of this name cannot load from a directory.
    NotDirLoadable(BackendName),
}

/// What a preload error holds.
pub enum PreloadErrorView {
    Unsupported(Seq<char>),
    NotDirLoadable(Seq<char>),
}

impl View for PreloadError {
    type V = PreloadErrorView;

    open spec fn view(&self) -> PreloadErrorView {
        match self {
            PreloadError::Unsupported(name) => PreloadErrorView::Unsupported(name@),
            PreloadError::NotDirLoadable(name) => PreloadErrorView::NotDirLoadable(name@),
        }
    }
}

impl PreloadError {
    /// What the error says.
    pub open spec fn message_text(self) -> Seq<char> {
        match self {
            PreloadError::Unsupported(name) => "unsupported backend: "@ + name@,
            PreloadError::NotDirLoadable(name) => name@ + " does not support directory loading"@,
        }
    }

    /// What the error says.
    pub fn message(&self) -> (r: String)
        ensures
            r@ == self.message_text(),
    {
        match self {
            PreloadError::Unsupported(name) => {
                let mut out = "unsupported backend: ".to_owned();
                out.append(name.as_str());
                out
            },
            PreloadError::NotDirLoadable(name) => {
                let mut out = name.clone();
                out.append(" does not support directory loading");
                out
            },
        }
    }
}

/// The first of the first `n` backends that has the name `name`.
pub open spec fn backend_index(backends: Seq<BackendInfo>, name: Seq<char>, n: nat) -> Option<int>
    decreases n,
{
    if n == 0 {
        None
    } else {
        match backend_index(backends, name, (n - 1) as nat) {
            Some(i) => Some(i),
            None => if backends[n - 1].name@ == name {
                Some(n - 1)
            } else {
                None
            },
        }
    }
}

/// The loads that preload the first `n` of the graphs, each the index of
/// a backend with the directory to load from; or the error of the first
/// graph that cannot be preloaded: no backend of its name is available,
/// or the backend cannot load from a directory.
pub open spec fn preload_plan(
    backends: Seq<BackendInfo>,
    graphs: Seq<(BackendName, GraphDirectory)>,
    n: nat,
) -> Result<Seq<(int, Seq<char>)>, PreloadErrorView>
    decreases n,
{
    if n == 0 {
        Ok(Seq::empty())
    } else {
        match preload_plan(backends, graphs, (n - 1) as nat) {
            Err(e) => Err(e),
            Ok(steps) => {
                let (kind, path) = graphs[n - 1];
                match backend_index(backends, kind@, backends.len()) {
                    None => Err(PreloadErrorView::Unsupported(kind@)),
                    Some(i) => if backends[i].dir_loadable {
                        Ok(steps.push((i, path@)))
                    } else {
                        Err(PreloadErrorView::NotDirLoadable(kind@))
                    },
                }
            },
        }
    }
}

/// The indices and directories that a list of loads holds.
pub open spec fn steps_view(steps: Seq<(usize, GraphDirectory)>) -> Seq<(int, Seq<char>)> {
    Seq::new(steps.len(), |i: int| (steps[i].0 as int, steps[i].1@))
}

/// Finds the backend named `name`.
fn find_backend(backends: &[BackendInfo], name: &str) -> (r: Option<usize>)
    ensures
        match r {
            Some(i) => i < backends@.len() && backend_index(backends@, name@, backends@.len())
                == Some(i as int),
            None => backend_index(backends@, name@, backends@.len()) is None,
        },
{
    let mut i: usize = 0;
    while i < backends.len()
        invariant
            i <= backends@.len(),
            backend_index(backends@, name@, i as nat) is None,
        decreases backends@.len() - i,
    {
        if same(backends[i].name.as_str(), name) {
            proof {
                lemma_backend_found(backends@, name@, i as int, backends@.len());
            }
            return Some(i);
        }
        i += 1;
    }
    None
}

/// Where no backend before the `i`-th has the name and the `i`-th has it,
/// the `i`-th is the first among any `n > i` backends.
pub proof fn lemma_backend_found(backends: Seq<BackendInfo>, name: Seq<char>, i: int, n: nat)
    requires
        0 <= i < n,
        backend_index(backends, name, i as nat) is None,
        backends[i].name@ == name,
    ensures
        backend_index(backends, name, n) == Some(i),
    decreases n,
{
    if n > i + 1 {
        lemma_backend_found(backends, name, i, (n - 1) as nat);
    }
}

/// Plans the preloading of graphs from directories, given the available
/// backends and a list of backend name and graph directory: for every
/// graph the backend that loads it, or the error of the first graph that
/// no backend can load.
pub fn preload(backends: &[BackendInfo], preload_graphs: &[(BackendName, GraphDirectory)]) -> (r:
    Result<Vec<(usize, GraphDirectory)>, PreloadError>)
    ensures
        match r {
            Ok(steps) => preload_plan(backends@, preload_graphs@, preload_graphs@.len()) == Ok::<
                Seq<(int, Seq<char>)>,
                PreloadErrorView,
            >(steps_view(steps@)),
            Err(e) => preload_plan(backends@, preload_graphs@, preload_graphs@.len()) == Err::<
                Seq<(int, Seq<char>)>,
                PreloadErrorView,
            >(e@),
        },
{
    let mut steps: Vec<(usize, GraphDirectory)> = Vec::new();
    assert(steps_view(steps@) =~= Seq::empty());
    let mut i: usize = 0;
    while i < preload_graphs.len()
        invariant
            i <= preload_graphs@.len(),
            preload_plan(backends@, preload_graphs@, i as nat) == Ok::<
                Seq<(int, Seq<char>)>,
                PreloadErrorView,
            >(steps_view(steps@)),
        decreases preload_graphs@.len() - i,
    {
        let kind = &preload_graphs[i].0;
        let path = &preload_graphs[i].1;
        match find_backend(backends, kind.as_str()) {
            None => {
                let e = PreloadError::Unsupported(kind.clone());
                proof {
                    lemma_plan_fails(backends@, preload_graphs@, i as nat + 1, preload_graphs@.len());
                }
                return Err(e);
            },
            Some(b) => {
                if !backends[b].dir_loadable {
                    let e = PreloadError::NotDirLoadable(kind.clone());
                    proof {
                        lemma_plan_fails(
                            backends@,
                            preload_graphs@,
                            i as nat + 1,
                            preload_graphs@.len(),
                        );
                    }
                    return Err(e);
                }
                let ghost before = steps@;
                steps.push((b, path.clone()));
                assert(steps_view(steps@) =~= steps_view(before).push((b as int, path@)));
            },
        }
        i += 1;
    }
    Ok(steps)
}

/// Once the plan for some graphs has failed, the plan for more graphs
/// fails with the same error.
pub proof fn lemma_plan_fails(
    backends: Seq<BackendInfo>,
    graphs: Seq<(BackendName, GraphDirectory)>,
    k: nat,
    n: nat,
)
    requires
        k <= n,
        preload_plan(backends, graphs, k) is Err,
    ensures
        preload_plan(backends, graphs, n) == preload_plan(backends, graphs, k),
    decreases n,
{
    if n > k {
        lemma_plan_fails(backends, graphs, k, (n - 1) as nat);
    }
}

} // verus!
