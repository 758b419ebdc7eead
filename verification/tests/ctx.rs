use std::collections::HashMap;
use wasmtime_wit_bindgen::ctx::{
    preload, BackendInfo, GraphEncoding, GraphRegistry, PreloadError, Table, UsageError,
    WasiNnCtx, WasiNnError,
};

struct Graph;

struct ExecutionContext;

struct FakeRegistry;

impl GraphRegistry<Graph> for FakeRegistry {
    fn get_mut(&mut self, _: &str) -> Option<&mut Graph> {
        None
    }
}

#[test]
fn example() {
    let ctx: WasiNnCtx<HashMap<u32, u32>, Box<FakeRegistry>, Graph, ExecutionContext> =
        WasiNnCtx::new(HashMap::new(), Box::new(FakeRegistry));
    assert!(ctx.graphs.get(0).is_none());
    assert!(ctx.executions.get(0).is_none());
}

#[test]
fn new_context_keeps_backends_and_registry() {
    let mut backends: HashMap<u32, u32> = HashMap::new();
    backends.insert(7, 9);
    let mut ctx: WasiNnCtx<HashMap<u32, u32>, Box<FakeRegistry>, Graph, ExecutionContext> =
        WasiNnCtx::new(backends, Box::new(FakeRegistry));
    assert_eq!(ctx.backends.get(&7), Some(&9));
    assert!(ctx.registry.get_mut("any").is_none());
}

#[test]
fn table_hands_out_increasing_keys() {
    let mut table: Table<u32, String> = Table::default();
    assert_eq!(table.insert("a".to_string()), 0);
    assert_eq!(table.insert("b".to_string()), 1);
    assert_eq!(table.insert("c".to_string()), 2);
    assert_eq!(table.get(0), Some(&"a".to_string()));
    assert_eq!(table.get(1), Some(&"b".to_string()));
    assert_eq!(table.get(2), Some(&"c".to_string()));
    assert_eq!(table.get(3), None);
}

#[test]
fn table_try_insert_hands_out_the_next_key() {
    let mut table: Table<u32, char> = Table::default();
    assert_eq!(table.try_insert('a'), Ok(0));
    assert_eq!(table.try_insert('b'), Ok(1));
    assert_eq!(table.get(1), Some(&'b'));
}

#[test]
fn table_use_next_key_skips_a_key() {
    let mut table: Table<u64, u8> = Table::default();
    assert_eq!(table.use_next_key(), 0u64);
    assert_eq!(table.insert(5), 1u64);
    assert_eq!(table.get(0), None);
    assert_eq!(table.get(1), Some(&5));
}

#[test]
fn table_get_mut_changes_the_value_in_place() {
    let mut table: Table<u32, u32> = Table::default();
    let key = table.insert(10);
    match table.get_mut(key) {
        Some(v) => *v = 11,
        None => panic!("the key was just inserted"),
    }
    assert_eq!(table.get(key), Some(&11));
    assert!(table.get_mut(key + 1).is_none());
}

#[test]
fn usage_error_messages() {
    assert_eq!(
        UsageError::InvalidContext.message(),
        "Invalid context; has the load function been called?"
    );
    assert_eq!(
        UsageError::InvalidEncoding(GraphEncoding::Onnx).message(),
        "Only OpenVINO's IR is currently supported, passed encoding: Onnx"
    );
    assert_eq!(
        UsageError::InvalidNumberOfBuilders(3).message(),
        "OpenVINO expects only two buffers (i.e. [ir, weights]), passed: 3"
    );
    assert_eq!(
        UsageError::InvalidGraphHandle.message(),
        "Invalid graph handle; has it been loaded?"
    );
    assert_eq!(
        UsageError::InvalidExecutionContextHandle.message(),
        "Invalid execution context handle; has it been initialized?"
    );
    assert_eq!(
        UsageError::NotEnoughMemory(4096).message(),
        "Not enough memory to copy tensor data of size: 4096"
    );
    assert_eq!(
        UsageError::NotFound("mobilenet".to_string()).message(),
        "No graph found with name: mobilenet"
    );
}

#[test]
fn wasi_nn_error_wraps_its_causes() {
    let usage: WasiNnError<u8> = WasiNnError::from(UsageError::InvalidGraphHandle);
    assert!(matches!(usage, WasiNnError::UsageError(UsageError::InvalidGraphHandle)));
    assert_eq!(usage.message(), "usage error");
    let guest: WasiNnError<u8> = WasiNnError::from(wiggle::GuestError::PtrOverflow);
    assert!(matches!(guest, WasiNnError::GuestError(wiggle::GuestError::PtrOverflow)));
    assert_eq!(guest.message(), "guest error");
    let backend: WasiNnError<u8> = WasiNnError::BackendError(1);
    assert_eq!(backend.message(), "backend error");
}

fn backends() -> Vec<BackendInfo> {
    vec![
        BackendInfo { name: "openvino".to_string(), dir_loadable: true },
        BackendInfo { name: "onnx".to_string(), dir_loadable: false },
    ]
}

#[test]
fn preload_plans_a_load_for_each_graph() {
    let graphs = vec![
        ("openvino".to_string(), "/models/a".to_string()),
        ("openvino".to_string(), "/models/b".to_string()),
    ];
    let plan = preload(&backends(), &graphs).unwrap();
    assert_eq!(plan, vec![(0, "/models/a".to_string()), (0, "/models/b".to_string())]);
    assert_eq!(preload(&backends(), &[]).unwrap(), vec![]);
}

#[test]
fn preload_rejects_an_unknown_backend() {
    let graphs = vec![
        ("openvino".to_string(), "/models/a".to_string()),
        ("tflite".to_string(), "/models/b".to_string()),
        ("onnx".to_string(), "/models/c".to_string()),
    ];
    let err = preload(&backends(), &graphs).unwrap_err();
    assert!(matches!(&err, PreloadError::Unsupported(name) if name == "tflite"));
    assert_eq!(err.message(), "unsupported backend: tflite");
}

#[test]
fn preload_rejects_a_backend_that_cannot_load_directories() {
    let graphs = vec![("onnx".to_string(), "/models/c".to_string())];
    let err = preload(&backends(), &graphs).unwrap_err();
    assert!(matches!(&err, PreloadError::NotDirLoadable(name) if name == "onnx"));
    assert_eq!(err.message(), "onnx does not support directory loading");
}
