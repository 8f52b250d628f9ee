use pipeline_harness::errors::EngineError;
use pipeline_harness::graph::{AttrKind, Attribute, AttributeHandle, Node, NodeGraph};
use pipeline_harness::resolve::{get_property, resolve, set_property, split_path};
use pipeline_harness::value::{ScalarType, Value};

fn scalar(name: &str, ty: ScalarType, value: Value) -> Attribute {
    Attribute { name: name.to_string(), kind: AttrKind::Scalar { ty, value } }
}

fn object(name: &str, node: usize) -> Attribute {
    Attribute { name: name.to_string(), kind: AttrKind::Object { node } }
}

/// A graph of two top-level nodes; the source holds an object-typed
/// attribute pointing at an inner pad node.
fn sample_graph() -> NodeGraph {
    let inner = Node {
        name: "pad0".to_string(),
        attrs: vec![scalar("offset", ScalarType::Int, Value::Int(0))],
    };
    let source = Node {
        name: "src".to_string(),
        attrs: vec![
            scalar("num-buffers", ScalarType::Int, Value::Int(-1)),
            scalar("is-live", ScalarType::Bool, Value::Bool(false)),
            scalar(
                "pattern",
                ScalarType::Enum {
                    names: vec!["smpte".to_string(), "solid-color".to_string()],
                },
                Value::EnumName("smpte".to_string()),
            ),
            object("pad", 2),
        ],
    };
    let sink = Node {
        name: "sink".to_string(),
        attrs: vec![
            scalar("enable-last-sample", ScalarType::Bool, Value::Bool(true)),
            scalar("max-lateness", ScalarType::Uint, Value::Uint(20)),
            scalar("name", ScalarType::Str, Value::Str("sink".to_string())),
        ],
    };
    NodeGraph { nodes: vec![source, sink, inner] }
}

#[test]
fn split_on_double_colon() {
    let t = split_path("a::b::c");
    let words: Vec<&str> = t.iter().map(|s| s.as_str()).collect();
    assert_eq!(words, vec!["a", "b", "c"]);
    let t = split_path("plain");
    assert_eq!(t.len(), 1);
    assert_eq!(t[0], "plain");
    let t = split_path("a:b");
    assert_eq!(t.len(), 1);
    assert_eq!(t[0], "a:b");
    let t = split_path("a::::b");
    let words: Vec<&str> = t.iter().map(|s| s.as_str()).collect();
    assert_eq!(words, vec!["a", "", "b"]);
}

#[test]
fn resolution_is_deterministic() {
    let g = sample_graph();
    let h1 = resolve(&g, "src::num-buffers").unwrap();
    let h2 = resolve(&g, "src::num-buffers").unwrap();
    assert_eq!(h1, h2);
    let d1 = resolve(&g, "src::pad::offset").unwrap();
    let d2 = resolve(&g, "src::pad::offset").unwrap();
    assert_eq!(d1, d2);
    assert_eq!(d1, AttributeHandle { node: 2, attr: 0 });
}

#[test]
fn missing_first_token_is_not_found() {
    let g = sample_graph();
    for path in ["nosuch", "nosuch::a", "nosuch::a::b::c"] {
        match resolve(&g, path) {
            Err(EngineError::NotFound { token }) => assert_eq!(token, "nosuch"),
            other => panic!("expected NotFound, got {:?}", other),
        }
    }
}

#[test]
fn missing_attribute_is_not_found() {
    let g = sample_graph();
    match resolve(&g, "src::no-such-prop") {
        Err(EngineError::NotFound { token }) => assert_eq!(token, "no-such-prop"),
        other => panic!("expected NotFound, got {:?}", other),
    }
}

#[test]
fn object_tail_is_malformed() {
    let g = sample_graph();
    // The path ends on the object-typed hop: nothing to assert on.
    assert_eq!(resolve(&g, "src::pad"), Err(EngineError::MalformedPath));
    // A bare node with no attribute token is malformed too.
    assert_eq!(resolve(&g, "src"), Err(EngineError::MalformedPath));
}

#[test]
fn token_after_scalar_is_malformed() {
    let g = sample_graph();
    assert_eq!(resolve(&g, "src::is-live::deeper"), Err(EngineError::MalformedPath));
}

#[test]
fn set_get_round_trip_bool() {
    let mut g = sample_graph();
    set_property(&mut g, "src::is-live", "true").unwrap();
    assert_eq!(get_property(&g, "src::is-live").unwrap(), &Value::Bool(true));
    set_property(&mut g, "src::is-live", "false").unwrap();
    assert_eq!(get_property(&g, "src::is-live").unwrap(), &Value::Bool(false));
}

#[test]
fn set_get_round_trip_int() {
    let mut g = sample_graph();
    set_property(&mut g, "src::num-buffers", "250").unwrap();
    assert_eq!(get_property(&g, "src::num-buffers").unwrap(), &Value::Int(250));
    set_property(&mut g, "src::num-buffers", "-1").unwrap();
    assert_eq!(get_property(&g, "src::num-buffers").unwrap(), &Value::Int(-1));
    set_property(&mut g, "src::pad::offset", "-9223372036854775808").unwrap();
    assert_eq!(
        get_property(&g, "src::pad::offset").unwrap(),
        &Value::Int(i64::MIN)
    );
}

#[test]
fn set_get_round_trip_uint() {
    let mut g = sample_graph();
    set_property(&mut g, "sink::max-lateness", "18446744073709551615").unwrap();
    assert_eq!(
        get_property(&g, "sink::max-lateness").unwrap(),
        &Value::Uint(u64::MAX)
    );
}

#[test]
fn set_get_round_trip_string() {
    let mut g = sample_graph();
    set_property(&mut g, "sink::name", "videosink0").unwrap();
    assert_eq!(
        get_property(&g, "sink::name").unwrap(),
        &Value::Str("videosink0".to_string())
    );
}

#[test]
fn set_get_round_trip_enum() {
    let mut g = sample_graph();
    set_property(&mut g, "src::pattern", "solid-color").unwrap();
    assert_eq!(
        get_property(&g, "src::pattern").unwrap(),
        &Value::EnumName("solid-color".to_string())
    );
}

#[test]
fn type_mismatch_is_an_error_not_a_coercion() {
    let mut g = sample_graph();
    let before = get_property(&g, "src::num-buffers").unwrap().clone();
    match set_property(&mut g, "src::num-buffers", "ten") {
        Err(EngineError::TypeMismatch { input }) => assert_eq!(input, "ten"),
        other => panic!("expected TypeMismatch, got {:?}", other),
    }
    assert_eq!(get_property(&g, "src::num-buffers").unwrap(), &before);
    match set_property(&mut g, "src::is-live", "yes") {
        Err(EngineError::TypeMismatch { input }) => assert_eq!(input, "yes"),
        other => panic!("expected TypeMismatch, got {:?}", other),
    }
    match set_property(&mut g, "src::pattern", "checkers") {
        Err(EngineError::TypeMismatch { input }) => assert_eq!(input, "checkers"),
        other => panic!("expected TypeMismatch, got {:?}", other),
    }
    // Out-of-range numbers have no reading at the declared type.
    assert!(matches!(
        set_property(&mut g, "src::num-buffers", "9223372036854775808"),
        Err(EngineError::TypeMismatch { .. })
    ));
    assert!(matches!(
        set_property(&mut g, "sink::max-lateness", "18446744073709551616"),
        Err(EngineError::TypeMismatch { .. })
    ));
    assert!(matches!(
        set_property(&mut g, "sink::max-lateness", "-3"),
        Err(EngineError::TypeMismatch { .. })
    ));
}
