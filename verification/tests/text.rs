//! Decoding from real structured text, through the serde_json parser.
use notebook_model::{decode_notebook, CellType, JsonValue};

fn tree_of(v: &serde_json::Value) -> JsonValue {
    match v {
        serde_json::Value::Null => JsonValue::Null,
        serde_json::Value::Bool(b) => JsonValue::Bool(*b),
        serde_json::Value::Number(n) => JsonValue::Int(n.as_i64().expect("integral number")),
        serde_json::Value::String(s) => JsonValue::Str(s.clone()),
        serde_json::Value::Array(items) => JsonValue::Arr(items.iter().map(tree_of).collect()),
        serde_json::Value::Object(members) => {
            JsonValue::Obj(members.iter().map(|(k, w)| (k.clone(), tree_of(w))).collect())
        }
    }
}

#[test]
fn example_text_end_to_end() {
    let text = "{\"metadata\":{\"kernelspec\":{\"display_name\":\"Python 3\",\"language\":\"python\"}},\"cells\":[{\"metadata\":{\"name\":\"\",\"tags\":[],\"format\":\"\",\"collapsed\":false,\"scrolled\":false,\"deletable\":true,\"editable\":true},\"source\":\"print(1)\",\"cell_type\":\"code\"}],\"nbformat\":4,\"nbformat_minor\":5}";
    let parsed: serde_json::Value = serde_json::from_str(text).unwrap();
    let tree = tree_of(&parsed);
    let nb = decode_notebook(&tree).unwrap();
    assert_eq!(nb.nbformat, 4);
    assert_eq!(nb.nbformat_minor, 5);
    assert_eq!(nb.cells.len(), 1);
    assert_eq!(nb.cells[0].cell_type, CellType::Code);
    assert_eq!(nb.cells[0].source, "print(1)");
    assert_eq!(nb.metadata.kernel_spec.display_name, "Python 3");
    assert_eq!(nb.metadata.kernel_spec.language, "python");
    assert!(nb.metadata.kernel_spec.argv.is_none());
    assert!(nb.metadata.language_info.is_none());
    assert!(nb.metadata.authors.is_empty());
}

#[test]
fn member_order_does_not_affect_decoding() {
    let forward = JsonValue::Obj(vec![
        ("display_name".to_string(), JsonValue::Str("K".to_string())),
        ("language".to_string(), JsonValue::Str("k".to_string())),
    ]);
    let backward = JsonValue::Obj(vec![
        ("language".to_string(), JsonValue::Str("k".to_string())),
        ("display_name".to_string(), JsonValue::Str("K".to_string())),
    ]);
    let a = notebook_model::decode_kernel_spec(&forward).unwrap();
    let b = notebook_model::decode_kernel_spec(&backward).unwrap();
    assert_eq!(a.display_name, b.display_name);
    assert_eq!(a.language, b.language);
}
