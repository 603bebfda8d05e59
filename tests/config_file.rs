use lexicon::{Config, Document, Index, RenderRequest};
use serde_json::Value;

#[test]
fn written_resolution_is_used_after_reload() {
    let mut fields = serde_json::Map::new();
    fields.insert("replace".to_string(), Value::Array(Vec::new()));
    fields.insert("resolution".to_string(), Value::from(150u32));
    let text = serde_json::to_string(&Value::Object(fields)).unwrap();

    let read: Value = serde_json::from_str(&text).unwrap();
    let resolution = read.get("resolution").and_then(Value::as_u64).unwrap() as u32;
    let config = Config { replace: Vec::new(), resolution };
    let d: Document<Vec<u8>> = Document::new(Index::parse("a 1").unwrap(), 4, config);
    assert_eq!(d.render_request(), Some(RenderRequest { page: 1, dpi: 150 }));
}
