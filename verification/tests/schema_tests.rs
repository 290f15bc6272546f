use masday_mcp::schema::{required_names, schema_field, schema_fields, FieldKind};

#[test]
fn plain_keys_are_required_strings() {
    let f = schema_field("workflow_id");
    assert_eq!(f.name, "workflow_id");
    assert_eq!(f.kind, FieldKind::Text);
    assert!(f.required);
}

#[test]
fn prefixes_and_question_marks() {
    let f = schema_field("#limit?");
    assert_eq!((f.name.as_str(), f.kind, f.required), ("limit", FieldKind::Number, false));
    let f = schema_field("[]tasks");
    assert_eq!((f.name.as_str(), f.kind, f.required), ("tasks", FieldKind::ObjectArray, true));
    let f = schema_field("notes??");
    assert_eq!((f.name.as_str(), f.kind, f.required), ("notes", FieldKind::Text, false));
}

#[test]
fn required_list_keeps_key_order() {
    let keys = ["workflow_id", "#limit?", "[]tasks", "notes?"];
    assert_eq!(required_names(&keys), vec!["workflow_id".to_string(), "tasks".to_string()]);
    let fields = schema_fields(&keys);
    let names: Vec<&str> = fields.iter().map(|f| f.name.as_str()).collect();
    assert_eq!(names, vec!["workflow_id", "limit", "tasks", "notes"]);
}
