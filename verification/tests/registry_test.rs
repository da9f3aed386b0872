use clap_autodoc::{
    register_struct_definition, CaseStyle, ClapAttrs, FieldInfo, PendingStore, StructInfo,
    StructRegistry,
};

fn simple_config() -> StructInfo {
    let mut attrs = ClapAttrs::new();
    attrs.env = Some("TEST_FIELD".to_string());
    let field = FieldInfo::new(
        "test_field".to_string(),
        "String".to_string(),
        Some("Test field".to_string()),
        attrs,
        "SimpleConfig",
    );
    StructInfo {
        name: "SimpleConfig".to_string(),
        fields: vec![field],
        clap_rename_all: Some(CaseStyle::Kebab),
    }
}

#[test]
fn test_registration_macro() {
    // This test just verifies that registration runs without panicking.
    let mut registry = StructRegistry::new();
    let mut pending = PendingStore::new();
    let _writes = register_struct_definition(&mut registry, &mut pending, simple_config());
    assert!(true);
}
