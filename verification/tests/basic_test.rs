use clap_autodoc::{
    generate_config_docs, update_document_content, CaseStyle, ClapAttrs, ConfigDocsArgs,
    FieldInfo, OutputFormat, PendingStore, StructInfo, StructRegistry,
};

fn field(
    name: &str,
    ty: &str,
    doc: Option<&str>,
    env: &str,
    default_value: Option<&str>,
    default_value_t: Option<&str>,
    parent: &str,
) -> FieldInfo {
    let mut attrs = ClapAttrs::new();
    attrs.env = Some(env.to_string());
    attrs.default_value = default_value.map(|s| s.to_string());
    attrs.default_value_t = default_value_t.map(|s| s.to_string());
    FieldInfo::new(
        name.to_string(),
        ty.to_string(),
        doc.map(|s| s.to_string()),
        attrs,
        parent,
    )
}

fn test_config() -> StructInfo {
    StructInfo {
        name: "TestConfig".to_string(),
        fields: vec![
            field(
                "postgres_host",
                "String",
                Some("Database host"),
                "POSTGRES_HOST",
                None,
                None,
                "TestConfig",
            ),
            field(
                "postgres_port",
                "u16",
                Some("Database port"),
                "POSTGRES_PORT",
                None,
                Some("5432"),
                "TestConfig",
            ),
            field("postgres_user", "String", None, "POSTGRES_USER", None, None, "TestConfig"),
            field(
                "postgres_password",
                "String",
                None,
                "POSTGRES_PASSWORD",
                None,
                None,
                "TestConfig",
            ),
            field(
                "postgres_database",
                "String",
                None,
                "POSTGRES_DATABASE",
                Some("data-ingestion"),
                None,
                "TestConfig",
            ),
            field(
                "postgres_connection_pool",
                "u32",
                None,
                "POSTGRES_CONNECTION_POOL",
                None,
                Some("5"),
                "TestConfig",
            ),
        ],
        clap_rename_all: Some(CaseStyle::Kebab),
    }
}

#[test]
fn test_basic_functionality() {
    let registry = StructRegistry::new();
    let mut pending = PendingStore::new();
    let args = ConfigDocsArgs {
        target: "tests/output/test_output.md".to_string(),
        format: OutputFormat::Flat,
    };
    let write = generate_config_docs(&registry, &mut pending, test_config(), args)
        .expect("a definition without flattened fields generates immediately");
    assert!(write.target == "tests/output/test_output.md");

    // The target document does not exist yet: the updater creates it.
    let content = update_document_content(None, &write.content);

    let expected = vec![
        "[//]: # (CONFIG_DOCS_START)",
        "",
        "| Field Name               | Type   | Required | Default        | Details       | Group      |",
        "|--------------------------|--------|----------|----------------|---------------|------------|",
        "| postgres-host            | String | Yes      | -              | Database host | TestConfig |",
        "| postgres-port            | u16    | No       | 5432           | Database port | TestConfig |",
        "| postgres-user            | String | Yes      | -              |               | TestConfig |",
        "| postgres-password        | String | Yes      | -              |               | TestConfig |",
        "| postgres-database        | String | No       | data-ingestion |               | TestConfig |",
        "| postgres-connection-pool | u32    | No       | 5              |               | TestConfig |",
        "",
        "[//]: # (CONFIG_DOCS_END)"
    ].join("\n");

    assert_eq!(content.trim(), expected.trim());

    println!("Generated markdown content:\n{}", content);
}
