use clap_autodoc::{
    generate_config_docs, register_struct_definition, update_document_content, CaseStyle,
    ClapAttrs, ConfigDocsArgs, FieldInfo, OutputFormat, PendingStore, StructInfo, StructRegistry,
};

fn plain_field(
    name: &str,
    ty: &str,
    doc: Option<&str>,
    env: &str,
    default_value: Option<&str>,
    default_value_t: Option<&str>,
    parent: &str,
) -> FieldInfo {
    let mut attrs = ClapAttrs::new();
    attrs.env = Some(env.to_string());
    attrs.default_value = default_value.map(|s| s.to_string());
    attrs.default_value_t = default_value_t.map(|s| s.to_string());
    FieldInfo::new(
        name.to_string(),
        ty.to_string(),
        doc.map(|s| s.to_string()),
        attrs,
        parent,
    )
}

fn flatten_field(name: &str, ty: &str, doc: Option<&str>, parent: &str) -> FieldInfo {
    let mut attrs = ClapAttrs::new();
    attrs.flatten = true;
    FieldInfo::new(
        name.to_string(),
        ty.to_string(),
        doc.map(|s| s.to_string()),
        attrs,
        parent,
    )
}

fn database_config() -> StructInfo {
    StructInfo {
        name: "DatabaseConfig".to_string(),
        fields: vec![
            plain_field(
                "postgres_host",
                "String",
                Some("Database host"),
                "POSTGRES_HOST",
                None,
                None,
                "DatabaseConfig",
            ),
            plain_field(
                "postgres_port",
                "u16",
                Some("Database port"),
                "POSTGRES_PORT",
                None,
                Some("5432"),
                "DatabaseConfig",
            ),
            plain_field(
                "postgres_user",
                "String",
                None,
                "POSTGRES_USER",
                None,
                None,
                "DatabaseConfig",
            ),
            plain_field(
                "postgres_password",
                "String",
                None,
                "POSTGRES_PASSWORD",
                None,
                None,
                "DatabaseConfig",
            ),
            plain_field(
                "postgres_database",
                "String",
                None,
                "POSTGRES_DATABASE",
                Some("data-ingestion"),
                None,
                "DatabaseConfig",
            ),
        ],
        clap_rename_all: Some(CaseStyle::Kebab),
    }
}

fn redis_config() -> StructInfo {
    StructInfo {
        name: "RedisConfig".to_string(),
        fields: vec![
            plain_field(
                "redis_host",
                "String",
                Some("Redis host"),
                "REDIS_HOST",
                None,
                None,
                "RedisConfig",
            ),
            plain_field(
                "redis_port",
                "u16",
                Some("Redis port"),
                "REDIS_PORT",
                None,
                Some("6379"),
                "RedisConfig",
            ),
        ],
        clap_rename_all: Some(CaseStyle::Kebab),
    }
}

fn nested_config(name: &str) -> StructInfo {
    StructInfo {
        name: name.to_string(),
        fields: vec![
            flatten_field("database", "DatabaseConfig", Some("Database configuration"), name),
            flatten_field("redis", "RedisConfig", Some("Redis configuration"), name),
            plain_field(
                "port",
                "u16",
                Some("Server port"),
                "SERVER_PORT",
                None,
                Some("8080"),
                name,
            ),
        ],
        clap_rename_all: Some(CaseStyle::Kebab),
    }
}

#[test]
fn test_nested_flat_format() {
    let mut registry = StructRegistry::new();
    let mut pending = PendingStore::new();
    register_struct_definition(&mut registry, &mut pending, database_config());
    register_struct_definition(&mut registry, &mut pending, redis_config());

    let args = ConfigDocsArgs {
        target: "tests/output/nested_flat_output.md".to_string(),
        format: OutputFormat::Flat,
    };
    let write = generate_config_docs(&registry, &mut pending, nested_config("NestedConfigFlat"), args)
        .expect("all flattened dependencies are registered");
    let content = update_document_content(None, &write.content);

    // Expected output for flat format with expanded flattened fields
    let expected = vec![
        "[//]: # (CONFIG_DOCS_START)",
        "",
        "| Field Name        | Type   | Required | Default        | Details       | Group            |",
        "|-------------------|--------|----------|----------------|---------------|------------------|",
        "| postgres-host     | String | Yes      | -              | Database host | DatabaseConfig   |",
        "| postgres-port     | u16    | No       | 5432           | Database port | DatabaseConfig   |",
        "| postgres-user     | String | Yes      | -              |               | DatabaseConfig   |",
        "| postgres-password | String | Yes      | -              |               | DatabaseConfig   |",
        "| postgres-database | String | No       | data-ingestion |               | DatabaseConfig   |",
        "| redis-host        | String | Yes      | -              | Redis host    | RedisConfig      |",
        "| redis-port        | u16    | No       | 6379           | Redis port    | RedisConfig      |",
        "| port              | u16    | No       | 8080           | Server port   | NestedConfigFlat |",
        "",
        "[//]: # (CONFIG_DOCS_END)"
    ].join("\n");

    assert_eq!(content.trim(), expected.trim());
}

#[test]
fn test_nested_grouped_format() {
    let mut registry = StructRegistry::new();
    let mut pending = PendingStore::new();
    register_struct_definition(&mut registry, &mut pending, database_config());
    register_struct_definition(&mut registry, &mut pending, redis_config());

    let args = ConfigDocsArgs {
        target: "tests/output/nested_grouped_output.md".to_string(),
        format: OutputFormat::Grouped,
    };
    let write = generate_config_docs(
        &registry,
        &mut pending,
        nested_config("NestedConfigGrouped"),
        args,
    )
    .expect("all flattened dependencies are registered");
    let content = update_document_content(None, &write.content);

    let expected = vec![
        "[//]: # (CONFIG_DOCS_START)",
        "",
        "## DatabaseConfig Configuration",
        "",
        "| Field Name        | Type   | Required | Default        | Details       |",
        "|-------------------|--------|----------|----------------|---------------|",
        "| postgres-host     | String | Yes      | -              | Database host |",
        "| postgres-port     | u16    | No       | 5432           | Database port |",
        "| postgres-user     | String | Yes      | -              |               |",
        "| postgres-password | String | Yes      | -              |               |",
        "| postgres-database | String | No       | data-ingestion |               |",
        "",
        "## RedisConfig Configuration",
        "",
        "| Field Name | Type   | Required | Default | Details    |",
        "|------------|--------|----------|---------|------------|",
        "| redis-host | String | Yes      | -       | Redis host |",
        "| redis-port | u16    | No       | 6379    | Redis port |",
        "",
        "## NestedConfigGrouped Configuration",
        "",
        "| Field Name | Type | Required | Default | Details     |",
        "|------------|------|----------|---------|-------------|",
        "| port       | u16  | No       | 8080    | Server port |",
        "",
        "",
        "",
        "[//]: # (CONFIG_DOCS_END)",
    ]
    .join("\n");

    assert_eq!(content.trim(), expected.trim());
}
