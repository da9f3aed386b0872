use clap_autodoc::{
    apply_field_name_transformation, can_generate_immediately, expand_nested_structs,
    generate_config_docs, generate_flat_table, generate_grouped_table, get_registered_struct,
    parse_rename_all, register_struct_definition, update_document_content, AttrError, CaseStyle,
    ClapAttrs, ConfigDocsArgs, FieldInfo, OutputFormat, PendingStore, StructInfo, StructRegistry,
};

fn plain_field(name: &str, ty: &str, doc: Option<&str>, default_value_t: Option<&str>, parent: &str) -> FieldInfo {
    let mut attrs = ClapAttrs::new();
    attrs.default_value_t = default_value_t.map(|s| s.to_string());
    FieldInfo::new(
        name.to_string(),
        ty.to_string(),
        doc.map(|s| s.to_string()),
        attrs,
        parent,
    )
}

fn flatten_field(name: &str, ty: &str, parent: &str) -> FieldInfo {
    let mut attrs = ClapAttrs::new();
    attrs.flatten = true;
    FieldInfo::new(name.to_string(), ty.to_string(), None, attrs, parent)
}

#[test]
fn case_style_parse_recognizes_all_conventions() {
    assert!(matches!(CaseStyle::parse("snake_case"), Some(CaseStyle::Snake)));
    assert!(matches!(CaseStyle::parse("camelCase"), Some(CaseStyle::Camel)));
    assert!(matches!(CaseStyle::parse("PascalCase"), Some(CaseStyle::Pascal)));
    assert!(matches!(CaseStyle::parse("kebab-case"), Some(CaseStyle::Kebab)));
    assert!(matches!(CaseStyle::parse("SCREAMING_SNAKE_CASE"), Some(CaseStyle::ScreamingSnake)));
    assert!(matches!(CaseStyle::parse("SCREAMING-KEBAB-CASE"), Some(CaseStyle::ScreamingKebab)));
    assert!(CaseStyle::parse("SpongeCase").is_none());
    assert!(CaseStyle::parse("").is_none());
}

#[test]
fn name_transformation_applies_declared_convention() {
    // Each convention really transforms: a result equal to the input would fail here.
    assert_eq!(apply_field_name_transformation("postgres_host", &Some(CaseStyle::Kebab)), "postgres-host");
    assert_eq!(apply_field_name_transformation("postgres-host", &Some(CaseStyle::Snake)), "postgres_host");
    assert_eq!(apply_field_name_transformation("postgres_host", &Some(CaseStyle::Camel)), "postgresHost");
    assert_eq!(apply_field_name_transformation("postgres_host", &Some(CaseStyle::Pascal)), "PostgresHost");
    assert_eq!(apply_field_name_transformation("postgres_host", &Some(CaseStyle::ScreamingSnake)), "POSTGRES_HOST");
    assert_eq!(apply_field_name_transformation("postgres_host", &Some(CaseStyle::ScreamingKebab)), "POSTGRES-HOST");
    assert_eq!(apply_field_name_transformation("postgres_host", &None), "postgres_host");
}

#[test]
fn name_transformation_is_idempotent_on_supported_styles() {
    let styles = [
        CaseStyle::Snake,
        CaseStyle::Camel,
        CaseStyle::Pascal,
        CaseStyle::Kebab,
        CaseStyle::ScreamingSnake,
        CaseStyle::ScreamingKebab,
    ];
    for style in styles {
        let once = apply_field_name_transformation("multi_word_field_name", &Some(style));
        let twice = apply_field_name_transformation(&once, &Some(style));
        assert_eq!(once, twice);
    }
}

#[test]
fn parse_rename_all_reads_quoted_convention() {
    assert!(matches!(
        parse_rename_all("rename_all = \"kebab-case\""),
        Some(Some(CaseStyle::Kebab))
    ));
    assert!(matches!(
        parse_rename_all("rename_all = \"kebab-case\", rename_all_env = \"SCREAMING_SNAKE_CASE\""),
        Some(Some(CaseStyle::Kebab))
    ));
    // An unrecognized spelling overwrites the convention with "none".
    assert!(matches!(parse_rename_all("rename_all = \"sponge-case\""), Some(None)));
    // No assignment at all: nothing to take over.
    assert!(parse_rename_all("env = \"PORT\", long").is_none());
    assert!(parse_rename_all("rename_all").is_none());
}

#[test]
fn attribute_application_reports_structural_errors() {
    let mut attrs = ClapAttrs::new();
    assert_eq!(attrs.apply_name_value("short", Some(&"p".to_string()), ""), Ok(()));
    assert_eq!(attrs.short, Some('p'));
    assert_eq!(
        attrs.apply_name_value("short", Some(&"pq".to_string()), ""),
        Err(AttrError::ExpectedSingleChar)
    );
    assert_eq!(attrs.apply_name_value("long", None, "5432"), Err(AttrError::ExpectedStringLiteral));
    // A default expression keeps its raw expression text.
    assert_eq!(attrs.apply_name_value("default_value_t", None, "5432"), Ok(()));
    assert_eq!(attrs.default_value_t, Some("5432".to_string()));
    // Unknown keys are ignored.
    assert_eq!(attrs.apply_name_value("color", Some(&"auto".to_string()), ""), Ok(()));
    attrs.apply_flag("flatten");
    attrs.apply_flag("verbose");
    assert!(attrs.flatten);
    assert!(!attrs.required && !attrs.skip);
}

#[test]
fn group_is_last_path_segment_of_flattened_type() {
    let field = flatten_field("database", "config::db::DatabaseConfig", "Config");
    assert_eq!(field.group, "DatabaseConfig");
    let plain = plain_field("port", "u16", None, None, "Config");
    assert_eq!(plain.group, "Config");
}

#[test]
fn registry_lookup_and_overwrite() {
    let mut registry = StructRegistry::new();
    let mut pending = PendingStore::new();
    assert!(get_registered_struct(&registry, "A").is_none());

    let a1 = StructInfo {
        name: "A".to_string(),
        fields: vec![plain_field("x", "u8", None, None, "A")],
        clap_rename_all: None,
    };
    register_struct_definition(&mut registry, &mut pending, a1);
    let got = get_registered_struct(&registry, "A").unwrap();
    assert_eq!(got.fields.len(), 1);

    let a2 = StructInfo {
        name: "A".to_string(),
        fields: vec![
            plain_field("x", "u8", None, None, "A"),
            plain_field("y", "u8", None, None, "A"),
        ],
        clap_rename_all: None,
    };
    register_struct_definition(&mut registry, &mut pending, a2);
    let got = get_registered_struct(&registry, "A").unwrap();
    assert_eq!(got.fields.len(), 2);
}

// Expansion completeness on concrete values: 2 of A's own fields plus B's 3
// fields for the one flattened reference.
#[test]
fn expansion_field_count_is_complete() {
    let mut registry = StructRegistry::new();
    let mut pending = PendingStore::new();
    let b = StructInfo {
        name: "B".to_string(),
        fields: vec![
            plain_field("b1", "u8", None, None, "B"),
            plain_field("b2", "u8", None, None, "B"),
            plain_field("b3", "u8", None, None, "B"),
        ],
        clap_rename_all: None,
    };
    register_struct_definition(&mut registry, &mut pending, b);
    let a = StructInfo {
        name: "A".to_string(),
        fields: vec![
            plain_field("x", "u8", None, None, "A"),
            flatten_field("inner", "B", "A"),
            plain_field("y", "u8", None, None, "A"),
        ],
        clap_rename_all: None,
    };
    assert!(can_generate_immediately(&registry, &a));
    let expanded = expand_nested_structs(&registry, a);
    assert_eq!(expanded.fields.len(), 2 + 3);
    assert_eq!(expanded.fields[1].group, "B");
    assert_eq!(expanded.fields[2].group, "B");
    assert_eq!(expanded.fields[3].group, "B");
}

#[test]
fn unregistered_flatten_degrades_to_note() {
    let registry = StructRegistry::new();
    let a = StructInfo {
        name: "A".to_string(),
        fields: vec![flatten_field("inner", "Missing", "A")],
        clap_rename_all: None,
    };
    assert!(!can_generate_immediately(&registry, &a));
    let expanded = expand_nested_structs(&registry, a);
    assert_eq!(expanded.fields.len(), 1);
    assert_eq!(
        expanded.fields[0].doc_comment.as_deref(),
        Some("Note: This field is flattened from Missing (not registered)")
    );
}

// Scenario: host (no default) and port (default 5432), flat format, kebab case.
#[test]
fn required_and_default_cells_follow_duality() {
    let record = StructInfo {
        name: "Conn".to_string(),
        fields: vec![
            plain_field("host", "String", None, None, "Conn"),
            plain_field("port", "u16", None, Some("5432"), "Conn"),
        ],
        clap_rename_all: Some(CaseStyle::Kebab),
    };
    let table = generate_flat_table(&record);
    let host_row = table.lines().find(|l| l.contains("| host")).unwrap();
    assert!(host_row.contains("| Yes"));
    assert!(host_row.contains("| -"));
    let port_row = table.lines().find(|l| l.contains("| port")).unwrap();
    assert!(port_row.contains("| No"));
    assert!(port_row.contains("| 5432"));
}

// Scenario: three groups produce three headed sections in first-seen order,
// without a Group column.
#[test]
fn grouped_format_has_one_headed_section_per_group() {
    let mut registry = StructRegistry::new();
    let mut pending = PendingStore::new();
    let b = StructInfo {
        name: "B".to_string(),
        fields: vec![plain_field("b1", "u8", None, None, "B")],
        clap_rename_all: None,
    };
    let c = StructInfo {
        name: "C".to_string(),
        fields: vec![plain_field("c1", "u8", None, None, "C")],
        clap_rename_all: None,
    };
    register_struct_definition(&mut registry, &mut pending, b);
    register_struct_definition(&mut registry, &mut pending, c);
    let a = StructInfo {
        name: "A".to_string(),
        fields: vec![
            plain_field("a1", "u8", None, None, "A"),
            flatten_field("inner_b", "B", "A"),
            flatten_field("inner_c", "C", "A"),
        ],
        clap_rename_all: None,
    };
    let expanded = expand_nested_structs(&registry, a);
    let out = generate_grouped_table(&expanded);
    let pos_a = out.find("## A Configuration").unwrap();
    let pos_b = out.find("## B Configuration").unwrap();
    let pos_c = out.find("## C Configuration").unwrap();
    assert!(pos_a < pos_b && pos_b < pos_c);
    assert!(!out.contains("| Group"));
    assert_eq!(out.matches("## ").count(), 3);
}

// Marker containment: text outside the marker pair is byte-identical.
#[test]
fn update_preserves_text_outside_markers() {
    let doc = "# Title\nprose before\n[//]: # (CONFIG_DOCS_START)\nold region\n[//]: # (CONFIG_DOCS_END)\nprose after\n".to_string();
    let updated = update_document_content(Some(&doc), "NEW CONTENT");
    assert!(updated.starts_with("# Title\nprose before\n[//]: # (CONFIG_DOCS_START)"));
    assert!(updated.ends_with("[//]: # (CONFIG_DOCS_END)\nprose after\n"));
    assert!(updated.contains("\n\nNEW CONTENT\n\n"));
    assert!(!updated.contains("old region"));
}

// Idempotence: updating again with the same rendered content changes nothing.
#[test]
fn update_is_idempotent_under_identical_input() {
    let doc = "intro\n[//]: # (CONFIG_DOCS_START)\nstale\n[//]: # (CONFIG_DOCS_END)\noutro".to_string();
    let once = update_document_content(Some(&doc), "| a | b |");
    let twice = update_document_content(Some(&once), "| a | b |");
    assert_eq!(once, twice);

    // The same holds when the document had to be created.
    let created = update_document_content(None, "row");
    let again = update_document_content(Some(&created), "row");
    assert_eq!(created, again);
}

#[test]
fn update_appends_marker_pair_when_markers_missing() {
    let doc = "just prose".to_string();
    let updated = update_document_content(Some(&doc), "T");
    assert_eq!(
        updated,
        "just prose\n[//]: # (CONFIG_DOCS_START)\n\nT\n\n[//]: # (CONFIG_DOCS_END)"
    );
}

// A request whose dependency is never declared stays queued: registering an
// unrelated type releases nothing.
#[test]
fn unsatisfied_request_stays_queued() {
    let mut registry = StructRegistry::new();
    let mut pending = PendingStore::new();
    let a = StructInfo {
        name: "A".to_string(),
        fields: vec![flatten_field("inner", "NeverDeclared", "A")],
        clap_rename_all: None,
    };
    let args = ConfigDocsArgs { target: "docs.md".to_string(), format: OutputFormat::Flat };
    assert!(generate_config_docs(&registry, &mut pending, a, args).is_none());

    let unrelated = StructInfo {
        name: "Other".to_string(),
        fields: vec![plain_field("o", "u8", None, None, "Other")],
        clap_rename_all: None,
    };
    let writes = register_struct_definition(&mut registry, &mut pending, unrelated);
    assert!(writes.is_empty());
}

// Order independence on concrete records: request-then-register and
// register-then-request produce identical rendered output.
#[test]
fn declaration_order_does_not_change_output() {
    let dep = || StructInfo {
        name: "Dep".to_string(),
        fields: vec![plain_field("d", "u8", Some("dep field"), None, "Dep")],
        clap_rename_all: None,
    };
    let main = || StructInfo {
        name: "Main".to_string(),
        fields: vec![flatten_field("inner", "Dep", "Main")],
        clap_rename_all: None,
    };
    let args = || ConfigDocsArgs { target: "out.md".to_string(), format: OutputFormat::Flat };

    // Request first: it queues, then the registration releases it.
    let mut reg1 = StructRegistry::new();
    let mut pend1 = PendingStore::new();
    assert!(generate_config_docs(&reg1, &mut pend1, main(), args()).is_none());
    let writes = register_struct_definition(&mut reg1, &mut pend1, dep());
    assert_eq!(writes.len(), 1);
    let first = &writes[0];

    // Registration first: the request generates immediately.
    let mut reg2 = StructRegistry::new();
    let mut pend2 = PendingStore::new();
    assert!(register_struct_definition(&mut reg2, &mut pend2, dep()).is_empty());
    let second = generate_config_docs(&reg2, &mut pend2, main(), args()).unwrap();

    assert_eq!(first.target, second.target);
    assert_eq!(first.content, second.content);
}

// Edge case: a record with no fields still renders a well-formed table of
// headers only.
#[test]
fn empty_record_renders_header_only_table() {
    let record = StructInfo {
        name: "Empty".to_string(),
        fields: vec![],
        clap_rename_all: None,
    };
    let table = generate_flat_table(&record);
    assert!(table.contains("| Field Name"));
    assert!(table.contains("| Group"));
    assert_eq!(table.lines().count(), 2);

    let grouped = generate_grouped_table(&record);
    assert_eq!(grouped, "");
}

// Two requests queued under the same target are released in enqueue order;
// each write replaces the whole marker region, so the later one wins.
#[test]
fn requests_sharing_a_target_are_released_in_order() {
    let mut registry = StructRegistry::new();
    let mut pending = PendingStore::new();
    let first = StructInfo {
        name: "First".to_string(),
        fields: vec![
            flatten_field("inner", "Dep", "First"),
            plain_field("first_only", "u8", None, None, "First"),
        ],
        clap_rename_all: None,
    };
    let second = StructInfo {
        name: "Second".to_string(),
        fields: vec![
            flatten_field("inner", "Dep", "Second"),
            plain_field("second_only", "u8", None, None, "Second"),
        ],
        clap_rename_all: None,
    };
    let args = |t: &str| ConfigDocsArgs { target: t.to_string(), format: OutputFormat::Flat };
    assert!(generate_config_docs(&registry, &mut pending, first, args("shared.md")).is_none());
    assert!(generate_config_docs(&registry, &mut pending, second, args("shared.md")).is_none());

    let dep = StructInfo {
        name: "Dep".to_string(),
        fields: vec![plain_field("d", "u8", None, None, "Dep")],
        clap_rename_all: None,
    };
    let writes = register_struct_definition(&mut registry, &mut pending, dep);
    assert_eq!(writes.len(), 2);
    assert!(writes.iter().all(|w| w.target == "shared.md"));
    assert!(writes[0].content.contains("| first_only"));
    assert!(writes[1].content.contains("| second_only"));

    // Applying the writes in order leaves the later request's content in the
    // marker region: last writer wins on a shared target.
    let after_first = update_document_content(None, &writes[0].content);
    let after_second = update_document_content(Some(&after_first), &writes[1].content);
    assert!(!after_second.contains("| first_only"));
    assert!(after_second.contains("| second_only"));
}
