use notebook_model::{
    decode_kernel_spec, decode_notebook, decode_notebook_metadata, encode_kernel_spec,
    encode_notebook, Author, CellType, DecodeError, FieldId, InterruptMode, JsonValue,
    KernelSpecification, LanguageInfo, Metadata, Notebook, NotebookCell, NotebookMetadata, Shape,
};

fn s(x: &str) -> JsonValue {
    JsonValue::Str(x.to_string())
}

fn pair(k: &str, v: JsonValue) -> (String, JsonValue) {
    (k.to_string(), v)
}

fn obj(members: Vec<(String, JsonValue)>) -> JsonValue {
    JsonValue::Obj(members)
}

fn cell_metadata_value() -> JsonValue {
    obj(vec![
        pair("name", s("")),
        pair("tags", JsonValue::Arr(vec![])),
        pair("format", s("")),
        pair("collapsed", JsonValue::Bool(false)),
        pair("scrolled", JsonValue::Bool(false)),
        pair("deletable", JsonValue::Bool(true)),
        pair("editable", JsonValue::Bool(true)),
    ])
}

fn minimal_kernelspec() -> JsonValue {
    obj(vec![
        pair("display_name", s("Python 3")),
        pair("language", s("python")),
    ])
}

fn example_notebook_value() -> JsonValue {
    obj(vec![
        pair("metadata", obj(vec![pair("kernelspec", minimal_kernelspec())])),
        pair(
            "cells",
            JsonValue::Arr(vec![obj(vec![
                pair("metadata", cell_metadata_value()),
                pair("source", s("print(1)")),
                pair("cell_type", s("code")),
            ])]),
        ),
        pair("nbformat", JsonValue::Int(4)),
        pair("nbformat_minor", JsonValue::Int(5)),
    ])
}

#[test]
fn cell_type_markdown() {
    assert_eq!(CellType::parse_token("markdown").unwrap(), CellType::Markdown);
    let parsed: CellType = "markdown".parse().unwrap();
    assert_eq!(parsed, CellType::Markdown);
}

#[test]
fn cell_type_code() {
    assert_eq!(CellType::parse_token("code").unwrap(), CellType::Code);
}

#[test]
fn cell_type_wrong_case_fails_verbatim() {
    let err = CellType::parse_token("Code").unwrap_err();
    assert_eq!(err.attempted(), "Code");
}

#[test]
fn cell_type_unknown_token_fails_verbatim() {
    let err = CellType::parse_token("sql").unwrap_err();
    assert_eq!(err.attempted(), "sql");
}

#[test]
fn cell_type_tokens_encode() {
    assert_eq!(CellType::Markdown.token(), "markdown");
    assert_eq!(CellType::Code.token(), "code");
}

#[test]
fn metadata_default_values() {
    let md = Metadata::default();
    assert_eq!(md.name, "");
    assert!(md.tags.is_empty());
    assert_eq!(md.format, "");
    assert!(!md.collapsed);
    assert!(!md.scrolled);
    assert!(md.deletable);
    assert!(md.editable);
}

#[test]
fn optional_fields_omission() {
    let v = minimal_kernelspec();
    let ks = decode_kernel_spec(&v).unwrap();
    assert!(ks.argv.is_none());
    assert!(ks.env.is_none());
    assert!(ks.interrupt_mode.is_none());
    assert_eq!(ks.display_name, "Python 3");
    assert_eq!(ks.language, "python");
    let encoded = encode_kernel_spec(&ks);
    assert_eq!(
        encoded,
        obj(vec![
            pair("display_name", s("Python 3")),
            pair("language", s("python")),
        ])
    );
}

#[test]
fn optional_fields_null_resolve_to_no_value() {
    let v = obj(vec![
        pair("argv", JsonValue::Null),
        pair("display_name", s("K")),
        pair("language", s("k")),
        pair("env", JsonValue::Null),
        pair("interrupt_mode", JsonValue::Null),
    ]);
    let ks = decode_kernel_spec(&v).unwrap();
    assert!(ks.argv.is_none());
    assert!(ks.env.is_none());
    assert!(ks.interrupt_mode.is_none());
}

#[test]
fn kernel_spec_full_round_trip() {
    let v = obj(vec![
        pair("argv", JsonValue::Arr(vec![s("python"), s("-m"), s("kernel")])),
        pair("display_name", s("Python 3")),
        pair("language", s("python")),
        pair(
            "env",
            obj(vec![pair("B", s("2")), pair("A", s("1"))]),
        ),
        pair("interrupt_mode", s("message")),
    ]);
    let ks = decode_kernel_spec(&v).unwrap();
    assert_eq!(ks.argv.as_ref().unwrap(), &vec!["python", "-m", "kernel"]);
    assert_eq!(ks.env.as_ref().unwrap(), &vec![("B", "2"), ("A", "1")]);
    assert_eq!(ks.interrupt_mode, Some(InterruptMode::Message));
    let encoded = encode_kernel_spec(&ks);
    assert_eq!(encoded, v);
}

#[test]
fn interrupt_mode_signal() {
    let v = obj(vec![
        pair("display_name", s("K")),
        pair("language", s("k")),
        pair("interrupt_mode", s("signal")),
    ]);
    let ks = decode_kernel_spec(&v).unwrap();
    assert_eq!(ks.interrupt_mode, Some(InterruptMode::Signal));
}

#[test]
fn interrupt_mode_bad_token_fails() {
    let v = obj(vec![
        pair("display_name", s("K")),
        pair("language", s("k")),
        pair("interrupt_mode", s("poke")),
    ]);
    let err = decode_kernel_spec(&v).unwrap_err();
    assert!(matches!(
        err,
        DecodeError::TypeMismatch { field: FieldId::InterruptMode, expected: Shape::Str, actual: Shape::Str }
    ));
}

#[test]
fn authors_default_when_absent() {
    let v = obj(vec![pair("kernelspec", minimal_kernelspec())]);
    let md = decode_notebook_metadata(&v).unwrap();
    assert!(md.authors.is_empty());
}

#[test]
fn authors_decoded_in_order() {
    let v = obj(vec![
        pair("kernelspec", minimal_kernelspec()),
        pair(
            "authors",
            JsonValue::Arr(vec![
                obj(vec![pair("name", s("Ada"))]),
                obj(vec![pair("name", s("Grace"))]),
            ]),
        ),
    ]);
    let md = decode_notebook_metadata(&v).unwrap();
    let names: Vec<&str> = md.authors.iter().map(|a| a.name.as_str()).collect();
    assert_eq!(names, vec!["Ada", "Grace"]);
}

#[test]
fn language_info_isolation() {
    let v = obj(vec![
        pair("kernelspec", minimal_kernelspec()),
        pair(
            "language_info",
            obj(vec![
                pair("file_extension", s(".py")),
                pair("mimetype", s("text/x-python")),
                pair("name", s("python")),
            ]),
        ),
    ]);
    let md = decode_notebook_metadata(&v).unwrap();
    assert!(md.language_info.is_none());
}

#[test]
fn example_end_to_end() {
    let v = example_notebook_value();
    let nb = decode_notebook(&v).unwrap();
    assert_eq!(nb.nbformat, 4);
    assert_eq!(nb.nbformat_minor, 5);
    assert_eq!(nb.cells.len(), 1);
    assert_eq!(nb.cells[0].cell_type, CellType::Code);
    assert_eq!(nb.cells[0].source, "print(1)");
    assert_eq!(nb.metadata.kernel_spec.display_name, "Python 3");
    assert_eq!(nb.metadata.kernel_spec.language, "python");
    assert!(nb.metadata.language_info.is_none());

    // Re-encoding reproduces the same content; `authors`, required on the
    // encode side, appears as an empty array.
    let encoded = encode_notebook(&nb);
    let expected = obj(vec![
        pair(
            "metadata",
            obj(vec![
                pair("kernelspec", minimal_kernelspec()),
                pair("authors", JsonValue::Arr(vec![])),
            ]),
        ),
        pair(
            "cells",
            JsonValue::Arr(vec![obj(vec![
                pair("metadata", cell_metadata_value()),
                pair("source", s("print(1)")),
                pair("cell_type", s("code")),
            ])]),
        ),
        pair("nbformat", JsonValue::Int(4)),
        pair("nbformat_minor", JsonValue::Int(5)),
    ]);
    assert_eq!(encoded, expected);

    // Decoding the re-encoded document yields the same document.
    let again = decode_notebook(&encoded).unwrap();
    assert_eq!(again.nbformat, 4);
    assert_eq!(again.cells.len(), 1);
    assert_eq!(again.cells[0].source, "print(1)");
    assert_eq!(again.cells[0].cell_type, CellType::Code);
    assert!(again.metadata.language_info.is_none());
    assert!(again.metadata.authors.is_empty());
}

#[test]
fn cells_keep_document_order() {
    let mk_cell = |src: &str, kind: &str| {
        obj(vec![
            pair("metadata", cell_metadata_value()),
            pair("source", s(src)),
            pair("cell_type", s(kind)),
        ])
    };
    let v = obj(vec![
        pair("metadata", obj(vec![pair("kernelspec", minimal_kernelspec())])),
        pair(
            "cells",
            JsonValue::Arr(vec![mk_cell("# Title", "markdown"), mk_cell("print(2)", "code")]),
        ),
        pair("nbformat", JsonValue::Int(4)),
        pair("nbformat_minor", JsonValue::Int(5)),
    ]);
    let nb = decode_notebook(&v).unwrap();
    assert_eq!(nb.cells.len(), 2);
    assert_eq!(nb.cells[0].cell_type, CellType::Markdown);
    assert_eq!(nb.cells[0].source, "# Title");
    assert_eq!(nb.cells[1].cell_type, CellType::Code);
    assert_eq!(nb.cells[1].source, "print(2)");
}

#[test]
fn missing_nbformat_fails() {
    let v = obj(vec![
        pair("metadata", obj(vec![pair("kernelspec", minimal_kernelspec())])),
        pair("cells", JsonValue::Arr(vec![])),
        pair("nbformat_minor", JsonValue::Int(5)),
    ]);
    let err = decode_notebook(&v).unwrap_err();
    assert!(matches!(err, DecodeError::MissingField { field: FieldId::Nbformat }));
}

#[test]
fn missing_display_name_fails() {
    let v = obj(vec![pair("language", s("python"))]);
    let err = decode_kernel_spec(&v).unwrap_err();
    assert!(matches!(err, DecodeError::MissingField { field: FieldId::DisplayName }));
}

#[test]
fn nbformat_type_mismatch() {
    let v = obj(vec![
        pair("metadata", obj(vec![pair("kernelspec", minimal_kernelspec())])),
        pair("cells", JsonValue::Arr(vec![])),
        pair("nbformat", s("4")),
        pair("nbformat_minor", JsonValue::Int(5)),
    ]);
    let err = decode_notebook(&v).unwrap_err();
    assert!(matches!(
        err,
        DecodeError::TypeMismatch { field: FieldId::Nbformat, expected: Shape::Int, actual: Shape::Str }
    ));
}

#[test]
fn nbformat_out_of_range() {
    let v = obj(vec![
        pair("metadata", obj(vec![pair("kernelspec", minimal_kernelspec())])),
        pair("cells", JsonValue::Arr(vec![])),
        pair("nbformat", JsonValue::Int(70000)),
        pair("nbformat_minor", JsonValue::Int(5)),
    ]);
    let err = decode_notebook(&v).unwrap_err();
    assert!(matches!(
        err,
        DecodeError::NumericRange { field: FieldId::Nbformat, value: 70000 }
    ));
}

#[test]
fn nbformat_minor_negative() {
    let v = obj(vec![
        pair("metadata", obj(vec![pair("kernelspec", minimal_kernelspec())])),
        pair("cells", JsonValue::Arr(vec![])),
        pair("nbformat", JsonValue::Int(4)),
        pair("nbformat_minor", JsonValue::Int(-1)),
    ]);
    let err = decode_notebook(&v).unwrap_err();
    assert!(matches!(
        err,
        DecodeError::NumericRange { field: FieldId::NbformatMinor, value: -1 }
    ));
}

#[test]
fn cell_type_in_document_parse_error() {
    let v = obj(vec![
        pair("metadata", obj(vec![pair("kernelspec", minimal_kernelspec())])),
        pair(
            "cells",
            JsonValue::Arr(vec![obj(vec![
                pair("metadata", cell_metadata_value()),
                pair("source", s("select 1")),
                pair("cell_type", s("sql")),
            ])]),
        ),
        pair("nbformat", JsonValue::Int(4)),
        pair("nbformat_minor", JsonValue::Int(5)),
    ]);
    let err = decode_notebook(&v).unwrap_err();
    match err {
        DecodeError::Parse(pe) => assert_eq!(pe.attempted(), "sql"),
        other => panic!("expected a parse failure, got {:?}", other),
    }
}

#[test]
fn cell_type_non_string_mismatch() {
    let v = obj(vec![
        pair("metadata", cell_metadata_value()),
        pair("source", s("x")),
        pair("cell_type", JsonValue::Int(3)),
    ]);
    let err = notebook_model::decode_cell(&v).unwrap_err();
    assert!(matches!(
        err,
        DecodeError::TypeMismatch { field: FieldId::CellType, expected: Shape::Str, actual: Shape::Int }
    ));
}

#[test]
fn tags_reject_non_string_items() {
    let v = obj(vec![
        pair("name", s("")),
        pair("tags", JsonValue::Arr(vec![s("ok"), JsonValue::Bool(true)])),
        pair("format", s("")),
        pair("collapsed", JsonValue::Bool(false)),
        pair("scrolled", JsonValue::Bool(false)),
        pair("deletable", JsonValue::Bool(true)),
        pair("editable", JsonValue::Bool(true)),
    ]);
    let err = notebook_model::decode_cell_metadata(&v).unwrap_err();
    assert!(matches!(
        err,
        DecodeError::TypeMismatch { field: FieldId::Tags, expected: Shape::Str, actual: Shape::Bool }
    ));
}

#[test]
fn document_round_trip_keeps_every_field() {
    let nb = Notebook {
        metadata: NotebookMetadata {
            kernel_spec: KernelSpecification {
                argv: Some(vec!["python", "-m", "ipykernel"]),
                display_name: "Python 3",
                language: "python",
                env: Some(vec![("PYTHONPATH", "/src"), ("FLAG", "1")]),
                interrupt_mode: Some(InterruptMode::Signal),
            },
            language_info: None,
            authors: vec![Author { name: "Ada".to_string() }],
        },
        cells: vec![NotebookCell {
            metadata: Metadata {
                name: "intro",
                tags: vec!["setup", "hidden"],
                format: "text/markdown",
                collapsed: true,
                scrolled: false,
                deletable: false,
                editable: true,
            },
            source: "# Hello".to_string(),
            cell_type: CellType::Markdown,
        }],
        nbformat: 4,
        nbformat_minor: 5,
    };
    let encoded = encode_notebook(&nb);
    let back = decode_notebook(&encoded).unwrap();
    let ks = &back.metadata.kernel_spec;
    assert_eq!(ks.argv.as_ref().unwrap(), &vec!["python", "-m", "ipykernel"]);
    assert_eq!(ks.display_name, "Python 3");
    assert_eq!(ks.language, "python");
    assert_eq!(ks.env.as_ref().unwrap(), &vec![("PYTHONPATH", "/src"), ("FLAG", "1")]);
    assert_eq!(ks.interrupt_mode, Some(InterruptMode::Signal));
    assert!(back.metadata.language_info.is_none());
    assert_eq!(back.metadata.authors.len(), 1);
    assert_eq!(back.metadata.authors[0].name, "Ada");
    assert_eq!(back.cells.len(), 1);
    let c = &back.cells[0];
    assert_eq!(c.metadata.name, "intro");
    assert_eq!(c.metadata.tags, vec!["setup", "hidden"]);
    assert_eq!(c.metadata.format, "text/markdown");
    assert!(c.metadata.collapsed);
    assert!(!c.metadata.scrolled);
    assert!(!c.metadata.deletable);
    assert!(c.metadata.editable);
    assert_eq!(c.source, "# Hello");
    assert_eq!(c.cell_type, CellType::Markdown);
    assert_eq!(back.nbformat, 4);
    assert_eq!(back.nbformat_minor, 5);
}

#[test]
fn language_info_set_programmatically_is_encoded() {
    let li = LanguageInfo { file_extension: ".py", mimetype: "text/x-python", name: "python" };
    let encoded = notebook_model::encode_language_info(&li);
    assert_eq!(
        encoded,
        obj(vec![
            pair("file_extension", s(".py")),
            pair("mimetype", s("text/x-python")),
            pair("name", s("python")),
        ])
    );
}

#[test]
fn top_level_must_be_object() {
    let err = decode_notebook(&JsonValue::Int(1)).unwrap_err();
    assert!(matches!(
        err,
        DecodeError::TypeMismatch { field: FieldId::Root, expected: Shape::Obj, actual: Shape::Int }
    ));
}

#[test]
fn get_member_finds_first_match() {
    let v = obj(vec![pair("k", s("first")), pair("k", s("second"))]);
    match v.get_member("k") {
        Some(JsonValue::Str(found)) => assert_eq!(found, "first"),
        other => panic!("unexpected lookup result {:?}", other),
    }
    assert!(v.get_member("missing").is_none());
}
