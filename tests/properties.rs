use mondrian_schema_cat::{fragments_to_schema, Fragment, SchemaError};

#[test]
fn schema_name_absent_without_open_marker() {
    assert_eq!(Fragment::get_schema_name(""), None);
    assert_eq!(Fragment::get_schema_name("<Schema>name=\"x\"</Schema>"), None);
    assert_eq!(Fragment::get_schema_name("<schema name=\"x\"></schema>"), None);
}

#[test]
fn schema_name_without_closing_quote_is_absent() {
    assert_eq!(Fragment::get_schema_name("<Schema name=\"unterminated"), None);
}

#[test]
fn schema_name_between_quotes() {
    assert_eq!(
        Fragment::get_schema_name("<Schema name=\"Sales\" other=\"y\"><Cube></Cube></Schema>"),
        Some("Sales")
    );
    assert_eq!(Fragment::get_schema_name("<Schema name=\"\"></Schema>"), Some(""));
    // the first schema-open marker decides
    assert_eq!(
        Fragment::get_schema_name("x<Schema name=\"one\"><Schema name=\"two\">"),
        Some("one")
    );
}

#[test]
fn schema_name_with_non_ascii_text() {
    let fragment = "<!-- überblick --><Schema name=\"Ümsätze\"><Cube name=\"ß\"></Cube></Schema>";
    assert_eq!(Fragment::get_schema_name(fragment), Some("Ümsätze"));
    assert_eq!(Fragment::get_cubes(fragment), Some("<Cube name=\"ß\"></Cube>"));
}

#[test]
fn shared_dims_span_up_to_first_cube() {
    let fragment = "<Dimension name=\"a\"/>\n  <Dimension name=\"b\"/>\n<Cube name=\"c\"></Cube>";
    assert_eq!(
        Fragment::get_shared_dims(fragment),
        Some("<Dimension name=\"a\"/>\n  <Dimension name=\"b\"/>\n")
    );
}

#[test]
fn shared_dims_inside_only_cube_is_absent() {
    let fragment = "<Cube name=\"c\"><Dimension name=\"inner\"></Dimension></Cube>";
    assert_eq!(Fragment::get_shared_dims(fragment), None);
}

#[test]
fn shared_dims_without_cubes_run_to_close_or_end() {
    assert_eq!(
        Fragment::get_shared_dims("<Dimension name=\"a\"></Dimension></Schema>trailing"),
        Some("<Dimension name=\"a\"></Dimension>")
    );
    assert_eq!(
        Fragment::get_shared_dims("<Dimension name=\"a\"></Dimension>trailing"),
        Some("<Dimension name=\"a\"></Dimension>trailing")
    );
    assert_eq!(Fragment::get_shared_dims("<Schema name=\"s\"></Schema>"), None);
}

#[test]
fn cubes_absent_without_marker() {
    assert_eq!(Fragment::get_cubes("<Schema name=\"s\"><VirtualCube/></Schema>"), None);
    assert_eq!(Fragment::get_virtual_cubes("<Schema name=\"s\"><Cube/></Schema>"), None);
}

#[test]
fn cubes_stop_at_close_marker() {
    let fragment = "<Schema name=\"s\"><Cube name=\"a\"/><Cube name=\"b\"/></Schema>\n";
    assert_eq!(
        Fragment::get_cubes(fragment),
        Some("<Cube name=\"a\"/><Cube name=\"b\"/>")
    );
    assert_eq!(
        Fragment::get_virtual_cubes("<VirtualCube name=\"v\"/>\n"),
        Some("<VirtualCube name=\"v\"/>\n")
    );
}

#[test]
fn process_fragment_of_empty_text() {
    assert_eq!(
        Fragment::process_fragment(""),
        Fragment {
            schema_name: None,
            shared_dims: None,
            cubes: None,
            virtual_cubes: None,
        }
    );
}

#[test]
fn merge_round_trip_of_complete_document() {
    let doc = "<Schema name=\"S\"><Dimension name=\"d\"></Dimension><Cube name=\"c\"></Cube></Schema>";
    assert_eq!(
        fragments_to_schema(&vec![doc.to_owned()]),
        Ok("<Schema name=\"S\">\n<Dimension name=\"d\"></Dimension><Cube name=\"c\"></Cube>\n</Schema>".to_owned())
    );
    let only_virtual = "<Schema name=\"V\"><VirtualCube name=\"v\"></VirtualCube></Schema>";
    assert_eq!(
        fragments_to_schema(&vec![only_virtual.to_owned()]),
        Ok("<Schema name=\"V\">\n<VirtualCube name=\"v\"></VirtualCube>\n</Schema>".to_owned())
    );
}

#[test]
fn merge_conflicting_names() {
    let fragments = vec![
        "<Schema name=\"a\"></Schema>".to_owned(),
        "<Schema name=\"b\"></Schema>".to_owned(),
    ];
    assert_eq!(fragments_to_schema(&fragments), Err(SchemaError::ConflictingSchemaNames));
}

#[test]
fn merge_conflict_reported_even_after_unnamed_fragment() {
    let fragments = vec![
        "<Schema name=\"a\"></Schema>".to_owned(),
        "<Cube name=\"x\"></Cube>".to_owned(),
        "<Schema name=\"ab\"></Schema>".to_owned(),
    ];
    assert_eq!(fragments_to_schema(&fragments), Err(SchemaError::ConflictingSchemaNames));
}

#[test]
fn merge_without_name() {
    let fragments = vec!["<Cube></Cube>".to_owned()];
    assert_eq!(fragments_to_schema(&fragments), Err(SchemaError::NoSchemaName));
}

#[test]
fn merge_of_no_fragments() {
    let fragments: Vec<String> = Vec::new();
    assert_eq!(fragments_to_schema(&fragments), Err(SchemaError::NoSchemaName));
}

#[test]
fn merge_equal_names_agree() {
    let fragments = vec![
        "<Schema name=\"a\"><Cube name=\"1\"/></Schema>".to_owned(),
        "<Schema name=\"a\"><Cube name=\"2\"/></Schema>".to_owned(),
    ];
    assert_eq!(
        fragments_to_schema(&fragments),
        Ok("<Schema name=\"a\">\n<Cube name=\"1\"/><Cube name=\"2\"/>\n</Schema>".to_owned())
    );
}

#[test]
fn merge_orders_categories_across_fragments() {
    let f1 = "<Schema name=\"n\"><Dimension name=\"d1\"/><Cube name=\"c1\"/></Schema>";
    let f2 = "<Dimension name=\"d2\"/><Cube name=\"c2\"/>";
    let f3 = "<VirtualCube name=\"v3\"/>";
    let fragments = vec![f3.to_owned(), f1.to_owned(), f2.to_owned()];
    assert_eq!(
        fragments_to_schema(&fragments),
        Ok("<Schema name=\"n\">\n<Dimension name=\"d1\"/><Dimension name=\"d2\"/><Cube name=\"c1\"/><Cube name=\"c2\"/><VirtualCube name=\"v3\"/>\n</Schema>".to_owned())
    );
}

#[test]
fn merge_name_from_later_fragment() {
    let fragments = vec![
        "<Cube name=\"c\"/>".to_owned(),
        "<Schema name=\"late\"></Schema>".to_owned(),
    ];
    assert_eq!(
        fragments_to_schema(&fragments),
        Ok("<Schema name=\"late\">\n<Cube name=\"c\"/>\n</Schema>".to_owned())
    );
}
