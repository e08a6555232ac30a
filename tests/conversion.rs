use bean_to_ts::declaration::{build, convert, declaration_text_of, get_documentation, get_enum_values};
use bean_to_ts::imports::{generate_import_line, get_imports, import_line_with_slug, resolve_imports};
use bean_to_ts::resolve::resolve;
use bean_to_ts::schema::{PropertyDescriptor, SchemaDocument, SchemaError, TypeDescriptor};
use bean_to_ts::text::{clean_name, get_simple_name, remove_array, remove_first, remove_map};

fn prim(name: &str) -> TypeDescriptor {
    TypeDescriptor::primitive(name.to_string())
}

fn object(exact: &str) -> TypeDescriptor {
    let mut d = prim("object");
    d.exact_type_name = Some(exact.to_string());
    d
}

fn array(element: TypeDescriptor) -> TypeDescriptor {
    let mut d = prim("array");
    d.element_type = Some(Box::new(element));
    d
}

fn map(key: TypeDescriptor, value: TypeDescriptor) -> TypeDescriptor {
    let mut d = prim("Map");
    d.key_type = Some(Box::new(key));
    d.value_type = Some(Box::new(value));
    d
}

fn strings(items: &[&str]) -> Vec<String> {
    items.iter().map(|s| s.to_string()).collect()
}

fn property(name: &str, description: Option<&str>, ty: TypeDescriptor) -> PropertyDescriptor {
    PropertyDescriptor {
        name: name.to_string(),
        description: description.map(|s| s.to_string()),
        type_desc: ty,
    }
}

fn record(name: &str, parents: &[&str], properties: Vec<PropertyDescriptor>) -> SchemaDocument {
    SchemaDocument {
        name: name.to_string(),
        description: None,
        is_enum: false,
        super_type_names: strings(parents),
        properties,
        constants: Vec::new(),
    }
}

fn enumeration(name: &str, constants: &[&str]) -> SchemaDocument {
    SchemaDocument {
        name: name.to_string(),
        description: None,
        is_enum: true,
        super_type_names: Vec::new(),
        properties: Vec::new(),
        constants: strings(constants),
    }
}

#[test]
fn primitive_resolves_verbatim() {
    assert_eq!(resolve(&prim("string")).unwrap(), "string");
    assert_eq!(resolve(&prim("number")).unwrap(), "number");
    assert_eq!(resolve(&prim("Date")).unwrap(), "Date");
}

#[test]
fn reference_resolves_to_simple_name() {
    assert_eq!(resolve(&object("com.acme.Foo")).unwrap(), "Foo");
    assert_eq!(resolve(&object("Plain")).unwrap(), "Plain");
}

#[test]
fn null_reference_resolves_to_any() {
    assert_eq!(resolve(&object("null")).unwrap(), "any");
    assert_eq!(resolve(&object("x.y.null")).unwrap(), "any");
}

#[test]
fn array_of_reference() {
    assert_eq!(resolve(&array(object("x.y.Item"))).unwrap(), "Array<Item>");
}

#[test]
fn nested_array_of_reference() {
    assert_eq!(resolve(&array(array(object("x.y.Item")))).unwrap(), "Array<Array<Item>>");
}

#[test]
fn map_resolves_key_and_value() {
    assert_eq!(resolve(&map(prim("string"), object("a.Item"))).unwrap(), "Map<string, Item>");
    assert_eq!(
        resolve(&map(object("a.Key"), array(object("a.Item")))).unwrap(),
        "Map<Key, Array<Item>>"
    );
}

#[test]
fn map_inside_map_is_not_expanded() {
    let inner = map(prim("string"), prim("number"));
    assert_eq!(resolve(&map(prim("string"), inner)).unwrap(), "Map<string, Map>");
}

#[test]
fn map_as_array_element_goes_through_reference_rule() {
    let mut element = map(prim("string"), object("a.Item"));
    element.exact_type_name = Some("java.util.Map".to_string());
    assert_eq!(resolve(&array(element)).unwrap(), "Array<Map>");
    let bare = map(prim("string"), object("a.Item"));
    assert_eq!(resolve(&array(bare)), Err(SchemaError::MalformedType));
}

#[test]
fn malformed_descriptors_are_errors() {
    assert_eq!(resolve(&prim("object")), Err(SchemaError::MalformedType));
    assert_eq!(resolve(&prim("array")), Err(SchemaError::MalformedType));
    assert_eq!(resolve(&array(prim("string"))), Err(SchemaError::MalformedType));
    let mut no_value = prim("Map");
    no_value.key_type = Some(Box::new(prim("string")));
    assert_eq!(resolve(&no_value), Err(SchemaError::MalformedType));
}

#[test]
fn enum_body_lines() {
    let lines = get_enum_values(&strings(&["A", "B", "C"]));
    assert_eq!(lines, strings(&["  A = \"A\",", "  B = \"B\",", "  C = \"C\""]));
}

#[test]
fn empty_enum_has_no_lines() {
    assert!(get_enum_values(&Vec::new()).is_empty());
}

#[test]
fn interface_with_two_parents() {
    let d = build(&record("p.Name", &["a.Base1", "b.Base2"], Vec::new())).unwrap();
    assert_eq!(declaration_text_of(&d), "export interface Name extends Base1, Base2\n{\n}");
    assert_eq!(d.imports, strings(&["Base1", "Base2"]));
}

#[test]
fn interface_without_parents() {
    let d = build(&record("p.Name", &[], Vec::new())).unwrap();
    assert_eq!(declaration_text_of(&d), "export interface Name\n{\n}");
    assert!(d.imports.is_empty());
}

#[test]
fn enum_declaration_scenario() {
    let d = build(&enumeration("a.b.Color", &["RED", "GREEN"])).unwrap();
    assert_eq!(d.name, "Color");
    assert!(d.imports.is_empty());
    assert_eq!(
        declaration_text_of(&d),
        "export enum Color\n{\n  RED = \"RED\",\n  GREEN = \"GREEN\"\n}"
    );
}

#[test]
fn array_property_scenario() {
    let doc = record("p.Holder", &[], vec![property("items", None, array(object("x.y.Item")))]);
    let d = build(&doc).unwrap();
    assert_eq!(d.body_lines[1], "  items?: Array<Item>;");
    assert!(d.imports.contains(&"Item".to_string()));
}

#[test]
fn property_lines_and_imports() {
    let doc = record(
        "p.Order",
        &["p.Entity", "p.Entity"],
        vec![
            property("id", Some("The id"), prim("string")),
            property("lines", None, map(prim("string"), object("p.Line"))),
            property("owner", None, object("p.Customer")),
            property("extra", None, object("null")),
        ],
    );
    let d = build(&doc).unwrap();
    assert_eq!(
        d.body_lines,
        strings(&[
            "  /** The id */",
            "  id?: string;",
            "  /**  */",
            "  lines?: Map<string, Line>;",
            "  /**  */",
            "  owner?: Customer;",
            "  /**  */",
            "  extra?: any;",
        ])
    );
    assert_eq!(d.parents, strings(&["Entity", "Entity"]));
    assert_eq!(d.imports, strings(&["Customer", "Entity", "Line"]));
}

#[test]
fn malformed_property_fails_the_document() {
    let doc = record("p.Bad", &[], vec![property("x", None, prim("object"))]);
    assert!(matches!(build(&doc), Err(SchemaError::MalformedType)));
}

#[test]
fn import_resolution_is_repeatable_and_order_free() {
    let lines = strings(&["  /** d */", "  a?: Array<Zed>;", "  /** e */", "  b?: Map<Key, Alpha>;"]);
    let first = resolve_imports(&strings(&["Mid", "Base", ""]), &lines);
    let second = resolve_imports(&strings(&["Mid", "Base", ""]), &lines);
    let reordered = resolve_imports(&strings(&["", "Base", "Mid"]), &lines);
    assert_eq!(first, strings(&["Alpha", "Base", "Mid", "Zed"]));
    assert_eq!(first, second);
    assert_eq!(first, reordered);
    assert_eq!(resolve_imports(&first, &Vec::new()), first);
}

#[test]
fn import_resolution_skips_lower_case_types() {
    let lines = strings(&["  /** d */", "  a?: string;", "  /** e */", "  b?: Array<any>;"]);
    assert!(resolve_imports(&Vec::new(), &lines).is_empty());
}

#[test]
fn import_resolution_takes_non_ascii_capitals() {
    let lines = strings(&["  /**  */", "  a?: \u{c9}cole;", "  /**  */", "  b?: \u{e9}t\u{e9};"]);
    assert_eq!(resolve_imports(&Vec::new(), &lines), strings(&["\u{c9}cole"]));
}

#[test]
fn import_lines_use_kebab_case() {
    assert_eq!(generate_import_line(&"FooBar".to_string()), "import { FooBar } from './foo-bar';\n");
    assert_eq!(import_line_with_slug("A", "a"), "import { A } from './a';\n");
    let lines = strings(&["  /** d */", "  a?: OrderLine;"]);
    assert_eq!(
        get_imports(&Vec::new(), &lines),
        "import { OrderLine } from './order-line';\n\n"
    );
    assert_eq!(get_imports(&Vec::new(), &Vec::new()), "");
}

#[test]
fn documentation_comment() {
    assert_eq!(get_documentation(&None), "/**  */");
    assert_eq!(get_documentation(&Some("one\ntwo".to_string())), "/** one\n    two */");
}

#[test]
fn convert_writes_whole_file() {
    let mut doc = record("com.acme.OrderLine", &["com.acme.BaseItem"], vec![property("qty", Some("How many"), prim("number"))]);
    doc.description = Some("A line".to_string());
    let out = convert(&doc).unwrap();
    assert_eq!(out.file_stem, "order-line");
    assert_eq!(
        out.text,
        "import { BaseItem } from './base-item';\n\n/** A line */\nexport interface OrderLine extends BaseItem\n{\n  /** How many */\n  qty?: number;\n}"
    );
}

#[test]
fn convert_enum_file() {
    let out = convert(&enumeration("a.b.Color", &["RED"])).unwrap();
    assert_eq!(out.file_stem, "color");
    assert_eq!(out.text, "/**  */\nexport enum Color\n{\n  RED = \"RED\"\n}");
}

#[test]
fn text_helpers() {
    assert_eq!(clean_name("\"a\"b\""), "ab");
    assert_eq!(get_simple_name(&"a.b.Cde".to_string()), "Cde");
    assert_eq!(get_simple_name(&"NoDots".to_string()), "NoDots");
    assert_eq!(remove_array("Array<Array<Item>>;".to_string()), "Item;");
    assert_eq!(remove_array("Item".to_string()), "Item");
    assert_eq!(remove_map("Map<string, Item>".to_string()), "Item");
    assert_eq!(remove_map("MapEntry".to_string()), "MapEntry");
    let mut v = vec![1, 2, 3];
    assert_eq!(remove_first(&mut v), Some(1));
    assert_eq!(v, vec![2, 3]);
    let mut empty: Vec<u8> = Vec::new();
    assert_eq!(remove_first(&mut empty), None);
}
