//! The pipeline-language parser, exercised on documents and fragments.

use versatiles::parse_bare_identifier;
use versatiles::parse_identifier;
use versatiles::parse_node;
use versatiles::parse_prop;
use versatiles::parse_quoted_string;
use versatiles::parse_unquoted_value;
use versatiles::parse_value;
use versatiles::parse_vdl;
use versatiles::VDLNode;
use versatiles::VDLPipeline;

fn node(name: &str, props: Vec<(&str, &str)>, children: Vec<VDLPipeline>) -> VDLNode {
    VDLNode {
        name: name.to_string(),
        properties: props
            .into_iter()
            .map(|(k, v)| (k.to_string(), vec![v.to_string()]))
            .collect(),
        children,
    }
}

fn pipeline(nodes: Vec<VDLNode>) -> VDLPipeline {
    VDLPipeline { pipeline: nodes }
}

#[test]
fn test_parse_bare_identifier() {
    for (input, output) in [
        ("foo", "foo"),
        ("foo123", "foo123"),
        ("-foo", "-foo"),
        ("foo-bar", "foo-bar"),
        ("foo_bar", "foo_bar"),
        ("foo!bar", "foo"),
    ] {
        assert_eq!(parse_bare_identifier(input).unwrap().1, output);
    }

    for input in ["123foo", "=a"] {
        let r = parse_bare_identifier(input);
        assert!(r.is_err(), "input did not fail: {input}");
    }
}

#[test]
fn test_parse_identifier() {
    assert_eq!(
        parse_identifier("foo").unwrap(),
        ("".to_string(), "foo".to_string())
    );
    assert_eq!(
        parse_identifier("\"foo\"").unwrap(),
        ("".to_string(), "foo".to_string())
    );
    assert!(parse_identifier("123foo").is_err());
    assert!(parse_identifier("\"foo").is_err());
}

#[test]
fn test_parse_quoted_string() {
    assert_eq!(
        parse_quoted_string("\"foo\"").unwrap(),
        ("".to_string(), "foo".to_string())
    );
    assert_eq!(
        parse_quoted_string("\"foo bar\"").unwrap(),
        ("".to_string(), "foo bar".to_string())
    );
    assert_eq!(
        parse_quoted_string("\"foo\\\"bar\\\"\"").unwrap(),
        ("".to_string(), "foo\"bar\"".to_string())
    );
    assert!(parse_quoted_string("\"foo").is_err());
    assert!(parse_quoted_string("foo\"").is_err());
}

#[test]
fn test_parse_prop() {
    let check = |a: &str, b: &str, c: &str| {
        assert_eq!(
            parse_prop(a).unwrap(),
            ("".to_string(), (b.to_string(), vec![c.to_string()])),
            "error on: {a}"
        )
    };
    check("key=value", "key", "value");
    check("key=\"value\"", "key", "value");
    check("key=-2.0", "key", "-2.0");
}

#[test]
fn test_parse_node() {
    let input = "node key1=value1 key2=\"value2\" key3=\"a=\\\"b\\\"\" [ child ]";
    let expected = node(
        "node",
        vec![("key1", "value1"), ("key2", "value2"), ("key3", "a=\"b\"")],
        vec![pipeline(vec![node("child", vec![], vec![])])],
    );
    assert_eq!(parse_node(input).unwrap(), ("".to_string(), expected));
}

#[test]
fn test_parse_nodes1() {
    let input = "node1 key1=value1|\nnode2 key2=\"value2\"";
    let expected = pipeline(vec![
        node("node1", vec![("key1", "value1")], vec![]),
        node("node2", vec![("key2", "value2")], vec![]),
    ]);
    assert_eq!(parse_vdl(input).unwrap(), expected);
}

#[test]
fn test_parse_nodes2() {
    let input = "node1 key1=value1|node2 key2=\"value2\"| node3 key3=value3 |\nnode4 key4=value4";
    let expected = pipeline(vec![
        node("node1", vec![("key1", "value1")], vec![]),
        node("node2", vec![("key2", "value2")], vec![]),
        node("node3", vec![("key3", "value3")], vec![]),
        node("node4", vec![("key4", "value4")], vec![]),
    ]);
    assert_eq!(parse_vdl(input).unwrap(), expected);
}

#[test]
fn test_parse_nodes3() {
    let input = "node1 key1=value1 [ child1 key2=value2 | child2 key3=\"value3\" ] | node2";
    let expected = pipeline(vec![
        node(
            "node1",
            vec![("key1", "value1")],
            vec![
                pipeline(vec![node("child1", vec![("key2", "value2")], vec![])]),
                pipeline(vec![node("child2", vec![("key3", "value3")], vec![])]),
            ],
        ),
        node("node2", vec![], vec![]),
    ]);
    assert_eq!(parse_vdl(input).unwrap(), expected);
}

#[test]
fn test_parse_nodes4() {
    let input = "read filename=\"berlin.mbtiles\"\n| vectortiles_update_properties\n    data_source_path=\"cities.csv\"\n    id_field_tiles=id\n    id_field_values=city_id\n";
    let expected = pipeline(vec![
        node("read", vec![("filename", "berlin.mbtiles")], vec![]),
        node(
            "vectortiles_update_properties",
            vec![
                ("data_source_path", "cities.csv"),
                ("id_field_tiles", "id"),
                ("id_field_values", "city_id"),
            ],
            vec![],
        ),
    ]);
    assert_eq!(parse_vdl(input).unwrap(), expected);
}

#[test]
fn test_parse_unquoted_value() {
    let inputs = ["value1", "value.1", "value-1", "value_1"];

    for input in inputs.iter() {
        assert_eq!(parse_unquoted_value(input).unwrap().1, *input);
    }
}

#[test]
fn test_parse_value() {
    assert_eq!(
        parse_value("value1").unwrap(),
        ("".to_string(), vec!["value1".to_string()])
    );
    assert_eq!(
        parse_value("\"value1\"").unwrap(),
        ("".to_string(), vec!["value1".to_string()])
    );
    assert_eq!(
        parse_value("value 1").unwrap(),
        (" 1".to_string(), vec!["value".to_string()])
    );
    assert_eq!(
        parse_value("value\"").unwrap(),
        ("\"".to_string(), vec!["value".to_string()])
    );
    assert!(parse_value("\"value").is_err());
}

#[test]
fn test_parse_array_values() {
    assert_eq!(
        parse_value("[ a, \"b c\", d.e ] rest").unwrap(),
        (
            " rest".to_string(),
            vec!["a".to_string(), "b c".to_string(), "d.e".to_string()]
        )
    );
}

#[test]
fn test_parse_duplicate_keys_concatenate() {
    let (rest, n) = parse_node("node k=a k=b other=c").unwrap();
    assert_eq!(rest, "");
    assert_eq!(
        n.properties,
        vec![
            ("k".to_string(), vec!["a".to_string(), "b".to_string()]),
            ("other".to_string(), vec!["c".to_string()]),
        ]
    );
}

#[test]
fn test_parse_vdl_with_error() {
    let input = "node1 key1=value1 [ child1 key2=value2 | child2 key3=\"value3\" ] node2";
    let result = parse_vdl(input);
    assert!(result.is_err());
}
