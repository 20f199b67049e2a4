use mmds::data_store::{render, Error as MmdsError, Mmds};
use mmds::entries::{find_name, remove_name};
use mmds::handlers::{get_mds, patch_mds, put_mds, respond_with_listing, Fault, Response};
use mmds::json_patch;
use mmds::path::{resolve, split_path};
use mmds::text::{join, split_after};
use mmds::validator::validate;
use mmds::value::Value;

fn from_json(json: serde_json::Value) -> Value {
    match json {
        serde_json::Value::Null => Value::Null,
        serde_json::Value::Bool(b) => Value::Bool(b),
        serde_json::Value::Number(n) => Value::Number(n),
        serde_json::Value::String(s) => Value::Leaf(s),
        serde_json::Value::Array(items) => Value::Array(items.into_iter().map(from_json).collect()),
        serde_json::Value::Object(map) => {
            Value::Node(map.into_iter().map(|(name, child)| (name, from_json(child))).collect())
        }
    }
}

fn parse(text: &str) -> Value {
    from_json(serde_json::from_str(text).unwrap())
}

/// The value under `path`, or `Null` where there is none.
fn at(value: &Value, path: &str) -> Value {
    match resolve(value, path) {
        Ok(found) => found.clone(),
        Err(_) => Value::Null,
    }
}

fn leaf(text: &str) -> Value {
    Value::Leaf(text.to_string())
}

fn node(entries: Vec<(&str, Value)>) -> Value {
    Value::Node(entries.into_iter().map(|(name, child)| (name.to_string(), child)).collect())
}

fn lines(items: &[&str]) -> Vec<String> {
    items.iter().map(|s| s.to_string()).collect()
}

#[test]
fn test_parse_request() {
    let mut mmds = Mmds::default();
    let data = r#"{
            "name": {
                "first": "John",
                "second": "Doe"
            },
            "age": "43",
            "phones": {
                "home": {
                    "RO": "+40 1234567",
                    "UK": "+44 1234567"
                },
                "mobile": "+44 2345678"
            }
        }"#;
    mmds.put_data(parse(data)).unwrap();

    let data = r#"{
            "name": {
                "first": "John",
                "second": "Doe"
            },
            "age": 43
        }"#;
    assert_eq!(mmds.put_data(parse(data)), Err(MmdsError::UnsupportedValueType));
}

#[test]
fn test_json_patch() {
    let mut data = node(vec![
        ("name", node(vec![("first", leaf("John")), ("second", leaf("Doe"))])),
        ("age", leaf("43")),
        (
            "phones",
            node(vec![
                ("home", node(vec![("RO", leaf("+40 1234567")), ("UK", leaf("+44 1234567"))])),
                ("mobile", leaf("+44 2345678")),
            ]),
        ),
    ]);

    let patch = node(vec![
        ("name", node(vec![("second", Value::Null), ("last", leaf("Kennedy"))])),
        ("age", leaf("44")),
        (
            "phones",
            node(vec![
                ("home", leaf("+44 1234567")),
                ("mobile", node(vec![("RO", leaf("+40 2345678")), ("UK", leaf("+44 2345678"))])),
            ]),
        ),
    ]);
    json_patch(&mut data, &patch);

    // Test value replacement in target document.
    assert_eq!(at(&data, "age"), at(&patch, "age"));

    // Test null value removal from target document.
    assert_eq!(at(&data, "name/second"), Value::Null);

    // Test add value to target document.
    assert_eq!(at(&data, "name/last"), at(&patch, "name/last"));
    assert!(!matches!(at(&data, "phones/home"), Value::Node(_)));
    assert_eq!(at(&data, "phones/home"), at(&patch, "phones/home"));
    assert!(matches!(at(&data, "phones/mobile"), Value::Node(_)));
    assert_eq!(at(&data, "phones/mobile/RO"), at(&patch, "phones/mobile/RO"));
    assert_eq!(at(&data, "phones/mobile/UK"), at(&patch, "phones/mobile/UK"));
}

#[test]
fn put_patch_get_ok() {
    let mut mmds = Mmds::default();

    let resp = put_mds(&mut mmds, parse(r#"{"c0":{"c1":"12345","c2":"6789"}}"#));
    assert_eq!(resp.status, 204);

    let resp = patch_mds(&mut mmds, parse(r#"{"c0":{"c3":"67890"}}"#));
    assert_eq!(resp.status, 204);

    let resp = get_mds(&mmds, "/mds/c0/c3").unwrap();
    assert_eq!(resp.status, 200);
    assert_eq!(resp.body, r#""67890""#);
}

#[test]
fn json_patch_whole_result() {
    let mut data = node(vec![
        ("name", node(vec![("first", leaf("John")), ("second", leaf("Doe"))])),
        ("age", leaf("43")),
    ]);
    let patch = node(vec![
        ("name", node(vec![("second", Value::Null), ("last", leaf("Kennedy"))])),
        ("age", leaf("44")),
        ("city", leaf("Iasi")),
    ]);
    json_patch(&mut data, &patch);
    assert_eq!(
        data,
        node(vec![
            ("name", node(vec![("first", leaf("John")), ("last", leaf("Kennedy"))])),
            ("age", leaf("44")),
            ("city", leaf("Iasi")),
        ])
    );
}

#[test]
fn merge_patch_replaces_nested_leaf() {
    let mut target = parse(r#"{"a":{"b":"c"},"d":"e"}"#);
    json_patch(&mut target, &parse(r#"{"a":{"b":"f"}}"#));
    assert_eq!(target, parse(r#"{"a":{"b":"f"},"d":"e"}"#));
}

#[test]
fn merge_patch_deletes_nested_name() {
    let mut target = parse(r#"{"a":{"b":"c"},"d":"e"}"#);
    json_patch(&mut target, &parse(r#"{"a":{"b":null}}"#));
    assert_eq!(target, node(vec![("a", node(vec![])), ("d", leaf("e"))]));
}

#[test]
fn merge_patch_deletion_of_absent_name_changes_nothing() {
    let before = parse(r#"{"a":{"b":"c"},"d":"e"}"#);
    let mut target = before.clone();
    json_patch(&mut target, &parse(r#"{"x":null}"#));
    assert_eq!(target, before);

    let mut target = before.clone();
    json_patch(&mut target, &parse(r#"{"a":{"x":null},"d":"g"}"#));
    assert_eq!(target, parse(r#"{"a":{"b":"c"},"d":"g"}"#));
}

#[test]
fn merge_patch_node_over_leaf_discards_leaf() {
    let mut target = leaf("old");
    json_patch(&mut target, &parse(r#"{"a":"b","gone":null}"#));
    assert_eq!(target, node(vec![("a", leaf("b"))]));

    let mut inner = parse(r#"{"k":"text"}"#);
    json_patch(&mut inner, &parse(r#"{"k":{"deep":"v"}}"#));
    assert_eq!(inner, node(vec![("k", node(vec![("deep", leaf("v"))]))]));
}

#[test]
fn merge_patch_that_is_no_node_replaces_target() {
    let mut target = parse(r#"{"a":"b"}"#);
    json_patch(&mut target, &leaf("whole"));
    assert_eq!(target, leaf("whole"));

    let mut target = parse(r#"{"a":"b"}"#);
    json_patch(&mut target, &Value::Null);
    assert_eq!(target, Value::Null);

    let mut target = leaf("x");
    let array = Value::Array(vec![leaf("1"), Value::Bool(true), Value::Number(7.into())]);
    json_patch(&mut target, &array);
    assert_eq!(target, array);
}

#[test]
fn merge_patch_keeps_order_and_appends_new_names() {
    let mut target = node(vec![("z", leaf("1")), ("m", leaf("2")), ("a", leaf("3"))]);
    let patch = node(vec![("q", leaf("4")), ("m", leaf("5")), ("b", leaf("6")), ("z", Value::Null)]);
    json_patch(&mut target, &patch);
    assert_eq!(
        target,
        node(vec![("m", leaf("5")), ("a", leaf("3")), ("q", leaf("4")), ("b", leaf("6"))])
    );
}

#[test]
fn merge_patch_twice_is_once_for_deletion_and_replacement() {
    let start = parse(r#"{"a":{"b":"c"},"d":"e"}"#);
    let patch = parse(r#"{"a":{"b":null},"d":"f"}"#);
    let mut once = start.clone();
    json_patch(&mut once, &patch);
    let mut twice = once.clone();
    json_patch(&mut twice, &patch);
    assert_eq!(once, twice);
    assert_eq!(once, node(vec![("a", node(vec![])), ("d", leaf("f"))]));
}

#[test]
fn validate_accepts_leaves_and_nodes_only() {
    assert_eq!(validate(&leaf("x")), Ok(()));
    assert_eq!(validate(&node(vec![])), Ok(()));
    assert_eq!(validate(&parse(r#"{"a":{"b":{"c":"d"}},"e":"f"}"#)), Ok(()));

    assert_eq!(validate(&Value::Null), Err(MmdsError::UnsupportedValueType));
    assert_eq!(validate(&Value::Bool(false)), Err(MmdsError::UnsupportedValueType));
    assert_eq!(validate(&Value::Number(43.into())), Err(MmdsError::UnsupportedValueType));
    assert_eq!(validate(&Value::Array(vec![])), Err(MmdsError::UnsupportedValueType));
    assert_eq!(validate(&Value::Array(vec![leaf("x")])), Err(MmdsError::UnsupportedValueType));
    assert_eq!(
        validate(&parse(r#"{"a":{"b":{"c":null}},"e":"f"}"#)),
        Err(MmdsError::UnsupportedValueType)
    );
    assert_eq!(
        validate(&parse(r#"{"a":{"b":["c"]}}"#)),
        Err(MmdsError::UnsupportedValueType)
    );
}

#[test]
fn validate_refuses_a_repeated_name() {
    let twice = node(vec![("a", leaf("1")), ("b", leaf("2")), ("a", leaf("3"))]);
    assert_eq!(validate(&twice), Err(MmdsError::UnsupportedValueType));
    let nested = node(vec![("top", node(vec![("a", leaf("1")), ("a", leaf("1"))]))]);
    assert_eq!(validate(&nested), Err(MmdsError::UnsupportedValueType));
    let same_name_in_two_nodes = node(vec![("a", node(vec![("a", leaf("1"))]))]);
    assert_eq!(validate(&same_name_in_two_nodes), Ok(()));
}

#[test]
fn new_store_holds_the_empty_node() {
    let mmds = Mmds::new();
    assert_eq!(mmds.get_value("".to_string()), Ok(Vec::<String>::new()));
    assert_eq!(mmds.get_value("/".to_string()), Ok(Vec::<String>::new()));
    assert_eq!(mmds.get_value("a".to_string()), Err(MmdsError::NotFound));
}

#[test]
fn put_data_then_read_root() {
    let mut mmds = Mmds::default();
    mmds.put_data(parse(r#"{"b":"1","a":{"x":"2"}}"#)).unwrap();
    assert_eq!(mmds.get_value("".to_string()), Ok(lines(&["b", "a"])));

    mmds.put_data(node(vec![("z", leaf("1")), ("y", node(vec![])), ("x", leaf("2"))])).unwrap();
    assert_eq!(mmds.get_value("".to_string()), Ok(lines(&["z", "y", "x"])));

    mmds.put_data(leaf("only text")).unwrap();
    assert_eq!(mmds.get_value("".to_string()), Ok(lines(&["only text"])));
    assert_eq!(mmds.get_value("x".to_string()), Err(MmdsError::NotFound));
}

#[test]
fn put_data_refused_leaves_store_unchanged() {
    let mut mmds = Mmds::default();
    mmds.put_data(parse(r#"{"c0":{"c1":"12345","c2":"6789"}}"#)).unwrap();
    for bad in [
        r#"{"c0":{"c1":12345}}"#,
        r#"{"c0":true}"#,
        r#"{"c0":null}"#,
        r#"["c0"]"#,
        r#"null"#,
        r#"7"#,
    ] {
        assert_eq!(mmds.put_data(parse(bad)), Err(MmdsError::UnsupportedValueType));
        assert_eq!(mmds.get_value("".to_string()), Ok(lines(&["c0"])));
        assert_eq!(mmds.get_value("c0".to_string()), Ok(lines(&["c1", "c2"])));
        assert_eq!(mmds.get_value("c0/c1".to_string()), Ok(lines(&["12345"])));
        assert_eq!(mmds.get_value("c0/c2".to_string()), Ok(lines(&["6789"])));
    }
}

#[test]
fn path_resolution() {
    let mut mmds = Mmds::default();
    mmds.put_data(node(vec![("c0", node(vec![("c1", leaf("12345")), ("c2", leaf("6789"))]))]))
        .unwrap();
    assert_eq!(mmds.get_value("c0/c1".to_string()), Ok(lines(&["12345"])));
    assert_eq!(mmds.get_value("c0".to_string()), Ok(lines(&["c1", "c2"])));
    assert_eq!(mmds.get_value("missing".to_string()), Err(MmdsError::NotFound));
}

#[test]
fn path_slashes_are_collapsed() {
    let doc = parse(r#"{"c0":{"c1":"12345","c2":"6789"}}"#);
    for path in ["c0/c1", "/c0/c1", "c0/c1/", "//c0///c1//", "/c0//c1"] {
        assert_eq!(resolve(&doc, path), Ok(&leaf("12345")));
    }
    for path in ["", "/", "///"] {
        assert_eq!(resolve(&doc, path), Ok(&doc));
    }
}

#[test]
fn path_names_are_compared_exactly() {
    let doc = parse(r#"{"c0":{"c1":"12345"},"leaf":"x"}"#);
    for path in ["C0", "c", "c00", "c0/C1", "c0/c1/deeper", "leaf/x", "c0 ", "*", "c0/*"] {
        assert_eq!(resolve(&doc, path), Err(MmdsError::NotFound));
    }
}

#[test]
fn split_path_lists_names() {
    assert_eq!(split_path(""), Vec::<String>::new());
    assert_eq!(split_path("///"), Vec::<String>::new());
    assert_eq!(split_path("a"), lines(&["a"]));
    assert_eq!(split_path("/a//bc/d/"), lines(&["a", "bc", "d"]));
    assert_eq!(split_path("né/ö"), lines(&["né", "ö"]));
}

#[test]
fn render_leaf_node_and_other() {
    assert_eq!(render(&leaf("text")), Ok(lines(&["text"])));
    assert_eq!(render(&leaf("")), Ok(lines(&[""])));
    assert_eq!(
        render(&node(vec![("b", node(vec![])), ("a", leaf("1"))])),
        Ok(lines(&["b", "a"]))
    );
    assert_eq!(render(&node(vec![])), Ok(Vec::<String>::new()));
    assert_eq!(render(&Value::Null), Err(MmdsError::UnsupportedValueType));
    assert_eq!(render(&Value::Array(vec![])), Err(MmdsError::UnsupportedValueType));
    assert_eq!(render(&Value::Number(1.into())), Err(MmdsError::UnsupportedValueType));
    assert_eq!(render(&Value::Bool(true)), Err(MmdsError::UnsupportedValueType));
}

#[test]
fn patch_data_merges_into_the_document() {
    let mut mmds = Mmds::default();
    mmds.put_data(parse(r#"{"a":{"b":"c"},"d":"e"}"#)).unwrap();
    assert_eq!(mmds.patch_data(parse(r#"{"a":{"b":"f","n":"new"},"d":null}"#)), Ok(()));
    assert_eq!(mmds.get_value("".to_string()), Ok(lines(&["a"])));
    assert_eq!(mmds.get_value("a".to_string()), Ok(lines(&["b", "n"])));
    assert_eq!(mmds.get_value("a/b".to_string()), Ok(lines(&["f"])));
    assert_eq!(mmds.get_value("d".to_string()), Err(MmdsError::NotFound));
}

#[test]
fn patch_data_refused_leaves_store_unchanged() {
    let mut mmds = Mmds::default();
    mmds.put_data(parse(r#"{"a":{"b":"c"},"d":"e"}"#)).unwrap();
    for bad in [r#"{"a":{"b":5}}"#, r#"{"new":[ "x" ]}"#, r#"null"#, r#"{"d":true}"#, r#"3"#] {
        assert_eq!(mmds.patch_data(parse(bad)), Err(MmdsError::UnsupportedValueType));
        assert_eq!(mmds.get_value("".to_string()), Ok(lines(&["a", "d"])));
        assert_eq!(mmds.get_value("a/b".to_string()), Ok(lines(&["c"])));
        assert_eq!(mmds.get_value("d".to_string()), Ok(lines(&["e"])));
    }
}

#[test]
fn patch_data_on_a_leaf_document() {
    let mut mmds = Mmds::default();
    mmds.put_data(leaf("text")).unwrap();
    assert_eq!(mmds.patch_data(parse(r#"{"a":"b"}"#)), Ok(()));
    assert_eq!(mmds.get_value("".to_string()), Ok(lines(&["a"])));
    assert_eq!(mmds.patch_data(leaf("again text")), Ok(()));
    assert_eq!(mmds.get_value("".to_string()), Ok(lines(&["again text"])));
}

#[test]
fn error_messages() {
    assert_eq!(MmdsError::NotFound.message(), "The MMDS resource does not exist.");
    assert_eq!(
        MmdsError::UnsupportedValueType.message(),
        "Cannot add non-strings values to the MMDS data-store."
    );
}

#[test]
fn get_mds_replies() {
    let mut mmds = Mmds::default();
    mmds.put_data(parse(r#"{"c0":{"c1":"12345","c2":"67\"89"},"c9":"x"}"#)).unwrap();

    let resp = get_mds(&mmds, "/mds/c0").unwrap();
    assert_eq!((resp.status, resp.body.as_str()), (200, r#""c1\nc2""#));

    let resp = get_mds(&mmds, "/mds").unwrap();
    assert_eq!((resp.status, resp.body.as_str()), (200, r#""c0\nc9""#));

    let resp = get_mds(&mmds, "/mds/c0/c2/").unwrap();
    assert_eq!((resp.status, resp.body.as_str()), (200, r#""67\"89""#));

    let resp = get_mds(&mmds, "/mds/c0/c3").unwrap();
    assert_eq!((resp.status, resp.body.as_str()), (404, "The MMDS resource does not exist."));

    let resp = get_mds(&mmds, "/v1/mds/c9").unwrap();
    assert_eq!((resp.status, resp.body.as_str()), (200, r#""x""#));

    assert_eq!(get_mds(&mmds, "/other/c0"), Err(Fault::OutsidePrefix));
    assert_eq!(get_mds(&mmds, ""), Err(Fault::OutsidePrefix));
}

#[test]
fn get_mds_on_empty_node() {
    let mmds = Mmds::default();
    let resp = get_mds(&mmds, "/mds").unwrap();
    assert_eq!((resp.status, resp.body.as_str()), (200, r#""""#));
}

#[test]
fn put_mds_and_patch_mds_replies() {
    let mut mmds = Mmds::default();
    let resp = put_mds(&mut mmds, parse(r#"{"a":"b"}"#));
    assert_eq!((resp.status, resp.body.as_str()), (204, ""));

    let resp = put_mds(&mut mmds, parse(r#"{"a":1}"#));
    assert_eq!(
        (resp.status, resp.body.as_str()),
        (500, "Cannot add non-strings values to the MMDS data-store.")
    );
    assert_eq!(mmds.get_value("a".to_string()), Ok(lines(&["b"])));

    let resp = patch_mds(&mut mmds, parse(r#"{"a":null,"c":{"d":"e"}}"#));
    assert_eq!((resp.status, resp.body.as_str()), (204, ""));
    assert_eq!(mmds.get_value("".to_string()), Ok(lines(&["c"])));

    let resp = patch_mds(&mut mmds, parse(r#"{"c":{"d":[]}}"#));
    assert_eq!(
        (resp.status, resp.body.as_str()),
        (500, "Cannot add non-strings values to the MMDS data-store.")
    );
    assert_eq!(mmds.get_value("c/d".to_string()), Ok(lines(&["e"])));
}

#[test]
fn split_after_first_occurrence() {
    assert_eq!(split_after("/mds/c0/c1", "/mds"), Some("/c0/c1".to_string()));
    assert_eq!(split_after("/mds", "/mds"), Some("".to_string()));
    assert_eq!(split_after("/mds/mds/x", "/mds"), Some("/mds/x".to_string()));
    assert_eq!(split_after("/a/mds/é", "/mds"), Some("/é".to_string()));
    assert_eq!(split_after("/md", "/mds"), None);
    assert_eq!(split_after("", "/mds"), None);
    assert_eq!(split_after("abc", ""), Some("abc".to_string()));
}

#[test]
fn join_lines_with_line_feeds() {
    assert_eq!(join(&vec![]), "");
    assert_eq!(join(&lines(&["a"])), "a");
    assert_eq!(join(&lines(&["a", "", "bc"])), "a\n\nbc");
}

#[test]
fn clone_is_deep_and_equal() {
    let value = parse(r#"{"a":{"b":["x",1,true,null]},"c":"d"}"#);
    let copy = value.clone();
    assert_eq!(copy, value);
}

#[test]
fn respond_with_listing_or_fault() {
    assert_eq!(
        respond_with_listing(Some("\"a\\nb\"".to_string())),
        Ok(Response { status: 200, body: "\"a\\nb\"".to_string() })
    );
    assert_eq!(respond_with_listing(None), Err(Fault::Unencodable));
}

#[test]
fn node_children_keep_the_order_of_the_body() {
    let mut mmds = Mmds::default();
    mmds.put_data(parse(r#"{"zeta":"1","alpha":{"y":"2","x":"3"},"mid":"4"}"#)).unwrap();
    assert_eq!(mmds.get_value("/".to_string()), Ok(lines(&["zeta", "alpha", "mid"])));
    assert_eq!(mmds.get_value("/alpha".to_string()), Ok(lines(&["y", "x"])));
    mmds.patch_data(parse(r#"{"new":"5","alpha":{"w":"6","y":"7"},"zeta":null}"#)).unwrap();
    assert_eq!(mmds.get_value("/".to_string()), Ok(lines(&["alpha", "mid", "new"])));
    assert_eq!(mmds.get_value("/alpha".to_string()), Ok(lines(&["y", "x", "w"])));
    assert_eq!(mmds.get_value("/alpha/y".to_string()), Ok(lines(&["7"])));
}

#[test]
fn store_resolve_gives_the_value_itself() {
    let mut mmds = Mmds::default();
    mmds.put_data(parse(r#"{"c0":{"c1":"12345","c2":"6789"}}"#)).unwrap();
    assert_eq!(mmds.resolve("c0/c1"), Ok(&leaf("12345")));
    assert_eq!(
        mmds.resolve("/c0/"),
        Ok(&node(vec![("c1", leaf("12345")), ("c2", leaf("6789"))]))
    );
    assert_eq!(mmds.resolve("").map(render), Ok(Ok(lines(&["c0"]))));
    assert_eq!(mmds.resolve("missing"), Err(MmdsError::NotFound));
    assert_eq!(mmds.resolve("c0/c1/c2"), Err(MmdsError::NotFound));
}

#[test]
fn find_name_gives_the_first_entry() {
    let entries = vec![
        ("a".to_string(), leaf("1")),
        ("b".to_string(), leaf("2")),
        ("a".to_string(), leaf("3")),
    ];
    assert_eq!(find_name(&entries, &"a".to_string()), Some(0));
    assert_eq!(find_name(&entries, &"b".to_string()), Some(1));
    assert_eq!(find_name(&entries, &"c".to_string()), None);
    assert_eq!(find_name(&entries, &"".to_string()), None);
    assert_eq!(find_name(&Vec::new(), &"a".to_string()), None);
}

#[test]
fn remove_name_takes_out_every_entry_of_the_name() {
    let mut entries = vec![
        ("a".to_string(), leaf("1")),
        ("b".to_string(), leaf("2")),
        ("a".to_string(), leaf("3")),
        ("c".to_string(), leaf("4")),
    ];
    remove_name(&mut entries, &"x".to_string());
    assert_eq!(entries.len(), 4);
    remove_name(&mut entries, &"a".to_string());
    assert_eq!(entries, vec![("b".to_string(), leaf("2")), ("c".to_string(), leaf("4"))]);
    remove_name(&mut entries, &"c".to_string());
    remove_name(&mut entries, &"b".to_string());
    assert!(entries.is_empty());
}

#[test]
fn json_patch_on_a_list_that_repeats_a_name() {
    let mut target = node(vec![("a", leaf("1")), ("b", leaf("2")), ("a", leaf("3"))]);
    json_patch(&mut target, &node(vec![("a", leaf("new"))]));
    assert_eq!(target, node(vec![("a", leaf("new")), ("b", leaf("2")), ("a", leaf("3"))]));
    json_patch(&mut target, &node(vec![("a", Value::Null)]));
    assert_eq!(target, node(vec![("b", leaf("2"))]));
    json_patch(&mut target, &node(vec![("c", leaf("x")), ("c", Value::Null), ("d", leaf("y"))]));
    assert_eq!(target, node(vec![("b", leaf("2")), ("d", leaf("y"))]));
}
