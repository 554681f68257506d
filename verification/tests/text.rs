use mcp_gateway::clients::ClientTable;
use mcp_gateway::inventory::{QualifiedToolName, ResponseFormat, Tool, ToolCategory, ToolEntry, ToolInventory};
use mcp_gateway::json::Json;
use mcp_gateway::order::{in_order, sort_distinct, sorted_pairs};
use mcp_gateway::text::{
    contains, decimal_text, is_whitespace, join, lines, parse_u64, sanitize_tool_token, starts_with,
    strip_prefix, trim,
};
use mcp_gateway::wire::parse;

fn strings(list: &[&str]) -> Vec<String> {
    list.iter().map(|s| s.to_string()).collect()
}

#[test]
fn white_space_is_that_of_the_standard_library() {
    for code in 0..=0x10ffff_u32 {
        if let Some(c) = char::from_u32(code) {
            assert_eq!(is_whitespace(c), c.is_whitespace(), "{code:x}");
        }
    }
}

#[test]
fn texts_are_trimmed_and_split_as_usual() {
    for text in ["", " ", " a b ", "\u{3000}x\t\n", "x"] {
        assert_eq!(trim(text), text.trim());
    }
    for text in ["", "a", "a\n", "a\r\nb", "\n\n", "a\nb\r", "\r\n"] {
        let expected: Vec<String> = text.lines().map(|l| l.to_string()).collect();
        assert_eq!(lines(text), expected);
    }
    assert_eq!(join(&strings(&["a", "b"]), ", "), "a, b");
    assert_eq!(join(&Vec::new(), ", "), "");
    assert!(starts_with("https://x", "https://"));
    assert!(!starts_with("ht", "https://"));
    assert!(contains("http://h/sse?x", "/sse"));
    assert!(!contains("http://h/ss", "/sse"));
    assert!(contains("x", ""));
    assert_eq!(strip_prefix("fc_1", "fc_"), Some("1"));
    assert_eq!(strip_prefix("f", "fc_"), None);
}

#[test]
fn numbers_are_written_and_read() {
    for n in [0, 7, 10, 42, u64::MAX] {
        assert_eq!(decimal_text(n), n.to_string());
        assert_eq!(parse_u64(&n.to_string()), Some(n));
    }
    assert_eq!(parse_u64("18446744073709551616"), None);
    assert_eq!(parse_u64(""), None);
    assert_eq!(parse_u64("1.5"), None);
    assert_eq!(parse_u64("-1"), None);
}

#[test]
fn tokens_hold_only_plain_characters() {
    assert_eq!(sanitize_tool_token("My Server!"), "my_server");
    assert_eq!(sanitize_tool_token("__a-b__"), "a_b");
    assert_eq!(sanitize_tool_token("***"), "tool");
    assert_eq!(sanitize_tool_token(""), "tool");
    assert_eq!(sanitize_tool_token("\u{e9}x1"), "x1");
}

#[test]
fn texts_are_ordered_as_usual() {
    let words = ["", "a", "A", "ab", "b", "\u{e9}", "z", "aa"];
    for a in words {
        for b in words {
            assert_eq!(in_order(a, b), a <= b);
        }
    }
    assert_eq!(
        sort_distinct(&strings(&["b", "a", "b", "C"])),
        strings(&["C", "a", "b"])
    );
    let pairs = vec![
        ("b".to_string(), "1".to_string()),
        ("a".to_string(), "2".to_string()),
    ];
    assert_eq!(
        sorted_pairs(&pairs),
        vec![
            ("a".to_string(), "2".to_string()),
            ("b".to_string(), "1".to_string())
        ]
    );
}

#[test]
fn clients_are_found_by_name() {
    let mut table = ClientTable::new();
    table.insert("a", 1);
    table.insert("b", 2);
    table.insert("a", 3);
    assert_eq!(table.get("a"), Some(3));
    assert_eq!(table.get("c"), None);
    assert!(table.contains("b"));
    let mut names = table.names();
    names.sort();
    assert_eq!(names, strings(&["a", "b"]));
    table.remove("b");
    assert!(!table.contains("b"));
    table.clear();
    assert!(table.names().is_empty());
}

fn entry(server: &str, name: &str) -> ToolEntry {
    ToolEntry::from_server_tool(
        server,
        Tool {
            name: name.to_string(),
            title: None,
            description: None,
            output_schema: None,
            annotations: None,
            icons: None,
            input_schema: Json::Null,
        },
    )
}

#[test]
fn an_inventory_holds_each_name_once() {
    let mut inventory = ToolInventory::new();
    inventory.insert_entry(entry("s", "t"));
    inventory.insert_entry(entry("s", "t").with_response_format(ResponseFormat::FileSearchCall));
    inventory.insert_entry(entry("u", "t").with_category(ToolCategory::Dynamic));
    assert_eq!(inventory.counts(), (2, 0, 0));
    assert_eq!(
        inventory.get_entry("s", "t").unwrap().response_format,
        ResponseFormat::FileSearchCall
    );
    assert!(inventory.set_response_format("u", "t", ResponseFormat::WebSearchCall));
    assert!(!inventory.set_response_format("u", "x", ResponseFormat::WebSearchCall));
    inventory.clear_server_tools("s");
    assert!(inventory.get_entry("s", "t").is_none());
    assert_eq!(inventory.entries().len(), 1);
    assert_eq!(inventory.entries_of(&strings(&["s", "u"])).len(), 1);
    inventory.register_alias("al", QualifiedToolName::new("u", "t"));
    let name = inventory.resolve_alias("al").unwrap();
    assert_eq!(name.to_string(), "u:t");
    assert_eq!((name.server_key(), name.tool_name()), ("u", "t"));
    inventory.clear_all();
    assert_eq!(inventory.counts(), (0, 0, 0));
    assert!(inventory.resolve_alias("al").is_none());
}

#[test]
fn entries_of_objects_are_replaced_in_place() {
    let mut value = parse(r#"{"a":1,"b":2,"c":3}"#).unwrap();
    value.set("b", Json::Bool(true));
    value.set("d", Json::Null);
    assert_eq!(value, parse(r#"{"a":1,"b":true,"c":3,"d":null}"#).unwrap());
    assert_eq!(value.remove("a"), Some(Json::number(1)));
    assert_eq!(value.remove("zz"), None);
    assert!(!value.has("a"));
    assert_eq!(value.get("d"), Some(&Json::Null));
    let mut other = Json::number(1);
    other.set("a", Json::Null);
    assert_eq!(other, Json::number(1));
    assert_eq!(Json::number(12).as_u64(), Some(12));
    assert_eq!(Json::text("12").as_u64(), None);
    assert!(value.text_is("b", "x") == false);
}
