//! Calls of tools.

use convergio_ceo::ceo_dispatch::{
    call_tool, check_call, fill_path, find_dots, find_missing, finds_dot_segment, plan_dispatch,
};
use convergio_ceo::http::HttpMethod;
use convergio_ceo::json::Json;
use convergio_ceo::ToolMenuEntry;

fn tool(name: &str, method: &str, path: &str, params: &[&str]) -> ToolMenuEntry {
    ToolMenuEntry {
        name: name.into(),
        description: "".into(),
        method: method.into(),
        path: path.into(),
        params: params.iter().map(|p| p.to_string()).collect(),
    }
}

fn text(s: &str) -> Json {
    Json::Text(s.to_string())
}

fn object(members: &[(&str, Json)]) -> Json {
    Json::Object(members.iter().map(|(k, v)| (k.to_string(), v.clone())).collect())
}

fn names(list: &[&str]) -> Vec<String> {
    list.iter().map(|n| n.to_string()).collect()
}

#[test]
fn placeholders_are_filled() {
    let params = object(&[
        ("id", Json::from_int(42)),
        ("neg", Json::from_int(-3)),
        ("name", text("a b")),
        ("flag", Json::Bool(true)),
        ("list", Json::Array(vec![Json::from_int(1), text("x")])),
    ]);
    let fill = |path: &str, list: &[&str]| fill_path(path, &names(list), &params);
    assert_eq!(fill("/p/:id", &["id"]), "/p/42");
    assert_eq!(fill("/p/:neg", &["neg"]), "/p/-3");
    assert_eq!(fill("/p/:name/:id", &["id", "name"]), "/p/a%20b/42");
    assert_eq!(fill("/p/:flag", &["flag"]), "/p/true");
    assert_eq!(fill("/p/:list", &["list"]), "/p/%5B1%2C%22x%22%5D");
    assert_eq!(fill("/p/:id/:id", &["id"]), "/p/42/42");
    assert_eq!(fill("/p/:absent", &["absent"]), "/p/:absent");
    assert_eq!(fill("/p/:id", &[]), "/p/:id");
    // A name that begins another one is replaced in it too.
    assert_eq!(fill("/p/:identity", &["id"]), "/p/42entity");
    assert_eq!(fill_path("/p/:id", &names(&["id"]), &Json::Null), "/p/:id");
}

#[test]
fn values_cannot_inject_into_a_path() {
    let hostile = "../../admin?x=1#frag/:other";
    let params = object(&[("id", text(hostile)), ("other", text("y"))]);
    let filled = fill_path("/p/:id/end", &names(&["id", "other"]), &params);
    assert_eq!(filled, "/p/..%2F..%2Fadmin%3Fx%3D1%23frag%2F%3Aother/end");
    assert_eq!(filled.matches('/').count(), "/p/:id/end".matches('/').count());
}

#[test]
fn encoding_is_that_of_every_byte() {
    for n in 0u32..0x900 {
        if let Some(c) = char::from_u32(n) {
            let s = format!("{c}");
            let mut expected = String::new();
            for b in s.as_bytes() {
                if b.is_ascii_alphanumeric() || b"-_.~".contains(b) {
                    expected.push(*b as char);
                } else {
                    expected.push_str(&format!("%{b:02X}"));
                }
            }
            let params = object(&[("v", text(&s))]);
            assert_eq!(fill_path(":v", &names(&["v"]), &params), expected);
        }
    }
    let params = object(&[("v", text("€😀"))]);
    assert_eq!(fill_path(":v", &names(&["v"]), &params), "%E2%82%AC%F0%9F%98%80");
}

#[test]
fn methods_and_bodies() {
    let params = object(&[("id", Json::from_int(1)), ("x", text("y"))]);
    let token = Some("secret".to_string());
    let cases = [
        ("POST", HttpMethod::Post, true),
        ("PUT", HttpMethod::Put, true),
        ("DELETE", HttpMethod::Delete, false),
        ("GET", HttpMethod::Get, false),
        ("PATCH", HttpMethod::Get, false),
        ("post", HttpMethod::Get, false),
    ];
    for (name, method, has_body) in cases {
        let entry = tool("t", name, "/t/:id", &["id"]);
        let request = call_tool(&entry, &params, "http://d", &token);
        assert_eq!(request.method, method);
        assert_eq!(request.url, "http://d/t/1");
        assert_eq!(request.authorization, Some("Bearer secret".to_string()));
        if has_body {
            assert_eq!(request.body, Some(object(&[("x", text("y"))])));
        } else {
            assert_eq!(request.body, None);
        }
    }
    let entry = tool("t", "POST", "/t", &[]);
    let request = call_tool(&entry, &Json::Null, "http://d", &None);
    assert_eq!(request.authorization, None);
    assert_eq!(request.body, Some(Json::empty_object()));
}

#[test]
fn tools_are_called_by_name() {
    let tools = vec![
        tool("a", "GET", "/first", &[]),
        tool("b", "GET", "/b", &[]),
        tool("a", "GET", "/second", &[]),
    ];
    let none = Json::empty_object();
    let request = plan_dispatch(&tools, "a", &none, "http://d", &None).unwrap();
    assert_eq!(request.url, "http://d/first");
    let error = plan_dispatch(&tools, "c", &none, "http://d", &None).unwrap_err();
    assert_eq!(error, "Unknown tool: c");
}

#[test]
fn missing_parameters_are_found() {
    let params = object(&[
        ("a", text("")),
        ("b", Json::from_int(0)),
        ("c", Json::Bool(false)),
        ("d", Json::Null),
        ("e", Json::Array(vec![])),
        ("f", Json::empty_object()),
    ]);
    let missing = |list: &[&str]| find_missing(&names(list), &params);
    assert_eq!(missing(&[]), None);
    assert_eq!(missing(&["a", "b", "c"]), None);
    assert_eq!(missing(&["a", "z", "y"]), Some("z".to_string()));
    assert_eq!(missing(&["d"]), Some("d".to_string()));
    assert_eq!(missing(&["e"]), Some("e".to_string()));
    assert_eq!(missing(&["f"]), Some("f".to_string()));
    assert_eq!(find_missing(&names(&["a"]), &Json::Null), Some("a".to_string()));

    let tools = [tool("t", "POST", "/t/:a/:z", &["a", "z"]), tool("u", "GET", "/u", &[])];
    assert_eq!(
        check_call(&tools, "t", &params),
        Some("Missing parameter for t: z".to_string())
    );
    assert_eq!(check_call(&tools, "u", &Json::Null), None);
    assert_eq!(check_call(&tools, "nope", &params), None);
}

#[test]
fn dot_segments_are_found() {
    for path in [
        ".", "..", "/.", "/..", "/a/..", "/a/../b", "./a", "/a/./b", "/a/..?x=1", "/a/.#f",
        "/a\\..\\b", "/%2e", "/%2E%2e/", "/.%2e", "/%2E.",
    ] {
        assert!(finds_dot_segment(path), "{path}");
    }
    for path in [
        "", "/", "/a", "/a.", "/.a", "/...", "/a..", "/..a", "/%2", "/%2f", "/%252e", "/a/%2e%2e%2e",
        "/x=..", "/a.b/c",
    ] {
        assert!(!finds_dot_segment(path), "{path}");
    }
}

#[test]
fn dot_values_are_refused() {
    let tools = [
        tool("t", "POST", "/api/start/:id", &["id"]),
        tool("two", "GET", "/a/:x:y", &["x", "y"]),
        tool("own", "GET", "/a/../:x", &["x"]),
    ];
    let check = |name: &str, members: &[(&str, Json)]| check_call(&tools, name, &object(members));
    for dots in [".", ".."] {
        assert_eq!(
            check("t", &[("id", text(dots))]),
            Some("Invalid parameter for t: id".to_string())
        );
    }
    for fine in ["...", "a.", ".a", "1.5", "%2e", "%2E%2E", "/..", ""] {
        assert_eq!(check("t", &[("id", text(fine))]), None, "{fine}");
    }
    // Two values that make a dot segment only together.
    assert_eq!(check("two", &[("x", text("a")), ("y", text("b"))]), None);
    assert_eq!(
        check("two", &[("x", text(".")), ("y", text("b"))]),
        Some("Invalid parameter for two: x".to_string())
    );
    let spread = [tool("half", "GET", "/a/.:x", &["x"]), tool("hex", "GET", "/a/%2:x", &["x"])];
    assert_eq!(
        check_call(&spread, "hex", &object(&[("x", text("e"))])),
        Some("Invalid path for hex: /a/%2e".to_string())
    );
    assert_eq!(
        check_call(&spread, "half", &object(&[("x", text(""))])),
        Some("Invalid path for half: /a/.".to_string())
    );
    assert_eq!(check_call(&spread, "half", &object(&[("x", text("b"))])), None);
    // A path that has a dot segment of its own is left alone.
    assert_eq!(check("own", &[("x", text("b"))]), None);

    let names = names(&["a", "b"]);
    assert_eq!(find_dots(&names, &object(&[("b", text(".."))])), Some("b".to_string()));
    assert_eq!(find_dots(&names, &object(&[("c", text(".."))])), None);
    assert_eq!(find_dots(&names, &Json::Null), None);
}
