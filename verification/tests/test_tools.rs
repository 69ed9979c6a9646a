use animus::codec::{parse_json, render_json};
use animus::json::Json;
use animus::reply::Reply;
use animus::tool_dispatcher::{
    Admission, Invocation, ReadFileTool, Tool, ToolDispatcher, ToolEnv, ToolHandler, WebSearchTool,
};

fn make_dispatcher_with_read(allowed: &str) -> ToolDispatcher {
    ToolDispatcher::from_env(ToolEnv {
        home: None,
        search_url: None,
        allowed_paths: Some(allowed.to_string()),
    })
}

fn full_dispatcher() -> ToolDispatcher {
    ToolDispatcher::from_env(ToolEnv {
        home: Some("/home/x".to_string()),
        search_url: Some("http://search".to_string()),
        allowed_paths: None,
    })
}

fn components(path: &str) -> Vec<Vec<u8>> {
    let mut out = vec![b"/".to_vec()];
    for part in path.split('/').filter(|p| !p.is_empty()) {
        out.push(part.as_bytes().to_vec());
    }
    out
}

fn replied(invocation: Invocation) -> String {
    match invocation {
        Invocation::Reply(text) => text,
        _ => panic!("a reply is expected"),
    }
}

fn read_tool(d: &ToolDispatcher) -> &ReadFileTool {
    match &d.tools[0] {
        Tool::ReadFile(t) => t,
        _ => panic!("read_file comes first"),
    }
}

fn invoke_read(d: &ToolDispatcher, query: &str) -> (String, Vec<String>) {
    match d.invoke("read_file", query) {
        Invocation::Read { path, allowed } => (path, allowed),
        _ => panic!("a file is to be read"),
    }
}

#[test]
fn unregistered_tool_returns_helpful_message() {
    let d = make_dispatcher_with_read("/tmp");
    let result = replied(d.invoke("web_search", "hello"));
    assert!(result.contains("not registered"));
    assert!(result.contains("read_file"));
    assert_eq!(result, "[Tool 'web_search' not registered — available: read_file]");
}

#[test]
fn unregistered_tool_lists_names_in_order() {
    assert_eq!(
        replied(full_dispatcher().invoke("shell", "ls")),
        "[Tool 'shell' not registered — available: read_file, web_search]"
    );
}

#[test]
fn read_file_blocked_outside_allowed_paths() {
    let d = make_dispatcher_with_read("/tmp/safe");
    let (path, allowed) = invoke_read(&d, "/etc/passwd");
    assert_eq!(allowed, vec!["/tmp/safe"]);
    let result = read_tool(&d).judge(
        &path,
        &Ok(components("/etc/passwd")),
        &vec![Some(components("/tmp/safe")), None],
    );
    match result {
        Admission::Refused(text) => {
            assert!(text.contains("not in allowed list"));
            assert_eq!(
                text,
                "[read_file: path '/etc/passwd' not in allowed list — allowed prefixes: /tmp/safe]"
            );
        }
        Admission::Read => panic!("the path is not allowed"),
    }
}

#[test]
fn read_file_reads_allowed_path() {
    let d = make_dispatcher_with_read("/tmp/dir");
    let (path, _) = invoke_read(&d, "/tmp/dir/test.txt");
    assert!(matches!(
        read_tool(&d).judge(
            &path,
            &Ok(components("/tmp/dir/test.txt")),
            &vec![None, Some(components("/tmp/dir"))]
        ),
        Admission::Read
    ));
    let result = ReadFileTool::answer(&Ok("hello content".to_string()));
    assert_eq!(result, "hello content");
}

#[test]
fn read_file_prefix_goes_by_whole_components() {
    let d = make_dispatcher_with_read("/tmp/dir");
    assert!(matches!(
        read_tool(&d).judge(
            "/tmp/directory/x",
            &Ok(components("/tmp/directory/x")),
            &vec![Some(components("/tmp/dir"))]
        ),
        Admission::Refused(_)
    ));
    assert!(matches!(
        read_tool(&d).judge("/tmp/dir", &Ok(components("/tmp/dir")), &vec![Some(components("/tmp/dir"))]),
        Admission::Read
    ));
}

#[test]
fn read_file_caps_at_4000_chars() {
    let result = ReadFileTool::answer(&Ok("x".repeat(5000)));
    assert_eq!(result.len(), 4000);
    let result = ReadFileTool::answer(&Ok("ü".repeat(4001)));
    assert_eq!(result.chars().count(), 4000);
    assert_eq!(ReadFileTool::answer(&Ok("x".repeat(4000))).len(), 4000);
}

#[test]
fn read_file_missing_file_error() {
    let d = make_dispatcher_with_read("/tmp/dir");
    let (path, _) = invoke_read(&d, " /tmp/dir/nonexistent.txt\n");
    assert_eq!(path, "/tmp/dir/nonexistent.txt");
    match read_tool(&d).judge(&path, &Err("No such file".to_string()), &Vec::new()) {
        Admission::Refused(text) => {
            assert!(text.contains("cannot resolve path"));
            assert_eq!(
                text,
                "[read_file: cannot resolve path '/tmp/dir/nonexistent.txt': No such file]"
            );
        }
        Admission::Read => panic!("there is no such file"),
    }
    assert_eq!(
        ReadFileTool::answer(&Err("is a directory".to_string())),
        "[read_file error: is a directory]"
    );
}

#[test]
fn allowed_paths_are_split_and_trimmed() {
    let d = make_dispatcher_with_read("/a , /b,,/c ");
    assert_eq!(invoke_read(&d, "x").1, vec!["/a", "/b", "", "/c"]);
    assert_eq!(
        invoke_read(&full_dispatcher(), "x").1,
        vec!["/home/x/.et_modules", "/home/x/docs"]
    );
}

#[test]
fn tool_definitions_contains_read_file() {
    let d = make_dispatcher_with_read("/tmp");
    let names: Vec<String> = d
        .tool_definitions()
        .iter()
        .map(|d| d.get("function").unwrap().text_at("name", ""))
        .collect();
    assert!(names.contains(&"read_file".to_string()));
}

#[test]
fn tool_definitions_come_in_order() {
    let names: Vec<String> = full_dispatcher()
        .tool_definitions()
        .iter()
        .map(|d| d.get("function").unwrap().text_at("name", ""))
        .collect();
    assert_eq!(names, vec!["read_file", "web_search"]);
    assert_eq!(full_dispatcher().names(), names);
}

#[test]
fn tool_definition_has_required_openai_shape() {
    let d = make_dispatcher_with_read("/tmp");
    let defs = d.tool_definitions();
    let rf = &defs[0];
    assert_eq!(rf.text_at("type", ""), "function");
    let function = rf.get("function").unwrap();
    assert!(function.opt_text_at("description").is_some());
    let params = function.get("parameters").unwrap();
    assert_eq!(params.text_at("type", ""), "object");
    assert!(matches!(
        params.get("properties").unwrap().get("path").unwrap(),
        Json::Object(_)
    ));
    assert_eq!(
        render_json(rf),
        r#"{"function":{"description":"Read a file from the allowed filesystem paths (up to 4000 characters).","name":"read_file","parameters":{"properties":{"path":{"description":"Absolute file path (must be within allowed paths)","type":"string"}},"required":["path"],"type":"object"}},"type":"function"}"#
    );
}

#[test]
fn execute_args_read_file_extracts_path() {
    let d = make_dispatcher_with_read("/tmp");
    let args = parse_json(r#"{"path":"/tmp/hello.txt"}"#).unwrap();
    match d.execute_args("read_file", &args) {
        Invocation::Read { path, .. } => assert_eq!(path, "/tmp/hello.txt"),
        _ => panic!("a file is to be read"),
    }
}

#[test]
fn execute_args_unknown_tool_returns_message() {
    let d = make_dispatcher_with_read("/tmp");
    let result = replied(d.execute_args("nonexistent", &parse_json(r#"{"query":"x"}"#).unwrap()));
    assert!(result.contains("not registered"));
}

#[test]
fn execute_args_picks_the_primary_argument() {
    let d = full_dispatcher();
    for (args, expected) in [
        (r#"{"path":"p","query":"q"}"#, "q"),
        (r#"{"query":7,"path":"p"}"#, "p"),
        (r#"{"b":"first by name is a","a":"yes"}"#, "yes"),
        (r#"{"n":1,"z":"text"}"#, "text"),
        (r#"{"n":1}"#, r#"{"n":1}"#),
        (r#"[1,"x"]"#, r#"[1,"x"]"#),
        (r#""bare""#, r#""bare""#),
    ] {
        match d.execute_args("web_search", &parse_json(args).unwrap()) {
            Invocation::Search { query, endpoint } => {
                assert_eq!(query, expected);
                assert_eq!(endpoint, "http://search");
            }
            _ => panic!("a search is expected"),
        }
    }
}

fn body(text: &str) -> Reply {
    Reply::Answered { success: true, body: Ok(text.as_bytes().to_vec()) }
}

#[test]
fn search_results_are_put_into_words() {
    let reply = body(
        r#"{"results":[{"title":"A","url":"u1"},{"url":"u2"},{"title":"C"},{"title":"D","url":"u4"}]}"#,
    );
    assert_eq!(
        WebSearchTool::answer("say \"hi\"", &reply),
        "[web_search results for \"say \\\"hi\\\"\"]\n• A — u1\n• (no title) — u2\n• C — "
    );
}

#[test]
fn search_is_asked_for_json() {
    assert_eq!(
        WebSearchTool::params("rust"),
        vec![
            ("q".to_string(), "rust".to_string()),
            ("format".to_string(), "json".to_string()),
        ]
    );
}

#[test]
fn search_without_results_says_so() {
    for text in [r#"{"results":[]}"#, "{}", r#"{"results":"none"}"#] {
        assert_eq!(
            WebSearchTool::answer("q", &body(text)),
            "[web_search results for \"q\"]\n(no results)"
        );
    }
}

#[test]
fn search_failures_are_put_into_words() {
    assert_eq!(
        WebSearchTool::answer("q", &Reply::Failed("refused".to_string())),
        "[web_search error: refused]"
    );
    assert_eq!(
        WebSearchTool::answer("q", &body("<html>")),
        "[web_search parse error: error decoding response body]"
    );
    assert_eq!(
        WebSearchTool::answer(
            "q",
            &Reply::Answered { success: false, body: Err("cut off".to_string()) }
        ),
        "[web_search parse error: cut off]"
    );
}

#[test]
fn tools_describe_themselves() {
    let search = WebSearchTool { endpoint: "e".to_string() };
    assert_eq!(search.name(), "web_search");
    assert_eq!(search.description(), "Search the web for current information via SearXNG.");
    assert_eq!(
        render_json(&search.parameters_schema()),
        r#"{"properties":{"query":{"description":"The search query","type":"string"}},"required":["query"],"type":"object"}"#
    );
}
