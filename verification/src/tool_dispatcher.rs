//! The tools that the agent can call, by name.
//!
//! A call of a tool is told apart here and its result is put into words here; in between the
//! caller does the outside work that an `Invocation` names.

use crate::codec::{json_text, render_json, text_before, value_of};
use crate::json::{
    array1, fields_view, items_view, lemma_items_push, lemma_object_view, lookup, object1, object2,
    object3, text, Json, JsonView,
};
use crate::markers::pairs_view;
use crate::reply::{Reply, ReplyView};
use crate::strings::{
    concat3, join, joined, lemma_texts_push, same, slice, split, split_on, texts, trim, trimmed,
};
use vstd::prelude::*;

verus! {

/// The outside work that a call of a tool asks for.
pub enum Invocation {
    /// Ask the search service at `endpoint` for `query`.
    Search { endpoint: String, query: String },
    /// Resolve `path` and each of `allowed`, and read `path` where one of them holds it.
    Read { path: String, allowed: Vec<String> },
    /// Nothing: the reply is this.
    Reply(String),
}

/// What an invocation is, over sequences.
#[verifier::ext_equal]
pub enum InvocationView {
    Search { endpoint: Seq<char>, query: Seq<char> },
    Read { path: Seq<char>, allowed: Seq<Seq<char>> },
    Reply(Seq<char>),
}

impl View for Invocation {
    type V = InvocationView;

    open spec fn view(&self) -> InvocationView {
        match self {
            Invocation::Search { endpoint, query } => InvocationView::Search {
                endpoint: endpoint@,
                query: query@,
            },
            Invocation::Read { path, allowed } => InvocationView::Read {
                path: path@,
                allowed: texts(allowed@),
            },
            Invocation::Reply(t) => InvocationView::Reply(t@),
        }
    }
}

/// A tool: its name, what it does, the JSON schema of its arguments, and what a call asks for.
pub trait ToolHandler {
    /// The name that calls go by.
    spec fn name_view(&self) -> Seq<char>;

    /// What the tool does, in words.
    spec fn description_view(&self) -> Seq<char>;

    /// The JSON schema of the tool's arguments.
    spec fn schema_view(&self) -> JsonView;

    /// The outside work that a call with `query` asks for.
    spec fn invocation(&self, query: Seq<char>) -> InvocationView;

    /// The name that calls go by.
    fn name(&self) -> (r: &str)
        ensures
            r@ == self.name_view(),
    ;

    /// What the tool does, in words.
    fn description(&self) -> (r: &str)
        ensures
            r@ == self.description_view(),
    ;

    /// The JSON schema of the tool's arguments.
    fn parameters_schema(&self) -> (r: Json)
        ensures
            r@ == self.schema_view(),
    ;

    /// The outside work that a call with `query` asks for.
    fn invoke(&self, query: &str) -> (r: Invocation)
        ensures
            r@ == self.invocation(query@),
    ;
}

/// The schema of an object with one required text field.
pub open spec fn schema_of(name: Seq<char>, about: Seq<char>) -> JsonView {
    JsonView::Object(
        seq![
            (
                "properties"@,
                JsonView::Object(
                    seq![
                        (
                            name,
                            JsonView::Object(
                                seq![
                                    ("description"@, JsonView::Text(about)),
                                    ("type"@, JsonView::Text("string"@)),
                                ],
                            ),
                        ),
                    ],
                ),
            ),
            ("required"@, JsonView::Array(seq![JsonView::Text(name)])),
            ("type"@, JsonView::Text("object"@)),
        ],
    )
}

/// Builds the schema of an object with one required text field.
fn one_text_schema(name: &str, about: &str) -> (r: Json)
    ensures
        r@ == schema_of(name@, about@),
{
    object3(
        "properties",
        object1(name, object2("description", text(about), "type", text("string"))),
        "required",
        array1(text(name)),
        "type",
        text("object"),
    )
}

/// A search service that answers in the manner of SearXNG.
pub struct WebSearchTool {
    pub endpoint: String,
}

/// A reader of files below the directories in a list with commas between them.
pub struct ReadFileTool {
    pub allowed_paths: String,
}

impl ToolHandler for WebSearchTool {
    open spec fn name_view(&self) -> Seq<char> {
        "web_search"@
    }

    open spec fn description_view(&self) -> Seq<char> {
        "Search the web for current information via SearXNG."@
    }

    open spec fn schema_view(&self) -> JsonView {
        schema_of("query"@, "The search query"@)
    }

    open spec fn invocation(&self, query: Seq<char>) -> InvocationView {
        InvocationView::Search { endpoint: self.endpoint@, query }
    }

    fn name(&self) -> (r: &str) {
        "web_search"
    }

    fn description(&self) -> (r: &str) {
        "Search the web for current information via SearXNG."
    }

    fn parameters_schema(&self) -> (r: Json) {
        one_text_schema("query", "The search query")
    }

    fn invoke(&self, query: &str) -> (r: Invocation) {
        Invocation::Search { endpoint: self.endpoint.clone(), query: query.to_owned() }
    }
}

/// Each of `parts` without the white space at its ends.
pub open spec fn each_trimmed(parts: Seq<Seq<char>>) -> Seq<Seq<char>> {
    Seq::new(parts.len(), |i: int| trimmed(parts[i]))
}

impl ToolHandler for ReadFileTool {
    open spec fn name_view(&self) -> Seq<char> {
        "read_file"@
    }

    open spec fn description_view(&self) -> Seq<char> {
        "Read a file from the allowed filesystem paths (up to 4000 characters)."@
    }

    open spec fn schema_view(&self) -> JsonView {
        schema_of("path"@, "Absolute file path (must be within allowed paths)"@)
    }

    open spec fn invocation(&self, query: Seq<char>) -> InvocationView {
        InvocationView::Read {
            path: trimmed(query),
            allowed: each_trimmed(split_on(self.allowed_paths@, ',')),
        }
    }

    fn name(&self) -> (r: &str) {
        "read_file"
    }

    fn description(&self) -> (r: &str) {
        "Read a file from the allowed filesystem paths (up to 4000 characters)."
    }

    fn parameters_schema(&self) -> (r: Json) {
        one_text_schema("path", "Absolute file path (must be within allowed paths)")
    }

    fn invoke(&self, query: &str) -> (r: Invocation) {
        broadcast use lemma_texts_push;

        let parts = split(self.allowed_paths.as_str(), ',');
        let mut allowed: Vec<String> = Vec::new();
        let mut i: usize = 0;
        while i < parts.len()
            invariant
                i <= parts@.len(),
                texts(allowed@) == each_trimmed(texts(parts@)).take(i as int),
            decreases parts@.len() - i,
        {
            let ghost before = texts(allowed@);
            allowed.push(trim(parts[i].as_str()));
            assert(texts(allowed@) == before.push(trimmed(parts@[i as int]@)));
            assert(before.push(trimmed(texts(parts@)[i as int])) =~= each_trimmed(
                texts(parts@),
            ).take(i + 1));
            i += 1;
        }
        assert(texts(allowed@) =~= each_trimmed(texts(parts@)));
        Invocation::Read { path: trim(query), allowed }
    }
}

/// `s` as Rust writes it between quotes for a reader of logs.
pub uninterp spec fn quoted(s: Seq<char>) -> Seq<char>;

/// Formats a text with `Debug`. It claims that the outcome depends on the text alone and names it
/// `quoted`.
#[verifier::external_body]
fn debug_text(s: &str) -> (r: String)
    ensures
        r@ == quoted(s@),
{
    format!("{:?}", s)
}

/// One line for a search result: its title and its address.
pub open spec fn bullet(result: JsonView) -> Seq<char> {
    "• "@ + result.at("title"@).text_or("(no title)"@) + " — "@ + result.at("url"@).text_or(""@)
}

/// How many search results are told of.
pub const MAX_RESULTS: usize = 3;

/// One line for each of the first results.
pub open spec fn bullets(results: Seq<JsonView>) -> Seq<Seq<char>> {
    let shown = if results.len() < MAX_RESULTS {
        results.len()
    } else {
        MAX_RESULTS as nat
    };
    Seq::new(shown, |i: int| bullet(results[i]))
}

/// The search results in an answer of the search service, in words.
pub open spec fn results_text(data: JsonView) -> Seq<char> {
    match data.at("results"@).as_array() {
        Some(results) => if results.len() > 0 {
            joined(bullets(results), "\n"@)
        } else {
            "(no results)"@
        },
        None => "(no results)"@,
    }
}

/// What a search for `query` gives, in words.
pub open spec fn search_text(query: Seq<char>, reply: ReplyView) -> Seq<char> {
    match reply {
        ReplyView::Failed(e) => "[web_search error: "@ + e + "]"@,
        ReplyView::Answered { success, body: Err(e) } => "[web_search parse error: "@ + e + "]"@,
        ReplyView::Answered { success, body: Ok(bytes) } => match reply.json() {
            None => "[web_search parse error: "@ + "error decoding response body"@ + "]"@,
            Some(data) => "[web_search results for "@ + quoted(query) + "]\n"@ + results_text(data),
        },
    }
}

/// One line for a search result.
fn bullet_text(result: &Json) -> (r: String)
    ensures
        r@ == bullet(result@),
{
    let mut out = "• ".to_owned();
    out.append(result.text_at("title", "(no title)").as_str());
    out.append(" — ");
    out.append(result.text_at("url", "").as_str());
    out
}

impl WebSearchTool {
    /// What a search for `query` is asked with: names and values.
    pub fn params(query: &str) -> (r: Vec<(String, String)>)
        ensures
            pairs_view(r@) == seq![("q"@, query@), ("format"@, "json"@)],
    {
        let params = vec![
            ("q".to_owned(), query.to_owned()),
            ("format".to_owned(), "json".to_owned()),
        ];
        assert(pairs_view(params@) =~= seq![("q"@, query@), ("format"@, "json"@)]);
        params
    }

    /// The search results in an answer of the search service, in words.
    fn render(data: &Json) -> (r: String)
        ensures
            r@ == results_text(data@),
    {
        broadcast use lemma_texts_push;

        match data.array_at("results") {
            Some(results) => {
                if results.len() == 0 {
                    return "(no results)".to_owned();
                }
                let mut lines: Vec<String> = Vec::new();
                let mut i: usize = 0;
                let ghost all = bullets(items_view(results@));
                while i < results.len() && i < MAX_RESULTS
                    invariant
                        i <= all.len(),
                        all == bullets(items_view(results@)),
                        texts(lines@) == all.take(i as int),
                    decreases results@.len() - i,
                {
                    let ghost before = texts(lines@);
                    lines.push(bullet_text(&results[i]));
                    assert(texts(lines@) == before.push(all[i as int]));
                    assert(before.push(all[i as int]) =~= all.take(i + 1));
                    i += 1;
                }
                assert(texts(lines@) =~= all);
                join(&lines, "\n")
            },
            None => "(no results)".to_owned(),
        }
    }

    /// What a search for `query` gives, in words.
    pub fn answer(query: &str, reply: &Reply) -> (r: String)
        ensures
            r@ == search_text(query@, reply@),
    {
        match reply {
            Reply::Failed(e) => concat3("[web_search error: ", e.as_str(), "]"),
            Reply::Answered { success: _, body: Err(e) } => concat3(
                "[web_search parse error: ",
                e.as_str(),
                "]",
            ),
            Reply::Answered { success: _, body: Ok(_) } => match reply.json() {
                None => concat3("[web_search parse error: ", "error decoding response body", "]"),
                Some(data) => {
                    let mut out = concat3(
                        "[web_search results for ",
                        debug_text(query).as_str(),
                        "]\n",
                    );
                    out.append(Self::render(&data).as_str());
                    out
                },
            },
        }
    }
}

/// The components of a path that has been resolved to an absolute one without links.
pub type Components = Vec<Vec<u8>>;

/// What the components of a path are, over sequences.
pub open spec fn components_view(path: Components) -> Seq<Seq<u8>> {
    Seq::new(path@.len(), |i: int| path@[i]@)
}

/// What came of resolving a path.
pub open spec fn resolved_view(r: Result<Components, String>) -> Result<Seq<Seq<u8>>, Seq<char>> {
    match r {
        Ok(path) => Ok(components_view(path)),
        Err(e) => Err(e@),
    }
}

/// `path` lies below one of the directories that could be resolved, or is one of them.
pub open spec fn permitted(path: Seq<Seq<u8>>, allowed: Seq<Option<Components>>) -> bool {
    exists|i: int|
        0 <= i < allowed.len() && (#[trigger] allowed[i] matches Some(dir) && components_view(
            dir,
        ).is_prefix_of(path))
}

/// Whether a path may be read, or what to reply instead.
pub enum Admission {
    Read,
    Refused(String),
}

/// What an admission is, over sequences.
pub enum AdmissionView {
    Read,
    Refused(Seq<char>),
}

impl View for Admission {
    type V = AdmissionView;

    open spec fn view(&self) -> AdmissionView {
        match self {
            Admission::Read => AdmissionView::Read,
            Admission::Refused(t) => AdmissionView::Refused(t@),
        }
    }
}

/// How many characters of a file are handed out.
pub const MAX_FILE_CHARS: usize = 4000;

/// Whether the bytes are the same.
fn same_bytes(a: &Vec<u8>, b: &Vec<u8>) -> (r: bool)
    ensures
        r == (a@ == b@),
{
    if a.len() != b.len() {
        return false;
    }
    let mut i: usize = 0;
    while i < a.len()
        invariant
            a@.len() == b@.len(),
            i <= a@.len(),
            forall|j: int| 0 <= j < i ==> a@[j] == b@[j],
        decreases a@.len() - i,
    {
        if a[i] != b[i] {
            return false;
        }
        i += 1;
    }
    assert(a@ =~= b@);
    true
}

/// Whether `path` lies below `dir` or is `dir`.
fn lies_below(path: &Components, dir: &Components) -> (r: bool)
    ensures
        r == components_view(*dir).is_prefix_of(components_view(*path)),
{
    if dir.len() > path.len() {
        return false;
    }
    let mut i: usize = 0;
    while i < dir.len()
        invariant
            dir@.len() <= path@.len(),
            i <= dir@.len(),
            forall|j: int| 0 <= j < i ==> dir@[j]@ == path@[j]@,
        decreases dir@.len() - i,
    {
        if !same_bytes(&dir[i], &path[i]) {
            assert(components_view(*dir)[i as int] != components_view(*path).subrange(
                0,
                dir@.len() as int,
            )[i as int]);
            return false;
        }
        i += 1;
    }
    assert(components_view(*dir) =~= components_view(*path).subrange(0, dir@.len() as int));
    true
}

impl ReadFileTool {
    /// What `judge` decides: a path that cannot be resolved is refused with the reason, one that
    /// lies below none of the allowed directories is refused with their list.
    pub open spec fn admission(
        &self,
        path: Seq<char>,
        resolved: Result<Seq<Seq<u8>>, Seq<char>>,
        allowed: Seq<Option<Components>>,
    ) -> AdmissionView {
        match resolved {
            Err(e) => AdmissionView::Refused(
                "[read_file: cannot resolve path '"@ + path + "': "@ + e + "]"@,
            ),
            Ok(place) => if permitted(place, allowed) {
                AdmissionView::Read
            } else {
                AdmissionView::Refused(
                    "[read_file: path '"@ + path
                        + "' not in allowed list — allowed prefixes: "@ + self.allowed_paths@
                        + "]"@,
                )
            },
        }
    }

    /// Decides whether `path`, which resolves to `resolved`, may be read, given what the allowed
    /// directories resolve to.
    pub fn judge(
        &self,
        path: &str,
        resolved: &Result<Components, String>,
        allowed: &Vec<Option<Components>>,
    ) -> (r: Admission)
        ensures
            r@ == self.admission(path@, resolved_view(*resolved), allowed@),
    {
        match resolved {
            Err(e) => {
                let mut out = concat3("[read_file: cannot resolve path '", path, "': ");
                out.append(e.as_str());
                out.append("]");
                Admission::Refused(out)
            },
            Ok(place) => {
                let mut i: usize = 0;
                while i < allowed.len()
                    invariant
                        i <= allowed@.len(),
                        resolved_view(*resolved) == Ok::<Seq<Seq<u8>>, Seq<char>>(
                            components_view(*place),
                        ),
                        forall|j: int|
                            0 <= j < i ==> !(#[trigger] allowed@[j] matches Some(dir)
                                && components_view(dir).is_prefix_of(components_view(*place))),
                    decreases allowed@.len() - i,
                {
                    if let Some(dir) = &allowed[i] {
                        if lies_below(place, dir) {
                            assert(allowed@[i as int] matches Some(dir) && components_view(
                                dir,
                            ).is_prefix_of(components_view(*place)));
                            return Admission::Read;
                        }
                    }
                    i += 1;
                }
                let mut out = concat3(
                    "[read_file: path '",
                    path,
                    "' not in allowed list — allowed prefixes: ",
                );
                out.append(self.allowed_paths.as_str());
                out.append("]");
                Admission::Refused(out)
            },
        }
    }

    /// What the content of the file is as a reply: at most its first 4000 characters.
    pub open spec fn file_text(content: Result<Seq<char>, Seq<char>>) -> Seq<char> {
        match content {
            Ok(t) => if t.len() <= MAX_FILE_CHARS {
                t
            } else {
                t.take(MAX_FILE_CHARS as int)
            },
            Err(e) => "[read_file error: "@ + e + "]"@,
        }
    }

    /// Makes the reply from what came of reading the file.
    pub fn answer(content: &Result<String, String>) -> (r: String)
        ensures
            r@ == Self::file_text(
                match content {
                    Ok(t) => Ok(t@),
                    Err(e) => Err(e@),
                },
            ),
    {
        match content {
            Ok(t) => {
                let total: usize = t.as_str().unicode_len();
                if total <= MAX_FILE_CHARS {
                    t.clone()
                } else {
                    slice(t.as_str(), 0, MAX_FILE_CHARS)
                }
            },
            Err(e) => concat3("[read_file error: ", e.as_str(), "]"),
        }
    }
}

/// A registered tool.
pub enum Tool {
    WebSearch(WebSearchTool),
    ReadFile(ReadFileTool),
}

impl ToolHandler for Tool {
    open spec fn name_view(&self) -> Seq<char> {
        match self {
            Tool::WebSearch(t) => t.name_view(),
            Tool::ReadFile(t) => t.name_view(),
        }
    }

    open spec fn description_view(&self) -> Seq<char> {
        match self {
            Tool::WebSearch(t) => t.description_view(),
            Tool::ReadFile(t) => t.description_view(),
        }
    }

    open spec fn schema_view(&self) -> JsonView {
        match self {
            Tool::WebSearch(t) => t.schema_view(),
            Tool::ReadFile(t) => t.schema_view(),
        }
    }

    open spec fn invocation(&self, query: Seq<char>) -> InvocationView {
        match self {
            Tool::WebSearch(t) => t.invocation(query),
            Tool::ReadFile(t) => t.invocation(query),
        }
    }

    fn name(&self) -> (r: &str) {
        match self {
            Tool::WebSearch(t) => t.name(),
            Tool::ReadFile(t) => t.name(),
        }
    }

    fn description(&self) -> (r: &str) {
        match self {
            Tool::WebSearch(t) => t.description(),
            Tool::ReadFile(t) => t.description(),
        }
    }

    fn parameters_schema(&self) -> (r: Json) {
        match self {
            Tool::WebSearch(t) => t.parameters_schema(),
            Tool::ReadFile(t) => t.parameters_schema(),
        }
    }

    fn invoke(&self, query: &str) -> (r: Invocation) {
        match self {
            Tool::WebSearch(t) => t.invoke(query),
            Tool::ReadFile(t) => t.invoke(query),
        }
    }
}

/// What the environment says of tools: `HOME`, `ANIMUS_SEARCH_URL` and `ANIMUS_ALLOWED_PATHS`.
pub struct ToolEnv {
    pub home: Option<String>,
    pub search_url: Option<String>,
    pub allowed_paths: Option<String>,
}

/// The registered tools, each name once, in the order of their names.
pub struct ToolDispatcher {
    pub tools: Vec<Tool>,
}

/// The names of `tools`.
pub open spec fn tool_names(tools: Seq<Tool>) -> Seq<Seq<char>> {
    Seq::new(tools.len(), |i: int| tools[i].name_view())
}

/// The description of a tool in the shape that chat completions take.
pub open spec fn definition(tool: Tool) -> JsonView {
    JsonView::Object(
        seq![
            (
                "function"@,
                JsonView::Object(
                    seq![
                        ("description"@, JsonView::Text(tool.description_view())),
                        ("name"@, JsonView::Text(tool.name_view())),
                        ("parameters"@, tool.schema_view()),
                    ],
                ),
            ),
            ("type"@, JsonView::Text("function"@)),
        ],
    )
}

/// The tool with the name `name`.
pub open spec fn find_tool(tools: Seq<Tool>, name: Seq<char>) -> Option<Tool>
    decreases tools.len(),
{
    if tools.len() == 0 {
        None
    } else if tools[0].name_view() == name {
        Some(tools[0])
    } else {
        find_tool(tools.drop_first(), name)
    }
}

/// The first text among the values of `fields`.
pub open spec fn first_text(fields: Seq<(Seq<char>, JsonView)>) -> Option<Seq<char>>
    decreases fields.len(),
{
    if fields.len() == 0 {
        None
    } else {
        match fields[0].1 {
            JsonView::Text(t) => Some(t),
            _ => first_text(fields.drop_first()),
        }
    }
}

/// The argument that a call with JSON arguments hands to the tool: the text in `query`, else the
/// text in `path`, else the first text in the object, else the arguments as JSON text.
pub open spec fn primary_arg(args: JsonView) -> Seq<char> {
    match (args.at("query"@), args.at("path"@)) {
        (JsonView::Text(q), _) => q,
        (_, JsonView::Text(p)) => p,
        _ => match args {
            JsonView::Object(fields) => match first_text(fields) {
                Some(t) => t,
                None => json_text(value_of(args)),
            },
            _ => json_text(value_of(args)),
        },
    }
}

impl ToolDispatcher {
    /// Each name occurs once, and the names ascend.
    pub open spec fn well_formed(&self) -> bool {
        forall|i: int, j: int|
            0 <= i < j < self.tools@.len() ==> text_before(
                (#[trigger] self.tools@[i]).name_view(),
                (#[trigger] self.tools@[j]).name_view(),
            )
    }

    /// The descriptions of all tools.
    pub open spec fn definitions(&self) -> Seq<JsonView> {
        Seq::new(self.tools@.len(), |i: int| definition(self.tools@[i]))
    }

    /// The outside work that a call of the tool `name` asks for; a reply that lists the tools
    /// where there is none of that name.
    pub open spec fn invocation(&self, name: Seq<char>, query: Seq<char>) -> InvocationView {
        match find_tool(self.tools@, name) {
            Some(tool) => tool.invocation(query),
            None => InvocationView::Reply(
                "[Tool '"@ + name + "' not registered — available: "@ + joined(
                    tool_names(self.tools@),
                    ", "@,
                ) + "]"@,
            ),
        }
    }

    /// The directories that files may be read from.
    pub open spec fn allowed_paths_of(env: ToolEnv) -> Seq<char> {
        match env.allowed_paths {
            Some(paths) => paths@,
            None => {
                let home = match env.home {
                    Some(home) => home@,
                    None => ""@,
                };
                home + "/.et_modules,"@ + home + "/docs"@
            },
        }
    }

    /// Builds the registry from what the environment says: `read_file` always, `web_search` where
    /// a search service is named.
    pub fn from_env(env: ToolEnv) -> (r: ToolDispatcher)
        ensures
            r.well_formed(),
            r.tools@.len() == (if env.search_url is Some {
                2int
            } else {
                1int
            }),
            r.tools@[0] matches Tool::ReadFile(t) && t.allowed_paths@ == Self::allowed_paths_of(env),
            env.search_url matches Some(url) ==> (r.tools@[1] matches Tool::WebSearch(t)
                && t.endpoint@ == url@),
    {
        let allowed_paths = match env.allowed_paths {
            Some(paths) => paths,
            None => {
                let home = match env.home {
                    Some(home) => home,
                    None => "".to_owned(),
                };
                let mut paths = home.clone();
                paths.append("/.et_modules,");
                paths.append(home.as_str());
                paths.append("/docs");
                paths
            },
        };
        let mut tools: Vec<Tool> = Vec::new();
        tools.push(Tool::ReadFile(ReadFileTool { allowed_paths }));
        if let Some(url) = env.search_url {
            tools.push(Tool::WebSearch(WebSearchTool { endpoint: url }));
        }
        proof {
            reveal_strlit("read_file");
            reveal_strlit("web_search");
        }
        ToolDispatcher { tools }
    }

    /// Finds the tool with the name `name`.
    fn find(&self, name: &str) -> (r: Option<&Tool>)
        ensures
            match r {
                Some(tool) => find_tool(self.tools@, name@) == Some(*tool),
                None => find_tool(self.tools@, name@) is None,
            },
    {
        let mut i: usize = 0;
        assert(self.tools@.skip(0) =~= self.tools@);
        while i < self.tools.len()
            invariant
                i <= self.tools@.len(),
                find_tool(self.tools@, name@) == find_tool(self.tools@.skip(i as int), name@),
            decreases self.tools@.len() - i,
        {
            if same(self.tools[i].name(), name) {
                return Some(&self.tools[i]);
            }
            assert(self.tools@.skip(i as int).drop_first() =~= self.tools@.skip(i + 1));
            i += 1;
        }
        None
    }

    /// The names of the tools, in their order.
    pub fn names(&self) -> (r: Vec<String>)
        ensures
            texts(r@) == tool_names(self.tools@),
    {
        broadcast use lemma_texts_push;

        let mut names: Vec<String> = Vec::new();
        let mut i: usize = 0;
        while i < self.tools.len()
            invariant
                i <= self.tools@.len(),
                texts(names@) == tool_names(self.tools@).take(i as int),
            decreases self.tools@.len() - i,
        {
            let ghost before = texts(names@);
            names.push(self.tools[i].name().to_owned());
            assert(texts(names@) == before.push(tool_names(self.tools@)[i as int]));
            assert(texts(names@) =~= tool_names(self.tools@).take(i + 1));
            i += 1;
        }
        assert(texts(names@) =~= tool_names(self.tools@));
        names
    }

    /// Tells the outside work that a call of the tool `name` asks for.
    pub fn invoke(&self, name: &str, query: &str) -> (r: Invocation)
        ensures
            r@ == self.invocation(name@, query@),
    {
        match self.find(name) {
            Some(tool) => tool.invoke(query),
            None => {
                let mut out = concat3("[Tool '", name, "' not registered — available: ");
                out.append(join(&self.names(), ", ").as_str());
                out.append("]");
                Invocation::Reply(out)
            },
        }
    }

    /// The descriptions of all tools, for the model to choose from.
    pub fn tool_definitions(&self) -> (r: Vec<Json>)
        ensures
            items_view(r@) == self.definitions(),
    {
        broadcast use lemma_items_push;

        let mut defs: Vec<Json> = Vec::new();
        let mut i: usize = 0;
        while i < self.tools.len()
            invariant
                i <= self.tools@.len(),
                items_view(defs@) == self.definitions().take(i as int),
            decreases self.tools@.len() - i,
        {
            let ghost before = items_view(defs@);
            let tool = &self.tools[i];
            let def = object2(
                "function",
                object3(
                    "description",
                    text(tool.description()),
                    "name",
                    text(tool.name()),
                    "parameters",
                    tool.parameters_schema(),
                ),
                "type",
                text("function"),
            );
            assert(def@ == definition(self.tools@[i as int]));
            defs.push(def);
            assert(items_view(defs@) == before.push(self.definitions()[i as int]));
            assert(items_view(defs@) =~= self.definitions().take(i + 1));
            i += 1;
        }
        assert(items_view(defs@) =~= self.definitions());
        defs
    }

    /// Tells the outside work that a call of the tool `name` with JSON arguments asks for.
    pub fn execute_args(&self, name: &str, args: &Json) -> (r: Invocation)
        ensures
            r@ == self.invocation(name@, primary_arg(args@)),
    {
        let query = Self::primary(args);
        self.invoke(name, query.as_str())
    }

    /// The argument that a call with JSON arguments hands to the tool.
    fn primary(args: &Json) -> (r: String)
        ensures
            r@ == primary_arg(args@),
    {
        broadcast use lemma_object_view;

        if let Some(q) = args.opt_text_at("query") {
            return q;
        }
        if let Some(p) = args.opt_text_at("path") {
            return p;
        }
        if let Json::Object(fields) = args {
            let mut i: usize = 0;
            let ghost all = fields_view(fields@);
            assert(all.skip(0) =~= all);
            while i < fields.len()
                invariant
                    i <= fields@.len(),
                    all == fields_view(fields@),
                    args@ == JsonView::Object(all),
                    args@.at("query"@).as_text() is None,
                    args@.at("path"@).as_text() is None,
                    first_text(all) == first_text(all.skip(i as int)),
                decreases fields@.len() - i,
            {
                if let Json::Text(t) = &fields[i].1 {
                    return t.clone();
                }
                assert(all.skip(i as int).drop_first() =~= all.skip(i + 1));
                i += 1;
            }
        }
        render_json(args)
    }
}

/// The descriptions come in the order of the names, one for each tool.
pub proof fn law_definitions_sorted_by_name(d: ToolDispatcher, i: int, j: int)
    requires
        d.well_formed(),
        0 <= i < j < d.tools@.len(),
    ensures
        d.definitions().len() == d.tools@.len(),
        d.definitions()[i].at("function"@).at("name"@) == JsonView::Text(d.tools@[i].name_view()),
        text_before(
            d.definitions()[i].at("function"@).at("name"@)->Text_0,
            d.definitions()[j].at("function"@).at("name"@)->Text_0,
        ),
{
    lemma_definition_name(d.tools@[i]);
    lemma_definition_name(d.tools@[j]);
}

/// The name in the description of a tool is the tool's name.
pub proof fn lemma_definition_name(tool: Tool)
    ensures
        definition(tool).at("function"@).at("name"@) == JsonView::Text(tool.name_view()),
        definition(tool).at("type"@) == JsonView::Text("function"@),
{
    reveal_with_fuel(lookup, 4);
    reveal_strlit("function");
    reveal_strlit("type");
    reveal_strlit("description");
    reveal_strlit("name");
    assert("description"@[0] != "name"@[0]);
    assert("function"@[0] != "type"@[0]);
}

/// Every registered tool answers to its name, and no call of another name reaches a tool.
pub proof fn law_calls_go_by_name(d: ToolDispatcher, name: Seq<char>, query: Seq<char>)
    requires
        d.well_formed(),
    ensures
        forall|i: int|
            0 <= i < d.tools@.len() && (#[trigger] d.tools@[i]).name_view() == name
                ==> d.invocation(name, query) == d.tools@[i].invocation(query),
        !tool_names(d.tools@).contains(name) ==> d.invocation(name, query) is Reply,
{
    lemma_find_tool(d.tools@, name);
    assert forall|i: int|
        0 <= i < d.tools@.len() && (#[trigger] d.tools@[i]).name_view() == name implies d.invocation(
        name,
        query,
    ) == d.tools@[i].invocation(query) by {
        let k = choose|k: int|
            0 <= k < d.tools@.len() && d.tools@[k].name_view() == name && find_tool(d.tools@, name)
                == Some(d.tools@[k]);
        if k < i {
            lemma_not_before_itself(name);
        } else if i < k {
            lemma_not_before_itself(name);
        }
    }
    if find_tool(d.tools@, name) is Some {
        let k = choose|k: int|
            0 <= k < d.tools@.len() && d.tools@[k].name_view() == name && find_tool(d.tools@, name)
                == Some(d.tools@[k]);
        assert(tool_names(d.tools@)[k] == name);
    }
}

/// No text comes before itself.
proof fn lemma_not_before_itself(a: Seq<char>)
    ensures
        !text_before(a, a),
    decreases a.len(),
{
    if a.len() > 0 {
        lemma_not_before_itself(a.drop_first());
    }
}

/// What `find_tool` finds is a tool of that name; where it finds none there is none.
proof fn lemma_find_tool(tools: Seq<Tool>, name: Seq<char>)
    ensures
        match find_tool(tools, name) {
            Some(tool) => exists|k: int|
                0 <= k < tools.len() && (#[trigger] tools[k]).name_view() == name && tool == tools[k],
            None => forall|k: int| 0 <= k < tools.len() ==> (#[trigger] tools[k]).name_view() != name,
        },
    decreases tools.len(),
{
    if tools.len() > 0 && tools[0].name_view() != name {
        let rest = tools.drop_first();
        lemma_find_tool(rest, name);
        match find_tool(rest, name) {
            Some(tool) => {
                let k = choose|k: int|
                    0 <= k < rest.len() && (#[trigger] rest[k]).name_view() == name && tool
                        == rest[k];
                assert(tools[k + 1].name_view() == name);
            },
            None => {
                assert forall|k: int| 0 <= k < tools.len() implies (#[trigger] tools[k]).name_view()
                    != name by {
                    if k > 0 {
                        assert(rest[k - 1].name_view() != name);
                    }
                }
            },
        }
    }
}

/// A file is read only where its path could be resolved and lies below an allowed directory, or is
/// one.
pub proof fn law_only_allowed_files_are_read(
    tool: ReadFileTool,
    path: Seq<char>,
    resolved: Result<Seq<Seq<u8>>, Seq<char>>,
    allowed: Seq<Option<Components>>,
)
    ensures
        tool.admission(path, resolved, allowed) is Read <==> (resolved matches Ok(place)
            && permitted(place, allowed)),
{
}

/// No more than 4000 characters of a file are handed out, and they are its first.
pub proof fn law_file_text_is_capped(t: Seq<char>)
    ensures
        ReadFileTool::file_text(Ok(t)).len() <= MAX_FILE_CHARS,
        ReadFileTool::file_text(Ok(t)).is_prefix_of(t),
        t.len() <= MAX_FILE_CHARS ==> ReadFileTool::file_text(Ok(t)) == t,
{
    if t.len() > MAX_FILE_CHARS {
        assert(t.take(MAX_FILE_CHARS as int) =~= t.subrange(0, MAX_FILE_CHARS as int));
    } else {
        assert(t =~= t.subrange(0, t.len() as int));
    }
}

/// Search results are told one to a line, each by its title and its address, the first three in their
/// order; that there are none is told only where there are none.
pub proof fn law_results_are_told_in_order(
    data: JsonView,
    results: Seq<JsonView>,
    titles: Seq<Seq<char>>,
    urls: Seq<Seq<char>>,
)
    requires
        data.at("results"@) == JsonView::Array(results),
        titles.len() == results.len(),
        urls.len() == results.len(),
        forall|i: int|
            0 <= i < results.len() ==> titles[i] == (match (#[trigger] results[i]).at("title"@) {
                JsonView::Text(t) => t,
                _ => "(no title)"@,
            }) && urls[i] == (match results[i].at("url"@) {
                JsonView::Text(t) => t,
                _ => ""@,
            }),
    ensures
        ({
            let told = results_text(data);
            let line = |i: int| "• "@ + titles[i] + " — "@ + urls[i];
            &&& results.len() == 0 <==> told == "(no results)"@
            &&& results.len() == 1 ==> told == line(0)
            &&& results.len() == 2 ==> told == line(0) + "\n"@ + line(1)
            &&& results.len() >= 3 ==> told == line(0) + "\n"@ + line(1) + "\n"@ + line(2)
        }),
{
    let lines = bullets(results);
    reveal_with_fuel(joined, 4);
    reveal_strlit("(no results)");
    reveal_strlit("• ");
    if results.len() > 0 {
        assert(lines[0] == bullet(results[0]));
        assert(lines[0][0] == '•');
        if results.len() >= 2 {
            assert(lines[1] == bullet(results[1]));
            assert(lines.take(2).drop_last() =~= seq![lines[0]]);
        }
        if results.len() == 2 {
            assert(lines.drop_last() =~= seq![lines[0]]);
        }
        if results.len() >= 3 {
            assert(lines[2] == bullet(results[2]));
            assert(lines.drop_last() =~= seq![lines[0], lines[1]]);
            assert(seq![lines[0], lines[1]].drop_last() =~= seq![lines[0]]);
        }
        assert(results_text(data)[0] == '•');
    }
}

/// Where the search service names no list of results, there are none.
pub proof fn law_no_list_is_no_results(data: JsonView)
    requires
        !(data.at("results"@) is Array),
    ensures
        results_text(data) == "(no results)"@,
{
}

/// What a search gives names the query and then tells the results; where there is no answer that can
/// be read it tells what went wrong.
pub proof fn law_search_tells_what_came(query: Seq<char>, reply: ReplyView, data: JsonView, e: Seq<char>)
    ensures
        reply.json() == Some(data) ==> search_text(query, reply) == "[web_search results for "@
            + quoted(query) + "]\n"@ + results_text(data),
        reply == ReplyView::Failed(e) ==> search_text(query, reply) == "[web_search error: "@ + e + "]"@,
        reply is Answered && reply.json() is None ==> "[web_search parse error: "@.is_prefix_of(
            search_text(query, reply),
        ),
{
    if reply is Answered && reply.json() is None {
        let told = search_text(query, reply);
        let head = "[web_search parse error: "@;
        assert(head =~= told.subrange(0, head.len() as int));
    }
}

/// A call with JSON arguments hands over the text in `query`; without one the text in `path`; without
/// either the first text in the object. Only arguments without any text are handed over as JSON.
pub proof fn law_text_argument_is_handed_over(args: JsonView, t: Seq<char>)
    ensures
        args.at("query"@) == JsonView::Text(t) ==> primary_arg(args) == t,
        !(args.at("query"@) is Text) && args.at("path"@) == JsonView::Text(t) ==> primary_arg(args)
            == t,
        (args matches JsonView::Object(fields) && !(args.at("query"@) is Text) && !(args.at("path"@)
            is Text)) ==> forall|i: int|
            0 <= i < args->Object_0.len() && (#[trigger] args->Object_0[i]).1 == JsonView::Text(t)
                && (forall|j: int| 0 <= j < i ==> !((#[trigger] args->Object_0[j]).1 is Text))
                ==> primary_arg(args) == t,
        (args matches JsonView::Object(fields) ==> forall|j: int|
            0 <= j < fields.len() ==> !((#[trigger] fields[j]).1 is Text)) && !(args.at("query"@)
            is Text) && !(args.at("path"@) is Text) ==> primary_arg(args) == json_text(
            value_of(args),
        ),
{
    if let JsonView::Object(fields) = args {
        lemma_first_text(fields);
    }
}

/// The first text is a text with none before it; where there is no first text there is none.
proof fn lemma_first_text(fields: Seq<(Seq<char>, JsonView)>)
    ensures
        forall|i: int|
            0 <= i < fields.len() && (#[trigger] fields[i]).1 is Text && (forall|j: int|
                0 <= j < i ==> !((#[trigger] fields[j]).1 is Text)) ==> first_text(fields) == Some(
                fields[i].1->Text_0,
            ),
        (forall|j: int| 0 <= j < fields.len() ==> !((#[trigger] fields[j]).1 is Text))
            ==> first_text(fields) is None,
    decreases fields.len(),
{
    if fields.len() > 0 {
        let rest = fields.drop_first();
        lemma_first_text(rest);
        assert forall|i: int|
            0 <= i < fields.len() && (#[trigger] fields[i]).1 is Text && (forall|j: int|
                0 <= j < i ==> !((#[trigger] fields[j]).1 is Text)) implies first_text(fields)
            == Some(fields[i].1->Text_0) by {
            if i > 0 {
                assert(!(fields[0].1 is Text));
                assert(rest[i - 1] == fields[i]);
                assert forall|j: int| 0 <= j < i - 1 implies !((#[trigger] rest[j]).1 is Text) by {
                    assert(rest[j] == fields[j + 1]);
                }
            }
        }
        if forall|j: int| 0 <= j < fields.len() ==> !((#[trigger] fields[j]).1 is Text) {
            assert(!(fields[0].1 is Text));
            assert forall|j: int| 0 <= j < rest.len() implies !((#[trigger] rest[j]).1 is Text) by {
                assert(rest[j] == fields[j + 1]);
            }
        }
    }
}

/// A path may be read exactly where it begins with all the components of a directory that is allowed;
/// a directory that could not be resolved allows nothing.
pub proof fn law_a_path_is_read_below_an_allowed_directory(
    tool: ReadFileTool,
    path: Seq<char>,
    place: Seq<Seq<u8>>,
    allowed: Seq<Option<Components>>,
)
    ensures
        tool.admission(path, Ok(place), allowed) is Read <==> exists|i: int|
            0 <= i < allowed.len() && #[trigger] allowed[i] is Some && allowed[i]->0@.len()
                <= place.len() && forall|k: int|
                0 <= k < allowed[i]->0@.len() ==> (#[trigger] allowed[i]->0@[k])@ == place[k],
        forall|e: Seq<char>|
            #![trigger tool.admission(path, Err(e), allowed)]
            tool.admission(path, Err(e), allowed) is Refused,
{
    assert forall|i: int| 0 <= i < allowed.len() && #[trigger] allowed[i] is Some implies (
    components_view(allowed[i]->0).is_prefix_of(place) <==> allowed[i]->0@.len() <= place.len()
        && forall|k: int|
        0 <= k < allowed[i]->0@.len() ==> (#[trigger] allowed[i]->0@[k])@ == place[k]) by {
        let dir = components_view(allowed[i]->0);
        if dir.is_prefix_of(place) {
            assert forall|k: int| 0 <= k < allowed[i]->0@.len() implies (
            #[trigger] allowed[i]->0@[k])@ == place[k] by {
                assert(dir[k] == place.subrange(0, dir.len() as int)[k]);
            }
        }
        if dir.len() <= place.len() && (forall|k: int|
            0 <= k < allowed[i]->0@.len() ==> (#[trigger] allowed[i]->0@[k])@ == place[k]) {
            assert(dir =~= place.subrange(0, dir.len() as int));
        }
    }
}

/// A file of up to 4000 characters is handed out whole, and of a longer one the first 4000.
pub proof fn law_four_thousand_characters_are_handed_out(t: Seq<char>, e: Seq<char>)
    ensures
        t.len() <= 4000 ==> ReadFileTool::file_text(Ok(t)) == t,
        t.len() > 4000 ==> ReadFileTool::file_text(Ok(t)).len() == 4000 && forall|i: int|
            0 <= i < 4000 ==> #[trigger] ReadFileTool::file_text(Ok(t))[i] == t[i],
        ReadFileTool::file_text(Err(e)) == "[read_file error: "@ + e + "]"@,
{
}

/// A search asks the service for the query as it stands; a file is asked for by its path without the
/// white space around it, and each allowed directory stands between the commas of their list.
pub proof fn law_calls_ask_for_the_work_named(
    search: WebSearchTool,
    reader: ReadFileTool,
    query: Seq<char>,
)
    ensures
        search.invocation(query) == (InvocationView::Search { endpoint: search.endpoint@, query }),
        reader.invocation(query) matches InvocationView::Read { path, allowed } && path == trimmed(
            query,
        ) && allowed.len() == split_on(reader.allowed_paths@, ',').len() && forall|i: int|
            0 <= i < allowed.len() ==> #[trigger] allowed[i] == trimmed(
                split_on(reader.allowed_paths@, ',')[i],
            ),
{
}

/// The description of a tool names it, says what it does and what it takes; each tool takes one text,
/// which it cannot do without.
pub proof fn law_definition_describes_the_tool(tool: Tool, name: Seq<char>, about: Seq<char>)
    ensures
        definition(tool).at("type"@) == JsonView::Text("function"@),
        definition(tool).at("function"@).at("name"@) == JsonView::Text(tool.name_view()),
        definition(tool).at("function"@).at("description"@) == JsonView::Text(
            tool.description_view(),
        ),
        definition(tool).at("function"@).at("parameters"@) == tool.schema_view(),
        schema_of(name, about).at("type"@) == JsonView::Text("object"@),
        schema_of(name, about).at("required"@) == JsonView::Array(seq![JsonView::Text(name)]),
        schema_of(name, about).at("properties"@).at(name).at("type"@) == JsonView::Text("string"@),
        schema_of(name, about).at("properties"@).at(name).at("description"@) == JsonView::Text(
            about,
        ),
        tool is WebSearch ==> tool.name_view() == "web_search"@ && tool.schema_view().at(
            "required"@,
        ) == JsonView::Array(seq![JsonView::Text("query"@)]),
        tool is ReadFile ==> tool.name_view() == "read_file"@ && tool.schema_view().at(
            "required"@,
        ) == JsonView::Array(seq![JsonView::Text("path"@)]),
{
    reveal_with_fuel(lookup, 4);
    reveal_strlit("function");
    reveal_strlit("type");
    reveal_strlit("description");
    reveal_strlit("name");
    reveal_strlit("parameters");
    reveal_strlit("properties");
    reveal_strlit("required");
    assert("description"@[0] == 'd' && "name"@[0] == 'n' && "parameters"@[0] == 'p' && "function"@[0]
        == 'f' && "type"@[0] == 't' && "required"@[0] == 'r' && "properties"@[0] == 'p');
}

/// A call of a name that no tool has is answered with the name and with the names of all tools.
pub proof fn law_unknown_tools_are_told(d: ToolDispatcher, name: Seq<char>, query: Seq<char>)
    requires
        forall|i: int| 0 <= i < d.tools@.len() ==> (#[trigger] d.tools@[i]).name_view() != name,
    ensures
        d.invocation(name, query) == InvocationView::Reply(
            "[Tool '"@ + name + "' not registered — available: "@ + joined(
                Seq::new(d.tools@.len(), |i: int| d.tools@[i].name_view()),
                ", "@,
            ) + "]"@,
        ),
{
    lemma_find_tool(d.tools@, name);
}

/// The directories that files may be read from are those that are named; where none are, the shared
/// directory and the documents below the home directory.
pub proof fn law_allowed_directories(env: ToolEnv)
    ensures
        env.allowed_paths matches Some(paths) ==> ToolDispatcher::allowed_paths_of(env) == paths@,
        env.allowed_paths is None && env.home is Some ==> ToolDispatcher::allowed_paths_of(env)
            == env.home->0@ + "/.et_modules,"@ + env.home->0@ + "/docs"@,
        env.allowed_paths is None && env.home is None ==> ToolDispatcher::allowed_paths_of(env)
            == "/.et_modules,"@ + "/docs"@,
{
    reveal_strlit("");
    assert(""@ + "/.et_modules,"@ + ""@ + "/docs"@ =~= "/.et_modules,"@ + "/docs"@);
}

/// Each tool says what it does.
pub proof fn law_tools_say_what_they_do(search: WebSearchTool, reader: ReadFileTool)
    ensures
        search.description_view() == "Search the web for current information via SearXNG."@,
        search.schema_view() == schema_of("query"@, "The search query"@),
        reader.description_view()
            == "Read a file from the allowed filesystem paths (up to 4000 characters)."@,
        reader.schema_view() == schema_of(
            "path"@,
            "Absolute file path (must be within allowed paths)"@,
        ),
{
}

/// What is said of a path that is not read names the path, and either what went wrong or the
/// directories that are allowed.
pub proof fn law_refusal_says_why(
    tool: ReadFileTool,
    path: Seq<char>,
    place: Seq<Seq<u8>>,
    e: Seq<char>,
    allowed: Seq<Option<Components>>,
)
    ensures
        tool.admission(path, Err(e), allowed) == AdmissionView::Refused(
            "[read_file: cannot resolve path '"@ + path + "': "@ + e + "]"@,
        ),
        tool.admission(path, Ok(place), allowed) is Refused ==> tool.admission(
            path,
            Ok(place),
            allowed,
        ) == AdmissionView::Refused(
            "[read_file: path '"@ + path + "' not in allowed list — allowed prefixes: "@
                + tool.allowed_paths@ + "]"@,
        ),
{
}

} // verus!
