//! JSONL control-message types carried in frame payloads (their serde form lives
//! with the application).

use vstd::prelude::*;
use crate::registry::Entry;
use crate::text::str_eq;

verus! {

#[derive(Debug, Clone)]
pub struct NodeObject {
    pub kind: String,
    pub id: String,
    pub label: String,
}

#[derive(Debug, Clone)]
pub struct NodeEntry {
    pub node_id: String,
    pub numeric_id: u8,
    pub label: String,
    pub roles: u64,
    pub status: String,
    pub objects: Vec<NodeObject>,
}

/// Messages for SVC_NODE (control plane on stream 0).
#[derive(Debug, Clone)]
pub enum NodeMsg {
    NodeList { nodes: Vec<NodeEntry>, entries: Vec<Entry> },
    NodeAssigned { node_id: u8 },
    ResourceCreated { resource_type: String, name: String, resource_id: String },
    Ping,
    Pong,
    /// Request: which node provides this service?
    ResolveService { service: u8 },
    /// Response: the node that provides the service, with its full endpoint.
    ServiceResolved { service: u8, node_id: u8, endpoint: u16 },
    /// The service is not available on any node.
    ServiceNotFound { service: u8 },
}

/// An inline attachment extracted from a fenced block in user input.
#[derive(Debug, Clone)]
pub struct Attachment {
    /// The fence language tag (e.g. "rust", "json", "md", "").
    pub fence: String,
    /// The content body.
    pub content: String,
}

/// The MIME type of a fence language tag.
pub open spec fn mime_of(fence: Seq<char>) -> Seq<char> {
    if fence == ""@ || fence == "md"@ || fence == "markdown"@ {
        "text/markdown"@
    } else if fence == "json"@ {
        "application/json"@
    } else if fence == "yaml"@ || fence == "yml"@ {
        "text/yaml"@
    } else if fence == "toml"@ {
        "text/toml"@
    } else if fence == "rs"@ || fence == "rust"@ {
        "text/x-rust"@
    } else if fence == "py"@ || fence == "python"@ {
        "text/x-python"@
    } else if fence == "c"@ || fence == "cpp"@ || fence == "h"@ {
        "text/x-c"@
    } else if fence == "sh"@ || fence == "bash"@ || fence == "zsh"@ {
        "text/x-shellscript"@
    } else if fence == "js"@ || fence == "ts"@ {
        "text/javascript"@
    } else if fence == "html"@ {
        "text/html"@
    } else if fence == "css"@ {
        "text/css"@
    } else if fence == "sql"@ {
        "text/x-sql"@
    } else if fence == "xml"@ {
        "text/xml"@
    } else if fence == "csv"@ {
        "text/csv"@
    } else {
        "text/plain"@
    }
}

/// Whether a fence marks markdown, the only kind safe to write as a file.
pub open spec fn is_markdown(fence: Seq<char>) -> bool {
    fence == ""@ || fence == "md"@ || fence == "markdown"@
}

/// The MIME type of each fence tag: markdown for "", "md" and "markdown"; JSON, YAML,
/// TOML, Rust, Python, C, shell, JavaScript, HTML, CSS, SQL, XML and CSV for their
/// tags and aliases; plain text for any other tag. Only the markdown tags are writable.
pub proof fn lemma_mime_by_fence()
    ensures
        mime_of(""@) == "text/markdown"@,
        mime_of("md"@) == "text/markdown"@,
        mime_of("markdown"@) == "text/markdown"@,
        mime_of("json"@) == "application/json"@,
        mime_of("yaml"@) == "text/yaml"@,
        mime_of("yml"@) == "text/yaml"@,
        mime_of("toml"@) == "text/toml"@,
        mime_of("rs"@) == "text/x-rust"@,
        mime_of("rust"@) == "text/x-rust"@,
        mime_of("py"@) == "text/x-python"@,
        mime_of("python"@) == "text/x-python"@,
        mime_of("c"@) == "text/x-c"@,
        mime_of("cpp"@) == "text/x-c"@,
        mime_of("h"@) == "text/x-c"@,
        mime_of("sh"@) == "text/x-shellscript"@,
        mime_of("bash"@) == "text/x-shellscript"@,
        mime_of("zsh"@) == "text/x-shellscript"@,
        mime_of("js"@) == "text/javascript"@,
        mime_of("ts"@) == "text/javascript"@,
        mime_of("html"@) == "text/html"@,
        mime_of("css"@) == "text/css"@,
        mime_of("sql"@) == "text/x-sql"@,
        mime_of("xml"@) == "text/xml"@,
        mime_of("csv"@) == "text/csv"@,
        mime_of("txt"@) == "text/plain"@,
        mime_of("go"@) == "text/plain"@,
        is_markdown(""@) && is_markdown("md"@) && is_markdown("markdown"@),
        !is_markdown("rs"@) && !is_markdown("json"@) && !is_markdown("txt"@),
{
    reveal_strlit("");
    assert(""@ =~= Seq::<char>::empty());
    reveal_strlit("md");
    assert("md"@ =~= seq!['m', 'd']);
    reveal_strlit("markdown");
    assert("markdown"@ =~= seq!['m', 'a', 'r', 'k', 'd', 'o', 'w', 'n']);
    reveal_strlit("json");
    assert("json"@ =~= seq!['j', 's', 'o', 'n']);
    reveal_strlit("yaml");
    assert("yaml"@ =~= seq!['y', 'a', 'm', 'l']);
    reveal_strlit("yml");
    assert("yml"@ =~= seq!['y', 'm', 'l']);
    reveal_strlit("toml");
    assert("toml"@ =~= seq!['t', 'o', 'm', 'l']);
    reveal_strlit("rs");
    assert("rs"@ =~= seq!['r', 's']);
    reveal_strlit("rust");
    assert("rust"@ =~= seq!['r', 'u', 's', 't']);
    reveal_strlit("py");
    assert("py"@ =~= seq!['p', 'y']);
    reveal_strlit("python");
    assert("python"@ =~= seq!['p', 'y', 't', 'h', 'o', 'n']);
    reveal_strlit("c");
    assert("c"@ =~= seq!['c']);
    reveal_strlit("cpp");
    assert("cpp"@ =~= seq!['c', 'p', 'p']);
    reveal_strlit("h");
    assert("h"@ =~= seq!['h']);
    reveal_strlit("sh");
    assert("sh"@ =~= seq!['s', 'h']);
    reveal_strlit("bash");
    assert("bash"@ =~= seq!['b', 'a', 's', 'h']);
    reveal_strlit("zsh");
    assert("zsh"@ =~= seq!['z', 's', 'h']);
    reveal_strlit("js");
    assert("js"@ =~= seq!['j', 's']);
    reveal_strlit("ts");
    assert("ts"@ =~= seq!['t', 's']);
    reveal_strlit("html");
    assert("html"@ =~= seq!['h', 't', 'm', 'l']);
    reveal_strlit("css");
    assert("css"@ =~= seq!['c', 's', 's']);
    reveal_strlit("sql");
    assert("sql"@ =~= seq!['s', 'q', 'l']);
    reveal_strlit("xml");
    assert("xml"@ =~= seq!['x', 'm', 'l']);
    reveal_strlit("csv");
    assert("csv"@ =~= seq!['c', 's', 'v']);
    reveal_strlit("txt");
    assert("txt"@ =~= seq!['t', 'x', 't']);
    reveal_strlit("go");
    assert("go"@ =~= seq!['g', 'o']);
}

impl Attachment {
    pub fn new(fence: &str, content: String) -> (r: Attachment)
        ensures
            r.fence@ == fence@,
            r.content == content,
    {
        Attachment { fence: fence.to_owned(), content }
    }

    /// The MIME type derived from the fence language tag.
    pub fn mime(&self) -> (r: &str)
        ensures
            r@ == mime_of(self.fence@),
    {
        let f = self.fence.as_str();
        if str_eq(f, "") || str_eq(f, "md") || str_eq(f, "markdown") {
            "text/markdown"
        } else if str_eq(f, "json") {
            "application/json"
        } else if str_eq(f, "yaml") || str_eq(f, "yml") {
            "text/yaml"
        } else if str_eq(f, "toml") {
            "text/toml"
        } else if str_eq(f, "rs") || str_eq(f, "rust") {
            "text/x-rust"
        } else if str_eq(f, "py") || str_eq(f, "python") {
            "text/x-python"
        } else if str_eq(f, "c") || str_eq(f, "cpp") || str_eq(f, "h") {
            "text/x-c"
        } else if str_eq(f, "sh") || str_eq(f, "bash") || str_eq(f, "zsh") {
            "text/x-shellscript"
        } else if str_eq(f, "js") || str_eq(f, "ts") {
            "text/javascript"
        } else if str_eq(f, "html") {
            "text/html"
        } else if str_eq(f, "css") {
            "text/css"
        } else if str_eq(f, "sql") {
            "text/x-sql"
        } else if str_eq(f, "xml") {
            "text/xml"
        } else if str_eq(f, "csv") {
            "text/csv"
        } else {
            "text/plain"
        }
    }

    /// Whether this attachment is safe to write as a file (markdown only).
    pub fn is_writable(&self) -> (r: bool)
        ensures
            r == is_markdown(self.fence@),
    {
        let f = self.fence.as_str();
        str_eq(f, "") || str_eq(f, "md") || str_eq(f, "markdown")
    }
}

/// Messages for SVC_PROCESS_ENGINE.
#[derive(Debug, Clone)]
pub enum ProcessMsg {
    /// `interactive`: the caller wants the terminal opened immediately; otherwise the
    /// task runs headless.
    TaskDispatch { task_type: String, project_id: String, prompt: String, attachments: Vec<Attachment>, interactive: bool },
    SubmitTicket { project_id: String, prompt: String, branch: String, attachments: Vec<Attachment> },
    /// Create a new empty project in the writeable projects directory.
    CreateProject { name: String },
    /// Generate a plan with a coder agent, without executing it.
    PlanTask { project_id: String, prompt: String },
    /// Refine the current plan.
    RefinePlan { project_id: String, prompt: String },
    /// Execute the current plan.
    ExecutePlan { project_id: String, yolo: bool, resume_session: Option<String> },
    /// Request the current screen text of a running process.
    GetScreen { task_id: String, max_lines: u16 },
    /// Screen text response.
    ScreenText { task_id: String, lines: Vec<String> },
    /// Subscribe to line-by-line output of a task.
    WatchTask { task_id: String },
    /// Incremental line output.
    LineOutput { task_id: String, line_no: u32, text: String },
    ProcessDirective { task_id: String, directive: String },
    Dump { what: String },
    StreamOpen { task_id: String, stream_id: u32, rows: u16, cols: u16 },
    /// `interactive` echoes the triggering dispatch's flag.
    TaskResult { task_id: String, project: String, agent: String, status: String, output: String, interactive: bool },
    Error { message: String },
}

/// Messages for SVC_SKILLS.
#[derive(Debug, Clone)]
pub enum SkillMsg {
    /// Enumerate all skills; the reply is a `SkillListReply`.
    List,
    SkillListReply { skills: Vec<SkillMetaWire> },
    /// Dispatch a skill by name with string parameters.
    Dispatch { skill_name: String, params: Vec<(String, String)> },
    /// Initial acknowledgement and final result (status "running" / "complete" / "error").
    TaskResult { task_id: String, skill_name: String, status: String, output: String },
    /// Best-effort cancel.
    Cancel { task_id: String },
    Error { message: String },
}

/// Wire shape of skill metadata.
#[derive(Debug, Clone)]
pub struct SkillMetaWire {
    pub name: String,
    pub description: String,
    pub param_names: Vec<String>,
    pub triggers: Vec<String>,
    pub cron_interval_ms: u64,
}

} // verus!
