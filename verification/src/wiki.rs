//! The wiki: pages discovered under wiki roots, the page list injected into the
//! system prompt, and the prompts and results of wiki compression.
use vstd::prelude::*;
use crate::paths::{join_path, spec_join, spec_extension, extension, relative_to, spec_relative_to, lemma_relative_rejoins};
use crate::workspace::{after_last, after_last_char};
use crate::text::{owned, concat2, concat3, str_eq};
use crate::yaml_agent::{ToolKind, ToolRegistry};

verus! {

broadcast use vstd::seq_lib::group_seq_properties;

/// A wiki page discovered from the filesystem.
#[derive(Debug)]
pub struct WikiPage {
    /// Path of the page relative to its wiki root.
    pub path: String,
    /// Title from the page's frontmatter (the file name when it has none).
    pub title: String,
    /// Tags from the page's frontmatter.
    pub tags: Vec<String>,
    /// Absolute path of the file.
    pub absolute_path: String,
}

/// Copies of the strings of `v`.
fn clone_strings(v: &Vec<String>) -> (r: Vec<String>)
    ensures
        r@ == v@,
{
    let mut r: Vec<String> = Vec::new();
    let mut i: usize = 0;
    while i < v.len()
        invariant
            i <= v@.len(),
            r@ == v@.take(i as int),
        decreases v.len() - i,
    {
        r.push(v[i].clone());
        assert(r@ =~= v@.take(i + 1));
        i = i + 1;
    }
    assert(v@.take(v@.len() as int) =~= v@);
    r
}

impl Clone for WikiPage {
    fn clone(&self) -> (r: Self)
        ensures
            page_view(r) == page_view(*self),
    {
        WikiPage {
            path: self.path.clone(),
            title: self.title.clone(),
            tags: clone_strings(&self.tags),
            absolute_path: self.absolute_path.clone(),
        }
    }
}

/// Result of a wiki compression.
#[derive(Debug)]
pub struct WikiCompressResult {
    pub pages_created: Vec<String>,
    pub pages_updated: Vec<String>,
    pub summary: String,
}

/// The compression result for the wiki files found after a run: every file counts
/// as created and as updated, and the agent's answer is the summary.
pub fn compress_result(files: Vec<String>, summary: String) -> (r: WikiCompressResult)
    ensures
        r.pages_created@ == files@,
        r.pages_updated@ == files@,
        r.summary == summary,
{
    let created = clone_strings(&files);
    WikiCompressResult { pages_created: created, pages_updated: files, summary }
}

/// Wiki agent settings (the LLM client itself is supplied separately).
#[derive(Debug)]
pub struct WikiAgentConfig {
    /// Agent identifier.
    pub agent_id: String,
    /// LLM provider id used when the LLM is created from the environment.
    pub llm_provider_id: String,
    /// Maximum reasoning iterations.
    pub max_iterations: u32,
    /// Working directory; wiki pages live under it.
    pub working_dir: String,
}

impl Default for WikiAgentConfig {
    fn default() -> (c: Self)
        ensures
            c.agent_id@ == "wiki-agent"@,
            c.llm_provider_id@ == "anthropic-main"@,
            c.max_iterations == 15,
            c.working_dir@ == "."@,
    {
        WikiAgentConfig {
            agent_id: owned("wiki-agent"),
            llm_provider_id: owned("anthropic-main"),
            max_iterations: 15,
            working_dir: owned("."),
        }
    }
}

/// Wiki agent errors.
#[derive(Debug)]
pub enum WikiAgentError {
    Agent(String),
    Tool(String),
    Io(String),
    Config(String),
    CompressionFailed(String),
}

/// The message an error displays.
pub open spec fn wiki_error_message(e: WikiAgentError) -> Seq<char> {
    match e {
        WikiAgentError::Agent(m) => "Agent error: "@ + m@,
        WikiAgentError::Tool(m) => "Tool error: "@ + m@,
        WikiAgentError::Io(m) => "IO error: "@ + m@,
        WikiAgentError::Config(m) => "Configuration error: "@ + m@,
        WikiAgentError::CompressionFailed(m) => "Compression failed: "@ + m@,
    }
}

impl WikiAgentError {
    /// The message this error displays.
    pub fn message(&self) -> (s: String)
        ensures
            s@ == wiki_error_message(*self),
    {
        match self {
            WikiAgentError::Agent(m) => concat2("Agent error: ", m.as_str()),
            WikiAgentError::Tool(m) => concat2("Tool error: ", m.as_str()),
            WikiAgentError::Io(m) => concat2("IO error: ", m.as_str()),
            WikiAgentError::Config(m) => concat2("Configuration error: ", m.as_str()),
            WikiAgentError::CompressionFailed(m) => concat2("Compression failed: ", m.as_str()),
        }
    }
}

/// Where the wiki agent's LLM comes from.
#[derive(Debug)]
pub enum LlmChoice {
    /// The client given in the configuration.
    Provided,
    /// A provider created from the environment's token.
    FromEnv { id: String, model: String, base_url: String, api_key: String },
}

/// Resolve the wiki agent's LLM: the client given in the configuration when there is
/// one, else a provider built from the token (`ANTHROPIC_AUTH_TOKEN`), else an error.
pub fn resolve_llm(config: &WikiAgentConfig, has_client: bool, token: Option<String>) -> (r: Result<LlmChoice, WikiAgentError>)
    ensures
        has_client ==> r matches Ok(LlmChoice::Provided),
        !has_client ==> match token {
            None => (r matches Err(WikiAgentError::Config(m))
                && m@ == "ANTHROPIC_AUTH_TOKEN not set and no LLM client provided"@),
            Some(t) => (r matches Ok(LlmChoice::FromEnv { id, model, base_url, api_key }) && {
                &&& id@ == config.llm_provider_id@
                &&& model@ == "qwen3.5-plus"@
                &&& base_url@ == "https://coding.dashscope.aliyuncs.com/apps/anthropic"@
                &&& api_key == t
            }),
        },
{
    if has_client {
        return Ok(LlmChoice::Provided);
    }
    match token {
        None => Err(WikiAgentError::Config(owned("ANTHROPIC_AUTH_TOKEN not set and no LLM client provided"))),
        Some(t) => Ok(LlmChoice::FromEnv {
            id: owned(config.llm_provider_id.as_str()),
            model: owned("qwen3.5-plus"),
            base_url: owned("https://coding.dashscope.aliyuncs.com/apps/anthropic"),
            api_key: t,
        }),
    }
}

/// The tools of the wiki agent: read, write, edit, glob and grep.
pub fn wiki_tools() -> (r: ToolRegistry)
    ensures
        r.tools@ == seq![ToolKind::Read, ToolKind::Write, ToolKind::Edit, ToolKind::Glob, ToolKind::Grep],
{
    let mut r = ToolRegistry::new();
    r.tools.push(ToolKind::Read);
    r.tools.push(ToolKind::Write);
    r.tools.push(ToolKind::Edit);
    r.tools.push(ToolKind::Glob);
    r.tools.push(ToolKind::Grep);
    assert(r.tools@ =~= seq![ToolKind::Read, ToolKind::Write, ToolKind::Edit, ToolKind::Glob, ToolKind::Grep]);
    r
}

/// The wiki directory the agent maintains: `{working_dir}/.agents/wikis`, the
/// working directory's wiki root.
pub open spec fn spec_wiki_dir(working_dir: Seq<char>) -> Seq<char> {
    spec_join(spec_join(working_dir, ".agents"@), "wikis"@)
}

/// The wiki directory the agent maintains.
pub fn wiki_dir(working_dir: &str) -> (r: String)
    ensures
        r@ == spec_wiki_dir(working_dir@),
{
    let d = join_path(working_dir, ".agents");
    join_path(d.as_str(), "wikis")
}

/// A wiki root: `{base}/.agents/wikis`.
pub open spec fn spec_wiki_root(base: Seq<char>) -> Seq<char> {
    spec_join(spec_join(base, ".agents"@), "wikis"@)
}

fn wiki_root(base: &str) -> (r: String)
    ensures
        r@ == spec_wiki_root(base@),
{
    let d = join_path(base, ".agents");
    join_path(d.as_str(), "wikis")
}

/// Whether a file name is a Markdown page (extension `md`).
pub fn is_markdown(file_name: &str) -> (r: bool)
    ensures
        r == (spec_extension(file_name@) == Some("md"@)),
{
    match extension(file_name) {
        Some(e) => str_eq(e.as_str(), "md"),
        None => false,
    }
}

/// Opening of the wiki agent's system prompt, before the wiki directory.
pub open spec fn prompt_head() -> Seq<char> {
    "你是一个知识管理 agent。你的任务是分析一段对话记录，从中提取有价值的信息，\n维护一个位于 "@
}

/// The rest of the wiki agent's system prompt, after the wiki directory.
pub open spec fn prompt_tail() -> Seq<char> {
    " 的知识 Wiki。\n\n请：\n1. 分析对话，提取实体、概念、决策、待办等信息\n2. 创建或更新 wiki 页面（使用 write/edit 工具）\n3. 更新 INDEX.md 保持目录更新\n4. 页面之间保持互相链接（使用相对路径）\n\n规则：\n- 页面是纯 Markdown 格式\n- 每个页面顶部包含 frontmatter: title, tags, updated_at\n- 不要写重复的页面，检查已有页面是否需要更新\n- INDEX.md 应该包含所有页面的标题和简要描述"@
}

/// The wiki agent's system prompt for the wiki at `wiki_dir`.
pub fn system_prompt(wiki_dir: &str) -> (s: String)
    ensures
        s@ == prompt_head() + wiki_dir@ + prompt_tail(),
{
    concat3(
        "你是一个知识管理 agent。你的任务是分析一段对话记录，从中提取有价值的信息，\n维护一个位于 ",
        wiki_dir,
        " 的知识 Wiki。\n\n请：\n1. 分析对话，提取实体、概念、决策、待办等信息\n2. 创建或更新 wiki 页面（使用 write/edit 工具）\n3. 更新 INDEX.md 保持目录更新\n4. 页面之间保持互相链接（使用相对路径）\n\n规则：\n- 页面是纯 Markdown 格式\n- 每个页面顶部包含 frontmatter: title, tags, updated_at\n- 不要写重复的页面，检查已有页面是否需要更新\n- INDEX.md 应该包含所有页面的标题和简要描述",
    )
}

/// The role of a session message.
#[derive(Clone, Copy, Debug, PartialEq, Eq, Structural)]
pub enum MessageRole {
    User,
    Assistant,
    System,
    Tool,
}

/// A session message to compress: its role and text content.
#[derive(Debug)]
pub struct WikiMessage {
    pub role: MessageRole,
    pub content: Option<String>,
}

/// The label of a role.
pub open spec fn role_label(r: MessageRole) -> Seq<char> {
    match r {
        MessageRole::User => "User"@,
        MessageRole::Assistant => "Assistant"@,
        MessageRole::System => "System"@,
        MessageRole::Tool => "Tool"@,
    }
}

/// A message as text: `[Role] content`, with `(empty)` for no content.
pub open spec fn message_line(m: WikiMessage) -> Seq<char> {
    "["@ + role_label(m.role) + "] "@ + match m.content {
        Some(c) => c@,
        None => "(empty)"@,
    }
}

/// Texts joined with `sep`.
pub open spec fn join_with(xs: Seq<Seq<char>>, sep: Seq<char>) -> Seq<char>
    decreases xs.len(),
{
    if xs.len() == 0 {
        Seq::empty()
    } else if xs.len() == 1 {
        xs[0]
    } else {
        join_with(xs.drop_last(), sep) + sep + xs.last()
    }
}

/// The messages as text, separated by rules.
pub open spec fn spec_messages_text(ms: Seq<WikiMessage>) -> Seq<char> {
    join_with(ms.map_values(|m: WikiMessage| message_line(m)), "\n\n---\n\n"@)
}

fn role_text(r: MessageRole) -> (s: &'static str)
    ensures
        s@ == role_label(r),
{
    match r {
        MessageRole::User => "User",
        MessageRole::Assistant => "Assistant",
        MessageRole::System => "System",
        MessageRole::Tool => "Tool",
    }
}

/// Format the messages of a session for compression.
pub fn messages_text(ms: &Vec<WikiMessage>) -> (s: String)
    ensures
        s@ == spec_messages_text(ms@),
{
    let ghost lines = ms@.map_values(|m: WikiMessage| message_line(m));
    let mut s = String::new();
    let mut i: usize = 0;
    while i < ms.len()
        invariant
            i <= ms@.len(),
            lines == ms@.map_values(|m: WikiMessage| message_line(m)),
            s@ == join_with(lines.take(i as int), "\n\n---\n\n"@),
        decreases ms.len() - i,
    {
        assert(lines.take(i + 1).drop_last() =~= lines.take(i as int));
        if i > 0 {
            s.append("\n\n---\n\n");
        }
        let m = &ms[i];
        s.append("[");
        s.append(role_text(m.role));
        s.append("] ");
        match &m.content {
            Some(c) => s.append(c.as_str()),
            None => s.append("(empty)"),
        }
        proof {
            assert(lines.take(i + 1).last() == message_line(ms@[i as int]));
            if i == 0 {
                assert(s@ =~= join_with(lines.take(i + 1), "\n\n---\n\n"@));
            } else {
                assert(s@ =~= join_with(lines.take(i + 1), "\n\n---\n\n"@));
            }
        }
        i = i + 1;
    }
    assert(lines.take(ms@.len() as int) =~= lines);
    s
}

/// Adding a message to the end of a session adds one line to the messages' text,
/// after a rule when there were messages before it. The line starts with the
/// label of the message's role in brackets: `[User] `, `[Assistant] `,
/// `[System] ` or `[Tool] `, each its own fixed text; then comes the content, or
/// `(empty)` when the message has none.
pub proof fn lemma_message_lines(ms: Seq<WikiMessage>, m: WikiMessage)
    ensures
        m.role == MessageRole::User ==> spec_messages_text(ms.push(m))
            == (if ms.len() == 0 { Seq::<char>::empty() } else { spec_messages_text(ms) + "\n\n---\n\n"@ })
            + "[User] "@ + (match m.content { Some(c) => c@, None => "(empty)"@ }),
        m.role == MessageRole::Assistant ==> spec_messages_text(ms.push(m))
            == (if ms.len() == 0 { Seq::<char>::empty() } else { spec_messages_text(ms) + "\n\n---\n\n"@ })
            + "[Assistant] "@ + (match m.content { Some(c) => c@, None => "(empty)"@ }),
        m.role == MessageRole::System ==> spec_messages_text(ms.push(m))
            == (if ms.len() == 0 { Seq::<char>::empty() } else { spec_messages_text(ms) + "\n\n---\n\n"@ })
            + "[System] "@ + (match m.content { Some(c) => c@, None => "(empty)"@ }),
        m.role == MessageRole::Tool ==> spec_messages_text(ms.push(m))
            == (if ms.len() == 0 { Seq::<char>::empty() } else { spec_messages_text(ms) + "\n\n---\n\n"@ })
            + "[Tool] "@ + (match m.content { Some(c) => c@, None => "(empty)"@ }),
{
    let f = |x: WikiMessage| message_line(x);
    let lines = ms.push(m).map_values(f);
    assert(lines =~= ms.map_values(f).push(message_line(m)));
    assert(lines.drop_last() =~= ms.map_values(f));
    reveal_strlit("[");
    reveal_strlit("] ");
    reveal_strlit("User");
    reveal_strlit("Assistant");
    reveal_strlit("System");
    reveal_strlit("Tool");
    reveal_strlit("[User] ");
    reveal_strlit("[Assistant] ");
    reveal_strlit("[System] ");
    reveal_strlit("[Tool] ");
    assert("["@ + "User"@ + "] "@ =~= "[User] "@);
    assert("["@ + "Assistant"@ + "] "@ =~= "[Assistant] "@);
    assert("["@ + "System"@ + "] "@ =~= "[System] "@);
    assert("["@ + "Tool"@ + "] "@ =~= "[Tool] "@);
    let body = match m.content { Some(c) => c@, None => "(empty)"@ };
    assert(message_line(m) =~= "["@ + role_label(m.role) + "] "@ + body);
    assert("["@ + role_label(m.role) + "] "@ + body =~= ("["@ + role_label(m.role) + "] "@) + body);
    if ms.len() == 0 {
        assert(spec_messages_text(ms.push(m)) == message_line(m));
        assert(Seq::<char>::empty() + ("["@ + role_label(m.role) + "] "@) + body =~= ("["@ + role_label(m.role) + "] "@) + body);
    } else {
        let prev = spec_messages_text(ms);
        assert(spec_messages_text(ms.push(m)) == prev + "\n\n---\n\n"@ + message_line(m));
        assert(prev + "\n\n---\n\n"@ + message_line(m)
            =~= (prev + "\n\n---\n\n"@) + ("["@ + role_label(m.role) + "] "@) + body);
    }
}

/// The compression prompt around the messages' text.
pub open spec fn spec_compress_prompt(text: Seq<char>) -> Seq<char> {
    "以下是需要压缩的对话记录。请分析并更新 wiki 页面。\n\n=== 对话开始 ===\n"@ + text + "\n=== 对话结束 ==="@
}

/// The prompt that asks the agent to compress the given messages into the wiki.
pub fn compress_prompt(ms: &Vec<WikiMessage>) -> (s: String)
    ensures
        s@ == spec_compress_prompt(spec_messages_text(ms@)),
{
    let text = messages_text(ms);
    concat3(
        "以下是需要压缩的对话记录。请分析并更新 wiki 页面。\n\n=== 对话开始 ===\n",
        text.as_str(),
        "\n=== 对话结束 ===",
    )
}

/// One line of the page list: `- Title (path)`, followed by ` [tags]` when the page
/// has tags.
pub open spec fn page_line(p: WikiPage) -> Seq<char> {
    "- "@ + p.title@ + " ("@ + p.path@ + ")"@ + (if p.tags@.len() == 0 {
        Seq::empty()
    } else {
        " ["@ + join_with(p.tags@.map_values(|t: String| t@), ", "@) + "]"@
    }) + "\n"@
}

/// The lines of the page list.
pub open spec fn page_lines(ps: Seq<WikiPage>) -> Seq<char>
    decreases ps.len(),
{
    if ps.len() == 0 {
        Seq::empty()
    } else {
        page_lines(ps.drop_last()) + page_line(ps.last())
    }
}

/// The wiki section of the system prompt: empty without pages, else a heading, the
/// page list and how to use it.
pub open spec fn spec_format_metadata(ps: Seq<WikiPage>) -> Seq<char> {
    if ps.len() == 0 {
        Seq::empty()
    } else {
        "# Wiki\n\nAvailable pages:\n"@ + page_lines(ps)
            + "\nUse the `read` tool to load any page. Use `write`/`edit` to update.\n"@
    }
}

/// Tags joined with `, `.
fn join_tags(tags: &Vec<String>) -> (s: String)
    ensures
        s@ == join_with(tags@.map_values(|t: String| t@), ", "@),
{
    let ghost ts = tags@.map_values(|t: String| t@);
    let mut s = String::new();
    let mut i: usize = 0;
    while i < tags.len()
        invariant
            i <= tags@.len(),
            ts == tags@.map_values(|t: String| t@),
            s@ == join_with(ts.take(i as int), ", "@),
        decreases tags.len() - i,
    {
        assert(ts.take(i + 1).drop_last() =~= ts.take(i as int));
        if i > 0 {
            s.append(", ");
        }
        s.append(tags[i].as_str());
        proof {
            if i == 0 {
                assert(s@ =~= join_with(ts.take(i + 1), ", "@));
            } else {
                assert(s@ =~= join_with(ts.take(i + 1), ", "@));
            }
        }
        i = i + 1;
    }
    assert(ts.take(tags@.len() as int) =~= ts);
    s
}

/// Format the wiki section of the system prompt for `pages`.
pub fn format_metadata(pages: &Vec<WikiPage>) -> (s: String)
    ensures
        s@ == spec_format_metadata(pages@),
{
    if pages.len() == 0 {
        return String::new();
    }
    let mut out = owned("# Wiki\n\nAvailable pages:\n");
    let ghost head = out@;
    let mut i: usize = 0;
    while i < pages.len()
        invariant
            i <= pages@.len(),
            head == "# Wiki\n\nAvailable pages:\n"@,
            out@ == head + page_lines(pages@.take(i as int)),
        decreases pages.len() - i,
    {
        assert(pages@.take(i + 1).drop_last() =~= pages@.take(i as int));
        let p = &pages[i];
        let ghost before = out@;
        out.append("- ");
        out.append(p.title.as_str());
        out.append(" (");
        out.append(p.path.as_str());
        out.append(")");
        if p.tags.len() > 0 {
            out.append(" [");
            let t = join_tags(&p.tags);
            out.append(t.as_str());
            out.append("]");
        }
        out.append("\n");
        proof {
            assert(pages@.take(i + 1).last() == pages@[i as int]);
            assert(out@ =~= before + page_line(pages@[i as int]));
        }
        i = i + 1;
    }
    assert(pages@.take(pages@.len() as int) =~= pages@);
    out.append("\nUse the `read` tool to load any page. Use `write`/`edit` to update.\n");
    out
}

/// What scanning one wiki root gave.
#[derive(Debug)]
pub enum RootScan {
    /// The root does not exist or is not a directory.
    Skipped,
    /// The search pattern for the root was refused, with the reason.
    BadPattern(String),
    /// The root searched, and the Markdown files found under it, in order, each with
    /// its frontmatter (its title, if it has one, and its tags) when that could be
    /// read.
    Found(String, Vec<(String, Option<(Option<String>, Vec<String>)>)>),
}

/// A page as a value: path, title, tags and absolute path.
pub type PageView = (Seq<char>, Seq<char>, Seq<Seq<char>>, Seq<char>);

/// Texts of strings.
pub open spec fn texts(v: Seq<String>) -> Seq<Seq<char>> {
    v.map_values(|t: String| t@)
}

/// The title of a page: its frontmatter's title, else the file's name.
pub open spec fn page_title(title: Option<String>, path: Seq<char>) -> Seq<char> {
    match title {
        Some(t) => t@,
        None => after_last(path, '/'),
    }
}

/// The pages of the files found under `root`, in order, skipping files without
/// readable frontmatter; a page's path is the file's path relative to the root, its
/// absolute path the file's path as found.
pub open spec fn found_pages(root: Seq<char>, fs: Seq<(String, Option<(Option<String>, Vec<String>)>)>) -> Seq<PageView>
    decreases fs.len(),
{
    if fs.len() == 0 {
        Seq::empty()
    } else {
        let prev = found_pages(root, fs.drop_last());
        let path = fs.last().0@;
        match fs.last().1 {
            Some((title, tags)) => prev.push((spec_relative_to(root, path), page_title(title, path), texts(tags@), path)),
            None => prev,
        }
    }
}

/// Each page found under a root has as path its absolute path made relative to the
/// root.
pub proof fn lemma_found_page_paths(root: Seq<char>, fs: Seq<(String, Option<(Option<String>, Vec<String>)>)>)
    ensures
        forall|k: int| 0 <= k < found_pages(root, fs).len() ==> (#[trigger] found_pages(root, fs)[k]).0
            == spec_relative_to(root, found_pages(root, fs)[k].3),
    decreases fs.len(),
{
    if fs.len() > 0 {
        lemma_found_page_paths(root, fs.drop_last());
        let prev = found_pages(root, fs.drop_last());
        assert forall|k: int| 0 <= k < found_pages(root, fs).len() implies (#[trigger] found_pages(root, fs)[k]).0
            == spec_relative_to(root, found_pages(root, fs)[k].3) by {
            if k < prev.len() {
                assert(found_pages(root, fs)[k] == prev[k]);
            }
        }
    }
}

/// Law: a page found under a wiki root is listed by its path relative to that
/// root, so that joining the root onto the listed path gives the page's absolute
/// path (for a file under the root whose rest is not itself absolute).
pub proof fn lemma_listed_path_rejoins(
    root: Seq<char>,
    fs: Seq<(String, Option<(Option<String>, Vec<String>)>)>,
    k: int,
)
    requires
        0 <= k < found_pages(root, fs).len(),
        root.len() > 0,
        spec_join(root, Seq::empty()).len() <= found_pages(root, fs)[k].3.len(),
        found_pages(root, fs)[k].3.take(spec_join(root, Seq::empty()).len() as int) == spec_join(root, Seq::empty()),
        !(found_pages(root, fs)[k].0.len() > 0 && found_pages(root, fs)[k].0[0] == '/'),
    ensures
        spec_join(root, found_pages(root, fs)[k].0) == found_pages(root, fs)[k].3,
{
    lemma_found_page_paths(root, fs);
    lemma_relative_rejoins(root, found_pages(root, fs)[k].3);
}

/// The pages of all scans, in order.
pub open spec fn scanned_pages(scans: Seq<RootScan>) -> Seq<PageView>
    decreases scans.len(),
{
    if scans.len() == 0 {
        Seq::empty()
    } else {
        scanned_pages(scans.drop_last()) + match scans.last() {
            RootScan::Found(root, fs) => found_pages(root@, fs@),
            _ => Seq::empty(),
        }
    }
}

/// The first refused pattern among the scans.
pub open spec fn first_bad_pattern(scans: Seq<RootScan>) -> Option<Seq<char>>
    decreases scans.len(),
{
    if scans.len() == 0 {
        None
    } else {
        match scans[0] {
            RootScan::BadPattern(e) => Some(e@),
            _ => first_bad_pattern(scans.drop_first()),
        }
    }
}

/// A page as a value.
pub open spec fn page_view(p: WikiPage) -> PageView {
    (p.path@, p.title@, texts(p.tags@), p.absolute_path@)
}

/// Pages as values.
pub open spec fn page_views(ps: Seq<WikiPage>) -> Seq<PageView> {
    ps.map_values(|p: WikiPage| page_view(p))
}

/// An optional text as an optional character sequence.
pub open spec fn opt_text(o: Option<&str>) -> Option<Seq<char>> {
    match o {
        Some(t) => Some(t@),
        None => None,
    }
}

/// The wiki roots for a home directory and a working directory: the home's root
/// first, then the working directory's, each when known.
pub open spec fn wiki_roots(home: Option<Seq<char>>, working_dir: Option<Seq<char>>) -> Seq<Seq<char>> {
    (match home {
        Some(h) => seq![spec_wiki_root(h)],
        None => Seq::empty(),
    }) + (match working_dir {
        Some(wd) => seq![spec_wiki_root(wd)],
        None => Seq::empty(),
    })
}

/// Discovers wiki pages under wiki roots.
#[derive(Debug)]
pub struct WikiLoader {
    /// The roots searched, in order.
    pub roots: Vec<String>,
    /// The pages found by the last discovery.
    pub pages: Vec<WikiPage>,
}

/// The home directory (`dirs::home_dir`), as text. It depends on the environment,
/// so nothing is stated of it.
#[verifier::external_body]
fn home_dir() -> (r: Option<String>) {
    dirs::home_dir().map(|p| p.to_string_lossy().into_owned())
}

impl WikiLoader {
    /// A loader with no roots.
    pub fn new_empty() -> (l: Self)
        ensures
            l.roots@.len() == 0,
            l.pages@.len() == 0,
    {
        WikiLoader { roots: Vec::new(), pages: Vec::new() }
    }

    /// A loader whose roots are `{home}/.agents/wikis` (when the home directory is
    /// known) and `{working_dir}/.agents/wikis` (when a working directory is given).
    pub fn new(working_dir: Option<&str>) -> (l: Self)
        ensures
            l.pages@.len() == 0,
            exists|home: Option<Seq<char>>| l.roots@.map_values(|r: String| r@) == #[trigger] wiki_roots(home, opt_text(working_dir)),
    {
        let home = home_dir();
        let ghost hv: Option<Seq<char>> = match &home {
            Some(h) => Some(h@),
            None => None,
        };
        let l = Self::with_home(working_dir, home);
        assert(l.roots@.map_values(|r: String| r@) == wiki_roots(hv, opt_text(working_dir)));
        l
    }

    /// A loader for `working_dir` given the home directory `home`.
    pub fn with_home(working_dir: Option<&str>, home: Option<String>) -> (l: Self)
        ensures
            l.pages@.len() == 0,
            l.roots@.map_values(|r: String| r@) == wiki_roots(match home {
                Some(h) => Some(h@),
                None => None,
            }, match working_dir {
                Some(wd) => Some(wd@),
                None => None,
            }),
    {
        let mut roots: Vec<String> = Vec::new();
        match home {
            Some(h) => roots.push(wiki_root(h.as_str())),
            None => {},
        }
        match working_dir {
            Some(wd) => roots.push(wiki_root(wd)),
            None => {},
        }
        let l = WikiLoader { roots, pages: Vec::new() };
        assert(l.roots@.map_values(|r: String| r@) =~= (match home {
            Some(h) => seq![spec_wiki_root(h@)],
            None => Seq::<Seq<char>>::empty(),
        }) + (match working_dir {
            Some(wd) => seq![spec_wiki_root(wd@)],
            None => Seq::<Seq<char>>::empty(),
        }));
        l
    }

    /// Add a wiki root.
    pub fn add_root(&mut self, path: String)
        ensures
            final(self).roots@ == old(self).roots@.push(path),
            final(self).pages == old(self).pages,
    {
        self.roots.push(path);
    }

    /// Replace the discovered pages.
    pub fn set_pages(&mut self, pages: Vec<WikiPage>)
        ensures
            final(self).pages == pages,
            final(self).roots == old(self).roots,
    {
        self.pages = pages;
    }

    /// The discovered pages.
    pub fn list_pages(&self) -> (r: Vec<WikiPage>)
        ensures
            page_views(r@) == page_views(self.pages@),
    {
        let mut r: Vec<WikiPage> = Vec::new();
        let mut i: usize = 0;
        while i < self.pages.len()
            invariant
                i <= self.pages@.len(),
                page_views(r@) == page_views(self.pages@.take(i as int)),
            decreases self.pages.len() - i,
        {
            let c = self.pages[i].clone();
            assert(page_view(c) == page_view(self.pages@[i as int]));
            let ghost mid = page_views(r@);
            r.push(c);
            assert(page_views(r@) =~= mid.push(page_view(c)));
            assert(page_views(self.pages@.take(i + 1)) =~= page_views(self.pages@.take(i as int)).push(page_view(c)));
            i = i + 1;
        }
        assert(self.pages@.take(self.pages@.len() as int) =~= self.pages@);
        r
    }

    /// The paths of the discovered pages.
    pub fn list_paths(&self) -> (r: Vec<String>)
        ensures
            r@ == self.pages@.map_values(|p: WikiPage| p.path),
    {
        let mut r: Vec<String> = Vec::new();
        let mut i: usize = 0;
        while i < self.pages.len()
            invariant
                i <= self.pages@.len(),
                r@ == self.pages@.take(i as int).map_values(|p: WikiPage| p.path),
            decreases self.pages.len() - i,
        {
            r.push(self.pages[i].path.clone());
            assert(r@ =~= self.pages@.take(i + 1).map_values(|p: WikiPage| p.path));
            i = i + 1;
        }
        assert(self.pages@.take(self.pages@.len() as int) =~= self.pages@);
        r
    }

    /// The search pattern for the Markdown files under a root: `{root}/**/*.md`.
    pub fn glob_pattern(root: &str) -> (r: String)
        ensures
            r@ == spec_join(root@, "**/*.md"@),
    {
        join_path(root, "**/*.md")
    }

    /// Record the pages that scanning the roots gave, one scan per root in order:
    /// the pages of files whose frontmatter could be read, in order. A refused
    /// search pattern is an error and leaves the pages as they were.
    pub fn discover_all(&mut self, scans: Vec<RootScan>) -> (r: Result<(), String>)
        ensures
            final(self).roots == old(self).roots,
            match first_bad_pattern(scans@) {
                Some(e) => (r matches Err(m) && m@ == "Invalid glob pattern: "@ + e) && final(self).pages == old(self).pages,
                None => r is Ok && page_views(final(self).pages@) == scanned_pages(scans@),
            },
    {
        let mut pages: Vec<WikiPage> = Vec::new();
        let mut i: usize = 0;
        while i < scans.len()
            invariant
                i <= scans@.len(),
                first_bad_pattern(scans@) == first_bad_pattern(scans@.skip(i as int)),
                page_views(pages@) == scanned_pages(scans@.take(i as int)),
            decreases scans.len() - i,
        {
            let ghost rest = scans@.skip(i as int);
            assert(rest[0] == scans@[i as int]);
            assert(rest.drop_first() =~= scans@.skip(i + 1));
            assert(scans@.take(i + 1).drop_last() =~= scans@.take(i as int));
            assert(scans@.take(i + 1).last() == scans@[i as int]);
            match &scans[i] {
                RootScan::Skipped => {
                    assert(page_views(pages@) =~= scanned_pages(scans@.take(i + 1)));
                },
                RootScan::BadPattern(e) => {
                    return Err(concat2("Invalid glob pattern: ", e.as_str()));
                },
                RootScan::Found(root, fs) => {
                    let ghost before = page_views(pages@);
                    let mut j: usize = 0;
                    while j < fs.len()
                        invariant
                            j <= fs@.len(),
                            page_views(pages@) == before + found_pages(root@, fs@.take(j as int)),
                        decreases fs.len() - j,
                    {
                        assert(fs@.take(j + 1).drop_last() =~= fs@.take(j as int));
                        assert(fs@.take(j + 1).last() == fs@[j as int]);
                        let (path, meta) = &fs[j];
                        match meta {
                            Some((title, tags)) => {
                                let page_title = match title {
                                    Some(t) => t.clone(),
                                    None => after_last_char(path.as_str(), '/'),
                                };
                                let page = WikiPage {
                                    path: relative_to(root.as_str(), path.as_str()),
                                    title: page_title,
                                    tags: clone_strings(tags),
                                    absolute_path: path.clone(),
                                };
                                assert(page_view(page) == (spec_relative_to(root@, fs@[j as int].0@),
                                    self::page_title(*title, fs@[j as int].0@), texts(tags@), fs@[j as int].0@));
                                let ghost mid = page_views(pages@);
                                pages.push(page);
                                assert(page_views(pages@) =~= mid.push(page_view(page)));
                                assert(found_pages(root@, fs@.take(j + 1)) == found_pages(root@, fs@.take(j as int)).push(page_view(page)));
                                assert(page_views(pages@) =~= before + found_pages(root@, fs@.take(j + 1)));
                            },
                            None => {
                                assert(found_pages(root@, fs@.take(j + 1)) == found_pages(root@, fs@.take(j as int)));
                            },
                        }
                        j = j + 1;
                    }
                    assert(fs@.take(fs@.len() as int) =~= fs@);
                },
            }
            i = i + 1;
        }
        self.pages = pages;
        Ok(())
    }
}

/// Puts the wiki's page list into the system prompt.
#[derive(Debug)]
pub struct WikiInjector {
    pub loader: WikiLoader,
}

impl WikiInjector {
    /// An injector over `loader`'s pages.
    pub fn new(loader: WikiLoader) -> (i: Self)
        ensures
            i.loader == loader,
    {
        WikiInjector { loader }
    }

    /// An injector for the wiki roots of `working_dir`.
    pub fn from_workdir(working_dir: &str) -> (i: Self)
        ensures
            i.loader.pages@.len() == 0,
            exists|home: Option<Seq<char>>| i.loader.roots@.map_values(|r: String| r@)
                == #[trigger] wiki_roots(home, Some(working_dir@)),
    {
        let loader = WikiLoader::new(Some(working_dir));
        assert(opt_text(Some(working_dir)) == Some(working_dir@));
        WikiInjector { loader }
    }

    /// The contributor's name.
    pub fn name(&self) -> (s: &'static str)
        ensures
            s@ == "wiki"@,
    {
        "wiki"
    }

    /// The page list for the system prompt; empty without pages.
    pub fn format_metadata(&self) -> (s: String)
        ensures
            s@ == spec_format_metadata(self.loader.pages@),
    {
        format_metadata(&self.loader.pages)
    }

    /// What the wiki contributes to the context: the page list as one user message
    /// at the head, or nothing without pages.
    pub fn contribute(&self) -> (r: Vec<String>)
        ensures
            self.loader.pages@.len() == 0 ==> r@.len() == 0,
            self.loader.pages@.len() > 0 ==> r@.len() == 1 && r@[0]@ == spec_format_metadata(self.loader.pages@),
    {
        let text = self.format_metadata();
        if self.loader.pages.len() == 0 {
            Vec::new()
        } else {
            vec![text]
        }
    }

    /// Estimated size of the contribution (the page list is not counted).
    pub fn estimate_size(&self) -> (n: usize)
        ensures
            n == 0,
    {
        0
    }
}

} // verus!
