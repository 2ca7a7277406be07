//! Persisted sessions: turning stored session entries back into a conversation
//! timeline, and the labels the sessions list shows.
use vstd::prelude::*;
use vstd::utf8::{decode_utf8, is_char_boundary};
use vstd::string::StringSliceAdditionalSpecFns;
use crate::conversation::{ConversationEntry, EntryView};
use crate::json::{Json, json_get, opt_get, as_str, str_or, get_opt, member_str, member_str_or};
use crate::text::{owned, concat2, decimal, spec_decimal, str_eq, push_char, take_chars, char_count};

verus! {

/// An entry of a persisted session, as stored by the server.
#[derive(Debug)]
pub struct SessionEntry {
    pub id: String,
    pub session_id: String,
    pub created_at: i64,
    pub parent_id: Option<String>,
    pub entry_type: String,
    pub data: Json,
}

/// The answer to `session.resume`: the session, how many entries it holds, and the
/// entries themselves.
#[derive(Debug)]
pub struct SessionResumeResponse {
    pub session_id: String,
    pub entry_count: usize,
    pub entries: Vec<SessionEntry>,
}

/// The text of a content part: its `text`, else its `type`.
pub open spec fn part_text(p: Json) -> Option<Seq<char>> {
    match as_str(json_get(p, "text"@)) {
        Some(t) => Some(t),
        None => as_str(json_get(p, "type"@)),
    }
}

/// The texts of the parts that have one, in order.
pub open spec fn part_texts(parts: Seq<Json>) -> Seq<Seq<char>>
    decreases parts.len(),
{
    if parts.len() == 0 {
        Seq::empty()
    } else {
        let prev = part_texts(parts.drop_last());
        match part_text(parts.last()) {
            Some(t) => prev.push(t),
            None => prev,
        }
    }
}

/// Texts joined with newlines.
pub open spec fn join_lines(xs: Seq<Seq<char>>) -> Seq<char>
    decreases xs.len(),
{
    if xs.len() == 0 {
        Seq::empty()
    } else if xs.len() == 1 {
        xs[0]
    } else {
        join_lines(xs.drop_last()) + "\n"@ + xs.last()
    }
}

/// The text of a message's content: a string as is, an array of parts as their
/// texts on separate lines, anything else empty.
pub open spec fn content_text(c: Option<Json>) -> Seq<char> {
    match c {
        Some(Json::Str(s)) => s@,
        Some(Json::Array(parts)) => join_lines(part_texts(parts@)),
        _ => Seq::empty(),
    }
}

/// The timeline entry a stored entry stands for, if any. A message needs the
/// nesting `data.message.message.message` and a `role`: a user message is user
/// input, an assistant message an answer, a tool message a successful tool result
/// (named by its `name`, "tool" when absent); a checkpoint keeps its reason
/// ("Checkpoint" when absent), note and time; a summary is an empty run summary.
pub open spec fn session_entry_view(entry_type: Seq<char>, data: Json, created_at: i64) -> Option<EntryView> {
    if entry_type == "message"@ {
        match opt_get(opt_get(json_get(data, "message"@), "message"@), "message"@) {
            Some(msg) => match as_str(json_get(msg, "role"@)) {
                Some(role) => {
                    let text = content_text(json_get(msg, "content"@));
                    if role == "user"@ {
                        Some(EntryView::UserInput(text))
                    } else if role == "assistant"@ {
                        Some(EntryView::AgentAnswer(text))
                    } else if role == "tool"@ {
                        Some(EntryView::ToolResult(str_or(json_get(msg, "name"@), "tool"@), text, text, true))
                    } else {
                        None
                    }
                },
                None => None,
            },
            None => None,
        }
    } else if entry_type == "checkpoint"@ {
        let cp = json_get(data, "checkpoint"@);
        Some(EntryView::EntryCheckpoint(
            str_or(opt_get(cp, "reason"@), "Checkpoint"@),
            as_str(opt_get(cp, "note"@)),
            created_at,
        ))
    } else if entry_type == "summary"@ {
        Some(EntryView::RunSummary(0, 0, 0))
    } else {
        None
    }
}

/// The timeline entries of stored entries, in order, skipping those that stand for none.
pub open spec fn session_timeline(entries: Seq<SessionEntry>) -> Seq<EntryView>
    decreases entries.len(),
{
    if entries.len() == 0 {
        Seq::empty()
    } else {
        let prev = session_timeline(entries.drop_last());
        let e = entries.last();
        match session_entry_view(e.entry_type@, e.data, e.created_at) {
            Some(v) => prev.push(v),
            None => prev,
        }
    }
}

/// A stored tool message comes back as a successful tool result named by the
/// message's string member `name`, or "tool" when the message has no `name`; its
/// preview and full result are the message's content text. It is appended after
/// what the entries before it gave.
pub proof fn lemma_restored_tool_message(entries: Seq<SessionEntry>, e: SessionEntry, msg: Json)
    requires
        e.entry_type@ == "message"@,
        opt_get(opt_get(json_get(e.data, "message"@), "message"@), "message"@) == Some(msg),
        as_str(json_get(msg, "role"@)) == Some("tool"@),
    ensures
        (json_get(msg, "name"@) matches Some(Json::Str(n)) ==> session_timeline(entries.push(e))
            == session_timeline(entries).push(EntryView::ToolResult(
                n@,
                content_text(json_get(msg, "content"@)),
                content_text(json_get(msg, "content"@)),
                true,
            ))),
        (json_get(msg, "name"@) is None ==> session_timeline(entries.push(e))
            == session_timeline(entries).push(EntryView::ToolResult(
                "tool"@,
                content_text(json_get(msg, "content"@)),
                content_text(json_get(msg, "content"@)),
                true,
            ))),
{
    reveal_strlit("tool");
    reveal_strlit("user");
    reveal_strlit("assistant");
    assert("tool"@ != "user"@) by {
        assert("tool"@[0] != "user"@[0]);
    }
    assert("tool"@ != "assistant"@) by {
        assert("tool"@.len() != "assistant"@.len());
    }
    assert(entries.push(e).drop_last() =~= entries);
    assert(entries.push(e).last() == e);
}

/// A stored user message comes back as the user's input, and a stored assistant
/// message as the agent's answer, each with the message's content text, appended
/// after what the entries before it gave.
pub proof fn lemma_restored_chat_message(entries: Seq<SessionEntry>, e: SessionEntry, msg: Json)
    requires
        e.entry_type@ == "message"@,
        opt_get(opt_get(json_get(e.data, "message"@), "message"@), "message"@) == Some(msg),
    ensures
        as_str(json_get(msg, "role"@)) == Some("user"@) ==> session_timeline(entries.push(e))
            == session_timeline(entries).push(EntryView::UserInput(content_text(json_get(msg, "content"@)))),
        as_str(json_get(msg, "role"@)) == Some("assistant"@) ==> session_timeline(entries.push(e))
            == session_timeline(entries).push(EntryView::AgentAnswer(content_text(json_get(msg, "content"@)))),
{
    reveal_strlit("user");
    reveal_strlit("assistant");
    assert("assistant"@ != "user"@) by {
        assert("assistant"@.len() != "user"@.len());
    }
    assert(entries.push(e).drop_last() =~= entries);
    assert(entries.push(e).last() == e);
}

/// The texts of the content parts, joined with newlines.
fn parts_text(parts: &Vec<Json>) -> (r: String)
    ensures
        r@ == join_lines(part_texts(parts@)),
{
    let mut r = String::new();
    let mut n: usize = 0;
    let mut i: usize = 0;
    while i < parts.len()
        invariant
            i <= parts@.len(),
            n == part_texts(parts@.take(i as int)).len(),
            n <= i,
            r@ == join_lines(part_texts(parts@.take(i as int))),
        decreases parts.len() - i,
    {
        assert(parts@.take(i + 1).drop_last() =~= parts@.take(i as int));
        let p = &parts[i];
        let t = match member_str(p, "text") {
            Some(t) => Some(t),
            None => member_str(p, "type"),
        };
        match t {
            Some(t) => {
                let ghost prev = part_texts(parts@.take(i as int));
                assert(part_texts(parts@.take(i + 1)) == prev.push(t@));
                assert(prev.push(t@).drop_last() =~= prev);
                if n > 0 {
                    push_char(&mut r, '\n');
                }
                r.append(t.as_str());
                proof {
                    reveal_strlit("\n");
                    if n == 0 {
                        assert(r@ =~= join_lines(prev.push(t@)));
                    } else {
                        assert(r@ =~= join_lines(prev.push(t@)));
                    }
                }
                n = n + 1;
            },
            None => {},
        }
        i = i + 1;
    }
    assert(parts@.take(parts@.len() as int) =~= parts@);
    r
}

/// The text of a message's content.
fn message_text(content: Option<&Json>) -> (r: String)
    ensures
        r@ == content_text(crate::json::deref_opt(content)),
{
    match content {
        Some(Json::Str(s)) => owned(s.as_str()),
        Some(Json::Array(parts)) => parts_text(parts),
        _ => String::new(),
    }
}

/// The timeline entry a stored entry stands for, if any.
fn session_entry_to_conversation(e: &SessionEntry) -> (r: Option<ConversationEntry>)
    ensures
        match r {
            Some(c) => session_entry_view(e.entry_type@, e.data, e.created_at) == Some(c@),
            None => session_entry_view(e.entry_type@, e.data, e.created_at) is None,
        },
{
    let data = &e.data;
    if str_eq(e.entry_type.as_str(), "message") {
        let msg = get_opt(get_opt(data.get("message"), "message"), "message");
        let msg = match msg {
            Some(m) => m,
            None => {
                return None;
            },
        };
        let role = match member_str(msg, "role") {
            Some(r) => r,
            None => {
                return None;
            },
        };
        let text = message_text(msg.get("content"));
        if str_eq(role.as_str(), "user") {
            Some(ConversationEntry::UserInput { text })
        } else if str_eq(role.as_str(), "assistant") {
            Some(ConversationEntry::AgentAnswer { text })
        } else if str_eq(role.as_str(), "tool") {
            let tool_name = member_str_or(msg, "name", "tool");
            let full_result = owned(text.as_str());
            Some(ConversationEntry::ToolResult { tool_name, preview: text, full_result, success: true })
        } else {
            None
        }
    } else if str_eq(e.entry_type.as_str(), "checkpoint") {
        let cp = data.get("checkpoint");
        let reason = match get_opt(cp, "reason") {
            Some(x) => match x.as_str() {
                Some(s) => owned(s),
                None => owned("Checkpoint"),
            },
            None => owned("Checkpoint"),
        };
        let note = match get_opt(cp, "note") {
            Some(x) => match x.as_str() {
                Some(s) => Some(owned(s)),
                None => None,
            },
            None => None,
        };
        Some(ConversationEntry::EntryCheckpoint { reason, note, created_at: e.created_at })
    } else if str_eq(e.entry_type.as_str(), "summary") {
        Some(ConversationEntry::RunSummary { iterations: 0, tool_calls: 0, elapsed_ms: 0 })
    } else {
        None
    }
}

/// Convert stored session entries to the timeline they show, in order; entries of
/// unknown kinds, and messages without the expected shape or role, are left out.
pub fn session_entries_to_conversation(entries: Vec<SessionEntry>) -> (r: Vec<ConversationEntry>)
    ensures
        crate::conversation::views(r@) == session_timeline(entries@),
{
    let mut out: Vec<ConversationEntry> = Vec::new();
    let mut i: usize = 0;
    while i < entries.len()
        invariant
            i <= entries@.len(),
            crate::conversation::views(out@) == session_timeline(entries@.take(i as int)),
        decreases entries.len() - i,
    {
        assert(entries@.take(i + 1).drop_last() =~= entries@.take(i as int));
        match session_entry_to_conversation(&entries[i]) {
            Some(c) => {
                out.push(c);
                assert(crate::conversation::views(out@) =~= session_timeline(entries@.take(i + 1)));
            },
            None => {},
        }
        i = i + 1;
    }
    assert(entries@.take(entries@.len() as int) =~= entries@);
    out
}

/// Age label for a difference of `diff` seconds: seconds, minutes, hours or days ago.
pub open spec fn spec_age_label(diff: nat) -> Seq<char> {
    if diff < 60 {
        spec_decimal(diff) + "s ago"@
    } else if diff < 3600 {
        spec_decimal(diff / 60) + "m ago"@
    } else if diff < 86400 {
        spec_decimal(diff / 3600) + "h ago"@
    } else {
        spec_decimal(diff / 86400) + "d ago"@
    }
}

fn age_label(diff: u64) -> (s: String)
    ensures
        s@ == spec_age_label(diff as nat),
{
    if diff < 60 {
        concat2(decimal(diff).as_str(), "s ago")
    } else if diff < 3600 {
        concat2(decimal(diff / 60).as_str(), "m ago")
    } else if diff < 86400 {
        concat2(decimal(diff / 3600).as_str(), "h ago")
    } else {
        concat2(decimal(diff / 86400).as_str(), "d ago")
    }
}

/// Age of the Unix timestamp `ts` (seconds) at time `now`, counting a time in the
/// future as no age.
pub fn format_age(ts: i64, now: i64) -> (s: String)
    requires
        i64::MIN <= now - ts <= i64::MAX,
    ensures
        s@ == spec_age_label(if now - ts > 0 { (now - ts) as nat } else { 0 }),
{
    let diff = now - ts;
    let diff: u64 = if diff > 0 { diff as u64 } else { 0 };
    age_label(diff)
}

/// Age of the millisecond timestamp `ms` at millisecond time `now`, counting a time
/// in the future as no age.
pub fn format_age_ms(ms: u64, now: u64) -> (s: String)
    ensures
        s@ == spec_age_label((if now > ms { (now - ms) as nat } else { 0 }) / 1000),
{
    let diff_secs = now.saturating_sub(ms) / 1000;
    age_label(diff_secs)
}

/// `s` cut after its first `max_len` bytes, followed by `...` when it was longer.
pub fn truncate_for_log(s: &str, max_len: usize) -> (r: String)
    requires
        s.spec_bytes().len() <= usize::MAX,
        s.spec_bytes().len() > max_len ==> is_char_boundary(s.spec_bytes(), max_len as int),
    ensures
        s.spec_bytes().len() <= max_len ==> r@ == s@,
        s.spec_bytes().len() > max_len ==> r@ == decode_utf8(s.spec_bytes().subrange(0, max_len as int)) + "..."@,
{
    if s.len() <= max_len {
        owned(s)
    } else {
        let (head, _) = s.split_at(max_len);
        proof {
            vstd::utf8::encode_utf8_decode_utf8(head@);
            assert(head.spec_bytes() == vstd::utf8::encode_utf8(head@));
            assert(decode_utf8(s.spec_bytes().subrange(0, max_len as int)) == head@);
        }
        concat2(head, "...")
    }
}

/// A session id cut to its first 12 bytes, followed by `...` when longer.
pub fn truncate_id(id: &str) -> (r: String)
    requires
        id.spec_bytes().len() <= usize::MAX,
        id.spec_bytes().len() > 12 ==> is_char_boundary(id.spec_bytes(), 12),
    ensures
        id.spec_bytes().len() <= 12 ==> r@ == id@,
        id.spec_bytes().len() > 12 ==> r@ == decode_utf8(id.spec_bytes().subrange(0, 12)) + "..."@,
{
    truncate_for_log(id, 12)
}

/// The pieces of `s` between newlines, the last one after the last newline.
pub open spec fn split_nl(s: Seq<char>) -> Seq<Seq<char>>
    decreases s.len(),
{
    if s.len() == 0 {
        seq![Seq::empty()]
    } else {
        let p = split_nl(s.drop_last());
        if s.last() == '\n' {
            p.push(Seq::empty())
        } else {
            p.update(p.len() - 1, p.last().push(s.last()))
        }
    }
}

/// A line without the carriage return that ended it.
pub open spec fn strip_cr(l: Seq<char>) -> Seq<char> {
    if l.len() > 0 && l.last() == '\r' {
        l.drop_last()
    } else {
        l
    }
}

/// The lines of `s` (what `str::lines` yields): split at `\n`, a `\r` before it
/// dropped, and no empty line after a final newline.
pub open spec fn spec_lines(s: Seq<char>) -> Seq<Seq<char>> {
    let p = split_nl(s);
    p.drop_last().map_values(|l: Seq<char>| strip_cr(l)) + (if p.last().len() > 0 {
        seq![p.last()]
    } else {
        Seq::empty()
    })
}

/// The lines of a text (`str::lines`).
#[verifier::external_body]
fn lines_of(s: &str) -> (r: Vec<&str>)
    ensures
        r@.map_values(|l: &str| l@) == spec_lines(s@),
{
    s.lines().collect()
}

/// The first `max_lines` lines of `s` joined with newlines; when that is longer than
/// `max_chars` characters, its first `max_chars - 3` characters (none when
/// `max_chars < 3`) followed by `...`.
pub open spec fn spec_truncate_lines(s: Seq<char>, max_lines: nat, max_chars: nat) -> Seq<char> {
    let lines = spec_lines(s);
    let joined = join_lines(lines.take(if max_lines < lines.len() { max_lines as int } else { lines.len() as int }));
    if joined.len() > max_chars {
        joined.take(if max_chars >= 3 { max_chars - 3 } else { 0 }) + "..."@
    } else {
        joined
    }
}

/// Preview of a text: its first lines, cut to a number of characters.
pub fn truncate_lines(s: &str, max_lines: usize, max_chars: usize) -> (r: String)
    ensures
        r@ == spec_truncate_lines(s@, max_lines as nat, max_chars as nat),
{
    let lines = lines_of(s);
    let ghost all = lines@.map_values(|l: &str| l@);
    let n = if max_lines < lines.len() { max_lines } else { lines.len() };
    let mut joined = String::new();
    let mut i: usize = 0;
    while i < n
        invariant
            n <= lines@.len(),
            i <= n,
            all == lines@.map_values(|l: &str| l@),
            joined@ == join_lines(all.take(i as int)),
        decreases n - i,
    {
        assert(all.take(i + 1).drop_last() =~= all.take(i as int));
        if i > 0 {
            push_char(&mut joined, '\n');
        }
        joined.append(lines[i]);
        proof {
            reveal_strlit("\n");
            assert(joined@ =~= join_lines(all.take(i + 1)));
        }
        i = i + 1;
    }
    let count = char_count(joined.as_str());
    if count > max_chars {
        let keep = max_chars.saturating_sub(3);
        let head = take_chars(joined.as_str(), keep);
        concat2(head.as_str(), "...")
    } else {
        joined
    }
}

} // verus!
