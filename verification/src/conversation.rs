//! Conversation timeline per agent and the reducer that applies UI events to it.
use vstd::prelude::*;
use crate::events::UiEvent;
use crate::text::{char_count, concat2, concat3, decimal, owned, spec_decimal, str_eq, take_chars};

verus! {

broadcast use vstd::seq_lib::group_seq_properties;

/// One entry of the conversation timeline.
#[derive(Debug)]
pub enum ConversationEntry {
    UserInput { text: String },
    Thinking { content: String },
    ContentStreaming { content: String },
    ToolCall { tool_name: String, arg_preview: String, full_arguments: String },
    ToolResult { tool_name: String, preview: String, full_result: String, success: bool },
    AgentAnswer { text: String },
    RunSummary { iterations: u32, tool_calls: u32, elapsed_ms: u64 },
    EntryCheckpoint { reason: String, note: Option<String>, created_at: i64 },
    Error { message: String },
    RunningBanner { run_id: String },
}

/// A timeline entry with its texts as character sequences.
pub enum EntryView {
    UserInput(Seq<char>),
    Thinking(Seq<char>),
    ContentStreaming(Seq<char>),
    ToolCall(Seq<char>, Seq<char>, Seq<char>),
    ToolResult(Seq<char>, Seq<char>, Seq<char>, bool),
    AgentAnswer(Seq<char>),
    RunSummary(u32, u32, u64),
    EntryCheckpoint(Seq<char>, Option<Seq<char>>, i64),
    Error(Seq<char>),
    RunningBanner(Seq<char>),
}

impl View for ConversationEntry {
    type V = EntryView;

    open spec fn view(&self) -> EntryView {
        match self {
            ConversationEntry::UserInput { text } => EntryView::UserInput(text@),
            ConversationEntry::Thinking { content } => EntryView::Thinking(content@),
            ConversationEntry::ContentStreaming { content } => EntryView::ContentStreaming(content@),
            ConversationEntry::ToolCall { tool_name, arg_preview, full_arguments } => EntryView::ToolCall(
                tool_name@,
                arg_preview@,
                full_arguments@,
            ),
            ConversationEntry::ToolResult { tool_name, preview, full_result, success } => EntryView::ToolResult(
                tool_name@,
                preview@,
                full_result@,
                *success,
            ),
            ConversationEntry::AgentAnswer { text } => EntryView::AgentAnswer(text@),
            ConversationEntry::RunSummary { iterations, tool_calls, elapsed_ms } => EntryView::RunSummary(
                *iterations,
                *tool_calls,
                *elapsed_ms,
            ),
            ConversationEntry::EntryCheckpoint { reason, note, created_at } => EntryView::EntryCheckpoint(
                reason@,
                match note {
                    Some(n) => Some(n@),
                    None => None,
                },
                *created_at,
            ),
            ConversationEntry::Error { message } => EntryView::Error(message@),
            ConversationEntry::RunningBanner { run_id } => EntryView::RunningBanner(run_id@),
        }
    }
}

impl Clone for ConversationEntry {
    fn clone(&self) -> (r: Self)
        ensures
            r@ == self@,
    {
        match self {
            ConversationEntry::UserInput { text } => ConversationEntry::UserInput { text: text.clone() },
            ConversationEntry::Thinking { content } => ConversationEntry::Thinking { content: content.clone() },
            ConversationEntry::ContentStreaming { content } => ConversationEntry::ContentStreaming {
                content: content.clone(),
            },
            ConversationEntry::ToolCall { tool_name, arg_preview, full_arguments } => ConversationEntry::ToolCall {
                tool_name: tool_name.clone(),
                arg_preview: arg_preview.clone(),
                full_arguments: full_arguments.clone(),
            },
            ConversationEntry::ToolResult { tool_name, preview, full_result, success } => ConversationEntry::ToolResult {
                tool_name: tool_name.clone(),
                preview: preview.clone(),
                full_result: full_result.clone(),
                success: *success,
            },
            ConversationEntry::AgentAnswer { text } => ConversationEntry::AgentAnswer { text: text.clone() },
            ConversationEntry::RunSummary { iterations, tool_calls, elapsed_ms } => ConversationEntry::RunSummary {
                iterations: *iterations,
                tool_calls: *tool_calls,
                elapsed_ms: *elapsed_ms,
            },
            ConversationEntry::EntryCheckpoint { reason, note, created_at } => ConversationEntry::EntryCheckpoint {
                reason: reason.clone(),
                note: match note {
                    Some(n) => Some(n.clone()),
                    None => None,
                },
                created_at: *created_at,
            },
            ConversationEntry::Error { message } => ConversationEntry::Error { message: message.clone() },
            ConversationEntry::RunningBanner { run_id } => ConversationEntry::RunningBanner { run_id: run_id.clone() },
        }
    }
}

/// Views of a sequence of entries.
pub open spec fn views(es: Seq<ConversationEntry>) -> Seq<EntryView> {
    es.map_values(|e: ConversationEntry| e@)
}

/// A result text cut to `max` characters, followed by `...` when it was longer.
pub open spec fn spec_truncate_preview(s: Seq<char>, max: nat) -> Seq<char> {
    if s.len() <= max {
        s
    } else {
        s.take(max as int) + "..."@
    }
}

/// Cut a result text to `max` characters for the one-line preview.
pub fn truncate_preview(s: &str, max: usize) -> (r: String)
    ensures
        r@ == spec_truncate_preview(s@, max as nat),
{
    if char_count(s) <= max {
        owned(s)
    } else {
        let head = take_chars(s, max);
        concat2(head.as_str(), "...")
    }
}

/// Width of the one-line argument preview of a tool call.
pub const ARG_PREVIEW_CHARS: usize = 120;

/// One-line preview of tool-call arguments.
pub open spec fn spec_format_tool_args(arguments: Seq<char>) -> Seq<char> {
    spec_truncate_preview(arguments, ARG_PREVIEW_CHARS as nat)
}

/// One-line preview of tool-call arguments.
pub fn format_tool_args(arguments: &str) -> (r: String)
    ensures
        r@ == spec_format_tool_args(arguments@),
{
    truncate_preview(arguments, ARG_PREVIEW_CHARS)
}

/// Text of the streaming answer at the end of the timeline, if it ends with one.
pub open spec fn last_streaming(es: Seq<EntryView>) -> Option<Seq<char>> {
    if es.len() == 0 {
        None
    } else {
        match es.last() {
            EntryView::ContentStreaming(c) => Some(c),
            _ => None,
        }
    }
}

/// Text of the thinking entry at the end of the timeline, if it ends with one.
pub open spec fn last_thinking(es: Seq<EntryView>) -> Option<Seq<char>> {
    if es.len() == 0 {
        None
    } else {
        match es.last() {
            EntryView::Thinking(c) => Some(c),
            _ => None,
        }
    }
}

/// A streaming answer still open at the end of the timeline becomes a final answer
/// (unless it is empty).
pub open spec fn spec_flush_pending(es: Seq<EntryView>) -> Seq<EntryView> {
    match last_streaming(es) {
        Some(c) => if c.len() > 0 {
            es.update(es.len() - 1, EntryView::AgentAnswer(c))
        } else {
            es
        },
        None => es,
    }
}

/// Whether the entry is the "agent is running" banner.
pub open spec fn is_banner(e: EntryView) -> bool {
    e is RunningBanner
}

/// The timeline without its running banners.
pub open spec fn spec_without_banners(es: Seq<EntryView>) -> Seq<EntryView>
    decreases es.len(),
{
    if es.len() == 0 {
        es
    } else {
        let rest = spec_without_banners(es.drop_last());
        if is_banner(es.last()) {
            rest
        } else {
            rest.push(es.last())
        }
    }
}

/// No running banner survives their removal.
pub proof fn lemma_without_banners_has_none(es: Seq<EntryView>)
    ensures
        forall|i: int| 0 <= i < spec_without_banners(es).len() ==> !is_banner(#[trigger] spec_without_banners(es)[i]),
    decreases es.len(),
{
    if es.len() > 0 {
        lemma_without_banners_has_none(es.drop_last());
        let rest = spec_without_banners(es.drop_last());
        if !is_banner(es.last()) {
            assert forall|i: int| 0 <= i < rest.push(es.last()).len() implies !is_banner(#[trigger] rest.push(es.last())[i]) by {
                if i < rest.len() {
                    assert(rest.push(es.last())[i] == rest[i]);
                }
            }
        }
    }
}

/// When a run ends (completed, aborted or failed) or an iteration completes, the
/// timeline shows no running banner.
pub proof fn lemma_run_end_clears_banners(es: Seq<EntryView>, event: UiEvent)
    requires
        event is AgentComplete || event is AgentAborted || event is AgentError || event is IterationComplete,
    ensures
        forall|i: int| 0 <= i < spec_reduce(es, event).len() ==> !is_banner(#[trigger] spec_reduce(es, event)[i]),
{
    lemma_without_banners_has_none(spec_flush_pending(es));
    lemma_without_banners_has_none(es);
    let cleared = spec_without_banners(spec_flush_pending(es));
    match event {
        UiEvent::AgentAborted { reason } => {
            assert forall|i: int| 0 <= i < cleared.push(EntryView::Error(reason@)).len()
                implies !is_banner(#[trigger] cleared.push(EntryView::Error(reason@))[i]) by {
                if i < cleared.len() {
                    assert(cleared.push(EntryView::Error(reason@))[i] == cleared[i]);
                }
            }
        },
        UiEvent::AgentError { message } => {
            assert forall|i: int| 0 <= i < cleared.push(EntryView::Error(message@)).len()
                implies !is_banner(#[trigger] cleared.push(EntryView::Error(message@))[i]) by {
                if i < cleared.len() {
                    assert(cleared.push(EntryView::Error(message@))[i] == cleared[i]);
                }
            }
        },
        _ => {},
    }
}

/// The timeline after a sequence of UI events, applied in order.
pub open spec fn reduce_all(es: Seq<EntryView>, evs: Seq<UiEvent>) -> Seq<EntryView>
    decreases evs.len(),
{
    if evs.len() == 0 {
        es
    } else {
        spec_reduce(reduce_all(es, evs.drop_last()), evs.last())
    }
}

/// Whether every event is a streamed piece of the answer.
pub open spec fn all_content_deltas(evs: Seq<UiEvent>) -> bool {
    forall|i: int| 0 <= i < evs.len() ==> #[trigger] evs[i] is ContentDelta
}

/// The text of the streamed pieces, joined in order.
pub open spec fn joined_deltas(evs: Seq<UiEvent>) -> Seq<char>
    decreases evs.len(),
{
    if evs.len() == 0 {
        Seq::empty()
    } else {
        joined_deltas(evs.drop_last()) + match evs.last() {
            UiEvent::ContentDelta { delta } => delta@,
            _ => Seq::empty(),
        }
    }
}

/// Applying events one after another: the events of `a`, then those of `b`.
pub proof fn lemma_reduce_all_append(es: Seq<EntryView>, a: Seq<UiEvent>, b: Seq<UiEvent>)
    ensures
        reduce_all(es, a + b) == reduce_all(reduce_all(es, a), b),
    decreases b.len(),
{
    if b.len() == 0 {
        assert(a + b =~= a);
    } else {
        assert((a + b).drop_last() =~= a + b.drop_last());
        assert((a + b).last() == b.last());
        lemma_reduce_all_append(es, a, b.drop_last());
    }
}

/// Streamed pieces extend the answer being streamed at the end of the timeline.
pub proof fn lemma_deltas_extend(es: Seq<EntryView>, c: Seq<char>, ds: Seq<UiEvent>)
    requires
        all_content_deltas(ds),
    ensures
        reduce_all(es.push(EntryView::ContentStreaming(c)), ds) == es.push(EntryView::ContentStreaming(c + joined_deltas(ds))),
    decreases ds.len(),
{
    if ds.len() == 0 {
        assert(c + Seq::<char>::empty() =~= c);
    } else {
        let prev = ds.drop_last();
        assert forall|i: int| 0 <= i < prev.len() implies #[trigger] prev[i] is ContentDelta by {
            assert(prev[i] == ds[i]);
        }
        lemma_deltas_extend(es, c, prev);
        assert(ds[ds.len() - 1] is ContentDelta);
        match ds.last() {
            UiEvent::ContentDelta { delta } => {
                let cur = es.push(EntryView::ContentStreaming(c + joined_deltas(prev)));
                assert(last_streaming(cur) == Some(c + joined_deltas(prev)));
                assert(joined_deltas(ds) == joined_deltas(prev) + delta@);
                assert(c + joined_deltas(ds) =~= c + joined_deltas(prev) + delta@);
                assert(cur.update(cur.len() - 1, EntryView::ContentStreaming(c + joined_deltas(prev) + delta@))
                    =~= es.push(EntryView::ContentStreaming(c + joined_deltas(ds))));
            },
            _ => {},
        }
    }
}

/// Whether every event is a streamed piece of the thinking.
pub open spec fn all_thinking_deltas(evs: Seq<UiEvent>) -> bool {
    forall|i: int| 0 <= i < evs.len() ==> #[trigger] evs[i] is ThinkingDelta
}

/// The text of the streamed thinking pieces, joined in order.
pub open spec fn joined_thinking(evs: Seq<UiEvent>) -> Seq<char>
    decreases evs.len(),
{
    if evs.len() == 0 {
        Seq::empty()
    } else {
        joined_thinking(evs.drop_last()) + match evs.last() {
            UiEvent::ThinkingDelta { delta } => delta@,
            _ => Seq::empty(),
        }
    }
}

/// Thinking pieces extend the thinking entry at the end of the timeline: each
/// piece is appended to its text.
pub proof fn lemma_thinking_deltas_extend(es: Seq<EntryView>, c: Seq<char>, ds: Seq<UiEvent>)
    requires
        all_thinking_deltas(ds),
    ensures
        reduce_all(es.push(EntryView::Thinking(c)), ds) == es.push(EntryView::Thinking(c + joined_thinking(ds))),
    decreases ds.len(),
{
    if ds.len() == 0 {
        assert(c + Seq::<char>::empty() =~= c);
    } else {
        let prev = ds.drop_last();
        assert forall|i: int| 0 <= i < prev.len() implies #[trigger] prev[i] is ThinkingDelta by {
            assert(prev[i] == ds[i]);
        }
        lemma_thinking_deltas_extend(es, c, prev);
        assert(ds[ds.len() - 1] is ThinkingDelta);
        match ds.last() {
            UiEvent::ThinkingDelta { delta } => {
                let cur = es.push(EntryView::Thinking(c + joined_thinking(prev)));
                assert(last_thinking(cur) == Some(c + joined_thinking(prev)));
                assert(joined_thinking(ds) == joined_thinking(prev) + delta@);
                assert(c + joined_thinking(ds) =~= c + joined_thinking(prev) + delta@);
                assert(cur.update(cur.len() - 1, EntryView::Thinking(c + joined_thinking(prev) + delta@))
                    =~= es.push(EntryView::Thinking(c + joined_thinking(ds))));
            },
            _ => {},
        }
    }
}

/// Streamed thinking: after thinking starts and its pieces arrive, the timeline ends
/// with one thinking entry holding the pieces joined in order.
pub proof fn lemma_streamed_thinking(es: Seq<EntryView>, start: UiEvent, ds: Seq<UiEvent>)
    requires
        start is ThinkingStart,
        all_thinking_deltas(ds),
    ensures
        reduce_all(es, seq![start] + ds) == es.push(EntryView::Thinking(joined_thinking(ds))),
{
    lemma_reduce_all_append(es, seq![start], ds);
    assert(seq![start].drop_last() =~= Seq::<UiEvent>::empty());
    assert(seq![start].last() == start);
    assert(reduce_all(es, Seq::<UiEvent>::empty()) == es);
    assert(spec_reduce(es, start) == es.push(EntryView::Thinking(Seq::empty())));
    assert(reduce_all(es, seq![start]) == es.push(EntryView::Thinking(Seq::empty())));
    lemma_thinking_deltas_extend(es, Seq::empty(), ds);
    assert(Seq::<char>::empty() + joined_thinking(ds) =~= joined_thinking(ds));
}

/// A streamed answer: after the answer starts, its pieces arrive and the run
/// completes, the timeline is the earlier one without its running banners, followed
/// by the answer made of the pieces joined in order (an empty streaming entry when
/// they are all empty).
pub proof fn lemma_streamed_answer(es: Seq<EntryView>, start: UiEvent, ds: Seq<UiEvent>, done: UiEvent)
    requires
        start is ContentStart,
        all_content_deltas(ds),
        done is AgentComplete,
    ensures
        reduce_all(es, seq![start] + ds + seq![done]) == spec_without_banners(es).push(
            if joined_deltas(ds).len() > 0 {
                EntryView::AgentAnswer(joined_deltas(ds))
            } else {
                EntryView::ContentStreaming(Seq::empty())
            },
        ),
{
    let evs = seq![start] + ds + seq![done];
    assert(evs.drop_last() =~= seq![start] + ds);
    assert(evs.last() == done);
    lemma_reduce_all_append(es, seq![start], ds);
    assert(seq![start].drop_last() =~= Seq::<UiEvent>::empty());
    assert(seq![start].last() == start);
    assert(reduce_all(es, Seq::<UiEvent>::empty()) == es);
    assert(spec_reduce(es, start) == es.push(EntryView::ContentStreaming(Seq::empty())));
    assert(reduce_all(es, seq![start]) == es.push(EntryView::ContentStreaming(Seq::empty())));
    lemma_deltas_extend(es, Seq::empty(), ds);
    assert(Seq::<char>::empty() + joined_deltas(ds) =~= joined_deltas(ds));
    let streamed = es.push(EntryView::ContentStreaming(joined_deltas(ds)));
    assert(reduce_all(es, seq![start] + ds) == streamed);
    let last = if joined_deltas(ds).len() > 0 {
        EntryView::AgentAnswer(joined_deltas(ds))
    } else {
        EntryView::ContentStreaming(Seq::empty())
    };
    assert(spec_flush_pending(streamed) =~= es.push(last));
    assert(es.push(last).drop_last() =~= es);
    assert(spec_without_banners(es.push(last)) == spec_without_banners(es).push(last));
}

/// Text of the "max iterations reached" notice.
pub open spec fn max_iterations_text(current: u32, max: u32) -> Seq<char> {
    "Max iterations reached ("@ + spec_decimal(current as nat) + "/"@ + spec_decimal(max as nat)
        + ") — waiting for user decision..."@
}

/// Text of the "continuing" notice.
pub open spec fn continued_text(from_iteration: u32) -> Seq<char> {
    "Continuing from iteration "@ + spec_decimal(from_iteration as nat) + " (counter reset to 0)"@
}

/// The timeline after one UI event.
pub open spec fn spec_reduce(es: Seq<EntryView>, event: UiEvent) -> Seq<EntryView> {
    match event {
        UiEvent::AgentStart { input } => es.push(EntryView::UserInput(input@)),
        UiEvent::AgentComplete { .. } => spec_without_banners(spec_flush_pending(es)),
        UiEvent::AgentAborted { reason } => spec_without_banners(spec_flush_pending(es)).push(
            EntryView::Error(reason@),
        ),
        UiEvent::AgentError { message } => spec_without_banners(spec_flush_pending(es)).push(
            EntryView::Error(message@),
        ),
        UiEvent::ThinkingStart => es.push(EntryView::Thinking(Seq::empty())),
        UiEvent::ThinkingDelta { delta } => match last_thinking(es) {
            Some(c) => es.update(es.len() - 1, EntryView::Thinking(c + delta@)),
            None => es,
        },
        UiEvent::ContentStart => es.push(EntryView::ContentStreaming(Seq::empty())),
        UiEvent::ContentDelta { delta } => match last_streaming(es) {
            Some(c) => es.update(es.len() - 1, EntryView::ContentStreaming(c + delta@)),
            None => es,
        },
        UiEvent::ContentComplete { content } => if last_streaming(es) is Some {
            es.update(es.len() - 1, EntryView::AgentAnswer(content@))
        } else if content@.len() > 0 {
            es.push(EntryView::AgentAnswer(content@))
        } else {
            es
        },
        UiEvent::ToolCallBegin { tool_name, arguments } => es.push(
            EntryView::ToolCall(tool_name@, spec_format_tool_args(arguments@), arguments@),
        ),
        UiEvent::ToolCallComplete { tool_name, result, .. } => es.push(
            EntryView::ToolResult(tool_name@, spec_truncate_preview(result@, 200), result@, true),
        ),
        UiEvent::ToolCallError { tool_name, error, .. } => es.push(
            EntryView::ToolResult(tool_name@, error@, error@, false),
        ),
        UiEvent::ToolCallSkipped { tool_name, reason, .. } => es.push(
            EntryView::ToolResult(tool_name@, reason@, reason@, false),
        ),
        UiEvent::MaxIterationsReached { current, max } => es.push(
            EntryView::Error(max_iterations_text(current, max)),
        ),
        UiEvent::IterationContinued { from_iteration } => es.push(
            EntryView::AgentAnswer(continued_text(from_iteration)),
        ),
        UiEvent::IterationComplete { .. } => spec_without_banners(es),
        _ => es,
    }
}

/// Turn a non-empty streaming answer at the end of the timeline into a final answer.
pub fn flush_pending_content(entries: &mut Vec<ConversationEntry>)
    ensures
        views(final(entries)@) == spec_flush_pending(views(old(entries)@)),
{
    let n = entries.len();
    if n == 0 {
        return;
    }
    let last = entries.pop().unwrap();
    proof {
        assert(old(entries)@.drop_last() == entries@);
        assert(views(old(entries)@).last() == last@);
    }
    match last {
        ConversationEntry::ContentStreaming { content } => {
            if !content.as_str().is_empty() {
                entries.push(ConversationEntry::AgentAnswer { text: content });
                proof {
                    assert(views(entries@) =~= views(old(entries)@).update(n - 1, EntryView::AgentAnswer(content@)));
                }
            } else {
                entries.push(ConversationEntry::ContentStreaming { content });
                proof {
                    assert(content@.len() == 0);
                    assert(views(entries@) =~= views(old(entries)@));
                }
            }
        },
        other => {
            entries.push(other);
            proof {
                assert(views(entries@) =~= views(old(entries)@));
            }
        },
    }
}

/// Remove every running banner from the timeline.
pub fn clear_running_banner(entries: &mut Vec<ConversationEntry>)
    ensures
        views(final(entries)@) == spec_without_banners(views(old(entries)@)),
{
    let ghost original = views(entries@);
    let mut kept: Vec<ConversationEntry> = Vec::new();
    let mut i: usize = 0;
    while i < entries.len()
        invariant
            i <= entries@.len(),
            views(entries@) == original,
            views(kept@) == spec_without_banners(original.take(i as int)),
        decreases entries.len() - i,
    {
        let e = entries[i].clone();
        proof {
            assert(original.take(i + 1).drop_last() =~= original.take(i as int));
            assert(original.take(i + 1).last() == original[i as int]);
        }
        let banner = match &e {
            ConversationEntry::RunningBanner { .. } => true,
            _ => false,
        };
        if !banner {
            kept.push(e);
            proof {
                assert(views(kept@) =~= spec_without_banners(original.take(i as int)).push(original[i as int]));
            }
        }
        i = i + 1;
    }
    proof {
        assert(original.take(entries@.len() as int) =~= original);
    }
    *entries = kept;
}

/// Append `suffix` to the text of the last entry when it is of the streaming kind
/// (`thinking == true` for thinking text, otherwise answer text).
fn append_to_last(entries: &mut Vec<ConversationEntry>, suffix: &str, thinking: bool)
    ensures
        thinking ==> views(final(entries)@) == (match last_thinking(views(old(entries)@)) {
            Some(c) => views(old(entries)@).update(views(old(entries)@).len() - 1, EntryView::Thinking(c + suffix@)),
            None => views(old(entries)@),
        }),
        !thinking ==> views(final(entries)@) == (match last_streaming(views(old(entries)@)) {
            Some(c) => views(old(entries)@).update(
                views(old(entries)@).len() - 1,
                EntryView::ContentStreaming(c + suffix@),
            ),
            None => views(old(entries)@),
        }),
{
    let n = entries.len();
    if n == 0 {
        return;
    }
    let last = entries.pop().unwrap();
    proof {
        assert(old(entries)@.drop_last() == entries@);
        assert(views(old(entries)@).last() == last@);
    }
    match last {
        ConversationEntry::Thinking { content } => {
            if thinking {
                let mut c = content;
                c.append(suffix);
                entries.push(ConversationEntry::Thinking { content: c });
                proof {
                    assert(views(entries@) =~= views(old(entries)@).update(n - 1, EntryView::Thinking(content@ + suffix@)));
                }
            } else {
                entries.push(ConversationEntry::Thinking { content });
                proof {
                    assert(views(entries@) =~= views(old(entries)@));
                }
            }
        },
        ConversationEntry::ContentStreaming { content } => {
            if !thinking {
                let mut c = content;
                c.append(suffix);
                entries.push(ConversationEntry::ContentStreaming { content: c });
                proof {
                    assert(views(entries@) =~= views(old(entries)@).update(
                        n - 1,
                        EntryView::ContentStreaming(content@ + suffix@),
                    ));
                }
            } else {
                entries.push(ConversationEntry::ContentStreaming { content });
                proof {
                    assert(views(entries@) =~= views(old(entries)@));
                }
            }
        },
        other => {
            entries.push(other);
            proof {
                assert(views(entries@) =~= views(old(entries)@));
            }
        },
    }
}

/// Apply one UI event to a timeline.
pub fn reduce_entries(entries: &mut Vec<ConversationEntry>, event: &UiEvent)
    ensures
        views(final(entries)@) == spec_reduce(views(old(entries)@), *event),
{
    let ghost start = views(entries@);
    match event {
        UiEvent::AgentStart { input } => {
            entries.push(ConversationEntry::UserInput { text: input.clone() });
            proof {
                assert(views(entries@) =~= start.push(EntryView::UserInput(input@)));
            }
        },
        UiEvent::AgentComplete { .. } => {
            flush_pending_content(entries);
            clear_running_banner(entries);
        },
        UiEvent::AgentAborted { reason } => {
            flush_pending_content(entries);
            clear_running_banner(entries);
            let ghost mid = views(entries@);
            entries.push(ConversationEntry::Error { message: reason.clone() });
            proof {
                assert(views(entries@) =~= mid.push(EntryView::Error(reason@)));
            }
        },
        UiEvent::AgentError { message } => {
            flush_pending_content(entries);
            clear_running_banner(entries);
            let ghost mid = views(entries@);
            entries.push(ConversationEntry::Error { message: message.clone() });
            proof {
                assert(views(entries@) =~= mid.push(EntryView::Error(message@)));
            }
        },
        UiEvent::ThinkingStart => {
            entries.push(ConversationEntry::Thinking { content: String::new() });
            proof {
                assert(views(entries@) =~= start.push(EntryView::Thinking(Seq::empty())));
            }
        },
        UiEvent::ThinkingDelta { delta } => {
            append_to_last(entries, delta.as_str(), true);
        },
        UiEvent::ContentStart => {
            entries.push(ConversationEntry::ContentStreaming { content: String::new() });
            proof {
                assert(views(entries@) =~= start.push(EntryView::ContentStreaming(Seq::empty())));
            }
        },
        UiEvent::ContentDelta { delta } => {
            append_to_last(entries, delta.as_str(), false);
        },
        UiEvent::ContentComplete { content } => {
            let n = entries.len();
            let streaming = n > 0 && match &entries[n - 1] {
                ConversationEntry::ContentStreaming { .. } => true,
                _ => false,
            };
            if streaming {
                let _ = entries.pop();
                entries.push(ConversationEntry::AgentAnswer { text: content.clone() });
                proof {
                    assert(views(entries@) =~= start.update(n - 1, EntryView::AgentAnswer(content@)));
                }
            } else if !content.as_str().is_empty() {
                entries.push(ConversationEntry::AgentAnswer { text: content.clone() });
                proof {
                    assert(views(entries@) =~= start.push(EntryView::AgentAnswer(content@)));
                }
            }
        },
        UiEvent::ToolCallBegin { tool_name, arguments } => {
            let preview = format_tool_args(arguments.as_str());
            entries.push(ConversationEntry::ToolCall {
                tool_name: tool_name.clone(),
                arg_preview: preview,
                full_arguments: arguments.clone(),
            });
            proof {
                assert(views(entries@) =~= start.push(
                    EntryView::ToolCall(tool_name@, spec_format_tool_args(arguments@), arguments@),
                ));
            }
        },
        UiEvent::ToolCallComplete { tool_name, result, .. } => {
            let preview = truncate_preview(result.as_str(), 200);
            entries.push(ConversationEntry::ToolResult {
                tool_name: tool_name.clone(),
                preview,
                full_result: result.clone(),
                success: true,
            });
            proof {
                assert(views(entries@) =~= start.push(
                    EntryView::ToolResult(tool_name@, spec_truncate_preview(result@, 200), result@, true),
                ));
            }
        },
        UiEvent::ToolCallError { tool_name, error, .. } => {
            entries.push(ConversationEntry::ToolResult {
                tool_name: tool_name.clone(),
                preview: error.clone(),
                full_result: error.clone(),
                success: false,
            });
            proof {
                assert(views(entries@) =~= start.push(EntryView::ToolResult(tool_name@, error@, error@, false)));
            }
        },
        UiEvent::ToolCallSkipped { tool_name, reason, .. } => {
            entries.push(ConversationEntry::ToolResult {
                tool_name: tool_name.clone(),
                preview: reason.clone(),
                full_result: reason.clone(),
                success: false,
            });
            proof {
                assert(views(entries@) =~= start.push(EntryView::ToolResult(tool_name@, reason@, reason@, false)));
            }
        },
        UiEvent::MaxIterationsReached { current, max } => {
            let head = concat3("Max iterations reached (", decimal(*current as u64).as_str(), "/");
            let message = concat3(head.as_str(), decimal(*max as u64).as_str(), ") — waiting for user decision...");
            entries.push(ConversationEntry::Error { message });
            proof {
                assert(views(entries@) =~= start.push(EntryView::Error(max_iterations_text(*current, *max))));
            }
        },
        UiEvent::IterationContinued { from_iteration } => {
            let text = concat3("Continuing from iteration ", decimal(*from_iteration as u64).as_str(), " (counter reset to 0)");
            entries.push(ConversationEntry::AgentAnswer { text });
            proof {
                assert(views(entries@) =~= start.push(EntryView::AgentAnswer(continued_text(*from_iteration))));
            }
        },
        UiEvent::IterationComplete { .. } => {
            clear_running_banner(entries);
        },
        _ => {},
    }
}


/// The conversation of one agent.
#[derive(Debug)]
pub struct AgentConversation {
    pub agent_id: String,
    pub entries: Vec<ConversationEntry>,
    pub auto_scroll: bool,
}

/// Conversations of all agents, and which one is shown.
#[derive(Debug)]
pub struct ConversationState {
    pub active_agent: Option<String>,
    pub agents: Vec<AgentConversation>,
}

/// Position of the conversation of `id`.
pub open spec fn agent_index(agents: Seq<AgentConversation>, id: Seq<char>) -> Option<int>
    decreases agents.len(),
{
    if agents.len() == 0 {
        None
    } else if agents.last().agent_id@ == id {
        Some(agents.len() - 1)
    } else {
        agent_index(agents.drop_last(), id)
    }
}

/// The id of the shown agent ("" when none is selected).
pub open spec fn active_id(s: ConversationState) -> Seq<char> {
    match s.active_agent {
        Some(a) => a@,
        None => Seq::empty(),
    }
}

/// The timeline of the agent `id` (empty when it has none yet).
pub open spec fn entries_of(s: ConversationState, id: Seq<char>) -> Seq<EntryView> {
    match agent_index(s.agents@, id) {
        Some(i) => views(s.agents@[i].entries@),
        None => Seq::empty(),
    }
}

pub proof fn lemma_agent_index(agents: Seq<AgentConversation>, id: Seq<char>)
    ensures
        agent_index(agents, id) matches Some(i) ==> 0 <= i < agents.len() && agents[i].agent_id@ == id
            && forall|q: int| i < q < agents.len() ==> agents[q].agent_id@ != id,
        agent_index(agents, id) is None ==> forall|q: int| 0 <= q < agents.len() ==> agents[q].agent_id@ != id,
    decreases agents.len(),
{
    if agents.len() > 0 && agents.last().agent_id@ != id {
        lemma_agent_index(agents.drop_last(), id);
        assert forall|q: int| 0 <= q < agents.len() - 1 implies agents[q] == agents.drop_last()[q] by {}
    }
}

impl ConversationState {
    /// No conversations yet and no agent shown.
    pub fn new() -> (s: Self)
        ensures
            s.active_agent is None,
            s.agents@.len() == 0,
    {
        ConversationState { active_agent: None, agents: Vec::new() }
    }

    /// Position of the conversation of `id`, creating an empty one (auto-scrolling)
    /// at the end when there is none.
    pub fn get_or_create(&mut self, id: &str) -> (idx: usize)
        ensures
            final(self).active_agent == old(self).active_agent,
            idx < final(self).agents@.len(),
            final(self).agents@[idx as int].agent_id@ == id@,
            agent_index(final(self).agents@, id@) == Some(idx as int),
            match agent_index(old(self).agents@, id@) {
                Some(i) => idx == i && final(self).agents@ == old(self).agents@,
                None => {
                    &&& idx == old(self).agents@.len()
                    &&& final(self).agents@.len() == old(self).agents@.len() + 1
                    &&& final(self).agents@.subrange(0, idx as int) == old(self).agents@
                    &&& final(self).agents@[idx as int].entries@.len() == 0
                    &&& final(self).agents@[idx as int].auto_scroll
                },
            },
    {
        proof {
            lemma_agent_index(self.agents@, id@);
        }
        let mut i: usize = self.agents.len();
        assert(self.agents@.subrange(0, i as int) =~= self.agents@);
        while i > 0
            invariant
                i <= self.agents@.len(),
                self.agents@ == old(self).agents@,
                self.active_agent == old(self).active_agent,
                agent_index(self.agents@, id@) == agent_index(self.agents@.subrange(0, i as int), id@),
            decreases i,
        {
            i = i - 1;
            assert(self.agents@.subrange(0, i + 1).drop_last() =~= self.agents@.subrange(0, i as int));
            if str_eq(self.agents[i].agent_id.as_str(), id) {
                proof {
                    lemma_agent_index(self.agents@.subrange(0, i + 1), id@);
                }
                return i;
            }
        }
        assert(self.agents@.subrange(0, 0).len() == 0);
        let idx = self.agents.len();
        self.agents.push(AgentConversation { agent_id: owned(id), entries: Vec::new(), auto_scroll: true });
        proof {
            assert(self.agents@.drop_last() =~= old(self).agents@);
            assert(self.agents@.subrange(0, idx as int) =~= old(self).agents@);
            assert(self.agents@.last().agent_id@ == id@);
        }
        idx
    }

    /// The timeline of the shown agent.
    pub fn active_entries(&self) -> (r: &[ConversationEntry])
        ensures
            views(r@) == entries_of(*self, active_id(*self)),
    {
        proof {
            lemma_agent_index(self.agents@, active_id(*self));
        }
        let id: &str = match &self.active_agent {
            Some(a) => a.as_str(),
            None => "",
        };
        proof {
            reveal_strlit("");
            assert(id@ == active_id(*self));
        }
        let mut i: usize = self.agents.len();
        assert(self.agents@.subrange(0, i as int) =~= self.agents@);
        while i > 0
            invariant
                i <= self.agents@.len(),
                id@ == active_id(*self),
                agent_index(self.agents@, id@) == agent_index(self.agents@.subrange(0, i as int), id@),
            decreases i,
        {
            i = i - 1;
            assert(self.agents@.subrange(0, i + 1).drop_last() =~= self.agents@.subrange(0, i as int));
            if str_eq(self.agents[i].agent_id.as_str(), id) {
                return self.agents[i].entries.as_slice();
            }
        }
        assert(self.agents@.subrange(0, 0).len() == 0);
        assert(views(Seq::<ConversationEntry>::empty()) =~= Seq::<EntryView>::empty());
        &[]
    }
}

/// Replace the timeline of agent `id` (creating its conversation when missing);
/// other conversations and the shown agent are unchanged.
pub fn set_entries(s: &mut ConversationState, id: &str, entries: Vec<ConversationEntry>)
    ensures
        final(s).active_agent == old(s).active_agent,
        entries_of(*final(s), id@) == views(entries@),
        forall|other: Seq<char>| other != id@ ==> entries_of(*final(s), other) == entries_of(*old(s), other),
{
    let ghost before = *s;
    let ghost new_entries = entries@;
    let idx = s.get_or_create(id);
    let ghost created = *s;
    let mut conv = s.agents.remove(idx);
    conv.entries = entries;
    s.agents.insert(idx, conv);
    proof {
        assert(s.agents@ =~= created.agents@.update(idx as int, conv));
        lemma_agent_index(created.agents@, id@);
        lemma_agent_index(s.agents@, id@);
        lemma_agent_index(before.agents@, id@);
        lemma_agent_index_same(s.agents@, created.agents@, id@);
        assert forall|other: Seq<char>| other != id@ implies entries_of(*s, other) == entries_of(before, other) by {
            lemma_agent_index(s.agents@, other);
            lemma_agent_index(created.agents@, other);
            lemma_agent_index(before.agents@, other);
            lemma_agent_index_same(s.agents@, created.agents@, other);
            match agent_index(before.agents@, id@) {
                Some(_) => {},
                None => {
                    lemma_agent_index_prefix(created.agents@, before.agents@, other);
                },
            }
        }
    }
}

/// Apply a UI event to the conversation of the shown agent (created when missing);
/// other conversations and the shown agent are unchanged.
pub fn reduce_conversation(s: &mut ConversationState, event: &UiEvent)
    ensures
        final(s).active_agent == old(s).active_agent,
        entries_of(*final(s), active_id(*old(s))) == spec_reduce(entries_of(*old(s), active_id(*old(s))), *event),
        forall|id: Seq<char>| id != active_id(*old(s)) ==> entries_of(*final(s), id) == entries_of(*old(s), id),
{
    let id: String = match &s.active_agent {
        Some(a) => a.clone(),
        None => String::new(),
    };
    let ghost before = *s;
    let idx = s.get_or_create(id.as_str());
    let ghost created = *s;
    let mut conv = s.agents.remove(idx);
    reduce_entries(&mut conv.entries, event);
    s.agents.insert(idx, conv);
    proof {
        assert(s.agents@ =~= created.agents@.update(idx as int, conv));
        lemma_agent_index(created.agents@, id@);
        lemma_agent_index(s.agents@, id@);
        lemma_agent_index(before.agents@, id@);
        lemma_agent_index_same(s.agents@, created.agents@, id@);
        assert forall|other: Seq<char>| other != id@ implies entries_of(*s, other) == entries_of(before, other) by {
            lemma_agent_index(s.agents@, other);
            lemma_agent_index(created.agents@, other);
            lemma_agent_index(before.agents@, other);
            lemma_agent_index_same(s.agents@, created.agents@, other);
            match agent_index(before.agents@, id@) {
                Some(_) => {},
                None => {
                    lemma_agent_index_prefix(created.agents@, before.agents@, other);
                },
            }
        }
    }
}

pub proof fn lemma_agent_index_same(a: Seq<AgentConversation>, b: Seq<AgentConversation>, id: Seq<char>)
    requires
        a.len() == b.len(),
        forall|q: int| 0 <= q < a.len() ==> a[q].agent_id@ == b[q].agent_id@,
    ensures
        agent_index(a, id) == agent_index(b, id),
    decreases a.len(),
{
    if a.len() > 0 {
        lemma_agent_index_same(a.drop_last(), b.drop_last(), id);
    }
}

pub proof fn lemma_agent_index_prefix(a: Seq<AgentConversation>, b: Seq<AgentConversation>, id: Seq<char>)
    requires
        a.len() == b.len() + 1,
        a.subrange(0, b.len() as int) == b,
        a.last().agent_id@ != id,
    ensures
        agent_index(a, id) == agent_index(b, id),
{
    assert(a.drop_last() =~= b);
}

/// Data for the tool call detail view.
#[derive(Debug)]
pub struct ToolDetail {
    pub tool_name: String,
    pub arguments: String,
    pub result: Option<String>,
    pub success: Option<bool>,
}

/// The first tool result after position `from` for the tool `name`.
pub open spec fn first_result_after(es: Seq<EntryView>, from: int, name: Seq<char>) -> Option<(Seq<char>, bool)>
    decreases es.len() - from,
{
    if from < 0 || from >= es.len() {
        None
    } else {
        match es[from] {
            EntryView::ToolResult(n, _, full, ok) => if n == name {
                Some((full, ok))
            } else {
                first_result_after(es, from + 1, name)
            },
            _ => first_result_after(es, from + 1, name),
        }
    }
}

/// Arguments of the last call of the tool `name` before position `upto`.
pub open spec fn last_call_before(es: Seq<EntryView>, upto: int, name: Seq<char>) -> Option<Seq<char>>
    decreases upto,
{
    if upto <= 0 || upto > es.len() {
        None
    } else {
        match es[upto - 1] {
            EntryView::ToolCall(n, _, args) => if n == name {
                Some(args)
            } else {
                last_call_before(es, upto - 1, name)
            },
            _ => last_call_before(es, upto - 1, name),
        }
    }
}

/// Whether `d` is the detail shown for the entry at `index`: a call with its first
/// later result, or a result with the arguments of its last earlier call.
pub open spec fn detail_of(es: Seq<EntryView>, index: int, d: Option<ToolDetail>) -> bool {
    match es[index] {
        EntryView::ToolCall(name, _, args) => d matches Some(t) && t.tool_name@ == name && t.arguments@ == args
            && match first_result_after(es, index + 1, name) {
                Some((full, ok)) => t.result matches Some(r) && r@ == full && t.success == Some(ok),
                None => t.result is None && t.success is None,
            },
        EntryView::ToolResult(name, _, full, ok) => d matches Some(t) && t.tool_name@ == name
            && t.arguments@ == (match last_call_before(es, index, name) {
                Some(a) => a,
                None => Seq::empty(),
            }) && (t.result matches Some(r) && r@ == full) && t.success == Some(ok),
        _ => d is None,
    }
}

/// Detail of the tool call or tool result at `index`.
pub fn find_tool_detail(entries: &[ConversationEntry], index: usize) -> (d: Option<ToolDetail>)
    requires
        index < entries@.len(),
    ensures
        detail_of(views(entries@), index as int, d),
{
    let ghost es = views(entries@);
    assert(es[index as int] == entries@[index as int]@);
    match &entries[index] {
        ConversationEntry::ToolCall { tool_name, arg_preview, full_arguments } => {
            assert(es[index as int] == EntryView::ToolCall(tool_name@, arg_preview@, full_arguments@));
            let mut j = index + 1;
            while j < entries.len()
                invariant
                    index < j <= entries@.len(),
                    es == views(entries@),
                    es[index as int] == EntryView::ToolCall(tool_name@, arg_preview@, full_arguments@),
                    first_result_after(es, index + 1, tool_name@) == first_result_after(es, j as int, tool_name@),
                decreases entries.len() - j,
            {
                match &entries[j] {
                    ConversationEntry::ToolResult { tool_name: tn, full_result, success, .. } => {
                        if str_eq(tn.as_str(), tool_name.as_str()) {
                            return Some(ToolDetail {
                                tool_name: tool_name.clone(),
                                arguments: full_arguments.clone(),
                                result: Some(full_result.clone()),
                                success: Some(*success),
                            });
                        }
                    },
                    _ => {},
                }
                j = j + 1;
            }
            Some(ToolDetail {
                tool_name: tool_name.clone(),
                arguments: full_arguments.clone(),
                result: None,
                success: None,
            })
        },
        ConversationEntry::ToolResult { tool_name, preview, full_result, success } => {
            assert(es[index as int] == EntryView::ToolResult(tool_name@, preview@, full_result@, *success));
            let mut j = index;
            while j > 0
                invariant
                    j <= index < entries@.len(),
                    es == views(entries@),
                    es[index as int] == EntryView::ToolResult(tool_name@, preview@, full_result@, *success),
                    last_call_before(es, index as int, tool_name@) == last_call_before(es, j as int, tool_name@),
                decreases j,
            {
                match &entries[j - 1] {
                    ConversationEntry::ToolCall { tool_name: tn, full_arguments, .. } => {
                        if str_eq(tn.as_str(), tool_name.as_str()) {
                            return Some(ToolDetail {
                                tool_name: tool_name.clone(),
                                arguments: full_arguments.clone(),
                                result: Some(full_result.clone()),
                                success: Some(*success),
                            });
                        }
                    },
                    _ => {},
                }
                j = j - 1;
            }
            Some(ToolDetail {
                tool_name: tool_name.clone(),
                arguments: String::new(),
                result: Some(full_result.clone()),
                success: Some(*success),
            })
        },
        _ => None,
    }
}

} // verus!
