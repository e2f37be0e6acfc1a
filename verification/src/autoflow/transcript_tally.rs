//! What a run's transcripts add up to: who ran (agents, providers,
//! models), how much happened (messages, tool calls, commands, actions,
//! file edits), and how many tokens were spent.

use vstd::prelude::*;
use crate::autoflow::wake_hints::{insert_sorted, sorted_set, text_set};
use crate::text::{chars_of, trim_chars, trim_seq};

verus! {

/// How a transcript says a file was edited.
#[derive(Debug, Clone, Copy, PartialEq, Eq, Structural)]
pub enum FileEditKind {
    Create,
    Modify,
    Delete,
}

/// The transcript events a run summary counts.
#[derive(Debug, Clone)]
pub enum TranscriptEvent {
    RunStart { agent: String, provider: String, model: String },
    AssistantMessage { content: String },
    ToolCall,
    CommandRun,
    ActionEmitted,
    FileEdit { kind: FileEditKind },
    Usage { provider: String, model: String, input_tokens: u32, output_tokens: u32, cached_tokens: u32 },
    /// Anything else.
    Other,
}

/// The running totals over a run's transcripts. The name lists are sorted
/// and hold each name once.
#[derive(Debug, Clone)]
pub struct TranscriptTally {
    pub agents: Vec<String>,
    pub providers: Vec<String>,
    pub models: Vec<String>,
    pub assistant_messages: u64,
    pub tool_calls: u64,
    pub command_runs: u64,
    pub actions_emitted: u64,
    pub file_edit_events: u64,
    pub file_creates: u64,
    pub file_modifies: u64,
    pub file_deletes: u64,
    pub input_tokens: u64,
    pub output_tokens: u64,
    pub cached_tokens: u64,
}

/// The totals as plain values.
pub struct TallyCounts {
    pub agents: Set<Seq<char>>,
    pub providers: Set<Seq<char>>,
    pub models: Set<Seq<char>>,
    pub assistant_messages: nat,
    pub tool_calls: nat,
    pub command_runs: nat,
    pub actions_emitted: nat,
    pub file_edit_events: nat,
    pub file_creates: nat,
    pub file_modifies: nat,
    pub file_deletes: nat,
    pub input_tokens: nat,
    pub output_tokens: nat,
    pub cached_tokens: nat,
}

pub open spec fn tally_wf(t: TranscriptTally) -> bool {
    sorted_set(t.agents@) && sorted_set(t.providers@) && sorted_set(t.models@)
}

pub open spec fn counts_of(t: TranscriptTally) -> TallyCounts {
    TallyCounts {
        agents: text_set(t.agents@),
        providers: text_set(t.providers@),
        models: text_set(t.models@),
        assistant_messages: t.assistant_messages as nat,
        tool_calls: t.tool_calls as nat,
        command_runs: t.command_runs as nat,
        actions_emitted: t.actions_emitted as nat,
        file_edit_events: t.file_edit_events as nat,
        file_creates: t.file_creates as nat,
        file_modifies: t.file_modifies as nat,
        file_deletes: t.file_deletes as nat,
        input_tokens: t.input_tokens as nat,
        output_tokens: t.output_tokens as nat,
        cached_tokens: t.cached_tokens as nat,
    }
}

/// One event counted: a run start names its agent, provider and model; a
/// message counts when it is not blank; tool calls, commands and actions
/// count one each; a file edit counts as an edit and by its kind; usage
/// names its provider and model and adds its tokens.
pub open spec fn count_event(c: TallyCounts, e: TranscriptEvent) -> TallyCounts {
    match e {
        TranscriptEvent::RunStart { agent, provider, model } => TallyCounts {
            agents: c.agents.insert(agent@),
            providers: c.providers.insert(provider@),
            models: c.models.insert(model@),
            ..c
        },
        TranscriptEvent::AssistantMessage { content } => if trim_seq(content@).len() > 0 {
            TallyCounts { assistant_messages: c.assistant_messages + 1, ..c }
        } else {
            c
        },
        TranscriptEvent::ToolCall => TallyCounts { tool_calls: c.tool_calls + 1, ..c },
        TranscriptEvent::CommandRun => TallyCounts { command_runs: c.command_runs + 1, ..c },
        TranscriptEvent::ActionEmitted => TallyCounts { actions_emitted: c.actions_emitted + 1, ..c },
        TranscriptEvent::FileEdit { kind } => {
            let c1 = TallyCounts { file_edit_events: c.file_edit_events + 1, ..c };
            match kind {
                FileEditKind::Create => TallyCounts { file_creates: c1.file_creates + 1, ..c1 },
                FileEditKind::Modify => TallyCounts { file_modifies: c1.file_modifies + 1, ..c1 },
                FileEditKind::Delete => TallyCounts { file_deletes: c1.file_deletes + 1, ..c1 },
            }
        },
        TranscriptEvent::Usage { provider, model, input_tokens, output_tokens, cached_tokens } => TallyCounts {
            providers: c.providers.insert(provider@),
            models: c.models.insert(model@),
            input_tokens: c.input_tokens + input_tokens as nat,
            output_tokens: c.output_tokens + output_tokens as nat,
            cached_tokens: c.cached_tokens + cached_tokens as nat,
            ..c
        },
        TranscriptEvent::Other => c,
    }
}

/// The totals after `events`, read in order, starting from `c`.
pub open spec fn count_events(c: TallyCounts, events: Seq<TranscriptEvent>) -> TallyCounts
    decreases events.len(),
{
    if events.len() == 0 {
        c
    } else {
        count_event(count_events(c, events.drop_last()), events.last())
    }
}

/// Every total fits a `u64`.
pub open spec fn fits(c: TallyCounts) -> bool {
    &&& c.assistant_messages <= u64::MAX
    &&& c.tool_calls <= u64::MAX
    &&& c.command_runs <= u64::MAX
    &&& c.actions_emitted <= u64::MAX
    &&& c.file_edit_events <= u64::MAX
    &&& c.file_creates <= u64::MAX
    &&& c.file_modifies <= u64::MAX
    &&& c.file_deletes <= u64::MAX
    &&& c.input_tokens <= u64::MAX
    &&& c.output_tokens <= u64::MAX
    &&& c.cached_tokens <= u64::MAX
}

/// Each total of `a` is at most that of `b`.
pub open spec fn counts_le(a: TallyCounts, b: TallyCounts) -> bool {
    &&& a.assistant_messages <= b.assistant_messages
    &&& a.tool_calls <= b.tool_calls
    &&& a.command_runs <= b.command_runs
    &&& a.actions_emitted <= b.actions_emitted
    &&& a.file_edit_events <= b.file_edit_events
    &&& a.file_creates <= b.file_creates
    &&& a.file_modifies <= b.file_modifies
    &&& a.file_deletes <= b.file_deletes
    &&& a.input_tokens <= b.input_tokens
    &&& a.output_tokens <= b.output_tokens
    &&& a.cached_tokens <= b.cached_tokens
}

proof fn lemma_count_events_grow(c: TallyCounts, events: Seq<TranscriptEvent>, k: int)
    requires
        0 <= k <= events.len(),
    ensures
        counts_le(count_events(c, events.subrange(0, k)), count_events(c, events)),
    decreases events.len() - k,
{
    if k < events.len() {
        assert(events.drop_last() =~= events.subrange(0, events.len() - 1));
        lemma_count_events_grow(c, events.drop_last(), k);
        assert(events.drop_last().subrange(0, k) =~= events.subrange(0, k));
    } else {
        assert(events.subrange(0, k) =~= events);
    }
}

fn tally_event(t: &mut TranscriptTally, e: &TranscriptEvent)
    requires
        tally_wf(*old(t)),
        fits(count_event(counts_of(*old(t)), *e)),
    ensures
        tally_wf(*final(t)),
        counts_of(*final(t)) == count_event(counts_of(*old(t)), *e),
{
    match e {
        TranscriptEvent::RunStart { agent, provider, model } => {
            insert_sorted(&mut t.agents, agent.as_str());
            insert_sorted(&mut t.providers, provider.as_str());
            insert_sorted(&mut t.models, model.as_str());
        },
        TranscriptEvent::AssistantMessage { content } => {
            if trim_chars(chars_of(content.as_str()).as_slice()).len() > 0 {
                t.assistant_messages = t.assistant_messages + 1;
            }
        },
        TranscriptEvent::ToolCall => {
            t.tool_calls = t.tool_calls + 1;
        },
        TranscriptEvent::CommandRun => {
            t.command_runs = t.command_runs + 1;
        },
        TranscriptEvent::ActionEmitted => {
            t.actions_emitted = t.actions_emitted + 1;
        },
        TranscriptEvent::FileEdit { kind } => {
            t.file_edit_events = t.file_edit_events + 1;
            match kind {
                FileEditKind::Create => t.file_creates = t.file_creates + 1,
                FileEditKind::Modify => t.file_modifies = t.file_modifies + 1,
                FileEditKind::Delete => t.file_deletes = t.file_deletes + 1,
            }
        },
        TranscriptEvent::Usage { provider, model, input_tokens, output_tokens, cached_tokens } => {
            insert_sorted(&mut t.providers, provider.as_str());
            insert_sorted(&mut t.models, model.as_str());
            t.input_tokens = t.input_tokens + *input_tokens as u64;
            t.output_tokens = t.output_tokens + *output_tokens as u64;
            t.cached_tokens = t.cached_tokens + *cached_tokens as u64;
        },
        TranscriptEvent::Other => {},
    }
}

/// Add one transcript's events, in order, to the totals. The totals must
/// stay within `u64`, as the additions would otherwise overflow.
pub fn tally_transcript(t: &mut TranscriptTally, events: &Vec<TranscriptEvent>)
    requires
        tally_wf(*old(t)),
        fits(count_events(counts_of(*old(t)), events@)),
    ensures
        tally_wf(*final(t)),
        counts_of(*final(t)) == count_events(counts_of(*old(t)), events@),
{
    let ghost c0 = counts_of(*t);
    let mut i: usize = 0;
    proof {
        assert(events@.subrange(0, 0) =~= Seq::<TranscriptEvent>::empty());
    }
    while i < events.len()
        invariant
            i <= events@.len(),
            tally_wf(*t),
            fits(count_events(c0, events@)),
            counts_of(*t) == count_events(c0, events@.subrange(0, i as int)),
        decreases events@.len() - i,
    {
        proof {
            lemma_count_events_grow(c0, events@, i + 1);
            assert(events@.subrange(0, i + 1).drop_last() =~= events@.subrange(0, i as int));
        }
        tally_event(t, &events[i]);
        i = i + 1;
    }
    proof {
        assert(events@.subrange(0, events@.len() as int) =~= events@);
    }
}

/// An empty tally.
pub fn new_tally() -> (r: TranscriptTally)
    ensures
        tally_wf(r),
        counts_of(r) == (TallyCounts {
            agents: Set::empty(),
            providers: Set::empty(),
            models: Set::empty(),
            assistant_messages: 0,
            tool_calls: 0,
            command_runs: 0,
            actions_emitted: 0,
            file_edit_events: 0,
            file_creates: 0,
            file_modifies: 0,
            file_deletes: 0,
            input_tokens: 0,
            output_tokens: 0,
            cached_tokens: 0,
        }),
{
    let r = TranscriptTally {
        agents: Vec::new(),
        providers: Vec::new(),
        models: Vec::new(),
        assistant_messages: 0,
        tool_calls: 0,
        command_runs: 0,
        actions_emitted: 0,
        file_edit_events: 0,
        file_creates: 0,
        file_modifies: 0,
        file_deletes: 0,
        input_tokens: 0,
        output_tokens: 0,
        cached_tokens: 0,
    };
    proof {
        assert(text_set(r.agents@) =~= Set::<Seq<char>>::empty());
        assert(text_set(r.providers@) =~= Set::<Seq<char>>::empty());
        assert(text_set(r.models@) =~= Set::<Seq<char>>::empty());
    }
    r
}

/// Token usage of a run: input, output, cached, and input plus output.
#[derive(Debug, Clone, Copy, PartialEq, Eq, Structural)]
pub struct TokenUsage {
    pub input_tokens: u64,
    pub output_tokens: u64,
    pub cached_tokens: u64,
    pub total_tokens: u64,
}

/// The run's token usage, or nothing when no token was counted at all.
pub fn token_usage(t: &TranscriptTally) -> (r: Option<TokenUsage>)
    requires
        t.input_tokens + t.output_tokens <= u64::MAX,
    ensures
        (t.input_tokens + t.output_tokens == 0 && t.cached_tokens == 0) <==> r is None,
        r matches Some(u) ==> u.input_tokens == t.input_tokens && u.output_tokens == t.output_tokens
            && u.cached_tokens == t.cached_tokens && u.total_tokens == t.input_tokens + t.output_tokens,
{
    let total = t.input_tokens + t.output_tokens;
    if total == 0 && t.cached_tokens == 0 {
        return None;
    }
    Some(
        TokenUsage {
            input_tokens: t.input_tokens,
            output_tokens: t.output_tokens,
            cached_tokens: t.cached_tokens,
            total_tokens: total,
        },
    )
}

/// Tallying two transcripts one after the other gives the totals of
/// tallying their events as one transcript.
pub proof fn law_tally_concat(c: TallyCounts, a: Seq<TranscriptEvent>, b: Seq<TranscriptEvent>)
    ensures
        count_events(count_events(c, a), b) == count_events(c, a + b),
    decreases b.len(),
{
    if b.len() == 0 {
        assert(a + b =~= a);
    } else {
        law_tally_concat(c, a, b.drop_last());
        assert((a + b).drop_last() =~= a + b.drop_last());
        assert((a + b).last() == b.last());
    }
}

} // verus!
