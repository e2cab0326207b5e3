//! What a streamed turn does to a transcript.

use crate::chunks::{ToolCall, ToolCallResult};
use crate::json;
use crate::json::{DocView, FieldView, JsonDoc, JsonField};
use crate::message;
use crate::message::{Message, MessagePart, MessageRole, MessageView, PartView};
use crate::state;
use crate::state::{Chat, ChatView, ToolCallPlace, ToolPlaceView};
use crate::text;
use vstd::prelude::*;
use vstd::string::*;

verus! {

/// Parts with streamed text at their end: the last text part grows, else a new one begins.
pub open spec fn with_text(parts: Seq<PartView>, added: Seq<char>) -> Seq<PartView> {
    if parts.len() > 0 && parts.last().part_type == "text"@ && json::doc_str(
        parts.last().data,
        "text"@,
    ) is Some {
        parts.update(
            parts.len() - 1,
            PartView {
                data: json::doc_with(
                    parts.last().data,
                    "text"@,
                    FieldView::Text(json::doc_str(parts.last().data, "text"@)->0 + added),
                ),
                ..parts.last()
            },
        )
    } else {
        parts.push(message::text_part(added))
    }
}

/// A message after more of its text has come in.
pub open spec fn grown(m: MessageView, added: Seq<char>) -> MessageView {
    MessageView { content: m.content + added, parts: with_text(m.parts, added), ..m }
}

/// A message after more of its reasoning has come in.
pub open spec fn more_reasoned(m: MessageView, added: Seq<char>) -> MessageView {
    MessageView {
        reasoning: Some(
            match m.reasoning {
                Some(r) => r + added,
                None => added,
            },
        ),
        ..m
    }
}

pub open spec fn ends_with(s: Seq<char>, tail: Seq<char>) -> bool {
    tail.is_suffix_of(s)
}

pub open spec fn without_tail(s: Seq<char>, tail: Seq<char>) -> Seq<char> {
    s.take(s.len() - tail.len())
}

/// Whether what was streamed last is the end of a message.
pub open spec fn can_roll_back(m: MessageView, t: Seq<char>, r: Seq<char>) -> bool {
    &&& ends_with(m.content, t)
    &&& match m.reasoning {
        Some(own) => ends_with(own, r),
        None => r.len() == 0,
    }
    &&& t.len() > 0 ==> m.parts.len() > 0 && m.parts.last().part_type == "text"@ && (
    json::doc_str(m.parts.last().data, "text"@) matches Some(own) && ends_with(own, t))
}

/// A message without the text and reasoning that were streamed last.
pub open spec fn rolled_back(m: MessageView, t: Seq<char>, r: Seq<char>) -> MessageView {
    MessageView {
        content: without_tail(m.content, t),
        reasoning: match m.reasoning {
            Some(own) => Some(without_tail(own, r)),
            None => None,
        },
        parts: if t.len() > 0 {
            m.parts.update(
                m.parts.len() - 1,
                PartView {
                    data: json::doc_with(
                        m.parts.last().data,
                        "text"@,
                        FieldView::Text(
                            without_tail(json::doc_str(m.parts.last().data, "text"@)->0, t),
                        ),
                    ),
                    ..m.parts.last()
                },
            )
        } else {
            m.parts
        },
        ..m
    }
}

fn text_end(s: &str, tail: &str) -> (r: Option<String>)
    ensures
        match r {
            Some(front) => ends_with(s@, tail@) && front@ == without_tail(s@, tail@),
            None => !ends_with(s@, tail@),
        },
{
    let v = text::chars_of(s);
    let t = text::chars_of(tail);
    let n: usize = v.len();
    let k: usize = t.len();
    if k > n {
        return None;
    }
    if text::occurs_here(&v, &t, n - k) {
        assert(v@.subrange(n - k, n as int) =~= t@);
        assert(v@.take(n - k) =~= v@.subrange(0, n - k));
        Some(text::string_of_range(&v, 0, n - k))
    } else {
        assert(v@.subrange(n - k, n as int) =~= v@.skip(n - k));
        None
    }
}

proof fn lemma_parts_update(before: Seq<MessagePart>, i: int, p: MessagePart)
    requires
        0 <= i < before.len(),
    ensures
        message::parts_view(before.update(i, p)) == message::parts_view(before).update(i, p@),
{
    assert(message::parts_view(before.update(i, p)) =~= message::parts_view(before).update(i, p@));
}

impl Message {
    /// Takes in streamed text.
    pub fn append_text(&mut self, added: &str)
        ensures
            final(self)@ == grown(old(self)@, added@),
            final(self).content@ == old(self).content@ + added@,
    {
        self.content.append(added);
        let n: usize = self.parts.len();
        if n > 0 && text::same(self.parts[n - 1].part_type.as_str(), "text") {
            match self.parts[n - 1].data.get_str("text") {
                Some(own) => {
                    let mut own = own;
                    own.append(added);
                    let data = self.parts[n - 1].data.copy().with_str("text", own.as_str());
                    let part = MessagePart { part_type: "text".to_string(), data };
                    proof {
                        lemma_parts_update(self.parts@, n - 1, part);
                    }
                    self.parts[n - 1] = part;
                    return ;
                },
                None => {},
            }
        }
        let part = message::make_text_part(added);
        proof {
            message::lemma_parts_push(self.parts@, part);
        }
        self.parts.push(part);
    }

    /// Takes in streamed reasoning.
    pub fn append_reasoning(&mut self, added: &str)
        ensures
            final(self)@ == more_reasoned(old(self)@, added@),
    {
        let mut own = match text::copy_opt(&self.reasoning) {
            Some(r) => r,
            None => String::new(),
        };
        own.append(added);
        assert(Seq::<char>::empty() + added@ =~= added@);
        self.reasoning = Some(own);
    }

    /// Takes streamed text and reasoning back, if the message ends with them.
    pub fn roll_back(&mut self, t: &str, r: &str) -> (done: bool)
        ensures
            done == can_roll_back(old(self)@, t@, r@),
            final(self)@ == if done {
                rolled_back(old(self)@, t@, r@)
            } else {
                old(self)@
            },
    {
        let content = match text_end(self.content.as_str(), t) {
            Some(front) => front,
            None => {
                return false;
            },
        };
        let reasoning: Option<String> = match &self.reasoning {
            Some(own) => match text_end(own.as_str(), r) {
                Some(front) => Some(front),
                None => {
                    return false;
                },
            },
            None => {
                if !r.is_empty() {
                    return false;
                }
                None
            },
        };
        if !t.is_empty() {
            let n: usize = self.parts.len();
            if n == 0 || !text::same(self.parts[n - 1].part_type.as_str(), "text") {
                return false;
            }
            let shown = match self.parts[n - 1].data.get_str("text") {
                Some(own) => match text_end(own.as_str(), t) {
                    Some(front) => front,
                    None => {
                        return false;
                    },
                },
                None => {
                    return false;
                },
            };
            let data = self.parts[n - 1].data.copy().with_str("text", shown.as_str());
            let part = MessagePart { part_type: "text".to_string(), data };
            proof {
                lemma_parts_update(self.parts@, n - 1, part);
            }
            self.parts[n - 1] = part;
        }
        self.content = content;
        self.reasoning = reasoning;
        true
    }
}

pub open spec fn last_assistant(ms: Seq<MessageView>) -> Option<int> {
    message::last_role(ms, MessageRole::Assistant, ms.len() as int)
}

pub proof fn lemma_messages_update(before: Seq<Message>, i: int, m: Message)
    requires
        0 <= i < before.len(),
    ensures
        message::messages_view(before.update(i, m)) == message::messages_view(before).update(i, m@),
{
    assert(message::messages_view(before.update(i, m)) =~= message::messages_view(before).update(
        i,
        m@,
    ));
}

pub open spec fn text_appended(c: ChatView, added: Seq<char>) -> ChatView {
    match last_assistant(c.messages) {
        Some(i) => state::with_streamed(c, c.messages.update(i, grown(c.messages[i], added))),
        None => c,
    }
}

pub open spec fn reasoning_appended(c: ChatView, added: Seq<char>) -> ChatView {
    match last_assistant(c.messages) {
        Some(i) => state::with_streamed(
            c,
            c.messages.update(i, more_reasoned(c.messages[i], added)),
        ),
        None => c,
    }
}

pub open spec fn output_rolled_back(c: ChatView, t: Seq<char>, r: Seq<char>) -> ChatView {
    match last_assistant(c.messages) {
        Some(i) => if can_roll_back(c.messages[i], t, r) {
            state::with_messages(c, c.messages.update(i, rolled_back(c.messages[i], t, r)))
        } else {
            c
        },
        None => c,
    }
}

/// The last assistant message of a turn that began at `start`, marked as interrupted.
pub open spec fn turn_interrupted(c: ChatView, start: int) -> ChatView {
    match last_assistant(c.messages) {
        Some(i) => if i >= start {
            state::with_messages(
                c,
                c.messages.update(i, MessageView { was_interrupted: true, ..c.messages[i] }),
            )
        } else {
            c
        },
        None => c,
    }
}

/// A message as its turn leaves it: nothing runs any more where there was an error, and an
/// assistant message is complete and says what it was written by.
pub open spec fn settled(
    m: MessageView,
    model: Option<Seq<char>>,
    provider: Option<Seq<char>>,
    error: Option<Seq<char>>,
) -> MessageView {
    let failed = match error {
        Some(e) => message::with_failed_tools(m, e),
        None => m,
    };
    if m.role == MessageRole::Assistant {
        MessageView { is_complete: true, model, provider, ..failed }
    } else {
        failed
    }
}

/// The messages with those from `start` on settled, up to but not including `n`.
pub open spec fn settled_until(
    ms: Seq<MessageView>,
    start: int,
    n: int,
    model: Option<Seq<char>>,
    provider: Option<Seq<char>>,
    error: Option<Seq<char>>,
) -> Seq<MessageView> {
    Seq::new(
        ms.len(),
        |i: int|
            if start <= i < n {
                settled(ms[i], model, provider, error)
            } else {
                ms[i]
            },
    )
}

pub open spec fn turn_settled(
    c: ChatView,
    start: int,
    model: Option<Seq<char>>,
    provider: Option<Seq<char>>,
    error: Option<Seq<char>>,
) -> ChatView {
    state::with_messages(
        c,
        settled_until(c.messages, start, c.messages.len() as int, model, provider, error),
    )
}

/// Whatever the messages from `start` on show as running can be told to have failed.
pub open spec fn can_fail_from(ms: Seq<MessageView>, start: int) -> bool {
    forall|i: int| start <= i < ms.len() ==> message::can_fail(#[trigger] ms[i])
}

/// Whether a tool of the turn that began at `start` is under way.
pub open spec fn runs_tools(ms: Seq<MessageView>, start: int) -> bool {
    exists|i: int| start <= i < ms.len() && #[trigger] message::is_running_tool(ms[i])
}

pub open spec fn calls_of(calls: Seq<ToolCall>) -> Seq<PartView> {
    calls.map_values(
        |c: ToolCall|
            PartView {
                part_type: "tool_call"@,
                data: message::call_doc(c.id@, c.name@, message::args_field(c.arguments@)),
            },
    )
}

/// A transcript whose last assistant message has called tools.
#[verifier::opaque]
pub open spec fn calls_added(c: ChatView, calls: Seq<ToolCall>) -> ChatView {
    match last_assistant(c.messages) {
        Some(i) => state::with_messages(
            c,
            c.messages.update(
                i,
                MessageView {
                    parts: c.messages[i].parts + calls_of(calls),
                    ..c.messages[i]
                },
            ),
        ),
        None => c,
    }
}

/// Where those calls stand.
#[verifier::opaque]
pub open spec fn call_places(c: ChatView, calls: Seq<ToolCall>) -> Seq<ToolPlaceView> {
    match last_assistant(c.messages) {
        Some(i) => calls.map_values(
            |call: ToolCall| ToolPlaceView { id: call.id@, index: i as usize },
        ),
        None => Seq::empty(),
    }
}

/// What a message records of a call before its result.
pub open spec fn call_record(m: MessageView, id: Seq<char>) -> DocView {
    if m.role == MessageRole::Assistant {
        match message::part_data(m.parts, "tool_result"@, id) {
            Some(doc) => doc,
            None => match message::part_data(m.parts, "tool_call"@, id) {
                Some(doc) => doc,
                None => DocView::Object(Seq::empty()),
            },
        }
    } else {
        match json::json_parse(m.content) {
            Some(doc) => doc,
            None => DocView::Object(Seq::empty()),
        }
    }
}

pub open spec fn with_tool_result(
    m: MessageView,
    id: Seq<char>,
    name: Seq<char>,
    content: Seq<char>,
) -> MessageView {
    let doc = message::merged_result(
        call_record(m, id),
        id,
        name,
        content,
        json::json_parse(content),
    );
    if m.role == MessageRole::Assistant {
        MessageView { parts: message::with_result(m.parts, doc), ..m }
    } else {
        MessageView { content: json::json_text(doc), ..m }
    }
}

/// A transcript with a tool's result: in the message that called it where that is known, else
/// in the last assistant message, else in a message of its own.
#[verifier::opaque]
pub open spec fn result_added(
    c: ChatView,
    target: Option<usize>,
    id: Seq<char>,
    name: Seq<char>,
    content: Seq<char>,
) -> ChatView {
    if target is Some && target->0 < c.messages.len() {
        let i = target->0 as int;
        state::with_messages(
            c,
            c.messages.update(i, with_tool_result(c.messages[i], id, name, content)),
        )
    } else {
        let doc = message::stray_result(id, name, content);
        match last_assistant(c.messages) {
            Some(i) => state::with_messages(
                c,
                c.messages.update(
                    i,
                    MessageView {
                        parts: message::with_result(c.messages[i].parts, doc),
                        ..c.messages[i]
                    },
                ),
            ),
            None => state::with_messages(
                c,
                c.messages.push(
                    message::new_message(MessageRole::Tool, json::json_text(doc), true),
                ),
            ),
        }
    }
}

impl Chat {
    pub fn append_to_last_assistant(&mut self, added: &str)
        ensures
            final(self)@ == text_appended(old(self)@, added@),
    {
        match message::last_of_role(&self.messages, MessageRole::Assistant) {
            Some(i) => {
                let ghost before = self.messages@;
                self.messages[i].append_text(added);
                self.render_cached = false;
                proof {
                    lemma_messages_update(before, i as int, self.messages@[i as int]);
                    assert(self.messages@ =~= before.update(i as int, self.messages@[i as int]));
                }
            },
            None => {},
        }
    }

    pub fn append_reasoning_to_last_assistant(&mut self, added: &str)
        ensures
            final(self)@ == reasoning_appended(old(self)@, added@),
    {
        match message::last_of_role(&self.messages, MessageRole::Assistant) {
            Some(i) => {
                let ghost before = self.messages@;
                self.messages[i].append_reasoning(added);
                self.render_cached = false;
                proof {
                    lemma_messages_update(before, i as int, self.messages@[i as int]);
                    assert(self.messages@ =~= before.update(i as int, self.messages@[i as int]));
                }
            },
            None => {},
        }
    }

    pub fn rollback_streamed_output(&mut self, t: &str, r: &str)
        ensures
            final(self)@ == output_rolled_back(old(self)@, t@, r@),
    {
        match message::last_of_role(&self.messages, MessageRole::Assistant) {
            Some(i) => {
                let ghost before = self.messages@;
                if self.messages[i].roll_back(t, r) {
                    self.render_cached = false;
                    self.revision = state::count_revision(self.revision);
                    proof {
                        lemma_messages_update(before, i as int, self.messages@[i as int]);
                        assert(self.messages@ =~= before.update(i as int, self.messages@[i as int]));
                    }
                } else {
                    assert(message::messages_view(self.messages@) =~= message::messages_view(
                        before,
                    ));
                }
            },
            None => {},
        }
    }

    pub fn mark_turn_interrupted(&mut self, start: usize)
        ensures
            final(self)@ == turn_interrupted(old(self)@, start as int),
    {
        match message::last_of_role(&self.messages, MessageRole::Assistant) {
            Some(i) => if i >= start {
                let ghost before = self.messages@;
                self.messages[i].was_interrupted = true;
                self.render_cached = false;
                self.revision = state::count_revision(self.revision);
                proof {
                    lemma_messages_update(before, i as int, self.messages@[i as int]);
                    assert(self.messages@ =~= before.update(i as int, self.messages@[i as int]));
                }
            },
            None => {},
        }
    }

    /// Settles the messages of the turn that began at `start`. After an error no tool of the turn
    /// is under way, as far as its messages can say so.
    pub fn settle_turn(
        &mut self,
        start: usize,
        model: &Option<String>,
        provider: &Option<String>,
        error: Option<&str>,
    )
        ensures
            final(self)@ == turn_settled(
                old(self)@,
                start as int,
                text::opt_view(*model),
                text::opt_view(*provider),
                match error {
                    Some(e) => Some(e@),
                    None => None,
                },
            ),
            error is Some && can_fail_from(old(self)@.messages, start as int) ==> !runs_tools(
                final(self)@.messages,
                start as int,
            ),
    {
        let ghost all = self@.messages;
        let ghost by = text::opt_view(*model);
        let ghost from = text::opt_view(*provider);
        let ghost failure = match error {
            Some(e) => Some(e@),
            None => None,
        };
        let ghost whole = *self;
        let n: usize = self.messages.len();
        let mut i: usize = start;
        assert(message::messages_view(self.messages@) =~= settled_until(
            all,
            start as int,
            i as int,
            by,
            from,
            failure,
        ));
        while i < n
            invariant
                self.messages@.len() == n,
                all.len() == n,
                start <= i,
                start <= n ==> i <= n,
                start > n ==> i == start,
                by == text::opt_view(*model),
                from == text::opt_view(*provider),
                failure == match error {
                    Some(e) => Some(e@),
                    None => None,
                },
                message::messages_view(self.messages@) == settled_until(
                    all,
                    start as int,
                    i as int,
                    by,
                    from,
                    failure,
                ),
                error is Some ==> forall|j: int|
                    start <= j < i && j < n && message::can_fail(all[j])
                        ==> !message::is_running_tool(#[trigger] settled(all[j], by, from, failure)),
                self.highlighted == whole.highlighted,
                self.thinking_visible == whole.thinking_visible,
                self.revision == whole.revision,
                self.has_selection == whole.has_selection,
                self.is_dragging == whole.is_dragging,
            decreases n - i,
        {
            let ghost before = self.messages@;
            proof {
                assert(message::messages_view(before)[i as int] == before[i as int]@);
            }
            match error {
                Some(e) => {
                    self.messages[i].fail_running_tools(e);
                },
                None => {},
            }
            if self.messages[i].role == MessageRole::Assistant {
                self.messages[i].is_complete = true;
                self.messages[i].model = text::copy_opt(model);
                self.messages[i].provider = text::copy_opt(provider);
            }
            proof {
                assert(self.messages@[i as int]@ == settled(all[i as int], by, from, failure));
                if error is Some && message::can_fail(all[i as int]) {
                    assert(!message::is_running_tool(self.messages@[i as int]@));
                }
                assert(self.messages@ =~= before.update(i as int, self.messages@[i as int]));
                lemma_messages_update(before, i as int, self.messages@[i as int]);
                assert(message::messages_view(self.messages@) =~= settled_until(
                    all,
                    start as int,
                    i as int + 1,
                    by,
                    from,
                    failure,
                ));
            }
            i += 1;
        }
        self.render_cached = false;
        self.revision = state::count_revision(self.revision);
        assert(message::messages_view(self.messages@) =~= settled_until(
            all,
            start as int,
            all.len() as int,
            by,
            from,
            failure,
        ));
        proof {
            if error is Some && can_fail_from(all, start as int) {
                assert forall|j: int| start <= j < self@.messages.len() implies
                    !#[trigger] message::is_running_tool(self@.messages[j]) by {
                    assert(self@.messages[j] == settled(all[j], by, from, failure));
                    assert(message::can_fail(all[j]));
                }
            }
        }
    }

    pub fn has_running_tools(&self, start: usize) -> (r: bool)
        ensures
            r == runs_tools(self@.messages, start as int),
    {
        let n: usize = self.messages.len();
        let mut i: usize = start;
        while i < n
            invariant
                n == self.messages@.len(),
                start <= i,
                start <= n ==> i <= n,
                forall|j: int|
                    start <= j < i && j < n ==> !message::is_running_tool(
                        #[trigger] self@.messages[j],
                    ),
            decreases n - i,
        {
            if message::is_running_tool_message(&self.messages[i]) {
                assert(message::is_running_tool(self@.messages[i as int]));
                return true;
            }
            i += 1;
        }
        false
    }

    /// Records tool calls in the last assistant message and says where they stand.
    pub fn add_tool_calls(&mut self, calls: &Vec<ToolCall>) -> (r: Vec<ToolCallPlace>)
        ensures
            final(self)@ == calls_added(old(self)@, calls@),
            state::tool_places(r@) == call_places(old(self)@, calls@),
    {
        reveal(calls_added);
        reveal(call_places);
        let mut places: Vec<ToolCallPlace> = Vec::new();
        match message::last_of_role(&self.messages, MessageRole::Assistant) {
            Some(i) => {
                let ghost before = self.messages@;
                let ghost m = before[i as int]@;
                let ghost whole = *self;
                let ghost all = call_places(self@, calls@);
                assert(calls_of(calls@).take(0) =~= Seq::<PartView>::empty());
                assert(m.parts + Seq::<PartView>::empty() =~= m.parts);
                assert(state::tool_places(places@) =~= all.take(0));
                for k in 0..calls.len()
                    invariant
                        i < before.len(),
                        self.messages@ == before.update(i as int, self.messages@[i as int]),
                        m == before[i as int]@,
                        self.messages@[i as int]@ == (MessageView {
                            parts: m.parts + calls_of(calls@).take(k as int),
                            ..m
                        }),
                        all.len() == calls@.len(),
                        forall|j: int|
                            0 <= j < all.len() ==> #[trigger] all[j] == (ToolPlaceView {
                                id: calls@[j].id@,
                                index: i,
                            }),
                        state::tool_places(places@) == all.take(k as int),
                        self.highlighted == whole.highlighted,
                        self.thinking_visible == whole.thinking_visible,
                        self.revision == whole.revision,
                        self.has_selection == whole.has_selection,
                        self.is_dragging == whole.is_dragging,
                {
                    let ghost here = self.messages@;
                    let args = message::tool_arguments(calls[k].arguments.as_str());
                    self.messages[i].add_tool_call_part(
                        calls[k].id.as_str(),
                        calls[k].name.as_str(),
                        args,
                    );
                    let ghost so_far = places@;
                    let place = ToolCallPlace { id: calls[k].id.clone(), index: i };
                    places.push(place);
                    proof {
                        assert(self.messages@ =~= before.update(
                            i as int,
                            self.messages@[i as int],
                        ));
                        let added = calls_of(calls@);
                        assert(added.take(k as int + 1) =~= added.take(k as int).push(
                            added[k as int],
                        ));
                        assert(m.parts + added.take(k as int + 1) =~= (m.parts + added.take(
                            k as int,
                        )).push(added[k as int]));
                        assert(all.take(k as int + 1) =~= all.take(k as int).push(all[k as int]));
                        assert(state::tool_places(places@) =~= state::tool_places(so_far).push(
                            place@,
                        ));
                    }
                }
                self.render_cached = false;
                self.revision = state::count_revision(self.revision);
                proof {
                    assert(calls_of(calls@).take(calls@.len() as int) =~= calls_of(calls@));
                    assert(all.take(calls@.len() as int) =~= all);
                    lemma_messages_update(before, i as int, self.messages@[i as int]);
                }
            },
            None => {
                assert(state::tool_places(places@) =~= Seq::<ToolPlaceView>::empty());
            },
        }
        places
    }

    /// Takes in a tool's result.
    pub fn add_tool_result(&mut self, target: Option<usize>, result: &ToolCallResult)
        ensures
            final(self)@ == result_added(
                old(self)@,
                target,
                result.tool_call_id@,
                result.name@,
                result.content@,
            ),
    {
        reveal(result_added);
        match target {
            Some(i) => {
                if i < self.messages.len() {
                    let ghost before = self.messages@;
                    self.messages[i].take_tool_result(result);
                    self.render_cached = false;
                    self.revision = state::count_revision(self.revision);
                    proof {
                        lemma_messages_update(before, i as int, self.messages@[i as int]);
                        assert(self.messages@ =~= before.update(i as int, self.messages@[i as int]));
                    }
                    return ;
                }
            },
            None => {},
        }
        let doc = message::stray_tool_result(
            result.tool_call_id.as_str(),
            result.name.as_str(),
            result.content.as_str(),
        );
        match message::last_of_role(&self.messages, MessageRole::Assistant) {
            Some(i) => {
                let ghost before = self.messages@;
                self.messages[i].add_or_update_tool_result_part(doc);
                self.render_cached = false;
                self.revision = state::count_revision(self.revision);
                proof {
                    lemma_messages_update(before, i as int, self.messages@[i as int]);
                    assert(self.messages@ =~= before.update(i as int, self.messages@[i as int]));
                }
            },
            None => {
                let content = json::render_json(&doc);
                self.add_message(Message::tool(content.as_str()));
            },
        }
    }
}

impl Message {
    fn take_tool_result(&mut self, result: &ToolCallResult)
        ensures
            final(self)@ == with_tool_result(
                old(self)@,
                result.tool_call_id@,
                result.name@,
                result.content@,
            ),
    {
        let id = result.tool_call_id.as_str();
        let record: JsonDoc = if self.role == MessageRole::Assistant {
            match self.tool_result_part_data(id) {
                Some(doc) => doc,
                None => match self.tool_call_part_data(id) {
                    Some(doc) => doc,
                    None => JsonDoc::empty(),
                },
            }
        } else {
            match json::parse_json(self.content.as_str()) {
                Some(doc) => doc,
                None => JsonDoc::empty(),
            }
        };
        let payload = json::parse_json(result.content.as_str());
        let doc = message::merge_tool_result(
            record,
            id,
            result.name.as_str(),
            result.content.as_str(),
            payload,
        );
        if self.role == MessageRole::Assistant {
            self.add_or_update_tool_result_part(doc);
        } else {
            self.content = json::render_json(&doc);
        }
    }
}

} // verus!
