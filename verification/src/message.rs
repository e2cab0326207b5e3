//! Messages of a transcript, the parts they are made of, and what is copied out of them.

use crate::json;
use crate::json::{DocView, FieldView, JsonDoc, JsonField};
use crate::text;
use vstd::prelude::*;
use vstd::string::*;

verus! {

#[derive(Debug, Clone, Copy, PartialEq, Eq, Structural)]
pub enum MessageRole {
    System,
    User,
    Assistant,
    Tool,
}

/// What a compaction did to the context of a session.
#[derive(Debug, Clone, Copy, PartialEq, Eq, Structural)]
pub struct CompactionStats {
    pub before_tokens: usize,
    pub after_tokens: usize,
    pub before_messages: usize,
    pub after_messages: usize,
}

/// A piece of an assistant message: `text`, `tool_call` or `tool_result`.
#[derive(Debug)]
pub struct MessagePart {
    pub part_type: String,
    pub data: JsonDoc,
}

pub struct PartView {
    pub part_type: Seq<char>,
    pub data: DocView,
}

impl View for MessagePart {
    type V = PartView;

    open spec fn view(&self) -> PartView {
        PartView { part_type: self.part_type@, data: self.data@ }
    }
}

#[derive(Debug)]
pub struct Message {
    pub role: MessageRole,
    pub content: String,
    pub reasoning: Option<String>,
    pub parts: Vec<MessagePart>,
    pub is_complete: bool,
    pub was_interrupted: bool,
    pub agent_mode: Option<String>,
    pub model: Option<String>,
    pub provider: Option<String>,
    pub local_image_paths: Vec<String>,
    pub token_count: Option<usize>,
    pub compaction_stats: Option<CompactionStats>,
}

pub struct MessageView {
    pub role: MessageRole,
    pub content: Seq<char>,
    pub reasoning: Option<Seq<char>>,
    pub parts: Seq<PartView>,
    pub is_complete: bool,
    pub was_interrupted: bool,
    pub agent_mode: Option<Seq<char>>,
    pub model: Option<Seq<char>>,
    pub provider: Option<Seq<char>>,
    pub local_image_paths: Seq<Seq<char>>,
    pub token_count: Option<usize>,
    pub compaction_stats: Option<CompactionStats>,
}

pub open spec fn parts_view(parts: Seq<MessagePart>) -> Seq<PartView> {
    parts.map_values(|p: MessagePart| p@)
}

impl View for Message {
    type V = MessageView;

    open spec fn view(&self) -> MessageView {
        MessageView {
            role: self.role,
            content: self.content@,
            reasoning: text::opt_view(self.reasoning),
            parts: parts_view(self.parts@),
            is_complete: self.is_complete,
            was_interrupted: self.was_interrupted,
            agent_mode: text::opt_view(self.agent_mode),
            model: text::opt_view(self.model),
            provider: text::opt_view(self.provider),
            local_image_paths: text::views(self.local_image_paths@),
            token_count: self.token_count,
            compaction_stats: self.compaction_stats,
        }
    }
}

pub open spec fn messages_view(ms: Seq<Message>) -> Seq<MessageView> {
    ms.map_values(|m: Message| m@)
}

/// The one text part of a message that begins with `content`, none where it is empty.
pub open spec fn text_parts(content: Seq<char>) -> Seq<PartView> {
    if content.len() == 0 {
        Seq::empty()
    } else {
        seq![text_part(content)]
    }
}

pub open spec fn text_part(content: Seq<char>) -> PartView {
    PartView {
        part_type: "text"@,
        data: json::doc_with(DocView::Null, "text"@, FieldView::Text(content)),
    }
}

/// A message as it is made.
pub open spec fn new_message(role: MessageRole, content: Seq<char>, is_complete: bool) -> MessageView {
    MessageView {
        role,
        content,
        reasoning: None,
        parts: if role == MessageRole::Assistant {
            text_parts(content)
        } else {
            Seq::empty()
        },
        is_complete,
        was_interrupted: false,
        agent_mode: None,
        model: None,
        provider: None,
        local_image_paths: Seq::empty(),
        token_count: None,
        compaction_stats: None,
    }
}

pub fn make_text_part(content: &str) -> (r: MessagePart)
    ensures
        r@ == text_part(content@),
{
    MessagePart { part_type: "text".to_string(), data: JsonDoc::Null.with_str("text", content) }
}

pub open spec fn is_part(p: PartView, part_type: Seq<char>, id: Seq<char>) -> bool {
    p.part_type == part_type && json::doc_str(p.data, "id"@) == Some(id)
}

/// The first part of the given type that bears the given id, from position `i` on.
pub open spec fn part_from(
    parts: Seq<PartView>,
    part_type: Seq<char>,
    id: Seq<char>,
    i: int,
) -> Option<int>
    decreases parts.len() - i,
{
    if i < 0 || i >= parts.len() {
        None
    } else if is_part(parts[i], part_type, id) {
        Some(i)
    } else {
        part_from(parts, part_type, id, i + 1)
    }
}

pub open spec fn has_part(parts: Seq<PartView>, part_type: Seq<char>, id: Seq<char>) -> bool {
    part_from(parts, part_type, id, 0) is Some
}

pub open spec fn part_data(
    parts: Seq<PartView>,
    part_type: Seq<char>,
    id: Seq<char>,
) -> Option<DocView> {
    match part_from(parts, part_type, id, 0) {
        Some(i) => Some(parts[i].data),
        None => None,
    }
}

/// A tool call that is still under way: marked so, and without a result.
pub open spec fn is_running_call(parts: Seq<PartView>, i: int) -> bool {
    let p = parts[i];
    &&& p.part_type == "tool_call"@
    &&& json::doc_str(p.data, "status"@) == Some("running"@)
    &&& match json::doc_str(p.data, "id"@) {
        Some(id) => !has_part(parts, "tool_result"@, id),
        None => true,
    }
}

pub open spec fn has_running_call(parts: Seq<PartView>) -> bool {
    exists|i: int| 0 <= i < parts.len() && #[trigger] is_running_call(parts, i)
}

/// What a new tool call records.
pub open spec fn call_doc(id: Seq<char>, name: Seq<char>, args: FieldView) -> DocView {
    json::doc_with(
        json::doc_with(
            json::doc_with(
                json::doc_with(DocView::Null, "id"@, FieldView::Text(id)),
                "name"@,
                FieldView::Text(name),
            ),
            "status"@,
            FieldView::Text("running"@),
        ),
        "args"@,
        args,
    )
}

/// What a tool that failed reports.
pub open spec fn failure_doc(doc: DocView, error: Seq<char>) -> DocView {
    json::doc_with(
        json::doc_with(
            json::doc_with(doc, "status"@, FieldView::Text("error"@)),
            "title"@,
            FieldView::Text("Tool failed"@),
        ),
        "output_preview"@,
        FieldView::Text(error),
    )
}

/// A result replaces an earlier one of the same id, else it is added.
pub open spec fn with_result(parts: Seq<PartView>, doc: DocView) -> Seq<PartView> {
    let part = PartView { part_type: "tool_result"@, data: doc };
    match json::doc_str(doc, "id"@) {
        Some(id) => match part_from(parts, "tool_result"@, id, 0) {
            Some(i) => parts.update(i, part),
            None => parts.push(part),
        },
        None => parts.push(part),
    }
}

/// The parts after every running call among the first `n` has failed.
pub open spec fn failed_calls(parts: Seq<PartView>, n: int, error: Seq<char>) -> Seq<PartView>
    decreases n,
{
    if n <= 0 {
        parts
    } else {
        let before = failed_calls(parts, n - 1, error);
        if is_running_call(parts, n - 1) {
            before.push(
                PartView { part_type: "tool_result"@, data: failure_doc(parts[n - 1].data, error) },
            )
        } else {
            before
        }
    }
}

pub proof fn lemma_parts_push(parts: Seq<MessagePart>, p: MessagePart)
    ensures
        parts_view(parts.push(p)) == parts_view(parts).push(p@),
{
    assert(parts_view(parts.push(p)) =~= parts_view(parts).push(p@));
}

impl MessagePart {
    pub fn copy(&self) -> (r: MessagePart)
        ensures
            r@ == self@,
    {
        MessagePart { part_type: self.part_type.clone(), data: self.data.copy() }
    }
}

pub fn copy_parts(parts: &Vec<MessagePart>) -> (r: Vec<MessagePart>)
    ensures
        parts_view(r@) == parts_view(parts@),
{
    let mut out: Vec<MessagePart> = Vec::new();
    for i in 0..parts.len()
        invariant
            parts_view(out@) == parts_view(parts@).take(i as int),
    {
        let p = parts[i].copy();
        proof {
            lemma_parts_push(out@, p);
            assert(parts_view(parts@).take(i + 1) =~= parts_view(parts@).take(i as int).push(p@));
        }
        out.push(p);
    }
    assert(parts_view(parts@).take(parts@.len() as int) =~= parts_view(parts@));
    out
}

impl Message {
    fn make(role: MessageRole, content: &str, is_complete: bool) -> (r: Message)
        ensures
            r@ == new_message(role, content@, is_complete),
    {
        let mut parts: Vec<MessagePart> = Vec::new();
        assert(parts_view(parts@) =~= Seq::<PartView>::empty());
        if role == MessageRole::Assistant && !content.is_empty() {
            let p = make_text_part(content);
            proof {
                lemma_parts_push(parts@, p);
            }
            parts.push(p);
            assert(parts_view(parts@) =~= seq![text_part(content@)]);
        }
        let paths: Vec<String> = Vec::new();
        assert(text::views(paths@) =~= Seq::<Seq<char>>::empty());
        Message {
            role,
            content: content.to_owned(),
            reasoning: None,
            parts,
            is_complete,
            was_interrupted: false,
            agent_mode: None,
            model: None,
            provider: None,
            local_image_paths: paths,
            token_count: None,
            compaction_stats: None,
        }
    }

    pub fn user(content: &str) -> (r: Message)
        ensures
            r@ == new_message(MessageRole::User, content@, true),
    {
        Message::make(MessageRole::User, content, true)
    }

    pub fn assistant(content: &str) -> (r: Message)
        ensures
            r@ == new_message(MessageRole::Assistant, content@, true),
    {
        Message::make(MessageRole::Assistant, content, true)
    }

    /// An assistant message that is still being streamed.
    pub fn incomplete(content: &str) -> (r: Message)
        ensures
            r@ == new_message(MessageRole::Assistant, content@, false),
    {
        Message::make(MessageRole::Assistant, content, false)
    }

    pub fn system(content: &str) -> (r: Message)
        ensures
            r@ == new_message(MessageRole::System, content@, true),
    {
        Message::make(MessageRole::System, content, true)
    }

    pub fn tool(content: &str) -> (r: Message)
        ensures
            r@ == new_message(MessageRole::Tool, content@, true),
    {
        Message::make(MessageRole::Tool, content, true)
    }

    pub fn copy(&self) -> (r: Message)
        ensures
            r@ == self@,
    {
        Message {
            role: self.role,
            content: self.content.clone(),
            reasoning: text::copy_opt(&self.reasoning),
            parts: copy_parts(&self.parts),
            is_complete: self.is_complete,
            was_interrupted: self.was_interrupted,
            agent_mode: text::copy_opt(&self.agent_mode),
            model: text::copy_opt(&self.model),
            provider: text::copy_opt(&self.provider),
            local_image_paths: text::copy_strings(&self.local_image_paths),
            token_count: self.token_count,
            compaction_stats: self.compaction_stats,
        }
    }
}

pub fn copy_messages(ms: &Vec<Message>) -> (r: Vec<Message>)
    ensures
        messages_view(r@) == messages_view(ms@),
{
    let r = copy_messages_to(ms, ms.len());
    assert(messages_view(ms@).take(ms@.len() as int) =~= messages_view(ms@));
    r
}

/// The first `n` messages.
pub fn copy_messages_to(ms: &Vec<Message>, n: usize) -> (r: Vec<Message>)
    requires
        n <= ms@.len(),
    ensures
        messages_view(r@) == messages_view(ms@).take(n as int),
{
    let mut out: Vec<Message> = Vec::new();
    assert(messages_view(out@) =~= messages_view(ms@).take(0));
    for i in 0..n
        invariant
            n <= ms@.len(),
            messages_view(out@) == messages_view(ms@).take(i as int),
    {
        let m = ms[i].copy();
        let ghost before = out@;
        out.push(m);
        proof {
            assert(messages_view(out@) =~= messages_view(before).push(m@));
            assert(messages_view(ms@).take(i + 1) =~= messages_view(ms@).take(i as int).push(m@));
        }
    }
    out
}

fn is_part_here(p: &MessagePart, part_type: &str, id: &str) -> (r: bool)
    ensures
        r == is_part(p@, part_type@, id@),
{
    if !text::same(p.part_type.as_str(), part_type) {
        return false;
    }
    match p.data.get_str("id") {
        Some(own) => text::same(own.as_str(), id),
        None => false,
    }
}

fn find_part(parts: &Vec<MessagePart>, part_type: &str, id: &str) -> (r: Option<usize>)
    ensures
        match r {
            Some(i) => i < parts@.len() && part_from(parts_view(parts@), part_type@, id@, 0)
                == Some(i as int),
            None => part_from(parts_view(parts@), part_type@, id@, 0) is None,
        },
{
    let mut i: usize = 0;
    while i < parts.len()
        invariant
            i <= parts@.len(),
            part_from(parts_view(parts@), part_type@, id@, i as int) == part_from(
                parts_view(parts@),
                part_type@,
                id@,
                0,
            ),
        decreases parts@.len() - i,
    {
        if is_part_here(&parts[i], part_type, id) {
            return Some(i);
        }
        i += 1;
    }
    None
}

fn is_running_call_here(parts: &Vec<MessagePart>, i: usize) -> (r: bool)
    requires
        i < parts@.len(),
    ensures
        r == is_running_call(parts_view(parts@), i as int),
{
    if !text::same(parts[i].part_type.as_str(), "tool_call") {
        return false;
    }
    match parts[i].data.get_str("status") {
        Some(status) => {
            if !text::same(status.as_str(), "running") {
                return false;
            }
        },
        None => {
            return false;
        },
    }
    match parts[i].data.get_str("id") {
        Some(id) => find_part(parts, "tool_result", id.as_str()).is_none(),
        None => true,
    }
}

impl Message {
    /// The record of a tool call.
    pub fn tool_call_part_data(&self, id: &str) -> (r: Option<JsonDoc>)
        ensures
            json::opt_doc(r) == part_data(self@.parts, "tool_call"@, id@),
    {
        match find_part(&self.parts, "tool_call", id) {
            Some(i) => Some(self.parts[i].data.copy()),
            None => None,
        }
    }

    /// The record of a tool's result.
    pub fn tool_result_part_data(&self, id: &str) -> (r: Option<JsonDoc>)
        ensures
            json::opt_doc(r) == part_data(self@.parts, "tool_result"@, id@),
    {
        match find_part(&self.parts, "tool_result", id) {
            Some(i) => Some(self.parts[i].data.copy()),
            None => None,
        }
    }

    pub fn has_running_tool_parts(&self) -> (r: bool)
        ensures
            r == has_running_call(self@.parts),
    {
        for i in 0..self.parts.len()
            invariant
                forall|j: int| 0 <= j < i ==> !#[trigger] is_running_call(self@.parts, j),
        {
            if is_running_call_here(&self.parts, i) {
                return true;
            }
        }
        false
    }

    /// Records that a tool was called.
    pub fn add_tool_call_part(&mut self, id: &str, name: &str, args: JsonField)
        ensures
            final(self)@ == (MessageView {
                parts: old(self)@.parts.push(
                    PartView { part_type: "tool_call"@, data: call_doc(id@, name@, args@) },
                ),
                ..old(self)@
            }),
    {
        let data = JsonDoc::Null.with_str("id", id).with_str("name", name).with_str(
            "status",
            "running",
        ).with("args", args);
        let part = MessagePart { part_type: "tool_call".to_string(), data };
        proof {
            lemma_parts_push(self.parts@, part);
        }
        self.parts.push(part);
    }

    /// Records what a tool gave.
    pub fn add_or_update_tool_result_part(&mut self, doc: JsonDoc)
        ensures
            final(self)@ == (MessageView {
                parts: with_result(old(self)@.parts, doc@),
                ..old(self)@
            }),
    {
        let target: Option<usize> = match doc.get_str("id") {
            Some(id) => find_part(&self.parts, "tool_result", id.as_str()),
            None => None,
        };
        let part = MessagePart { part_type: "tool_result".to_string(), data: doc };
        match target {
            Some(i) => {
                let ghost before = parts_view(self.parts@);
                self.parts[i] = part;
                assert(parts_view(self.parts@) =~= before.update(i as int, part@));
            },
            None => {
                proof {
                    lemma_parts_push(self.parts@, part);
                }
                self.parts.push(part);
            },
        }
    }

    /// Gives every running call a result that says it failed.
    pub fn mark_running_tool_parts_failed(&mut self, error: &str)
        ensures
            final(self)@ == (MessageView {
                parts: failed_calls(
                    old(self)@.parts,
                    old(self)@.parts.len() as int,
                    error@,
                ),
                ..old(self)@
            }),
    {
        let ghost before = self@.parts;
        let mut results: Vec<MessagePart> = Vec::new();
        let n: usize = self.parts.len();
        assert(before + parts_view(results@) =~= before);
        for i in 0..n
            invariant
                n == self.parts@.len(),
                before == parts_view(self.parts@),
                before + parts_view(results@) == failed_calls(before, i as int, error@),
        {
            if is_running_call_here(&self.parts, i) {
                let data = self.parts[i].data.copy().with_str("status", "error").with_str(
                    "title",
                    "Tool failed",
                ).with_str("output_preview", error);
                let part = MessagePart { part_type: "tool_result".to_string(), data };
                let ghost so_far = results@;
                proof {
                    lemma_parts_push(results@, part);
                }
                results.push(part);
                assert(before + parts_view(results@) =~= (before + parts_view(so_far)).push(part@));
            }
        }
        let ghost added = results@;
        for part in it: results
            invariant
                it.seq() == added,
                self@ == (MessageView {
                    parts: before + parts_view(added).take(it.index()),
                    ..old(self)@
                }),
        {
            proof {
                lemma_parts_push(self.parts@, part);
                assert(parts_view(added)[it.index()] == part@);
                assert((before + parts_view(added).take(it.index())).push(part@) =~= before
                    + parts_view(added).take(it.index() + 1));
            }
            self.parts.push(part);
        }
        assert(parts_view(added).take(added.len() as int) =~= parts_view(added));
    }
}

/// A tool message whose report does not say that the tool is done.
pub open spec fn says_running(doc: DocView) -> bool {
    match json::doc_str(doc, "status"@) {
        Some(status) => status == "running"@,
        None => true,
    }
}

pub open spec fn is_running_tool(m: MessageView) -> bool {
    ||| has_running_call(m.parts)
    ||| m.role == MessageRole::Tool && match json::json_parse(m.content) {
        Some(doc) => says_running(doc),
        None => true,
    }
}

fn says_running_here(doc: &JsonDoc) -> (r: bool)
    ensures
        r == says_running(doc@),
{
    match doc.get_str("status") {
        Some(status) => text::same(status.as_str(), "running"),
        None => true,
    }
}

/// Whether a message stands for a tool that is under way.
pub fn is_running_tool_message(message: &Message) -> (r: bool)
    ensures
        r == is_running_tool(message@),
{
    if message.has_running_tool_parts() {
        return true;
    }
    if message.role != MessageRole::Tool {
        return false;
    }
    match json::parse_json(message.content.as_str()) {
        Some(doc) => says_running_here(&doc),
        None => true,
    }
}

/// A message after every tool that it shows as running has failed.
pub open spec fn with_failed_tools(m: MessageView, error: Seq<char>) -> MessageView {
    let marked = MessageView {
        parts: failed_calls(m.parts, m.parts.len() as int, error),
        ..m
    };
    if m.role != MessageRole::Tool {
        marked
    } else {
        match json::json_parse(m.content) {
            Some(doc) => if says_running(doc) && !(doc is Other) {
                MessageView { content: json::json_text(failure_doc(doc, error)), ..marked }
            } else {
                marked
            },
            None => marked,
        }
    }
}

/// What a message shows as running can be told to have failed: every running call says which call
/// it is, and the report of a tool is an object or `null`.
pub open spec fn can_fail(m: MessageView) -> bool {
    &&& forall|i: int|
        0 <= i < m.parts.len() && #[trigger] is_running_call(m.parts, i) ==> json::doc_str(
            m.parts[i].data,
            "id"@,
        ) is Some
    &&& m.role == MessageRole::Tool ==> match json::json_parse(m.content) {
        Some(doc) => !(doc is Other),
        None => false,
    }
}

proof fn lemma_has_part(parts: Seq<PartView>, part_type: Seq<char>, id: Seq<char>, i: int, j: int)
    requires
        0 <= i <= j < parts.len(),
        is_part(parts[j], part_type, id),
    ensures
        part_from(parts, part_type, id, i) is Some,
    decreases j - i,
{
    if !is_part(parts[i], part_type, id) {
        lemma_has_part(parts, part_type, id, i + 1, j);
    }
}

proof fn lemma_part_place(parts: Seq<PartView>, part_type: Seq<char>, id: Seq<char>, i: int)
    requires
        0 <= i,
        part_from(parts, part_type, id, i) is Some,
    ensures
        i <= part_from(parts, part_type, id, i)->0 < parts.len(),
        is_part(parts[part_from(parts, part_type, id, i)->0], part_type, id),
    decreases parts.len() - i,
{
    if !is_part(parts[i], part_type, id) {
        lemma_part_place(parts, part_type, id, i + 1);
    }
}

/// A report of failure is that of the same call, and says that it failed.
pub proof fn lemma_failure_doc(doc: DocView, error: Seq<char>)
    requires
        !(doc is Other),
    ensures
        failure_doc(doc, error) is Object,
        json::doc_str(failure_doc(doc, error), "id"@) == json::doc_str(doc, "id"@),
        json::doc_str(failure_doc(doc, error), "status"@) == Some("error"@),
        json::doc_str(failure_doc(doc, error), "output_preview"@) == Some(error),
{
    reveal_strlit("id");
    reveal_strlit("status");
    reveal_strlit("title");
    reveal_strlit("output_preview");
    assert("id"@.len() == 2 && "status"@.len() == 6 && "title"@.len() == 5
        && "output_preview"@.len() == 14);
    let first = json::doc_with(doc, "status"@, FieldView::Text("error"@));
    let second = json::doc_with(first, "title"@, FieldView::Text("Tool failed"@));
    let mark = FieldView::Text("error"@);
    json::law_set_member_is_read(doc, "status"@, mark, "id"@);
    json::law_set_member_is_read(first, "title"@, FieldView::Text("Tool failed"@), "id"@);
    json::law_set_member_is_read(first, "title"@, FieldView::Text("Tool failed"@), "status"@);
    json::law_set_member_is_read(second, "output_preview"@, FieldView::Text(error), "id"@);
    json::law_set_member_is_read(second, "output_preview"@, FieldView::Text(error), "status"@);
    json::law_set_member_is_read(
        second,
        "output_preview"@,
        FieldView::Text(error),
        "output_preview"@,
    );
}

/// Where no call runs, none is told to have failed.
pub proof fn lemma_no_call_fails(parts: Seq<PartView>, n: int, error: Seq<char>)
    requires
        n <= parts.len(),
        !has_running_call(parts),
    ensures
        failed_calls(parts, n, error) == parts,
    decreases n,
{
    if n > 0 {
        assert(!is_running_call(parts, n - 1));
        lemma_no_call_fails(parts, n - 1, error);
    }
}

proof fn lemma_failed_calls(parts: Seq<PartView>, n: int, error: Seq<char>)
    requires
        0 <= n <= parts.len(),
        forall|i: int|
            0 <= i < parts.len() && #[trigger] is_running_call(parts, i) ==> json::doc_str(
                parts[i].data,
                "id"@,
            ) is Some,
    ensures
        parts.len() <= failed_calls(parts, n, error).len(),
        parts =~= failed_calls(parts, n, error).take(parts.len() as int),
        forall|i: int|
            parts.len() <= i < failed_calls(parts, n, error).len() ==> (
            #[trigger] failed_calls(parts, n, error)[i]).part_type == "tool_result"@,
        forall|i: int|
            0 <= i < n && #[trigger] is_running_call(parts, i) ==> has_part(
                failed_calls(parts, n, error),
                "tool_result"@,
                json::doc_str(parts[i].data, "id"@)->0,
            ),
    decreases n,
{
    if n > 0 {
        lemma_failed_calls(parts, n - 1, error);
        let before = failed_calls(parts, n - 1, error);
        let after = failed_calls(parts, n, error);
        assert forall|i: int| 0 <= i < n && #[trigger] is_running_call(parts, i) implies has_part(
            after,
            "tool_result"@,
            json::doc_str(parts[i].data, "id"@)->0,
        ) by {
            let id = json::doc_str(parts[i].data, "id"@)->0;
            if i < n - 1 {
                lemma_part_place(before, "tool_result"@, id, 0);
                let j = part_from(before, "tool_result"@, id, 0)->0;
                assert(after[j] == before[j]);
                lemma_has_part(after, "tool_result"@, id, 0, j);
            } else {
                lemma_failure_doc(parts[i].data, error);
                lemma_has_part(after, "tool_result"@, id, 0, after.len() - 1);
            }
        }
    }
}

/// Where every running call says which call it is, none runs once all have failed.
proof fn lemma_no_call_runs(parts: Seq<PartView>, error: Seq<char>)
    requires
        forall|i: int|
            0 <= i < parts.len() && #[trigger] is_running_call(parts, i) ==> json::doc_str(
                parts[i].data,
                "id"@,
            ) is Some,
    ensures
        !has_running_call(failed_calls(parts, parts.len() as int, error)),
{
    let after = failed_calls(parts, parts.len() as int, error);
    lemma_failed_calls(parts, parts.len() as int, error);
    reveal_strlit("tool_call");
    reveal_strlit("tool_result");
    assert("tool_call"@.len() == 9 && "tool_result"@.len() == 11);
    assert forall|i: int| 0 <= i < after.len() implies !#[trigger] is_running_call(after, i) by {
        if i < parts.len() {
            assert(after.take(parts.len() as int)[i] == after[i]);
            if is_running_call(after, i) && !is_running_call(parts, i) {
                let id = json::doc_str(parts[i].data, "id"@)->0;
                lemma_part_place(parts, "tool_result"@, id, 0);
                let j = part_from(parts, "tool_result"@, id, 0)->0;
                assert(after.take(parts.len() as int)[j] == after[j]);
                lemma_has_part(after, "tool_result"@, id, 0, j);
            }
        }
    }
}

/// What is written for a failed report is read as failed.
proof fn lemma_failed_report(doc: DocView, error: Seq<char>, content: Seq<char>)
    requires
        json::json_parse(content) == Some(doc),
        !(doc is Other),
        doc matches DocView::Object(members) ==> json::has_distinct_keys(members),
    ensures
        failure_doc(doc, error) matches DocView::Object(members) && json::has_distinct_keys(members)
            && json::is_rereadable(members) && json::member(members, "status"@) == Some(
            FieldView::Text("error"@),
        ),
{
    lemma_failure_doc(doc, error);
    let mark = FieldView::Text("error"@);
    let first = json::doc_with(doc, "status"@, mark);
    match doc {
        DocView::Object(members) => {
            assert forall|i: int| 0 <= i < members.len() implies match (
            #[trigger] members[i]).field {
                FieldView::Text(_) => true,
                FieldView::Raw(raw) => json::was_read(raw),
            } by {}
            json::lemma_set_string_keeps(members, "status"@, "error"@);
        },
        _ => {},
    }
    if let DocView::Object(members) = first {
        json::lemma_set_string_keeps(members, "title"@, "Tool failed"@);
        let more = json::with_member(members, "title"@, FieldView::Text("Tool failed"@));
        json::lemma_set_string_keeps(more, "output_preview"@, error);
    }
}

impl Message {
    /// Marks every tool that this message shows as running as failed. A report that is neither
    /// an object nor `null` is left alone; where there is none, nothing runs afterwards.
    pub fn fail_running_tools(&mut self, error: &str)
        ensures
            final(self)@ == with_failed_tools(old(self)@, error@),
            can_fail(old(self)@) ==> !is_running_tool(final(self)@),
    {
        proof {
            if can_fail(self@) {
                lemma_no_call_runs(self@.parts, error@);
            }
        }
        self.mark_running_tool_parts_failed(error);
        if self.role != MessageRole::Tool {
            return;
        }
        match json::parse_json(self.content.as_str()) {
            Some(doc) => {
                let plain = match &doc {
                    JsonDoc::Other(_) => true,
                    _ => false,
                };
                if says_running_here(&doc) && !plain {
                    let failed = doc.with_str("status", "error").with_str(
                        "title",
                        "Tool failed",
                    ).with_str("output_preview", error);
                    proof {
                        lemma_failed_report(doc@, error@, self@.content);
                        reveal_strlit("error");
                        reveal_strlit("running");
                        assert("error"@.len() == 5 && "running"@.len() == 7);
                    }
                    self.content = json::render_json(&failed);
                }
            },
            None => {},
        }
    }
}

/// The first message of a role, from position `i` on.
pub open spec fn role_from(ms: Seq<MessageView>, role: MessageRole, i: int) -> Option<int>
    decreases ms.len() - i,
{
    if i < 0 || i >= ms.len() {
        None
    } else if ms[i].role == role {
        Some(i)
    } else {
        role_from(ms, role, i + 1)
    }
}

/// The last message of a role among the first `n`.
pub open spec fn last_role(ms: Seq<MessageView>, role: MessageRole, n: int) -> Option<int>
    decreases n,
{
    if n <= 0 || n > ms.len() {
        None
    } else if ms[n - 1].role == role {
        Some(n - 1)
    } else {
        last_role(ms, role, n - 1)
    }
}

pub fn first_of_role(ms: &Vec<Message>, role: MessageRole, from: usize) -> (r: Option<usize>)
    ensures
        match r {
            Some(i) => from <= i < ms@.len() && role_from(messages_view(ms@), role, from as int)
                == Some(i as int),
            None => role_from(messages_view(ms@), role, from as int) is None,
        },
{
    let mut i: usize = from;
    while i < ms.len()
        invariant
            from <= i,
            from <= ms@.len() ==> i <= ms@.len(),
            role_from(messages_view(ms@), role, i as int) == role_from(
                messages_view(ms@),
                role,
                from as int,
            ),
        decreases ms@.len() - i,
    {
        if ms[i].role == role {
            return Some(i);
        }
        i += 1;
    }
    None
}

pub fn last_of_role(ms: &Vec<Message>, role: MessageRole) -> (r: Option<usize>)
    ensures
        match r {
            Some(i) => i < ms@.len() && last_role(messages_view(ms@), role, ms@.len() as int)
                == Some(i as int),
            None => last_role(messages_view(ms@), role, ms@.len() as int) is None,
        },
{
    let mut n: usize = ms.len();
    while n > 0
        invariant
            n <= ms@.len(),
            last_role(messages_view(ms@), role, n as int) == last_role(
                messages_view(ms@),
                role,
                ms@.len() as int,
            ),
        decreases n,
    {
        if ms[n - 1].role == role {
            return Some(n - 1);
        }
        n -= 1;
    }
    None
}

/// The first thing the user said, if it is not blank.
pub open spec fn first_prompt(ms: Seq<MessageView>) -> Option<Seq<char>> {
    match role_from(ms, MessageRole::User, 0) {
        Some(i) => if text::trim(ms[i].content).len() > 0 {
            Some(text::trim(ms[i].content))
        } else {
            None
        },
        None => None,
    }
}

pub fn first_user_prompt(ms: &Vec<Message>) -> (r: Option<String>)
    ensures
        text::opt_view(r) == first_prompt(messages_view(ms@)),
{
    match first_of_role(ms, MessageRole::User, 0) {
        Some(i) => {
            let t = text::trimmed(ms[i].content.as_str());
            if t.as_str().is_empty() {
                None
            } else {
                Some(t)
            }
        },
        None => None,
    }
}

pub open spec fn has_one_user_message(ms: Seq<MessageView>) -> bool {
    match role_from(ms, MessageRole::User, 0) {
        Some(i) => role_from(ms, MessageRole::User, i + 1) is None,
        None => false,
    }
}

pub fn has_single_user_message(ms: &Vec<Message>) -> (r: bool)
    ensures
        r == has_one_user_message(messages_view(ms@)),
{
    match first_of_role(ms, MessageRole::User, 0) {
        Some(i) => {
            let n: usize = ms.len();
            assert(i < n);
            first_of_role(ms, MessageRole::User, i + 1).is_none()
        },
        None => false,
    }
}

/// The first agent that a message names, from position `i` on.
pub open spec fn agent_mode_from(ms: Seq<MessageView>, i: int) -> Option<Seq<char>>
    decreases ms.len() - i,
{
    if i < 0 || i >= ms.len() {
        None
    } else if ms[i].agent_mode is Some {
        ms[i].agent_mode
    } else {
        agent_mode_from(ms, i + 1)
    }
}

/// The last model that one of the first `n` messages names.
pub open spec fn model_before(ms: Seq<MessageView>, n: int) -> Option<Seq<char>>
    decreases n,
{
    if n <= 0 || n > ms.len() {
        None
    } else if ms[n - 1].model is Some {
        ms[n - 1].model
    } else {
        model_before(ms, n - 1)
    }
}

pub open spec fn not_blank(s: Option<Seq<char>>) -> Option<Seq<char>> {
    match s {
        Some(x) => if text::trim(x).len() > 0 {
            Some(text::trim(x))
        } else {
            None
        },
        None => None,
    }
}

fn trimmed_not_blank(s: &String) -> (r: Option<String>)
    ensures
        text::opt_view(r) == not_blank(Some(s@)),
{
    let t = text::trimmed(s.as_str());
    if t.as_str().is_empty() {
        None
    } else {
        Some(t)
    }
}

pub fn first_agent_mode(ms: &Vec<Message>) -> (r: Option<String>)
    ensures
        text::opt_view(r) == not_blank(agent_mode_from(messages_view(ms@), 0)),
{
    let mut i: usize = 0;
    while i < ms.len()
        invariant
            i <= ms@.len(),
            agent_mode_from(messages_view(ms@), i as int) == agent_mode_from(messages_view(ms@), 0),
        decreases ms@.len() - i,
    {
        match &ms[i].agent_mode {
            Some(mode) => {
                return trimmed_not_blank(mode);
            },
            None => {},
        }
        i += 1;
    }
    None
}

pub fn latest_message_model(ms: &Vec<Message>) -> (r: Option<String>)
    ensures
        text::opt_view(r) == not_blank(model_before(messages_view(ms@), ms@.len() as int)),
{
    let mut n: usize = ms.len();
    while n > 0
        invariant
            n <= ms@.len(),
            model_before(messages_view(ms@), n as int) == model_before(
                messages_view(ms@),
                ms@.len() as int,
            ),
        decreases n,
    {
        match &ms[n - 1].model {
            Some(model) => {
                return trimmed_not_blank(model);
            },
            None => {},
        }
        n -= 1;
    }
    None
}

/// The text of an assistant message, if it has one.
pub open spec fn response_text(m: MessageView) -> Option<Seq<char>> {
    if m.role == MessageRole::Assistant && text::trim(m.content).len() > 0 {
        Some(text::trim(m.content))
    } else {
        None
    }
}

pub fn message_response_markdown(message: &Message) -> (r: Option<String>)
    ensures
        text::opt_view(r) == response_text(message@),
{
    if message.role != MessageRole::Assistant {
        return None;
    }
    let t = text::trimmed(message.content.as_str());
    if t.as_str().is_empty() {
        None
    } else {
        Some(t)
    }
}

/// A tool's report as it is copied: indented where it is JSON.
pub open spec fn pretty_or_same(s: Seq<char>) -> Seq<char> {
    match json::json_pretty(s) {
        Some(p) => p,
        None => s,
    }
}

pub open spec fn part_section(p: PartView) -> Seq<char> {
    (if p.part_type == "tool_call"@ {
        "Tool Call"@
    } else {
        "Tool Result"@
    }) + ":\n"@ + pretty_or_same(json::json_text(p.data))
}

pub open spec fn part_sections(parts: Seq<PartView>) -> Seq<Seq<char>>
    decreases parts.len(),
{
    if parts.len() == 0 {
        Seq::empty()
    } else {
        let before = part_sections(parts.drop_last());
        let p = parts.last();
        if p.part_type == "tool_call"@ || p.part_type == "tool_result"@ {
            before.push(part_section(p))
        } else {
            before
        }
    }
}

pub open spec fn reasoning_sections(m: MessageView) -> Seq<Seq<char>> {
    match m.reasoning {
        Some(r) => if text::trim(r).len() > 0 {
            seq!["Thinking:\n"@ + text::trim(r)]
        } else {
            Seq::empty()
        },
        None => Seq::empty(),
    }
}

pub open spec fn content_sections(m: MessageView) -> Seq<Seq<char>> {
    let content = text::trim(m.content);
    if content.len() == 0 {
        Seq::empty()
    } else if m.role == MessageRole::Tool {
        seq!["Tool:\n"@ + pretty_or_same(content)]
    } else {
        seq![m.content]
    }
}

/// What a message is copied as: its reasoning, its content and its tool calls and results.
pub open spec fn clipboard_sections(m: MessageView) -> Seq<Seq<char>> {
    reasoning_sections(m) + content_sections(m) + if m.role == MessageRole::Assistant {
        part_sections(m.parts)
    } else {
        Seq::empty()
    }
}

pub fn prettied(s: String) -> (r: String)
    ensures
        r@ == pretty_or_same(s@),
{
    match json::pretty_json(s.as_str()) {
        Some(p) => p,
        None => s,
    }
}

pub fn message_clipboard_sections(message: &Message) -> (r: Vec<String>)
    ensures
        text::views(r@) == clipboard_sections(message@),
{
    let ghost m = message@;
    let mut sections: Vec<String> = Vec::new();
    match &message.reasoning {
        Some(reasoning) => {
            let t = text::trimmed(reasoning.as_str());
            if !t.as_str().is_empty() {
                let mut section = "Thinking:\n".to_string();
                section.append(t.as_str());
                sections.push(section);
            }
        },
        None => {},
    }
    assert(text::views(sections@) =~= reasoning_sections(m));
    let ghost upto = sections@;
    let content = text::trimmed(message.content.as_str());
    if !content.as_str().is_empty() {
        if message.role == MessageRole::Tool {
            let mut section = "Tool:\n".to_string();
            section.append(prettied(content).as_str());
            sections.push(section);
        } else {
            sections.push(message.content.clone());
        }
    }
    assert(text::views(sections@) =~= text::views(upto) + content_sections(m));
    let ghost base = text::views(sections@);
    if message.role == MessageRole::Assistant {
        assert(m.parts.take(0) =~= Seq::<PartView>::empty());
        assert(base + part_sections(m.parts.take(0)) =~= base);
        for i in 0..message.parts.len()
            invariant
                m == message@,
                text::views(sections@) == base + part_sections(m.parts.take(i as int)),
        {
            let ghost before = sections@;
            assert(m.parts.take(i + 1).drop_last() =~= m.parts.take(i as int));
            let is_call = text::same(message.parts[i].part_type.as_str(), "tool_call");
            let is_result = text::same(message.parts[i].part_type.as_str(), "tool_result");
            if is_call || is_result {
                let mut section = if is_call {
                    "Tool Call".to_string()
                } else {
                    "Tool Result".to_string()
                };
                section.append(":\n");
                section.append(prettied(json::render_json(&message.parts[i].data)).as_str());
                sections.push(section);
                assert(text::views(sections@) =~= text::views(before).push(
                    part_section(m.parts[i as int]),
                ));
                assert(text::views(sections@) =~= base + part_sections(m.parts.take(i + 1)));
            }
        }
        assert(m.parts.take(m.parts.len() as int) =~= m.parts);
    } else {
        assert(base + Seq::<Seq<char>>::empty() =~= base);
    }
    sections
}

pub open spec fn sections_of(ms: Seq<MessageView>) -> Seq<Seq<char>>
    decreases ms.len(),
{
    if ms.len() == 0 {
        Seq::empty()
    } else {
        sections_of(ms.drop_last()) + clipboard_sections(ms.last())
    }
}

/// What a block of messages is copied as; a range that is not in the transcript is empty.
pub open spec fn block_text(ms: Seq<MessageView>, start: int, end: int) -> Seq<char> {
    if start <= end <= ms.len() {
        text::join(sections_of(ms.subrange(start, end)), "\n\n"@)
    } else {
        Seq::empty()
    }
}

pub fn message_block_clipboard_text(ms: &Vec<Message>, start: usize, end: usize) -> (r: String)
    ensures
        r@ == block_text(messages_view(ms@), start as int, end as int),
{
    if start > end || end > ms.len() {
        return String::new();
    }
    let ghost all = messages_view(ms@);
    let mut sections: Vec<String> = Vec::new();
    assert(all.subrange(start as int, start as int) =~= Seq::<MessageView>::empty());
    assert(text::views(sections@) =~= Seq::<Seq<char>>::empty());
    for i in start..end
        invariant
            all == messages_view(ms@),
            start <= end <= ms@.len(),
            text::views(sections@) == sections_of(all.subrange(start as int, i as int)),
    {
        let more = message_clipboard_sections(&ms[i]);
        let ghost before = sections@;
        let ghost added = more@;
        for section in it: more
            invariant
                it.seq() == added,
                sections@ == before + added.take(it.index()),
        {
            sections.push(section);
            assert(before + added.take(it.index() + 1) =~= (before + added.take(it.index())).push(
                section,
            ));
        }
        assert(added.take(added.len() as int) =~= added);
        assert(text::views(before + added) =~= text::views(before) + text::views(added));
        assert(all.subrange(start as int, i + 1).drop_last() =~= all.subrange(
            start as int,
            i as int,
        ));
        assert(all.subrange(start as int, i + 1).last() == ms@[i as int]@);
    }
    text::join_strings(&sections, "\n\n")
}

/// What a turn after an interruption is told.
pub const INTERRUPTED_TURN_CONTINUATION_GUIDANCE: &'static str =
    "The previous turn was interrupted. Address the newest request, then resume unfinished work unless the user canceled or redirected it. Do not claim completion prematurely.";

/// A request's messages with guidance for the turn: at the end of the system prompt, or as one.
pub open spec fn with_guidance(ms: Seq<MessageView>, guidance: Option<Seq<char>>) -> Seq<
    MessageView,
> {
    match not_blank(guidance) {
        None => ms,
        Some(g) => match role_from(ms, MessageRole::System, 0) {
            Some(i) => ms.update(
                i,
                MessageView {
                    content: if text::is_blank(ms[i].content) {
                        ms[i].content + g
                    } else {
                        ms[i].content + "\n\n"@ + g
                    },
                    ..ms[i]
                },
            ),
            None => ms.insert(0, new_message(MessageRole::System, g, true)),
        },
    }
}

pub fn apply_turn_guidance(messages: &mut Vec<Message>, turn_guidance: Option<&str>)
    ensures
        messages_view(final(messages)@) == with_guidance(
            messages_view(old(messages)@),
            match turn_guidance {
                Some(g) => Some(g@),
                None => None,
            },
        ),
{
    let ghost before = messages_view(messages@);
    match turn_guidance {
        None => {},
        Some(raw) => {
            let guidance = text::trimmed(raw);
            if guidance.as_str().is_empty() {
                return;
            }
            match first_of_role(messages, MessageRole::System, 0) {
                Some(i) => {
                    if !text::blank(messages[i].content.as_str()) {
                        messages[i].content.append("\n\n");
                    }
                    messages[i].content.append(guidance.as_str());
                    assert(messages_view(messages@) =~= with_guidance(before, Some(raw@)));
                },
                None => {
                    let m = Message::system(guidance.as_str());
                    messages.insert(0, m);
                    assert(messages_view(messages@) =~= with_guidance(before, Some(raw@)));
                },
            }
        },
    }
}

pub open spec fn has_system(ms: Seq<MessageView>) -> bool {
    role_from(ms, MessageRole::System, 0) is Some
}

pub fn has_system_message(ms: &Vec<Message>) -> (r: bool)
    ensures
        r == has_system(messages_view(ms@)),
{
    first_of_role(ms, MessageRole::System, 0).is_some()
}

/// What the agent is sent: the transcript, behind a system prompt where it has none of its own,
/// with guidance for the turn.
pub open spec fn request_of(
    ms: Seq<MessageView>,
    system: Seq<char>,
    guidance: Option<Seq<char>>,
) -> Seq<MessageView> {
    with_guidance(
        if has_system(ms) {
            ms
        } else {
            ms.insert(0, new_message(MessageRole::System, system, true))
        },
        guidance,
    )
}

pub fn request_messages(ms: &Vec<Message>, system: &str, guidance: Option<&str>) -> (r: Vec<Message>)
    ensures
        messages_view(r@) == request_of(
            messages_view(ms@),
            system@,
            match guidance {
                Some(g) => Some(g@),
                None => None,
            },
        ),
{
    let mut out = copy_messages(ms);
    if !has_system_message(ms) {
        let ghost before = out@;
        let m = Message::system(system);
        out.insert(0, m);
        assert(messages_view(out@) =~= messages_view(before).insert(0, m@));
    }
    apply_turn_guidance(&mut out, guidance);
    out
}

/// The members that a tool's report may pass on besides its status.
pub open spec fn copied_member(doc: DocView, payload: DocView, key: Seq<char>) -> DocView {
    match json::doc_member(payload, key) {
        Some(field) => json::doc_with(doc, key, field),
        None => doc,
    }
}

/// The record of a tool call once its result is in: an object is taken over member by member,
/// anything else is shown as output, and output that begins with `Error:` is an error.
pub open spec fn merged_result(
    record: DocView,
    id: Seq<char>,
    name: Seq<char>,
    content: Seq<char>,
    payload: Option<DocView>,
) -> DocView {
    let named = json::doc_with(
        json::doc_with(record, "id"@, FieldView::Text(id)),
        "name"@,
        FieldView::Text(name),
    );
    match payload {
        Some(report) => if report is Object {
            let status = match json::doc_member(report, "status"@) {
                Some(field) => field,
                None => match json::doc_member(named, "status"@) {
                    Some(field) => field,
                    None => FieldView::Text("ok"@),
                },
            };
            copied_member(
                copied_member(
                    copied_member(
                        copied_member(
                            json::doc_with(named, "status"@, status),
                            report,
                            "title"@,
                        ),
                        report,
                        "metadata"@,
                    ),
                    report,
                    "line_count"@,
                ),
                report,
                "output_preview"@,
            )
        } else {
            json::doc_with(
                json::doc_with(named, "status"@, FieldView::Text("ok"@)),
                "output_preview"@,
                FieldView::Text(content),
            )
        },
        None => {
            let status = if "Error:"@.is_prefix_of(text::trim_start(content)) {
                "error"@
            } else {
                "ok"@
            };
            json::doc_with(
                json::doc_with(named, "status"@, FieldView::Text(status)),
                "output_preview"@,
                FieldView::Text(content),
            )
        },
    }
}

fn copy_member(doc: JsonDoc, payload: &JsonDoc, key: &str) -> (r: JsonDoc)
    ensures
        r@ == copied_member(doc@, payload@, key@),
{
    match payload.get(key) {
        Some(field) => doc.with(key, field),
        None => doc,
    }
}

/// Puts a tool's result, read as a document where it is one, into the record of its call.
pub fn merge_tool_result(
    record: JsonDoc,
    id: &str,
    name: &str,
    content: &str,
    payload: Option<JsonDoc>,
) -> (r: JsonDoc)
    ensures
        r@ == merged_result(record@, id@, name@, content@, json::opt_doc(payload)),
{
    let named = record.with_str("id", id).with_str("name", name);
    match payload {
        Some(report) => {
            if report.is_object() {
                let status = match report.get("status") {
                    Some(field) => field,
                    None => match named.get("status") {
                        Some(field) => field,
                        None => JsonField::Text("ok".to_string()),
                    },
                };
                let merged = named.with("status", status);
                let merged = copy_member(merged, &report, "title");
                let merged = copy_member(merged, &report, "metadata");
                let merged = copy_member(merged, &report, "line_count");
                copy_member(merged, &report, "output_preview")
            } else {
                named.with_str("status", "ok").with_str("output_preview", content)
            }
        },
        None => {
            let v = text::chars_of(content);
            let p = text::chars_of("Error:");
            let start = text::start_of_text(&v, 0, v.len());
            proof {
                assert(v@.subrange(0, v@.len() as int) =~= content@);
                let t = text::trim_start(content@);
                assert(t == v@.subrange(start as int, v@.len() as int));
                if p@.len() <= t.len() {
                    assert(v@.subrange(start as int, start + p@.len()) =~= t.subrange(
                        0,
                        p@.len() as int,
                    ));
                }
            }
            if text::occurs_here(&v, &p, start) {
                named.with_str("status", "error").with_str("output_preview", content)
            } else {
                named.with_str("status", "ok").with_str("output_preview", content)
            }
        },
    }
}

/// What stands for a result that belongs to no known call.
pub open spec fn stray_result(id: Seq<char>, name: Seq<char>, content: Seq<char>) -> DocView {
    json::doc_with(
        json::doc_with(
            json::doc_with(
                json::doc_with(DocView::Null, "id"@, FieldView::Text(id)),
                "name"@,
                FieldView::Text(name),
            ),
            "status"@,
            FieldView::Text("ok"@),
        ),
        "output_preview"@,
        FieldView::Text(content),
    )
}

pub fn stray_tool_result(id: &str, name: &str, content: &str) -> (r: JsonDoc)
    ensures
        r@ == stray_result(id@, name@, content@),
{
    JsonDoc::Null.with_str("id", id).with_str("name", name).with_str("status", "ok").with_str(
        "output_preview",
        content,
    )
}

/// A tool's arguments as they are recorded: the JSON they spell, else the text itself.
pub open spec fn args_field(arguments: Seq<char>) -> FieldView {
    match json::json_parse(arguments) {
        Some(doc) => match doc {
            DocView::Other(raw) => FieldView::Raw(raw),
            _ => FieldView::Raw(json::json_text(doc)),
        },
        None => FieldView::Text(arguments),
    }
}

pub fn tool_arguments(arguments: &str) -> (r: JsonField)
    ensures
        r@ == args_field(arguments@),
{
    match json::parse_json(arguments) {
        Some(JsonDoc::Other(raw)) => JsonField::Raw(raw),
        Some(doc) => JsonField::Raw(json::render_json(&doc)),
        None => JsonField::Text(arguments.to_owned()),
    }
}

proof fn lemma_sections_of(x: Seq<MessageView>, y: Seq<MessageView>)
    ensures
        sections_of(x + y) == sections_of(x) + sections_of(y),
    decreases y.len(),
{
    if y.len() == 0 {
        assert(x + y =~= x);
        assert(sections_of(x) + Seq::<Seq<char>>::empty() =~= sections_of(x));
    } else {
        assert((x + y).drop_last() =~= x + y.drop_last());
        assert((x + y).last() == y.last());
        lemma_sections_of(x, y.drop_last());
        assert(sections_of(x) + sections_of(y.drop_last()) + clipboard_sections(y.last())
            =~= sections_of(x) + (sections_of(y.drop_last()) + clipboard_sections(y.last())));
    }
}

proof fn lemma_part_sections(parts: Seq<PartView>)
    ensures
        forall|i: int|
            0 <= i < part_sections(parts).len() ==> (#[trigger] part_sections(parts)[i]).len() > 0,
    decreases parts.len(),
{
    if parts.len() > 0 {
        lemma_part_sections(parts.drop_last());
        reveal_strlit(":\n");
        assert(part_section(parts.last()).len() > 0);
        let before = part_sections(parts.drop_last());
        assert forall|i: int| 0 <= i < part_sections(parts).len() implies (#[trigger] part_sections(
            parts,
        )[i]).len() > 0 by {
            if i < before.len() {
                assert(part_sections(parts)[i] == before[i]);
            }
        }
    }
}

/// No section is empty.
proof fn lemma_no_empty_section(ms: Seq<MessageView>)
    ensures
        forall|i: int|
            0 <= i < sections_of(ms).len() ==> (#[trigger] sections_of(ms)[i]).len() > 0,
    decreases ms.len(),
{
    if ms.len() > 0 {
        let m = ms.last();
        lemma_no_empty_section(ms.drop_last());
        lemma_part_sections(m.parts);
        reveal_strlit("Thinking:\n");
        reveal_strlit("Tool:\n");
        text::lemma_trim_start(m.content);
        text::lemma_trim_end(text::trim_start(m.content));
        let before = sections_of(ms.drop_last());
        let own = clipboard_sections(m);
        assert forall|i: int| 0 <= i < sections_of(ms).len() implies (#[trigger] sections_of(
            ms,
        )[i]).len() > 0 by {
            if i < before.len() {
                assert(sections_of(ms)[i] == before[i]);
            } else {
                let j = i - before.len();
                let thought = reasoning_sections(m);
                let said = content_sections(m);
                assert(sections_of(ms)[i] == own[j]);
                if j >= thought.len() + said.len() {
                    assert(own[j] == part_sections(m.parts)[j - thought.len() - said.len()]);
                }
            }
        }
    }
}

/// The text of two blocks of messages that follow one another makes up the text of both, with an
/// empty line between where neither is empty; and what is not in the transcript has none.
pub proof fn law_blocks_join(ms: Seq<MessageView>, a: int, b: int, c: int)
    requires
        0 <= a <= b <= c <= ms.len(),
    ensures
        block_text(ms, a, c) == ({
            let l = block_text(ms, a, b);
            let r = block_text(ms, b, c);
            if l.len() == 0 {
                r
            } else if r.len() == 0 {
                l
            } else {
                l + "\n\n"@ + r
            }
        }),
        forall|s: int, e: int|
            e > ms.len() || s > e ==> #[trigger] block_text(ms, s, e) == Seq::<char>::empty(),
{
    let x = ms.subrange(a, b);
    let y = ms.subrange(b, c);
    let sep = "\n\n"@;
    assert(ms.subrange(a, c) =~= x + y);
    lemma_sections_of(x, y);
    lemma_no_empty_section(x);
    lemma_no_empty_section(y);
    text::lemma_join_both(sections_of(x), sections_of(y), sep);
    if sections_of(x).len() > 0 {
        text::lemma_join_begins(sections_of(x), sep);
        assert(sections_of(x)[0].len() > 0);
    }
    if sections_of(y).len() > 0 {
        text::lemma_join_begins(sections_of(y), sep);
        assert(sections_of(y)[0].len() > 0);
    }
}

} // verus!
