//! The state of the application, and its view.

use crate::chunks::StreamingRetryStatus;
use crate::focus::OverlayFocus;
use crate::message;
use crate::message::{Message, MessageView};
use crate::queue;
use crate::queue::{QueuedItem, QueuedView};
use crate::reasoning::ReasoningEffort;
use crate::text;
use crate::ui::OAuthProvider;
use vstd::prelude::*;
use vstd::string::*;

verus! {

/// A transcript and what is shown of it.
#[derive(Debug)]
pub struct Chat {
    pub messages: Vec<Message>,
    pub highlighted: Option<usize>,
    pub thinking_visible: bool,
    pub render_cached: bool,
    /// Counts the changes of the transcript, but for what streams into its last answer.
    pub revision: u64,
    pub has_selection: bool,
    pub is_dragging: bool,
}

pub struct ChatView {
    pub messages: Seq<MessageView>,
    pub highlighted: Option<usize>,
    pub thinking_visible: bool,
    pub render_cached: bool,
    pub revision: u64,
    pub has_selection: bool,
    pub is_dragging: bool,
}

impl View for Chat {
    type V = ChatView;

    open spec fn view(&self) -> ChatView {
        ChatView {
            messages: message::messages_view(self.messages@),
            highlighted: self.highlighted,
            thinking_visible: self.thinking_visible,
            render_cached: self.render_cached,
            revision: self.revision,
            has_selection: self.has_selection,
            is_dragging: self.is_dragging,
        }
    }
}

/// A fresh view of the given messages.
pub open spec fn chat_of(messages: Seq<MessageView>) -> ChatView {
    ChatView {
        messages,
        highlighted: None,
        thinking_visible: true,
        render_cached: false,
        revision: 0,
        has_selection: false,
        is_dragging: false,
    }
}

/// The count goes round.
pub open spec fn next_revision(revision: u64) -> u64 {
    if revision == u64::MAX {
        0
    } else {
        (revision + 1) as u64
    }
}

pub fn count_revision(revision: u64) -> (r: u64)
    ensures
        r == next_revision(revision),
{
    if revision == u64::MAX {
        0
    } else {
        revision + 1
    }
}

/// An emptied transcript; whether thinking is shown is kept.
pub open spec fn cleared_chat(c: ChatView) -> ChatView {
    ChatView {
        thinking_visible: c.thinking_visible,
        revision: next_revision(c.revision),
        ..chat_of(Seq::empty())
    }
}

/// Other messages in the place of the old ones.
pub open spec fn with_messages(c: ChatView, messages: Seq<MessageView>) -> ChatView {
    ChatView { messages, render_cached: false, revision: next_revision(c.revision), ..c }
}

/// The messages with more streamed into the last answer.
pub open spec fn with_streamed(c: ChatView, messages: Seq<MessageView>) -> ChatView {
    ChatView { messages, render_cached: false, ..c }
}

impl Chat {
    pub fn with_messages(messages: Vec<Message>) -> (r: Chat)
        ensures
            r@ == chat_of(message::messages_view(messages@)),
    {
        Chat {
            messages,
            highlighted: None,
            thinking_visible: true,
            render_cached: false,
            revision: 0,
            has_selection: false,
            is_dragging: false,
        }
    }

    pub fn new() -> (r: Chat)
        ensures
            r@ == chat_of(Seq::empty()),
    {
        let messages: Vec<Message> = Vec::new();
        assert(message::messages_view(messages@) =~= Seq::<MessageView>::empty());
        Chat::with_messages(messages)
    }

    pub fn clear(&mut self)
        ensures
            final(self)@ == cleared_chat(old(self)@),
    {
        let thinking_visible = self.thinking_visible;
        let revision = count_revision(self.revision);
        *self = Chat::new();
        self.thinking_visible = thinking_visible;
        self.revision = revision;
    }

    pub fn replace_messages(&mut self, messages: Vec<Message>)
        ensures
            final(self)@ == with_messages(old(self)@, message::messages_view(messages@)),
    {
        self.messages = messages;
        self.render_cached = false;
        self.revision = count_revision(self.revision);
    }

    pub fn add_message(&mut self, m: Message)
        ensures
            final(self)@ == with_messages(old(self)@, old(self)@.messages.push(m@)),
    {
        let ghost before = self.messages@;
        self.messages.push(m);
        self.render_cached = false;
        self.revision = count_revision(self.revision);
        assert(message::messages_view(self.messages@) =~= message::messages_view(before).push(m@));
    }
}

/// The prompt under edit.
#[derive(Debug)]
pub struct Input {
    pub text: String,
    pub cursor: usize,
    pub image_paths: Vec<String>,
    pub has_selection: bool,
    pub is_dragging: bool,
    pub selected_text: String,
}

pub struct InputView {
    pub text: Seq<char>,
    pub cursor: usize,
    pub image_paths: Seq<Seq<char>>,
    pub has_selection: bool,
    pub is_dragging: bool,
    pub selected_text: Seq<char>,
}

impl View for Input {
    type V = InputView;

    open spec fn view(&self) -> InputView {
        InputView {
            text: self.text@,
            cursor: self.cursor,
            image_paths: text::views(self.image_paths@),
            has_selection: self.has_selection,
            is_dragging: self.is_dragging,
            selected_text: self.selected_text@,
        }
    }
}

/// A prompt with the cursor at its end.
pub open spec fn input_of(text: Seq<char>, image_paths: Seq<Seq<char>>) -> InputView {
    InputView {
        text,
        cursor: text.len() as usize,
        image_paths,
        has_selection: false,
        is_dragging: false,
        selected_text: Seq::empty(),
    }
}

pub open spec fn empty_input() -> InputView {
    input_of(Seq::empty(), Seq::empty())
}

/// Where text goes in: at the cursor, which is never past the end.
pub open spec fn insertion_point(i: InputView) -> int {
    if i.cursor <= i.text.len() {
        i.cursor as int
    } else {
        i.text.len() as int
    }
}

pub open spec fn inserted(i: InputView, added: Seq<char>) -> Seq<char> {
    i.text.take(insertion_point(i)) + added + i.text.skip(insertion_point(i))
}

impl Input {
    pub fn with_text_and_images(text: String, image_paths: Vec<String>) -> (r: Input)
        ensures
            r@ == input_of(text@, text::views(image_paths@)),
    {
        let cursor = text.as_str().unicode_len();
        Input {
            text,
            cursor,
            image_paths,
            has_selection: false,
            is_dragging: false,
            selected_text: String::new(),
        }
    }

    pub fn new() -> (r: Input)
        ensures
            r@ == empty_input(),
    {
        let paths: Vec<String> = Vec::new();
        assert(text::views(paths@) =~= Seq::<Seq<char>>::empty());
        Input::with_text_and_images(String::new(), paths)
    }

    pub fn is_empty(&self) -> (r: bool)
        ensures
            r == (self@.text.len() == 0),
    {
        self.text.as_str().is_empty()
    }

    pub fn clear(&mut self)
        ensures
            final(self)@ == empty_input(),
    {
        *self = Input::new();
    }

    pub fn set_text(&mut self, text: String)
        ensures
            final(self)@ == input_of(text@, Seq::empty()),
    {
        let paths: Vec<String> = Vec::new();
        assert(text::views(paths@) =~= Seq::<Seq<char>>::empty());
        *self = Input::with_text_and_images(text, paths);
    }

    /// Puts text in at the cursor and moves the cursor behind it.
    pub fn insert_str(&mut self, added: &str)
        ensures
            final(self)@ == (InputView {
                text: inserted(old(self)@, added@),
                cursor: final(self)@.cursor,
                ..old(self)@
            }),
            final(self)@.cursor == insertion_point(old(self)@) + added@.len(),
    {
        let v = text::chars_of(self.text.as_str());
        let n: usize = v.len();
        let at: usize = if self.cursor <= n {
            self.cursor
        } else {
            n
        };
        let mut front = text::string_of_range(&v, 0, at);
        front.append(added);
        let cursor = front.as_str().unicode_len();
        text::append_range(&mut front, &v, at, n);
        proof {
            assert(v@.take(at as int) =~= v@.subrange(0, at as int));
            assert(v@.skip(at as int) =~= v@.subrange(at as int, n as int));
        }
        self.text = front;
        self.cursor = cursor;
    }
}

/// A turn under way in a session: where in the transcript it began, and what it runs on.
#[derive(Debug)]
pub struct StreamState {
    pub model: Option<String>,
    pub provider: Option<String>,
    pub boundary: usize,
    pub last_snapshot: u64,
    pub pending_snapshot: bool,
    /// The store has been asked to take a snapshot and has not answered yet.
    pub asked_snapshot: bool,
}

pub struct StreamView {
    pub model: Option<Seq<char>>,
    pub provider: Option<Seq<char>>,
    pub boundary: usize,
    pub last_snapshot: u64,
    pub pending_snapshot: bool,
    pub asked_snapshot: bool,
}

impl View for StreamState {
    type V = StreamView;

    open spec fn view(&self) -> StreamView {
        StreamView {
            model: text::opt_view(self.model),
            provider: text::opt_view(self.provider),
            boundary: self.boundary,
            last_snapshot: self.last_snapshot,
            pending_snapshot: self.pending_snapshot,
            asked_snapshot: self.asked_snapshot,
        }
    }
}

pub open spec fn opt_stream(s: Option<StreamState>) -> Option<StreamView> {
    match s {
        Some(x) => Some(x@),
        None => None,
    }
}

/// A turn as it begins.
pub open spec fn new_stream(
    model: Option<Seq<char>>,
    provider: Option<Seq<char>>,
    boundary: usize,
    now: u64,
) -> StreamView {
    StreamView {
        model,
        provider,
        boundary,
        last_snapshot: now,
        pending_snapshot: false,
        asked_snapshot: false,
    }
}

impl StreamState {
    pub fn new(
        model: Option<String>,
        provider: Option<String>,
        boundary: usize,
        now: u64,
    ) -> (r: StreamState)
        ensures
            r@ == new_stream(text::opt_view(model), text::opt_view(provider), boundary, now),
    {
        StreamState {
            model,
            provider,
            boundary,
            last_snapshot: now,
            pending_snapshot: false,
            asked_snapshot: false,
        }
    }
}

/// Where the record of a tool call stands.
#[derive(Debug)]
pub struct ToolCallPlace {
    pub id: String,
    pub index: usize,
}

pub struct ToolPlaceView {
    pub id: Seq<char>,
    pub index: usize,
}

impl View for ToolCallPlace {
    type V = ToolPlaceView;

    open spec fn view(&self) -> ToolPlaceView {
        ToolPlaceView { id: self.id@, index: self.index }
    }
}

/// The tool calls of the turn under way.
#[derive(Debug)]
pub struct ToolCallViewState {
    pub places: Vec<ToolCallPlace>,
    pub deferred_finish: bool,
}

pub struct ToolCallsView {
    pub places: Seq<ToolPlaceView>,
    pub deferred_finish: bool,
}

pub open spec fn tool_places(v: Seq<ToolCallPlace>) -> Seq<ToolPlaceView> {
    v.map_values(|p: ToolCallPlace| p@)
}

impl View for ToolCallViewState {
    type V = ToolCallsView;

    open spec fn view(&self) -> ToolCallsView {
        ToolCallsView { places: tool_places(self.places@), deferred_finish: self.deferred_finish }
    }
}

pub open spec fn no_tool_calls() -> ToolCallsView {
    ToolCallsView { places: Seq::empty(), deferred_finish: false }
}

impl ToolCallViewState {
    pub fn new() -> (r: ToolCallViewState)
        ensures
            r@ == no_tool_calls(),
    {
        let places: Vec<ToolCallPlace> = Vec::new();
        assert(tool_places(places@) =~= Seq::<ToolPlaceView>::empty());
        ToolCallViewState { places, deferred_finish: false }
    }
}

/// What the client keeps of a session that it has shown or that runs.
#[derive(Debug)]
pub struct ClientSessionState {
    pub id: String,
    pub chat: Chat,
    pub input_draft: String,
    pub stream: Option<StreamState>,
    pub external_stream: Option<StreamState>,
    pub tool_calls: ToolCallViewState,
    pub queued_items: Vec<QueuedItem>,
    pub find_active: bool,
    pub unread_completed: bool,
    pub retry_status: Option<StreamingRetryStatus>,
}

pub struct RetryView {
    pub attempt: usize,
    pub message: Seq<char>,
    pub next_epoch_ms: u64,
}

pub open spec fn retry_view(s: StreamingRetryStatus) -> RetryView {
    RetryView { attempt: s.attempt, message: s.message@, next_epoch_ms: s.next_epoch_ms }
}

pub open spec fn opt_retry(s: Option<StreamingRetryStatus>) -> Option<RetryView> {
    match s {
        Some(x) => Some(retry_view(x)),
        None => None,
    }
}

pub struct ClientView {
    pub id: Seq<char>,
    pub chat: ChatView,
    pub input_draft: Seq<char>,
    pub stream: Option<StreamView>,
    pub external_stream: Option<StreamView>,
    pub tool_calls: ToolCallsView,
    pub queued_items: Seq<QueuedView>,
    pub find_active: bool,
    pub unread_completed: bool,
    pub retry_status: Option<RetryView>,
}

impl View for ClientSessionState {
    type V = ClientView;

    open spec fn view(&self) -> ClientView {
        ClientView {
            id: self.id@,
            chat: self.chat@,
            input_draft: self.input_draft@,
            stream: opt_stream(self.stream),
            external_stream: opt_stream(self.external_stream),
            tool_calls: self.tool_calls@,
            queued_items: queue::queue_view(self.queued_items@),
            find_active: self.find_active,
            unread_completed: self.unread_completed,
            retry_status: opt_retry(self.retry_status),
        }
    }
}

/// What is kept of a session at first.
pub open spec fn client_of(id: Seq<char>, chat: ChatView) -> ClientView {
    ClientView {
        id,
        chat,
        input_draft: Seq::empty(),
        stream: None,
        external_stream: None,
        tool_calls: no_tool_calls(),
        queued_items: Seq::empty(),
        find_active: false,
        unread_completed: false,
        retry_status: None,
    }
}

impl ClientView {
    /// A turn of this session is under way.
    pub open spec fn has_stream(self) -> bool {
        self.stream is Some || self.external_stream is Some
    }
}

impl ClientSessionState {
    pub fn with_chat(id: String, chat: Chat) -> (r: ClientSessionState)
        ensures
            r@ == client_of(id@, chat@),
    {
        let queued_items: Vec<QueuedItem> = Vec::new();
        assert(queue::queue_view(queued_items@) =~= Seq::<QueuedView>::empty());
        ClientSessionState {
            id,
            chat,
            input_draft: String::new(),
            stream: None,
            external_stream: None,
            tool_calls: ToolCallViewState::new(),
            queued_items,
            find_active: false,
            unread_completed: false,
            retry_status: None,
        }
    }

    pub fn has_active_stream(&self) -> (r: bool)
        ensures
            r == self@.has_stream(),
    {
        self.stream.is_some() || self.external_stream.is_some()
    }
}

pub open spec fn clients_view(v: Seq<ClientSessionState>) -> Seq<ClientView> {
    v.map_values(|c: ClientSessionState| c@)
}

/// The first entry with the given id, from position `i` on.
pub open spec fn client_from(v: Seq<ClientView>, id: Seq<char>, i: int) -> Option<int>
    decreases v.len() - i,
{
    if i < 0 || i >= v.len() {
        None
    } else if v[i].id == id {
        Some(i)
    } else {
        client_from(v, id, i + 1)
    }
}

pub open spec fn client_at(v: Seq<ClientView>, id: Seq<char>) -> Option<int> {
    client_from(v, id, 0)
}

pub proof fn lemma_client_from(v: Seq<ClientView>, id: Seq<char>, i: int)
    requires
        0 <= i,
    ensures
        client_from(v, id, i) matches Some(k) ==> i <= k < v.len() && v[k].id == id,
        client_from(v, id, i) is None ==> forall|k: int| i <= k < v.len() ==> #[trigger] v[k].id != id,
    decreases v.len() - i,
{
    if i < v.len() && v[i].id != id {
        lemma_client_from(v, id, i + 1);
    }
}

/// Two lists with the same ids in the same places find the same clients.
pub proof fn lemma_same_client_ids(v: Seq<ClientView>, w: Seq<ClientView>, id: Seq<char>, i: int)
    requires
        v.len() == w.len(),
        forall|k: int| 0 <= k < v.len() ==> #[trigger] v[k].id == w[k].id,
        0 <= i,
    ensures
        client_from(v, id, i) == client_from(w, id, i),
    decreases v.len() - i,
{
    if i < v.len() {
        assert(v[i].id == w[i].id);
        lemma_same_client_ids(v, w, id, i + 1);
    }
}

pub proof fn lemma_client_push(v: Seq<ClientView>, c: ClientView, i: int)
    requires
        0 <= i,
        client_from(v, c.id, i) is None,
        i <= v.len(),
    ensures
        client_from(v.push(c), c.id, i) == Some(v.len() as int),
    decreases v.len() - i,
{
    if i < v.len() {
        lemma_client_push(v, c, i + 1);
    }
}

pub fn find_client(v: &Vec<ClientSessionState>, id: &str) -> (r: Option<usize>)
    ensures
        match r {
            Some(i) => i < v@.len() && client_at(clients_view(v@), id@) == Some(i as int)
                && v@[i as int].id@ == id@,
            None => client_at(clients_view(v@), id@) is None,
        },
{
    let key = text::chars_of(id);
    let mut i: usize = 0;
    while i < v.len()
        invariant
            key@ == id@,
            i <= v@.len(),
            client_from(clients_view(v@), id@, i as int) == client_at(clients_view(v@), id@),
        decreases v@.len() - i,
    {
        let own = text::chars_of(v[i].id.as_str());
        if text::same_chars(&own, &key) {
            return Some(i);
        }
        i += 1;
    }
    None
}

/// A compaction under way.
#[derive(Debug)]
pub struct CompactionPending {
    pub session_id: String,
    pub before_tokens: usize,
}

pub struct CompactionView {
    pub session_id: Seq<char>,
    pub before_tokens: usize,
}

pub open spec fn opt_compaction(c: Option<CompactionPending>) -> Option<CompactionView> {
    match c {
        Some(x) => Some(
            CompactionView { session_id: x.session_id@, before_tokens: x.before_tokens },
        ),
        None => None,
    }
}

#[derive(Debug, Clone, Copy, PartialEq, Eq, Structural)]
pub enum ToastLevel {
    Info,
    Success,
    Warning,
    Error,
}

#[derive(Debug, Clone, Copy, PartialEq, Eq, Structural)]
pub enum SoundEvent {
    Complete,
    SubagentComplete,
    Permission,
    Question,
    Error,
}

#[derive(Debug, Clone, Copy, PartialEq, Eq, Structural)]
pub enum PermissionResponse {
    Allow,
    AllowAlways,
    Deny,
}

/// What the caller has to do for the application, in order.
#[derive(Debug)]
pub enum Effect {
    /// Show a short notice; zero seconds stand for the usual time.
    Toast { level: ToastLevel, text: String, seconds: u64 },
    /// Play the sound of an event and show its desktop notification.
    Sound { event: SoundEvent },
    /// The same for a turn that has ended, with what it took.
    CompletionSound { event: SoundEvent, session_id: String },
    /// Ring the terminal's bell.
    Bell,
    /// Cancel the turn of a session.
    CancelStream { session_id: String },
    /// Cancel the compaction under way.
    CancelCompaction,
    /// Start a turn of a session with the messages of its transcript.
    StartStream { session_id: String, provider: String, model: String, agent: String, effort: Option<ReasoningEffort>, guidance: Option<String> },
    /// Give a task to an agent that was mentioned.
    StartMention { session_id: String, provider: String, model: String, agent: String, effort: Option<ReasoningEffort>, target: String, prompt: String },
    /// Find out what of a session can be summarised.
    SelectForCompaction { session_id: String },
    /// Summarise a session.
    StartCompaction { session_id: String, provider: String, model: String, agent: String, effort: Option<ReasoningEffort> },
    /// Ask the small model for a title.
    GenerateTitle { session_id: String, provider: String, model: String, prompt: String },
    /// Answer a permission request.
    AnswerPermission { request: u64, response: PermissionResponse },
    /// Deny every permission request that waits.
    DenyPermissions,
    /// Hand a question the answers that the caller holds.
    AnswerQuestion { request: u64 },
    /// Answer every question that waits with nothing.
    DropQuestions,
    /// Stop every terminal session.
    StopTerminals,
    /// Put text on the clipboard, and say what was copied or why not.
    CopyText { text: String, done: String },
    /// Put a link on the clipboard, and say so or why not.
    CopyLink { link: String, done: String },
    /// Fill and show a dialog.
    ShowDialog { dialog: OverlayFocus },
    /// Hide a dialog.
    HideDialog { dialog: OverlayFocus },
    /// Show the dialog that renames a session.
    ShowRename { session_id: String, title: String },
    /// Bring a message to the screen.
    ScrollToMessage { index: usize },
    /// Bring the end of the transcript on the screen into sight.
    ScrollToBottom,
    /// Scroll the transcript by a line.
    ScrollChat { down: bool },
    /// Run a command of the registry, or one of the user's own.
    ExecuteCommand { name: String, args: Vec<String>, custom: bool },
    /// Remember that a command was used.
    TouchCommand { name: String },
    /// Remember a prompt.
    SaveHistory,
    /// Look for text in the transcript.
    Search { query: String },
    /// Go to another match of the search.
    NextMatch { forward: bool },
    /// Forget the search.
    ClearSearch,
    /// List the models anew.
    RefreshModels,
    /// Fill the connect dialog with the providers again.
    ResetConnect,
    /// Forget the credentials of the selected provider.
    DisconnectProvider,
    /// Open a folder of the storage.
    OpenFolder { path: String },
    /// Open an image, a file or a link.
    OpenTarget { target: String, label: String },
    /// Look up the models of the connected providers.
    StartModels { refresh: bool },
    /// Measure the storage in use.
    StartStorageCheck,
    /// Log in at a provider.
    StartOAuth { login: OAuthProvider, headless: bool },
    /// Ask for the key of a provider.
    AskApiKey { provider: String },
    /// List the ways to connect a provider.
    ShowConnectMethods { login: OAuthProvider },
    /// Connect a provider that runs on this machine.
    ConnectLocal { provider: String },
    /// Take an image from the clipboard.
    PasteClipboardImage,
    /// Open the selected line in an editor.
    OpenSelection,
    /// Put the messages of a session into the store.
    StoreSnapshot { session_id: String },
    /// Put a title on the terminal's window.
    SetTerminalTitle { title: String },
    /// Take the title off the terminal's window.
    ClearTerminalTitle,
    /// Remember the active model.
    SaveModel { provider: String, model: String },
    /// Remember the active theme.
    SaveTheme { id: String },
    /// Remember whether the theme is transparent.
    SaveTransparency { transparent: bool },
    /// Remember whether the chat is compact.
    SaveCompactMode { compact: bool },
    /// Remember the effort chosen for a model; none stands for a choice taken away. It is not
    /// chosen before it is remembered; `relist` tells that the list of models shows it then.
    SaveEffort {
        provider: String,
        model: String,
        effort: Option<ReasoningEffort>,
        relist: bool,
    },
}

pub enum EffectView {
    Toast { level: ToastLevel, text: Seq<char>, seconds: u64 },
    Sound { event: SoundEvent },
    CompletionSound { event: SoundEvent, session_id: Seq<char> },
    Bell,
    CancelStream { session_id: Seq<char> },
    CancelCompaction,
    StartStream { session_id: Seq<char>, provider: Seq<char>, model: Seq<char>, agent: Seq<char>, effort: Option<ReasoningEffort>, guidance: Option<Seq<char>> },
    StartMention { session_id: Seq<char>, provider: Seq<char>, model: Seq<char>, agent: Seq<char>, effort: Option<ReasoningEffort>, target: Seq<char>, prompt: Seq<char> },
    SelectForCompaction { session_id: Seq<char> },
    StartCompaction { session_id: Seq<char>, provider: Seq<char>, model: Seq<char>, agent: Seq<char>, effort: Option<ReasoningEffort> },
    GenerateTitle {
        session_id: Seq<char>,
        provider: Seq<char>,
        model: Seq<char>,
        prompt: Seq<char>,
    },
    AnswerPermission { request: u64, response: PermissionResponse },
    DenyPermissions,
    AnswerQuestion { request: u64 },
    DropQuestions,
    StopTerminals,
    CopyText { text: Seq<char>, done: Seq<char> },
    CopyLink { link: Seq<char>, done: Seq<char> },
    ShowDialog { dialog: OverlayFocus },
    HideDialog { dialog: OverlayFocus },
    ShowRename { session_id: Seq<char>, title: Seq<char> },
    ScrollToMessage { index: usize },
    ScrollToBottom,
    ScrollChat { down: bool },
    ExecuteCommand { name: Seq<char>, args: Seq<Seq<char>>, custom: bool },
    TouchCommand { name: Seq<char> },
    SaveHistory,
    Search { query: Seq<char> },
    NextMatch { forward: bool },
    ClearSearch,
    RefreshModels,
    ResetConnect,
    DisconnectProvider,
    OpenFolder { path: Seq<char> },
    OpenTarget { target: Seq<char>, label: Seq<char> },
    StartModels { refresh: bool },
    StartStorageCheck,
    StartOAuth { login: OAuthProvider, headless: bool },
    AskApiKey { provider: Seq<char> },
    ShowConnectMethods { login: OAuthProvider },
    ConnectLocal { provider: Seq<char> },
    PasteClipboardImage,
    OpenSelection,
    StoreSnapshot { session_id: Seq<char> },
    SetTerminalTitle { title: Seq<char> },
    ClearTerminalTitle,
    SaveModel { provider: Seq<char>, model: Seq<char> },
    SaveTheme { id: Seq<char> },
    SaveTransparency { transparent: bool },
    SaveCompactMode { compact: bool },
    SaveEffort {
        provider: Seq<char>,
        model: Seq<char>,
        effort: Option<ReasoningEffort>,
        relist: bool,
    },
}

impl View for Effect {
    type V = EffectView;

    open spec fn view(&self) -> EffectView {
        match self {
            Effect::Toast { level, text, seconds } => EffectView::Toast {
                level: *level,
                text: text@,
                seconds: *seconds,
            },
            Effect::Sound { event } => EffectView::Sound {
                event: *event,
            },
            Effect::CompletionSound { event, session_id } => EffectView::CompletionSound {
                event: *event,
                session_id: session_id@,
            },
            Effect::Bell => EffectView::Bell,
            Effect::CancelStream { session_id } => EffectView::CancelStream {
                session_id: session_id@,
            },
            Effect::CancelCompaction => EffectView::CancelCompaction,
            Effect::StartStream { session_id, provider, model, agent, effort, guidance } => EffectView::StartStream {
                session_id: session_id@,
                provider: provider@,
                model: model@,
                agent: agent@,
                effort: *effort,
                guidance: text::opt_view(*guidance),
            },
            Effect::StartMention { session_id, provider, model, agent, effort, target, prompt } => EffectView::StartMention {
                session_id: session_id@,
                provider: provider@,
                model: model@,
                agent: agent@,
                effort: *effort,
                target: target@,
                prompt: prompt@,
            },
            Effect::SelectForCompaction { session_id } => EffectView::SelectForCompaction {
                session_id: session_id@,
            },
            Effect::StartCompaction { session_id, provider, model, agent, effort } => EffectView::StartCompaction {
                session_id: session_id@,
                provider: provider@,
                model: model@,
                agent: agent@,
                effort: *effort,
            },
            Effect::GenerateTitle {
                session_id,
                provider,
                model,
                prompt,
            } => EffectView::GenerateTitle {
                provider: provider@,
                session_id: session_id@,
                model: model@,
                prompt: prompt@,
            },
            Effect::AnswerPermission { request, response } => EffectView::AnswerPermission {
                request: *request,
                response: *response,
            },
            Effect::DenyPermissions => EffectView::DenyPermissions,
            Effect::AnswerQuestion { request } => EffectView::AnswerQuestion {
                request: *request,
            },
            Effect::DropQuestions => EffectView::DropQuestions,
            Effect::StopTerminals => EffectView::StopTerminals,
            Effect::CopyText { text, done } => EffectView::CopyText {
                text: text@,
                done: done@,
            },
            Effect::CopyLink { link, done } => EffectView::CopyLink {
                link: link@,
                done: done@,
            },
            Effect::ShowDialog { dialog } => EffectView::ShowDialog {
                dialog: *dialog,
            },
            Effect::HideDialog { dialog } => EffectView::HideDialog {
                dialog: *dialog,
            },
            Effect::ShowRename { session_id, title } => EffectView::ShowRename {
                session_id: session_id@,
                title: title@,
            },
            Effect::ScrollToBottom => EffectView::ScrollToBottom,
            Effect::ScrollToMessage { index } => EffectView::ScrollToMessage {
                index: *index,
            },
            Effect::ScrollChat { down } => EffectView::ScrollChat {
                down: *down,
            },
            Effect::ExecuteCommand { name, args, custom } => EffectView::ExecuteCommand {
                name: name@,
                args: text::views(args@),
                custom: *custom,
            },
            Effect::TouchCommand { name } => EffectView::TouchCommand {
                name: name@,
            },
            Effect::SaveHistory => EffectView::SaveHistory,
            Effect::Search { query } => EffectView::Search {
                query: query@,
            },
            Effect::NextMatch { forward } => EffectView::NextMatch {
                forward: *forward,
            },
            Effect::ClearSearch => EffectView::ClearSearch,
            Effect::RefreshModels => EffectView::RefreshModels,
            Effect::ResetConnect => EffectView::ResetConnect,
            Effect::DisconnectProvider => EffectView::DisconnectProvider,
            Effect::OpenFolder { path } => EffectView::OpenFolder {
                path: path@,
            },
            Effect::OpenTarget { target, label } => EffectView::OpenTarget {
                target: target@,
                label: label@,
            },
            Effect::StartModels { refresh } => EffectView::StartModels {
                refresh: *refresh,
            },
            Effect::StartStorageCheck => EffectView::StartStorageCheck,
            Effect::StartOAuth { login, headless } => EffectView::StartOAuth {
                login: *login,
                headless: *headless,
            },
            Effect::AskApiKey { provider } => EffectView::AskApiKey {
                provider: provider@,
            },
            Effect::ShowConnectMethods { login } => EffectView::ShowConnectMethods {
                login: *login,
            },
            Effect::ConnectLocal { provider } => EffectView::ConnectLocal {
                provider: provider@,
            },
            Effect::PasteClipboardImage => EffectView::PasteClipboardImage,
            Effect::OpenSelection => EffectView::OpenSelection,
            Effect::StoreSnapshot { session_id } => EffectView::StoreSnapshot {
                session_id: session_id@,
            },
            Effect::SetTerminalTitle { title } => EffectView::SetTerminalTitle {
                title: title@,
            },
            Effect::ClearTerminalTitle => EffectView::ClearTerminalTitle,
            Effect::SaveModel { provider, model } => EffectView::SaveModel {
                provider: provider@,
                model: model@,
            },
            Effect::SaveTheme { id } => EffectView::SaveTheme {
                id: id@,
            },
            Effect::SaveTransparency { transparent } => EffectView::SaveTransparency {
                transparent: *transparent,
            },
            Effect::SaveCompactMode { compact } => EffectView::SaveCompactMode {
                compact: *compact,
            },
            Effect::SaveEffort { provider, model, effort, relist } => EffectView::SaveEffort {
                provider: provider@,
                model: model@,
                effort: *effort,
                relist: *relist,
            },
        }
    }
}

pub open spec fn effects_view(v: Seq<Effect>) -> Seq<EffectView> {
    v.map_values(|e: Effect| e@)
}

pub proof fn lemma_effects_push(v: Seq<Effect>, e: Effect)
    ensures
        effects_view(v.push(e)) == effects_view(v).push(e@),
{
    assert(effects_view(v.push(e)) =~= effects_view(v).push(e@));
}

} // verus!
