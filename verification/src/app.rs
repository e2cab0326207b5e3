//! The application: its state, and the small steps that everything else is made of.

use crate::agents;
use crate::agents::{AgentDefinition, AgentView};
use crate::focus::{BaseFocus, OverlayFocus};
use crate::message;
use crate::message::{Message, MessageRole, MessageView};
use crate::queue;
use crate::queue::{QueuedItem, QueuedUserMessage, QueuedView};
use crate::reasoning::{ReasoningSettings, ReasoningView};
use crate::session;
use crate::session::{Session, SessionStatus, SessionView, Workspace, WorkspaceView};
use crate::session_list;
use crate::session_list::{SessionsDialog, SessionsDialogView};
use crate::state;
use crate::state::{
    Chat, ChatView, ClientSessionState, ClientView, CompactionPending, CompactionView, Effect,
    EffectView, Input, InputView, SoundEvent, StreamState, StreamView, ToastLevel,
};
use crate::text;
use crate::ui::{Ui, UiView};
use vstd::prelude::*;
use vstd::string::*;

verus! {

/// How often a running turn saves its transcript, in milliseconds.
pub const STREAM_MESSAGE_SNAPSHOT_INTERVAL: u64 = 250;

/// When the terminal's bell rings for an event.
#[derive(Debug, Clone, Copy, PartialEq, Eq, Structural)]
pub enum TerminalNotificationMode {
    Auto,
    Enabled,
    Disabled,
}

#[derive(Debug, Clone, Copy, PartialEq, Eq, Structural)]
pub enum TerminalNotificationCondition {
    Always,
    Unfocused,
}

#[derive(Debug, Clone, Copy, PartialEq, Eq, Structural)]
pub struct TerminalNotifications {
    pub condition: TerminalNotificationCondition,
    pub complete: TerminalNotificationMode,
    pub subagent_complete: TerminalNotificationMode,
    pub permission: TerminalNotificationMode,
    pub question: TerminalNotificationMode,
    pub error: TerminalNotificationMode,
    pub bell_supported: bool,
    pub focused: bool,
}

impl TerminalNotifications {
    pub open spec fn mode(self, event: SoundEvent) -> TerminalNotificationMode {
        match event {
            SoundEvent::Complete => self.complete,
            SoundEvent::SubagentComplete => self.subagent_complete,
            SoundEvent::Permission => self.permission,
            SoundEvent::Question => self.question,
            SoundEvent::Error => self.error,
        }
    }

    pub open spec fn rings(self, event: SoundEvent) -> bool {
        !(self.condition == TerminalNotificationCondition::Unfocused && self.focused) && match self.mode(
            event,
        ) {
            TerminalNotificationMode::Auto => self.bell_supported,
            TerminalNotificationMode::Enabled => true,
            TerminalNotificationMode::Disabled => false,
        }
    }

    /// Whether the bell rings for an event.
    pub fn should_ring(&self, event: SoundEvent) -> (r: bool)
        ensures
            r == self.rings(event),
    {
        if self.condition == TerminalNotificationCondition::Unfocused && self.focused {
            return false;
        }
        let mode = match event {
            SoundEvent::Complete => self.complete,
            SoundEvent::SubagentComplete => self.subagent_complete,
            SoundEvent::Permission => self.permission,
            SoundEvent::Question => self.question,
            SoundEvent::Error => self.error,
        };
        match mode {
            TerminalNotificationMode::Auto => self.bell_supported,
            TerminalNotificationMode::Enabled => true,
            TerminalNotificationMode::Disabled => false,
        }
    }
}

/// What the usage was last counted for: so many messages, a revision of the transcript, and so
/// many times 256 tokens of the answer that streams in.
#[derive(Debug, Clone, Copy, PartialEq, Eq, Structural)]
pub struct UsageCheck {
    pub messages: usize,
    pub revision: u64,
    pub tokens: usize,
}

/// The whole application. Times are milliseconds of a clock that the caller keeps in `now`, and
/// the caller renews `next_session_id` after each session that is made. Sessions stand in the
/// order in which they were made, so that one stands behind the session that it was made for
/// (`family::is_well_ordered`).
#[derive(Debug)]
pub struct App {
    pub running: bool,
    pub now: u64,
    pub last_user_activity: u64,
    pub sessions: Vec<Session>,
    pub current: Option<String>,
    pub workspace: Workspace,
    pub next_session_id: String,
    pub clients: Vec<ClientSessionState>,
    pub chat: Chat,
    pub input: Input,
    pub find_active: bool,
    pub pending_session_title: Option<String>,
    pub base_focus: BaseFocus,
    pub overlay_focus: OverlayFocus,
    pub is_streaming: bool,
    pub esc_primed_at: Option<u64>,
    pub compaction: Option<CompactionPending>,
    pub permissions: Vec<u64>,
    pub questions: Vec<u64>,
    pub terminals: Vec<String>,
    pub sessions_dialog: SessionsDialog,
    pub agent: String,
    pub model: String,
    pub provider_name: String,
    pub agents: Vec<AgentDefinition>,
    pub reasoning: ReasoningSettings,
    pub notifications: TerminalNotifications,
    pub small_model: Option<String>,
    pub title_generation: bool,
    pub usage_stale: bool,
    pub usage_check: UsageCheck,
    /// The popup of suggestions has something to show.
    pub suggestions: bool,
    pub ui: Ui,
    pub effects: Vec<Effect>,
}

pub struct AppView {
    pub running: bool,
    pub now: u64,
    pub last_user_activity: u64,
    pub sessions: Seq<SessionView>,
    pub current: Option<Seq<char>>,
    pub workspace: WorkspaceView,
    pub next_session_id: Seq<char>,
    pub clients: Seq<ClientView>,
    pub chat: ChatView,
    pub input: InputView,
    pub find_active: bool,
    pub pending_session_title: Option<Seq<char>>,
    pub base_focus: BaseFocus,
    pub overlay_focus: OverlayFocus,
    pub is_streaming: bool,
    pub esc_primed_at: Option<u64>,
    pub compaction: Option<CompactionView>,
    pub permissions: Seq<u64>,
    pub questions: Seq<u64>,
    pub terminals: Seq<Seq<char>>,
    pub sessions_dialog: SessionsDialogView,
    pub agent: Seq<char>,
    pub model: Seq<char>,
    pub provider_name: Seq<char>,
    pub agents: Seq<AgentView>,
    pub reasoning: ReasoningView,
    pub notifications: TerminalNotifications,
    pub small_model: Option<Seq<char>>,
    pub title_generation: bool,
    pub usage_stale: bool,
    pub usage_check: UsageCheck,
    pub suggestions: bool,
    pub ui: UiView,
    pub effects: Seq<EffectView>,
}

impl View for App {
    type V = AppView;

    open spec fn view(&self) -> AppView {
        AppView {
            running: self.running,
            now: self.now,
            last_user_activity: self.last_user_activity,
            sessions: session::sessions_view(self.sessions@),
            current: text::opt_view(self.current),
            workspace: self.workspace@,
            next_session_id: self.next_session_id@,
            clients: state::clients_view(self.clients@),
            chat: self.chat@,
            input: self.input@,
            find_active: self.find_active,
            pending_session_title: text::opt_view(self.pending_session_title),
            base_focus: self.base_focus,
            overlay_focus: self.overlay_focus,
            is_streaming: self.is_streaming,
            esc_primed_at: self.esc_primed_at,
            compaction: state::opt_compaction(self.compaction),
            permissions: self.permissions@,
            questions: self.questions@,
            terminals: text::views(self.terminals@),
            sessions_dialog: self.sessions_dialog@,
            agent: self.agent@,
            model: self.model@,
            provider_name: self.provider_name@,
            agents: agents::agents_view(self.agents@),
            reasoning: self.reasoning@,
            notifications: self.notifications,
            small_model: text::opt_view(self.small_model),
            title_generation: self.title_generation,
            usage_stale: self.usage_stale,
            usage_check: self.usage_check,
            suggestions: self.suggestions,
            ui: self.ui@,
            effects: state::effects_view(self.effects@),
        }
    }
}

pub open spec fn with_effect(a: AppView, e: EffectView) -> AppView {
    AppView { effects: a.effects.push(e), ..a }
}

pub open spec fn toasted(a: AppView, level: ToastLevel, t: Seq<char>, seconds: u64) -> AppView {
    with_effect(a, EffectView::Toast { level, text: t, seconds })
}

pub open spec fn sounded(a: AppView, event: SoundEvent) -> AppView {
    with_effect(a, EffectView::Sound { event })
}

pub open spec fn rung(a: AppView, event: SoundEvent) -> AppView {
    if a.notifications.rings(event) {
        with_effect(a, EffectView::Bell)
    } else {
        a
    }
}

/// The sound of an event, and the bell where it rings.
pub open spec fn alerted(a: AppView, event: SoundEvent) -> AppView {
    rung(sounded(a, event), event)
}

pub open spec fn is_current(a: AppView, id: Seq<char>) -> bool {
    a.current == Some(id)
}

pub open spec fn client_of(a: AppView, id: Seq<char>) -> Option<ClientView> {
    match state::client_at(a.clients, id) {
        Some(k) => Some(a.clients[k]),
        None => None,
    }
}

/// Puts `c` in the place of what the client keeps of session `id`.
pub open spec fn with_client(a: AppView, id: Seq<char>, c: ClientView) -> AppView {
    match state::client_at(a.clients, id) {
        Some(k) => AppView { clients: a.clients.update(k, c), ..a },
        None => a,
    }
}

pub open spec fn streams(a: AppView, id: Seq<char>) -> bool {
    session_list::streams(a.clients, id)
}

pub open spec fn compacts(a: AppView, id: Seq<char>) -> bool {
    a.compaction matches Some(c) && c.session_id == id
}

/// Whether the screen shows something at work.
pub open spec fn at_work(a: AppView) -> bool {
    a.compaction is Some || (a.current matches Some(id) && streams(a, id))
}

/// The streaming flag brought up to date; an armed Esc is dropped when the work has ended.
pub open spec fn synced(a: AppView) -> AppView {
    AppView {
        is_streaming: at_work(a),
        esc_primed_at: if a.is_streaming && !at_work(a) {
            None
        } else {
            a.esc_primed_at
        },
        ..a
    }
}

pub open spec fn with_stale_usage(a: AppView) -> AppView {
    AppView { usage_stale: true, ..a }
}

pub open spec fn dirtied(a: AppView) -> AppView {
    AppView { sessions_dialog: SessionsDialogView { dirty: true, ..a.sessions_dialog }, ..a }
}

pub open spec fn status_set(
    a: AppView,
    id: Seq<char>,
    status: SessionStatus,
    error: Option<Seq<char>>,
) -> AppView {
    match session::session_at(a.sessions, id) {
        Some(i) => AppView {
            sessions: a.sessions.update(i, SessionView { status, error, ..a.sessions[i] }),
            ..a
        },
        None => a,
    }
}

/// The saved messages of a session.
pub open spec fn saved_messages(a: AppView, id: Seq<char>) -> Seq<MessageView> {
    match session::session_at(a.sessions, id) {
        Some(i) => a.sessions[i].messages,
        None => Seq::empty(),
    }
}

/// Something is kept of the session, if only its saved messages.
pub open spec fn ensured(a: AppView, id: Seq<char>) -> AppView {
    if state::client_at(a.clients, id) is Some {
        a
    } else {
        AppView {
            clients: a.clients.push(
                state::client_of(id, state::chat_of(saved_messages(a, id))),
            ),
            ..a
        }
    }
}

/// The transcript of a session: the one on the screen, or the one that is kept.
pub open spec fn chat_for(a: AppView, id: Seq<char>) -> Option<ChatView> {
    if is_current(a, id) {
        Some(a.chat)
    } else {
        match client_of(a, id) {
            Some(c) => Some(c.chat),
            None => None,
        }
    }
}

/// The transcript of a session; of one that nothing is kept of, the saved one.
pub open spec fn transcript(a: AppView, id: Seq<char>) -> ChatView {
    match chat_for(a, id) {
        Some(c) => c,
        None => state::chat_of(saved_messages(a, id)),
    }
}

/// Puts another transcript in the place of a session's, wherever that stands.
pub open spec fn with_transcript(a: AppView, id: Seq<char>, chat: ChatView) -> AppView {
    if is_current(a, id) {
        AppView { chat, ..a }
    } else {
        let e = ensured(a, id);
        with_client(e, id, ClientView { chat, ..client_of(e, id)->0 })
    }
}

pub open spec fn can_save(a: AppView, id: Seq<char>) -> bool {
    chat_for(a, id) is Some && session::session_at(a.sessions, id) is Some
}

/// The session with its transcript saved.
pub open spec fn persisted(a: AppView, id: Seq<char>) -> AppView {
    match chat_for(a, id) {
        Some(c) => match session::session_at(a.sessions, id) {
            Some(i) => AppView {
                sessions: a.sessions.update(
                    i,
                    SessionView { messages: c.messages, updated_at: a.now, ..a.sessions[i] },
                ),
                ..a
            },
            None => a,
        },
        None => a,
    }
}

pub open spec fn client_marked(c: ClientView) -> ClientView {
    match c.stream {
        Some(s) => ClientView { stream: Some(StreamView { pending_snapshot: true, ..s }), ..c },
        None => match c.external_stream {
            Some(s) => ClientView {
                external_stream: Some(StreamView { pending_snapshot: true, ..s }),
                ..c
            },
            None => c,
        },
    }
}

/// Notes that the transcript of a running turn is to be saved.
pub open spec fn marked_pending(a: AppView, id: Seq<char>) -> AppView {
    match client_of(a, id) {
        Some(c) => with_client(a, id, client_marked(c)),
        None => a,
    }
}

pub open spec fn elapsed(now: u64, since: u64) -> int {
    if now >= since {
        now - since
    } else {
        0
    }
}

pub fn elapsed_since(now: u64, since: u64) -> (r: u64)
    ensures
        r == elapsed(now, since),
{
    if now >= since {
        now - since
    } else {
        0
    }
}

pub open spec fn is_due(s: Option<StreamView>, now: u64, force: bool) -> bool {
    s matches Some(x) && x.pending_snapshot && (force || !x.asked_snapshot && elapsed(
        now,
        x.last_snapshot,
    ) >= STREAM_MESSAGE_SNAPSHOT_INTERVAL)
}

pub open spec fn as_asked(s: Option<StreamView>) -> Option<StreamView> {
    match s {
        Some(x) => Some(StreamView { pending_snapshot: false, asked_snapshot: true, ..x }),
        None => None,
    }
}

pub open spec fn is_asked(s: Option<StreamView>) -> bool {
    s matches Some(x) && x.asked_snapshot
}

pub open spec fn with_asked(c: ClientView) -> ClientView {
    ClientView {
        stream: as_asked(c.stream),
        external_stream: as_asked(c.external_stream),
        ..c
    }
}

/// A turn once the store has answered: the interval runs from a snapshot that it took; of one that
/// it refused the messages are still to be saved, and the interval runs on.
pub open spec fn as_answered(s: Option<StreamView>, now: u64, stored: bool) -> Option<StreamView> {
    match s {
        Some(x) => if !x.asked_snapshot {
            s
        } else if stored {
            Some(StreamView { last_snapshot: now, asked_snapshot: false, ..x })
        } else {
            Some(StreamView { pending_snapshot: true, asked_snapshot: false, ..x })
        },
        None => None,
    }
}

/// What becomes of a session's turn by the store's answer.
pub open spec fn snapshot_answered(a: AppView, id: Seq<char>, stored: bool) -> AppView {
    match client_of(a, id) {
        Some(c) => with_client(
            a,
            id,
            ClientView {
                stream: as_answered(c.stream, a.now, stored),
                external_stream: as_answered(c.external_stream, a.now, stored),
                ..c
            },
        ),
        None => a,
    }
}

/// Saves the transcript of a running turn if it has changed and it is time, or if it is forced:
/// the session takes it over, and the store is asked to take the session, unless it is asked
/// already.
#[verifier::opaque]
pub open spec fn snapshot(a: AppView, id: Seq<char>, force: bool) -> AppView {
    match client_of(a, id) {
        Some(c) => if (is_due(c.stream, a.now, force) || is_due(c.external_stream, a.now, force))
            && can_save(a, id) {
            let b = with_client(persisted(a, id), id, with_asked(c));
            if is_asked(c.stream) || is_asked(c.external_stream) {
                b
            } else {
                with_effect(b, EffectView::StoreSnapshot { session_id: id })
            }
        } else {
            a
        },
        None => a,
    }
}

/// Where the turn under way in a session began, and what it runs on.
pub open spec fn boundary(a: AppView, id: Seq<char>) -> Option<StreamView> {
    match client_of(a, id) {
        Some(c) => match c.stream {
            Some(s) => Some(s),
            None => c.external_stream,
        },
        None => None,
    }
}

/// The list of sessions in the dialog, made anew.
pub open spec fn relisted(a: AppView) -> AppView {
    AppView {
        sessions_dialog: SessionsDialogView {
            workspace_id: a.workspace.id,
            rows: session_list::session_rows(
                a.sessions,
                a.clients,
                a.sessions_dialog.filter,
                a.workspace.id,
            ),
            listed: true,
            marker_frame: 0,
            dirty: false,
            last_probe: a.now,
            ..a.sessions_dialog
        },
        ..a
    }
}

/// The screen's transcript and prompt put away with the current session.
#[verifier::opaque]
pub open spec fn put_away(a: AppView) -> AppView {
    match a.current {
        Some(id) => {
            let e = ensured(a, id);
            let c = client_of(e, id)->0;
            AppView {
                chat: state::chat_of(Seq::empty()),
                find_active: false,
                ..with_client(
                    e,
                    id,
                    ClientView {
                        chat: a.chat,
                        find_active: a.find_active,
                        input_draft: if session::is_child(a.sessions, id) {
                            Seq::empty()
                        } else {
                            a.input.text
                        },
                        ..c
                    },
                )
            }
        },
        None => a,
    }
}

/// The transcript and prompt of a session brought to the screen.
#[verifier::opaque]
pub open spec fn brought_up(a: AppView, id: Seq<char>) -> AppView {
    let e = ensured(a, id);
    let c = client_of(e, id)->0;
    let child = session::is_child(a.sessions, id);
    with_effect(
        with_stale_usage(
            synced(
                AppView {
                    chat: c.chat,
                    find_active: c.find_active,
                    input: if child {
                        state::empty_input()
                    } else {
                        state::input_of(c.input_draft, Seq::empty())
                    },
                    ..with_client(
                        e,
                        id,
                        ClientView {
                            chat: state::chat_of(Seq::empty()),
                            find_active: false,
                            input_draft: if child {
                                Seq::empty()
                            } else {
                                c.input_draft
                            },
                            unread_completed: false,
                            ..c
                        },
                    )
                },
            ),
        ),
        EffectView::ScrollToBottom,
    )
}

/// What is kept of a session without what can be drawn again, unless it belongs to the family
/// on the screen.
pub open spec fn released_client(
    c: ClientView,
    sessions: Seq<SessionView>,
    current: Option<Seq<char>>,
) -> ClientView {
    let root = match current {
        Some(id) => session::root_of(sessions, id),
        None => None,
    };
    if current == Some(c.id) || (root is Some && session::root_of(sessions, c.id) == root) {
        c
    } else {
        ClientView { chat: ChatView { render_cached: false, ..c.chat }, ..c }
    }
}

pub open spec fn released(a: AppView) -> AppView {
    AppView {
        clients: a.clients.map_values(
            |c: ClientView| released_client(c, a.sessions, a.current),
        ),
        ..a
    }
}

pub proof fn lemma_sessions_update(before: Seq<Session>, i: int, s: Session)
    requires
        0 <= i < before.len(),
    ensures
        session::sessions_view(before.update(i, s)) == session::sessions_view(before).update(i, s@),
{
    assert(session::sessions_view(before.update(i, s)) =~= session::sessions_view(before).update(
        i,
        s@,
    ));
}

pub proof fn lemma_clients_update(before: Seq<ClientSessionState>, i: int, c: ClientSessionState)
    requires
        0 <= i < before.len(),
    ensures
        state::clients_view(before.update(i, c)) == state::clients_view(before).update(i, c@),
{
    assert(state::clients_view(before.update(i, c)) =~= state::clients_view(before).update(i, c@));
}

impl App {
    pub fn push_effect(&mut self, e: Effect)
        ensures
            final(self)@ == with_effect(old(self)@, e@),
    {
        proof {
            state::lemma_effects_push(self.effects@, e);
        }
        self.effects.push(e);
    }

    /// Hands out what there is to do, and forgets it.
    pub fn take_effects(&mut self) -> (r: Vec<Effect>)
        ensures
            state::effects_view(r@) == old(self)@.effects,
            final(self)@ == (AppView { effects: Seq::empty(), ..old(self)@ }),
    {
        let mut taken: Vec<Effect> = Vec::new();
        std::mem::swap(&mut taken, &mut self.effects);
        assert(state::effects_view(self.effects@) =~= Seq::<EffectView>::empty());
        taken
    }

    pub fn push_toast(&mut self, level: ToastLevel, t: &str, seconds: u64)
        ensures
            final(self)@ == toasted(old(self)@, level, t@, seconds),
    {
        self.push_effect(Effect::Toast { level, text: t.to_owned(), seconds });
    }

    pub fn play_sound_event(&mut self, event: SoundEvent)
        ensures
            final(self)@ == sounded(old(self)@, event),
    {
        self.push_effect(Effect::Sound { event });
    }

    pub fn notify_terminal_event(&mut self, event: SoundEvent)
        ensures
            final(self)@ == rung(old(self)@, event),
    {
        if self.notifications.should_ring(event) {
            self.push_effect(Effect::Bell);
        }
    }

    pub fn alert(&mut self, event: SoundEvent)
        ensures
            final(self)@ == alerted(old(self)@, event),
    {
        self.play_sound_event(event);
        self.notify_terminal_event(event);
    }

    pub fn set_terminal_focused(&mut self, focused: bool)
        ensures
            final(self)@ == (AppView {
                notifications: TerminalNotifications { focused, ..old(self)@.notifications },
                ..old(self)@
            }),
    {
        self.notifications.focused = focused;
    }

    pub fn note_user_activity(&mut self)
        ensures
            final(self)@ == (AppView { last_user_activity: old(self)@.now, ..old(self)@ }),
    {
        self.last_user_activity = self.now;
    }

    pub fn is_active_session(&self, id: &str) -> (r: bool)
        ensures
            r == is_current(self@, id@),
    {
        match &self.current {
            Some(current) => text::same(current.as_str(), id),
            None => false,
        }
    }

    pub fn current_session_id(&self) -> (r: Option<String>)
        ensures
            text::opt_view(r) == self@.current,
    {
        text::copy_opt(&self.current)
    }

    pub fn session_has_active_stream(&self, id: &str) -> (r: bool)
        ensures
            r == streams(self@, id@),
    {
        session_list::has_active_stream(&self.clients, id)
    }

    pub fn session_has_active_compaction(&self, id: &str) -> (r: bool)
        ensures
            r == compacts(self@, id@),
    {
        match &self.compaction {
            Some(c) => text::same(c.session_id.as_str(), id),
            None => false,
        }
    }

    pub fn sync_active_streaming_flag(&mut self)
        ensures
            final(self)@ == synced(old(self)@),
    {
        let was_streaming = self.is_streaming;
        let streaming = self.compaction.is_some() || match &self.current {
            Some(id) => session_list::has_active_stream(&self.clients, id.as_str()),
            None => false,
        };
        self.is_streaming = streaming;
        if was_streaming && !streaming {
            self.esc_primed_at = None;
        }
    }

    pub fn mark_sessions_dialog_live_dirty(&mut self)
        ensures
            final(self)@ == dirtied(old(self)@),
    {
        self.sessions_dialog.dirty = true;
    }

    pub fn set_session_status(&mut self, id: &str, status: SessionStatus, error: Option<String>)
        ensures
            final(self)@ == status_set(old(self)@, id@, status, text::opt_view(error)),
    {
        match session::find_session(&self.sessions, id) {
            Some(i) => {
                let ghost before = self.sessions@;
                self.sessions[i].status = status;
                self.sessions[i].error = error;
                proof {
                    assert(self.sessions@ =~= before.update(i as int, self.sessions@[i as int]));
                    lemma_sessions_update(before, i as int, self.sessions@[i as int]);
                }
            },
            None => {},
        }
    }

    fn copy_saved_messages(&self, id: &str) -> (r: Vec<Message>)
        ensures
            message::messages_view(r@) == saved_messages(self@, id@),
    {
        match session::find_session(&self.sessions, id) {
            Some(i) => message::copy_messages(&self.sessions[i].messages),
            None => {
                let none: Vec<Message> = Vec::new();
                assert(message::messages_view(none@) =~= Seq::<MessageView>::empty());
                none
            },
        }
    }

    /// Keeps something of the session, and says where.
    pub fn ensure_session_view_state(&mut self, id: &str) -> (k: usize)
        ensures
            final(self)@ == ensured(old(self)@, id@),
            k < final(self).clients@.len(),
            state::client_at(final(self)@.clients, id@) == Some(k as int),
            final(self).clients@[k as int].id@ == id@,
    {
        match state::find_client(&self.clients, id) {
            Some(k) => k,
            None => {
                let messages = self.copy_saved_messages(id);
                let c = ClientSessionState::with_chat(
                    id.to_owned(),
                    Chat::with_messages(messages),
                );
                let ghost before = self.clients@;
                let k: usize = self.clients.len();
                self.clients.push(c);
                proof {
                    assert(state::clients_view(self.clients@) =~= state::clients_view(before).push(
                        c@,
                    ));
                    state::lemma_client_push(state::clients_view(before), c@, 0);
                }
                k
            },
        }
    }

    pub fn replace_session_messages(&mut self, id: &str, messages: Vec<Message>) -> (r: bool)
        ensures
            r == (session::session_at(old(self)@.sessions, id@) is Some),
            final(self)@ == match session::session_at(old(self)@.sessions, id@) {
                Some(i) => AppView {
                    sessions: old(self)@.sessions.update(
                        i,
                        SessionView {
                            messages: message::messages_view(messages@),
                            updated_at: old(self)@.now,
                            ..old(self)@.sessions[i]
                        },
                    ),
                    ..old(self)@
                },
                None => old(self)@,
            },
    {
        match session::find_session(&self.sessions, id) {
            Some(i) => {
                let ghost before = self.sessions@;
                self.sessions[i].messages = messages;
                self.sessions[i].updated_at = self.now;
                proof {
                    assert(self.sessions@ =~= before.update(i as int, self.sessions@[i as int]));
                    lemma_sessions_update(before, i as int, self.sessions@[i as int]);
                }
                true
            },
            None => false,
        }
    }

    pub fn persist_chat_messages_for_session(&mut self, id: &str) -> (r: bool)
        ensures
            r == can_save(old(self)@, id@),
            final(self)@ == persisted(old(self)@, id@),
    {
        let messages = if self.is_active_session(id) {
            message::copy_messages(&self.chat.messages)
        } else {
            match state::find_client(&self.clients, id) {
                Some(k) => message::copy_messages(&self.clients[k].chat.messages),
                None => {
                    return false;
                },
            }
        };
        self.replace_session_messages(id, messages)
    }

    pub fn mark_streaming_snapshot_pending(&mut self, id: &str)
        ensures
            final(self)@ == marked_pending(old(self)@, id@),
    {
        match state::find_client(&self.clients, id) {
            Some(k) => {
                let ghost before = self.clients@;
                self.clients[k].mark_snapshot_pending();
                proof {
                    assert(self.clients@ =~= before.update(k as int, self.clients@[k as int]));
                    lemma_clients_update(before, k as int, self.clients@[k as int]);
                }
            },
            None => {},
        }
    }

    pub fn maybe_persist_streaming_snapshot_for_session(&mut self, id: &str, force: bool)
        ensures
            final(self)@ == snapshot(old(self)@, id@, force),
    {
        reveal(snapshot);
        let due = match state::find_client(&self.clients, id) {
            Some(k) => {
                is_stream_due(&self.clients[k].stream, self.now, force) || is_stream_due(
                    &self.clients[k].external_stream,
                    self.now,
                    force,
                )
            },
            None => false,
        };
        if !due || !self.persist_chat_messages_for_session(id) {
            return ;
        }
        if self.ask_snapshot(id) {
            self.push_effect(Effect::StoreSnapshot { session_id: id.to_owned() });
        }
    }

    /// Notes that the store is asked for a session; the answer tells whether it was not before.
    fn ask_snapshot(&mut self, id: &str) -> (r: bool)
        ensures
            r == (client_of(old(self)@, id@) matches Some(c) && !is_asked(c.stream) && !is_asked(
                c.external_stream,
            )),
            final(self)@ == match client_of(old(self)@, id@) {
                Some(c) => with_client(old(self)@, id@, with_asked(c)),
                None => old(self)@,
            },
    {
        match state::find_client(&self.clients, id) {
            Some(k) => {
                let ghost before = self.clients@;
                let asked = is_stream_asked(&self.clients[k].stream) || is_stream_asked(
                    &self.clients[k].external_stream,
                );
                let s = self.clients[k].stream.take();
                self.clients[k].stream = asked_stream(s);
                let e = self.clients[k].external_stream.take();
                self.clients[k].external_stream = asked_stream(e);
                proof {
                    assert(self.clients@ =~= before.update(k as int, self.clients@[k as int]));
                    lemma_clients_update(before, k as int, self.clients@[k as int]);
                }
                !asked
            },
            None => false,
        }
    }

    /// The store's answer to a snapshot of a session's turn.
    pub fn finish_snapshot_stored(&mut self, id: &str, stored: Result<(), String>)
        ensures
            final(self)@ == snapshot_answered(old(self)@, id@, stored is Ok),
    {
        match state::find_client(&self.clients, id) {
            Some(k) => {
                let ghost before = self.clients@;
                let s = self.clients[k].stream.take();
                self.clients[k].stream = answered_stream(s, self.now, stored.is_ok());
                let e = self.clients[k].external_stream.take();
                self.clients[k].external_stream = answered_stream(e, self.now, stored.is_ok());
                proof {
                    assert(self.clients@ =~= before.update(k as int, self.clients@[k as int]));
                    lemma_clients_update(before, k as int, self.clients@[k as int]);
                }
            },
            None => {},
        }
    }

    pub fn refresh_sessions_dialog(&mut self)
        ensures
            final(self)@ == relisted(old(self)@),
    {
        let rows = session_list::build_sessions_dialog_list(
            &self.sessions,
            &self.clients,
            self.sessions_dialog.filter,
            self.workspace.id,
        );
        self.sessions_dialog.workspace_id = self.workspace.id;
        self.sessions_dialog.rows = rows;
        self.sessions_dialog.listed = true;
        self.sessions_dialog.marker_frame = 0;
        self.sessions_dialog.dirty = false;
        self.sessions_dialog.last_probe = self.now;
    }

    pub fn save_active_session_view_state(&mut self)
        ensures
            final(self)@ == put_away(old(self)@),
    {
        reveal(put_away);
        let id = match text::copy_opt(&self.current) {
            Some(id) => id,
            None => {
                return ;
            },
        };
        let child = session::has_parent(&self.sessions, id.as_str());
        let k = self.ensure_session_view_state(id.as_str());
        let ghost before = self.clients@;
        let mut chat = Chat::new();
        std::mem::swap(&mut chat, &mut self.chat);
        self.clients[k].chat = chat;
        self.clients[k].find_active = self.find_active;
        self.find_active = false;
        self.clients[k].input_draft = if child {
            String::new()
        } else {
            self.input.text.clone()
        };
        proof {
            assert(self.clients@ =~= before.update(k as int, self.clients@[k as int]));
            lemma_clients_update(before, k as int, self.clients@[k as int]);
        }
    }

    pub fn load_session_view_state(&mut self, id: &str)
        ensures
            final(self)@ == brought_up(old(self)@, id@),
    {
        reveal(brought_up);
        let k = self.ensure_session_view_state(id);
        let child = session::has_parent(&self.sessions, id);
        let ghost before = self.clients@;
        let mut chat = Chat::new();
        std::mem::swap(&mut chat, &mut self.clients[k].chat);
        self.chat = chat;
        self.find_active = self.clients[k].find_active;
        self.clients[k].find_active = false;
        if child {
            self.input.clear();
            self.clients[k].input_draft = String::new();
        } else {
            self.input.set_text(self.clients[k].input_draft.clone());
        }
        self.clients[k].unread_completed = false;
        proof {
            assert(self.clients@ =~= before.update(k as int, self.clients@[k as int]));
            lemma_clients_update(before, k as int, self.clients@[k as int]);
        }
        self.sync_active_streaming_flag();
        self.usage_stale = true;
        self.push_effect(Effect::ScrollToBottom);
    }

    pub fn release_render_caches_outside_current_family(&mut self)
        ensures
            final(self)@ == released(old(self)@),
    {
        release_caches(&mut self.clients, &self.sessions, &self.current);
    }
}

fn is_in_family(
    c: &ClientSessionState,
    sessions: &Vec<Session>,
    current: &Option<String>,
    root: &Option<String>,
) -> (r: bool)
    requires
        text::opt_view(*root) == match text::opt_view(*current) {
            Some(id) => session::root_of(session::sessions_view(sessions@), id),
            None => None,
        },
    ensures
        released_client(c@, session::sessions_view(sessions@), text::opt_view(*current)) == if r {
            c@
        } else {
            ClientView { chat: ChatView { render_cached: false, ..c@.chat }, ..c@ }
        },
{
    let own = match current {
        Some(id) => text::same(id.as_str(), c.id.as_str()),
        None => false,
    };
    if own {
        return true;
    }
    match root {
        Some(r) => match session::root_session_id_for(sessions, c.id.as_str()) {
            Some(o) => text::same(o.as_str(), r.as_str()),
            None => false,
        },
        None => false,
    }
}

fn release_caches(
    clients: &mut Vec<ClientSessionState>,
    sessions: &Vec<Session>,
    current: &Option<String>,
)
    ensures
        state::clients_view(final(clients)@) == state::clients_view(old(clients)@).map_values(
            |c: ClientView|
                released_client(
                    c,
                    session::sessions_view(sessions@),
                    text::opt_view(*current),
                ),
        ),
{
    let ghost before = clients@;
    let ghost family = session::sessions_view(sessions@);
    let ghost shown = text::opt_view(*current);
    let root: Option<String> = match current {
        Some(id) => session::root_session_id_for(sessions, id.as_str()),
        None => None,
    };
    let n: usize = clients.len();
    for i in 0..n
        invariant
            n == clients@.len(),
            n == before.len(),
            family == session::sessions_view(sessions@),
            shown == text::opt_view(*current),
            text::opt_view(root) == match shown {
                Some(id) => session::root_of(family, id),
                None => None,
            },
            forall|j: int|
                0 <= j < i ==> #[trigger] clients@[j]@ == released_client(
                    before[j]@,
                    family,
                    shown,
                ),
            forall|j: int| i <= j < n ==> #[trigger] clients@[j] == before[j],
    {
        if !is_in_family(&clients[i], sessions, current, &root) {
            clients[i].chat.render_cached = false;
        }
    }
    assert(state::clients_view(clients@) =~= state::clients_view(before).map_values(
        |c: ClientView| released_client(c, family, shown),
    ));
}

impl ClientSessionState {
    fn mark_snapshot_pending(&mut self)
        ensures
            final(self)@ == client_marked(old(self)@),
    {
        let own = self.stream.take();
        match own {
            Some(s) => {
                self.stream = Some(StreamState { pending_snapshot: true, ..s });
            },
            None => {
                let other = self.external_stream.take();
                match other {
                    Some(s) => {
                        self.external_stream = Some(StreamState { pending_snapshot: true, ..s });
                    },
                    None => {},
                }
            },
        }
    }
}

fn is_stream_due(s: &Option<StreamState>, now: u64, force: bool) -> (r: bool)
    ensures
        r == is_due(state::opt_stream(*s), now, force),
{
    match s {
        Some(x) => x.pending_snapshot && (force || !x.asked_snapshot && elapsed_since(
            now,
            x.last_snapshot,
        ) >= STREAM_MESSAGE_SNAPSHOT_INTERVAL),
        None => false,
    }
}

fn is_stream_asked(s: &Option<StreamState>) -> (r: bool)
    ensures
        r == is_asked(state::opt_stream(*s)),
{
    match s {
        Some(x) => x.asked_snapshot,
        None => false,
    }
}

fn asked_stream(s: Option<StreamState>) -> (r: Option<StreamState>)
    ensures
        state::opt_stream(r) == as_asked(state::opt_stream(s)),
{
    match s {
        Some(x) => Some(StreamState { pending_snapshot: false, asked_snapshot: true, ..x }),
        None => None,
    }
}

fn answered_stream(s: Option<StreamState>, now: u64, stored: bool) -> (r: Option<StreamState>)
    ensures
        state::opt_stream(r) == as_answered(state::opt_stream(s), now, stored),
{
    match s {
        Some(x) => if !x.asked_snapshot {
            Some(x)
        } else if stored {
            Some(StreamState { last_snapshot: now, asked_snapshot: false, ..x })
        } else {
            Some(StreamState { pending_snapshot: true, asked_snapshot: false, ..x })
        },
        None => None,
    }
}

} // verus!
