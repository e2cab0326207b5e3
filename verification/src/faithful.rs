//! What the contracts speak of is what the values hold, each under its own name.

use crate::agents::AgentDefinition;
use crate::app::App;
use crate::catalog::{ModelInfo, ModelRef};
use crate::commands::{CommandResult, InputType, InputTypeView, ParsedCommand, ResultView};
use crate::compaction::{CompactionEvent, CompactionEventView};
use crate::message;
use crate::message::{Message, MessagePart};
use crate::prompting::AgentMention;
use crate::queue::QueuedUserMessage;
use crate::reasoning::{EffortOverride, ModelCapability, ReasoningEffort};
use crate::session::{Session, Workspace};
use crate::session_list::SessionRow;
use crate::state::{ClientSessionState, Effect, EffectView, Input, StreamState};
use crate::text;
use vstd::prelude::*;

verus! {

/// A turn, a task, a compaction and a title are asked of the provider, the model and the agent
/// that the effect names, for the session that it names.
pub proof fn law_asked_work_names_its_model(
    session_id: String,
    provider: String,
    model: String,
    agent: String,
    target: String,
    prompt: String,
    effort: Option<ReasoningEffort>,
    guidance: Option<String>,
)
    ensures
        (Effect::StartStream { session_id, provider, model, agent, effort, guidance })@ == (
        EffectView::StartStream {
            session_id: session_id@,
            provider: provider@,
            model: model@,
            agent: agent@,
            effort,
            guidance: text::opt_view(guidance),
        }),
        (Effect::StartMention { session_id, provider, model, agent, effort, target, prompt })@ == (
        EffectView::StartMention {
            session_id: session_id@,
            provider: provider@,
            model: model@,
            agent: agent@,
            effort,
            target: target@,
            prompt: prompt@,
        }),
        (Effect::StartCompaction { session_id, provider, model, agent, effort })@ == (
        EffectView::StartCompaction {
            session_id: session_id@,
            provider: provider@,
            model: model@,
            agent: agent@,
            effort,
        }),
        (Effect::GenerateTitle { session_id, provider, model, prompt })@ == (
        EffectView::GenerateTitle {
            session_id: session_id@,
            provider: provider@,
            model: model@,
            prompt: prompt@,
        }),
{
}

/// What is to be remembered, copied, opened, run or shown is what the effect names.
pub proof fn law_effects_name_their_objects(
    one: String,
    two: String,
    args: Vec<String>,
    custom: bool,
    effort: Option<ReasoningEffort>,
    relist: bool,
)
    ensures
        (Effect::SaveModel { provider: one, model: two })@ == (EffectView::SaveModel {
            provider: one@,
            model: two@,
        }),
        (Effect::SaveEffort { provider: one, model: two, effort, relist })@ == (
        EffectView::SaveEffort { provider: one@, model: two@, effort, relist }),
        (Effect::CopyText { text: one, done: two })@ == (EffectView::CopyText {
            text: one@,
            done: two@,
        }),
        (Effect::CopyLink { link: one, done: two })@ == (EffectView::CopyLink {
            link: one@,
            done: two@,
        }),
        (Effect::ShowRename { session_id: one, title: two })@ == (EffectView::ShowRename {
            session_id: one@,
            title: two@,
        }),
        (Effect::OpenTarget { target: one, label: two })@ == (EffectView::OpenTarget {
            target: one@,
            label: two@,
        }),
        (Effect::ExecuteCommand { name: one, args, custom })@ == (EffectView::ExecuteCommand {
            name: one@,
            args: text::views(args@),
            custom,
        }),
        (Effect::CancelStream { session_id: one })@ == (EffectView::CancelStream {
            session_id: one@,
        }),
        (Effect::StoreSnapshot { session_id: one })@ == (EffectView::StoreSnapshot {
            session_id: one@,
        }),
        (Effect::SaveTheme { id: one })@ == (EffectView::SaveTheme { id: one@ }),
        (Effect::AskApiKey { provider: one })@ == (EffectView::AskApiKey { provider: one@ }),
        (Effect::Search { query: one })@ == (EffectView::Search { query: one@ }),
        (Effect::SetTerminalTitle { title: one })@ == (EffectView::SetTerminalTitle {
            title: one@,
        }),
{
}

/// Whether something is switched on, which way something goes, and what a request is answered is
/// what the effect says.
pub proof fn law_effects_say_which_way(e: Effect)
    ensures
        match e {
            Effect::AnswerPermission { request, response } => e@ == (
            EffectView::AnswerPermission { request, response }),
            Effect::AnswerQuestion { request } => e@ == (EffectView::AnswerQuestion { request }),
            Effect::NextMatch { forward } => e@ == (EffectView::NextMatch { forward }),
            Effect::ScrollChat { down } => e@ == (EffectView::ScrollChat { down }),
            Effect::ScrollToMessage { index } => e@ == (EffectView::ScrollToMessage { index }),
            Effect::SaveTransparency { transparent } => e@ == (EffectView::SaveTransparency {
                transparent,
            }),
            Effect::SaveCompactMode { compact } => e@ == (EffectView::SaveCompactMode { compact }),
            Effect::StartModels { refresh } => e@ == (EffectView::StartModels { refresh }),
            Effect::StartOAuth { login, headless } => e@ == (EffectView::StartOAuth {
                login,
                headless,
            }),
            Effect::ShowDialog { dialog } => e@ == (EffectView::ShowDialog { dialog }),
            Effect::HideDialog { dialog } => e@ == (EffectView::HideDialog { dialog }),
            Effect::Sound { event } => e@ == (EffectView::Sound { event }),
            Effect::DenyPermissions => e@ is DenyPermissions,
            Effect::DropQuestions => e@ is DropQuestions,
            Effect::CancelCompaction => e@ is CancelCompaction,
            Effect::Bell => e@ is Bell,
            _ => true,
        },
{
}

/// A message is seen with its own words, its own thoughts and what it was written by.
pub proof fn law_messages_are_seen_whole(m: Message, p: MessagePart)
    ensures
        m@.role == m.role,
        m@.content == m.content@,
        m@.reasoning == text::opt_view(m.reasoning),
        m@.parts == message::parts_view(m.parts@),
        m@.agent_mode == text::opt_view(m.agent_mode),
        m@.model == text::opt_view(m.model),
        m@.provider == text::opt_view(m.provider),
        m@.local_image_paths == text::views(m.local_image_paths@),
        m@.is_complete == m.is_complete,
        m@.was_interrupted == m.was_interrupted,
        p@.part_type == p.part_type@,
        p@.data == p.data@,
{
}

/// A session is seen with its own id, title, parent and folder, and with its own messages in their
/// order.
pub proof fn law_sessions_are_seen_whole(s: Session, w: Workspace, row: SessionRow, k: int)
    requires
        0 <= k < s.messages@.len(),
    ensures
        s@.id == s.id@,
        s@.title == s.title@,
        s@.parent_id == text::opt_view(s.parent_id),
        s@.status == s.status,
        s@.error == text::opt_view(s.error),
        s@.messages.len() == s.messages@.len(),
        s@.messages[k] == s.messages@[k]@,
        s@.workspace_id == s.workspace_id,
        s@.workspace_path == s.workspace_path@,
        s@.workspace_name == s.workspace_name@,
        s@.archived == s.archived,
        s@.pinned == s.pinned,
        w@.id == w.id,
        w@.path == w.path@,
        w@.name == w.name@,
        row@.id == row.id@,
        row@.title == row.title@,
        row@.group == row.group@,
        row@.is_streaming == row.is_streaming,
        row@.unread_completed == row.unread_completed,
        row@.pinned == row.pinned,
{
}

/// Agents, models and efforts are seen under their own names.
pub proof fn law_agents_and_models_are_seen_whole(
    a: AgentDefinition,
    m: ModelInfo,
    r: ModelRef,
    o: EffortOverride,
    c: ModelCapability,
)
    ensures
        a@.name == a.name@,
        a@.description == a.description@,
        a@.mode == a.mode,
        a@.hidden == a.hidden,
        a@.model == text::opt_view(a.model),
        a@.reasoning_effort == a.reasoning_effort,
        m@.id == m.id@,
        m@.name == m.name@,
        m@.description == m.description@,
        m@.provider_id == m.provider_id@,
        m@.provider_name == m.provider_name@,
        m@.selectable == m.selectable,
        m@.efforts == m.efforts@,
        r@.provider_id == r.provider_id@,
        r@.model_id == r.model_id@,
        o@.provider == o.provider@,
        o@.model == o.model@,
        o@.effort == o.effort,
        c@.provider == c.provider@,
        c@.model == c.model@,
        c@.values == c.values@,
{
}

/// What the user says is seen as it was said: a message as a message, a command as a command, and
/// a task with its agent, its words and all that was typed.
pub proof fn law_input_is_seen_whole(
    msg: String,
    c: ParsedCommand,
    m: AgentMention,
    q: QueuedUserMessage,
    i: Input,
)
    ensures
        InputType::Message(msg)@ == InputTypeView::Message(msg@),
        InputType::Command(c)@ == InputTypeView::Command(c@),
        InputType::AgentMention(m)@ == InputTypeView::AgentMention(m@),
        c@.name == c.name@,
        c@.args == text::views(c.args@),
        m@.agent == m.agent@,
        m@.prompt == m.prompt@,
        m@.raw == m.raw@,
        q@.text == q.text@,
        q@.image_paths == text::views(q.image_paths@),
        i@.text == i.text@,
        i@.cursor == i.cursor,
        i@.image_paths == text::views(i.image_paths@),
        i@.has_selection == i.has_selection,
        i@.selected_text == i.selected_text@,
{
}

/// What commands and compactions report is seen as it was reported.
pub proof fn law_reports_are_seen_whole(
    id: String,
    error: String,
    prompt: String,
    agent: Option<String>,
    model: Option<String>,
)
    ensures
        (CompactionEvent::Failed { session_id: id, error })@ == (CompactionEventView::Failed {
            session_id: id@,
            error: error@,
        }),
        (CompactionEvent::Cancelled { session_id: id })@ == (CompactionEventView::Cancelled {
            session_id: id@,
        }),
        (CommandResult::Error { text: error })@ == (ResultView::Error { text: error@ }),
        (CommandResult::Success { text: error })@ == (ResultView::Success { text: error@ }),
        (CommandResult::RunPrompt { prompt, agent, model })@ == (ResultView::RunPrompt {
            prompt: prompt@,
            agent: text::opt_view(agent),
            model: text::opt_view(model),
        }),
{
}

/// The application is seen with what was chosen, what is on the screen and what waits.
pub proof fn law_the_application_is_seen_whole(app: App, c: ClientSessionState, s: StreamState)
    ensures
        app@.agent == app.agent@,
        app@.model == app.model@,
        app@.provider_name == app.provider_name@,
        app@.small_model == text::opt_view(app.small_model),
        app@.current == text::opt_view(app.current),
        app@.pending_session_title == text::opt_view(app.pending_session_title),
        app@.next_session_id == app.next_session_id@,
        app@.chat == app.chat@,
        app@.input == app.input@,
        app@.permissions == app.permissions@,
        app@.questions == app.questions@,
        app@.terminals == text::views(app.terminals@),
        app@.base_focus == app.base_focus,
        app@.overlay_focus == app.overlay_focus,
        app@.is_streaming == app.is_streaming,
        app@.suggestions == app.suggestions,
        app@.find_active == app.find_active,
        app@.running == app.running,
        c@.id == c.id@,
        c@.chat == c.chat@,
        c@.input_draft == c.input_draft@,
        c@.unread_completed == c.unread_completed,
        s@.model == text::opt_view(s.model),
        s@.provider == text::opt_view(s.provider),
        s@.boundary == s.boundary,
{
}

} // verus!
