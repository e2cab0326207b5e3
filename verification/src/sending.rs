//! What is typed is sent, or waits its turn; what is commanded is what happens.

use crate::app;
use crate::app::AppView;
use crate::arriving;
use crate::asking;
use crate::commands;
use crate::commands::{CommandRoute, CommandView, FactsView, InputType};
use crate::dialogs;
use crate::focus::{BaseFocus, OverlayFocus};
use crate::history;
use crate::keeping;
use crate::keys;
use crate::keys::{KeyScene, Submission};
use crate::prompting;
use crate::queue;
use crate::queue::{QueuedMessageView, QueuedView};
use crate::state::{ClientView, EffectView, ToastLevel};
use crate::stream;
use crate::terminal_title;
use crate::text;
use crate::ui::ModelsTaskKind;
use vstd::prelude::*;

verus! {

/// What waits in a session waits behind what waited there before, as it was said.
pub proof fn law_what_waits_waits_in_line(a: AppView, id: Seq<char>, m: QueuedMessageView, other: Seq<char>)
    requires
        a.current == Some(id),
    ensures
        ({
            let r = stream::queued(a, QueuedView::Message(m));
            &&& stream::queue_of(r, id) == stream::queue_of(a, id).push(QueuedView::Message(m))
            &&& other != id ==> stream::queue_of(r, other) == stream::queue_of(a, other)
            &&& r == (AppView { clients: r.clients, ..a })
            &&& arriving::messages(r, other) == arriving::messages(a, other)
            &&& app::streams(r, id) == app::streams(a, id)
        }),
{
    keeping::lemma_ensured(a, id, other);
    let e = app::ensured(a, id);
    let c = app::client_of(e, id)->0;
    let more = ClientView { queued_items: c.queued_items.push(QueuedView::Message(m)), ..c };
    keeping::lemma_with_client(e, id, more, other);
    keeping::lemma_ensured(a, id, id);
    keeping::lemma_with_client(e, id, more, id);
    assert(c.queued_items =~= stream::queue_of(a, id));
}

/// What is entered in a session at rest is sent: it is on record as it was typed, with its images,
/// and the agent is asked to answer it; the prompt is empty afterwards.
pub proof fn law_entered_prompts_are_sent(a: AppView, id: Seq<char>, msg: String, images: Vec<String>, allowed: bool, scene: KeyScene)
    requires
        a.current == Some(id),
        !a.is_streaming,
        msg@.len() > 0,
        a.chat.messages.len() < usize::MAX - 1,
    ensures
        ({
            let s = Submission { input: Some(InputType::Message(msg)), images, allowed };
            let r = keys::submitted(a, s, scene);
            let n = a.chat.messages.len() as int;
            &&& r.current == Some(id)
            &&& r.chat.messages.len() == n + 2
            &&& r.chat.messages.take(n) == a.chat.messages
            &&& asking::is_said(a, r.chat.messages[n], msg@, text::views(images@))
            &&& asking::is_awaited(r.chat.messages[n + 1])
            &&& asking::is_asked_to_answer(a, r.effects.last(), id, None)
            &&& r.input.text.len() == 0
            &&& !r.suggestions
            &&& app::streams(r, id)
        }),
{
    reveal(keys::message_submitted);
    let b = keys::history_saved(a, text::views(images@));
    asking::law_prompts_go_to_the_chosen_model(b, id, msg@, text::views(images@));
    let sent = prompting::message_sent(b, msg@, text::views(images@));
    let r = keys::prompt_cleared(sent);
    let s = Submission { input: Some(InputType::Message(msg)), images, allowed };
    assert(keys::submitted(a, s, scene) == r);
    assert(r.clients == sent.clients && r.chat == sent.chat && r.effects == sent.effects);
    assert(asking::is_same_choice(a, b));
    asking::lemma_same_route(a, b, r.effects.last(), id);
    assert(app::client_of(r, id) == app::client_of(sent, id));
}

/// What is entered while the session answers waits behind what waits there already, as it was
/// typed; nothing is sent, and nothing that was said is touched. The prompt is empty afterwards.
pub proof fn law_prompts_wait_for_the_answer(a: AppView, id: Seq<char>, msg: String, images: Vec<String>, allowed: bool, scene: KeyScene)
    requires
        a.current == Some(id),
        a.is_streaming,
        app::streams(a, id),
    ensures
        ({
            let s = Submission { input: Some(InputType::Message(msg)), images, allowed };
            let r = keys::submitted(a, s, scene);
            &&& stream::queue_of(r, id) == stream::queue_of(a, id).push(
                QueuedView::Message(
                    QueuedMessageView { text: msg@, image_paths: text::views(images@) },
                ),
            )
            &&& r.chat == a.chat
            &&& r.sessions == a.sessions
            &&& r.input.text.len() == 0
            &&& r.effects == a.effects || r.effects == a.effects.push(EffectView::SaveHistory)
        }),
{
    reveal(keys::message_submitted);
    let b = keys::history_saved(a, text::views(images@));
    let m = QueuedMessageView { text: msg@, image_paths: text::views(images@) };
    assert(app::client_of(b, id) == app::client_of(a, id));
    law_what_waits_waits_in_line(b, id, m, id);
    let q = stream::queued(b, QueuedView::Message(m));
    let r = keys::prompt_cleared(q);
    assert(app::client_of(r, id) == app::client_of(q, id));
}

/// Of prompts that go out together, a later one stands behind the earlier ones, on a line of its
/// own, and its images behind theirs.
pub proof fn law_later_prompts_stand_behind(ms: Seq<QueuedMessageView>, m: QueuedMessageView)
    ensures
        ({
            let before = queue::combined(ms);
            let all = queue::combined(ms.push(m));
            &&& all.image_paths == before.image_paths + m.image_paths
            &&& before.text.is_prefix_of(all.text)
            &&& m.image_paths.len() == 0 && m.text.len() > 0 ==> all.text == (if before.text.len()
                == 0 {
                m.text
            } else {
                before.text.push('\n') + m.text
            })
        }),
{
    let all = ms.push(m);
    let before = queue::combined(ms).text;
    let now = queue::combined(all).text;
    assert(all.drop_last() =~= ms);
    reveal_strlit("\n");
    queue::lemma_combined_is_kept(ms);
    let parts = queue::combined_parts(ms);
    let own = queue::submission_text(
        m.text,
        queue::combined_images(ms).len(),
        m.image_paths.len(),
    );
    if own.len() == 0 {
        assert(now.subrange(0, before.len() as int) =~= before);
    } else {
        assert(parts.push(own).drop_last() =~= parts);
        if parts.len() == 0 {
            assert(now.subrange(0, before.len() as int) =~= before);
        } else {
            assert(now == before + "\n"@ + own);
            assert(now.subrange(0, before.len() as int) =~= before);
            assert(before + "\n"@ =~= before.push('\n'));
        }
    }
}

/// What each command does: it opens its own dialog, begins a session, goes home, or is handed on
/// as it was typed; one that is not available changes nothing but that the user is told.
pub open spec fn is_done(a: AppView, r: AppView, c: CommandView, route: CommandRoute) -> bool {
    match route {
        CommandRoute::Custom => r == app::with_effect(
            a,
            EffectView::ExecuteCommand { name: c.name, args: c.args, custom: true },
        ),
        CommandRoute::Execute => r == app::with_effect(
            a,
            EffectView::ExecuteCommand { name: c.name, args: c.args, custom: false },
        ),
        CommandRoute::CopyActions => r.overlay_focus == OverlayFocus::CopyActions,
        CommandRoute::Sessions => r.overlay_focus == OverlayFocus::SessionsDialog
            && r.sessions_dialog.visible,
        CommandRoute::Agents => r.overlay_focus == OverlayFocus::AgentsDialog,
        CommandRoute::Themes => r.overlay_focus == OverlayFocus::ThemesDialog,
        CommandRoute::Skills => r.overlay_focus == OverlayFocus::SkillsDialog,
        CommandRoute::Mcp => r.overlay_focus == OverlayFocus::McpDialog,
        CommandRoute::Title => r.overlay_focus == OverlayFocus::TitleDialog,
        CommandRoute::Remote => c.args.len() == 0 ==> r.overlay_focus
            == OverlayFocus::RemoteDialog,
        CommandRoute::Move => c.args.len() == 0 && a.current is Some ==> r.overlay_focus
            == OverlayFocus::MoveSessionDialog,
        CommandRoute::Rename => dialogs::current_place(a) is Some ==> r.overlay_focus
            == OverlayFocus::SessionRenameDialog,
        CommandRoute::Timeline => dialogs::current_place(a) is Some ==> r.overlay_focus
            == OverlayFocus::TimelineDialog,
        CommandRoute::CompactMode => r.ui.compact_mode == !a.ui.compact_mode
            && r.effects[a.effects.len() as int] == (EffectView::SaveCompactMode {
            compact: !a.ui.compact_mode,
        }),
        CommandRoute::Rejected => r == (AppView { effects: r.effects, ..a }) && (r.effects.last()
            matches EffectView::Toast { level, text: t, .. } && level == ToastLevel::Error
            && text::contains(t, c.name)),
        CommandRoute::Models => a.ui.models.task is None ==> r.overlay_focus
            == OverlayFocus::ModelsDialog,
        CommandRoute::RefreshModels => a.ui.models.task is None ==> r.overlay_focus
            == OverlayFocus::RefreshModelsDialog && r.effects.last() == (EffectView::StartModels {
            refresh: true,
        }),
        CommandRoute::New => r.current is None && r.base_focus == BaseFocus::Home
            && r.chat.messages.len() == 0 && r.sessions == a.sessions && (c.args.len() == 0
            ==> r.pending_session_title is None) && (c.args.len() == 1 && text::trim(c.args[0])
            == c.args[0] && c.args[0].len() > 0 ==> r.pending_session_title == Some(c.args[0])),
        CommandRoute::Home => r.current is None && r.base_focus == BaseFocus::Home
            && r.chat.messages.len() == 0 && r.sessions == a.sessions,
        CommandRoute::Compact => true,
        CommandRoute::Fork => c.args.len() == 0 ==> r == history::forked(a, None),
    }
}

proof fn lemma_models_asked(
    a: AppView,
    kind: ModelsTaskKind,
    has_args: bool,
    connected: Option<Seq<Seq<char>>>,
)
    requires
        a.ui.models.task is None,
    ensures
        ({
            let r = dialogs::models_asked(a, kind, has_args, connected);
            &&& kind == ModelsTaskKind::Load ==> r.overlay_focus == OverlayFocus::ModelsDialog
            &&& kind == ModelsTaskKind::Refresh ==> r.overlay_focus
                == OverlayFocus::RefreshModelsDialog && r.effects.last() == (
            EffectView::StartModels { refresh: true })
        }),
{
    reveal(dialogs::models_asked);
    reveal(dialogs::models_shown);
    reveal(dialogs::models_loading);
}

proof fn lemma_blank(a: AppView, title: Option<Seq<char>>)
    ensures
        ({
            let r = prompting::blank_session(a, title);
            &&& r.current is None
            &&& r.base_focus == BaseFocus::Home
            &&& r.chat.messages.len() == 0
            &&& r.sessions == a.sessions
            &&& r.pending_session_title == prompting::asked_title(title)
        }),
{
    reveal(prompting::blank_session);
    reveal(prompting::home_shown);
    asking::lemma_put_away_choice(a);
}

/// A command does what its name says, and leaves the rest as it is.
#[verifier::rlimit(60)]
pub proof fn law_commands_do_what_they_say(a: AppView, c: CommandView, f: FactsView)
    ensures
        ({
            let route = commands::route_of(
                c.name,
                c.args.len() > 0,
                a.base_focus == BaseFocus::Chat,
                f,
            );
            is_done(a, commands::dispatched(a, c, f), c, route)
        }),
{
    let route = commands::route_of(c.name, c.args.len() > 0, a.base_focus == BaseFocus::Chat, f);
    let r = commands::dispatched(a, c, f);
    match route {
        CommandRoute::Models => {
            if a.ui.models.task is None {
                lemma_models_asked(a, ModelsTaskKind::Load, c.args.len() > 0, f.connected);
            }
            assert(is_done(a, r, c, route));
        },
        CommandRoute::RefreshModels => {
            if a.ui.models.task is None {
                lemma_models_asked(a, ModelsTaskKind::Refresh, c.args.len() > 0, f.connected);
            }
            assert(is_done(a, r, c, route));
        },
        CommandRoute::Timeline => {
            reveal(dialogs::timeline_shown);
            assert(is_done(a, r, c, route));
        },
        CommandRoute::Title => {
            reveal(terminal_title::title_shown);
            reveal(terminal_title::title_previewed);
            assert(is_done(a, r, c, route));
        },
        CommandRoute::New | CommandRoute::Home => {
            lemma_blank(a, None);
            if c.args.len() > 0 {
                lemma_blank(a, Some(text::join(c.args, " "@)));
            }
            assert(is_done(a, r, c, route));
        },
        CommandRoute::Rejected => {
            let t = "/"@ + c.name + " is only available during chat"@;
            let at = "/"@.len() as int;
            assert(t.subrange(at, at + c.name.len()) =~= c.name);
            assert(text::occurs_at(t, c.name, at));
            assert(is_done(a, r, c, route));
        },
        _ => {
            assert(is_done(a, r, c, route));
        },
    }
}

/// Each command of the application is known under its own name, in the chat or everywhere; one
/// that belongs to a chat is refused where there is none.
pub proof fn law_commands_are_known_by_name(f: FactsView, has_args: bool, in_chat: bool)
    requires
        !f.custom,
    ensures
        commands::route_of("models"@, has_args, in_chat, f) == CommandRoute::Models,
        commands::route_of("refreshmodels"@, has_args, in_chat, f) == CommandRoute::RefreshModels,
        commands::route_of("sessions"@, has_args, in_chat, f) == CommandRoute::Sessions,
        commands::route_of("agents"@, has_args, in_chat, f) == CommandRoute::Agents,
        commands::route_of("new"@, has_args, in_chat, f) == CommandRoute::New,
        commands::route_of("home"@, has_args, in_chat, f) == CommandRoute::Home,
        commands::route_of("themes"@, has_args, in_chat, f) == CommandRoute::Themes,
        commands::route_of("skills"@, has_args, in_chat, f) == CommandRoute::Skills,
        commands::route_of("mcp"@, has_args, in_chat, f) == CommandRoute::Mcp,
        commands::route_of("title"@, has_args, in_chat, f) == CommandRoute::Title,
        commands::route_of("remote"@, has_args, in_chat, f) == CommandRoute::Remote,
        in_chat ==> commands::route_of("copy"@, has_args, in_chat, f) == CommandRoute::CopyActions,
        in_chat ==> commands::route_of("timeline"@, has_args, in_chat, f)
            == CommandRoute::Timeline,
        in_chat ==> commands::route_of("move"@, has_args, in_chat, f) == CommandRoute::Move,
        in_chat ==> commands::route_of("compact"@, has_args, in_chat, f) == CommandRoute::Compact,
        in_chat ==> commands::route_of("compact-mode"@, has_args, in_chat, f)
            == CommandRoute::CompactMode,
        in_chat && !has_args ==> commands::route_of("rename"@, has_args, in_chat, f)
            == CommandRoute::Rename,
        !in_chat && f.chat_only ==> commands::route_of("compact"@, has_args, in_chat, f)
            == CommandRoute::Rejected && commands::route_of("timeline"@, has_args, in_chat, f)
            == CommandRoute::Rejected,
{
    reveal_strlit("models");
    reveal_strlit("refreshmodels");
    reveal_strlit("sessions");
    reveal_strlit("agents");
    reveal_strlit("new");
    reveal_strlit("home");
    reveal_strlit("themes");
    reveal_strlit("skills");
    reveal_strlit("mcp");
    reveal_strlit("title");
    reveal_strlit("remote");
    reveal_strlit("copy");
    reveal_strlit("rename");
    reveal_strlit("timeline");
    reveal_strlit("move");
    reveal_strlit("compact");
    reveal_strlit("compact-mode");
    assert("models"@.len() == 6 && "models"@[0] == 'm');
    assert("refreshmodels"@.len() == 13);
    assert("sessions"@.len() == 8 && "sessions"@[0] == 's');
    assert("agents"@.len() == 6 && "agents"@[0] == 'a');
    assert("new"@.len() == 3 && "new"@[0] == 'n');
    assert("home"@.len() == 4 && "home"@[0] == 'h');
    assert("themes"@.len() == 6 && "themes"@[0] == 't');
    assert("skills"@.len() == 6 && "skills"@[0] == 's');
    assert("mcp"@.len() == 3 && "mcp"@[0] == 'm');
    assert("title"@.len() == 5);
    assert("remote"@.len() == 6 && "remote"@[0] == 'r' && "remote"@[2] == 'm');
    assert("copy"@.len() == 4 && "copy"@[0] == 'c');
    assert("rename"@.len() == 6 && "rename"@[0] == 'r' && "rename"@[2] == 'n');
    assert("timeline"@.len() == 8 && "timeline"@[0] == 't');
    assert("move"@.len() == 4 && "move"@[0] == 'm');
    assert("compact"@.len() == 7);
    assert("compact-mode"@.len() == 12);
}

} // verus!
