//! What goes on without the user: the channels of the turns under way, the list of sessions while
//! it is open, and what moves on the screen.

use crate::app;
use crate::app::{App, AppView};
use crate::chunks;
use crate::clock;
use crate::clock::TimeBudget;
use crate::drain;
use crate::drain::{Drained, FrameView, SourceView, StreamSource};
use crate::events;
use crate::focus::{BaseFocus, OverlayFocus};
use crate::keys;
use crate::navigation;
use crate::selection;
use crate::session_list;
use crate::session_list::{RowView, SessionRow, SessionsDialogView};
use crate::sorting;
use crate::state;
use crate::state::{ClientSessionState, ClientView};
use crate::terminal_title;
use crate::text;
use crate::transcript;
use crate::ui::{Ui, UiView};
use vstd::prelude::*;

verus! {

/// How often the list of sessions is looked over while it is open, in milliseconds.
pub const SESSIONS_DIALOG_METADATA_PROBE_INTERVAL: u64 = 200;

/// How often what moves on the screen moves, in milliseconds.
pub const ANIMATION_INTERVAL: u64 = 50;

/// How long a frame of the spinner in the list of sessions stands, in milliseconds.
pub const SESSION_SPINNER_INTERVAL: u64 = 160;

/// How long the home screen moves after the user was there, in milliseconds.
pub const HOME_ANIM_IDLE: u64 = 3000;

/// Whether the list of sessions is on the screen and nobody drags its scrollbar.
pub open spec fn list_is_live(a: AppView) -> bool {
    a.overlay_focus == OverlayFocus::SessionsDialog && a.sessions_dialog.visible
        && !a.sessions_dialog.dragging
}

pub open spec fn probe_is_due(a: AppView) -> bool {
    a.sessions_dialog.dirty || app::elapsed(a.now, a.sessions_dialog.last_probe)
        >= SESSIONS_DIALOG_METADATA_PROBE_INTERVAL
}

pub open spec fn rows_now(a: AppView) -> Seq<RowView> {
    session_list::session_rows(
        a.sessions,
        a.clients,
        a.sessions_dialog.filter,
        a.workspace.id,
    )
}

/// The list looked over: it is made anew only where it has changed.
#[verifier::opaque]
pub open spec fn probed(a: AppView) -> AppView {
    let same = a.sessions_dialog.listed && a.sessions_dialog.rows == rows_now(a);
    AppView {
        sessions_dialog: SessionsDialogView {
            workspace_id: a.workspace.id,
            rows: rows_now(a),
            listed: true,
            marker_frame: if same {
                a.sessions_dialog.marker_frame
            } else {
                0
            },
            dirty: false,
            last_probe: a.now,
            ..a.sessions_dialog
        },
        ..a
    }
}

pub open spec fn marked(a: AppView) -> AppView {
    AppView {
        sessions_dialog: SessionsDialogView {
            marker_frame: a.ui.spinner_frame,
            ..a.sessions_dialog
        },
        ..a
    }
}

/// The list of sessions kept up to date while it is open.
pub open spec fn live_updated(a: AppView, advanced: bool) -> AppView {
    if !list_is_live(a) {
        a
    } else {
        let b = if probe_is_due(a) {
            probed(a)
        } else {
            a
        };
        if advanced {
            marked(b)
        } else {
            b
        }
    }
}

/// What was taken from the channels, applied one session after the other.
pub open spec fn turns_applied(a: AppView, turns: Seq<Drained>) -> AppView
    decreases turns.len(),
{
    if turns.len() == 0 {
        a
    } else {
        events::burst_applied(
            turns_applied(a, turns.drop_last()),
            turns.last().session_id@,
            chunks::chunk_views(turns.last().chunks@),
            turns.last().disconnected,
        )
    }
}

pub open spec fn rotated(a: AppView, rotation: usize) -> AppView {
    AppView { ui: UiView { drain_rotation: rotation, ..a.ui }, ..a }
}

pub open spec fn harvested(a: AppView, turns: Seq<Drained>, rotation: usize) -> AppView {
    live_updated(app::synced(turns_applied(rotated(a, rotation), turns)), false)
}

/// What a frame of the application goes by: its limits, the time given, and where the last frame
/// ended.
pub open spec fn frame_of(a: AppView, before: Seq<StreamSource>, budget: u128) -> FrameView {
    FrameView {
        channels: drain::in_turn(before),
        per_session_limit: drain::STREAM_CHUNK_DRAIN_LIMIT,
        global_limit: drain::STREAM_CHUNK_GLOBAL_DRAIN_LIMIT,
        budget,
        rotation: a.ui.drain_rotation,
    }
}

/// The time that a frame may spend on taking chunks begins to run.
pub fn start_frame() -> (r: TimeBudget)
    ensures
        r.budget() == drain::STREAM_CHUNK_GLOBAL_DRAIN_TIME_BUDGET,
        r.readings() == Seq::<u128>::empty(),
{
    TimeBudget::start(drain::STREAM_CHUNK_GLOBAL_DRAIN_TIME_BUDGET)
}

/// Whether a session has a turn of its own under way.
pub open spec fn has_own_stream(a: AppView, id: Seq<char>) -> bool {
    app::client_of(a, id) matches Some(c) && c.stream is Some
}

impl App {
    fn probe_sessions(&mut self)
        ensures
            final(self)@ == probed(old(self)@),
    {
        reveal(probed);
        let rows = session_list::build_sessions_dialog_list(
            &self.sessions,
            &self.clients,
            self.sessions_dialog.filter,
            self.workspace.id,
        );
        let same = self.sessions_dialog.listed && session_list::same_rows(
            &self.sessions_dialog.rows,
            &rows,
        );
        let frame: usize = if same {
            self.sessions_dialog.marker_frame
        } else {
            0
        };
        self.sessions_dialog.workspace_id = self.workspace.id;
        self.sessions_dialog.rows = rows;
        self.sessions_dialog.listed = true;
        self.sessions_dialog.marker_frame = frame;
        self.sessions_dialog.dirty = false;
        self.sessions_dialog.last_probe = self.now;
    }

    fn mark_rows(&mut self)
        ensures
            final(self)@ == marked(old(self)@),
    {
        reveal(<Ui as View>::view);
        self.sessions_dialog.marker_frame = self.ui.spinner_frame;
    }

    pub fn update_sessions_dialog_live_state(&mut self, advanced: bool)
        ensures
            final(self)@ == live_updated(old(self)@, advanced),
    {
        if self.overlay_focus != OverlayFocus::SessionsDialog || !self.sessions_dialog.visible
            || self.sessions_dialog.dragging {
            return ;
        }
        if self.sessions_dialog.dirty || app::elapsed_since(
            self.now,
            self.sessions_dialog.last_probe,
        ) >= SESSIONS_DIALOG_METADATA_PROBE_INTERVAL {
            self.probe_sessions();
        }
        if advanced {
            self.mark_rows();
        }
    }

    /// The sources of the turns that are still under way.
    pub fn live_sources(&self, sources: Vec<StreamSource>) -> (r: Vec<StreamSource>)
        ensures
            drain::sources(r@) == drain::sources(sources@).filter(
                |s: SourceView| has_own_stream(self@, s.id),
            ),
    {
        let ghost all = drain::sources(sources@);
        let ghost keeps = |s: SourceView| has_own_stream(self@, s.id);
        let ghost given = sources@;
        let mut out: Vec<StreamSource> = Vec::new();
        proof {
            assert(all.take(0) =~= Seq::<SourceView>::empty());
            reveal(Seq::filter);
            assert(drain::sources(out@) =~= all.take(0).filter(keeps));
        }
        for s in it: sources
            invariant
                it.seq() == given,
                all == drain::sources(given),
                keeps == (|s: SourceView| has_own_stream(self@, s.id)),
                drain::sources(out@) == all.take(it.index()).filter(keeps),
        {
            let ghost before = out@;
            let ghost seen = all.take(it.index() + 1);
            proof {
                reveal(Seq::filter);
                assert(seen.drop_last() =~= all.take(it.index()));
                assert(seen.last() == s@);
            }
            let open = match state::find_client(&self.clients, s.session_id.as_str()) {
                Some(k) => {
                    assert(self@.clients[k as int] == self.clients@[k as int]@);
                    self.clients[k].stream.is_some()
                },
                None => false,
            };
            if open {
                out.push(s);
                assert(drain::sources(out@) =~= drain::sources(before).push(s@));
            }
        }
        assert(all.take(all.len() as int) =~= all);
        out
    }

    fn apply_turns(&mut self, turns: Vec<Drained>)
        ensures
            final(self)@ == turns_applied(old(self)@, turns@),
    {
        let ghost start = self@;
        let ghost all = turns@;
        assert(all.take(0) =~= Seq::<Drained>::empty());
        for turn in it: turns
            invariant
                it.seq() == all,
                self@ == turns_applied(start, all.take(it.index())),
        {
            proof {
                assert(all.take(it.index() + 1).drop_last() =~= all.take(it.index()));
                assert(all.take(it.index() + 1).last() == turn);
            }
            self.apply_stream_burst(turn.session_id.as_str(), turn.chunks, turn.disconnected);
        }
        assert(all.take(all.len() as int) =~= all);
    }

    fn drain_rotation(&self) -> (r: usize)
        ensures
            r == self@.ui.drain_rotation,
    {
        reveal(<Ui as View>::view);
        self.ui.drain_rotation
    }

    fn set_drain_rotation(&mut self, rotation: usize)
        ensures
            final(self)@ == rotated(old(self)@, rotation),
    {
        reveal(<Ui as View>::view);
        self.ui.drain_rotation = rotation;
    }

    /// Takes what has come in through the channels of the turns under way, and applies it. How
    /// much comes in one frame rests on the senders and the clock; what is applied is what was
    /// taken, and nothing is left before the frame is over.
    pub fn process_streaming_chunks(
        &mut self,
        sources: &mut Vec<StreamSource>,
        time: &mut TimeBudget,
    )
        ensures
            clock::runs_on(*old(time), *final(time)),
            old(sources)@.len() > 0 ==> exists|turns: Seq<Drained>, next: usize|
                drain::is_harvest(
                    old(sources)@,
                    final(sources)@,
                    turns,
                    frame_of(old(self)@, old(sources)@, old(time).budget()),
                    clock::read_since(*old(time), *final(time)),
                    next,
                ) && final(self)@ == #[trigger] harvested(old(self)@, turns, next),
            old(sources)@.len() == 0 ==> final(self)@ == harvested(
                old(self)@,
                Seq::empty(),
                old(self)@.ui.drain_rotation,
            ) && final(sources)@.len() == 0,
    {
        let ghost a = self@;
        let rotation = self.drain_rotation();
        let (turns, next) = drain::drain_streaming_chunks_global(
            sources,
            drain::STREAM_CHUNK_DRAIN_LIMIT,
            drain::STREAM_CHUNK_GLOBAL_DRAIN_LIMIT,
            time,
            rotation,
        );
        let ghost all = turns@;
        self.set_drain_rotation(next);
        self.apply_turns(turns);
        self.sync_active_streaming_flag();
        self.update_sessions_dialog_live_state(false);
        proof {
            assert(self@ == harvested(a, all, next));
            if old(sources)@.len() == 0 {
                assert(all =~= Seq::<Drained>::empty());
            }
        }
    }
}

/// Whether the time for the next frame has come.
pub open spec fn frame_is_due(a: AppView) -> bool {
    app::elapsed(a.now, a.ui.last_animation) >= ANIMATION_INTERVAL
}

pub open spec fn spinner_is_due(a: AppView) -> bool {
    app::elapsed(a.now, a.ui.last_spinner) >= SESSION_SPINNER_INTERVAL
}

/// A selection that scrolls the text at its edge has no actions.
pub open spec fn edge_scrolled(a: AppView, suggestions: bool) -> AppView {
    keys::with_suggestions(
        AppView { ui: UiView { selection_bar: None, pending_click: None, ..a.ui }, ..a },
        suggestions,
    )
}

#[verifier::opaque]
pub open spec fn frame_advanced(a: AppView, scrolled: bool, suggestions: bool) -> AppView {
    if !frame_is_due(a) {
        a
    } else {
        let b = if scrolled {
            edge_scrolled(a, suggestions)
        } else {
            a
        };
        AppView { ui: UiView { last_animation: b.now, ..b.ui }, ..b }
    }
}

pub open spec fn next_frame(frame: usize) -> int {
    (frame + 1) % 6
}

fn frame_after(frame: usize) -> (r: usize)
    ensures
        r == next_frame(frame),
{
    let frame: usize = frame % 6;
    if frame == 5 {
        0
    } else {
        frame + 1
    }
}

#[verifier::opaque]
pub open spec fn spinner_advanced(a: AppView) -> AppView {
    AppView {
        ui: UiView {
            spinner_frame: next_frame(a.ui.spinner_frame) as usize,
            last_spinner: a.now,
            ..a.ui
        },
        ..a
    }
}

/// What moves on the screen, moved on if it is time.
pub open spec fn animated(a: AppView, scrolled: bool, suggestions: bool) -> AppView {
    let b = frame_advanced(a, scrolled, suggestions);
    if spinner_is_due(b) {
        live_updated(spinner_advanced(b), true)
    } else {
        b
    }
}

impl App {
    pub fn animation_is_due(&self) -> (r: bool)
        ensures
            r == frame_is_due(self@),
    {
        reveal(<Ui as View>::view);
        app::elapsed_since(self.now, self.ui.last_animation) >= ANIMATION_INTERVAL
    }

    fn spinner_is_due_now(&self) -> (r: bool)
        ensures
            r == spinner_is_due(self@),
    {
        reveal(<Ui as View>::view);
        app::elapsed_since(self.now, self.ui.last_spinner) >= SESSION_SPINNER_INTERVAL
    }

    fn drop_bar_and_click(&mut self, suggestions: bool)
        ensures
            final(self)@ == edge_scrolled(old(self)@, suggestions),
    {
        reveal(<Ui as View>::view);
        self.ui.selection_bar = None;
        self.ui.pending_click = None;
        self.set_suggestions(suggestions);
    }

    fn set_last_animation(&mut self)
        ensures
            final(self)@ == (AppView {
                ui: UiView { last_animation: old(self)@.now, ..old(self)@.ui },
                ..old(self)@
            }),
    {
        reveal(<Ui as View>::view);
        self.ui.last_animation = self.now;
    }

    fn advance_frame(&mut self, scrolled: bool, suggestions: bool)
        ensures
            final(self)@ == frame_advanced(old(self)@, scrolled, suggestions),
    {
        reveal(frame_advanced);
        if !self.animation_is_due() {
            return ;
        }
        if scrolled {
            self.drop_bar_and_click(suggestions);
        }
        self.set_last_animation();
    }

    fn advance_spinner(&mut self)
        ensures
            final(self)@ == spinner_advanced(old(self)@),
    {
        reveal(<Ui as View>::view);
        reveal(spinner_advanced);
        self.ui.spinner_frame = frame_after(self.ui.spinner_frame);
        self.ui.last_spinner = self.now;
    }

    /// Moves on what moves on the screen. `scrolled` says whether a selection scrolled the text
    /// in this frame, and `suggestions` whether the prompt has any.
    pub fn update_animations(&mut self, scrolled: bool, suggestions: bool)
        ensures
            final(self)@ == animated(old(self)@, scrolled, suggestions),
    {
        self.advance_frame(scrolled, suggestions);
        if self.spinner_is_due_now() {
            self.advance_spinner();
            self.update_sessions_dialog_live_state(true);
        }
    }
}

pub open spec fn retry_of(a: AppView) -> Option<state::RetryView> {
    match a.current {
        Some(id) => match app::client_of(a, id) {
            Some(c) => c.retry_status,
            None => None,
        },
        None => None,
    }
}

pub open spec fn any_retries(clients: Seq<ClientView>) -> bool {
    exists|i: int| 0 <= i < clients.len() && (#[trigger] clients[i]).retry_status is Some
}

pub open spec fn any_streaming(rows: Seq<RowView>) -> bool {
    exists|i: int| 0 <= i < rows.len() && (#[trigger] rows[i]).is_streaming
}

pub open spec fn list_shows_streams(a: AppView) -> bool {
    if a.sessions_dialog.listed {
        any_streaming(a.sessions_dialog.rows)
    } else {
        terminal_title::any_streams(a.clients)
    }
}

pub open spec fn list_is_open(a: AppView) -> bool {
    a.overlay_focus == OverlayFocus::SessionsDialog && a.sessions_dialog.visible
}

pub open spec fn home_moves(a: AppView) -> bool {
    a.base_focus == BaseFocus::Home && app::elapsed(a.now, a.last_user_activity) < HOME_ANIM_IDLE
}

/// Whether anything on the screen moves, or waits for something that will change it.
pub open spec fn moves(a: AppView, edge_scroll: bool) -> bool {
    home_moves(a) || edge_scroll || a.is_streaming || transcript::runs_tools(a.chat.messages, 0)
        || any_retries(a.clients) || a.compaction is Some || a.ui.storage_check || a.ui.models.task
        is Some || a.title_generation || a.terminals.len() > 0 || terminal_title::any_streams(
        a.clients,
    ) || (list_is_open(a) && list_shows_streams(a))
}

/// Whether the session on the screen has a turn under way.
pub open spec fn current_streams(a: AppView) -> bool {
    a.current matches Some(id) && (app::client_of(a, id) matches Some(c) && c.has_stream())
}

/// Whether the open list of sessions shows turns of other sessions alone: some session has one
/// under way, and the session on the screen has none.
pub open spec fn shows_other_streams(a: AppView) -> bool {
    list_is_open(a) && terminal_title::any_streams(a.clients) && !current_streams(a)
}

pub open spec fn only_streams(a: AppView, edge_scroll: bool) -> bool {
    (a.is_streaming || transcript::runs_tools(a.chat.messages, 0)) && a.base_focus
        != BaseFocus::Home && !edge_scroll && retry_of(a) is None && a.compaction is None
        && !a.ui.storage_check && a.ui.models.task is None && !a.title_generation
}

/// Whether nothing moves but a turn under way.
pub open spec fn moves_by_streams_only(a: AppView, edge_scroll: bool) -> bool {
    if list_is_open(a) {
        only_streams(a, edge_scroll) || shows_other_streams(a)
    } else {
        only_streams(a, edge_scroll) && a.overlay_focus != OverlayFocus::SessionsDialog
    }
}

/// Whether the spinner of an agent's session can be drawn alone.
pub open spec fn spinner_is_isolated(a: AppView) -> bool {
    a.base_focus == BaseFocus::Chat && a.overlay_focus == OverlayFocus::Nothing && a.is_streaming
        && navigation::in_child(a) && retry_of(a) is None && a.compaction is None
}

fn has_any_retry(clients: &Vec<ClientSessionState>) -> (r: bool)
    ensures
        r == any_retries(state::clients_view(clients@)),
{
    let ghost all = state::clients_view(clients@);
    for i in 0..clients.len()
        invariant
            all == state::clients_view(clients@),
            forall|k: int| 0 <= k < i ==> (#[trigger] all[k]).retry_status is None,
    {
        if clients[i].retry_status.is_some() {
            assert(all[i as int].retry_status is Some);
            return true;
        }
    }
    false
}

fn has_streaming_row(rows: &Vec<SessionRow>) -> (r: bool)
    ensures
        r == any_streaming(sorting::shown(rows@)),
{
    let ghost all = sorting::shown(rows@);
    for i in 0..rows.len()
        invariant
            all == sorting::shown(rows@),
            forall|k: int| 0 <= k < i ==> !(#[trigger] all[k]).is_streaming,
    {
        if rows[i].is_streaming {
            assert(all[i as int].is_streaming);
            return true;
        }
    }
    false
}

impl App {
    pub fn current_session_has_retry(&self) -> (r: bool)
        ensures
            r == (retry_of(self@) is Some),
    {
        match &self.current {
            Some(id) => match state::find_client(&self.clients, id.as_str()) {
                Some(k) => {
                    assert(self@.clients[k as int] == self.clients@[k as int]@);
                    self.clients[k].retry_status.is_some()
                },
                None => false,
            },
            None => false,
        }
    }

    pub fn sessions_dialog_has_streaming_rows(&self) -> (r: bool)
        ensures
            r == list_shows_streams(self@),
    {
        if self.sessions_dialog.listed {
            has_streaming_row(&self.sessions_dialog.rows)
        } else {
            terminal_title::has_any_stream(&self.clients)
        }
    }

    fn tasks_are_waited_for(&self) -> (r: bool)
        ensures
            r == (self@.compaction is Some || self@.ui.storage_check || self@.ui.models.task is Some
                || self@.title_generation),
    {
        reveal(<Ui as View>::view);
        self.compaction.is_some() || self.ui.storage_check || self.ui.models.task.is_some()
            || self.title_generation
    }

    fn home_is_moving(&self) -> (r: bool)
        ensures
            r == home_moves(self@),
    {
        self.base_focus == BaseFocus::Home && app::elapsed_since(
            self.now,
            self.last_user_activity,
        ) < HOME_ANIM_IDLE
    }

    pub fn is_animation_running(&self, edge_scroll: bool) -> (r: bool)
        ensures
            r == moves(self@, edge_scroll),
    {
        assert(self@.terminals.len() == self.terminals@.len());
        self.home_is_moving() || edge_scroll || self.is_streaming || self.chat.has_running_tools(0)
            || has_any_retry(&self.clients) || self.tasks_are_waited_for() || self.terminals.len()
            > 0 || terminal_title::has_any_stream(&self.clients) || (self.overlay_focus
            == OverlayFocus::SessionsDialog && self.sessions_dialog.visible
            && self.sessions_dialog_has_streaming_rows())
    }

    fn current_session_streams(&self) -> (r: bool)
        ensures
            r == current_streams(self@),
    {
        match &self.current {
            Some(id) => match state::find_client(&self.clients, id.as_str()) {
                Some(k) => {
                    assert(self@.clients[k as int] == self.clients@[k as int]@);
                    self.clients[k].has_active_stream()
                },
                None => false,
            },
            None => false,
        }
    }

    /// Whether the sessions that the open list shows at work are all others than the one on the
    /// screen.
    pub fn sessions_dialog_passive_streaming_view(&self) -> (r: bool)
        ensures
            r == shows_other_streams(self@),
    {
        self.overlay_focus == OverlayFocus::SessionsDialog && self.sessions_dialog.visible
            && terminal_title::has_any_stream(&self.clients) && !self.current_session_streams()
    }

    fn streams_alone(&self, edge_scroll: bool) -> (r: bool)
        ensures
            r == only_streams(self@, edge_scroll),
    {
        (self.is_streaming || self.chat.has_running_tools(0)) && self.base_focus != BaseFocus::Home
            && !edge_scroll && !self.current_session_has_retry() && !self.tasks_are_waited_for()
    }

    pub fn is_streaming_animation_only(&self, edge_scroll: bool) -> (r: bool)
        ensures
            r == moves_by_streams_only(self@, edge_scroll),
    {
        if self.overlay_focus == OverlayFocus::SessionsDialog && self.sessions_dialog.visible {
            return self.streams_alone(edge_scroll)
                || self.sessions_dialog_passive_streaming_view();
        }
        self.streams_alone(edge_scroll) && self.overlay_focus != OverlayFocus::SessionsDialog
    }

    /// How often the spinner of an agent's session is drawn alone, if it is; `interval` is what
    /// the transcript asks for.
    pub fn isolated_subagent_spinner_interval(&self, interval: Option<u64>) -> (r: Option<u64>)
        ensures
            r == if spinner_is_isolated(self@) {
                interval
            } else {
                None
            },
    {
        if self.base_focus == BaseFocus::Chat && self.overlay_focus == OverlayFocus::Nothing
            && self.is_streaming && self.is_subagent_session_active()
            && !self.current_session_has_retry() && self.compaction.is_none() {
            interval
        } else {
            None
        }
    }
}

/// As long as a turn is under way anywhere, something moves.
pub proof fn law_streams_keep_the_screen_moving(a: AppView, edge_scroll: bool, i: int)
    requires
        0 <= i < a.clients.len(),
        a.clients[i].has_stream(),
    ensures
        moves(a, edge_scroll),
{
}

/// While the list of sessions is open and up to date, looking it over again changes nothing in
/// it.
pub proof fn law_probing_twice_is_probing_once(a: AppView)
    ensures
        probed(probed(a)) == probed(a),
{
    reveal(probed);
}

} // verus!
