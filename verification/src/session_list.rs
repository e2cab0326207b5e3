//! The lines of the sessions dialog.

use crate::session;
use crate::session::{Session, SessionView};
use crate::sorting;
use crate::sorting::Ranked;
use crate::state;
use crate::state::{ClientSessionState, ClientView};
use crate::text;
use vstd::prelude::*;
use vstd::string::*;

verus! {

#[derive(Debug, Clone, Copy, PartialEq, Eq, Structural)]
pub enum SessionsDialogFilter {
    Active,
    All,
    Archived,
}

#[derive(Debug)]
pub struct SessionRow {
    pub id: String,
    pub title: String,
    pub group: String,
    pub workspace_id: i64,
    pub workspace_sort_order: i64,
    pub pinned: bool,
    pub status_active: bool,
    pub updated_at: u64,
    pub is_streaming: bool,
    pub unread_completed: bool,
}

pub struct RowView {
    pub id: Seq<char>,
    pub title: Seq<char>,
    pub group: Seq<char>,
    pub workspace_id: i64,
    pub workspace_sort_order: i64,
    pub pinned: bool,
    pub status_active: bool,
    pub updated_at: u64,
    pub is_streaming: bool,
    pub unread_completed: bool,
}

impl View for SessionRow {
    type V = RowView;

    open spec fn view(&self) -> RowView {
        RowView {
            id: self.id@,
            title: self.title@,
            group: self.group@,
            workspace_id: self.workspace_id,
            workspace_sort_order: self.workspace_sort_order,
            pinned: self.pinned,
            status_active: self.status_active,
            updated_at: self.updated_at,
            is_streaming: self.is_streaming,
            unread_completed: self.unread_completed,
        }
    }
}

impl Ranked for SessionRow {
    /// By workspace; pinned sessions first, then those at work, then the latest.
    open spec fn precedes(a: RowView, b: RowView) -> bool {
        if a.workspace_sort_order != b.workspace_sort_order {
            a.workspace_sort_order < b.workspace_sort_order
        } else if a.workspace_id != b.workspace_id {
            a.workspace_id < b.workspace_id
        } else if a.pinned != b.pinned {
            a.pinned
        } else if a.status_active != b.status_active {
            a.status_active
        } else {
            a.updated_at > b.updated_at
        }
    }

    proof fn lemma_rank(a: RowView, b: RowView, c: RowView) {
    }

    fn goes_before(&self, other: &Self) -> (r: bool) {
        if self.workspace_sort_order != other.workspace_sort_order {
            self.workspace_sort_order < other.workspace_sort_order
        } else if self.workspace_id != other.workspace_id {
            self.workspace_id < other.workspace_id
        } else if self.pinned != other.pinned {
            self.pinned
        } else if self.status_active != other.status_active {
            self.status_active
        } else {
            self.updated_at > other.updated_at
        }
    }
}

/// A turn of the session is under way, as far as the client knows.
pub open spec fn streams(clients: Seq<ClientView>, id: Seq<char>) -> bool {
    match state::client_at(clients, id) {
        Some(k) => clients[k].has_stream(),
        None => false,
    }
}

pub fn has_active_stream(clients: &Vec<ClientSessionState>, id: &str) -> (r: bool)
    ensures
        r == streams(state::clients_view(clients@), id@),
{
    match state::find_client(clients, id) {
        Some(k) => clients[k].has_active_stream(),
        None => false,
    }
}

pub open spec fn is_kept(
    s: SessionView,
    clients: Seq<ClientView>,
    filter: SessionsDialogFilter,
    workspace_id: i64,
) -> bool {
    s.parent_id is None && match filter {
        SessionsDialogFilter::Active => !s.archived && (s.workspace_id == workspace_id
            || s.status.active() || streams(clients, s.id)),
        SessionsDialogFilter::All => !s.archived,
        SessionsDialogFilter::Archived => s.archived,
    }
}

pub open spec fn row_of(s: SessionView, clients: Seq<ClientView>) -> RowView {
    RowView {
        id: s.id,
        title: s.title,
        group: if text::is_blank(s.workspace_name) {
            s.workspace_path
        } else {
            s.workspace_name
        },
        workspace_id: s.workspace_id,
        workspace_sort_order: s.workspace_sort_order,
        pinned: s.pinned,
        status_active: s.status.active(),
        updated_at: s.updated_at,
        is_streaming: streams(clients, s.id) || s.status.active(),
        unread_completed: match state::client_at(clients, s.id) {
            Some(k) => clients[k].unread_completed,
            None => false,
        },
    }
}

/// The rows of the sessions that are kept, unsorted.
pub open spec fn kept_rows(
    sessions: Seq<SessionView>,
    clients: Seq<ClientView>,
    filter: SessionsDialogFilter,
    workspace_id: i64,
) -> Seq<RowView>
    decreases sessions.len(),
{
    if sessions.len() == 0 {
        Seq::empty()
    } else {
        let front = kept_rows(sessions.drop_last(), clients, filter, workspace_id);
        if is_kept(sessions.last(), clients, filter, workspace_id) {
            front.push(row_of(sessions.last(), clients))
        } else {
            front
        }
    }
}

#[verifier::opaque]
pub open spec fn session_rows(
    sessions: Seq<SessionView>,
    clients: Seq<ClientView>,
    filter: SessionsDialogFilter,
    workspace_id: i64,
) -> Seq<RowView> {
    sorting::sorted::<SessionRow>(kept_rows(sessions, clients, filter, workspace_id))
}

fn make_row(s: &Session, clients: &Vec<ClientSessionState>) -> (r: SessionRow)
    ensures
        r@ == row_of(s@, state::clients_view(clients@)),
{
    let group = if text::blank(s.workspace_name.as_str()) {
        s.workspace_path.clone()
    } else {
        s.workspace_name.clone()
    };
    let unread_completed = match state::find_client(clients, s.id.as_str()) {
        Some(k) => clients[k].unread_completed,
        None => false,
    };
    let active = s.status.is_active();
    SessionRow {
        id: s.id.clone(),
        title: s.title.clone(),
        group,
        workspace_id: s.workspace_id,
        workspace_sort_order: s.workspace_sort_order,
        pinned: s.pinned,
        status_active: active,
        updated_at: s.updated_at,
        is_streaming: has_active_stream(clients, s.id.as_str()) || active,
        unread_completed,
    }
}

fn keeps(
    s: &Session,
    clients: &Vec<ClientSessionState>,
    filter: SessionsDialogFilter,
    workspace_id: i64,
) -> (r: bool)
    ensures
        r == is_kept(s@, state::clients_view(clients@), filter, workspace_id),
{
    if s.parent_id.is_some() {
        return false;
    }
    match filter {
        SessionsDialogFilter::Active => !s.archived && (s.workspace_id == workspace_id
            || s.status.is_active() || has_active_stream(clients, s.id.as_str())),
        SessionsDialogFilter::All => !s.archived,
        SessionsDialogFilter::Archived => s.archived,
    }
}

/// The lines that the dialog shows under a filter: top-level sessions only.
pub fn build_sessions_dialog_list(
    sessions: &Vec<Session>,
    clients: &Vec<ClientSessionState>,
    filter: SessionsDialogFilter,
    workspace_id: i64,
) -> (r: Vec<SessionRow>)
    ensures
        sorting::shown(r@) == session_rows(
            session::sessions_view(sessions@),
            state::clients_view(clients@),
            filter,
            workspace_id,
        ),
{
    let ghost all = session::sessions_view(sessions@);
    let ghost views = state::clients_view(clients@);
    let mut rows: Vec<SessionRow> = Vec::new();
    assert(sorting::shown(rows@) =~= kept_rows(all.take(0), views, filter, workspace_id));
    for i in 0..sessions.len()
        invariant
            all == session::sessions_view(sessions@),
            views == state::clients_view(clients@),
            sorting::shown(rows@) == kept_rows(all.take(i as int), views, filter, workspace_id),
    {
        proof {
            assert(all.take(i as int + 1).drop_last() =~= all.take(i as int));
            assert(all.take(i as int + 1).last() == sessions@[i as int]@);
        }
        if keeps(&sessions[i], clients, filter, workspace_id) {
            let ghost before = rows@;
            let row = make_row(&sessions[i], clients);
            rows.push(row);
            assert(sorting::shown(rows@) =~= sorting::shown(before).push(row@));
        }
    }
    proof {
        assert(all.take(all.len() as int) =~= all);
        reveal(session_rows);
    }
    sorting::sort(rows)
}

/// A row's text: what marks it, a star for a pinned session, and the title.
pub open spec fn row_name(row: RowView, loading: Seq<char>) -> Seq<char> {
    (if row.is_streaming {
        loading + " "@
    } else if row.unread_completed {
        "● "@
    } else {
        ""@
    }) + (if row.pinned {
        "★ "@
    } else {
        ""@
    }) + row.title
}

pub fn session_row_name(row: &SessionRow, loading: &str) -> (r: String)
    ensures
        r@ == row_name(row@, loading@),
{
    let mut out = String::new();
    if row.is_streaming {
        out.append(loading);
        out.append(" ");
        assert(out@ =~= loading@ + " "@);
    } else if row.unread_completed {
        out.append("● ");
        assert(out@ =~= "● "@);
    } else {
        out.append("");
        assert(out@ =~= ""@);
    }
    if row.pinned {
        out.append("★ ");
    } else {
        out.append("");
    }
    out.append(row.title.as_str());
    out
}

/// The workspace that a group of rows belongs to: that of its first row.
pub open spec fn group_workspace(rows: Seq<RowView>, group: Seq<char>, i: int) -> Option<i64>
    decreases rows.len() - i,
{
    if i < 0 || i >= rows.len() {
        None
    } else if rows[i].group == group {
        Some(rows[i].workspace_id)
    } else {
        group_workspace(rows, group, i + 1)
    }
}

pub fn workspace_of_group(rows: &Vec<SessionRow>, group: &str) -> (r: Option<i64>)
    ensures
        r == group_workspace(sorting::shown(rows@), group@, 0),
{
    let mut i: usize = 0;
    while i < rows.len()
        invariant
            i <= rows@.len(),
            group_workspace(sorting::shown(rows@), group@, i as int) == group_workspace(
                sorting::shown(rows@),
                group@,
                0,
            ),
        decreases rows@.len() - i,
    {
        if text::same(rows[i].group.as_str(), group) {
            return Some(rows[i].workspace_id);
        }
        i += 1;
    }
    None
}

/// The rows whose session is at work.
pub open spec fn streaming_ids(rows: Seq<RowView>) -> Seq<Seq<char>>
    decreases rows.len(),
{
    if rows.len() == 0 {
        Seq::empty()
    } else if rows.last().is_streaming {
        streaming_ids(rows.drop_last()).push(rows.last().id)
    } else {
        streaming_ids(rows.drop_last())
    }
}

pub fn streaming_row_ids(rows: &Vec<SessionRow>) -> (r: Vec<String>)
    ensures
        text::views(r@) == streaming_ids(sorting::shown(rows@)),
{
    let ghost all = sorting::shown(rows@);
    let mut out: Vec<String> = Vec::new();
    assert(text::views(out@) =~= streaming_ids(all.take(0)));
    for i in 0..rows.len()
        invariant
            all == sorting::shown(rows@),
            text::views(out@) == streaming_ids(all.take(i as int)),
    {
        proof {
            assert(all.take(i as int + 1).drop_last() =~= all.take(i as int));
            assert(all.take(i as int + 1).last() == rows@[i as int]@);
        }
        if rows[i].is_streaming {
            let ghost before = out@;
            out.push(rows[i].id.clone());
            assert(text::views(out@) =~= text::views(before).push(rows@[i as int].id@));
        }
    }
    assert(all.take(all.len() as int) =~= all);
    out
}

fn same_row(a: &SessionRow, b: &SessionRow) -> (r: bool)
    ensures
        r == (a@ == b@),
{
    text::same(a.id.as_str(), b.id.as_str()) && text::same(a.title.as_str(), b.title.as_str())
        && text::same(a.group.as_str(), b.group.as_str()) && a.workspace_id == b.workspace_id
        && a.workspace_sort_order == b.workspace_sort_order && a.pinned == b.pinned
        && a.status_active == b.status_active && a.updated_at == b.updated_at && a.is_streaming
        == b.is_streaming && a.unread_completed == b.unread_completed
}

pub fn same_rows(a: &Vec<SessionRow>, b: &Vec<SessionRow>) -> (r: bool)
    ensures
        r == (sorting::shown(a@) == sorting::shown(b@)),
{
    let ghost x = sorting::shown(a@);
    let ghost y = sorting::shown(b@);
    if a.len() != b.len() {
        assert(x.len() != y.len());
        return false;
    }
    for i in 0..a.len()
        invariant
            x == sorting::shown(a@),
            y == sorting::shown(b@),
            a@.len() == b@.len(),
            forall|j: int| 0 <= j < i ==> #[trigger] x[j] == y[j],
    {
        if !same_row(&a[i], &b[i]) {
            assert(x[i as int] != y[i as int]);
            return false;
        }
        assert(x[i as int] == y[i as int]);
    }
    assert(x =~= y);
    true
}

/// What the sessions dialog holds.
#[derive(Debug)]
pub struct SessionsDialog {
    pub filter: SessionsDialogFilter,
    pub workspace_id: i64,
    pub rows: Vec<SessionRow>,
    pub listed: bool,
    pub marker_frame: usize,
    pub dirty: bool,
    pub last_probe: u64,
    pub visible: bool,
    pub dragging: bool,
}

pub struct SessionsDialogView {
    pub filter: SessionsDialogFilter,
    pub workspace_id: i64,
    pub rows: Seq<RowView>,
    pub listed: bool,
    pub marker_frame: usize,
    pub dirty: bool,
    pub last_probe: u64,
    pub visible: bool,
    pub dragging: bool,
}

impl View for SessionsDialog {
    type V = SessionsDialogView;

    open spec fn view(&self) -> SessionsDialogView {
        SessionsDialogView {
            filter: self.filter,
            workspace_id: self.workspace_id,
            rows: sorting::shown(self.rows@),
            listed: self.listed,
            marker_frame: self.marker_frame,
            dirty: self.dirty,
            last_probe: self.last_probe,
            visible: self.visible,
            dragging: self.dragging,
        }
    }
}

pub open spec fn new_sessions_dialog() -> SessionsDialogView {
    SessionsDialogView {
        filter: SessionsDialogFilter::All,
        workspace_id: 0,
        rows: Seq::empty(),
        listed: false,
        marker_frame: 0,
        dirty: false,
        last_probe: 0,
        visible: false,
        dragging: false,
    }
}

impl SessionsDialog {
    pub fn new() -> (r: SessionsDialog)
        ensures
            r@ == new_sessions_dialog(),
    {
        let rows: Vec<SessionRow> = Vec::new();
        assert(sorting::shown(rows@) =~= Seq::<RowView>::empty());
        SessionsDialog {
            filter: SessionsDialogFilter::All,
            workspace_id: 0,
            rows,
            listed: false,
            marker_frame: 0,
            dirty: false,
            last_probe: 0,
            visible: false,
            dragging: false,
        }
    }
}

/// Every top-level session has one line under exactly one of the filters "all" and "archived",
/// and a session of the current workspace that is shown at all is shown under "active" too.
pub proof fn law_filters_part_the_sessions(
    s: SessionView,
    clients: Seq<ClientView>,
    workspace_id: i64,
)
    requires
        s.parent_id is None,
    ensures
        is_kept(s, clients, SessionsDialogFilter::All, workspace_id) != is_kept(
            s,
            clients,
            SessionsDialogFilter::Archived,
            workspace_id,
        ),
        is_kept(s, clients, SessionsDialogFilter::Active, workspace_id) ==> is_kept(
            s,
            clients,
            SessionsDialogFilter::All,
            workspace_id,
        ),
        s.workspace_id == workspace_id ==> is_kept(
            s,
            clients,
            SessionsDialogFilter::Active,
            workspace_id,
        ) == is_kept(s, clients, SessionsDialogFilter::All, workspace_id),
{
}

/// Subagent sessions never have a line of their own.
pub proof fn law_rows_are_top_level(
    sessions: Seq<SessionView>,
    clients: Seq<ClientView>,
    filter: SessionsDialogFilter,
    workspace_id: i64,
    row: RowView,
)
    requires
        session_rows(sessions, clients, filter, workspace_id).contains(row),
    ensures
        exists|i: int|
            0 <= i < sessions.len() && #[trigger] sessions[i].parent_id is None && row == row_of(
                sessions[i],
                clients,
            ) && is_kept(sessions[i], clients, filter, workspace_id),
{
    reveal(session_rows);
    let kept = kept_rows(sessions, clients, filter, workspace_id);
    sorting::law_sorted::<SessionRow>(kept);
    broadcast use vstd::seq_lib::to_multiset_contains;

    let shown = session_rows(sessions, clients, filter, workspace_id);
    assert(shown.to_multiset().count(row) > 0);
    assert(kept.contains(row));
    lemma_kept_rows(sessions, clients, filter, workspace_id, row);
}

proof fn lemma_kept_rows(
    sessions: Seq<SessionView>,
    clients: Seq<ClientView>,
    filter: SessionsDialogFilter,
    workspace_id: i64,
    row: RowView,
)
    requires
        kept_rows(sessions, clients, filter, workspace_id).contains(row),
    ensures
        exists|i: int|
            0 <= i < sessions.len() && #[trigger] sessions[i].parent_id is None && row == row_of(
                sessions[i],
                clients,
            ) && is_kept(sessions[i], clients, filter, workspace_id),
    decreases sessions.len(),
{
    if sessions.len() > 0 {
        let head = sessions.drop_last();
        let front = kept_rows(head, clients, filter, workspace_id);
        let last = sessions.len() - 1;
        let kept = kept_rows(sessions, clients, filter, workspace_id);
        let k = kept.index_of(row);
        if k < front.len() {
            assert(front[k] == row);
            assert(front.contains(row));
            lemma_kept_rows(head, clients, filter, workspace_id, row);
            let i = choose|i: int|
                0 <= i < head.len() && #[trigger] head[i].parent_id is None && row == row_of(
                    head[i],
                    clients,
                ) && is_kept(head[i], clients, filter, workspace_id);
            assert(sessions[i] == head[i]);
        } else {
            assert(sessions[last].parent_id is None);
        }
    }
}

/// Where the cursor of the list goes.
#[derive(Debug, Clone, Copy, PartialEq, Eq, Structural)]
pub enum ListTarget {
    /// To a row.
    Row(usize),
    /// To the heading of a workspace that has no rows.
    Workspace(i64),
}

/// The first row from `i` on that is the session's.
pub open spec fn row_of_session(rows: Seq<RowView>, id: Seq<char>, i: int) -> Option<int>
    decreases rows.len() - i,
{
    if i < 0 || i >= rows.len() {
        None
    } else if rows[i].id == id {
        Some(i)
    } else {
        row_of_session(rows, id, i + 1)
    }
}

/// The first row from `i` on that belongs to the workspace.
pub open spec fn row_of_workspace(rows: Seq<RowView>, workspace: i64, i: int) -> Option<int>
    decreases rows.len() - i,
{
    if i < 0 || i >= rows.len() {
        None
    } else if rows[i].workspace_id == workspace {
        Some(i)
    } else {
        row_of_workspace(rows, workspace, i + 1)
    }
}

/// The cursor goes to the current session, else to the first one of the current workspace, else to
/// that workspace.
pub open spec fn list_target(rows: Seq<RowView>, current: Option<Seq<char>>, workspace: i64) -> ListTarget {
    let own = match current {
        Some(id) => row_of_session(rows, id, 0),
        None => None,
    };
    match own {
        Some(i) => ListTarget::Row(i as usize),
        None => match row_of_workspace(rows, workspace, 0) {
            Some(i) => ListTarget::Row(i as usize),
            None => ListTarget::Workspace(workspace),
        },
    }
}

fn find_row(rows: &Vec<SessionRow>, id: &str) -> (r: Option<usize>)
    ensures
        row_of_session(sorting::shown(rows@), id@, 0) == match r {
            Some(i) => Some(i as int),
            None => None,
        },
{
    let ghost all = sorting::shown(rows@);
    for i in 0..rows.len()
        invariant
            all == sorting::shown(rows@),
            row_of_session(all, id@, i as int) == row_of_session(all, id@, 0),
    {
        assert(all[i as int] == rows@[i as int]@);
        if text::same(rows[i].id.as_str(), id) {
            return Some(i);
        }
    }
    None
}

fn find_workspace_row(rows: &Vec<SessionRow>, workspace: i64) -> (r: Option<usize>)
    ensures
        row_of_workspace(sorting::shown(rows@), workspace, 0) == match r {
            Some(i) => Some(i as int),
            None => None,
        },
{
    let ghost all = sorting::shown(rows@);
    for i in 0..rows.len()
        invariant
            all == sorting::shown(rows@),
            row_of_workspace(all, workspace, i as int) == row_of_workspace(all, workspace, 0),
    {
        assert(all[i as int] == rows@[i as int]@);
        if rows[i].workspace_id == workspace {
            return Some(i);
        }
    }
    None
}

/// Where the cursor of the list of sessions goes when it opens.
pub fn sessions_list_target(
    rows: &Vec<SessionRow>,
    current: &Option<String>,
    workspace: i64,
) -> (r: ListTarget)
    ensures
        r == list_target(sorting::shown(rows@), text::opt_view(*current), workspace),
{
    match current {
        Some(id) => match find_row(rows, id.as_str()) {
            Some(i) => {
                return ListTarget::Row(i);
            },
            None => {},
        },
        None => {},
    }
    match find_workspace_row(rows, workspace) {
        Some(i) => ListTarget::Row(i),
        None => ListTarget::Workspace(workspace),
    }
}

} // verus!
