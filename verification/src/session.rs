//! Sessions and how they descend from one another.

use crate::message;
use crate::message::{Message, MessageView};
use crate::text;
use vstd::prelude::*;
use vstd::string::*;

verus! {

#[derive(Debug, Clone, Copy, PartialEq, Eq, Structural)]
pub enum SessionStatus {
    Idle,
    Streaming,
    Waiting,
    Interrupted,
    Failed,
}

impl SessionStatus {
    pub open spec fn active(self) -> bool {
        self == SessionStatus::Streaming || self == SessionStatus::Waiting
    }

    /// A turn is under way or waits for an answer.
    pub fn is_active(self) -> (r: bool)
        ensures
            r == self.active(),
    {
        self == SessionStatus::Streaming || self == SessionStatus::Waiting
    }
}

#[derive(Debug)]
pub struct Session {
    pub id: String,
    pub parent_id: Option<String>,
    pub title: String,
    pub status: SessionStatus,
    pub error: Option<String>,
    pub messages: Vec<Message>,
    pub workspace_id: i64,
    pub workspace_path: String,
    pub workspace_name: String,
    pub workspace_sort_order: i64,
    pub archived: bool,
    pub pinned: bool,
    pub updated_at: u64,
}

pub struct SessionView {
    pub id: Seq<char>,
    pub parent_id: Option<Seq<char>>,
    pub title: Seq<char>,
    pub status: SessionStatus,
    pub error: Option<Seq<char>>,
    pub messages: Seq<MessageView>,
    pub workspace_id: i64,
    pub workspace_path: Seq<char>,
    pub workspace_name: Seq<char>,
    pub workspace_sort_order: i64,
    pub archived: bool,
    pub pinned: bool,
    pub updated_at: u64,
}

impl View for Session {
    type V = SessionView;

    open spec fn view(&self) -> SessionView {
        SessionView {
            id: self.id@,
            parent_id: text::opt_view(self.parent_id),
            title: self.title@,
            status: self.status,
            error: text::opt_view(self.error),
            messages: message::messages_view(self.messages@),
            workspace_id: self.workspace_id,
            workspace_path: self.workspace_path@,
            workspace_name: self.workspace_name@,
            workspace_sort_order: self.workspace_sort_order,
            archived: self.archived,
            pinned: self.pinned,
            updated_at: self.updated_at,
        }
    }
}

pub open spec fn sessions_view(s: Seq<Session>) -> Seq<SessionView> {
    s.map_values(|x: Session| x@)
}

/// The first session with the given id, from position `i` on.
pub open spec fn session_from(s: Seq<SessionView>, id: Seq<char>, i: int) -> Option<int>
    decreases s.len() - i,
{
    if i < 0 || i >= s.len() {
        None
    } else if s[i].id == id {
        Some(i)
    } else {
        session_from(s, id, i + 1)
    }
}

pub open spec fn session_at(s: Seq<SessionView>, id: Seq<char>) -> Option<int> {
    session_from(s, id, 0)
}

pub proof fn lemma_session_from(s: Seq<SessionView>, id: Seq<char>, i: int)
    requires
        0 <= i,
    ensures
        session_from(s, id, i) matches Some(k) ==> i <= k < s.len() && s[k].id == id,
        session_from(s, id, i) is None ==> forall|k: int| i <= k < s.len() ==> #[trigger] s[k].id != id,
    decreases s.len() - i,
{
    if i < s.len() && s[i].id != id {
        lemma_session_from(s, id, i + 1);
    }
}

/// Two lists with the same ids in the same places find the same sessions.
pub proof fn lemma_same_ids(s: Seq<SessionView>, t: Seq<SessionView>, id: Seq<char>, i: int)
    requires
        s.len() == t.len(),
        forall|k: int| 0 <= k < s.len() ==> #[trigger] s[k].id == t[k].id,
        0 <= i,
    ensures
        session_from(s, id, i) == session_from(t, id, i),
    decreases s.len() - i,
{
    if i < s.len() {
        assert(s[i].id == t[i].id);
        lemma_same_ids(s, t, id, i + 1);
    }
}

pub fn find_session(s: &Vec<Session>, id: &str) -> (r: Option<usize>)
    ensures
        match r {
            Some(i) => i < s@.len() && session_at(sessions_view(s@), id@) == Some(i as int)
                && s@[i as int].id@ == id@,
            None => session_at(sessions_view(s@), id@) is None,
        },
{
    let key = text::chars_of(id);
    let mut i: usize = 0;
    while i < s.len()
        invariant
            key@ == id@,
            i <= s@.len(),
            session_from(sessions_view(s@), id@, i as int) == session_at(sessions_view(s@), id@),
        decreases s@.len() - i,
    {
        let own = text::chars_of(s[i].id.as_str());
        if text::same_chars(&own, &key) {
            return Some(i);
        }
        i += 1;
    }
    None
}

/// The parent's place, wherever it stands.
pub open spec fn parent_at(s: Seq<SessionView>, i: int) -> Option<int> {
    match s[i].parent_id {
        Some(parent) => session_at(s, parent),
        None => None,
    }
}

/// The place that `steps` steps from parent to parent lead to, or fewer where there is no parent.
pub open spec fn climbed(s: Seq<SessionView>, i: int, steps: nat) -> int
    decreases steps,
{
    if steps == 0 {
        i
    } else {
        match parent_at(s, i) {
            Some(p) => climbed(s, p, (steps - 1) as nat),
            None => i,
        }
    }
}

/// The place of the session at the top of the family of session `i`. The way up is at most as
/// long as there are sessions.
pub open spec fn root_at(s: Seq<SessionView>, i: int) -> int {
    climbed(s, i, s.len())
}

pub open spec fn root_of(s: Seq<SessionView>, id: Seq<char>) -> Option<Seq<char>> {
    match session_at(s, id) {
        Some(i) => Some(s[root_at(s, i)].id),
        None => None,
    }
}

proof fn lemma_climbed(s: Seq<SessionView>, i: int, steps: nat)
    requires
        0 <= i < s.len(),
    ensures
        0 <= climbed(s, i, steps) < s.len(),
    decreases steps,
{
    if steps > 0 {
        if let Some(p) = parent_at(s, i) {
            lemma_session_from(s, s[i].parent_id->0, 0);
            lemma_climbed(s, p, (steps - 1) as nat);
        }
    }
}

pub proof fn lemma_root_at(s: Seq<SessionView>, i: int)
    requires
        0 <= i < s.len(),
    ensures
        0 <= root_at(s, i) < s.len(),
{
    lemma_climbed(s, i, s.len());
}

/// Whether the session of that id has a parent.
pub open spec fn is_child(s: Seq<SessionView>, id: Seq<char>) -> bool {
    match session_at(s, id) {
        Some(i) => s[i].parent_id is Some,
        None => false,
    }
}

pub fn find_parent(s: &Vec<Session>, i: usize) -> (r: Option<usize>)
    requires
        i < s@.len(),
    ensures
        match r {
            Some(p) => p < s@.len() && parent_at(sessions_view(s@), i as int) == Some(p as int),
            None => parent_at(sessions_view(s@), i as int) is None,
        },
{
    match &s[i].parent_id {
        Some(parent) => find_session(s, parent.as_str()),
        None => None,
    }
}

/// The id of a session's parent, whether that session is there or not.
pub open spec fn parent_id_of(s: Seq<SessionView>, id: Seq<char>) -> Option<Seq<char>> {
    match session_at(s, id) {
        Some(i) => s[i].parent_id,
        None => None,
    }
}

pub fn find_parent_id(s: &Vec<Session>, id: &str) -> (r: Option<String>)
    ensures
        text::opt_view(r) == parent_id_of(sessions_view(s@), id@),
{
    match find_session(s, id) {
        Some(i) => text::copy_opt(&s[i].parent_id),
        None => None,
    }
}

pub fn find_root(s: &Vec<Session>, i: usize) -> (r: usize)
    requires
        i < s@.len(),
    ensures
        r < s@.len(),
        r == root_at(sessions_view(s@), i as int),
{
    let mut at: usize = i;
    let mut steps: usize = s.len();
    while steps > 0
        invariant
            at < s@.len(),
            i < s@.len(),
            climbed(sessions_view(s@), at as int, steps as nat) == root_at(
                sessions_view(s@),
                i as int,
            ),
        decreases steps,
    {
        match find_parent(s, at) {
            Some(p) => {
                at = p;
            },
            None => {
                return at;
            },
        }
        steps -= 1;
    }
    at
}

pub fn root_session_id_for(s: &Vec<Session>, id: &str) -> (r: Option<String>)
    ensures
        text::opt_view(r) == root_of(sessions_view(s@), id@),
{
    match find_session(s, id) {
        Some(i) => {
            let root = find_root(s, i);
            Some(s[root].id.clone())
        },
        None => None,
    }
}

pub fn has_parent(s: &Vec<Session>, id: &str) -> (r: bool)
    ensures
        r == is_child(sessions_view(s@), id@),
{
    match find_session(s, id) {
        Some(i) => s[i].parent_id.is_some(),
        None => false,
    }
}

/// The places of the sessions below `root` among the first `n`, oldest first.
pub open spec fn descendants_before(s: Seq<SessionView>, root: int, n: int) -> Seq<int>
    decreases n,
{
    if n <= 0 {
        Seq::empty()
    } else {
        let before = descendants_before(s, root, n - 1);
        if n - 1 != root && root_at(s, n - 1) == root {
            before.push(n - 1)
        } else {
            before
        }
    }
}

pub open spec fn descendants(s: Seq<SessionView>, root: int) -> Seq<int> {
    descendants_before(s, root, s.len() as int)
}

pub open spec fn places(v: Seq<usize>) -> Seq<int> {
    v.map_values(|i: usize| i as int)
}

pub proof fn lemma_descendants(s: Seq<SessionView>, root: int, n: int)
    requires
        0 <= n <= s.len(),
    ensures
        forall|k: int|
            0 <= k < descendants_before(s, root, n).len() ==> 0 <= #[trigger] descendants_before(
                s,
                root,
                n,
            )[k] < n && root_at(s, descendants_before(s, root, n)[k]) == root
                && descendants_before(s, root, n)[k] != root,
        forall|i: int|
            0 <= i < n && i != root && root_at(s, i) == root ==> #[trigger] descendants_before(
                s,
                root,
                n,
            ).contains(i),
        descendants_before(s, root, n).no_duplicates(),
    decreases n,
{
    if n > 0 {
        lemma_descendants(s, root, n - 1);
        let before = descendants_before(s, root, n - 1);
        let after = descendants_before(s, root, n);
        assert forall|i: int| 0 <= i < n && i != root && root_at(s, i) == root implies
            #[trigger] after.contains(i) by {
            if i == n - 1 {
                assert(after.last() == i);
            } else {
                assert(before.contains(i));
                let k = before.index_of(i);
                assert(after[k] == i);
            }
        }
        assert forall|a: int, b: int| 0 <= a < after.len() && 0 <= b < after.len() && a
            != b implies after[a] != after[b] by {
            if a < before.len() {
                assert(after[a] == before[a]);
            }
            if b < before.len() {
                assert(after[b] == before[b]);
            }
        }
    }
}

/// The sessions below `root`, oldest first.
pub fn descendant_sessions(s: &Vec<Session>, root: usize) -> (r: Vec<usize>)
    requires
        root < s@.len(),
    ensures
        places(r@) == descendants(sessions_view(s@), root as int),
        forall|k: int| 0 <= k < r@.len() ==> #[trigger] r@[k] < s@.len(),
{
    let ghost all = sessions_view(s@);
    let mut out: Vec<usize> = Vec::new();
    assert(places(out@) =~= descendants_before(all, root as int, 0));
    for i in 0..s.len()
        invariant
            all == sessions_view(s@),
            root < s@.len(),
            places(out@) == descendants_before(all, root as int, i as int),
            forall|k: int| 0 <= k < out@.len() ==> #[trigger] out@[k] < s@.len(),
    {
        if i != root && find_root(s, i) == root {
            let ghost before = out@;
            out.push(i);
            assert(places(out@) =~= places(before).push(i as int));
        }
    }
    out
}

/// The folder that sessions belong to.
#[derive(Debug)]
pub struct Workspace {
    pub id: i64,
    pub path: String,
    pub name: String,
    pub sort_order: i64,
}

pub struct WorkspaceView {
    pub id: i64,
    pub path: Seq<char>,
    pub name: Seq<char>,
    pub sort_order: i64,
}

impl View for Workspace {
    type V = WorkspaceView;

    open spec fn view(&self) -> WorkspaceView {
        WorkspaceView {
            id: self.id,
            path: self.path@,
            name: self.name@,
            sort_order: self.sort_order,
        }
    }
}

/// A session as it is made.
pub open spec fn new_session(
    id: Seq<char>,
    parent_id: Option<Seq<char>>,
    title: Seq<char>,
    workspace: WorkspaceView,
    now: u64,
) -> SessionView {
    SessionView {
        id,
        parent_id,
        title,
        status: SessionStatus::Idle,
        error: None,
        messages: Seq::empty(),
        workspace_id: workspace.id,
        workspace_path: workspace.path,
        workspace_name: workspace.name,
        workspace_sort_order: workspace.sort_order,
        archived: false,
        pinned: false,
        updated_at: now,
    }
}

impl Session {
    pub fn new(
        id: &str,
        parent_id: Option<String>,
        title: &str,
        workspace: &Workspace,
        now: u64,
    ) -> (r: Session)
        ensures
            r@ == new_session(id@, text::opt_view(parent_id), title@, workspace@, now),
    {
        let messages: Vec<Message> = Vec::new();
        assert(message::messages_view(messages@) =~= Seq::<MessageView>::empty());
        Session {
            id: id.to_owned(),
            parent_id,
            title: title.to_owned(),
            status: SessionStatus::Idle,
            error: None,
            messages,
            workspace_id: workspace.id,
            workspace_path: workspace.path.clone(),
            workspace_name: workspace.name.clone(),
            workspace_sort_order: workspace.sort_order,
            archived: false,
            pinned: false,
            updated_at: now,
        }
    }
}

} // verus!
