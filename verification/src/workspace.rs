//! The folder that the application works in, and how a remote client changes it.

use crate::answers;
use crate::app;
use crate::app::{App, AppView};
use crate::dialogs;
use crate::prompting;
use crate::session::{Workspace, WorkspaceView};
use crate::terminal_title;
use crate::text;
use crate::ui::{TitleView, Ui, UiView};
use vstd::prelude::*;
use vstd::string::*;

verus! {

/// The first of two texts that says something, trimmed.
pub open spec fn said(a: Seq<char>, b: Seq<char>) -> Option<Seq<char>> {
    if !text::is_blank(a) {
        Some(text::trim(a))
    } else if !text::is_blank(b) {
        Some(text::trim(b))
    } else {
        None
    }
}

/// The folder of the current session, else of the workspace, else of the process.
pub open spec fn workspace_path(a: AppView) -> Seq<char> {
    let own = match dialogs::current_place(a) {
        Some(i) => a.sessions[i].workspace_path,
        None => Seq::empty(),
    };
    match said(own, a.workspace.path) {
        Some(path) => path,
        None => a.ui.cwd,
    }
}

/// The name of that folder: the one it was given, else the last part of its path.
pub open spec fn workspace_name(a: AppView) -> Seq<char> {
    let own = match dialogs::current_place(a) {
        Some(i) => a.sessions[i].workspace_name,
        None => Seq::empty(),
    };
    match said(own, a.workspace.name) {
        Some(name) => name,
        None => match terminal_title::leaf(workspace_path(a)) {
            Some(name) => if text::is_blank(name) {
                "Workspace"@
            } else {
                name
            },
            None => "Workspace"@,
        },
    }
}

pub open spec fn is_absolute(path: Seq<char>) -> bool {
    path.len() > 0 && path[0] == '/'
}

/// `path` as seen from the folder `base`.
pub open spec fn joined(base: Seq<char>, path: Seq<char>) -> Seq<char> {
    if is_absolute(path) {
        path
    } else if base.len() > 0 && base.last() != '/' {
        base.push('/') + path
    } else {
        base + path
    }
}

/// A path in which "~" stands for the user's own folder, if that is known.
pub open spec fn expanded(raw: Seq<char>, home: Option<Seq<char>>) -> Seq<char> {
    match home {
        Some(h) => if raw == "~"@ {
            h
        } else if "~/"@.is_prefix_of(raw) {
            joined(h, raw.skip(2))
        } else {
            raw
        },
        None => raw,
    }
}

/// The folder that a remote client means: an absolute path, or nothing for no path at all.
pub open spec fn folder_meant(a: AppView, raw: Seq<char>, home: Option<Seq<char>>) -> Option<
    Seq<char>,
> {
    if text::is_blank(raw) {
        None
    } else {
        Some(joined(workspace_path(a), expanded(text::trim(raw), home)))
    }
}

/// `dirs::home_dir`, as text: the user's own folder, where the system knows one and its path is
/// valid Unicode. Nothing is claimed of the result: it depends on the environment.
#[verifier::external_body]
pub(crate) fn home_folder() -> (r: Option<String>) {
    dirs::home_dir().and_then(|path| path.into_os_string().into_string().ok())
}

fn starts_at_root(path: &str) -> (r: bool)
    ensures
        r == is_absolute(path@),
{
    if path.is_empty() {
        return false;
    }
    path.get_char(0) == '/'
}

fn join_paths(base: &str, path: &str) -> (r: String)
    ensures
        r@ == joined(base@, path@),
{
    if starts_at_root(path) {
        return path.to_owned();
    }
    let mut out = base.to_owned();
    let n: usize = base.unicode_len();
    if n > 0 && base.get_char(n - 1) != '/' {
        out.append("/");
        proof {
            reveal_strlit("/");
            assert("/"@ =~= seq!['/']);
            assert(base@ + "/"@ =~= base@.push('/'));
        }
    }
    out.append(path);
    out
}

fn expand_path(raw: &str, home: &Option<String>) -> (r: String)
    ensures
        r@ == expanded(raw@, text::opt_view(*home)),
{
    match home {
        Some(h) => {
            if text::same(raw, "~") {
                return h.clone();
            }
            if text::starts_with(raw, "~/") {
                let v = text::chars_of(raw);
                proof {
                    reveal_strlit("~/");
                }
                let rest = text::string_of_range(&v, 2, v.len());
                assert(rest@ =~= raw@.skip(2));
                return join_paths(h.as_str(), rest.as_str());
            }
            raw.to_owned()
        },
        None => raw.to_owned(),
    }
}

fn first_said(a: &str, b: &str) -> (r: Option<String>)
    ensures
        text::opt_view(r) == said(a@, b@),
{
    let own = text::trimmed(a);
    if !own.as_str().is_empty() {
        return Some(own);
    }
    let other = text::trimmed(b);
    if !other.as_str().is_empty() {
        return Some(other);
    }
    None
}

/// What a path leads to on disk, by its full name.
#[derive(Debug)]
pub enum Found {
    Nothing,
    File { path: String },
    Folder { path: String },
}

/// The full name of a folder, or why there is none to go to.
pub open spec fn folder_found(meant: Seq<char>, found: Found) -> Result<Seq<char>, Seq<char>> {
    match found {
        Found::Nothing => Err("folder not found or not accessible: "@ + meant),
        Found::File { path } => Err("folder path is not a directory: "@ + path@),
        Found::Folder { path } => Ok(path@),
    }
}

/// Judges what was found on disk where a folder was meant.
pub fn check_folder(meant: &str, found: Found) -> (r: Result<String, String>)
    ensures
        folder_found(meant@, found) == match r {
            Ok(path) => Ok(path@),
            Err(why) => Err(why@),
        },
{
    match found {
        Found::Nothing => {
            let mut t = "folder not found or not accessible: ".to_string();
            t.append(meant);
            Err(t)
        },
        Found::File { path } => {
            let mut t = "folder path is not a directory: ".to_string();
            t.append(path.as_str());
            Err(t)
        },
        Found::Folder { path } => Ok(path),
    }
}

/// Why a folder that is there could not be entered.
pub fn entering_failed(path: &str) -> (r: String)
    ensures
        r@ == "failed to switch to "@ + path@,
{
    let mut t = "failed to switch to ".to_string();
    t.append(path);
    t
}

/// A folder that was entered, and the workspace kept for it or why there is none.
#[derive(Debug)]
pub struct Folder {
    pub path: String,
    pub workspace: Result<Workspace, String>,
}

/// The process works in another folder; its workspace becomes the current one.
#[verifier::opaque]
pub open spec fn folder_entered(a: AppView, f: Folder) -> AppView {
    let b = AppView {
        ui: UiView { cwd: f.path@, title: TitleView { branch_path: ""@, ..a.ui.title }, ..a.ui },
        ..a
    };
    match f.workspace {
        Ok(w) => app::relisted(AppView { workspace: w@, ..b }),
        Err(_) => b,
    }
}

/// A blank session in the folder asked for, or why there is none.
pub open spec fn blank_in(a: AppView, folder: Option<Result<Folder, String>>) -> (
    AppView,
    Option<Seq<char>>,
) {
    match folder {
        None => (prompting::blank_session(a, None), None),
        Some(Err(why)) => (a, Some(why@)),
        Some(Ok(f)) => match f.workspace {
            Ok(_) => (prompting::blank_session(folder_entered(a, f), None), None),
            Err(why) => (folder_entered(a, f), Some(why@)),
        },
    }
}

pub open spec fn err_of(r: Result<(), String>) -> Option<Seq<char>> {
    match r {
        Ok(_) => None,
        Err(why) => Some(why@),
    }
}

/// The folder that a request names, if it names one.
pub open spec fn folder_named(path: Option<Seq<char>>) -> Option<Seq<char>> {
    match path {
        Some(p) => if text::is_blank(p) {
            None
        } else {
            Some(text::trim(p))
        },
        None => None,
    }
}

pub fn requested_folder(path: &Option<String>) -> (r: Option<String>)
    ensures
        text::opt_view(r) == folder_named(text::opt_view(*path)),
{
    match path {
        Some(p) => {
            let own = text::trimmed(p.as_str());
            if own.as_str().is_empty() {
                None
            } else {
                Some(own)
            }
        },
        None => None,
    }
}

impl Ui {
    fn enter_folder(&mut self, path: String)
        ensures
            final(self)@ == (UiView {
                cwd: path@,
                title: TitleView { branch_path: ""@, ..old(self)@.title },
                ..old(self)@
            }),
    {
        reveal(<Ui as View>::view);
        self.cwd = path;
        self.title.branch_path = "".to_string();
    }
}

impl App {
    fn process_folder(&self) -> (r: String)
        ensures
            r@ == self@.ui.cwd,
    {
        reveal(<Ui as View>::view);
        self.ui.cwd.clone()
    }

    pub fn remote_workspace_path(&self) -> (r: String)
        ensures
            r@ == workspace_path(self@),
    {
        let own = match self.find_current_session() {
            Some(i) => self.sessions[i].workspace_path.clone(),
            None => String::new(),
        };
        match first_said(own.as_str(), self.workspace.path.as_str()) {
            Some(path) => path,
            None => self.process_folder(),
        }
    }

    pub fn remote_workspace_name(&self) -> (r: String)
        ensures
            r@ == workspace_name(self@),
    {
        let own = match self.find_current_session() {
            Some(i) => self.sessions[i].workspace_name.clone(),
            None => String::new(),
        };
        match first_said(own.as_str(), self.workspace.name.as_str()) {
            Some(name) => name,
            None => match terminal_title::path_leaf(self.remote_workspace_path().as_str()) {
                Some(name) => if text::blank(name.as_str()) {
                    "Workspace".to_string()
                } else {
                    name
                },
                None => "Workspace".to_string(),
            },
        }
    }

    /// The path that a remote client means, given the user's own folder.
    pub fn workspace_path_from(&self, raw: &str, home: &Option<String>) -> (r: Result<
        String,
        String,
    >)
        ensures
            match r {
                Ok(path) => folder_meant(self@, raw@, text::opt_view(*home)) == Some(path@),
                Err(why) => folder_meant(self@, raw@, text::opt_view(*home)) is None && why@
                    == "folder path cannot be empty"@,
            },
    {
        let own = text::trimmed(raw);
        if own.as_str().is_empty() {
            return Err("folder path cannot be empty".to_string());
        }
        let path = expand_path(own.as_str(), home);
        Ok(join_paths(self.remote_workspace_path().as_str(), path.as_str()))
    }

    /// The path that a remote client means, not yet looked up on disk.
    pub fn resolve_remote_workspace_path(&self, raw: &str) -> (r: Result<String, String>)
        ensures
            exists|home: Option<Seq<char>>|
                match r {
                    Ok(path) => #[trigger] folder_meant(self@, raw@, home) == Some(path@),
                    Err(why) => folder_meant(self@, raw@, home) is None && why@
                        == "folder path cannot be empty"@,
                },
    {
        let home = home_folder();
        let r = self.workspace_path_from(raw, &home);
        assert(folder_meant(self@, raw@, text::opt_view(home)) == folder_meant(
            self@,
            raw@,
            text::opt_view(home),
        ));
        r
    }

    /// Takes over a folder that the caller has entered.
    pub fn set_remote_workspace_path(&mut self, f: Folder) -> (r: Result<(), String>)
        ensures
            final(self)@ == folder_entered(old(self)@, f),
            err_of(r) == match f.workspace {
                Ok(_) => None,
                Err(why) => Some(why@),
            },
    {
        reveal(folder_entered);
        self.ui.enter_folder(f.path);
        match f.workspace {
            Ok(w) => {
                self.workspace = w;
                self.refresh_sessions_dialog();
                Ok(())
            },
            Err(why) => Err(why),
        }
    }

    /// A blank session, in the folder that was asked for if one was.
    pub fn remote_start_blank_session(&mut self, folder: Option<Result<Folder, String>>) -> (r:
        Result<(), String>)
        ensures
            (final(self)@, err_of(r)) == blank_in(old(self)@, folder),
    {
        match folder {
            None => {},
            Some(Err(why)) => {
                return Err(why);
            },
            Some(Ok(f)) => match self.set_remote_workspace_path(f) {
                Ok(_) => {},
                Err(why) => {
                    return Err(why);
                },
            },
        }
        self.start_blank_session(None);
        Ok(())
    }

    pub fn remote_select_workspace(&mut self, folder: Result<Folder, String>) -> (r: Result<
        (),
        String,
    >)
        ensures
            (final(self)@, err_of(r)) == blank_in(old(self)@, Some(folder)),
    {
        self.remote_start_blank_session(Some(folder))
    }
}

/// What the store made of archiving a workspace: the workspace that is current now, or why not.
#[derive(Debug)]
pub struct ArchivedWorkspace {
    pub stored: Result<Workspace, String>,
    /// The folder of that workspace, where it could be entered.
    pub fallback: Option<Folder>,
}

/// The archived workspace left for another, where there is one.
pub open spec fn workspace_left(
    a: AppView,
    path: Seq<char>,
    now: WorkspaceView,
    fallback: Option<Folder>,
) -> AppView {
    let b = answers::session_left(a);
    if now.path != path && !text::is_blank(now.path) {
        match fallback {
            Some(f) => folder_entered(b, f),
            None => b,
        }
    } else {
        b
    }
}

/// A workspace archived; the active one is left.
pub open spec fn workspace_archived(a: AppView, raw: Seq<char>, done: ArchivedWorkspace) -> (
    AppView,
    Option<Seq<char>>,
) {
    if text::is_blank(raw) {
        (a, Some("workspace path cannot be empty"@))
    } else {
        match done.stored {
            Err(why) => (a, Some(why@)),
            Ok(w) => {
                let b = AppView { workspace: w@, ..a };
                (
                    app::relisted(
                        if workspace_path(a) == text::trim(raw) {
                            workspace_left(b, text::trim(raw), w@, done.fallback)
                        } else {
                            b
                        },
                    ),
                    None,
                )
            },
        }
    }
}

impl App {
    fn leave_workspace(&mut self, path: &str, fallback: Option<Folder>)
        ensures
            final(self)@ == workspace_left(old(self)@, path@, old(self)@.workspace, fallback),
    {
        let elsewhere = !text::same(self.workspace.path.as_str(), path) && !text::blank(
            self.workspace.path.as_str(),
        );
        self.leave_session();
        if !elsewhere {
            return ;
        }
        match fallback {
            Some(f) => {
                let _ = self.set_remote_workspace_path(f);
            },
            None => {},
        }
    }

    pub fn remote_archive_workspace(&mut self, raw: &str, done: ArchivedWorkspace) -> (r: Result<
        (),
        String,
    >)
        ensures
            (final(self)@, err_of(r)) == workspace_archived(old(self)@, raw@, done),
    {
        let path = text::trimmed(raw);
        if path.as_str().is_empty() {
            return Err("workspace path cannot be empty".to_string());
        }
        let active = text::same(self.remote_workspace_path().as_str(), path.as_str());
        match done.stored {
            Err(why) => {
                return Err(why);
            },
            Ok(w) => {
                self.workspace = w;
            },
        }
        if active {
            self.leave_workspace(path.as_str(), done.fallback);
        }
        self.refresh_sessions_dialog();
        Ok(())
    }
}

/// A path from a remote client always comes out absolute when the folder so far is: "~" is the
/// user's own folder and everything else is seen from the current one.
pub proof fn law_meant_folders_are_absolute(a: AppView, raw: Seq<char>, home: Option<Seq<char>>)
    requires
        is_absolute(workspace_path(a)),
        !text::is_blank(raw),
    ensures
        folder_meant(a, raw, home) matches Some(path) && is_absolute(path),
{
    let base = workspace_path(a);
    let path = expanded(text::trim(raw), home);
    assert(joined(base, path)[0] == if is_absolute(path) {
        path[0]
    } else {
        base[0]
    });
}

/// A refused folder leaves everything as it was.
pub proof fn law_refused_folders_change_nothing(a: AppView, why: String)
    ensures
        blank_in(a, Some(Err(why))) == (a, Some(why@)),
{
}

} // verus!
