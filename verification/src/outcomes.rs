//! How what was asked of the machine has ended, and what the user is told of it.

use crate::app;
use crate::app::{App, AppView};
use crate::chunks::ChunkMessage;
use crate::keys;
use crate::state::{Input, InputView, SoundEvent, ToastLevel};
use crate::text;
use crate::workspace;
use vstd::prelude::*;
use vstd::string::*;

verus! {

fn explain(what: &str, why: &String) -> (r: String)
    ensures
        r@ == what@ + why@,
{
    let mut t = what.to_owned();
    t.append(why.as_str());
    t
}

/// Text put on the clipboard. Where there is nothing to say of it, nothing is said.
pub open spec fn copy_told(a: AppView, done: Seq<char>, failure: Option<Seq<char>>) -> AppView {
    if done.len() == 0 {
        a
    } else {
        match failure {
            None => app::toasted(a, ToastLevel::Info, done, 0),
            Some(why) => app::toasted(
                app::sounded(a, SoundEvent::Error),
                ToastLevel::Error,
                "Failed to copy: "@ + why,
                3,
            ),
        }
    }
}

pub open spec fn link_told(a: AppView, done: Seq<char>, failure: Option<Seq<char>>) -> AppView {
    match failure {
        None => app::toasted(a, ToastLevel::Info, done, 0),
        Some(why) => app::toasted(a, ToastLevel::Error, "Failed to copy link: "@ + why, 0),
    }
}

/// What a click in the transcript opens.
#[derive(Debug, Clone, Copy, PartialEq, Eq, Structural)]
pub enum TargetKind {
    Image,
    File,
    Link,
}

pub open spec fn open_failure(kind: TargetKind) -> Seq<char> {
    match kind {
        TargetKind::Image => "Failed to open image: "@,
        TargetKind::File => "Failed to open file: "@,
        TargetKind::Link => "Failed to open link: "@,
    }
}

pub open spec fn open_told(
    a: AppView,
    kind: TargetKind,
    label: Seq<char>,
    failure: Option<Seq<char>>,
) -> AppView {
    match failure {
        None => app::toasted(a, ToastLevel::Info, "Opened "@ + label, 0),
        Some(why) => app::toasted(a, ToastLevel::Error, open_failure(kind) + why, 0),
    }
}

pub open spec fn folder_told(a: AppView, path: Seq<char>, failure: Option<Seq<char>>) -> AppView {
    match failure {
        None => app::toasted(a, ToastLevel::Info, "Opened "@ + path, 2),
        Some(why) => app::toasted(
            a,
            ToastLevel::Error,
            "Failed to open storage folder: "@ + why,
            3,
        ),
    }
}

/// An image from the clipboard: the prompt with it, or why there is none.
pub open spec fn image_told(
    a: AppView,
    result: Result<(InputView, bool), Seq<char>>,
) -> AppView {
    match result {
        Ok((input, suggestions)) => app::toasted(
            keys::with_suggestions(AppView { input, ..a }, suggestions),
            ToastLevel::Info,
            "Attached image from clipboard"@,
            0,
        ),
        Err(why) => app::toasted(
            a,
            ToastLevel::Warning,
            "Clipboard image paste failed: "@ + why,
            0,
        ),
    }
}

impl App {
    pub fn finish_copy(&mut self, done: &str, result: Result<(), String>)
        ensures
            final(self)@ == copy_told(old(self)@, done@, workspace::err_of(result)),
    {
        if done.is_empty() {
            return ;
        }
        match result {
            Ok(_) => self.push_toast(ToastLevel::Info, done, 0),
            Err(why) => {
                self.play_sound_event(SoundEvent::Error);
                self.push_toast(ToastLevel::Error, explain("Failed to copy: ", &why).as_str(), 3);
            },
        }
    }

    pub fn finish_copy_link(&mut self, done: &str, result: Result<(), String>)
        ensures
            final(self)@ == link_told(old(self)@, done@, workspace::err_of(result)),
    {
        match result {
            Ok(_) => self.push_toast(ToastLevel::Info, done, 0),
            Err(why) => {
                let t = explain("Failed to copy link: ", &why);
                self.push_toast(ToastLevel::Error, t.as_str(), 0);
            },
        }
    }

    /// An image, a file or a link that was to be opened.
    pub fn finish_open_target(&mut self, kind: TargetKind, label: &str, result: Result<(), String>)
        ensures
            final(self)@ == open_told(old(self)@, kind, label@, workspace::err_of(result)),
    {
        match result {
            Ok(_) => {
                let mut t = "Opened ".to_string();
                t.append(label);
                self.push_toast(ToastLevel::Info, t.as_str(), 0);
            },
            Err(why) => {
                let t = match kind {
                    TargetKind::Image => explain("Failed to open image: ", &why),
                    TargetKind::File => explain("Failed to open file: ", &why),
                    TargetKind::Link => explain("Failed to open link: ", &why),
                };
                self.push_toast(ToastLevel::Error, t.as_str(), 0);
            },
        }
    }

    /// A folder of the storage that was to be opened.
    pub fn finish_open_folder(&mut self, path: &str, result: Result<(), String>)
        ensures
            final(self)@ == folder_told(old(self)@, path@, workspace::err_of(result)),
    {
        match result {
            Ok(_) => {
                let mut t = "Opened ".to_string();
                t.append(path);
                self.push_toast(ToastLevel::Info, t.as_str(), 2);
            },
            Err(why) => {
                let t = explain("Failed to open storage folder: ", &why);
                self.push_toast(ToastLevel::Error, t.as_str(), 3);
            },
        }
    }

    /// An image that was to be taken from the clipboard; the caller hands in the prompt with it,
    /// and whether there is anything to suggest.
    pub fn finish_clipboard_image(&mut self, result: Result<(Input, bool), String>)
        ensures
            final(self)@ == image_told(
                old(self)@,
                match result {
                    Ok((input, suggestions)) => Ok((input@, suggestions)),
                    Err(why) => Err(why@),
                },
            ),
    {
        match result {
            Ok((input, suggestions)) => {
                self.input = input;
                self.set_suggestions(suggestions);
                self.push_toast(ToastLevel::Info, "Attached image from clipboard", 0);
            },
            Err(why) => {
                let t = explain("Clipboard image paste failed: ", &why);
                self.push_toast(ToastLevel::Warning, t.as_str(), 0);
            },
        }
    }
}

/// How the task of a turn has ended.
#[derive(Debug)]
pub enum TurnResult {
    Done,
    Failed { error: String },
    /// Nothing came in this many milliseconds.
    TimedOut { limit: u64 },
}

/// The error that the end of a turn's task stands for, if it is one.
pub open spec fn turn_error(result: TurnResult) -> Option<Seq<char>> {
    match result {
        TurnResult::Done => None,
        TurnResult::Failed { error } => Some(error@),
        TurnResult::TimedOut { limit } => Some(
            "Timeout: No response within "@ + text::decimal(limit as nat) + " ms"@,
        ),
    }
}

/// The last event of a turn.
pub fn turn_outcome(result: TurnResult) -> (r: ChunkMessage)
    ensures
        match turn_error(result) {
            None => r is End,
            Some(error) => r matches ChunkMessage::Failed(told) && told@ == error,
        },
{
    match result {
        TurnResult::Done => ChunkMessage::End,
        TurnResult::Failed { error } => ChunkMessage::Failed(error),
        TurnResult::TimedOut { limit } => {
            let mut t = "Timeout: No response within ".to_string();
            t.append(text::decimal_of_long(limit).as_str());
            t.append(" ms");
            ChunkMessage::Failed(t)
        },
    }
}

/// The last events of a task that an agent was given by name: what it found, and the end.
pub fn mention_outcome(result: Result<String, String>) -> (r: Vec<ChunkMessage>)
    ensures
        match result {
            Ok(output) => r@.len() == 2 && (r@[0] matches ChunkMessage::Text(t) && t@ == output@)
                && r@[1] is End,
            Err(error) => r@.len() == 1 && (r@[0] matches ChunkMessage::Failed(told) && told@
                == error@),
        },
{
    let mut out: Vec<ChunkMessage> = Vec::new();
    match result {
        Ok(output) => {
            out.push(ChunkMessage::Text(output));
            out.push(ChunkMessage::End);
        },
        Err(error) => {
            out.push(ChunkMessage::Failed(error));
        },
    }
    out
}

/// What the task of an agent that was mentioned is called.
pub fn mention_description(agent: &str) -> (r: String)
    ensures
        r@ == agent@ + " mention"@,
{
    let mut t = agent.to_owned();
    t.append(" mention");
    t
}

} // verus!
