//! Pasted text: too much of it, paths of images, or text for whatever has the keyboard.

use crate::app;
use crate::app::{App, AppView};
use crate::dialogs;
use crate::focus::OverlayFocus;
use crate::keys;
use crate::navigation;
use crate::state::{Input, InputView, ToastLevel};
use crate::text;
use vstd::prelude::*;
use vstd::string::*;

verus! {

/// The most bytes that are taken in one paste.
pub const MAX_PASTE_SIZE: usize = 20_971_520;

/// What the caller found in a pasted text.
#[derive(Debug, Clone, Copy, PartialEq, Eq, Structural)]
pub struct PastedImages {
    /// How many paths of images it holds.
    pub count: usize,
    /// The text as a whole is the path of an image.
    pub exact: bool,
}

/// What the caller does next with a pasted text.
#[derive(Debug, Clone, Copy, PartialEq, Eq, Structural)]
pub enum PasteNext {
    Done,
    /// Attach the images to the prompt, then finish with `finish_image_paste`.
    Attach,
    /// Put the text into the prompt, then finish with `finish_paste`.
    Prompt,
    /// Hand the text to the overlay that has the keyboard.
    Overlay,
}

/// The words of a text as a shell would read them; nothing for an unfinished quotation.
pub uninterp spec fn shell_words(text: Seq<char>) -> Option<Seq<Seq<char>>>;

pub open spec fn opt_words(words: Option<Vec<String>>) -> Option<Seq<Seq<char>>> {
    match words {
        Some(v) => Some(text::views(v@)),
        None => None,
    }
}

/// `shlex::split`: the words of the text by the rules of a POSIX shell, or nothing where the text
/// ends inside a quotation or behind a backslash.
#[verifier::external_body]
pub(crate) fn split_words(text: &str) -> (r: Option<Vec<String>>)
    ensures
        opt_words(r) == shell_words(text@),
{
    shlex::split(text)
}

/// How many of the words hold more than white space.
pub open spec fn filled_words(words: Seq<Seq<char>>) -> nat
    decreases words.len(),
{
    if words.len() == 0 {
        0
    } else {
        filled_words(words.drop_last()) + if text::is_blank(words.last()) {
            0nat
        } else {
            1nat
        }
    }
}

/// How many things a text names: its words, or its lines where it has no words.
pub open spec fn token_count(t: Seq<char>, words: Option<Seq<Seq<char>>>) -> nat {
    match words {
        Some(parts) => filled_words(parts),
        None => text::filled_line_count(t),
    }
}

/// A text stands for images when it names nothing else.
pub open spec fn is_all_images(
    t: Seq<char>,
    words: Option<Seq<Seq<char>>>,
    images: PastedImages,
) -> bool {
    images.count > 0 && (images.exact || token_count(t, words) == images.count)
}

pub open spec fn byte_size(t: Seq<char>) -> usize {
    vstd::utf8::encode_utf8(t).len() as usize
}

pub open spec fn too_large_text(size: usize) -> Seq<char> {
    "Paste content too large ("@ + text::decimal((size / 1024 / 1024) as nat)
        + "MB). Maximum is 20MB."@
}

/// The overlay has a field that takes text.
pub open spec fn takes_text(overlay: OverlayFocus) -> bool {
    match overlay {
        OverlayFocus::AgentsDialog => true,
        OverlayFocus::ModelsDialog => true,
        OverlayFocus::ThemesDialog => true,
        OverlayFocus::ConnectDialog => true,
        OverlayFocus::SessionsDialog => true,
        OverlayFocus::SkillsDialog => true,
        OverlayFocus::CommandPalette => true,
        OverlayFocus::FindBar => true,
        OverlayFocus::SessionRenameDialog => true,
        OverlayFocus::ApiKeyInput => true,
        OverlayFocus::QuestionDialog => true,
        OverlayFocus::TerminalSessionDialog => true,
        OverlayFocus::RemoteDialog => true,
        _ => false,
    }
}

/// A paste over the prompt; the prompt of a child session takes none.
pub open spec fn prompt_pasted(
    a: AppView,
    t: Seq<char>,
    words: Option<Seq<Seq<char>>>,
    images: PastedImages,
) -> (AppView, PasteNext) {
    if navigation::in_child(a) {
        (
            if a.overlay_focus == OverlayFocus::SuggestionsPopup {
                dialogs::suggestions_blurred(a)
            } else {
                a
            },
            PasteNext::Done,
        )
    } else if is_all_images(t, words, images) {
        (a, PasteNext::Attach)
    } else {
        (a, PasteNext::Prompt)
    }
}

/// A paste, for the given words of the text.
pub open spec fn pasted(
    a: AppView,
    t: Seq<char>,
    words: Option<Seq<Seq<char>>>,
    images: PastedImages,
) -> (AppView, PasteNext) {
    let b = AppView { last_user_activity: a.now, ..a };
    if byte_size(t) > MAX_PASTE_SIZE {
        (app::toasted(b, ToastLevel::Warning, too_large_text(byte_size(t)), 0), PasteNext::Done)
    } else if keys::at_prompt(b) {
        prompt_pasted(b, t, words, images)
    } else if takes_text(b.overlay_focus) {
        (b, PasteNext::Overlay)
    } else {
        (b, PasteNext::Done)
    }
}

pub open spec fn attached_text(count: usize) -> Seq<char> {
    if count == 1 {
        "Attached image"@
    } else {
        "Attached "@ + text::decimal(count as nat) + " images"@
    }
}

/// The prompt with images attached; the popup shows if there is anything to suggest.
pub open spec fn images_attached(
    a: AppView,
    input: InputView,
    suggestions: bool,
    count: usize,
) -> AppView {
    app::toasted(
        keys::with_suggestions(AppView { input, ..a }, suggestions),
        ToastLevel::Info,
        attached_text(count),
        0,
    )
}

/// The prompt with text pasted in; only an open popup is brought up to date.
pub open spec fn text_put_in(a: AppView, input: InputView, suggestions: bool) -> AppView {
    if a.overlay_focus == OverlayFocus::SuggestionsPopup {
        keys::with_suggestions(AppView { input, ..a }, suggestions)
    } else {
        AppView { input, ..a }
    }
}

pub fn count_filled_words(words: &Vec<String>) -> (r: usize)
    ensures
        r == filled_words(text::views(words@)),
{
    let mut n: usize = 0;
    let ghost all = text::views(words@);
    for i in 0..words.len()
        invariant
            all == text::views(words@),
            n <= i,
            n == filled_words(all.take(i as int)),
    {
        assert(all.take(i + 1).drop_last() =~= all.take(i as int));
        if !text::blank(words[i].as_str()) {
            n += 1;
        }
    }
    assert(all.take(words@.len() as int) =~= all);
    n
}

/// Whether a text of these words stands for images alone.
pub fn stands_for_images(t: &str, words: &Option<Vec<String>>, images: PastedImages) -> (r: bool)
    ensures
        r == is_all_images(t@, opt_words(*words), images),
{
    if images.count == 0 {
        return false;
    }
    if images.exact {
        return true;
    }
    match words {
        Some(parts) => count_filled_words(parts) == images.count,
        None => text::count_filled_lines(t) == images.count,
    }
}

fn say_too_large(size: usize) -> (r: String)
    ensures
        r@ == too_large_text(size),
{
    let mut t = "Paste content too large (".to_string();
    t.append(text::decimal_of(size / 1024 / 1024).as_str());
    t.append("MB). Maximum is 20MB.");
    t
}

fn say_attached(count: usize) -> (r: String)
    ensures
        r@ == attached_text(count),
{
    if count == 1 {
        "Attached image".to_string()
    } else {
        let mut t = "Attached ".to_string();
        t.append(text::decimal_of(count).as_str());
        t.append(" images");
        t
    }
}

fn overlay_takes_text(overlay: OverlayFocus) -> (r: bool)
    ensures
        r == takes_text(overlay),
{
    match overlay {
        OverlayFocus::AgentsDialog => true,
        OverlayFocus::ModelsDialog => true,
        OverlayFocus::ThemesDialog => true,
        OverlayFocus::ConnectDialog => true,
        OverlayFocus::SessionsDialog => true,
        OverlayFocus::SkillsDialog => true,
        OverlayFocus::CommandPalette => true,
        OverlayFocus::FindBar => true,
        OverlayFocus::SessionRenameDialog => true,
        OverlayFocus::ApiKeyInput => true,
        OverlayFocus::QuestionDialog => true,
        OverlayFocus::TerminalSessionDialog => true,
        OverlayFocus::RemoteDialog => true,
        _ => false,
    }
}

impl App {
    fn paste_into_prompt(
        &mut self,
        t: &str,
        words: &Option<Vec<String>>,
        images: PastedImages,
    ) -> (r: PasteNext)
        ensures
            (final(self)@, r) == prompt_pasted(old(self)@, t@, opt_words(*words), images),
    {
        if self.is_subagent_session_active() {
            if self.overlay_focus == OverlayFocus::SuggestionsPopup {
                self.clear_suggestions_and_blur();
            }
            return PasteNext::Done;
        }
        if stands_for_images(t, words, images) {
            PasteNext::Attach
        } else {
            PasteNext::Prompt
        }
    }

    /// Takes a paste whose words are known.
    pub fn take_paste(&mut self, t: &str, words: &Option<Vec<String>>, images: PastedImages) -> (r:
        PasteNext)
        ensures
            (final(self)@, r) == pasted(old(self)@, t@, opt_words(*words), images),
    {
        self.note_user_activity();
        let size: usize = t.len();
        if size > MAX_PASTE_SIZE {
            self.push_toast(ToastLevel::Warning, say_too_large(size).as_str(), 0);
            return PasteNext::Done;
        }
        if self.overlay_focus == OverlayFocus::Nothing || self.overlay_focus
            == OverlayFocus::SuggestionsPopup {
            return self.paste_into_prompt(t, words, images);
        }
        if overlay_takes_text(self.overlay_focus) {
            PasteNext::Overlay
        } else {
            PasteNext::Done
        }
    }

    /// Takes a paste.
    pub fn handle_paste(&mut self, t: &str, images: PastedImages) -> (r: PasteNext)
        ensures
            (final(self)@, r) == pasted(old(self)@, t@, shell_words(t@), images),
    {
        let words = split_words(t);
        self.take_paste(t, &words, images)
    }

    /// Goes on once the caller has attached pasted images to the prompt.
    pub fn finish_image_paste(&mut self, input: Input, suggestions: bool, count: usize)
        ensures
            final(self)@ == images_attached(old(self)@, input@, suggestions, count),
    {
        self.input = input;
        self.set_suggestions(suggestions);
        self.push_toast(ToastLevel::Info, say_attached(count).as_str(), 0);
    }

    /// Goes on once the caller has put pasted text into the prompt.
    pub fn finish_paste(&mut self, input: Input, suggestions: bool)
        ensures
            final(self)@ == text_put_in(old(self)@, input@, suggestions),
    {
        self.input = input;
        if self.overlay_focus == OverlayFocus::SuggestionsPopup {
            self.set_suggestions(suggestions);
        }
    }

    /// Goes on once the caller has pasted into the search of the themes: the theme under the
    /// cursor is tried on.
    pub fn finish_theme_paste(&mut self, selected: Option<String>)
        ensures
            final(self)@ == match selected {
                Some(id) => dialogs::with_themes(
                    old(self)@,
                    dialogs::theme_previewed(old(self)@.ui.themes, id@),
                ),
                None => old(self)@,
            },
    {
        match selected {
            Some(id) => self.preview_theme_by_id(id.as_str()),
            None => {},
        }
    }
}

/// A paste that is too large changes nothing but the notice and the time of the last activity.
pub proof fn law_large_pastes_are_refused(
    a: AppView,
    t: Seq<char>,
    words: Option<Seq<Seq<char>>>,
    images: PastedImages,
)
    requires
        byte_size(t) > MAX_PASTE_SIZE,
    ensures
        pasted(a, t, words, images).1 == PasteNext::Done,
        pasted(a, t, words, images).0 == (AppView {
            last_user_activity: a.now,
            effects: pasted(a, t, words, images).0.effects,
            ..a
        }),
        pasted(a, t, words, images).0.effects.len() == a.effects.len() + 1,
{
}

/// Nothing is pasted into the prompt of a child session.
pub proof fn law_child_sessions_take_no_paste(
    a: AppView,
    t: Seq<char>,
    words: Option<Seq<Seq<char>>>,
    images: PastedImages,
)
    requires
        navigation::in_child(a),
        keys::at_prompt(a),
    ensures
        pasted(a, t, words, images).1 == PasteNext::Done,
        pasted(a, t, words, images).0.input == a.input,
{
}

} // verus!
