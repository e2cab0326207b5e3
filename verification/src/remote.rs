//! What a remote client may ask for.

use crate::agents;
use crate::agents::{AgentDefinition, AgentMode, AgentView};
use crate::answers;
use crate::app;
use crate::app::{App, AppView};
use crate::catalog;
use crate::catalog::{ModelInfo, ModelPrefs, ModelRef};
use crate::commands;
use crate::commands::{CommandFacts, FactsView, InputType, InputTypeView};
use crate::dialogs;
use crate::focus::{BaseFocus, OverlayFocus};
use crate::keys;
use crate::prompting;
use crate::queue;
use crate::queue::{QueuedItem, QueuedMessageView, QueuedView};
use crate::reasoning;
use crate::reasoning::ReasoningEffort;
use crate::session;
use crate::state;
use crate::state::{ClientSessionState, Effect, EffectView};
use crate::stream;
use crate::text;
use crate::titles;
use crate::turns;
use crate::ui;
use crate::ui::DialogItem;
use crate::workspace;
use crate::workspace::Folder;
use vstd::prelude::*;
use vstd::string::*;

verus! {

pub open spec fn outcome(r: Result<String, String>) -> Result<Seq<char>, Seq<char>> {
    match r {
        Ok(s) => Ok(s@),
        Err(s) => Err(s@),
    }
}

/// Why a remote client's input is refused before anything happens.
pub open spec fn refusal(
    a: AppView,
    prompt: Seq<char>,
    images: nat,
    input: InputTypeView,
    f: FactsView,
) -> Option<Seq<char>> {
    if text::is_blank(prompt) {
        Some("prompt cannot be empty"@)
    } else {
        match input {
            InputTypeView::Command(c) => if images > 0 {
                Some("Images can only be attached to chat prompts"@)
            } else {
                match f.canonical {
                    None => Some("Unknown command: "@ + c.name),
                    Some(name) => if titles::is_browser_unsupported(name) {
                        Some("Command /"@ + name + " is not available in the browser UI"@)
                    } else if a.base_focus != BaseFocus::Chat && f.chat_only {
                        Some("Command /"@ + name + " requires an active chat"@)
                    } else {
                        None
                    },
                }
            },
            _ => None,
        }
    }
}

/// The current session kept track of.
pub open spec fn ready(a: AppView) -> AppView {
    match a.current {
        Some(id) => app::ensured(a, id),
        None => a,
    }
}

/// What the input does.
pub open spec fn taken(
    a: AppView,
    input: InputTypeView,
    images: Seq<Seq<char>>,
    f: FactsView,
    allowed: bool,
) -> AppView {
    match input {
        InputTypeView::Command(c) => commands::commanded(a, c, f),
        InputTypeView::Message(m) => prompting::message_sent(a, m, images),
        InputTypeView::AgentMention(m) => prompting::mentioned(a, m, images, allowed),
    }
}

pub open spec fn streams_now(a: AppView) -> bool {
    a.current matches Some(id) && app::streams(a, id)
}

pub open spec fn current_or_none(a: AppView) -> Seq<char> {
    match a.current {
        Some(id) => id,
        None => ""@,
    }
}

/// What the client is told once its input has been taken: the session, or what did not start.
pub open spec fn reply(a: AppView, input: InputTypeView) -> Result<Seq<char>, Seq<char>> {
    match input {
        InputTypeView::Command(_) => Ok(current_or_none(a)),
        InputTypeView::Message(_) => if a.current is None {
            Err("failed to create or select a session"@)
        } else if !streams_now(a) {
            Err("failed to start generation"@)
        } else {
            Ok(current_or_none(a))
        },
        InputTypeView::AgentMention(m) => if text::is_blank(m.prompt) {
            Err("Usage: @"@ + m.agent + " <task>"@)
        } else if !streams_now(a) {
            Err("failed to start @"@ + m.agent + " agent"@)
        } else {
            Ok(current_or_none(a))
        },
    }
}

/// A remote client's input: refused, queued behind the running turn, or taken.
pub open spec fn submitted(
    a: AppView,
    prompt: Seq<char>,
    images: Seq<Seq<char>>,
    input: InputTypeView,
    f: FactsView,
    allowed: bool,
) -> (AppView, Result<Seq<char>, Seq<char>>) {
    let p = queue::with_placeholders(prompt, images.len());
    match refusal(a, p, images.len(), input, f) {
        Some(why) => (a, Err(why)),
        None => {
            let b = ready(a);
            if input is Message && b.is_streaming && keys::can_queue(b) {
                (
                    stream::queued(
                        b,
                        QueuedView::Message(QueuedMessageView { text: p, image_paths: images }),
                    ),
                    Ok(current_or_none(b)),
                )
            } else if input is AgentMention && b.is_streaming {
                (b, Err("Cannot start @"@ + input->AgentMention_0.agent + " while streaming"@))
            } else {
                let c = taken(b, input, images, f, allowed);
                (c, reply(c, input))
            }
        },
    }
}

fn between(front: &str, middle: &str, back: &str) -> (r: String)
    ensures
        r@ == front@ + middle@ + back@,
{
    let mut t = front.to_owned();
    t.append(middle);
    t.append(back);
    t
}

impl App {
    fn refuse_remote_input(
        &self,
        prompt: &str,
        images: usize,
        input: &InputType,
        f: &CommandFacts,
    ) -> (r: Option<String>)
        ensures
            text::opt_view(r) == refusal(self@, prompt@, images as nat, input@, f@),
    {
        if text::blank(prompt) {
            return Some("prompt cannot be empty".to_string());
        }
        match input {
            InputType::Command(c) => {
                if images > 0 {
                    return Some("Images can only be attached to chat prompts".to_string());
                }
                match &f.canonical {
                    None => {
                        let mut t = "Unknown command: ".to_string();
                        t.append(c.name.as_str());
                        Some(t)
                    },
                    Some(name) => if titles::is_remote_browser_unsupported_command(name.as_str()) {
                        Some(
                            between(
                                "Command /",
                                name.as_str(),
                                " is not available in the browser UI",
                            ),
                        )
                    } else if self.base_focus != BaseFocus::Chat && f.chat_only {
                        Some(between("Command /", name.as_str(), " requires an active chat"))
                    } else {
                        None
                    },
                }
            },
            _ => None,
        }
    }

    fn make_ready(&mut self)
        ensures
            final(self)@ == ready(old(self)@),
    {
        match text::copy_opt(&self.current) {
            Some(id) => {
                self.ensure_session_view_state(id.as_str());
            },
            None => {},
        }
    }

    fn current_streams(&self) -> (r: bool)
        ensures
            r == streams_now(self@),
    {
        match &self.current {
            Some(id) => self.session_has_active_stream(id.as_str()),
            None => false,
        }
    }

    fn current_name(&self) -> (r: String)
        ensures
            r@ == current_or_none(self@),
    {
        match &self.current {
            Some(id) => id.clone(),
            None => "".to_string(),
        }
    }

    fn submit_remote_command(&mut self, c: commands::ParsedCommand, f: &CommandFacts) -> (r: Result<
        String,
        String,
    >)
        ensures
            final(self)@ == commands::commanded(old(self)@, c@, f@),
            outcome(r) == reply(final(self)@, InputTypeView::Command(c@)),
    {
        self.process_command_input(c, f);
        Ok(self.current_name())
    }

    fn reply_to_message(&self, m: &str) -> (r: Result<String, String>)
        ensures
            outcome(r) == reply(self@, InputTypeView::Message(m@)),
    {
        if self.current.is_none() {
            return Err("failed to create or select a session".to_string());
        }
        if !self.current_streams() {
            return Err("failed to start generation".to_string());
        }
        Ok(self.current_name())
    }

    fn submit_remote_message(&mut self, prompt: String, m: &str, images: Vec<String>) -> (r: Result<
        String,
        String,
    >)
        ensures
            ({
                let b = old(self)@;
                if b.is_streaming && keys::can_queue(b) {
                    final(self)@ == stream::queued(
                        b,
                        QueuedView::Message(
                            QueuedMessageView {
                                text: prompt@,
                                image_paths: text::views(images@),
                            },
                        ),
                    ) && outcome(r) == Ok::<Seq<char>, Seq<char>>(current_or_none(b))
                } else {
                    final(self)@ == prompting::message_sent(b, m@, text::views(images@))
                        && outcome(r) == reply(final(self)@, InputTypeView::Message(m@))
                }
            }),
    {
        if self.is_streaming && self.can_queue_message() {
            let id = self.current_name();
            self.queue_message_for_current_session(prompt, images);
            return Ok(id);
        }
        self.handle_message_input_with_images(m, &images);
        self.reply_to_message(m)
    }

    fn reply_to_mention(&self, m: &prompting::AgentMention) -> (r: Result<String, String>)
        ensures
            outcome(r) == reply(self@, InputTypeView::AgentMention(m@)),
    {
        if text::blank(m.prompt.as_str()) {
            return Err(between("Usage: @", m.agent.as_str(), " <task>"));
        }
        if !self.current_streams() {
            return Err(between("failed to start @", m.agent.as_str(), " agent"));
        }
        Ok(self.current_name())
    }

    fn submit_remote_mention(
        &mut self,
        m: prompting::AgentMention,
        images: &Vec<String>,
        allowed: bool,
    ) -> (r: Result<String, String>)
        ensures
            ({
                let b = old(self)@;
                if b.is_streaming {
                    final(self)@ == b && outcome(r) == Err::<Seq<char>, Seq<char>>(
                        "Cannot start @"@ + m@.agent + " while streaming"@,
                    )
                } else {
                    final(self)@ == prompting::mentioned(b, m@, text::views(images@), allowed)
                        && outcome(r) == reply(final(self)@, InputTypeView::AgentMention(m@))
                }
            }),
    {
        if self.is_streaming {
            return Err(between("Cannot start @", m.agent.as_str(), " while streaming"));
        }
        self.handle_agent_mention_input(&m, images, allowed);
        self.reply_to_mention(&m)
    }

    /// Takes input from a remote client. `input` is what the prompt says once every image has its
    /// placeholder in it.
    pub fn remote_submit_input_with_images(
        &mut self,
        prompt: String,
        images: Vec<String>,
        input: InputType,
        f: &CommandFacts,
        allowed: bool,
    ) -> (r: Result<String, String>)
        ensures
            (final(self)@, outcome(r)) == submitted(
                old(self)@,
                prompt@,
                text::views(images@),
                input@,
                f@,
                allowed,
            ),
    {
        let p = queue::remote_prompt_with_image_placeholders(prompt, images.len());
        assert(text::views(images@).len() == images@.len());
        match self.refuse_remote_input(p.as_str(), images.len(), &input, f) {
            Some(why) => {
                return Err(why);
            },
            None => {},
        }
        self.make_ready();
        match input {
            InputType::Command(c) => self.submit_remote_command(c, f),
            InputType::Message(m) => self.submit_remote_message(p, m.as_str(), images),
            InputType::AgentMention(m) => self.submit_remote_mention(m, &images, allowed),
        }
    }

    pub fn remote_submit_input(
        &mut self,
        prompt: String,
        input: InputType,
        f: &CommandFacts,
        allowed: bool,
    ) -> (r: Result<String, String>)
        ensures
            (final(self)@, outcome(r)) == submitted(
                old(self)@,
                prompt@,
                Seq::empty(),
                input@,
                f@,
                allowed,
            ),
    {
        let none: Vec<String> = Vec::new();
        assert(text::views(none@) =~= Seq::<Seq<char>>::empty());
        self.remote_submit_input_with_images(prompt, none, input, f, allowed)
    }
}

/// What is suggested to a remote client.
#[derive(Debug, Clone, Copy, PartialEq, Eq, Structural)]
pub enum SuggestionKind {
    Command,
    Agent,
    File,
}

#[derive(Debug)]
pub struct Suggestion {
    pub kind: SuggestionKind,
    pub name: String,
    pub description: String,
}

pub struct SuggestionView {
    pub kind: SuggestionKind,
    pub name: Seq<char>,
    pub description: Seq<char>,
}

impl View for Suggestion {
    type V = SuggestionView;

    open spec fn view(&self) -> SuggestionView {
        SuggestionView { kind: self.kind, name: self.name@, description: self.description@ }
    }
}

pub open spec fn suggestion_views(v: Seq<Suggestion>) -> Seq<SuggestionView> {
    v.map_values(|s: Suggestion| s@)
}

/// The suggestions that a browser can follow.
pub open spec fn browser_suggestions(v: Seq<SuggestionView>) -> Seq<SuggestionView> {
    v.filter(|s: SuggestionView| !titles::is_browser_unsupported(s.name))
}

/// The agents to mention whose name begins with what was typed.
pub open spec fn agents_like(v: Seq<AgentView>, query: Seq<char>) -> Seq<SuggestionView>
    decreases v.len(),
{
    if v.len() == 0 {
        Seq::empty()
    } else {
        let rest = agents_like(v.drop_last(), query);
        if agents::is_listed(v.last(), false) && text::lower_all(query).is_prefix_of(
            text::lower_all(v.last().name),
        ) {
            rest.push(
                SuggestionView {
                    kind: SuggestionKind::Agent,
                    name: v.last().name,
                    description: v.last().description,
                },
            )
        } else {
            rest
        }
    }
}

/// The suggestions for what was typed behind "/" or "@".
pub open spec fn suggestions(
    a: AppView,
    trigger: Seq<char>,
    query: Seq<char>,
    commands: Seq<SuggestionView>,
    files: Seq<SuggestionView>,
) -> Seq<SuggestionView> {
    if trigger == "slash"@ {
        browser_suggestions(commands)
    } else if trigger == "mention"@ {
        agents_like(a.agents, query) + files
    } else {
        Seq::empty()
    }
}

fn keep_browser_suggestions(all: Vec<Suggestion>) -> (r: Vec<Suggestion>)
    ensures
        suggestion_views(r@) == browser_suggestions(suggestion_views(all@)),
{
    let ghost every = suggestion_views(all@);
    let mut out: Vec<Suggestion> = Vec::new();
    proof {
        reveal(Seq::filter);
        assert(suggestion_views(out@) =~= browser_suggestions(every.take(0)));
    }
    for s in it: all
        invariant
            every == suggestion_views(all@),
            it.seq() == all@,
            suggestion_views(out@) == browser_suggestions(every.take(it.index() as int)),
    {
        proof {
            reveal(Seq::filter);
            assert(every.take(it.index() as int + 1).drop_last() =~= every.take(
                it.index() as int,
            ));
        }
        if !titles::is_remote_browser_unsupported_command(s.name.as_str()) {
            let ghost before = out@;
            out.push(s);
            assert(suggestion_views(out@) =~= suggestion_views(before).push(s@));
        }
    }
    assert(every.take(every.len() as int) =~= every);
    out
}

fn list_agents_like(v: &Vec<AgentDefinition>, query: &str) -> (r: Vec<Suggestion>)
    ensures
        suggestion_views(r@) == agents_like(agents::agents_view(v@), query@),
{
    let low = text::lowered(query);
    let ghost all = agents::agents_view(v@);
    let mut out: Vec<Suggestion> = Vec::new();
    assert(suggestion_views(out@) =~= agents_like(all.take(0), query@));
    for i in 0..v.len()
        invariant
            all == agents::agents_view(v@),
            low@ == text::lower_all(query@),
            suggestion_views(out@) == agents_like(all.take(i as int), query@),
    {
        proof {
            assert(all.take(i + 1).drop_last() =~= all.take(i as int));
            assert(all.take(i + 1).last() == v@[i as int]@);
        }
        let name = text::lowered(v[i].name.as_str());
        if !v[i].hidden && v[i].mode != AgentMode::Primary && text::starts_with(
            name.as_str(),
            low.as_str(),
        ) {
            let ghost before = out@;
            let s = Suggestion {
                kind: SuggestionKind::Agent,
                name: v[i].name.clone(),
                description: v[i].description.clone(),
            };
            out.push(s);
            assert(suggestion_views(out@) =~= suggestion_views(before).push(s@));
        }
    }
    assert(all.take(all.len() as int) =~= all);
    out
}

fn chain(front: Vec<Suggestion>, back: Vec<Suggestion>) -> (r: Vec<Suggestion>)
    ensures
        suggestion_views(r@) == suggestion_views(front@) + suggestion_views(back@),
{
    let mut out = front;
    for s in it: back
        invariant
            it.seq() == back@,
            out@ == front@ + back@.take(it.index() as int),
    {
        assert(back@.take(it.index() as int + 1) =~= back@.take(it.index() as int).push(s));
        out.push(s);
    }
    assert(back@.take(back@.len() as int) =~= back@);
    assert(suggestion_views(out@) =~= suggestion_views(front@) + suggestion_views(back@));
    out
}

impl App {
    pub fn remote_autocomplete_suggestions(
        &self,
        trigger: &str,
        query: &str,
        commands: Vec<Suggestion>,
        files: Vec<Suggestion>,
    ) -> (r: Vec<Suggestion>)
        ensures
            suggestion_views(r@) == suggestions(
                self@,
                trigger@,
                query@,
                suggestion_views(commands@),
                suggestion_views(files@),
            ),
    {
        if text::same(trigger, "slash") {
            return keep_browser_suggestions(commands);
        }
        if text::same(trigger, "mention") {
            return chain(list_agents_like(&self.agents, query), files);
        }
        let none: Vec<Suggestion> = Vec::new();
        assert(suggestion_views(none@) =~= Seq::<SuggestionView>::empty());
        none
    }

    pub fn remote_toggle_agent_mode(&mut self)
        ensures
            final(self)@ == dialogs::agent_toggled(old(self)@),
    {
        self.toggle_agent_mode();
    }

    pub fn remote_set_agent_mode(&mut self, name: &str) -> (r: bool)
        ensures
            r == (agents::primary_at(old(self)@.agents, text::trim(name@)) is Some),
            final(self)@ == dialogs::agent_set(old(self)@, name@),
    {
        self.set_agent_mode(name)
    }

    pub fn active_reasoning_effort_label(&self) -> (r: Option<String>)
        ensures
            text::opt_view(r) == effort_label(self@),
    {
        match self.reasoning.resolved_reasoning_effort_for_model(
            self.provider_name.as_str(),
            self.model.as_str(),
        ) {
            Some(e) => Some(e.as_str().to_string()),
            None => None,
        }
    }

    pub fn remote_reasoning_effort_options(&self) -> (r: Vec<String>)
        ensures
            text::views(r@) == effort_names(self@),
    {
        reasoning::effort_options(
            self.reasoning.reasoning_capability_for_model(
                self.provider_name.as_str(),
                self.model.as_str(),
            ),
        )
    }

    pub fn remote_reasoning_effort_label(&self) -> (r: Option<String>)
        ensures
            text::opt_view(r) == if effort_names(self@).len() == 0 {
                None
            } else {
                effort_label(self@)
            },
    {
        let options = self.remote_reasoning_effort_options();
        assert(text::views(options@).len() == options@.len());
        if options.len() == 0 {
            return None;
        }
        self.active_reasoning_effort_label()
    }

    fn asked_effort(&self, effort: &Option<String>) -> (r: (EffortChoice, String))
        ensures
            r.1@ == asked_word(text::opt_view(*effort)),
            r.0 == choice_for(self@, r.1@),
    {
        let word = match effort {
            Some(w) => text::trimmed(w.as_str()),
            None => String::new(),
        };
        (self.choose_effort_change(word.as_str()), word)
    }

    /// The effort that is to be remembered for the active model where a client asks for one by its
    /// name, if any; an effort of none takes the choice away.
    pub fn remote_effort_to_save(&self, effort: &Option<String>) -> (r: Option<
        Option<ReasoningEffort>,
    >)
        ensures
            r == match effort_change(self@, text::opt_view(*effort)) {
                EffortChange::To { effort } => Some(effort),
                _ => None,
            },
    {
        match self.asked_effort(effort).0 {
            EffortChoice::To(effort) => Some(effort),
            _ => None,
        }
    }

    /// Chooses an effort for the active model by its name; nothing or "off" takes the choice
    /// away. `saved` is what came of remembering it, where there is something to remember: where
    /// that failed, so does this, and the efforts stay as they are. Says whether the model can be
    /// asked for it.
    pub fn remote_set_reasoning_effort(
        &mut self,
        effort: Option<String>,
        saved: Result<(), String>,
    ) -> (r: Result<bool, String>)
        ensures
            match effort_change(old(self)@, text::opt_view(effort)) {
                EffortChange::Unknown { word } => r matches Err(e) && e@
                    == "unknown reasoning effort: "@ + word && final(self)@ == old(self)@,
                EffortChange::Refused => r == Ok::<bool, String>(false) && final(self)@ == old(
                    self,
                )@,
                EffortChange::To { effort } => match saved {
                    Ok(()) => r == Ok::<bool, String>(true) && final(self)@
                        == dialogs::effort_chosen(
                        old(self)@,
                        old(self)@.provider_name,
                        old(self)@.model,
                        effort,
                    ),
                    Err(why) => r == Err::<bool, String>(why) && final(self)@ == old(self)@,
                },
            },
    {
        let (choice, word) = self.asked_effort(&effort);
        match choice {
            EffortChoice::Refused => Ok(false),
            EffortChoice::Unknown => {
                let mut e = "unknown reasoning effort: ".to_string();
                e.append(word.as_str());
                Err(e)
            },
            EffortChoice::To(effort) => {
                let provider = self.provider_name.clone();
                let model = self.model.clone();
                self.finish_effort_saved(provider.as_str(), model.as_str(), effort, false, saved)
            },
        }
    }

    fn choose_effort_change(&self, word: &str) -> (r: EffortChoice)
        ensures
            r == choice_for(self@, word@),
    {
        let values = match self.reasoning.reasoning_capability_for_model(
            self.provider_name.as_str(),
            self.model.as_str(),
        ) {
            Some(values) => values,
            None => {
                return EffortChoice::Refused;
            },
        };
        let low = text::lowered(word);
        if word.is_empty() || text::same(low.as_str(), "off") {
            return EffortChoice::To(None);
        }
        match reasoning::parse_effort(word) {
            None => EffortChoice::Unknown,
            Some(e) => if reasoning::contains_effort(values, e) && e != ReasoningEffort::Off {
                EffortChoice::To(Some(e))
            } else {
                EffortChoice::Refused
            },
        }
    }
}

pub open spec fn effort_label(a: AppView) -> Option<Seq<char>> {
    match a.reasoning.resolved(a.provider_name, a.model) {
        Some(e) => Some(e.name()),
        None => None,
    }
}

pub open spec fn effort_names(a: AppView) -> Seq<Seq<char>> {
    reasoning::choice_names(
        reasoning::capability_of(a.reasoning.capabilities, a.provider_name, a.model),
    )
}

/// What a word asks of the active model.
#[derive(Debug, Clone, Copy, PartialEq, Eq, Structural)]
pub enum EffortChoice {
    Refused,
    Unknown,
    To(Option<ReasoningEffort>),
}

pub enum EffortChange {
    Refused,
    Unknown { word: Seq<char> },
    To { effort: Option<ReasoningEffort> },
}

pub open spec fn choice_for(a: AppView, word: Seq<char>) -> EffortChoice {
    match reasoning::capability_of(a.reasoning.capabilities, a.provider_name, a.model) {
        None => EffortChoice::Refused,
        Some(values) => if word.len() == 0 || text::lower_all(word) == "off"@ {
            EffortChoice::To(None)
        } else {
            match reasoning::effort_named(word) {
                None => EffortChoice::Unknown,
                Some(e) => if values.contains(e) && e != ReasoningEffort::Off {
                    EffortChoice::To(Some(e))
                } else {
                    EffortChoice::Refused
                },
            }
        },
    }
}

pub open spec fn asked_word(name: Option<Seq<char>>) -> Seq<char> {
    match name {
        Some(w) => text::trim(w),
        None => Seq::empty(),
    }
}

pub open spec fn effort_change(a: AppView, name: Option<Seq<char>>) -> EffortChange {
    let word = asked_word(name);
    match choice_for(a, word) {
        EffortChoice::Refused => EffortChange::Refused,
        EffortChoice::Unknown => EffortChange::Unknown { word },
        EffortChoice::To(effort) => EffortChange::To { effort },
    }
}

/// What waits for the current session, a line each.
pub open spec fn previews(a: AppView) -> Seq<Seq<char>> {
    match a.current {
        Some(id) => match state::client_at(a.clients, id) {
            Some(k) => a.clients[k].queued_items.map_values(|q: QueuedView| queue::preview_of(q)),
            None => Seq::empty(),
        },
        None => Seq::empty(),
    }
}

fn list_previews(items: &Vec<QueuedItem>) -> (r: Vec<String>)
    ensures
        text::views(r@) == queue::queue_view(items@).map_values(
            |q: QueuedView| queue::preview_of(q),
        ),
{
    let ghost all = queue::queue_view(items@).map_values(|q: QueuedView| queue::preview_of(q));
    let mut out: Vec<String> = Vec::new();
    assert(text::views(out@) =~= all.take(0));
    for i in 0..items.len()
        invariant
            all == queue::queue_view(items@).map_values(|q: QueuedView| queue::preview_of(q)),
            text::views(out@) == all.take(i as int),
    {
        let ghost before = out@;
        let line = items[i].preview();
        out.push(line);
        assert(text::views(out@) =~= text::views(before).push(line@));
        assert(all.take(i + 1) =~= all.take(i as int).push(line@));
    }
    assert(all.take(all.len() as int) =~= all);
    out
}

/// A session archived for a remote client.
pub open spec fn remote_archived(a: AppView, id: Seq<char>) -> AppView {
    let b = answers::archive_set(a, id, true);
    app::relisted(
        if app::is_current(a, id) {
            answers::session_left(b)
        } else {
            b
        },
    )
}

/// The application brought back after a client wanted to quit it.
pub open spec fn recovered(a: AppView) -> AppView {
    if a.current is None {
        AppView {
            running: true,
            last_user_activity: a.now,
            overlay_focus: OverlayFocus::Nothing,
            pending_session_title: None,
            suggestions: false,
            ..prompting::screen_cleared(a)
        }
    } else {
        AppView { running: true, ..a }
    }
}

/// Another session shown for a remote client, and its folder entered where that was possible.
pub open spec fn remote_switched(a: AppView, id: Seq<char>, folder: Option<Folder>) -> AppView {
    if !stream::exists_session(a, id) {
        a
    } else {
        match folder {
            Some(f) => workspace::folder_entered(stream::switched(a, id), f),
            None => stream::switched(a, id),
        }
    }
}

impl App {
    pub fn remote_queued_message_previews(&self) -> (r: Vec<String>)
        ensures
            text::views(r@) == previews(self@),
    {
        match &self.current {
            Some(id) => match state::find_client(&self.clients, id.as_str()) {
                Some(k) => {
                    return list_previews(&self.clients[k].queued_items);
                },
                None => {},
            },
            None => {},
        }
        let none: Vec<String> = Vec::new();
        assert(text::views(none@) =~= Seq::<Seq<char>>::empty());
        none
    }

    /// Stops the turn on the screen to send out what is queued; says whether that went out.
    pub fn remote_send_queued_now(&mut self) -> (r: bool)
        ensures
            match old(self)@.current {
                Some(id) => final(self)@ == turns::interrupted_for_queue(old(self)@, id) && r == (
                turns::can_interrupt_for_queue(old(self)@, id) && stream::can_submit(
                    turns::stopped_for_queue(old(self)@, id),
                    id,
                )),
                None => final(self)@ == old(self)@ && !r,
            },
    {
        match text::copy_opt(&self.current) {
            Some(id) => self.interrupt_streaming_to_send_queued_for_session(id.as_str()),
            None => false,
        }
    }

    /// Stops the turn on the screen; says whether there was one.
    pub fn remote_cancel_current(&mut self) -> (r: bool)
        ensures
            r == streams_now(old(self)@),
            final(self)@ == if r {
                turns::stream_cancelled(old(self)@, old(self)@.current->0)
            } else {
                old(self)@
            },
    {
        match text::copy_opt(&self.current) {
            Some(id) => {
                if !self.session_has_active_stream(id.as_str()) {
                    return false;
                }
                self.cancel_streaming_for_session(id.as_str());
                true
            },
            None => false,
        }
    }

    /// Archives a session, once the store has.
    pub fn remote_archive_session(&mut self, id: &str, stored: Result<(), String>) -> (r: Result<
        (),
        String,
    >)
        ensures
            workspace::err_of(r) == workspace::err_of(stored),
            final(self)@ == if stored is Ok {
                remote_archived(old(self)@, id@)
            } else {
                old(self)@
            },
    {
        match stored {
            Err(why) => {
                return Err(why);
            },
            Ok(_) => {},
        }
        let leaves = self.is_active_session(id);
        self.set_session_archived(id, true);
        if leaves {
            self.leave_session();
        }
        self.refresh_sessions_dialog();
        Ok(())
    }

    pub fn remote_switch_session(&mut self, id: &str, folder: Option<Folder>) -> (r: bool)
        ensures
            r == stream::exists_session(old(self)@, id@),
            final(self)@ == remote_switched(old(self)@, id@, folder),
    {
        if !self.switch_to_session(id) {
            return false;
        }
        match folder {
            Some(f) => {
                let _ = self.set_remote_workspace_path(f);
            },
            None => {},
        }
        true
    }

    /// The folder of a session, for the caller to enter before it shows that session.
    pub fn session_folder(&self, id: &str) -> (r: Option<String>)
        ensures
            text::opt_view(r) == match session::session_at(self@.sessions, id@) {
                Some(i) => workspace::folder_named(Some(self@.sessions[i].workspace_path)),
                None => None,
            },
    {
        match session::find_session(&self.sessions, id) {
            Some(i) => workspace::requested_folder(&Some(self.sessions[i].workspace_path.clone())),
            None => None,
        }
    }

    /// Lists the models for a remote client.
    pub fn remote_model_items(&mut self, models: &Vec<ModelInfo>, prefs: &ModelPrefs) -> (r: Vec<
        DialogItem,
    >)
        ensures
            final(self)@ == catalog::models_refreshed(
                old(self)@,
                catalog::model_views(models@),
                catalog::ref_views(prefs.favorites@),
                catalog::ref_views(prefs.recents@),
            ),
            ui::item_views(r@) == final(self)@.ui.models.items,
    {
        let active = ModelRef {
            provider_id: self.provider_name.clone(),
            model_id: self.model.clone(),
        };
        let items = catalog::model_items(models, prefs, &active);
        self.refresh_models_dialog(models, prefs);
        proof {
            reveal(catalog::models_refreshed);
        }
        items
    }

    pub fn remote_recover_after_client_quit(&mut self)
        ensures
            final(self)@ == recovered(old(self)@),
    {
        self.running = true;
        if self.current.is_some() {
            return ;
        }
        self.note_user_activity();
        self.overlay_focus = OverlayFocus::Nothing;
        self.pending_session_title = None;
        self.chat.clear();
        self.input.clear();
        self.base_focus = BaseFocus::Home;
        self.clear_suggestions_and_blur();
    }
}

/// A refused input changes nothing.
pub proof fn law_refused_input_changes_nothing(
    a: AppView,
    prompt: Seq<char>,
    images: Seq<Seq<char>>,
    input: InputTypeView,
    f: FactsView,
    allowed: bool,
)
    requires
        refusal(
            a,
            queue::with_placeholders(prompt, images.len()),
            images.len(),
            input,
            f,
        ) is Some,
    ensures
        submitted(a, prompt, images, input, f, allowed).0 == a,
        submitted(a, prompt, images, input, f, allowed).1 is Err,
{
}

/// Commands that need the terminal never run for a browser, and none is suggested to it.
pub proof fn law_browsers_get_no_terminal_commands(
    a: AppView,
    prompt: Seq<char>,
    c: commands::CommandView,
    f: FactsView,
    allowed: bool,
    listed: Seq<SuggestionView>,
    i: int,
)
    requires
        f.canonical matches Some(name) && titles::is_browser_unsupported(name),
        0 <= i < browser_suggestions(listed).len(),
    ensures
        submitted(a, prompt, Seq::empty(), InputTypeView::Command(c), f, allowed).0 == a,
        submitted(a, prompt, Seq::empty(), InputTypeView::Command(c), f, allowed).1 is Err,
        !titles::is_browser_unsupported(browser_suggestions(listed)[i].name),
{
    listed.lemma_filter_pred(|s: SuggestionView| !titles::is_browser_unsupported(s.name), i);
}

/// A message sent while a turn runs waits behind what waits already; the turn goes on.
pub proof fn law_messages_wait_their_turn(
    a: AppView,
    prompt: Seq<char>,
    msg: Seq<char>,
    f: FactsView,
    allowed: bool,
    id: Seq<char>,
)
    requires
        a.current == Some(id),
        app::streams(a, id),
        a.is_streaming,
        !text::is_blank(prompt),
    ensures
        ({
            let b = submitted(a, prompt, Seq::empty(), InputTypeView::Message(msg), f, allowed);
            &&& b.1 == Ok::<Seq<char>, Seq<char>>(id)
            &&& stream::queue_of(b.0, id) == stream::queue_of(a, id).push(
                QueuedView::Message(
                    QueuedMessageView { text: prompt, image_paths: Seq::empty() },
                ),
            )
            &&& app::streams(b.0, id)
            &&& b.0.effects == a.effects
        }),
{
    let k = state::client_at(a.clients, id)->0;
    state::lemma_client_from(a.clients, id, 0);
    let q = QueuedView::Message(QueuedMessageView { text: prompt, image_paths: Seq::empty() });
    let c = a.clients[k];
    let d = state::ClientView { queued_items: c.queued_items.push(q), ..c };
    let after = a.clients.update(k, d);
    assert(state::client_at(after, id) == Some(k)) by {
        state::lemma_same_client_ids(a.clients, after, id, 0);
    }
}

} // verus!
