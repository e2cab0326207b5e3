//! How hard a model is asked to think, model by model.

use crate::json;
use crate::json::{DocView, FieldView, JsonDoc, JsonField, JsonMember, MemberView};
use crate::text;
use vstd::prelude::*;
use vstd::string::*;

verus! {

#[derive(Debug, Clone, Copy, PartialEq, Eq, Structural)]
pub enum ReasoningEffort {
    Off,
    Minimal,
    Low,
    Medium,
    High,
    XHigh,
}

impl ReasoningEffort {
    pub open spec fn name(self) -> Seq<char> {
        match self {
            ReasoningEffort::Off => "none"@,
            ReasoningEffort::Minimal => "minimal"@,
            ReasoningEffort::Low => "low"@,
            ReasoningEffort::Medium => "medium"@,
            ReasoningEffort::High => "high"@,
            ReasoningEffort::XHigh => "xhigh"@,
        }
    }

    pub fn as_str(self) -> (r: &'static str)
        ensures
            r@ == self.name(),
    {
        match self {
            ReasoningEffort::Off => "none",
            ReasoningEffort::Minimal => "minimal",
            ReasoningEffort::Low => "low",
            ReasoningEffort::Medium => "medium",
            ReasoningEffort::High => "high",
            ReasoningEffort::XHigh => "xhigh",
        }
    }
}

/// The effort that a word names, whatever its case.
pub open spec fn effort_named(word: Seq<char>) -> Option<ReasoningEffort> {
    let w = text::lower_all(text::trim(word));
    if w == "none"@ {
        Some(ReasoningEffort::Off)
    } else if w == "minimal"@ {
        Some(ReasoningEffort::Minimal)
    } else if w == "low"@ {
        Some(ReasoningEffort::Low)
    } else if w == "medium"@ {
        Some(ReasoningEffort::Medium)
    } else if w == "high"@ {
        Some(ReasoningEffort::High)
    } else if w == "xhigh"@ {
        Some(ReasoningEffort::XHigh)
    } else {
        None
    }
}

pub fn parse_effort(word: &str) -> (r: Option<ReasoningEffort>)
    ensures
        r == effort_named(word@),
{
    let t = text::trimmed(word);
    let w = text::lowered(t.as_str());
    if text::same(w.as_str(), "none") {
        Some(ReasoningEffort::Off)
    } else if text::same(w.as_str(), "minimal") {
        Some(ReasoningEffort::Minimal)
    } else if text::same(w.as_str(), "low") {
        Some(ReasoningEffort::Low)
    } else if text::same(w.as_str(), "medium") {
        Some(ReasoningEffort::Medium)
    } else if text::same(w.as_str(), "high") {
        Some(ReasoningEffort::High)
    } else if text::same(w.as_str(), "xhigh") {
        Some(ReasoningEffort::XHigh)
    } else {
        None
    }
}

/// An effort chosen for a model.
#[derive(Debug)]
pub struct EffortOverride {
    pub provider: String,
    pub model: String,
    pub effort: ReasoningEffort,
}

pub struct OverrideView {
    pub provider: Seq<char>,
    pub model: Seq<char>,
    pub effort: ReasoningEffort,
}

impl View for EffortOverride {
    type V = OverrideView;

    open spec fn view(&self) -> OverrideView {
        OverrideView { provider: self.provider@, model: self.model@, effort: self.effort }
    }
}

pub open spec fn overrides_view(v: Seq<EffortOverride>) -> Seq<OverrideView> {
    v.map_values(|o: EffortOverride| o@)
}

/// The efforts that a model takes.
#[derive(Debug)]
pub struct ModelCapability {
    pub provider: String,
    pub model: String,
    pub values: Vec<ReasoningEffort>,
}

pub struct CapabilityView {
    pub provider: Seq<char>,
    pub model: Seq<char>,
    pub values: Seq<ReasoningEffort>,
}

impl View for ModelCapability {
    type V = CapabilityView;

    open spec fn view(&self) -> CapabilityView {
        CapabilityView { provider: self.provider@, model: self.model@, values: self.values@ }
    }
}

pub open spec fn capabilities_view(v: Seq<ModelCapability>) -> Seq<CapabilityView> {
    v.map_values(|c: ModelCapability| c@)
}

/// The first override for a model, from position `i` on.
pub open spec fn override_from(
    v: Seq<OverrideView>,
    provider: Seq<char>,
    model: Seq<char>,
    i: int,
) -> Option<int>
    decreases v.len() - i,
{
    if i < 0 || i >= v.len() {
        None
    } else if v[i].provider == provider && v[i].model == model {
        Some(i)
    } else {
        override_from(v, provider, model, i + 1)
    }
}

pub proof fn lemma_override_from(v: Seq<OverrideView>, provider: Seq<char>, model: Seq<char>, i: int)
    requires
        0 <= i,
    ensures
        override_from(v, provider, model, i) matches Some(k) ==> i <= k < v.len()
            && v[k].provider == provider && v[k].model == model,
        override_from(v, provider, model, i) is None ==> forall|k: int|
            i <= k < v.len() ==> !(#[trigger] v[k].provider == provider && v[k].model == model),
    decreases v.len() - i,
{
    if i < v.len() && !(v[i].provider == provider && v[i].model == model) {
        lemma_override_from(v, provider, model, i + 1);
    }
}

pub open spec fn override_of(v: Seq<OverrideView>, provider: Seq<char>, model: Seq<char>) -> Option<
    ReasoningEffort,
> {
    match override_from(v, provider, model, 0) {
        Some(i) => Some(v[i].effort),
        None => None,
    }
}

/// The overrides with one model's effort set or taken away.
pub open spec fn with_override(
    v: Seq<OverrideView>,
    provider: Seq<char>,
    model: Seq<char>,
    effort: Option<ReasoningEffort>,
) -> Seq<OverrideView> {
    match override_from(v, provider, model, 0) {
        Some(i) => match effort {
            Some(e) => v.update(i, OverrideView { provider, model, effort: e }),
            None => v.remove(i),
        },
        None => match effort {
            Some(e) => v.push(OverrideView { provider, model, effort: e }),
            None => v,
        },
    }
}

pub open spec fn capability_from(
    v: Seq<CapabilityView>,
    provider: Seq<char>,
    model: Seq<char>,
    i: int,
) -> Option<Seq<ReasoningEffort>>
    decreases v.len() - i,
{
    if i < 0 || i >= v.len() {
        None
    } else if v[i].provider == provider && v[i].model == model {
        Some(v[i].values)
    } else {
        capability_from(v, provider, model, i + 1)
    }
}

/// The efforts that a model takes, where that is known.
pub open spec fn capability_of(
    v: Seq<CapabilityView>,
    provider: Seq<char>,
    model: Seq<char>,
) -> Option<Seq<ReasoningEffort>> {
    capability_from(v, provider, model, 0)
}

/// What is chosen for the models, and what they take.
#[derive(Debug)]
pub struct ReasoningSettings {
    pub overrides: Vec<EffortOverride>,
    pub capabilities: Vec<ModelCapability>,
}

pub struct ReasoningView {
    pub overrides: Seq<OverrideView>,
    pub capabilities: Seq<CapabilityView>,
}

impl View for ReasoningSettings {
    type V = ReasoningView;

    open spec fn view(&self) -> ReasoningView {
        ReasoningView {
            overrides: overrides_view(self.overrides@),
            capabilities: capabilities_view(self.capabilities@),
        }
    }
}

impl ReasoningView {
    /// The effort a model is asked for: the chosen one, if the model takes it and it is not off.
    pub open spec fn resolved(self, provider: Seq<char>, model: Seq<char>) -> Option<
        ReasoningEffort,
    > {
        match capability_of(self.capabilities, provider, model) {
            Some(values) => match override_of(self.overrides, provider, model) {
                Some(e) => if values.contains(e) && e != ReasoningEffort::Off {
                    Some(e)
                } else {
                    None
                },
                None => None,
            },
            None => None,
        }
    }

    /// What the model's control says, for a model that has one.
    pub open spec fn control_label(self, provider: Seq<char>, model: Seq<char>) -> Option<
        Seq<char>,
    > {
        match capability_of(self.capabilities, provider, model) {
            Some(values) => if values.len() == 0 {
                None
            } else {
                match self.resolved(provider, model) {
                    Some(e) => Some(e.name()),
                    None => Some("off"@),
                }
            },
            None => None,
        }
    }
}

/// The efforts to choose from besides "off".
pub open spec fn choices(values: Seq<ReasoningEffort>) -> Seq<ReasoningEffort> {
    values.filter(|e: ReasoningEffort| e != ReasoningEffort::Off)
}

pub open spec fn place_of(values: Seq<ReasoningEffort>, e: ReasoningEffort, i: int) -> Option<int>
    decreases values.len() - i,
{
    if i < 0 || i >= values.len() {
        None
    } else if values[i] == e {
        Some(i)
    } else {
        place_of(values, e, i + 1)
    }
}

/// The next choice in a direction, round and round through "off" and the choices.
pub open spec fn next_choice(
    values: Seq<ReasoningEffort>,
    current: Option<ReasoningEffort>,
    forward: bool,
) -> Option<ReasoningEffort> {
    let n = choices(values).len();
    let at = match current {
        Some(e) => match place_of(choices(values), e, 0) {
            Some(i) => i + 1,
            None => 0,
        },
        None => 0,
    };
    let next = if forward {
        if at < n {
            at + 1
        } else {
            0
        }
    } else if at > 0 {
        at - 1
    } else {
        n as int
    };
    if next == 0 {
        None
    } else {
        Some(choices(values)[next - 1])
    }
}

pub proof fn lemma_place_of(values: Seq<ReasoningEffort>, i: int, k: int)
    requires
        0 <= i <= k < values.len(),
        values.no_duplicates(),
    ensures
        place_of(values, values[k], i) == Some(k),
    decreases k - i,
{
    if i < k {
        lemma_place_of(values, i + 1, k);
    }
}

proof fn lemma_place_found(values: Seq<ReasoningEffort>, e: ReasoningEffort, i: int)
    requires
        0 <= i,
    ensures
        place_of(values, e, i) matches Some(k) ==> i <= k < values.len() && values[k] == e,
    decreases values.len() - i,
{
    if i < values.len() && values[i] != e {
        lemma_place_found(values, e, i + 1);
    }
}

/// A step forward through the efforts and a step back undo each other.
pub proof fn law_effort_steps_undo_each_other(
    values: Seq<ReasoningEffort>,
    current: Option<ReasoningEffort>,
    forward: bool,
)
    requires
        choices(values).no_duplicates(),
        current matches Some(e) ==> choices(values).contains(e),
    ensures
        next_choice(values, next_choice(values, current, forward), !forward) == current,
{
    let all = choices(values);
    if let Some(e) = current {
        let k = all.index_of(e);
        lemma_place_of(all, 0, k);
        assert(all[k] == e);
    }
    if let Some(e) = next_choice(values, current, forward) {
        assert(all.contains(e));
        lemma_place_of(all, 0, all.index_of(e));
        if let Some(c) = current {
            lemma_place_found(all, c, 0);
        }
    }
}

pub fn contains_effort(values: &Vec<ReasoningEffort>, e: ReasoningEffort) -> (r: bool)
    ensures
        r == values@.contains(e),
{
    for i in 0..values.len()
        invariant
            forall|j: int| 0 <= j < i ==> #[trigger] values@[j] != e,
    {
        if values[i] == e {
            assert(values@[i as int] == e);
            return true;
        }
    }
    false
}

fn choices_of(values: &Vec<ReasoningEffort>) -> (r: Vec<ReasoningEffort>)
    ensures
        r@ == choices(values@),
{
    let mut out: Vec<ReasoningEffort> = Vec::new();
    let ghost keep = |e: ReasoningEffort| e != ReasoningEffort::Off;
    proof {
        reveal(Seq::filter);
        assert(values@.take(0).filter(keep) =~= Seq::<ReasoningEffort>::empty());
    }
    for i in 0..values.len()
        invariant
            keep == (|e: ReasoningEffort| e != ReasoningEffort::Off),
            out@ == values@.take(i as int).filter(keep),
    {
        proof {
            reveal(Seq::filter);
            assert(values@.take(i as int + 1).drop_last() =~= values@.take(i as int));
            assert(values@.take(i as int + 1).last() == values@[i as int]);
        }
        if values[i] != ReasoningEffort::Off {
            out.push(values[i]);
        }
    }
    assert(values@.take(values@.len() as int) =~= values@);
    out
}

/// The next effort for a model in a direction; nothing stands for "off".
pub fn cycle_choice(
    values: &Vec<ReasoningEffort>,
    current: Option<ReasoningEffort>,
    forward: bool,
) -> (r: Option<ReasoningEffort>)
    ensures
        r == next_choice(values@, current, forward),
{
    let options = choices_of(values);
    let n: usize = options.len();
    let mut at: usize = 0;
    match current {
        Some(e) => {
            let mut i: usize = 0;
            while i < n
                invariant_except_break
                    at == 0,
                    place_of(options@, e, i as int) == place_of(options@, e, 0),
                invariant
                    n == options@.len(),
                    i <= n,
                ensures
                    at <= n,
                    at == match place_of(options@, e, 0) {
                        Some(k) => k + 1,
                        None => 0,
                    },
                decreases n - i,
            {
                if options[i] == e {
                    at = i + 1;
                    break ;
                }
                i += 1;
            }
        },
        None => {},
    }
    if forward {
        if at < n {
            Some(options[at])
        } else {
            None
        }
    } else if at > 1 {
        Some(options[at - 2])
    } else if at == 1 || n == 0 {
        None
    } else {
        Some(options[n - 1])
    }
}

/// The names of the efforts to choose from, "off" first; nothing where there is no choice.
pub open spec fn choice_names(values: Option<Seq<ReasoningEffort>>) -> Seq<Seq<char>> {
    match values {
        Some(v) => if choices(v).len() == 0 {
            Seq::empty()
        } else {
            without_repeats(seq!["off"@] + choices(v).map_values(|e: ReasoningEffort| e.name()))
        },
        None => Seq::empty(),
    }
}

/// Names without those that follow an equal one.
pub open spec fn without_repeats(names: Seq<Seq<char>>) -> Seq<Seq<char>>
    decreases names.len(),
{
    if names.len() == 0 {
        names
    } else {
        let front = without_repeats(names.drop_last());
        if front.len() > 0 && front.last() == names.last() {
            front
        } else {
            front.push(names.last())
        }
    }
}

pub fn dedup_names(names: Vec<String>) -> (r: Vec<String>)
    ensures
        text::views(r@) == without_repeats(text::views(names@)),
{
    let ghost all = text::views(names@);
    let mut out: Vec<String> = Vec::new();
    assert(text::views(out@) =~= without_repeats(all.take(0)));
    for name in it: names
        invariant
            all == text::views(it.seq()),
            text::views(out@) == without_repeats(all.take(it.index())),
    {
        proof {
            assert(all.take(it.index() + 1).drop_last() =~= all.take(it.index()));
            assert(all.take(it.index() + 1).last() == name@);
        }
        let n: usize = out.len();
        if n > 0 && text::same(out[n - 1].as_str(), name.as_str()) {
            assert(text::views(out@).last() == out@[n - 1]@);
        } else {
            proof {
                if n > 0 {
                    assert(text::views(out@).last() == out@[n - 1]@);
                }
                assert(text::views(out@).len() == n);
            }
            let ghost before = out@;
            out.push(name);
            assert(text::views(out@) =~= text::views(before).push(name@));
        }
    }
    assert(all.take(all.len() as int) =~= all);
    out
}

pub fn effort_options(values: Option<&Vec<ReasoningEffort>>) -> (r: Vec<String>)
    ensures
        text::views(r@) == choice_names(
            match values {
                Some(v) => Some(v@),
                None => None,
            },
        ),
{
    match values {
        Some(v) => {
            let options = choices_of(v);
            if options.len() == 0 {
                let none: Vec<String> = Vec::new();
                assert(text::views(none@) =~= Seq::<Seq<char>>::empty());
                return none;
            }
            let mut names: Vec<String> = Vec::new();
            names.push("off".to_string());
            let ghost all = options@.map_values(|e: ReasoningEffort| e.name());
            assert(text::views(names@) =~= seq!["off"@] + all.take(0));
            for i in 0..options.len()
                invariant
                    all == options@.map_values(|e: ReasoningEffort| e.name()),
                    text::views(names@) == seq!["off"@] + all.take(i as int),
            {
                let name = options[i].as_str().to_string();
                let ghost before = names@;
                names.push(name);
                assert(all.take(i as int + 1) =~= all.take(i as int).push(all[i as int]));
                assert(text::views(names@) =~= text::views(before).push(name@));
                assert(text::views(names@) =~= seq!["off"@] + all.take(i as int + 1));
            }
            assert(all.take(options@.len() as int) =~= all);
            dedup_names(names)
        },
        None => {
            let none: Vec<String> = Vec::new();
            assert(text::views(none@) =~= Seq::<Seq<char>>::empty());
            none
        },
    }
}

impl ReasoningSettings {
    fn find_override(&self, provider: &str, model: &str) -> (r: Option<usize>)
        ensures
            match r {
                Some(i) => i < self.overrides@.len() && override_from(
                    self@.overrides,
                    provider@,
                    model@,
                    0,
                ) == Some(i as int),
                None => override_from(self@.overrides, provider@, model@, 0) is None,
            },
    {
        let mut i: usize = 0;
        while i < self.overrides.len()
            invariant
                i <= self.overrides@.len(),
                override_from(self@.overrides, provider@, model@, i as int) == override_from(
                    self@.overrides,
                    provider@,
                    model@,
                    0,
                ),
            decreases self.overrides@.len() - i,
        {
            if text::same(self.overrides[i].provider.as_str(), provider) && text::same(
                self.overrides[i].model.as_str(),
                model,
            ) {
                return Some(i);
            }
            i += 1;
        }
        None
    }

    pub fn reasoning_effort_override_for_model(&self, provider: &str, model: &str) -> (r: Option<
        ReasoningEffort,
    >)
        ensures
            r == override_of(self@.overrides, provider@, model@),
    {
        match self.find_override(provider, model) {
            Some(i) => Some(self.overrides[i].effort),
            None => None,
        }
    }

    /// The effort chosen for a model; none takes the choice away. `saved` is what came of
    /// remembering it: a choice that could not be remembered is not made.
    pub fn set_reasoning_effort_override_for_model(
        &mut self,
        provider: &str,
        model: &str,
        effort: Option<ReasoningEffort>,
        saved: Result<(), String>,
    ) -> (r: Result<(), String>)
        ensures
            saved is Ok ==> r is Ok,
            saved matches Err(why) ==> r == Err::<(), String>(why),
            final(self)@ == if saved is Ok {
                ReasoningView {
                    overrides: with_override(old(self)@.overrides, provider@, model@, effort),
                    ..old(self)@
                }
            } else {
                old(self)@
            },
    {
        match saved {
            Ok(()) => {
                self.put_override(provider, model, effort);
                Ok(())
            },
            Err(why) => Err(why),
        }
    }

    fn put_override(&mut self, provider: &str, model: &str, effort: Option<ReasoningEffort>)
        ensures
            final(self)@ == (ReasoningView {
                overrides: with_override(old(self)@.overrides, provider@, model@, effort),
                ..old(self)@
            }),
    {
        let ghost before = self.overrides@;
        match self.find_override(provider, model) {
            Some(i) => match effort {
                Some(e) => {
                    let entry = EffortOverride {
                        provider: provider.to_owned(),
                        model: model.to_owned(),
                        effort: e,
                    };
                    self.overrides[i] = entry;
                    assert(overrides_view(self.overrides@) =~= overrides_view(before).update(
                        i as int,
                        entry@,
                    ));
                },
                None => {
                    self.overrides.remove(i);
                    assert(overrides_view(self.overrides@) =~= overrides_view(before).remove(
                        i as int,
                    ));
                },
            },
            None => match effort {
                Some(e) => {
                    let entry = EffortOverride {
                        provider: provider.to_owned(),
                        model: model.to_owned(),
                        effort: e,
                    };
                    self.overrides.push(entry);
                    assert(overrides_view(self.overrides@) =~= overrides_view(before).push(entry@));
                },
                None => {},
            },
        }
    }

    pub fn reasoning_capability_for_model(&self, provider: &str, model: &str) -> (r: Option<
        &Vec<ReasoningEffort>,
    >)
        ensures
            capability_of(self@.capabilities, provider@, model@) == match r {
                Some(v) => Some(v@),
                None => None,
            },
    {
        let mut i: usize = 0;
        while i < self.capabilities.len()
            invariant
                i <= self.capabilities@.len(),
                capability_from(self@.capabilities, provider@, model@, i as int) == capability_from(
                    self@.capabilities,
                    provider@,
                    model@,
                    0,
                ),
            decreases self.capabilities@.len() - i,
        {
            if text::same(self.capabilities[i].provider.as_str(), provider) && text::same(
                self.capabilities[i].model.as_str(),
                model,
            ) {
                return Some(&self.capabilities[i].values);
            }
            i += 1;
        }
        None
    }

    pub fn resolved_reasoning_effort_for_model(&self, provider: &str, model: &str) -> (r: Option<
        ReasoningEffort,
    >)
        ensures
            r == self@.resolved(provider@, model@),
    {
        match self.reasoning_capability_for_model(provider, model) {
            Some(values) => match self.reasoning_effort_override_for_model(provider, model) {
                Some(e) => if contains_effort(values, e) && e != ReasoningEffort::Off {
                    Some(e)
                } else {
                    None
                },
                None => None,
            },
            None => None,
        }
    }

    pub fn reasoning_control_label_for_model(&self, provider: &str, model: &str) -> (r: Option<
        String,
    >)
        ensures
            text::opt_view(r) == self@.control_label(provider@, model@),
    {
        match self.reasoning_capability_for_model(provider, model) {
            Some(values) => {
                if values.len() == 0 {
                    return None;
                }
                match self.resolved_reasoning_effort_for_model(provider, model) {
                    Some(e) => Some(e.as_str().to_string()),
                    None => Some("off".to_string()),
                }
            },
            None => None,
        }
    }

    /// The next effort for a model, nothing standing for "off"; none at all for a model that has
    /// no efforts.
    pub fn next_effort_for_model(&self, provider: &str, model: &str, forward: bool) -> (r: Option<
        Option<ReasoningEffort>,
    >)
        ensures
            r == match capability_of(self@.capabilities, provider@, model@) {
                Some(values) => if choices(values).len() > 0 {
                    Some(
                        next_choice(
                            values,
                            override_of(self@.overrides, provider@, model@),
                            forward,
                        ),
                    )
                } else {
                    None
                },
                None => None,
            },
    {
        let current = self.reasoning_effort_override_for_model(provider, model);
        match self.reasoning_capability_for_model(provider, model) {
            Some(values) => {
                if choices_of(values).len() == 0 {
                    None
                } else {
                    Some(cycle_choice(values, current, forward))
                }
            },
            None => None,
        }
    }
}

/// The effort that a compaction asks for: the least that the model takes, else the chosen one;
/// nothing for a model without efforts, and nothing where the least is "off".
pub open spec fn compaction_effort(
    values: Option<Seq<ReasoningEffort>>,
    active: Option<ReasoningEffort>,
) -> Option<ReasoningEffort> {
    match values {
        Some(v) => if v.len() == 0 || v.contains(ReasoningEffort::Off) {
            None
        } else if v.contains(ReasoningEffort::Minimal) {
            Some(ReasoningEffort::Minimal)
        } else if v.contains(ReasoningEffort::Low) {
            Some(ReasoningEffort::Low)
        } else {
            match active {
                Some(e) => if e == ReasoningEffort::Off {
                    None
                } else {
                    active
                },
                None => None,
            }
        },
        None => None,
    }
}

pub fn effort_for_compaction(
    values: Option<&Vec<ReasoningEffort>>,
    active: Option<ReasoningEffort>,
) -> (r: Option<ReasoningEffort>)
    ensures
        r == compaction_effort(
            match values {
                Some(v) => Some(v@),
                None => None,
            },
            active,
        ),
{
    match values {
        Some(v) => if v.len() == 0 || contains_effort(v, ReasoningEffort::Off) {
            None
        } else if contains_effort(v, ReasoningEffort::Minimal) {
            Some(ReasoningEffort::Minimal)
        } else if contains_effort(v, ReasoningEffort::Low) {
            Some(ReasoningEffort::Low)
        } else {
            match active {
                Some(e) => if e == ReasoningEffort::Off {
                    None
                } else {
                    Some(e)
                },
                None => None,
            }
        },
        None => None,
    }
}

/// What one saved preference chooses: a key `provider/model` and the name of an effort that is
/// not "off".
pub open spec fn saved_override(m: MemberView) -> Option<OverrideView> {
    match text::split_once(m.key, '/') {
        Some(parts) => match m.field {
            FieldView::Text(word) => match effort_named(word) {
                Some(e) => if e == ReasoningEffort::Off {
                    None
                } else {
                    Some(OverrideView { provider: parts.0, model: parts.1, effort: e })
                },
                None => None,
            },
            FieldView::Raw(_) => None,
        },
        None => None,
    }
}

pub open spec fn saved_overrides(members: Seq<MemberView>) -> Seq<OverrideView>
    decreases members.len(),
{
    if members.len() == 0 {
        Seq::empty()
    } else {
        let front = saved_overrides(members.drop_last());
        match saved_override(members.last()) {
            Some(o) => with_override(front, o.provider, o.model, Some(o.effort)),
            None => front,
        }
    }
}

fn read_saved_override(m: &JsonMember) -> (r: Option<EffortOverride>)
    ensures
        saved_override(m@) == match r {
            Some(o) => Some(o@),
            None => None,
        },
{
    let v = text::chars_of(m.key.as_str());
    match text::find_char_here(&v, '/', 0) {
        Some(i) => match &m.field {
            JsonField::Text(word) => match parse_effort(word.as_str()) {
                Some(e) => {
                    if e == ReasoningEffort::Off {
                        return None;
                    }
                    let n: usize = v.len();
                    proof {
                        assert(v@.take(i as int) =~= v@.subrange(0, i as int));
                        assert(v@.skip(i as int + 1) =~= v@.subrange(i as int + 1, n as int));
                    }
                    Some(
                        EffortOverride {
                            provider: text::string_of_range(&v, 0, i),
                            model: text::string_of_range(&v, i + 1, n),
                            effort: e,
                        },
                    )
                },
                None => None,
            },
            JsonField::Raw(_) => None,
        },
        None => None,
    }
}

/// The choices that saved preferences make; anything but an object makes none.
pub fn reasoning_effort_overrides_from_prefs(variant: &JsonDoc) -> (r: Vec<EffortOverride>)
    ensures
        overrides_view(r@) == match variant@ {
            DocView::Object(members) => saved_overrides(members),
            _ => Seq::empty(),
        },
{
    let mut settings = ReasoningSettings { overrides: Vec::new(), capabilities: Vec::new() };
    match variant {
        JsonDoc::Object(members) => {
            let ghost all = json::members_view(members@);
            assert(settings@.overrides =~= saved_overrides(all.take(0)));
            for i in 0..members.len()
                invariant
                    all == json::members_view(members@),
                    settings@.overrides == saved_overrides(all.take(i as int)),
            {
                proof {
                    assert(all.take(i as int + 1).drop_last() =~= all.take(i as int));
                    assert(all.take(i as int + 1).last() == members@[i as int]@);
                }
                match read_saved_override(&members[i]) {
                    Some(o) => {
                        settings.put_override(
                            o.provider.as_str(),
                            o.model.as_str(),
                            Some(o.effort),
                        );
                    },
                    None => {},
                }
            }
            assert(all.take(all.len() as int) =~= all);
        },
        _ => {
            assert(settings@.overrides =~= Seq::<OverrideView>::empty());
        },
    }
    settings.overrides
}

/// Whether no model is listed twice.
pub open spec fn each_once(v: Seq<OverrideView>) -> bool {
    forall|i: int, j: int|
        0 <= i < j < v.len() ==> !(#[trigger] v[i].provider == #[trigger] v[j].provider
            && v[i].model == v[j].model)
}

/// What is chosen for a model is what is read of it, a choice taken away is gone, other models
/// keep theirs, and no model is ever listed twice.
pub proof fn law_override_is_read(
    v: Seq<OverrideView>,
    provider: Seq<char>,
    model: Seq<char>,
    effort: Option<ReasoningEffort>,
    other_provider: Seq<char>,
    other_model: Seq<char>,
)
    requires
        each_once(v),
    ensures
        override_of(with_override(v, provider, model, effort), provider, model) == effort,
        each_once(with_override(v, provider, model, effort)),
        !(other_provider == provider && other_model == model) ==> override_of(
            with_override(v, provider, model, effort),
            other_provider,
            other_model,
        ) == override_of(v, other_provider, other_model),
{
    let w = with_override(v, provider, model, effort);
    lemma_override_from(v, provider, model, 0);
    lemma_override_from(w, provider, model, 0);
    lemma_override_from(v, other_provider, other_model, 0);
    lemma_override_from(w, other_provider, other_model, 0);
    match override_from(v, provider, model, 0) {
        Some(i) => match effort {
            Some(e) => {
                assert(w[i].provider == provider);
                let k = override_from(w, provider, model, 0)->0;
                if k < i {
                    assert(v[k].provider == w[k].provider);
                } else if k > i {
                    assert(v[k].provider == w[k].provider);
                }
                if !(other_provider == provider && other_model == model) {
                    lemma_same_other(v, w, i, other_provider, other_model);
                }
            },
            None => {
                assert forall|j: int| 0 <= j < w.len() implies w[j] == if j < i {
                    #[trigger] v[j]
                } else {
                    v[j + 1]
                } by {}
                if override_of(w, provider, model) is Some {
                    let k = override_from(w, provider, model, 0)->0;
                    let o = if k < i {
                        k
                    } else {
                        k + 1
                    };
                    assert(v[o] == w[k]);
                    assert(v[i].provider == v[o].provider);
                }
                if !(other_provider == provider && other_model == model) {
                    lemma_removed_other(v, w, i, other_provider, other_model);
                }
                assert forall|a: int, b: int| 0 <= a < b < w.len() implies !(
                #[trigger] w[a].provider == #[trigger] w[b].provider && w[a].model
                    == w[b].model) by {
                    let a2 = if a < i {
                        a
                    } else {
                        a + 1
                    };
                    let b2 = if b < i {
                        b
                    } else {
                        b + 1
                    };
                    assert(w[a] == v[a2] && w[b] == v[b2]);
                    assert(!(v[a2].provider == v[b2].provider && v[a2].model == v[b2].model));
                }
            },
        },
        None => match effort {
            Some(e) => {
                assert(w[v.len() as int].provider == provider);
                let k = override_from(w, provider, model, 0)->0;
                if k < v.len() {
                    assert(v[k].provider == w[k].provider);
                }
                if !(other_provider == provider && other_model == model) {
                    lemma_pushed_other(v, w, other_provider, other_model);
                }
                assert forall|a: int, b: int| 0 <= a < b < w.len() implies !(
                #[trigger] w[a].provider == #[trigger] w[b].provider && w[a].model
                    == w[b].model) by {
                    assert(w[a] == v[a]);
                    if b < v.len() {
                        assert(w[b] == v[b]);
                    }
                }
            },
            None => {},
        },
    }
}

proof fn lemma_same_other(
    v: Seq<OverrideView>,
    w: Seq<OverrideView>,
    i: int,
    provider: Seq<char>,
    model: Seq<char>,
)
    requires
        0 <= i < v.len(),
        w == v.update(i, w[i]),
        !(v[i].provider == provider && v[i].model == model),
        !(w[i].provider == provider && w[i].model == model),
    ensures
        override_of(w, provider, model) == override_of(v, provider, model),
{
    lemma_override_from(v, provider, model, 0);
    lemma_override_from(w, provider, model, 0);
    lemma_first_override(v, w, provider, model, 0);
}

proof fn lemma_first_override(
    v: Seq<OverrideView>,
    w: Seq<OverrideView>,
    provider: Seq<char>,
    model: Seq<char>,
    i: int,
)
    requires
        0 <= i,
        v.len() == w.len(),
        forall|k: int|
            0 <= k < v.len() ==> (#[trigger] v[k].provider == provider && v[k].model == model) == (
            w[k].provider == provider && w[k].model == model),
    ensures
        override_from(v, provider, model, i) == override_from(w, provider, model, i),
    decreases v.len() - i,
{
    if i < v.len() {
        let hit = v[i].provider == provider && v[i].model == model;
        lemma_first_override(v, w, provider, model, i + 1);
    }
}

proof fn lemma_pushed_other(
    v: Seq<OverrideView>,
    w: Seq<OverrideView>,
    provider: Seq<char>,
    model: Seq<char>,
)
    requires
        w.len() == v.len() + 1,
        w == v.push(w.last()),
        !(w.last().provider == provider && w.last().model == model),
    ensures
        override_of(w, provider, model) == override_of(v, provider, model),
{
    lemma_pushed_from(v, w, provider, model, 0);
    lemma_override_from(v, provider, model, 0);
}

proof fn lemma_pushed_from(
    v: Seq<OverrideView>,
    w: Seq<OverrideView>,
    provider: Seq<char>,
    model: Seq<char>,
    i: int,
)
    requires
        0 <= i <= v.len(),
        w.len() == v.len() + 1,
        w == v.push(w.last()),
        !(w.last().provider == provider && w.last().model == model),
    ensures
        override_from(w, provider, model, i) == override_from(v, provider, model, i),
    decreases v.len() - i,
{
    if i < v.len() {
        assert(w[i] == v[i]);
        lemma_pushed_from(v, w, provider, model, i + 1);
    } else {
        assert(override_from(w, provider, model, i + 1) is None);
    }
}

proof fn lemma_removed_other(
    v: Seq<OverrideView>,
    w: Seq<OverrideView>,
    i: int,
    provider: Seq<char>,
    model: Seq<char>,
)
    requires
        0 <= i < v.len(),
        w == v.remove(i),
        !(v[i].provider == provider && v[i].model == model),
    ensures
        override_of(w, provider, model) == override_of(v, provider, model),
{
    lemma_removed_from(v, w, i, provider, model, 0);
    lemma_override_from(v, provider, model, 0);
    lemma_override_from(w, provider, model, 0);
}

proof fn lemma_removed_from(
    v: Seq<OverrideView>,
    w: Seq<OverrideView>,
    i: int,
    provider: Seq<char>,
    model: Seq<char>,
    j: int,
)
    requires
        0 <= i < v.len(),
        0 <= j <= v.len(),
        w == v.remove(i),
        !(v[i].provider == provider && v[i].model == model),
    ensures
        match override_from(v, provider, model, j) {
            Some(k) => k != i && override_from(
                w,
                provider,
                model,
                if j <= i {
                    j
                } else {
                    j - 1
                },
            ) == Some(
                if k < i {
                    k
                } else {
                    k - 1
                },
            ),
            None => override_from(
                w,
                provider,
                model,
                if j <= i {
                    j
                } else {
                    j - 1
                },
            ) is None,
        },
    decreases v.len() - j,
{
    if j < v.len() {
        lemma_removed_from(v, w, i, provider, model, j + 1);
        if j < i {
            assert(w[j] == v[j]);
        } else if j > i {
            assert(w[j - 1] == v[j]);
        }
    }
}

} // verus!
