//! The agents that can lead a turn or be mentioned in one.

use crate::reasoning::ReasoningEffort;
use crate::sorting;
use crate::sorting::Ranked;
use crate::text;
use crate::titles;
use vstd::prelude::*;
use vstd::string::*;

verus! {

#[derive(Debug, Clone, Copy, PartialEq, Eq, Structural)]
pub enum AgentMode {
    Primary,
    Subagent,
    All,
}

#[derive(Debug)]
pub struct AgentDefinition {
    pub name: String,
    pub description: String,
    pub mode: AgentMode,
    pub hidden: bool,
    pub model: Option<String>,
    pub reasoning_effort: Option<ReasoningEffort>,
}

pub struct AgentView {
    pub name: Seq<char>,
    pub description: Seq<char>,
    pub mode: AgentMode,
    pub hidden: bool,
    pub model: Option<Seq<char>>,
    pub reasoning_effort: Option<ReasoningEffort>,
}

impl View for AgentDefinition {
    type V = AgentView;

    open spec fn view(&self) -> AgentView {
        AgentView {
            name: self.name@,
            description: self.description@,
            mode: self.mode,
            hidden: self.hidden,
            model: text::opt_view(self.model),
            reasoning_effort: self.reasoning_effort,
        }
    }
}

pub open spec fn agents_view(v: Seq<AgentDefinition>) -> Seq<AgentView> {
    v.map_values(|a: AgentDefinition| a@)
}

impl AgentView {
    pub open spec fn leads(self) -> bool {
        self.mode != AgentMode::Subagent
    }

    pub open spec fn serves(self) -> bool {
        self.mode != AgentMode::Primary
    }
}

/// Names are compared without regard to case.
pub open spec fn same_name(a: Seq<char>, b: Seq<char>) -> bool {
    text::lower_all(a) == text::lower_all(b)
}

pub fn is_same_name(a: &str, b: &str) -> (r: bool)
    ensures
        r == same_name(a@, b@),
{
    let x = text::lowered(a);
    let y = text::lowered(b);
    text::same(x.as_str(), y.as_str())
}

pub open spec fn agent_from(v: Seq<AgentView>, name: Seq<char>, lead: bool, i: int) -> Option<int>
    decreases v.len() - i,
{
    if i < 0 || i >= v.len() {
        None
    } else if same_name(v[i].name, name) && (if lead {
        v[i].leads()
    } else {
        v[i].serves()
    }) {
        Some(i)
    } else {
        agent_from(v, name, lead, i + 1)
    }
}

pub proof fn lemma_agent_from(v: Seq<AgentView>, name: Seq<char>, lead: bool, i: int)
    requires
        0 <= i,
    ensures
        agent_from(v, name, lead, i) matches Some(k) ==> i <= k < v.len() && same_name(
            v[k].name,
            name,
        ),
    decreases v.len() - i,
{
    if i < v.len() {
        lemma_agent_from(v, name, lead, i + 1);
    }
}

/// The agent of that name that can lead a turn.
pub open spec fn primary_at(v: Seq<AgentView>, name: Seq<char>) -> Option<int> {
    agent_from(v, name, true, 0)
}

/// The agent of that name that can be given a task.
pub open spec fn target_at(v: Seq<AgentView>, name: Seq<char>) -> Option<int> {
    agent_from(v, name, false, 0)
}

fn find_agent(v: &Vec<AgentDefinition>, name: &str, lead: bool) -> (r: Option<usize>)
    ensures
        match r {
            Some(i) => i < v@.len() && agent_from(agents_view(v@), name@, lead, 0) == Some(
                i as int,
            ),
            None => agent_from(agents_view(v@), name@, lead, 0) is None,
        },
{
    let mut i: usize = 0;
    while i < v.len()
        invariant
            i <= v@.len(),
            agent_from(agents_view(v@), name@, lead, i as int) == agent_from(
                agents_view(v@),
                name@,
                lead,
                0,
            ),
        decreases v@.len() - i,
    {
        assert(agents_view(v@)[i as int] == v@[i as int]@);
        let fits = if lead {
            v[i].mode != AgentMode::Subagent
        } else {
            v[i].mode != AgentMode::Primary
        };
        if is_same_name(v[i].name.as_str(), name) && fits {
            return Some(i);
        }
        i += 1;
    }
    None
}

pub fn primary_agent(v: &Vec<AgentDefinition>, name: &str) -> (r: Option<usize>)
    ensures
        match r {
            Some(i) => i < v@.len() && primary_at(agents_view(v@), name@) == Some(i as int),
            None => primary_at(agents_view(v@), name@) is None,
        },
{
    find_agent(v, name, true)
}

pub fn task_target(v: &Vec<AgentDefinition>, name: &str) -> (r: Option<usize>)
    ensures
        match r {
            Some(i) => i < v@.len() && target_at(agents_view(v@), name@) == Some(i as int),
            None => target_at(agents_view(v@), name@) is None,
        },
{
    find_agent(v, name, false)
}

/// Which agents are listed: those that lead, or those that can be mentioned.
pub open spec fn is_listed(a: AgentView, lead: bool) -> bool {
    !a.hidden && (if lead {
        a.leads()
    } else {
        a.serves()
    })
}

pub open spec fn listed(v: Seq<AgentView>, lead: bool) -> Seq<AgentView>
    decreases v.len(),
{
    if v.len() == 0 {
        Seq::empty()
    } else if is_listed(v.last(), lead) {
        listed(v.drop_last(), lead).push(v.last())
    } else {
        listed(v.drop_last(), lead)
    }
}

pub open spec fn names(v: Seq<AgentView>) -> Seq<Seq<char>> {
    v.map_values(|a: AgentView| a.name)
}

fn listed_names(v: &Vec<AgentDefinition>, lead: bool) -> (r: Vec<String>)
    ensures
        text::views(r@) == names(listed(agents_view(v@), lead)),
{
    let ghost all = agents_view(v@);
    let mut out: Vec<String> = Vec::new();
    assert(text::views(out@) =~= names(listed(all.take(0), lead)));
    for i in 0..v.len()
        invariant
            all == agents_view(v@),
            text::views(out@) == names(listed(all.take(i as int), lead)),
    {
        proof {
            assert(all.take(i as int + 1).drop_last() =~= all.take(i as int));
            assert(all.take(i as int + 1).last() == v@[i as int]@);
        }
        let fits = if lead {
            v[i].mode != AgentMode::Subagent
        } else {
            v[i].mode != AgentMode::Primary
        };
        if !v[i].hidden && fits {
            let ghost before = out@;
            out.push(v[i].name.clone());
            assert(text::views(out@) =~= text::views(before).push(v@[i as int].name@));
            assert(names(listed(all.take(i as int + 1), lead)) =~= names(
                listed(all.take(i as int), lead),
            ).push(v@[i as int].name@));
        }
    }
    assert(all.take(all.len() as int) =~= all);
    out
}

pub fn visible_primary_agent_names(v: &Vec<AgentDefinition>) -> (r: Vec<String>)
    ensures
        text::views(r@) == names(listed(agents_view(v@), true)),
{
    listed_names(v, true)
}

pub fn visible_agent_names_for_mentions(v: &Vec<AgentDefinition>) -> (r: Vec<String>)
    ensures
        text::views(r@) == names(listed(agents_view(v@), false)),
{
    listed_names(v, false)
}

pub open spec fn name_place(v: Seq<Seq<char>>, name: Seq<char>, i: int) -> Option<int>
    decreases v.len() - i,
{
    if i < 0 || i >= v.len() {
        None
    } else if same_name(v[i], name) {
        Some(i)
    } else {
        name_place(v, name, i + 1)
    }
}

/// The agent that follows in turn; the first where the current one is not listed.
pub open spec fn next_agent(v: Seq<AgentView>, current: Seq<char>) -> Option<Seq<char>> {
    let all = names(listed(v, true));
    if all.len() == 0 {
        None
    } else {
        Some(
            match name_place(all, current, 0) {
                Some(i) => if i + 1 < all.len() {
                    all[i + 1]
                } else {
                    all[0]
                },
                None => all[0],
            },
        )
    }
}

proof fn lemma_name_place(v: Seq<Seq<char>>, i: int, k: int)
    requires
        0 <= i <= k < v.len(),
        forall|a: int, b: int| 0 <= a < b < v.len() ==> !#[trigger] same_name(v[a], v[b]),
    ensures
        name_place(v, v[k], i) == Some(k),
    decreases k - i,
{
    if i < k {
        assert(!same_name(v[i], v[k]));
        lemma_name_place(v, i + 1, k);
    }
}

/// The agents that can lead follow one another, and the first follows the last.
pub proof fn law_agents_go_round(v: Seq<AgentView>, i: int)
    requires
        0 <= i < listed(v, true).len(),
        has_distinct_names(names(listed(v, true))),
    ensures
        next_agent(v, names(listed(v, true))[i]) == Some(
            names(listed(v, true))[(i + 1) % listed(v, true).len() as int],
        ),
{
    let all = names(listed(v, true));
    lemma_name_place(all, 0, i);
    if i + 1 < all.len() {
        vstd::arithmetic::div_mod::lemma_small_mod((i + 1) as nat, all.len());
    } else {
        vstd::arithmetic::div_mod::lemma_mod_self_0(all.len() as int);
    }
}

/// Every agent in the list is shown under its own name.
pub open spec fn are_shown_as_named(v: Seq<AgentView>) -> bool {
    forall|k: int|
        0 <= k < listed(v, true).len() ==> titles::is_shown_as_named(
            #[trigger] listed(v, true)[k].name,
        )
}

/// `shown` is the name of the agent that follows the one of the name `current`, if any follows.
pub open spec fn follows(v: Seq<AgentView>, current: Seq<char>, shown: Seq<char>) -> bool {
    match next_agent(v, current) {
        Some(name) => same_name(shown, name),
        None => shown == current,
    }
}

/// No two agents that can lead are listed under one name.
pub open spec fn has_distinct_names(all: Seq<Seq<char>>) -> bool {
    forall|a: int, b: int| 0 <= a < b < all.len() ==> !#[trigger] same_name(all[a], all[b])
}

proof fn lemma_listed(v: Seq<AgentView>, k: int) -> (i: int)
    requires
        0 <= k < listed(v, true).len(),
    ensures
        0 <= i < v.len(),
        v[i] == listed(v, true)[k],
        v[i].leads(),
    decreases v.len(),
{
    let front = v.drop_last();
    if is_listed(v.last(), true) && k == listed(front, true).len() {
        v.len() - 1
    } else {
        let i = lemma_listed(front, k);
        assert(v[i] == front[i]);
        i
    }
}

proof fn lemma_leader_is_found(v: Seq<AgentView>, name: Seq<char>, k: int, i: int)
    requires
        0 <= i <= k < v.len(),
        same_name(v[k].name, name),
        v[k].leads(),
    ensures
        agent_from(v, name, true, i) matches Some(j) && i <= j < v.len() && same_name(
            v[j].name,
            name,
        ),
    decreases k - i,
{
    if !(same_name(v[i].name, name) && v[i].leads()) {
        lemma_leader_is_found(v, name, k, i + 1);
    }
}

/// The agent that follows is one that leads, and is found under its name.
pub proof fn lemma_next_agent(v: Seq<AgentView>, current: Seq<char>)
    requires
        are_shown_as_named(v),
        next_agent(v, current) is Some,
    ensures
        text::trim(next_agent(v, current)->0) == next_agent(v, current)->0,
        primary_at(v, next_agent(v, current)->0) matches Some(i) && 0 <= i < v.len()
            && titles::is_shown_as_named(v[i].name),
{
    let all = names(listed(v, true));
    lemma_name_place_bounds(all, current, 0);
    let k = match name_place(all, current, 0) {
        Some(i) => if i + 1 < all.len() {
            i + 1
        } else {
            0
        },
        None => 0,
    };
    let i = lemma_listed(v, k);
    assert(titles::is_shown_as_named(listed(v, true)[k].name));
    lemma_leader_is_found(v, v[i].name, i, 0);
    let j = primary_at(v, v[i].name)->0;
    titles::lemma_shown_as_named(v[i].name, v[j].name);
}

proof fn lemma_name_place_bounds(v: Seq<Seq<char>>, name: Seq<char>, i: int)
    requires
        0 <= i,
    ensures
        name_place(v, name, i) matches Some(k) ==> i <= k < v.len() && same_name(v[k], name),
    decreases v.len() - i,
{
    if i < v.len() && !same_name(v[i], name) {
        lemma_name_place_bounds(v, name, i + 1);
    }
}

proof fn lemma_same_place(v: Seq<Seq<char>>, a: Seq<char>, b: Seq<char>, i: int)
    requires
        same_name(a, b),
        0 <= i,
    ensures
        name_place(v, a, i) == name_place(v, b, i),
    decreases v.len() - i,
{
    if i < v.len() && !same_name(v[i], a) {
        lemma_same_place(v, a, b, i + 1);
    }
}

/// Stepping from agent to agent by the names shown, as each step shows the one that follows,
/// visits the agents in their order, round and round, and each but once before the round is over.
pub proof fn law_steps_visit_each_agent_once(v: Seq<AgentView>, shown: Seq<Seq<char>>, i: int, k: int)
    requires
        has_distinct_names(names(listed(v, true))),
        0 <= i < listed(v, true).len(),
        0 <= k < shown.len(),
        same_name(shown[0], names(listed(v, true))[i]),
        forall|j: int| 0 <= j < shown.len() - 1 ==> follows(v, #[trigger] shown[j], shown[j + 1]),
    ensures
        same_name(
            shown[k],
            names(listed(v, true))[(i + k) % (listed(v, true).len() as int)],
        ),
        forall|j: int|
            0 <= j < k && k < listed(v, true).len() ==> !same_name(#[trigger] shown[j], shown[k]),
    decreases k,
{
    let all = names(listed(v, true));
    let n = all.len() as int;
    lemma_visited(v, shown, i, k);
    assert forall|j: int| 0 <= j < k && k < n implies !same_name(#[trigger] shown[j], shown[k]) by {
        lemma_visited(v, shown, i, j);
        let x = (i + j) % n;
        let y = (i + k) % n;
        vstd::arithmetic::div_mod::lemma_fundamental_div_mod(i + j, n);
        vstd::arithmetic::div_mod::lemma_fundamental_div_mod(i + k, n);
        if x == y {
            let p = (i + j) / n;
            let q = (i + k) / n;
            assert(k - j == n * q - n * p);
            assert(n * q - n * p == n * (q - p)) by (nonlinear_arith);
            assert(false) by (nonlinear_arith)
                requires
                    k - j == n * (q - p),
                    0 < k - j < n,
            ;
        }
        assert(0 <= x < n && 0 <= y < n);
        if x < y {
            assert(!same_name(all[x], all[y]));
        } else {
            assert(!same_name(all[y], all[x]));
        }
    }
}

proof fn lemma_visited(v: Seq<AgentView>, shown: Seq<Seq<char>>, i: int, k: int)
    requires
        has_distinct_names(names(listed(v, true))),
        0 <= i < listed(v, true).len(),
        0 <= k < shown.len(),
        same_name(shown[0], names(listed(v, true))[i]),
        forall|j: int| 0 <= j < shown.len() - 1 ==> follows(v, #[trigger] shown[j], shown[j + 1]),
    ensures
        0 <= (i + k) % (listed(v, true).len() as int) < listed(v, true).len(),
        same_name(
            shown[k],
            names(listed(v, true))[(i + k) % (listed(v, true).len() as int)],
        ),
    decreases k,
{
    let all = names(listed(v, true));
    let n = all.len() as int;
    vstd::arithmetic::div_mod::lemma_mod_bound(i + k, n);
    if k == 0 {
        vstd::arithmetic::div_mod::lemma_small_mod(i as nat, n as nat);
    } else {
        lemma_visited(v, shown, i, k - 1);
        let m = (i + k - 1) % n;
        assert(follows(v, shown[k - 1], shown[k - 1 + 1]));
        lemma_same_place(all, shown[k - 1], all[m], 0);
        law_agents_go_round(v, m);
        vstd::arithmetic::div_mod::lemma_add_mod_noop(i + k - 1, 1, n);
        vstd::arithmetic::div_mod::lemma_add_mod_noop(m, 1, n);
        vstd::arithmetic::div_mod::lemma_mod_twice(i + k - 1, n);
        assert((m + 1) % n == (i + k) % n);
    }
}

/// From an agent that is not listed the step leads to the first, and where none is listed it
/// leads nowhere.
pub proof fn law_unlisted_agents_step_to_the_first(v: Seq<AgentView>, current: Seq<char>)
    requires
        forall|i: int|
            0 <= i < listed(v, true).len() ==> !#[trigger] same_name(
                names(listed(v, true))[i],
                current,
            ),
    ensures
        next_agent(v, current) == (if listed(v, true).len() == 0 {
            None
        } else {
            Some(names(listed(v, true))[0])
        }),
{
    lemma_name_place_bounds(names(listed(v, true)), current, 0);
}

pub fn agent_after(v: &Vec<AgentDefinition>, current: &str) -> (r: Option<String>)
    ensures
        text::opt_view(r) == next_agent(agents_view(v@), current@),
{
    let all = visible_primary_agent_names(v);
    let ghost shown = names(listed(agents_view(v@), true));
    let n: usize = all.len();
    if n == 0 {
        assert(shown.len() == 0);
        return None;
    }
    assert(text::views(all@) == shown);
    assert(shown.len() == n);
    let mut i: usize = 0;
    while i < n
        invariant
            n == all@.len(),
            n > 0,
            i <= n,
            shown == names(listed(agents_view(v@), true)),
            text::views(all@) == shown,
            name_place(shown, current@, i as int) == name_place(shown, current@, 0),
        decreases n - i,
    {
        assert(shown[i as int] == all@[i as int]@);
        if is_same_name(all[i].as_str(), current) {
            if i + 1 < n {
                assert(shown[i as int + 1] == all@[i as int + 1]@);
                return Some(all[i + 1].clone());
            }
            assert(shown[0] == all@[0]@);
            return Some(all[0].clone());
        }
        i += 1;
    }
    assert(shown[0] == all@[0]@);
    Some(all[0].clone())
}

/// The provider and model that an agent works with: its own, else the active ones.
pub open spec fn agent_route(
    v: Seq<AgentView>,
    name: Seq<char>,
    provider: Seq<char>,
    model: Seq<char>,
) -> (Seq<char>, Seq<char>) {
    match primary_at(v, name) {
        Some(i) => match v[i].model {
            Some(m) => titles::model_ref(m),
            None => (provider, model),
        },
        None => (provider, model),
    }
}

pub fn primary_agent_model_provider(
    v: &Vec<AgentDefinition>,
    name: &str,
    provider: &str,
    model: &str,
) -> (r: (String, String))
    ensures
        (r.0@, r.1@) == agent_route(agents_view(v@), name@, provider@, model@),
{
    match primary_agent(v, name) {
        Some(i) => match &v[i].model {
            Some(m) => titles::parse_model_ref(m.as_str()),
            None => (provider.to_owned(), model.to_owned()),
        },
        None => (provider.to_owned(), model.to_owned()),
    }
}

/// The effort that an agent works with: its own, else the active one.
pub open spec fn agent_effort(
    v: Seq<AgentView>,
    name: Seq<char>,
    active: Option<ReasoningEffort>,
) -> Option<ReasoningEffort> {
    match primary_at(v, name) {
        Some(i) => match v[i].reasoning_effort {
            Some(e) => Some(e),
            None => active,
        },
        None => active,
    }
}

pub fn primary_agent_reasoning_effort(
    v: &Vec<AgentDefinition>,
    name: &str,
    active: Option<ReasoningEffort>,
) -> (r: Option<ReasoningEffort>)
    ensures
        r == agent_effort(agents_view(v@), name@, active),
{
    match primary_agent(v, name) {
        Some(i) => match v[i].reasoning_effort {
            Some(e) => Some(e),
            None => active,
        },
        None => active,
    }
}

/// A line of the agents dialog.
#[derive(Debug)]
pub struct AgentItem {
    pub id: String,
    pub name: String,
    pub group: String,
    pub description: String,
    pub tip: Option<String>,
    pub search_text: String,
    pub active: bool,
}

pub struct AgentItemView {
    pub id: Seq<char>,
    pub name: Seq<char>,
    pub group: Seq<char>,
    pub description: Seq<char>,
    pub tip: Option<Seq<char>>,
    pub search_text: Seq<char>,
    pub active: bool,
}

impl View for AgentItem {
    type V = AgentItemView;

    open spec fn view(&self) -> AgentItemView {
        AgentItemView {
            id: self.id@,
            name: self.name@,
            group: self.group@,
            description: self.description@,
            tip: text::opt_view(self.tip),
            search_text: self.search_text@,
            active: self.active,
        }
    }
}

impl Ranked for AgentItem {
    /// By group, then by name.
    open spec fn precedes(a: AgentItemView, b: AgentItemView) -> bool {
        sorting::text_precedes(a.group, b.group) || (a.group == b.group && sorting::text_precedes(
            a.name,
            b.name,
        ))
    }

    proof fn lemma_rank(a: AgentItemView, b: AgentItemView, c: AgentItemView) {
        sorting::lemma_text_order(a.group, b.group, c.group);
        sorting::lemma_text_order(a.name, b.name, c.name);
        sorting::lemma_text_order(b.group, a.group, c.group);
        sorting::lemma_text_order(b.name, a.name, c.name);
        sorting::lemma_text_order(c.group, b.group, a.group);
        sorting::lemma_text_order(c.name, b.name, a.name);
    }

    fn goes_before(&self, other: &Self) -> (r: bool) {
        sorting::text_before(self.group.as_str(), other.group.as_str()) || (text::same(
            self.group.as_str(),
            other.group.as_str(),
        ) && sorting::text_before(self.name.as_str(), other.name.as_str()))
    }
}

pub open spec fn mode_name(mode: AgentMode) -> Seq<char> {
    match mode {
        AgentMode::Primary => "Primary"@,
        AgentMode::All => "Primary + Subagent"@,
        AgentMode::Subagent => "Subagent"@,
    }
}

pub open spec fn own_model(a: AgentView) -> Option<Seq<char>> {
    match a.model {
        Some(m) => if text::trim(m).len() > 0 {
            Some(text::trim(m))
        } else {
            None
        },
        None => None,
    }
}

pub open spec fn agent_item(a: AgentView, active: Seq<char>) -> AgentItemView {
    let mode = mode_name(a.mode);
    let base = a.name + " "@ + text::lower_all(mode);
    AgentItemView {
        id: a.name,
        name: a.name,
        group: mode,
        description: a.description,
        tip: own_model(a),
        search_text: match own_model(a) {
            Some(m) => base + " "@ + m,
            None => base,
        },
        active: same_name(a.name, active),
    }
}

pub open spec fn agent_items(v: Seq<AgentView>, active: Seq<char>) -> Seq<AgentItemView> {
    listed(v, true).map_values(|a: AgentView| agent_item(a, active))
}

fn make_item(a: &AgentDefinition, active: &str) -> (r: AgentItem)
    ensures
        r@ == agent_item(a@, active@),
{
    let mode = match a.mode {
        AgentMode::Primary => "Primary",
        AgentMode::All => "Primary + Subagent",
        AgentMode::Subagent => "Subagent",
    };
    let tip: Option<String> = match &a.model {
        Some(m) => {
            let t = text::trimmed(m.as_str());
            if t.as_str().is_empty() {
                None
            } else {
                Some(t)
            }
        },
        None => None,
    };
    let mut search_text = a.name.clone();
    search_text.append(" ");
    let low = text::lowered(mode);
    search_text.append(low.as_str());
    match &tip {
        Some(m) => {
            search_text.append(" ");
            search_text.append(m.as_str());
        },
        None => {},
    }
    AgentItem {
        id: a.name.clone(),
        name: a.name.clone(),
        group: mode.to_string(),
        description: a.description.clone(),
        tip,
        search_text,
        active: is_same_name(a.name.as_str(), active),
    }
}

/// The lines of the agents dialog: every visible agent that can lead, by group and name.
pub fn agent_dialog_items(v: &Vec<AgentDefinition>, active: &str) -> (r: Vec<AgentItem>)
    ensures
        sorting::shown(r@) == sorting::sorted::<AgentItem>(agent_items(agents_view(v@), active@)),
{
    let ghost all = agents_view(v@);
    let mut out: Vec<AgentItem> = Vec::new();
    assert(sorting::shown(out@) =~= agent_items(all.take(0), active@));
    for i in 0..v.len()
        invariant
            all == agents_view(v@),
            sorting::shown(out@) == agent_items(all.take(i as int), active@),
    {
        proof {
            assert(all.take(i as int + 1).drop_last() =~= all.take(i as int));
            assert(all.take(i as int + 1).last() == v@[i as int]@);
        }
        if !v[i].hidden && v[i].mode != AgentMode::Subagent {
            let ghost before = out@;
            let item = make_item(&v[i], active);
            out.push(item);
            assert(sorting::shown(out@) =~= sorting::shown(before).push(item@));
            assert(agent_items(all.take(i as int + 1), active@) =~= agent_items(
                all.take(i as int),
                active@,
            ).push(item@));
        }
    }
    assert(all.take(all.len() as int) =~= all);
    sorting::sort(out)
}

} // verus!
