//! What a session has used: tokens, and the time that its last answer took.

use crate::app;
use crate::app::{App, AppView};
use crate::message::{Message, MessageRole, MessageView};
use crate::state::Chat;
use crate::text;
use crate::titles;
use vstd::prelude::*;
use vstd::string::*;

verus! {

/// The last message before `n` that is an answer, finished or not as asked for.
pub open spec fn answer_before(ms: Seq<MessageView>, complete: bool, n: int) -> Option<int>
    decreases n,
{
    if n <= 0 || n > ms.len() {
        None
    } else if ms[n - 1].role == MessageRole::Assistant && ms[n - 1].is_complete == complete {
        Some(n - 1)
    } else {
        answer_before(ms, complete, n - 1)
    }
}

pub open spec fn last_answer(ms: Seq<MessageView>, complete: bool) -> Option<int> {
    answer_before(ms, complete, ms.len() as int)
}

pub open spec fn opt_place(place: Option<usize>) -> Option<int> {
    match place {
        Some(i) => Some(i as int),
        None => None,
    }
}

impl Chat {
    /// The last answer of the transcript, finished or not as asked for.
    pub fn find_answer(&self, complete: bool) -> (r: Option<usize>)
        ensures
            opt_place(r) == last_answer(self@.messages, complete),
            r matches Some(i) ==> i < self@.messages.len(),
    {
        let mut n: usize = self.messages.len();
        while n > 0
            invariant
                n <= self.messages@.len(),
                answer_before(self@.messages, complete, n as int) == last_answer(
                    self@.messages,
                    complete,
                ),
            decreases n,
        {
            assert(self@.messages[n - 1] == self.messages@[n - 1]@);
            if self.messages[n - 1].role == MessageRole::Assistant && self.messages[n
                - 1].is_complete == complete {
                return Some(n - 1);
            }
            n -= 1;
        }
        None
    }
}

/// The tokens of all messages but the one at `skipped`.
pub open spec fn tokens_besides(counts: Seq<usize>, skipped: Option<int>) -> int
    decreases counts.len(),
{
    if counts.len() == 0 {
        0
    } else {
        tokens_besides(counts.drop_last(), skipped) + if skipped == Some(counts.len() - 1) {
            0int
        } else {
            counts.last() as int
        }
    }
}

proof fn lemma_tokens_grow(counts: Seq<usize>, skipped: Option<int>, n: int)
    requires
        0 <= n <= counts.len(),
    ensures
        0 <= tokens_besides(counts.take(n), skipped) <= tokens_besides(counts, skipped),
    decreases counts.len() - n,
{
    if n < counts.len() {
        lemma_tokens_grow(counts, skipped, n + 1);
        assert(counts.take(n + 1).drop_last() =~= counts.take(n));
    } else {
        assert(counts.take(n) =~= counts);
    }
    lemma_tokens_positive(counts.take(n), skipped);
}

proof fn lemma_tokens_positive(counts: Seq<usize>, skipped: Option<int>)
    ensures
        0 <= tokens_besides(counts, skipped),
    decreases counts.len(),
{
    if counts.len() > 0 {
        lemma_tokens_positive(counts.drop_last(), skipped);
    }
}

fn sum_besides(counts: &Vec<usize>, skipped: Option<usize>) -> (r: usize)
    requires
        tokens_besides(counts@, opt_place(skipped)) <= usize::MAX,
    ensures
        r == tokens_besides(counts@, opt_place(skipped)),
{
    let mut sum: usize = 0;
    let ghost skip = opt_place(skipped);
    for i in 0..counts.len()
        invariant
            skip == opt_place(skipped),
            tokens_besides(counts@, skip) <= usize::MAX,
            sum == tokens_besides(counts@.take(i as int), skip),
    {
        proof {
            lemma_tokens_grow(counts@, skip, i + 1);
            assert(counts@.take(i + 1).drop_last() =~= counts@.take(i as int));
        }
        if skipped != Some(i) {
            sum += counts[i];
        }
    }
    assert(counts@.take(counts@.len() as int) =~= counts@);
    sum
}

/// The tokens of a transcript besides the answer that is being written, as long as that
/// transcript looks the same.
#[derive(Debug)]
pub struct StreamingUsageBase {
    pub session_id: Option<String>,
    pub message_count: usize,
    pub streaming_idx: Option<usize>,
    pub base_tokens: usize,
}

pub struct UsageView {
    pub session_id: Option<Seq<char>>,
    pub message_count: usize,
    pub streaming_idx: Option<usize>,
    pub base_tokens: usize,
}

impl View for StreamingUsageBase {
    type V = UsageView;

    open spec fn view(&self) -> UsageView {
        UsageView {
            session_id: text::opt_view(self.session_id),
            message_count: self.message_count,
            streaming_idx: self.streaming_idx,
            base_tokens: self.base_tokens,
        }
    }
}

pub open spec fn opt_usage(base: Option<StreamingUsageBase>) -> Option<UsageView> {
    match base {
        Some(b) => Some(b@),
        None => None,
    }
}

/// The base still belongs to what is on the screen.
pub open spec fn is_current_base(a: AppView, base: UsageView) -> bool {
    base.session_id == a.current && base.message_count == a.chat.messages.len() && opt_place(
        base.streaming_idx,
    ) == last_answer(a.chat.messages, false)
}

/// No base is kept that still belongs to what is on the screen.
pub open spec fn needs_counts(a: AppView, kept: Option<UsageView>) -> bool {
    !(kept matches Some(b) && is_current_base(a, b))
}

/// The base to go by: the kept one while it is current, else one counted anew.
pub open spec fn is_usage_base(
    a: AppView,
    kept: Option<UsageView>,
    counts: Seq<usize>,
    base: UsageView,
) -> bool {
    match kept {
        Some(b) if is_current_base(a, b) => base == b,
        _ => is_current_base(a, base) && base.base_tokens == tokens_besides(
            counts,
            last_answer(a.chat.messages, false),
        ),
    }
}

/// The sum of both, or the largest number there is.
pub open spec fn with_streamed(base: UsageView, streamed: usize) -> int {
    if base.streaming_idx is None {
        base.base_tokens as int
    } else if base.base_tokens + streamed > usize::MAX {
        usize::MAX as int
    } else {
        base.base_tokens + streamed
    }
}

impl App {
    fn base_is_current(&self, base: &Option<StreamingUsageBase>, at: Option<usize>) -> (r: bool)
        requires
            opt_place(at) == last_answer(self@.chat.messages, false),
        ensures
            r == (opt_usage(*base) matches Some(b) && is_current_base(self@, b)),
    {
        assert(self@.chat.messages.len() == self.chat.messages@.len());
        match base {
            Some(b) => text::same_opt(&b.session_id, &self.current) && b.message_count
                == self.chat.messages.len() && b.streaming_idx == at,
            None => false,
        }
    }

    /// Whether the messages are to be counted anew: `base` does not belong to what is on the
    /// screen.
    pub fn needs_counts(&self, base: &Option<StreamingUsageBase>) -> (r: bool)
        ensures
            r == needs_counts(self@, opt_usage(*base)),
    {
        let at = self.chat.find_answer(false);
        !self.base_is_current(base, at)
    }

    /// The tokens of the transcript while an answer is being written: those of its messages, which
    /// are counted once, and those written so far. The counts are read only where they are needed.
    pub fn streaming_context_tokens_cached(
        &self,
        base: &mut Option<StreamingUsageBase>,
        counts: &Vec<usize>,
        streamed: usize,
    ) -> (r: usize)
        requires
            needs_counts(self@, opt_usage(*old(base))) ==> counts@.len()
                == self@.chat.messages.len() && tokens_besides(
                counts@,
                last_answer(self@.chat.messages, false),
            ) <= usize::MAX,
        ensures
            opt_usage(*final(base)) matches Some(b) && is_usage_base(
                self@,
                opt_usage(*old(base)),
                counts@,
                b,
            ) && r == with_streamed(b, streamed),
    {
        let at = self.chat.find_answer(false);
        if !self.base_is_current(base, at) {
            assert(self@.chat.messages.len() == self.chat.messages@.len());
            *base = Some(
                StreamingUsageBase {
                    session_id: text::copy_opt(&self.current),
                    message_count: self.chat.messages.len(),
                    streaming_idx: at,
                    base_tokens: sum_besides(counts, at),
                },
            );
        }
        let known: usize = match base {
            Some(b) => b.base_tokens,
            None => 0,
        };
        if at.is_some() {
            known.saturating_add(streamed)
        } else {
            known
        }
    }
}

/// What the line of usage says, in parts.
#[derive(Debug)]
pub struct UsageFacts {
    /// The tokens of the transcript, written out; nothing for none.
    pub tokens: Option<String>,
    /// How much of the model's window they fill, in percent.
    pub percent: Option<u32>,
    /// What they cost, written out.
    pub price: Option<String>,
    /// The tokens before the compaction under way, written out.
    pub compacting: String,
    /// What the last compaction made of the transcript.
    pub last_compact: Option<String>,
}

pub open spec fn counted_text(f: UsageFacts) -> Seq<char> {
    match f.tokens {
        None => ""@,
        Some(tokens) => {
            let counted = match f.percent {
                Some(p) => tokens@ + " ("@ + text::decimal(p as nat) + "%)"@,
                None => tokens@,
            };
            match f.price {
                Some(price) => counted + " \u{00b7} $"@ + price@,
                None => counted,
            }
        },
    }
}

/// The line of usage: the tokens, and what a compaction does or did to them.
pub open spec fn usage_text(a: AppView, f: UsageFacts) -> Seq<char> {
    if a.current matches Some(id) && app::compacts(a, id) {
        titles::with_suffix(counted_text(f), "compacting "@ + f.compacting@)
    } else {
        match f.last_compact {
            Some(change) => titles::with_suffix(counted_text(f), "last compact "@ + change@),
            None => counted_text(f),
        }
    }
}

fn say_counted(f: &UsageFacts) -> (r: String)
    ensures
        r@ == counted_text(*f),
{
    match &f.tokens {
        None => "".to_string(),
        Some(tokens) => {
            let mut t = tokens.clone();
            match f.percent {
                Some(p) => {
                    t.append(" (");
                    t.append(text::decimal_of(p as usize).as_str());
                    t.append("%)");
                },
                None => {},
            }
            match &f.price {
                Some(price) => {
                    t.append(" \u{00b7} $");
                    t.append(price.as_str());
                },
                None => {},
            }
            t
        },
    }
}

impl App {
    pub fn session_usage_text(&self, f: &UsageFacts) -> (r: String)
        ensures
            r@ == usage_text(self@, *f),
    {
        let counted = say_counted(f);
        match &self.current {
            Some(id) => if self.session_has_active_compaction(id.as_str()) {
                let mut t = "compacting ".to_string();
                t.append(f.compacting.as_str());
                return titles::append_usage_suffix(counted, t);
            },
            None => {},
        }
        match &f.last_compact {
            Some(change) => {
                let mut t = "last compact ".to_string();
                t.append(change.as_str());
                titles::append_usage_suffix(counted, t)
            },
            None => counted,
        }
    }
}

/// When an answer was asked for, began and ended, in milliseconds, and what it counted.
#[derive(Debug, Clone, Copy, PartialEq, Eq, Structural)]
pub struct AnswerTimes {
    pub asked: Option<u64>,
    pub began: Option<u64>,
    pub ended: Option<u64>,
    pub duration: Option<u64>,
    pub output_tokens: Option<usize>,
    pub token_count: Option<usize>,
}

/// How long an answer took, and from how many tokens in which time its speed follows.
#[derive(Debug, Clone, Copy, PartialEq, Eq, Structural)]
pub struct AnswerTiming {
    pub total: u64,
    pub tokens: usize,
    pub writing: u64,
}

impl AnswerTiming {
    /// The speed is told from the gaps between tokens, so one token has none.
    pub open spec fn shows_speed(self) -> bool {
        self.writing > 0 && self.tokens >= 2
    }

    pub fn has_speed(&self) -> (r: bool)
        ensures
            r == self.shows_speed(),
    {
        self.writing > 0 && self.tokens >= 2
    }
}

pub open spec fn later_by(t: u64, since: u64) -> u64 {
    if t > since {
        (t - since) as u64
    } else {
        0
    }
}

pub open spec fn capped_sum(a: u64, b: u64) -> u64 {
    if a + b > u64::MAX {
        u64::MAX
    } else {
        (a + b) as u64
    }
}

pub open spec fn counted(t: AnswerTimes) -> usize {
    match t.output_tokens {
        Some(n) => n,
        None => match t.token_count {
            Some(n) => n,
            None => 0,
        },
    }
}

pub open spec fn timing_of(t: AnswerTimes) -> Option<AnswerTiming> {
    if t.asked is Some && t.began is Some && t.ended is Some {
        let writing = match t.duration {
            Some(d) => d,
            None => later_by(t.ended->0, t.began->0),
        };
        Some(
            AnswerTiming {
                total: capped_sum(later_by(t.began->0, t.asked->0), writing),
                tokens: counted(t),
                writing,
            },
        )
    } else {
        match (t.token_count, t.duration) {
            (Some(tokens), Some(d)) => Some(AnswerTiming { total: d, tokens, writing: d }),
            _ => None,
        }
    }
}

/// How long an answer took, if that is known.
pub fn answer_timing(t: AnswerTimes) -> (r: Option<AnswerTiming>)
    ensures
        r == timing_of(t),
{
    match (t.asked, t.began, t.ended) {
        (Some(asked), Some(began), Some(ended)) => {
            let writing: u64 = match t.duration {
                Some(d) => d,
                None => ended.saturating_sub(began),
            };
            let tokens: usize = match t.output_tokens {
                Some(n) => n,
                None => match t.token_count {
                    Some(n) => n,
                    None => 0,
                },
            };
            Some(
                AnswerTiming {
                    total: began.saturating_sub(asked).saturating_add(writing),
                    tokens,
                    writing,
                },
            )
        },
        _ => match (t.token_count, t.duration) {
            (Some(tokens), Some(d)) => Some(AnswerTiming { total: d, tokens, writing: d }),
            _ => None,
        },
    }
}

/// Counted with nothing kept, every message counts once and the answer being written counts as
/// far as it is written.
pub proof fn law_every_message_counts_once(
    a: AppView,
    counts: Seq<usize>,
    streamed: usize,
    base: UsageView,
)
    requires
        counts.len() == a.chat.messages.len(),
        is_usage_base(a, None, counts, base),
    ensures
        ({
            let at = last_answer(a.chat.messages, false);
            let total = tokens_besides(counts, at) + if at is Some {
                streamed as int
            } else {
                0
            };
            total <= usize::MAX ==> with_streamed(base, streamed) == total
        }),
{
}

/// The kept base goes on to hold as long as the session, the number of messages and the place of
/// the answer being written stay the same.
pub proof fn law_kept_base_is_used(
    a: AppView,
    b: AppView,
    counts: Seq<usize>,
    later: Seq<usize>,
    base: UsageView,
    next: UsageView,
)
    requires
        is_usage_base(a, None, counts, base),
        is_usage_base(b, Some(base), later, next),
        b.current == a.current,
        b.chat.messages.len() == a.chat.messages.len(),
        last_answer(b.chat.messages, false) == last_answer(a.chat.messages, false),
    ensures
        next == base,
{
}

} // verus!
