//! Names and titles: models, agents, sessions, forks and subagent tabs.

use crate::text;
use vstd::prelude::*;
use vstd::string::*;

verus! {

/// What `char::to_uppercase` yields for a character.
pub uninterp spec fn char_uppercase(c: char) -> Seq<char>;

/// `char::to_uppercase`, its characters collected. The result is the character's uppercase
/// mapping; of an ASCII character that mapping is its ASCII upper case.
#[verifier::external_body]
fn uppercase_of(c: char) -> (r: String)
    ensures
        r@ == char_uppercase(c),
        c as u32 <= 0x7f ==> r@ == seq![text::upper(c)],
{
    c.to_uppercase().to_string()
}

/// The provider and the model that a reference such as `openai/gpt-5` names.
pub open spec fn model_ref(s: Seq<char>) -> (Seq<char>, Seq<char>) {
    let model = text::trim(s);
    match text::split_once(model, '/') {
        Some((provider, rest)) => if text::trim(provider).len() > 0 && text::trim(rest).len() > 0 {
            (text::trim(provider), text::trim(rest))
        } else {
            ("opencode"@, model)
        },
        None => ("opencode"@, model),
    }
}

/// Splits a model reference into provider and model; without a provider it is `opencode`.
pub fn parse_model_ref(model: &str) -> (r: (String, String))
    ensures
        (r.0@, r.1@) == model_ref(model@),
{
    let trimmed_model = text::trimmed(model);
    let v = text::chars_of(trimmed_model.as_str());
    let n: usize = v.len();
    match text::find_char_here(&v, '/', 0) {
        Some(i) => {
            let a = text::trim_bounds(&v, 0, i);
            let b = text::trim_bounds(&v, i + 1, n);
            proof {
                assert(v@.take(i as int) =~= v@.subrange(0, i as int));
                assert(v@.skip(i + 1) =~= v@.subrange(i + 1, v@.len() as int));
            }
            if a.0 < a.1 && b.0 < b.1 {
                return (text::string_of_range(&v, a.0, a.1), text::string_of_range(&v, b.0, b.1));
            }
        },
        None => {},
    }
    ("opencode".to_string(), trimmed_model)
}

/// A title that nobody chose: `session-` and a number.
pub open spec fn is_default_title(s: Seq<char>) -> bool {
    let title = text::trim(s);
    &&& "session-"@.is_prefix_of(title)
    &&& title.len() > "session-"@.len()
    &&& text::all_digits(title.skip("session-"@.len() as int))
}

pub fn is_default_session_title(title: &str) -> (r: bool)
    ensures
        r == is_default_title(title@),
{
    let t = text::trimmed(title);
    let v = text::chars_of(t.as_str());
    let p = text::chars_of("session-");
    if !text::occurs_here(&v, &p, 0) {
        return false;
    }
    if v.len() == p.len() {
        return false;
    }
    for i in p.len()..v.len()
        invariant
            v@ == text::trim(title@),
            p@ == "session-"@,
            p@.len() < v@.len(),
            forall|j: int| p@.len() <= j < i ==> text::is_digit(#[trigger] v@[j]),
    {
        if !text::is_digit_char(v[i]) {
            assert(v@.skip(p@.len() as int)[i - p@.len()] == v@[i as int]);
            return false;
        }
    }
    true
}

/// The start of a message as a title: thirty characters at most, nothing blank at the end.
pub open spec fn title_of_message(message: Seq<char>) -> Seq<char> {
    text::trim_end(message.take(if message.len() < 30 {
        message.len() as int
    } else {
        30
    }))
}

pub fn generate_title_from_message(message: &str) -> (r: String)
    ensures
        r@ == title_of_message(message@),
{
    let v = text::chars_of(message);
    let n: usize = if v.len() < 30 {
        v.len()
    } else {
        30
    };
    let j = text::end_of_text(&v, 0, n);
    assert(message@.take(n as int) =~= v@.subrange(0, n as int));
    text::string_of_range(&v, 0, j)
}

/// A title that came about by itself: the default one, or the start of the prompt.
pub open spec fn is_auto_title(title: Seq<char>, prompt: Seq<char>) -> bool {
    is_default_title(title) || text::trim(title) == title_of_message(prompt)
}

pub fn is_auto_session_title_for_prompt(title: &str, prompt: &str) -> (r: bool)
    ensures
        r == is_auto_title(title@, prompt@),
{
    is_default_session_title(title) || text::trimmed(title) == generate_title_from_message(prompt)
}

/// An agent's name as it is shown: its first character in upper case.
pub open spec fn agent_title(name: Seq<char>) -> Seq<char> {
    let trimmed_name = text::trim(name);
    if trimmed_name.len() == 0 {
        "Build"@
    } else {
        char_uppercase(trimmed_name[0]) + trimmed_name.drop_first()
    }
}

/// A name that begins with an ASCII character and has no white space around it.
pub open spec fn is_plain_name(name: Seq<char>) -> bool {
    text::trim(name) == name && name.len() > 0 && name[0] as u32 <= 0x7f
}

/// A name that is shown as the same name, but for case.
pub open spec fn is_shown_as_named(name: Seq<char>) -> bool {
    is_plain_name(name) || (text::trim(name) == name && name.len() > 0 && text::lower_all(
        agent_title(name),
    ) == text::lower_all(name))
}

/// Whether a name is shown as the same name does not depend on its case.
pub proof fn lemma_shown_as_named(a: Seq<char>, b: Seq<char>)
    requires
        text::lower_all(a) == text::lower_all(b),
        is_shown_as_named(a),
    ensures
        is_shown_as_named(b),
{
    let la = text::lower_all(a);
    let lb = text::lower_all(b);
    assert(la.len() == a.len() && lb.len() == b.len());
    text::lemma_is_trimmed(a);
    text::lemma_is_trimmed(b);
    let n = a.len() - 1;
    assert(la[0] == text::lower(a[0]) && lb[0] == text::lower(b[0]));
    assert(la[n] == text::lower(a[n]) && lb[n] == text::lower(b[n]));
    text::lemma_lower_white(a[0]);
    text::lemma_lower_white(b[0]);
    text::lemma_lower_white(a[n]);
    text::lemma_lower_white(b[n]);
    assert(text::trim(b) == b);
    if !is_plain_name(b) {
        assert(a[0] == b[0]);
        let up = char_uppercase(a[0]);
        let ta = text::lower_all(agent_title(a));
        let tb = text::lower_all(agent_title(b));
        assert(ta.len() == la.len());
        assert forall|i: int| 0 <= i < tb.len() implies #[trigger] tb[i] == lb[i] by {
            assert(ta[i] == la[i]);
            if i >= up.len() {
                let j = i - up.len() + 1;
                assert(agent_title(a)[i] == a[j]);
                assert(agent_title(b)[i] == b[j]);
                assert(la[j] == text::lower(a[j]) && lb[j] == text::lower(b[j]));
            }
        }
        assert(tb =~= lb);
    }
}

/// The name of an agent as it is shown. A plain name is shown as the same name, but for case.
pub fn titlecase_agent_name(name: &str) -> (r: String)
    ensures
        r@ == agent_title(name@),
        is_plain_name(name@) ==> text::lower_all(r@) == text::lower_all(name@),
{
    let t = text::trimmed(name);
    let v = text::chars_of(t.as_str());
    if v.len() == 0 {
        return "Build".to_string();
    }
    let mut out = uppercase_of(v[0]);
    text::append_range(&mut out, &v, 1, v.len());
    assert(v@.drop_first() =~= v@.subrange(1, v@.len() as int));
    proof {
        if is_plain_name(name@) {
            assert(out@ == seq![text::upper(v@[0])] + v@.drop_first());
            assert(text::lower_all(out@) =~= text::lower_all(name@));
        }
    }
    out
}

pub open spec fn is_word_break(c: char) -> bool {
    c == '-' || c == '_' || c == ' '
}

/// Every word of `value` with its first letter in ASCII upper case.
pub open spec fn words_capitalized(value: Seq<char>) -> Seq<char> {
    let t = text::trim(value);
    Seq::new(
        t.len(),
        |i: int|
            if !is_word_break(t[i]) && (i == 0 || is_word_break(t[i - 1])) {
                text::upper(t[i])
            } else {
                t[i]
            },
    )
}

pub fn titlecase_ascii(value: &str) -> (r: String)
    ensures
        r@ == words_capitalized(value@),
{
    let t = text::trimmed(value);
    let v = text::chars_of(t.as_str());
    let mut out = String::new();
    let mut word_start = true;
    for i in 0..v.len()
        invariant
            v@ == text::trim(value@),
            word_start == (i == 0 || is_word_break(v@[i - 1])),
            out@ == words_capitalized(value@).take(i as int),
    {
        let c = v[i];
        if c == '-' || c == '_' || c == ' ' {
            out.push(c);
            word_start = true;
        } else if word_start {
            out.push(text::upper_char(c));
            word_start = false;
        } else {
            out.push(c);
        }
        assert(words_capitalized(value@).take(i + 1) =~= words_capitalized(value@).take(
            i as int,
        ).push(words_capitalized(value@)[i as int]));
    }
    assert(words_capitalized(value@).take(v@.len() as int) =~= words_capitalized(value@));
    out
}

/// The number in a leading `[forkN]`, and what follows it.
pub open spec fn fork_mark(title: Seq<char>) -> Option<(usize, Seq<char>)> {
    if "[fork"@.is_prefix_of(title) {
        match text::split_once(title.skip("[fork"@.len() as int), ']') {
            Some((number, rest)) => match text::parse_usize(number) {
                Some(n) => Some((n, rest)),
                None => None,
            },
            None => None,
        }
    } else {
        None
    }
}

pub open spec fn fork_base(title: Seq<char>) -> Seq<char> {
    if title.len() == 0 {
        "fork"@
    } else {
        title
    }
}

/// The number after `n`, or `n` where there is none.
pub open spec fn next_number(n: usize) -> usize {
    if n < usize::MAX {
        (n + 1) as usize
    } else {
        n
    }
}

/// The title of a fork: one more than the mark that the title bears, or a first mark.
pub open spec fn fork_title(title: Seq<char>) -> Seq<char> {
    let t = text::trim(title);
    match fork_mark(t) {
        Some((n, rest)) => "[fork"@ + text::decimal(next_number(n) as nat) + "] "@ + fork_base(
            text::trim_start(rest),
        ),
        None => "[fork1] "@ + fork_base(t),
    }
}

/// The number that a fork of a session with this title bears, and what follows the mark.
pub open spec fn next_fork(title: Seq<char>) -> (usize, Seq<char>) {
    let t = text::trim(title);
    match fork_mark(t) {
        Some((n, rest)) => (next_number(n), fork_base(text::trim_start(rest))),
        None => (1, fork_base(t)),
    }
}

/// A title with a fork's mark.
pub open spec fn marked_fork(n: nat, base: Seq<char>) -> Seq<char> {
    "[fork"@ + text::decimal(n) + "] "@ + base
}

proof fn lemma_fork_title(title: Seq<char>)
    ensures
        fork_title(title) == marked_fork(next_fork(title).0 as nat, next_fork(title).1),
        next_fork(title).1.len() > 0,
        !text::is_white(next_fork(title).1[0]),
        !text::is_white(next_fork(title).1.last()),
{
    let t = text::trim(title);
    text::lemma_trimmed(title);
    reveal_strlit("fork");
    reveal_strlit("[fork");
    reveal_strlit("] ");
    reveal_strlit("[fork1] ");
    match fork_mark(t) {
        Some((n, rest)) => {
            text::lemma_trim_start(rest);
            let tail = t.skip("[fork"@.len() as int);
            let i = text::find_char(tail, ']')->0;
            text::lemma_found_char(tail, ']', 0);
            assert(rest == tail.skip(i + 1));
            if text::trim_start(rest).len() > 0 {
                assert(rest.last() == t.last());
            }
        },
        None => {
            assert("[fork1] "@ + fork_base(t) =~= marked_fork(1, fork_base(t)));
        },
    }
}

/// A fork of a fork bears the next number over the same title.
pub proof fn law_forks_count_on(title: Seq<char>)
    requires
        next_fork(title).0 < usize::MAX,
    ensures
        fork_title(title) == marked_fork(next_fork(title).0 as nat, next_fork(title).1),
        fork_title(fork_title(title)) == marked_fork(
            next_fork(title).0 as nat + 1,
            next_fork(title).1,
        ),
{
    lemma_fork_title(title);
    let (k, base) = next_fork(title);
    let f = fork_title(title);
    let digits = text::decimal(k as nat);
    text::lemma_decimal(k as nat);
    reveal_strlit("[fork");
    reveal_strlit("] ");
    assert(f.last() == base.last());
    assert(f[0] == '[');
    assert(text::trim(f) == f);
    assert("[fork"@ =~= f.take(5));
    assert("[fork"@.is_prefix_of(f));
    let tail = f.skip("[fork"@.len() as int);
    assert(tail =~= digits + "] "@ + base);
    assert forall|j: int| 0 <= j < digits.len() implies tail[j] != ']' by {
        assert(tail[j] == digits[j]);
        assert(text::is_digit(digits[j]));
    }
    text::lemma_first_char(tail, ']', 0, digits.len() as int);
    assert(tail.take(digits.len() as int) =~= digits);
    let rest = tail.skip(digits.len() as int + 1);
    assert(rest =~= seq![' '] + base);
    assert(rest.drop_first() =~= base);
    assert(text::trim_start(rest) == base) by {
        reveal_with_fuel(text::trim_start, 2);
    }
    assert(text::is_digit(digits[0]));
    assert(text::unsigned_body(digits) == digits);
    assert(fork_mark(f) == Some((k, rest)));
}

pub fn non_empty_fork_base_title(title: String) -> (r: String)
    ensures
        r@ == fork_base(title@),
{
    if title.as_str().is_empty() {
        "fork".to_string()
    } else {
        title
    }
}

pub fn fork_title_from_session_title(title: &str) -> (r: String)
    ensures
        r@ == fork_title(title@),
{
    let t = text::trimmed(title);
    let v = text::chars_of(t.as_str());
    let p = text::chars_of("[fork");
    let len: usize = v.len();
    if text::occurs_here(&v, &p, 0) {
        let n: usize = p.len();
        match text::find_char_here(&v, ']', n) {
            Some(i) => {
                proof {
                    text::lemma_find_char_subrange(v@, ']', n as int, n as int);
                    assert(v@.skip(n as int).take(i - n) =~= v@.subrange(n as int, i as int));
                    assert(v@.skip(n as int).skip(i - n + 1) =~= v@.subrange(
                        i + 1,
                        v@.len() as int,
                    ));
                }
                match text::parse_usize_here(&v, n, i) {
                    Some(number) => {
                        let next: usize = if number < usize::MAX {
                            number + 1
                        } else {
                            number
                        };
                        let start = text::start_of_text(&v, i + 1, len);
                        let base = non_empty_fork_base_title(text::string_of_range(&v, start, len));
                        let mut out = "[fork".to_string();
                        out.append(text::decimal_of(next).as_str());
                        out.append("] ");
                        out.append(base.as_str());
                        return out;
                    },
                    None => {},
                }
            },
            None => {
                proof {
                    text::lemma_find_char_subrange(v@, ']', n as int, n as int);
                }
            },
        }
    }
    let mut out = "[fork1] ".to_string();
    out.append(non_empty_fork_base_title(t).as_str());
    out
}

/// `suffix` behind `text`, with a dot between them where there is a text.
pub open spec fn with_suffix(text: Seq<char>, suffix: Seq<char>) -> Seq<char> {
    if text.len() == 0 {
        suffix
    } else {
        text + " \u{00b7} "@ + suffix
    }
}

pub fn append_usage_suffix(text: String, suffix: String) -> (r: String)
    ensures
        r@ == with_suffix(text@, suffix@),
{
    if text.as_str().is_empty() {
        suffix
    } else {
        let mut out = text;
        out.append(" \u{00b7} ");
        out.append(suffix.as_str());
        out
    }
}

/// The agent that a title such as `Find files (@explore subagent)` names.
pub open spec fn tab_agent(title: Seq<char>) -> Option<Seq<char>> {
    match text::find(title, "(@"@) {
        Some(i) => {
            let after = title.skip(i + "(@"@.len());
            if " subagent)"@.is_suffix_of(after) {
                Some(after.take(after.len() - " subagent)"@.len()))
            } else {
                None
            }
        },
        None => None,
    }
}

/// The label of a subagent's tab: its agent, else the first four words of the title.
pub open spec fn tab_label(title: Seq<char>, fallback: Seq<char>) -> Seq<char> {
    match tab_agent(title) {
        Some(agent) => words_capitalized(agent),
        None => {
            let all = text::words(title);
            let label = text::join(
                all.take(
                    if all.len() < 4 {
                        all.len() as int
                    } else {
                        4
                    },
                ),
                " "@,
            );
            if label.len() == 0 {
                fallback
            } else {
                label
            }
        },
    }
}

pub fn subagent_tab_label(title: &str, fallback: &str) -> (r: String)
    ensures
        r@ == tab_label(title@, fallback@),
{
    let v = text::chars_of(title);
    let open_mark = text::chars_of("(@");
    let close_mark = text::chars_of(" subagent)");
    let n: usize = v.len();
    match text::find_here(&v, &open_mark, 0) {
        Some(i) => {
            let start: usize = i + open_mark.len();
            let ghost after = title@.skip(start as int);
            if n - start >= close_mark.len() {
                let stop: usize = n - close_mark.len();
                if text::occurs_here(&v, &close_mark, stop) {
                    proof {
                        assert(v@.subrange(stop as int, stop + close_mark@.len()) =~= after.subrange(
                            after.len() - close_mark@.len(),
                            after.len() as int,
                        ));
                        assert(v@.subrange(start as int, stop as int) =~= after.take(
                            after.len() - close_mark@.len(),
                        ));
                    }
                    let agent = text::string_of_range(&v, start, stop);
                    return titlecase_ascii(agent.as_str());
                }
                proof {
                    assert(v@.subrange(stop as int, stop + close_mark@.len()) =~= after.subrange(
                        after.len() - close_mark@.len(),
                        after.len() as int,
                    ));
                }
            }
        },
        None => {},
    }
    let mut parts = text::words_of(title);
    let ghost all = text::words(title@);
    if parts.len() > 4 {
        parts.truncate(4);
    }
    assert(text::views(parts@) =~= all.take(
        if all.len() < 4 {
            all.len() as int
        } else {
            4
        },
    ));
    let label = text::join_strings(&parts, " ");
    if label.as_str().is_empty() {
        fallback.to_owned()
    } else {
        label
    }
}

/// A part of the terminal title, cut to `max` characters; a longer one ends in dots.
pub open spec fn title_part(value: Seq<char>, max: int) -> Seq<char> {
    if value.len() <= max {
        value
    } else if max <= 3 {
        value.take(max)
    } else {
        value.take(max - 3) + "..."@
    }
}

pub fn truncate_terminal_title_part(value: &str, max_chars: usize) -> (r: String)
    ensures
        r@ == title_part(value@, max_chars as int),
{
    let v = text::chars_of(value);
    if v.len() <= max_chars {
        return text::string_of(&v);
    }
    if max_chars <= 3 {
        assert(value@.take(max_chars as int) =~= v@.subrange(0, max_chars as int));
        return text::string_of_range(&v, 0, max_chars);
    }
    assert(value@.take(max_chars - 3) =~= v@.subrange(0, max_chars - 3));
    let mut out = text::string_of_range(&v, 0, max_chars - 3);
    out.append("...");
    out
}

/// Selected text as it goes into the prompt: one line in backquotes, more in a code block.
pub open spec fn quoted_selection(text: Seq<char>) -> Seq<char> {
    let t = text::trim(text);
    if text::line_count(t) <= 1 {
        "`"@ + t + "`"@
    } else {
        "```\n"@ + t + "\n```"@
    }
}

pub fn format_selection_prompt_addition(text: &str) -> (r: String)
    ensures
        r@ == quoted_selection(text@),
{
    let t = text::trimmed(text);
    if text::at_most_one_line(t.as_str()) {
        let mut out = "`".to_string();
        out.append(t.as_str());
        out.append("`");
        out
    } else {
        let mut out = "```\n".to_string();
        out.append(t.as_str());
        out.append("\n```");
        out
    }
}

/// What is left of a stream error once its usual heading is gone.
pub open spec fn bare_stream_error(error: Seq<char>) -> Seq<char> {
    let t = text::trim(error);
    if "Streaming failed:"@.is_prefix_of(t) {
        text::trim(t.skip("Streaming failed:"@.len() as int))
    } else {
        text::trim(t)
    }
}

/// The warning that stands for a lost connection, if the error tells of one.
pub open spec fn lost_connection_warning(error: Seq<char>) -> Option<Seq<char>> {
    let bare = bare_stream_error(error);
    let low = text::lower_all(bare);
    let mark = "stream disconnected before completion"@;
    let heading = "Stream disconnected before completion"@;
    if mark.is_prefix_of(low) {
        let suffix = text::trim(text::trim_start_of(bare.skip(mark.len() as int), ':'));
        if suffix.len() == 0 {
            Some(heading)
        } else {
            Some(heading + ": "@ + suffix)
        }
    } else if text::contains(low, "before response.completed"@) || text::contains(
        low,
        "ended without a terminal completion event"@,
    ) || text::contains(low, "ended before sending a completion event"@) {
        Some(heading + ": "@ + bare)
    } else {
        None
    }
}

fn skip_char(v: &Vec<char>, c: char, from: usize) -> (i: usize)
    requires
        from <= v@.len(),
    ensures
        from <= i <= v@.len(),
        v@.skip(i as int) == text::trim_start_of(v@.skip(from as int), c),
{
    let mut i: usize = from;
    while i < v.len() && v[i] == c
        invariant
            from <= i <= v@.len(),
            text::trim_start_of(v@.skip(i as int), c) == text::trim_start_of(v@.skip(from as int), c),
        decreases v@.len() - i,
    {
        assert(v@.skip(i as int).drop_first() =~= v@.skip(i + 1));
        i += 1;
    }
    i
}

pub fn disconnected_stream_warning_message(error: &str) -> (r: Option<String>)
    ensures
        match r {
            Some(warning) => lost_connection_warning(error@) == Some(warning@),
            None => lost_connection_warning(error@) is None,
        },
{
    let t = text::trimmed(error);
    let v = text::chars_of(t.as_str());
    let heading_mark = text::chars_of("Streaming failed:");
    let from: usize = if text::occurs_here(&v, &heading_mark, 0) {
        heading_mark.len()
    } else {
        0
    };
    let b = text::trim_bounds(&v, from, v.len());
    proof {
        assert(v@.skip(heading_mark@.len() as int) =~= v@.subrange(
            heading_mark@.len() as int,
            v@.len() as int,
        ) || from == 0);
        assert(from == 0 ==> v@.subrange(0, v@.len() as int) =~= v@);
    }
    let bare = text::string_of_range(&v, b.0, b.1);
    assert(bare@ == bare_stream_error(error@));
    let w = text::chars_of(bare.as_str());
    let low = text::lowered(bare.as_str());
    let lv = text::chars_of(low.as_str());
    let mark = text::chars_of("stream disconnected before completion");
    let heading = "Stream disconnected before completion";
    if text::occurs_here(&lv, &mark, 0) {
        let i = skip_char(&w, ':', mark.len());
        let c = text::trim_bounds(&w, i, w.len());
        assert(w@.skip(i as int) =~= w@.subrange(i as int, w@.len() as int));
        let suffix = text::string_of_range(&w, c.0, c.1);
        let mut out = heading.to_string();
        if suffix.as_str().is_empty() {
            return Some(out);
        }
        out.append(": ");
        out.append(suffix.as_str());
        return Some(out);
    }
    if text::contains_str(low.as_str(), "before response.completed") || text::contains_str(
        low.as_str(),
        "ended without a terminal completion event",
    ) || text::contains_str(low.as_str(), "ended before sending a completion event") {
        let mut out = heading.to_string();
        out.append(": ");
        out.append(bare.as_str());
        return Some(out);
    }
    None
}

/// The built-in commands that a browser client cannot run.
pub open spec fn is_browser_unsupported(name: Seq<char>) -> bool {
    ||| name == "connect"@
    ||| name == "exit"@
    ||| name == "home"@
    ||| name == "remote"@
    ||| name == "sessions"@
    ||| name == "skills"@
    ||| name == "mcp"@
    ||| name == "themes"@
    ||| name == "timeline"@
}

pub fn is_remote_browser_unsupported_command(name: &str) -> (r: bool)
    ensures
        r == is_browser_unsupported(name@),
{
    text::same(name, "connect") || text::same(name, "exit") || text::same(name, "home") || text::same(name, "remote")
        || text::same(name, "sessions") || text::same(name, "skills") || text::same(name, "mcp") || text::same(
        name,
        "themes",
    ) || text::same(name, "timeline")
}

} // verus!
