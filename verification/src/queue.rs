//! Prompts that wait for a running turn to end.

use crate::text;
use vstd::prelude::*;
use vstd::string::*;

verus! {

/// A prompt with the images that its `[Image #N]` placeholders stand for.
#[derive(Debug)]
pub struct QueuedUserMessage {
    pub text: String,
    pub image_paths: Vec<String>,
}

pub struct QueuedMessageView {
    pub text: Seq<char>,
    pub image_paths: Seq<Seq<char>>,
}

impl View for QueuedUserMessage {
    type V = QueuedMessageView;

    open spec fn view(&self) -> QueuedMessageView {
        QueuedMessageView { text: self.text@, image_paths: text::views(self.image_paths@) }
    }
}

/// What can wait in a session's queue.
#[derive(Debug)]
pub enum QueuedItem {
    Message(QueuedUserMessage),
    Compact,
}

pub enum QueuedView {
    Message(QueuedMessageView),
    Compact,
}

impl View for QueuedItem {
    type V = QueuedView;

    open spec fn view(&self) -> QueuedView {
        match self {
            QueuedItem::Message(message) => QueuedView::Message(message@),
            QueuedItem::Compact => QueuedView::Compact,
        }
    }
}

pub open spec fn queue_view(items: Seq<QueuedItem>) -> Seq<QueuedView> {
    items.map_values(|item: QueuedItem| item@)
}

/// A queued item on one line.
pub open spec fn preview_of(item: QueuedView) -> Seq<char> {
    match item {
        QueuedView::Message(message) => if !text::is_blank(message.text) {
            text::replace_char(message.text, '\n', ' ')
        } else if message.image_paths.len() == 0 {
            Seq::empty()
        } else if message.image_paths.len() == 1 {
            "[Image]"@
        } else {
            "["@ + text::decimal(message.image_paths.len()) + " images]"@
        },
        QueuedView::Compact => "/compact"@,
    }
}

impl QueuedItem {
    pub fn preview(&self) -> (r: String)
        ensures
            r@ == preview_of(self@),
    {
        match self {
            QueuedItem::Message(message) => {
                if !text::blank(message.text.as_str()) {
                    return text::replaced_char(message.text.as_str(), '\n', ' ');
                }
                let count: usize = message.image_paths.len();
                if count == 0 {
                    String::new()
                } else if count == 1 {
                    "[Image]".to_string()
                } else {
                    let mut out = "[".to_string();
                    out.append(text::decimal_of(count).as_str());
                    out.append(" images]");
                    out
                }
            },
            QueuedItem::Compact => "/compact".to_string(),
        }
    }

    pub fn is_message(&self) -> (r: bool)
        ensures
            r == (self@ is Message),
    {
        match self {
            QueuedItem::Message(_) => true,
            QueuedItem::Compact => false,
        }
    }
}

pub open spec fn placeholder(n: nat) -> Seq<char> {
    "[Image #"@ + text::decimal(n) + "]"@
}

pub fn placeholder_for(n: usize) -> (r: String)
    ensures
        r@ == placeholder(n as nat),
{
    let mut out = "[Image #".to_string();
    out.append(text::decimal_of(n).as_str());
    out.append("]");
    out
}

/// A bracketed text that begins like a placeholder, with its number moved up by `offset` if it
/// is one of the first `count`.
pub open spec fn moved_placeholder(mark: Seq<char>, offset: nat, count: nat) -> Seq<char> {
    match text::parse_usize(mark.subrange("[Image #"@.len() as int, mark.len() - 1)) {
        Some(n) => if 1 <= n <= count {
            placeholder(offset + n as nat)
        } else {
            mark
        },
        None => mark,
    }
}

/// `s` with every placeholder of its own images moved up by `offset`.
pub open spec fn renumbered(s: Seq<char>, offset: nat, count: nat) -> Seq<char>
    decreases s.len(),
{
    match text::find(s, "[Image #"@) {
        None => s,
        Some(start) => match text::find_char_from(s, ']', start) {
            None => s,
            Some(end) => if start <= end < s.len() {
                s.take(start) + moved_placeholder(s.subrange(start, end + 1), offset, count)
                    + renumbered(s.skip(end + 1), offset, count)
            } else {
                s
            },
        },
    }
}

/// Placeholders are left alone where there is nothing to move.
pub open spec fn with_moved_images(s: Seq<char>, offset: nat, count: nat) -> Seq<char> {
    if offset == 0 || count == 0 {
        s
    } else {
        renumbered(s, offset, count)
    }
}

proof fn lemma_renumbered_step(
    s: Seq<char>,
    from: int,
    start: int,
    end: int,
    offset: nat,
    count: nat,
)
    requires
        0 <= from <= s.len(),
        text::find_from(s, "[Image #"@, from) == Some(start),
        text::find_char_from(s, ']', start) == Some(end),
    ensures
        from <= start,
        start + 8 <= end < s.len(),
        renumbered(s.skip(from), offset, count) == s.subrange(from, start) + moved_placeholder(
            s.subrange(start, end + 1),
            offset,
            count,
        ) + renumbered(s.skip(end + 1), offset, count),
        s.subrange(start, end + 1).subrange("[Image #"@.len() as int, end - start) == s.subrange(
            start + 8,
            end,
        ),
{
    reveal_strlit("[Image #");
    let rest = s.skip(from);
    text::lemma_find_subrange(s, "[Image #"@, from, from);
    text::lemma_find_from_some(s, "[Image #"@, from);
    text::lemma_find_char_subrange(s, ']', from, start);
    text::lemma_found_char(s, ']', start);
    lemma_bracket_after_mark(s, start, end);
    assert(rest.take(start - from) =~= s.subrange(from, start));
    assert(rest.subrange(start - from, end - from + 1) =~= s.subrange(start, end + 1));
    assert(rest.skip(end - from + 1) =~= s.skip(end + 1));
    assert(s.subrange(start, end + 1).subrange(8, end - start) =~= s.subrange(start + 8, end));
}

proof fn lemma_renumbered_end(s: Seq<char>, from: int, offset: nat, count: nat)
    requires
        0 <= from <= s.len(),
        match text::find_from(s, "[Image #"@, from) {
            Some(start) => text::find_char_from(s, ']', start) is None,
            None => true,
        },
    ensures
        renumbered(s.skip(from), offset, count) == s.subrange(from, s.len() as int),
{
    let rest = s.skip(from);
    text::lemma_find_subrange(s, "[Image #"@, from, from);
    if text::find_from(s, "[Image #"@, from) is Some {
        let start = text::find_from(s, "[Image #"@, from)->0;
        text::lemma_find_from_some(s, "[Image #"@, from);
        text::lemma_find_char_subrange(s, ']', from, start);
    }
    assert(rest =~= s.subrange(from, s.len() as int));
}

pub fn renumber_image_placeholders(text: &str, image_offset: usize, image_count: usize) -> (r:
    String)
    requires
        image_offset + image_count <= usize::MAX,
    ensures
        r@ == with_moved_images(text@, image_offset as nat, image_count as nat),
{
    if image_offset == 0 || image_count == 0 {
        return text.to_owned();
    }
    let v = text::chars_of(text);
    let mark = text::chars_of("[Image #");
    let n: usize = v.len();
    let ghost offset = image_offset as nat;
    let ghost count = image_count as nat;
    let ghost whole = renumbered(v@, offset, count);
    let mut out = String::new();
    let mut from: usize = 0;
    proof {
        assert(v@.skip(0) =~= v@);
        assert(Seq::<char>::empty() + whole =~= whole);
    }
    loop
        invariant_except_break
            out@ + renumbered(v@.skip(from as int), offset, count) == whole,
        invariant
            n == v@.len(),
            from <= n,
            mark@ == "[Image #"@,
            offset == image_offset,
            count == image_count,
            image_offset + image_count <= usize::MAX,
        ensures
            out@ == whole,
        decreases n - from,
    {
        let found: Option<(usize, usize)> = match text::find_here(&v, &mark, from) {
            None => None,
            Some(start) => match text::find_char_here(&v, ']', start) {
                None => None,
                Some(end) => Some((start, end)),
            },
        };
        match found {
            None => {
                proof {
                    lemma_renumbered_end(v@, from as int, offset, count);
                }
                text::append_range(&mut out, &v, from, n);
                break;
            },
            Some((start, end)) => {
                proof {
                    lemma_renumbered_step(
                        v@,
                        from as int,
                        start as int,
                        end as int,
                        offset,
                        count,
                    );
                }
                let ghost before = out@;
                let ghost moved = moved_placeholder(
                    v@.subrange(start as int, end + 1),
                    offset,
                    count,
                );
                let ghost later = renumbered(v@.skip(end + 1), offset, count);
                text::append_range(&mut out, &v, from, start);
                let own = own_placeholder(&v, start, end, image_offset, image_count);
                out.append(own.as_str());
                assert(out@ + later =~= before + (v@.subrange(from as int, start as int) + moved
                    + later));
                from = end + 1;
            },
        }
    }
    out
}

fn own_placeholder(
    v: &Vec<char>,
    start: usize,
    end: usize,
    image_offset: usize,
    image_count: usize,
) -> (r: String)
    requires
        start + 8 <= end < v@.len(),
        image_offset + image_count <= usize::MAX,
        v@.subrange(start as int, end + 1).subrange("[Image #"@.len() as int, end - start)
            == v@.subrange(start + 8, end as int),
    ensures
        r@ == moved_placeholder(
            v@.subrange(start as int, end + 1),
            image_offset as nat,
            image_count as nat,
        ),
{
    let n: usize = v.len();
    assert(end < n);
    match text::parse_usize_here(v, start + 8, end) {
        Some(number) => {
            if 1 <= number && number <= image_count {
                return placeholder_for(image_offset + number);
            }
        },
        None => {},
    }
    text::string_of_range(v, start, end + 1)
}

/// The closing bracket after a placeholder's beginning stands behind that beginning.
proof fn lemma_bracket_after_mark(s: Seq<char>, start: int, end: int)
    requires
        0 <= start <= end < s.len(),
        text::occurs_at(s, "[Image #"@, start),
        s[end] == ']',
    ensures
        start + 8 <= end,
{
    reveal_strlit("[Image #");
    let mark = "[Image #"@;
    if end < start + 8 {
        assert(s.subrange(start, start + mark.len())[end - start] == mark[end - start]);
    }
}

/// Placeholders for `count` images after the first `offset`, blanks between them.
pub open spec fn placeholder_run(offset: nat, count: nat) -> Seq<char> {
    text::join(Seq::new(count, |i: int| placeholder(offset + i as nat + 1)), " "@)
}

/// A queued prompt as part of a joint one. One that is blank but has images shows these.
pub open spec fn submission_text(s: Seq<char>, offset: nat, count: nat) -> Seq<char> {
    let moved = with_moved_images(s, offset, count);
    if !text::is_blank(moved) || count == 0 {
        moved
    } else {
        placeholder_run(offset, count)
    }
}

pub fn queued_message_text_for_combined_submission(
    text: &str,
    image_offset: usize,
    image_count: usize,
) -> (r: String)
    requires
        image_offset + image_count <= usize::MAX,
    ensures
        r@ == submission_text(text@, image_offset as nat, image_count as nat),
{
    let moved = renumber_image_placeholders(text, image_offset, image_count);
    if !text::blank(moved.as_str()) || image_count == 0 {
        return moved;
    }
    let mut parts: Vec<String> = Vec::new();
    let ghost wanted = Seq::new(
        image_count as nat,
        |i: int| placeholder(image_offset as nat + i as nat + 1),
    );
    for i in 0..image_count
        invariant
            image_offset + image_count <= usize::MAX,
            wanted == Seq::new(
                image_count as nat,
                |i: int| placeholder(image_offset as nat + i as nat + 1),
            ),
            text::views(parts@) == wanted.take(i as int),
    {
        let ghost before = parts@;
        parts.push(placeholder_for(image_offset + i + 1));
        assert(text::views(parts@) =~= text::views(before).push(wanted[i as int]));
        assert(wanted.take(i + 1) =~= wanted.take(i as int).push(wanted[i as int]));
    }
    assert(wanted.take(image_count as int) =~= wanted);
    text::join_strings(&parts, " ")
}

pub open spec fn combined_images(ms: Seq<QueuedMessageView>) -> Seq<Seq<char>>
    decreases ms.len(),
{
    if ms.len() == 0 {
        Seq::empty()
    } else {
        combined_images(ms.drop_last()) + ms.last().image_paths
    }
}

pub open spec fn combined_parts(ms: Seq<QueuedMessageView>) -> Seq<Seq<char>>
    decreases ms.len(),
{
    if ms.len() == 0 {
        Seq::empty()
    } else {
        let before = combined_parts(ms.drop_last());
        let part = submission_text(
            ms.last().text,
            combined_images(ms.drop_last()).len(),
            ms.last().image_paths.len(),
        );
        if part.len() == 0 {
            before
        } else {
            before.push(part)
        }
    }
}

/// Several prompts as one: a line for each, and all images in order.
pub open spec fn combined(ms: Seq<QueuedMessageView>) -> QueuedMessageView {
    QueuedMessageView {
        text: text::join(combined_parts(ms), "\n"@),
        image_paths: combined_images(ms),
    }
}

pub open spec fn message_views(ms: Seq<QueuedUserMessage>) -> Seq<QueuedMessageView> {
    ms.map_values(|m: QueuedUserMessage| m@)
}

fn append_all(out: &mut Vec<String>, more: Vec<String>)
    ensures
        final(out)@ == old(out)@ + more@,
{
    let ghost all = more@;
    let ghost before = out@;
    for x in it: more
        invariant
            it.seq() == all,
            out@ == before + all.take(it.index()),
    {
        out.push(x);
        assert(all.take(it.index() + 1) =~= all.take(it.index()).push(x));
        assert(out@ =~= before + all.take(it.index() + 1));
    }
    assert(all.take(all.len() as int) =~= all);
}

pub fn combine_queued_messages(queued_messages: Vec<QueuedUserMessage>) -> (r: QueuedUserMessage)
    ensures
        r@ == combined(message_views(queued_messages@)),
{
    let ghost all = message_views(queued_messages@);
    let mut parts: Vec<String> = Vec::new();
    let mut image_paths: Vec<String> = Vec::new();
    for queued in it: queued_messages
        invariant
            all == message_views(it.seq()),
            text::views(parts@) == combined_parts(all.take(it.index())),
            text::views(image_paths@) == combined_images(all.take(it.index())),
    {
        let ghost m = queued@;
        proof {
            assert(all[it.index()] == m);
            assert(all.take(it.index() + 1).drop_last() =~= all.take(it.index()));
        }
        let image_offset: usize = image_paths.len();
        let image_count: usize = queued.image_paths.len();
        let ghost images_before = image_paths@;
        append_all(&mut image_paths, queued.image_paths);
        let total: usize = image_paths.len();
        proof {
            assert(text::views(image_paths@) =~= text::views(images_before) + m.image_paths);
            assert(text::views(images_before).len() == image_offset);
            assert(image_offset + image_count == total);
        }
        let part = queued_message_text_for_combined_submission(
            queued.text.as_str(),
            image_offset,
            image_count,
        );
        if !part.as_str().is_empty() {
            let ghost before = parts@;
            parts.push(part);
            assert(text::views(parts@) =~= text::views(before).push(part@));
        }
    }
    assert(all.take(all.len() as int) =~= all);
    QueuedUserMessage { text: text::join_strings(&parts, "\n"), image_paths }
}

/// A prompt with a placeholder for each of its first `n` images that it does not mention.
pub open spec fn with_placeholders(prompt: Seq<char>, n: nat) -> Seq<char>
    decreases n,
{
    if n == 0 {
        prompt
    } else {
        let before = with_placeholders(prompt, (n - 1) as nat);
        if text::contains(before, placeholder(n)) {
            before
        } else if before.len() > 0 && !text::is_white(before.last()) {
            before.push(' ') + placeholder(n)
        } else {
            before + placeholder(n)
        }
    }
}

pub fn remote_prompt_with_image_placeholders(prompt: String, image_count: usize) -> (r: String)
    ensures
        r@ == with_placeholders(prompt@, image_count as nat),
{
    let mut output = prompt;
    for i in 0..image_count
        invariant
            output@ == with_placeholders(prompt@, i as nat),
    {
        let mark = placeholder_for(i + 1);
        if !text::contains_str(output.as_str(), mark.as_str()) {
            let v = text::chars_of(output.as_str());
            if v.len() > 0 && !text::is_white_char(v[v.len() - 1]) {
                output.push(' ');
            }
            output.append(mark.as_str());
        }
    }
    output
}

/// How many messages stand before the first `/compact`.
pub open spec fn leading_count(items: Seq<QueuedView>) -> nat
    decreases items.len(),
{
    if items.len() > 0 && items[0] is Message {
        1 + leading_count(items.drop_first())
    } else {
        0
    }
}

/// The messages before the first `/compact`.
pub open spec fn leading(items: Seq<QueuedView>) -> Seq<QueuedMessageView> {
    items.take(leading_count(items) as int).map_values(|item: QueuedView| item->Message_0)
}

/// What stands behind the first `/compact`.
pub open spec fn behind_compact(items: Seq<QueuedView>) -> Seq<QueuedView> {
    if leading_count(items) < items.len() {
        items.skip(leading_count(items) as int + 1)
    } else {
        Seq::empty()
    }
}

/// A queue taken apart for submission.
pub struct QueueSplit {
    pub messages: Vec<QueuedUserMessage>,
    pub compact: bool,
    pub rest: Vec<QueuedItem>,
}

pub proof fn lemma_leading_count(items: Seq<QueuedView>)
    ensures
        leading_count(items) <= items.len(),
        forall|i: int| 0 <= i < leading_count(items) ==> #[trigger] items[i] is Message,
        leading_count(items) < items.len() ==> items[leading_count(items) as int] is Compact,
    decreases items.len(),
{
    if items.len() > 0 && items[0] is Message {
        lemma_leading_count(items.drop_first());
        assert forall|i: int| 0 <= i < leading_count(items) implies #[trigger] items[i] is Message by {
            if i > 0 {
                assert(items.drop_first()[i - 1] == items[i]);
            }
        }
    }
}

proof fn lemma_leading_is(items: Seq<QueuedView>, n: nat)
    requires
        n <= items.len(),
        forall|i: int| 0 <= i < n ==> #[trigger] items[i] is Message,
        n < items.len() ==> items[n as int] is Compact,
    ensures
        leading_count(items) == n,
{
    lemma_leading_count(items);
    if leading_count(items) < n {
        assert(items[leading_count(items) as int] is Message);
    }
}

/// Splits a queue at its first `/compact`.
pub fn split_queue(items: Vec<QueuedItem>) -> (r: QueueSplit)
    ensures
        message_views(r.messages@) == leading(queue_view(items@)),
        r.compact == (leading_count(queue_view(items@)) < items@.len()),
        queue_view(r.rest@) == behind_compact(queue_view(items@)),
{
    let ghost all = queue_view(items@);
    let mut messages: Vec<QueuedUserMessage> = Vec::new();
    let mut compact = false;
    let mut rest: Vec<QueuedItem> = Vec::new();
    for item in it: items
        invariant
            all == queue_view(it.seq()),
            messages@.len() <= it.index(),
            forall|i: int| 0 <= i < messages@.len() ==> #[trigger] all[i] is Message,
            message_views(messages@) == all.take(messages@.len() as int).map_values(
                |item: QueuedView| item->Message_0,
            ),
            !compact ==> messages@.len() == it.index() && rest@.len() == 0,
            compact ==> messages@.len() < it.index() && all[messages@.len() as int] is Compact
                && queue_view(rest@) == all.subrange(messages@.len() as int + 1, it.index()),
    {
        proof {
            assert(all[it.index()] == item@);
        }
        if compact {
            let ghost before = rest@;
            rest.push(item);
            assert(queue_view(rest@) =~= queue_view(before).push(item@));
            assert(all.subrange(messages@.len() as int + 1, it.index() + 1) =~= all.subrange(
                messages@.len() as int + 1,
                it.index(),
            ).push(item@));
        } else {
            match item {
                QueuedItem::Message(message) => {
                    let ghost before = messages@;
                    messages.push(message);
                    assert(message_views(messages@) =~= message_views(before).push(message@));
                    assert(all.take(messages@.len() as int).map_values(
                        |item: QueuedView| item->Message_0,
                    ) =~= all.take(before.len() as int).map_values(
                        |item: QueuedView| item->Message_0,
                    ).push(message@));
                },
                QueuedItem::Compact => {
                    compact = true;
                    assert(queue_view(rest@) =~= all.subrange(
                        messages@.len() as int + 1,
                        it.index() + 1,
                    ));
                },
            }
        }
    }
    proof {
        lemma_leading_is(all, messages@.len());
        if compact {
            assert(all.subrange(messages@.len() as int + 1, all.len() as int) =~= all.skip(
                messages@.len() as int + 1,
            ));
        } else {
            assert(queue_view(rest@) =~= Seq::<QueuedView>::empty());
        }
    }
    QueueSplit { messages, compact, rest }
}

/// Splitting a queue loses nothing and keeps the order: the leading messages, the `/compact`
/// behind them and the rest make up the queue.
pub proof fn law_split_queue_keeps_everything(items: Seq<QueuedView>)
    ensures
        leading_count(items) == items.len() ==> items == leading(items).map_values(
            |m: QueuedMessageView| QueuedView::Message(m),
        ),
        leading_count(items) < items.len() ==> items == leading(items).map_values(
            |m: QueuedMessageView| QueuedView::Message(m),
        ).push(QueuedView::Compact) + behind_compact(items),
{
    lemma_leading_count(items);
    let n = leading_count(items) as int;
    let front = leading(items).map_values(|m: QueuedMessageView| QueuedView::Message(m));
    assert forall|i: int| 0 <= i < n implies #[trigger] front[i] == items[i] by {
        assert(items[i] is Message);
    }
    if n < items.len() {
        assert(items =~= front.push(QueuedView::Compact) + behind_compact(items));
    } else {
        assert(items =~= front);
    }
}

/// A first prompt keeps its text: there is nothing to move its placeholders past.
pub proof fn law_first_prompt_is_kept(m: QueuedMessageView)
    requires
        !text::is_blank(m.text),
    ensures
        combined(seq![m]).text == m.text,
        combined(seq![m]).image_paths == m.image_paths,
{
    let ms = seq![m];
    assert(ms.drop_last() =~= Seq::<QueuedMessageView>::empty());
    assert(combined_images(ms.drop_last()) == Seq::<Seq<char>>::empty());
    assert(combined_parts(ms.drop_last()) == Seq::<Seq<char>>::empty());
    assert(combined_images(ms) =~= m.image_paths);
    if m.text.len() == 0 {
        assert(m.text =~= Seq::<char>::empty());
        assert(text::trim_start(m.text) == m.text);
        assert(text::trim_end(m.text) == m.text);
    }
    assert(combined_parts(ms) =~= seq![m.text]);
}

/// The parts of prompts that come behind `offset` images.
spec fn later_parts(ms: Seq<QueuedMessageView>, offset: nat) -> Seq<Seq<char>>
    decreases ms.len(),
{
    if ms.len() == 0 {
        Seq::empty()
    } else {
        let before = later_parts(ms.drop_last(), offset);
        let part = submission_text(
            ms.last().text,
            offset + combined_images(ms.drop_last()).len(),
            ms.last().image_paths.len(),
        );
        if part.len() == 0 {
            before
        } else {
            before.push(part)
        }
    }
}

proof fn lemma_combined_both(x: Seq<QueuedMessageView>, y: Seq<QueuedMessageView>)
    ensures
        combined_images(x + y) == combined_images(x) + combined_images(y),
        combined_parts(x + y) == combined_parts(x) + later_parts(y, combined_images(x).len()),
    decreases y.len(),
{
    if y.len() == 0 {
        assert(x + y =~= x);
        assert(combined_images(x) + Seq::<Seq<char>>::empty() =~= combined_images(x));
        assert(combined_parts(x) + Seq::<Seq<char>>::empty() =~= combined_parts(x));
    } else {
        let front = y.drop_last();
        assert((x + y).drop_last() =~= x + front);
        assert((x + y).last() == y.last());
        lemma_combined_both(x, front);
        assert(combined_images(x + y) =~= combined_images(x) + combined_images(y));
        assert(combined_parts(x + y) =~= combined_parts(x) + later_parts(
            y,
            combined_images(x).len(),
        ));
    }
}

/// A placeholder, and a run of them, is not blank.
proof fn lemma_run_is_not_blank(offset: nat, count: nat)
    requires
        count > 0,
    ensures
        !text::is_blank(placeholder_run(offset, count)),
{
    let all = Seq::new(count, |i: int| placeholder(offset + i as nat + 1));
    let run = placeholder_run(offset, count);
    text::lemma_join_begins(all, " "@);
    reveal_strlit("[Image #");
    assert(all[0].len() > 0 && all[0][0] == '[');
    assert(run.take(all[0].len() as int)[0] == run[0]);
    text::lemma_blank(run);
    assert(!text::is_white(run[0]));
}

/// The part of a prompt with images is not blank.
proof fn lemma_part_with_images(s: Seq<char>, offset: nat, count: nat)
    requires
        count > 0,
    ensures
        !text::is_blank(submission_text(s, offset, count)),
{
    lemma_run_is_not_blank(offset, count);
}

proof fn lemma_joined_is_not_blank(parts: Seq<Seq<char>>, sep: Seq<char>, k: int)
    requires
        0 <= k < parts.len(),
        !text::is_blank(parts[k]),
    ensures
        !text::is_blank(text::join(parts, sep)),
{
    let front = parts.take(k);
    let back = parts.skip(k);
    assert(parts =~= front + back);
    text::lemma_join_both(front, back, sep);
    text::lemma_join_begins(back, sep);
    assert(back[0] == parts[k]);
    text::lemma_blank(parts[k]);
    let i = choose|i: int| 0 <= i < parts[k].len() && !text::is_white(#[trigger] parts[k][i]);
    let tail = text::join(back, sep);
    assert(tail.take(parts[k].len() as int)[i] == tail[i]);
    let whole = text::join(parts, sep);
    text::lemma_blank(whole);
    let at = whole.len() - tail.len() + i;
    assert(whole[at] == tail[i]);
}

/// Where there are images, some part is not blank; and no part is empty.
proof fn lemma_parts(ms: Seq<QueuedMessageView>)
    ensures
        combined_images(ms).len() > 0 ==> exists|k: int|
            0 <= k < combined_parts(ms).len() && !text::is_blank(#[trigger] combined_parts(ms)[k]),
        forall|k: int| 0 <= k < combined_parts(ms).len() ==> (#[trigger] combined_parts(ms)[k]).len()
            > 0,
    decreases ms.len(),
{
    if ms.len() > 0 {
        let before = combined_parts(ms.drop_last());
        lemma_parts(ms.drop_last());
        let offset = combined_images(ms.drop_last()).len();
        let count = ms.last().image_paths.len();
        let part = submission_text(ms.last().text, offset, count);
        let after = combined_parts(ms);
        if count > 0 {
            lemma_part_with_images(ms.last().text, offset, count);
            text::lemma_blank(part);
            assert(after[after.len() - 1] == part);
        } else if combined_images(ms).len() > 0 {
            let k = choose|k: int|
                0 <= k < before.len() && !text::is_blank(#[trigger] before[k]);
            assert(after[k] == before[k]);
        }
    }
}

/// Prompts that were combined are kept as they are where they are combined with others.
pub proof fn lemma_combined_is_kept(ms: Seq<QueuedMessageView>)
    ensures
        submission_text(combined(ms).text, 0, combined(ms).image_paths.len()) == combined(ms).text,
        combined(ms).text.len() == 0 <==> combined_parts(ms).len() == 0,
{
    let parts = combined_parts(ms);
    lemma_parts(ms);
    if combined_images(ms).len() > 0 {
        let k = choose|k: int| 0 <= k < parts.len() && !text::is_blank(#[trigger] parts[k]);
        lemma_joined_is_not_blank(parts, "\n"@, k);
    }
    if parts.len() > 0 {
        text::lemma_join_begins(parts, "\n"@);
        assert(parts[0].len() > 0);
    }
}

/// Prompts can be combined bit by bit: what was combined, combined with what comes behind, is all
/// of it combined. The images stand one behind the other.
pub proof fn law_combining_is_associative(
    first: Seq<QueuedMessageView>,
    rest: Seq<QueuedMessageView>,
)
    ensures
        combined(seq![combined(first)] + rest) == combined(first + rest),
        combined(first + rest).image_paths == combined(first).image_paths + combined(
            rest,
        ).image_paths,
{
    let c = combined(first);
    let one = seq![c];
    assert(one.drop_last() =~= Seq::<QueuedMessageView>::empty());
    assert(combined_images(one.drop_last()) =~= Seq::<Seq<char>>::empty());
    assert(combined_parts(one.drop_last()) =~= Seq::<Seq<char>>::empty());
    assert(combined_images(one) =~= c.image_paths);
    lemma_combined_is_kept(first);
    assert(combined_parts(one) =~= (if c.text.len() == 0 {
        Seq::<Seq<char>>::empty()
    } else {
        seq![c.text]
    }));
    lemma_combined_both(one, rest);
    lemma_combined_both(first, rest);
    let more = later_parts(rest, combined_images(first).len());
    text::lemma_join_both(combined_parts(one), more, "\n"@);
    text::lemma_join_both(combined_parts(first), more, "\n"@);
    assert(text::join(combined_parts(one), "\n"@) =~= c.text);
}

/// A prompt without text and images adds no line to those before it, and one that is blank but has
/// images adds their placeholders, numbered behind the images before.
pub proof fn law_blank_prompts(ms: Seq<QueuedMessageView>, m: QueuedMessageView)
    ensures
        m.text.len() == 0 && m.image_paths.len() == 0 ==> combined(ms.push(m)) == combined(ms),
        text::is_blank(m.text) && m.image_paths.len() > 0 ==> combined_parts(ms.push(m))
            == combined_parts(ms).push(
            placeholder_run(combined_images(ms).len(), m.image_paths.len()),
        ),
{
    let all = ms.push(m);
    let offset = combined_images(ms).len();
    let count = m.image_paths.len();
    assert(all.drop_last() =~= ms);
    if m.text.len() == 0 && count == 0 {
        assert(combined_images(all) =~= combined_images(ms));
    }
    if text::is_blank(m.text) && count > 0 {
        reveal_strlit("[Image #");
        text::lemma_blank(m.text);
        if let Some(i) = text::find(m.text, "[Image #"@) {
            text::lemma_find_from_some(m.text, "[Image #"@, 0);
            assert(m.text.subrange(i, i + 8)[0] == m.text[i]);
            assert("[Image #"@[0] == '[');
            assert(text::is_white(m.text[i]));
        }
        assert(renumbered(m.text, offset, count) == m.text);
        lemma_run_is_not_blank(offset, count);
        text::lemma_blank(placeholder_run(offset, count));
    }
}

proof fn lemma_with_placeholders(prompt: Seq<char>, n: nat)
    ensures
        prompt.len() <= with_placeholders(prompt, n).len(),
        with_placeholders(prompt, n).take(prompt.len() as int) == prompt,
        forall|i: nat|
            1 <= i <= n ==> text::contains(with_placeholders(prompt, n), #[trigger] placeholder(i)),
    decreases n,
{
    if n == 0 {
        assert(prompt.take(prompt.len() as int) =~= prompt);
    } else {
        let before = with_placeholders(prompt, (n - 1) as nat);
        let after = with_placeholders(prompt, n);
        lemma_with_placeholders(prompt, (n - 1) as nat);
        let mark = placeholder(n);
        let added = if text::contains(before, mark) {
            Seq::empty()
        } else if before.len() > 0 && !text::is_white(before.last()) {
            seq![' '] + mark
        } else {
            mark
        };
        assert(after =~= Seq::<char>::empty() + before + added);
        assert(after.take(prompt.len() as int) =~= before.take(prompt.len() as int));
        assert forall|i: nat| 1 <= i <= n implies text::contains(after, #[trigger] placeholder(i)) by {
            if i < n || text::contains(before, mark) {
                text::lemma_contains_more(Seq::empty(), before, added, placeholder(i));
            } else {
                let front = after.take(after.len() - mark.len());
                assert(mark.subrange(0, mark.len() as int) =~= mark);
                assert(text::occurs_at(mark, mark, 0));
                text::lemma_contains_more(front, mark, Seq::empty(), mark);
                assert(after =~= front + mark + Seq::<char>::empty());
            }
        }
    }
}

proof fn lemma_has_all(prompt: Seq<char>, n: nat)
    requires
        forall|i: nat| 1 <= i <= n ==> text::contains(prompt, #[trigger] placeholder(i)),
    ensures
        with_placeholders(prompt, n) == prompt,
    decreases n,
{
    if n > 0 {
        lemma_has_all(prompt, (n - 1) as nat);
        assert(text::contains(prompt, placeholder(n)));
    }
}

/// A prompt with placeholders begins as it was and mentions every image; it stays as it was
/// exactly where it mentioned them all; and to do it again changes nothing.
pub proof fn law_every_image_is_mentioned(prompt: Seq<char>, n: nat)
    ensures
        ({
            let r = with_placeholders(prompt, n);
            &&& prompt.len() <= r.len()
            &&& r.take(prompt.len() as int) == prompt
            &&& forall|i: nat| 1 <= i <= n ==> text::contains(r, #[trigger] placeholder(i))
            &&& r == prompt <==> forall|i: nat|
                1 <= i <= n ==> text::contains(prompt, #[trigger] placeholder(i))
            &&& with_placeholders(r, n) == r
        }),
{
    lemma_with_placeholders(prompt, n);
    lemma_has_all(with_placeholders(prompt, n), n);
    if forall|i: nat| 1 <= i <= n ==> text::contains(prompt, #[trigger] placeholder(i)) {
        lemma_has_all(prompt, n);
    }
}

} // verus!
