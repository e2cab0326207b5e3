//! The JSON documents in which tools report, as far as the transcript reads them.

use crate::text;
use vstd::prelude::*;
use vstd::string::*;

verus! {

/// A member of an object: a string, or the JSON text of any other value.
#[derive(Debug)]
pub enum JsonField {
    Text(String),
    Raw(String),
}

pub enum FieldView {
    Text(Seq<char>),
    Raw(Seq<char>),
}

impl View for JsonField {
    type V = FieldView;

    open spec fn view(&self) -> FieldView {
        match self {
            JsonField::Text(s) => FieldView::Text(s@),
            JsonField::Raw(s) => FieldView::Raw(s@),
        }
    }
}

/// A member of an object, with its name.
#[derive(Debug)]
pub struct JsonMember {
    pub key: String,
    pub field: JsonField,
}

pub struct MemberView {
    pub key: Seq<char>,
    pub field: FieldView,
}

impl View for JsonMember {
    type V = MemberView;

    open spec fn view(&self) -> MemberView {
        MemberView { key: self.key@, field: self.field@ }
    }
}

/// A JSON document: an object, `null`, or the JSON text of anything else.
#[derive(Debug)]
pub enum JsonDoc {
    Object(Vec<JsonMember>),
    Null,
    Other(String),
}

pub enum DocView {
    Object(Seq<MemberView>),
    Null,
    Other(Seq<char>),
}

pub open spec fn members_view(members: Seq<JsonMember>) -> Seq<MemberView> {
    members.map_values(|m: JsonMember| m@)
}

impl View for JsonDoc {
    type V = DocView;

    open spec fn view(&self) -> DocView {
        match self {
            JsonDoc::Object(members) => DocView::Object(members_view(members@)),
            JsonDoc::Null => DocView::Null,
            JsonDoc::Other(s) => DocView::Other(s@),
        }
    }
}

/// The document that a text spells, as `serde_json::from_str` reads it.
pub uninterp spec fn json_parse(text: Seq<char>) -> Option<DocView>;

/// The text of a document, as `serde_json` writes it.
pub uninterp spec fn json_text(doc: DocView) -> Seq<char>;

/// The indented form of a JSON text, as `serde_json::to_string_pretty` writes it.
pub uninterp spec fn json_pretty(text: Seq<char>) -> Option<Seq<char>>;

pub open spec fn opt_doc(doc: Option<JsonDoc>) -> Option<DocView> {
    match doc {
        Some(d) => Some(d@),
        None => None,
    }
}

/// No two members have the same key.
pub open spec fn has_distinct_keys(members: Seq<MemberView>) -> bool {
    forall|i: int, j: int|
        0 <= i < j < members.len() ==> #[trigger] members[i].key != #[trigger] members[j].key
}

/// The JSON text is that of a member of an object that was read.
pub open spec fn was_read(raw: Seq<char>) -> bool {
    exists|text: Seq<char>, members: Seq<MemberView>, i: int|
        #![trigger json_parse(text), members[i]]
        json_parse(text) == Some(DocView::Object(members)) && 0 <= i < members.len()
            && members[i].field == FieldView::Raw(raw)
}

/// Every member that is no string was read.
pub open spec fn is_rereadable(members: Seq<MemberView>) -> bool {
    forall|i: int|
        0 <= i < members.len() ==> match (#[trigger] members[i]).field {
            FieldView::Text(_) => true,
            FieldView::Raw(raw) => was_read(raw),
        }
}

/// An object that holds the strings of `members` under the same keys.
pub open spec fn reads_back(members: Seq<MemberView>, read: Option<DocView>) -> bool {
    read matches Some(DocView::Object(found)) && forall|key: Seq<char>|
        match #[trigger] member(members, key) {
            Some(FieldView::Text(s)) => member(found, key) == Some(FieldView::Text(s)),
            _ => true,
        }
}

/// `serde_json::from_str`: the document that the text spells, or nothing where it is no JSON. An
/// object that was read has no key twice.
#[verifier::external_body]
pub(crate) fn parse_json(text: &str) -> (r: Option<JsonDoc>)
    ensures
        opt_doc(r) == json_parse(text@),
        opt_doc(r) matches Some(DocView::Object(members)) ==> has_distinct_keys(members),
{
    match serde_json::from_str::<serde_json::Value>(text) {
        Ok(serde_json::Value::Object(map)) => Some(JsonDoc::Object(map.into_iter().map(|(key, value)| match value {
            serde_json::Value::String(s) => JsonMember { key, field: JsonField::Text(s) },
            other => JsonMember { key, field: JsonField::Raw(other.to_string()) },
        }).collect())),
        Ok(serde_json::Value::Null) => Some(JsonDoc::Null),
        Ok(other) => Some(JsonDoc::Other(other.to_string())),
        Err(_) => None,
    }
}

/// `serde_json::Value`'s `to_string`: the compact JSON text of the document. The strings of an
/// object are read back from it as they were, provided that no key is there twice and that what is
/// no string was itself read, and so is not nested too deeply to be read again.
#[verifier::external_body]
pub(crate) fn render_json(doc: &JsonDoc) -> (r: String)
    ensures
        r@ == json_text(doc@),
        doc@ matches DocView::Object(members) ==> (has_distinct_keys(members) && is_rereadable(
            members,
        ) ==> reads_back(members, json_parse(r@))),
{
    match doc {
        JsonDoc::Object(members) => serde_json::Value::Object(members.iter().map(|m| (m.key.clone(), match &m.field {
            JsonField::Text(s) => serde_json::Value::String(s.clone()),
            JsonField::Raw(s) => serde_json::from_str(s).unwrap_or_default(),
        })).collect()).to_string(),
        JsonDoc::Null => serde_json::Value::Null.to_string(),
        JsonDoc::Other(s) => s.clone(),
    }
}

/// `serde_json::to_string_pretty` of what the text spells; nothing where it is no JSON.
#[verifier::external_body]
pub(crate) fn pretty_json(text: &str) -> (r: Option<String>)
    ensures
        text::opt_view(r) == json_pretty(text@),
        r is Some <==> json_parse(text@) is Some,
{
    let value = serde_json::from_str::<serde_json::Value>(text).ok()?;
    serde_json::to_string_pretty(&value).ok()
}

/// The JSON text of a string, as `serde_json` writes it.
pub uninterp spec fn json_quoted(text: Seq<char>) -> Seq<char>;

/// `serde_json::Value`'s `to_string` for a string: its JSON text, quoted and escaped.
#[verifier::external_body]
pub(crate) fn quote_json(text: &str) -> (r: String)
    ensures
        r@ == json_quoted(text@),
{
    serde_json::Value::String(text.to_owned()).to_string()
}

/// The member `key` of an object.
pub open spec fn member(members: Seq<MemberView>, key: Seq<char>) -> Option<FieldView>
    decreases members.len(),
{
    if members.len() == 0 {
        None
    } else if members[0].key == key {
        Some(members[0].field)
    } else {
        member(members.drop_first(), key)
    }
}

pub open spec fn doc_member(doc: DocView, key: Seq<char>) -> Option<FieldView> {
    match doc {
        DocView::Object(members) => member(members, key),
        _ => None,
    }
}

/// The members with `key` set to `field`: in its old place, or at the end.
pub open spec fn with_member(members: Seq<MemberView>, key: Seq<char>, field: FieldView) -> Seq<
    MemberView,
>
    decreases members.len(),
{
    if members.len() == 0 {
        seq![MemberView { key, field }]
    } else if members[0].key == key {
        seq![MemberView { key: members[0].key, field }] + members.drop_first()
    } else {
        seq![members[0]] + with_member(members.drop_first(), key, field)
    }
}

/// The document with `key` set to `field`; `null` becomes an object, and what is no object and
/// not `null` has no members and stays as it is.
pub open spec fn doc_with(doc: DocView, key: Seq<char>, field: FieldView) -> DocView {
    match doc {
        DocView::Object(members) => DocView::Object(with_member(members, key, field)),
        DocView::Null => DocView::Object(seq![MemberView { key, field }]),
        DocView::Other(s) => DocView::Other(s),
    }
}

/// The string that the member `key` holds.
pub open spec fn doc_str(doc: DocView, key: Seq<char>) -> Option<Seq<char>> {
    match doc_member(doc, key) {
        Some(FieldView::Text(s)) => Some(s),
        _ => None,
    }
}

/// What was set is what is read, and every other member is kept.
pub proof fn law_set_member_is_read(doc: DocView, key: Seq<char>, field: FieldView, other: Seq<char>)
    requires
        !(doc is Other),
    ensures
        doc_member(doc_with(doc, key, field), key) == Some(field),
        other != key ==> doc_member(doc_with(doc, key, field), other) == doc_member(doc, other),
{
    match doc {
        DocView::Object(members) => lemma_with_member(members, key, field, other),
        DocView::Null => {
            let one = seq![MemberView { key, field }];
            assert(one.drop_first() =~= Seq::<MemberView>::empty());
            assert(member(one.drop_first(), other) is None);
        },
        DocView::Other(_) => {},
    }
}

proof fn lemma_with_member(
    members: Seq<MemberView>,
    key: Seq<char>,
    field: FieldView,
    other: Seq<char>,
)
    ensures
        member(with_member(members, key, field), key) == Some(field),
        other != key ==> member(with_member(members, key, field), other) == member(members, other),
    decreases members.len(),
{
    let r = with_member(members, key, field);
    if members.len() == 0 {
        assert(r.drop_first() =~= Seq::<MemberView>::empty());
        assert(member(r.drop_first(), other) is None);
    } else if members[0].key == key {
        assert(r.drop_first() =~= members.drop_first());
    } else {
        lemma_with_member(members.drop_first(), key, field, other);
        assert(r.drop_first() =~= with_member(members.drop_first(), key, field));
    }
}

/// Setting a string keeps the keys apart and what was read readable.
pub proof fn lemma_set_string_keeps(members: Seq<MemberView>, key: Seq<char>, s: Seq<char>)
    requires
        has_distinct_keys(members),
        is_rereadable(members),
    ensures
        has_distinct_keys(with_member(members, key, FieldView::Text(s))),
        is_rereadable(with_member(members, key, FieldView::Text(s))),
        forall|i: int|
            0 <= i < with_member(members, key, FieldView::Text(s)).len() ==> (
            #[trigger] with_member(members, key, FieldView::Text(s))[i]).key == key || exists|
                j: int,
            |
                0 <= j < members.len() && #[trigger] members[j].key == with_member(
                    members,
                    key,
                    FieldView::Text(s),
                )[i].key,
    decreases members.len(),
{
    let field = FieldView::Text(s);
    let r = with_member(members, key, field);
    if members.len() == 0 {
    } else if members[0].key == key {
        assert forall|i: int| 0 <= i < r.len() implies (#[trigger] r[i]).key == members[i].key by {}
    } else {
        let rest = members.drop_first();
        assert forall|i: int, j: int| 0 <= i < j < rest.len() implies #[trigger] rest[i].key
            != #[trigger] rest[j].key by {
            assert(members[i + 1].key != members[j + 1].key);
        }
        assert forall|i: int| 0 <= i < rest.len() implies match (#[trigger] rest[i]).field {
            FieldView::Text(_) => true,
            FieldView::Raw(raw) => was_read(raw),
        } by {
            assert(members[i + 1] == rest[i]);
        }
        lemma_set_string_keeps(rest, key, s);
        let tail = with_member(rest, key, field);
        assert(r =~= seq![members[0]] + tail);
        assert forall|i: int| 0 <= i < r.len() implies (#[trigger] r[i]).key == key || exists|
            j: int,
        |
            0 <= j < members.len() && #[trigger] members[j].key == r[i].key by {
            if i == 0 {
                assert(members[0].key == r[0].key);
            } else {
                assert(r[i] == tail[i - 1]);
                if r[i].key != key {
                    let j = choose|j: int| 0 <= j < rest.len() && #[trigger] rest[j].key == tail[i
                        - 1].key;
                    assert(members[j + 1].key == r[i].key);
                }
            }
        }
        assert forall|i: int, j: int| 0 <= i < j < r.len() implies #[trigger] r[i].key
            != #[trigger] r[j].key by {
            assert(r[j] == tail[j - 1]);
            if i == 0 {
                if r[j].key != key {
                    let k = choose|k: int| 0 <= k < rest.len() && #[trigger] rest[k].key == tail[j
                        - 1].key;
                    assert(members[0].key != members[k + 1].key);
                }
            } else {
                assert(r[i] == tail[i - 1]);
            }
        }
        assert forall|i: int| 0 <= i < r.len() implies match (#[trigger] r[i]).field {
            FieldView::Text(_) => true,
            FieldView::Raw(raw) => was_read(raw),
        } by {
            if i == 0 {
                assert(r[0] == members[0]);
            } else {
                assert(r[i] == tail[i - 1]);
            }
        }
    }
}

impl JsonField {
    pub fn copy(&self) -> (r: JsonField)
        ensures
            r@ == self@,
    {
        match self {
            JsonField::Text(s) => JsonField::Text(s.clone()),
            JsonField::Raw(s) => JsonField::Raw(s.clone()),
        }
    }
}

proof fn lemma_member_skip(members: Seq<MemberView>, i: int)
    requires
        0 <= i < members.len(),
    ensures
        members.skip(i).drop_first() == members.skip(i + 1),
        members.skip(i)[0] == members[i],
{
    assert(members.skip(i).drop_first() =~= members.skip(i + 1));
}

/// Where the member `key` stands.
fn member_index(members: &Vec<JsonMember>, key: &str) -> (r: Option<usize>)
    ensures
        match r {
            Some(i) => i < members@.len() && member(members_view(members@), key@) == Some(
                members@[i as int].field@,
            ) && members@[i as int].key@ == key@ && forall|field: FieldView|
                #![trigger with_member(members_view(members@), key@, field)]
                with_member(members_view(members@), key@, field) == members_view(members@).update(
                    i as int,
                    MemberView { key: key@, field },
                ),
            None => member(members_view(members@), key@) is None && forall|field: FieldView|
                #![trigger with_member(members_view(members@), key@, field)]
                with_member(members_view(members@), key@, field) == members_view(members@).push(
                    MemberView { key: key@, field },
                ),
        },
{
    let ghost all = members_view(members@);
    let mut i: usize = 0;
    assert(all.skip(0) =~= all);
    assert forall|field: FieldView| all.take(0) + #[trigger] with_member(all.skip(0), key@, field)
        == with_member(all, key@, field) by {
        assert(all.take(0) + with_member(all, key@, field) =~= with_member(all, key@, field));
    }
    while i < members.len()
        invariant
            i <= members@.len(),
            all == members_view(members@),
            member(all.skip(i as int), key@) == member(all, key@),
            forall|field: FieldView|
                all.take(i as int) + #[trigger] with_member(all.skip(i as int), key@, field)
                    == with_member(all, key@, field),
        decreases members@.len() - i,
    {
        proof {
            lemma_member_skip(all, i as int);
        }
        if text::same(members[i].key.as_str(), key) {
            proof {
                assert forall|field: FieldView|
                    #![trigger with_member(all, key@, field)]
                    with_member(all, key@, field) == all.update(
                        i as int,
                        MemberView { key: key@, field },
                    ) by {
                    let w = with_member(all.skip(i as int), key@, field);
                    assert(all.take(i as int) + w =~= all.update(
                        i as int,
                        MemberView { key: key@, field },
                    ));
                }
            }
            return Some(i);
        }
        proof {
            assert forall|field: FieldView|
                all.take(i + 1) + #[trigger] with_member(all.skip(i + 1), key@, field)
                    == with_member(all, key@, field) by {
                let w = with_member(all.skip(i as int), key@, field);
                assert(all.take(i as int) + w =~= all.take(i + 1) + with_member(
                    all.skip(i + 1),
                    key@,
                    field,
                ));
            }
        }
        i += 1;
    }
    proof {
        assert(all.skip(i as int) =~= Seq::<MemberView>::empty());
        assert forall|field: FieldView|
            #![trigger with_member(all, key@, field)]
            with_member(all, key@, field) == all.push(MemberView { key: key@, field }) by {
            let w = with_member(all.skip(i as int), key@, field);
            assert(all.take(i as int) + w =~= all.push(MemberView { key: key@, field }));
        }
    }
    None
}

impl JsonDoc {
    /// An object without members.
    pub fn empty() -> (r: JsonDoc)
        ensures
            r@ == DocView::Object(Seq::empty()),
    {
        let members: Vec<JsonMember> = Vec::new();
        assert(members_view(members@) =~= Seq::<MemberView>::empty());
        JsonDoc::Object(members)
    }

    pub fn is_object(&self) -> (r: bool)
        ensures
            r == (self@ is Object),
    {
        match self {
            JsonDoc::Object(_) => true,
            _ => false,
        }
    }

    /// The member `key`, if this is an object that has it.
    pub fn get(&self, key: &str) -> (r: Option<JsonField>)
        ensures
            match r {
                Some(field) => doc_member(self@, key@) == Some(field@),
                None => doc_member(self@, key@) is None,
            },
    {
        match self {
            JsonDoc::Object(members) => match member_index(members, key) {
                Some(i) => Some(members[i].field.copy()),
                None => None,
            },
            _ => None,
        }
    }

    /// The string that the member `key` holds.
    pub fn get_str(&self, key: &str) -> (r: Option<String>)
        ensures
            text::opt_view(r) == doc_str(self@, key@),
    {
        match self.get(key) {
            Some(JsonField::Text(s)) => Some(s),
            _ => None,
        }
    }

    /// The document with the member `key` set.
    pub fn with(self, key: &str, field: JsonField) -> (r: JsonDoc)
        ensures
            r@ == doc_with(self@, key@, field@),
    {
        match self {
            JsonDoc::Object(members) => {
                let mut all = members;
                let ghost before = members_view(all@);
                match member_index(&all, key) {
                    Some(i) => {
                        all[i].field = field;
                        assert(members_view(all@) =~= before.update(
                            i as int,
                            MemberView { key: key@, field: field@ },
                        ));
                    },
                    None => {
                        all.push(JsonMember { key: key.to_owned(), field });
                        assert(members_view(all@) =~= before.push(
                            MemberView { key: key@, field: field@ },
                        ));
                    },
                }
                JsonDoc::Object(all)
            },
            JsonDoc::Null => {
                let mut all: Vec<JsonMember> = Vec::new();
                all.push(JsonMember { key: key.to_owned(), field });
                assert(members_view(all@) =~= seq![MemberView { key: key@, field: field@ }]);
                JsonDoc::Object(all)
            },
            JsonDoc::Other(s) => JsonDoc::Other(s),
        }
    }

    /// The document with the string member `key` set.
    pub fn with_str(self, key: &str, value: &str) -> (r: JsonDoc)
        ensures
            r@ == doc_with(self@, key@, FieldView::Text(value@)),
    {
        self.with(key, JsonField::Text(value.to_owned()))
    }

    pub fn copy(&self) -> (r: JsonDoc)
        ensures
            r@ == self@,
    {
        match self {
            JsonDoc::Object(members) => {
                let mut all: Vec<JsonMember> = Vec::new();
                for i in 0..members.len()
                    invariant
                        members_view(all@) == members_view(members@).take(i as int),
                {
                    let ghost before = all@;
                    let m = JsonMember {
                        key: members[i].key.clone(),
                        field: members[i].field.copy(),
                    };
                    all.push(m);
                    assert(members_view(all@) =~= members_view(before).push(m@));
                    assert(members_view(members@).take(i + 1) =~= members_view(members@).take(
                        i as int,
                    ).push(m@));
                }
                assert(members_view(members@).take(members@.len() as int) =~= members_view(
                    members@,
                ));
                JsonDoc::Object(all)
            },
            JsonDoc::Null => JsonDoc::Null,
            JsonDoc::Other(s) => JsonDoc::Other(s.clone()),
        }
    }
}

} // verus!
