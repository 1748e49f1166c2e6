//! JSON as the tools write and read it, on top of `serde_json`.
use vstd::prelude::*;
use vstd::string::*;

verus! {

/// A member of a JSON object.
pub enum JsonField {
    Null,
    Bool(bool),
    Number(u64),
    Text(String),
}

/// A JSON document: one object, or a list of objects. Members keep their order.
pub enum JsonDoc {
    Object(Vec<(String, JsonField)>),
    List(Vec<Vec<(String, JsonField)>>),
}

/// What a [`JsonField`] holds.
#[verifier::ext_equal]
pub enum JsonFieldView {
    Null,
    Bool(bool),
    Number(u64),
    Text(Seq<char>),
}

/// What a [`JsonDoc`] holds.
#[verifier::ext_equal]
pub enum JsonDocView {
    Object(Seq<(Seq<char>, JsonFieldView)>),
    List(Seq<Seq<(Seq<char>, JsonFieldView)>>),
}

impl View for JsonField {
    type V = JsonFieldView;

    open spec fn view(&self) -> JsonFieldView {
        match self {
            JsonField::Null => JsonFieldView::Null,
            JsonField::Bool(value) => JsonFieldView::Bool(*value),
            JsonField::Number(value) => JsonFieldView::Number(*value),
            JsonField::Text(value) => JsonFieldView::Text(value@),
        }
    }
}

impl View for JsonDoc {
    type V = JsonDocView;

    open spec fn view(&self) -> JsonDocView {
        match self {
            JsonDoc::Object(members) => JsonDocView::Object(members_view(members@)),
            JsonDoc::List(rows) => JsonDocView::List(
                rows@.map_values(|row: Vec<(String, JsonField)>| members_view(row@)),
            ),
        }
    }
}

/// The names and contents of the members of an object.
pub open spec fn members_view(members: Seq<(String, JsonField)>) -> Seq<
    (Seq<char>, JsonFieldView),
> {
    members.map_values(|member: (String, JsonField)| (member.0@, member.1@))
}

/// The names and texts of members that are all texts.
pub open spec fn texts_view(members: Seq<(String, String)>) -> Seq<(Seq<char>, Seq<char>)> {
    members.map_values(|member: (String, String)| (member.0@, member.1@))
}

/// The names of groups and the members of each.
pub open spec fn groups_view(groups: Seq<(String, Vec<(String, String)>)>) -> Seq<
    (Seq<char>, Seq<(Seq<char>, Seq<char>)>),
> {
    groups.map_values(|group: (String, Vec<(String, String)>)| (group.0@, texts_view(group.1@)))
}

/// Members as a map from name to text, in which a later member replaces an
/// earlier one of the same name.
pub open spec fn texts_map(members: Seq<(Seq<char>, Seq<char>)>) -> Map<Seq<char>, Seq<char>>
    decreases members.len(),
{
    if members.len() == 0 {
        Map::empty()
    } else {
        texts_map(members.drop_last()).insert(members.last().0, members.last().1)
    }
}

/// A JSON value of `serde_json`, carried through and read member by member.
#[verifier::external_type_specification]
#[verifier::external_body]
pub struct ExJsonValue(serde_json::Value);

/// The members of a JSON object that are texts. A value that is no object has none.
pub uninterp spec fn json_texts(value: serde_json::Value) -> Map<Seq<char>, Seq<char>>;

/// The text that `serde_json::to_string` gives for a document, or the message of
/// the error that it reports.
pub uninterp spec fn json_text(doc: JsonDocView) -> Result<Seq<char>, Seq<char>>;

/// The text in which a `serde_json::Value` displays itself that is an object with
/// the given texts and, after them, the given groups of texts as members.
pub uninterp spec fn json_display(
    members: Seq<(Seq<char>, Seq<char>)>,
    groups: Seq<(Seq<char>, Seq<(Seq<char>, Seq<char>)>)>,
) -> Seq<char>;

/// Calls `serde_json::to_string` on the document. The result depends on the
/// document alone; what the text looks like is not stated beyond that.
#[verifier::external_body]
pub(crate) fn serialize(doc: &JsonDoc) -> (result: Result<String, String>)
    ensures
        match result {
            Ok(text) => json_text(doc@) == Ok::<Seq<char>, Seq<char>>(text@),
            Err(message) => json_text(doc@) == Err::<Seq<char>, Seq<char>>(message@),
        },
{
    let field = |field: &JsonField| match field {
        JsonField::Null => serde_json::Value::Null,
        JsonField::Bool(value) => serde_json::Value::Bool(*value),
        JsonField::Number(value) => serde_json::Value::from(*value),
        JsonField::Text(value) => serde_json::Value::String(value.clone()),
    };
    let object = |members: &Vec<(String, JsonField)>| -> serde_json::Value {
        members.iter().map(|(name, value)| (name.clone(), field(value))).collect()
    };
    let value = match doc {
        JsonDoc::Object(members) => object(members),
        JsonDoc::List(rows) => rows.iter().map(object).collect(),
    };
    serde_json::to_string(&value).map_err(|error| error.to_string())
}

/// Calls `to_string` on a `serde_json::Value`, an object with the given texts
/// and groups as members. The result depends on these alone; what the text looks
/// like is not stated beyond that.
#[verifier::external_body]
pub(crate) fn display(
    members: &Vec<(String, String)>,
    groups: &Vec<(String, Vec<(String, String)>)>,
) -> (text: String)
    ensures
        text@ == json_display(texts_view(members@), groups_view(groups@)),
{
    let texts = members.iter().map(|(name, text)| (name, serde_json::Value::from(text.clone())));
    let nested = groups.iter().map(|(name, group)| (name, group.iter().cloned().collect()));
    let value: serde_json::Value = texts.chain(nested).collect();
    value.to_string()
}

/// Calls `serde_json::Value::get` and `as_str`: the member `name`, where the value
/// is an object and that member is a text.
#[verifier::external_body]
pub(crate) fn text_member(value: &serde_json::Value, name: &str) -> (text: Option<String>)
    ensures
        match text {
            Some(found) => json_texts(*value).contains_key(name@) && json_texts(*value)[name@]
                == found@,
            None => !json_texts(*value).contains_key(name@),
        },
{
    value.get(name).and_then(|member| member.as_str()).map(|text| text.to_owned())
}

/// Collects the members into a `serde_json::Value`, an object whose members are
/// exactly these texts.
#[verifier::external_body]
pub(crate) fn text_object(members: Vec<(String, String)>) -> (value: serde_json::Value)
    ensures
        json_texts(value) == texts_map(texts_view(members@)),
{
    members.into_iter().collect()
}

/// What a tool answers with: the serialized output, or a note that it could not be
/// serialized.
pub open spec fn content_of(serialized: Result<Seq<char>, Seq<char>>, tool: Seq<char>) -> Seq<char> {
    match serialized {
        Ok(text) => text,
        Err(message) => "Failed to serialize "@ + tool + " output: "@ + message,
    }
}

/// The answer of the tool `tool` whose output was serialized with this result.
pub fn result_content(serialized: Result<String, String>, tool: &str) -> (content: String)
    ensures
        match serialized {
            Ok(text) => content@ == content_of(Ok(text@), tool@),
            Err(message) => content@ == content_of(Err(message@), tool@),
        },
{
    match serialized {
        Ok(text) => text,
        Err(message) => {
            let mut content = "Failed to serialize ".to_owned();
            content.append(tool);
            content.append(" output: ");
            content.append(message.as_str());
            content
        },
    }
}

// Laws of documents.

/// The members of an object are seen one for one, each with its name and what it holds:
/// null, a truth value, a number or a text.
pub proof fn law_members_are_seen(members: Seq<(String, JsonField)>)
    ensures
        members_view(members).len() == members.len(),
        forall|i: int|
            0 <= i < members.len() ==> (#[trigger] members_view(members)[i]).0 == members[i].0@,
        forall|i: int|
            0 <= i < members.len() ==> match members[i].1 {
                JsonField::Null => (#[trigger] members_view(members)[i]).1 == JsonFieldView::Null,
                JsonField::Bool(value) => members_view(members)[i].1 == JsonFieldView::Bool(value),
                JsonField::Number(value) => members_view(members)[i].1 == JsonFieldView::Number(
                    value,
                ),
                JsonField::Text(value) => members_view(members)[i].1 == JsonFieldView::Text(
                    value@,
                ),
            },
{
}

/// A document is seen as what it is: an object with its members, or a list with the
/// members of each of its objects, in order.
pub proof fn law_documents_are_seen(
    members: Vec<(String, JsonField)>,
    rows: Vec<Vec<(String, JsonField)>>,
)
    ensures
        JsonDoc::Object(members)@ == JsonDocView::Object(members_view(members@)),
        JsonDoc::List(rows)@ matches JsonDocView::List(seen) && seen.len() == rows@.len()
            && forall|i: int|
            0 <= i < rows@.len() ==> #[trigger] seen[i] == members_view(rows@[i]@),
{
}

/// Text members, and groups of them, are seen one for one.
pub proof fn law_texts_are_seen(
    members: Seq<(String, String)>,
    groups: Seq<(String, Vec<(String, String)>)>,
)
    ensures
        texts_view(members).len() == members.len(),
        forall|i: int|
            0 <= i < members.len() ==> #[trigger] texts_view(members)[i] == (
                members[i].0@,
                members[i].1@,
            ),
        groups_view(groups).len() == groups.len(),
        forall|i: int|
            0 <= i < groups.len() ==> #[trigger] groups_view(groups)[i] == (
                groups[i].0@,
                texts_view(groups[i].1@),
            ),
{
}

/// A member that is added to others is found under its name, and those of other names
/// are left alone.
pub proof fn law_texts_by_name(
    members: Seq<(Seq<char>, Seq<char>)>,
    name: Seq<char>,
    text: Seq<char>,
)
    ensures
        texts_map(Seq::<(Seq<char>, Seq<char>)>::empty()) == Map::<Seq<char>, Seq<char>>::empty(),
        texts_map(members.push((name, text))).contains_key(name),
        texts_map(members.push((name, text)))[name] == text,
        texts_map(members.push((name, text))).remove(name) == texts_map(members).remove(name),
{
    assert(members.push((name, text)).drop_last() =~= members);
    assert(texts_map(members.push((name, text))).remove(name) =~= texts_map(members).remove(name));
}

/// What was serialized is answered as it is, and where it could not be, the answer names
/// the tool and ends in the reason.
pub proof fn law_content_is_what_was_serialized(
    text: Seq<char>,
    message: Seq<char>,
    tool: Seq<char>,
)
    ensures
        content_of(Ok(text), tool) == text,
        content_of(Err(message), tool).take(20) == "Failed to serialize "@,
        content_of(Err(message), tool).subrange(20, 20int + tool.len()) == tool,
        content_of(Err(message), tool).subrange(20int + tool.len(), 29int + tool.len())
            == " output: "@,
        content_of(Err(message), tool).skip(29int + tool.len()) == message,
{
    reveal_strlit("Failed to serialize ");
    reveal_strlit(" output: ");
    let content = content_of(Err(message), tool);
    assert(content.take(20) =~= "Failed to serialize "@);
    assert(content.subrange(20, 20int + tool.len()) =~= tool);
    assert(content.subrange(20int + tool.len(), 29int + tool.len()) =~= " output: "@);
    assert(content.skip(29int + tool.len()) =~= message);
}

} // verus!
