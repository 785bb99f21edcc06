//! Chat messages: roles, content parts, tool calls, and the JSON layout in
//! which content parts and tool calls are stored in the `messages` table.

use vstd::prelude::*;
use crate::json::{
    field, json_is_null, json_node, json_quote, json_str, json_string_list, json_string_list_text,
    spec_field, spec_json_is_null, spec_json_node, spec_json_quote, spec_json_str,
    spec_json_string_list, JsonNode, JsonNodeView,
};
use crate::text::{join_with, push_char, push_joined, push_str, str_equal, strings_view};

verus! {

// ---------------------------------------------------------------- roles

#[derive(Clone, Copy, Debug, PartialEq, Eq, Structural)]
pub enum Role {
    System,
    User,
    Assistant,
    Tool,
}

/// The name a role is stored under.
pub open spec fn spec_role_str(r: Role) -> Seq<char> {
    match r {
        Role::System => "system"@,
        Role::User => "user"@,
        Role::Assistant => "assistant"@,
        Role::Tool => "tool"@,
    }
}

/// The role a stored name reads back as; a name that is none of the four
/// reads as `Assistant`.
pub open spec fn spec_role_from_str(s: Seq<char>) -> Role {
    if s == "system"@ {
        Role::System
    } else if s == "user"@ {
        Role::User
    } else if s == "tool"@ {
        Role::Tool
    } else {
        Role::Assistant
    }
}

pub fn role_as_str(r: Role) -> (s: &'static str)
    ensures
        s@ == spec_role_str(r),
{
    match r {
        Role::System => "system",
        Role::User => "user",
        Role::Assistant => "assistant",
        Role::Tool => "tool",
    }
}

pub fn role_from_str(s: &str) -> (r: Role)
    ensures
        r == spec_role_from_str(s@),
{
    if str_equal(s, "system") {
        Role::System
    } else if str_equal(s, "user") {
        Role::User
    } else if str_equal(s, "tool") {
        Role::Tool
    } else {
        Role::Assistant
    }
}

/// Reading back the name a role is stored under gives the same role.
pub proof fn lemma_role_round_trip(r: Role)
    ensures
        spec_role_from_str(spec_role_str(r)) == r,
{
    reveal_strlit("system");
    reveal_strlit("user");
    reveal_strlit("assistant");
    reveal_strlit("tool");
    assert("assistant"@.len() != "system"@.len());
    assert("assistant"@.len() != "user"@.len());
    assert("assistant"@.len() != "tool"@.len());
    assert("tool"@[0] != "system"@[0]);
    assert("tool"@[0] != "user"@[0]);
    assert("user"@.len() != "system"@.len());
}

// ---------------------------------------------------------------- content

#[derive(Debug, PartialEq, Eq)]
pub struct ImageUrl {
    pub url: String,
    pub detail: Option<String>,
}

#[derive(Debug, PartialEq, Eq)]
pub enum ContentPart {
    Text { text: String },
    ImageUrl { image_url: ImageUrl },
}

/// A content part as plain text values.
pub enum PartView {
    Text(Seq<char>),
    Image(Seq<char>, Option<Seq<char>>),
}

pub open spec fn opt_view(o: Option<String>) -> Option<Seq<char>> {
    match o {
        Some(s) => Some(s@),
        None => None,
    }
}

impl View for ContentPart {
    type V = PartView;

    open spec fn view(&self) -> PartView {
        match self {
            ContentPart::Text { text } => PartView::Text(text@),
            ContentPart::ImageUrl { image_url } => PartView::Image(
                image_url.url@,
                opt_view(image_url.detail),
            ),
        }
    }
}

pub open spec fn parts_view(parts: Seq<ContentPart>) -> Seq<PartView> {
    parts.map_values(|p: ContentPart| p@)
}

pub fn clone_opt_string(o: &Option<String>) -> (r: Option<String>)
    ensures
        r == *o,
{
    match o {
        Some(s) => Some(s.clone()),
        None => None,
    }
}

impl Clone for ImageUrl {
    fn clone(&self) -> (r: Self)
        ensures
            r == *self,
    {
        ImageUrl { url: self.url.clone(), detail: clone_opt_string(&self.detail) }
    }
}

impl Clone for ContentPart {
    fn clone(&self) -> (r: Self)
        ensures
            r == *self,
    {
        match self {
            ContentPart::Text { text } => ContentPart::Text { text: text.clone() },
            ContentPart::ImageUrl { image_url } => ContentPart::ImageUrl { image_url: image_url.clone() },
        }
    }
}

pub fn clone_parts(v: &Vec<ContentPart>) -> (r: Vec<ContentPart>)
    ensures
        r@ == v@,
{
    let mut r: Vec<ContentPart> = Vec::new();
    let mut i: usize = 0;
    while i < v.len()
        invariant
            i <= v.len(),
            r@ == v@.take(i as int),
        decreases v.len() - i,
    {
        r.push(v[i].clone());
        i = i + 1;
        assert(r@ =~= v@.take(i as int));
    }
    assert(v@.take(v.len() as int) =~= v@);
    r
}

// ---------------------------------------------------------------- tool calls

#[derive(Debug, PartialEq, Eq)]
pub struct ToolCallFunction {
    pub name: String,
    pub arguments: String,
}

#[derive(Debug, PartialEq, Eq)]
pub struct ToolCall {
    pub id: String,
    pub call_type: String,
    pub function: ToolCallFunction,
}

/// A tool call as plain text values: id, type, function name, arguments.
pub struct CallView {
    pub id: Seq<char>,
    pub call_type: Seq<char>,
    pub name: Seq<char>,
    pub arguments: Seq<char>,
}

impl View for ToolCall {
    type V = CallView;

    open spec fn view(&self) -> CallView {
        CallView {
            id: self.id@,
            call_type: self.call_type@,
            name: self.function.name@,
            arguments: self.function.arguments@,
        }
    }
}

pub open spec fn calls_view(calls: Seq<ToolCall>) -> Seq<CallView> {
    calls.map_values(|c: ToolCall| c@)
}

impl Clone for ToolCallFunction {
    fn clone(&self) -> (r: Self)
        ensures
            r == *self,
    {
        ToolCallFunction { name: self.name.clone(), arguments: self.arguments.clone() }
    }
}

impl Clone for ToolCall {
    fn clone(&self) -> (r: Self)
        ensures
            r == *self,
    {
        ToolCall { id: self.id.clone(), call_type: self.call_type.clone(), function: self.function.clone() }
    }
}

pub fn clone_calls(v: &Vec<ToolCall>) -> (r: Vec<ToolCall>)
    ensures
        r@ == v@,
{
    let mut r: Vec<ToolCall> = Vec::new();
    let mut i: usize = 0;
    while i < v.len()
        invariant
            i <= v.len(),
            r@ == v@.take(i as int),
        decreases v.len() - i,
    {
        r.push(v[i].clone());
        i = i + 1;
        assert(r@ =~= v@.take(i as int));
    }
    assert(v@.take(v.len() as int) =~= v@);
    r
}

pub open spec fn opt_calls_view(o: Option<Vec<ToolCall>>) -> Option<Seq<CallView>> {
    match o {
        Some(v) => Some(calls_view(v@)),
        None => None,
    }
}

pub fn clone_opt_calls(o: &Option<Vec<ToolCall>>) -> (r: Option<Vec<ToolCall>>)
    ensures
        opt_calls_view(r) == opt_calls_view(*o),
{
    match o {
        Some(v) => Some(clone_calls(v)),
        None => None,
    }
}

// ---------------------------------------------------------------- JSON layout

/// A JSON array of the given element texts.
pub open spec fn spec_json_array(items: Seq<Seq<char>>) -> Seq<char> {
    seq!['['] + join_with(items, seq![',']) + seq![']']
}

fn json_array(items: &Vec<String>) -> (r: String)
    ensures
        r@ == spec_json_array(strings_view(items@)),
{
    let mut out = String::new();
    push_char(&mut out, '[');
    proof {
        reveal_strlit(",");
        assert(","@ =~= seq![',']);
    }
    push_joined(&mut out, items, ",");
    push_char(&mut out, ']');
    assert(out@ =~= spec_json_array(strings_view(items@)));
    out
}

/// How one content part is stored.
pub open spec fn spec_part_json(p: PartView) -> Seq<char> {
    match p {
        PartView::Text(t) => "{\"type\":\"text\",\"text\":"@ + spec_json_quote(t) + seq!['}'],
        PartView::Image(url, None) => "{\"type\":\"image_url\",\"image_url\":{\"url\":"@
            + spec_json_quote(url) + "}}"@,
        PartView::Image(url, Some(d)) => "{\"type\":\"image_url\",\"image_url\":{\"url\":"@
            + spec_json_quote(url) + ",\"detail\":"@ + spec_json_quote(d) + "}}"@,
    }
}

/// How a message's content is stored: a JSON array of its parts.
pub open spec fn spec_content_json(parts: Seq<PartView>) -> Seq<char> {
    spec_json_array(parts.map_values(|p: PartView| spec_part_json(p)))
}

fn part_json(p: &ContentPart) -> (r: String)
    ensures
        r@ == spec_part_json(p@),
{
    let mut out = String::new();
    match p {
        ContentPart::Text { text } => {
            push_str(&mut out, "{\"type\":\"text\",\"text\":");
            push_str(&mut out, json_quote(text.as_str()).as_str());
            push_char(&mut out, '}');
        },
        ContentPart::ImageUrl { image_url } => {
            push_str(&mut out, "{\"type\":\"image_url\",\"image_url\":{\"url\":");
            push_str(&mut out, json_quote(image_url.url.as_str()).as_str());
            match &image_url.detail {
                Some(d) => {
                    push_str(&mut out, ",\"detail\":");
                    push_str(&mut out, json_quote(d.as_str()).as_str());
                },
                None => {},
            }
            push_str(&mut out, "}}");
        },
    }
    assert(out@ =~= spec_part_json(p@));
    out
}

/// The stored form of `parts`.
pub fn content_json(parts: &Vec<ContentPart>) -> (r: String)
    ensures
        r@ == spec_content_json(parts_view(parts@)),
{
    let mut items: Vec<String> = Vec::new();
    let mut i: usize = 0;
    while i < parts.len()
        invariant
            i <= parts.len(),
            strings_view(items@) == parts_view(parts@).take(i as int).map_values(|p: PartView| spec_part_json(p)),
        decreases parts.len() - i,
    {
        let ghost before = strings_view(items@);
        let t = part_json(&parts[i]);
        items.push(t);
        assert(parts_view(parts@)[i as int] == parts@[i as int]@);
        assert(strings_view(items@) =~= before.push(spec_part_json(parts@[i as int]@)));
        i = i + 1;
        assert(strings_view(items@) =~= parts_view(parts@).take(i as int).map_values(|p: PartView| spec_part_json(p)));
    }
    assert(parts_view(parts@).take(parts.len() as int) =~= parts_view(parts@));
    json_array(&items)
}

/// The string member `key` of an object.
pub open spec fn spec_field_str(fields: Seq<(Seq<char>, Seq<char>)>, key: Seq<char>) -> Option<Seq<char>> {
    match spec_field(fields, key) {
        Some(t) => spec_json_str(t),
        None => None,
    }
}

pub open spec fn fields_view(fields: Seq<(String, String)>) -> Seq<(Seq<char>, Seq<char>)> {
    fields.map_values(|kv: (String, String)| (kv.0@, kv.1@))
}

fn field_str(fields: &Vec<(String, String)>, key: &str) -> (r: Option<String>)
    ensures
        r matches Some(s) ==> spec_field_str(fields_view(fields@), key@) == Some(s@),
        r is None ==> spec_field_str(fields_view(fields@), key@) is None,
{
    match field(fields, key) {
        Some(t) => json_str(t.as_str()),
        None => None,
    }
}

/// The `image_url` object of an image part: a string `url`, and a
/// `detail` that is absent, null, or a string.
pub open spec fn spec_decode_image(t: Seq<char>) -> Option<PartView> {
    match spec_json_node(t) {
        JsonNodeView::Object(f) => match spec_field_str(f, "url"@) {
            Some(url) => match spec_field(f, "detail"@) {
                None => Some(PartView::Image(url, None)),
                Some(d) => if spec_json_is_null(d) {
                    Some(PartView::Image(url, None))
                } else {
                    match spec_json_str(d) {
                        Some(ds) => Some(PartView::Image(url, Some(ds))),
                        None => None,
                    }
                },
            },
            None => None,
        },
        _ => None,
    }
}

/// One stored content part, read back: an object whose `type` is `text`
/// (with a string `text`) or `image_url` (with an `image_url` object).
pub open spec fn spec_decode_part(t: Seq<char>) -> Option<PartView> {
    match spec_json_node(t) {
        JsonNodeView::Object(f) => match spec_field_str(f, "type"@) {
            Some(tag) => if tag == "text"@ {
                match spec_field_str(f, "text"@) {
                    Some(x) => Some(PartView::Text(x)),
                    None => None,
                }
            } else if tag == "image_url"@ {
                match spec_field(f, "image_url"@) {
                    Some(iu) => spec_decode_image(iu),
                    None => None,
                }
            } else {
                None
            },
            None => None,
        },
        _ => None,
    }
}

/// Every element read back as a content part, or `None` if one fails.
pub open spec fn spec_decode_parts(items: Seq<Seq<char>>) -> Option<Seq<PartView>>
    decreases items.len(),
{
    if items.len() == 0 {
        Some(Seq::empty())
    } else {
        match (spec_decode_parts(items.drop_last()), spec_decode_part(items.last())) {
            (Some(a), Some(p)) => Some(a.push(p)),
            _ => None,
        }
    }
}

/// A stored content column read back as a list of parts, where it is one.
pub open spec fn spec_decode_content(raw: Seq<char>) -> Option<Seq<PartView>> {
    match spec_json_node(raw) {
        JsonNodeView::Array(items) => spec_decode_parts(items),
        _ => None,
    }
}

/// The content a stored column stands for: its parts, or, where it is not
/// a list of parts (text written before content was stored as JSON), one
/// text part holding the raw column.
pub open spec fn spec_content_of(raw: Seq<char>) -> Seq<PartView> {
    match spec_decode_content(raw) {
        Some(p) => p,
        None => seq![PartView::Text(raw)],
    }
}

fn decode_image(t: &str) -> (r: Option<ContentPart>)
    ensures
        r matches Some(p) ==> spec_decode_image(t@) == Some(p@),
        r is None ==> spec_decode_image(t@) is None,
{
    match json_node(t) {
        JsonNode::Object(f) => {
            let ghost fv = fields_view(f@);
            assert(fv == f@.map_values(|kv: (String, String)| (kv.0@, kv.1@)));
            match field_str(&f, "url") {
                Some(url) => match field(&f, "detail") {
                    None => Some(ContentPart::ImageUrl { image_url: ImageUrl { url, detail: None } }),
                    Some(d) => if json_is_null(d.as_str()) {
                        Some(ContentPart::ImageUrl { image_url: ImageUrl { url, detail: None } })
                    } else {
                        match json_str(d.as_str()) {
                            Some(ds) => Some(ContentPart::ImageUrl { image_url: ImageUrl { url, detail: Some(ds) } }),
                            None => None,
                        }
                    },
                },
                None => None,
            }
        },
        _ => None,
    }
}

fn decode_part(t: &str) -> (r: Option<ContentPart>)
    ensures
        r matches Some(p) ==> spec_decode_part(t@) == Some(p@),
        r is None ==> spec_decode_part(t@) is None,
{
    match json_node(t) {
        JsonNode::Object(f) => {
            let ghost fv = fields_view(f@);
            assert(fv == f@.map_values(|kv: (String, String)| (kv.0@, kv.1@)));
            match field_str(&f, "type") {
                Some(tag) => if str_equal(tag.as_str(), "text") {
                    match field_str(&f, "text") {
                        Some(x) => Some(ContentPart::Text { text: x }),
                        None => None,
                    }
                } else if str_equal(tag.as_str(), "image_url") {
                    match field(&f, "image_url") {
                        Some(iu) => decode_image(iu.as_str()),
                        None => None,
                    }
                } else {
                    None
                },
                None => None,
            }
        },
        _ => None,
    }
}

/// A stored content column read back as a list of parts, where it is one.
pub fn decode_content(raw: &str) -> (r: Option<Vec<ContentPart>>)
    ensures
        r matches Some(v) ==> spec_decode_content(raw@) == Some(parts_view(v@)),
        r is None ==> spec_decode_content(raw@) is None,
{
    match json_node(raw) {
        JsonNode::Array(items) => {
            let ghost iv = strings_view(items@);
            assert(iv =~= items@.map_values(|t: String| t@));
            let mut out: Vec<ContentPart> = Vec::new();
            let mut i: usize = 0;
            while i < items.len()
                invariant
                    i <= items.len(),
                    iv == strings_view(items@),
                    spec_json_node(raw@) == JsonNodeView::Array(iv),
                    spec_decode_parts(iv.take(i as int)) == Some(parts_view(out@)),
                decreases items.len() - i,
            {
                let ghost before = out@;
                assert(iv.take(i as int + 1).drop_last() =~= iv.take(i as int));
                match decode_part(items[i].as_str()) {
                    Some(p) => {
                        out.push(p);
                        assert(parts_view(out@) =~= parts_view(before).push(p@));
                    },
                    None => {
                        assert(spec_decode_parts(iv.take(i as int + 1)) is None);
                        proof { lemma_decode_parts_prefix(iv, i as int + 1); }
                        return None;
                    },
                }
                i = i + 1;
            }
            assert(iv.take(items.len() as int) =~= iv);
            Some(out)
        },
        _ => None,
    }
}

/// Once a prefix fails to decode, every longer prefix fails too.
proof fn lemma_decode_parts_prefix(items: Seq<Seq<char>>, n: int)
    requires
        0 <= n <= items.len(),
        spec_decode_parts(items.take(n)) is None,
    ensures
        spec_decode_parts(items) is None,
    decreases items.len() - n,
{
    if n < items.len() {
        assert(items.take(n + 1).drop_last() =~= items.take(n));
        lemma_decode_parts_prefix(items, n + 1);
    } else {
        assert(items.take(n) =~= items);
    }
}

/// The content that a stored column stands for.
pub fn content_of(raw: String) -> (r: Vec<ContentPart>)
    ensures
        parts_view(r@) == spec_content_of(raw@),
{
    match decode_content(raw.as_str()) {
        Some(v) => v,
        None => {
            let mut v: Vec<ContentPart> = Vec::new();
            v.push(ContentPart::Text { text: raw });
            assert(parts_view(v@) =~= seq![PartView::Text(raw@)]);
            v
        },
    }
}

/// How one tool call is stored.
pub open spec fn spec_call_json(c: CallView) -> Seq<char> {
    "{\"id\":"@ + spec_json_quote(c.id) + ",\"type\":"@ + spec_json_quote(c.call_type)
        + ",\"function\":{\"name\":"@ + spec_json_quote(c.name) + ",\"arguments\":"@
        + spec_json_quote(c.arguments) + "}}"@
}

/// How a message's tool calls are stored: a JSON array of the calls.
pub open spec fn spec_calls_json(calls: Seq<CallView>) -> Seq<char> {
    spec_json_array(calls.map_values(|c: CallView| spec_call_json(c)))
}

fn call_json(c: &ToolCall) -> (r: String)
    ensures
        r@ == spec_call_json(c@),
{
    let mut out = String::new();
    push_str(&mut out, "{\"id\":");
    push_str(&mut out, json_quote(c.id.as_str()).as_str());
    push_str(&mut out, ",\"type\":");
    push_str(&mut out, json_quote(c.call_type.as_str()).as_str());
    push_str(&mut out, ",\"function\":{\"name\":");
    push_str(&mut out, json_quote(c.function.name.as_str()).as_str());
    push_str(&mut out, ",\"arguments\":");
    push_str(&mut out, json_quote(c.function.arguments.as_str()).as_str());
    push_str(&mut out, "}}");
    assert(out@ =~= spec_call_json(c@));
    out
}

/// The stored form of `calls`.
pub fn calls_json(calls: &Vec<ToolCall>) -> (r: String)
    ensures
        r@ == spec_calls_json(calls_view(calls@)),
{
    let mut items: Vec<String> = Vec::new();
    let mut i: usize = 0;
    while i < calls.len()
        invariant
            i <= calls.len(),
            strings_view(items@) == calls_view(calls@).take(i as int).map_values(|c: CallView| spec_call_json(c)),
        decreases calls.len() - i,
    {
        let ghost before = strings_view(items@);
        let t = call_json(&calls[i]);
        items.push(t);
        assert(calls_view(calls@)[i as int] == calls@[i as int]@);
        assert(strings_view(items@) =~= before.push(spec_call_json(calls@[i as int]@)));
        i = i + 1;
        assert(strings_view(items@) =~= calls_view(calls@).take(i as int).map_values(|c: CallView| spec_call_json(c)));
    }
    assert(calls_view(calls@).take(calls.len() as int) =~= calls_view(calls@));
    json_array(&items)
}

/// One stored tool call, read back: an object with string `id` and `type`
/// and a `function` object with string `name` and `arguments`.
pub open spec fn spec_decode_call(t: Seq<char>) -> Option<CallView> {
    match spec_json_node(t) {
        JsonNodeView::Object(f) => match (spec_field_str(f, "id"@), spec_field_str(f, "type"@), spec_field(f, "function"@)) {
            (Some(id), Some(ty), Some(fun)) => match spec_json_node(fun) {
                JsonNodeView::Object(g) => match (spec_field_str(g, "name"@), spec_field_str(g, "arguments"@)) {
                    (Some(name), Some(args)) => Some(CallView { id, call_type: ty, name, arguments: args }),
                    _ => None,
                },
                _ => None,
            },
            _ => None,
        },
        _ => None,
    }
}

pub open spec fn spec_decode_call_items(items: Seq<Seq<char>>) -> Option<Seq<CallView>>
    decreases items.len(),
{
    if items.len() == 0 {
        Some(Seq::empty())
    } else {
        match (spec_decode_call_items(items.drop_last()), spec_decode_call(items.last())) {
            (Some(a), Some(c)) => Some(a.push(c)),
            _ => None,
        }
    }
}

/// A stored tool-calls column read back, where it is a list of calls.
pub open spec fn spec_decode_calls(raw: Seq<char>) -> Option<Seq<CallView>> {
    match spec_json_node(raw) {
        JsonNodeView::Array(items) => spec_decode_call_items(items),
        _ => None,
    }
}

fn decode_call(t: &str) -> (r: Option<ToolCall>)
    ensures
        r matches Some(c) ==> spec_decode_call(t@) == Some(c@),
        r is None ==> spec_decode_call(t@) is None,
{
    match json_node(t) {
        JsonNode::Object(f) => {
            let id = field_str(&f, "id");
            let ty = field_str(&f, "type");
            let fun = field(&f, "function");
            match (id, ty, fun) {
                (Some(id), Some(ty), Some(fun)) => match json_node(fun.as_str()) {
                    JsonNode::Object(g) => {
                        let name = field_str(&g, "name");
                        let args = field_str(&g, "arguments");
                        match (name, args) {
                            (Some(name), Some(arguments)) => Some(ToolCall {
                                id,
                                call_type: ty,
                                function: ToolCallFunction { name, arguments },
                            }),
                            _ => None,
                        }
                    },
                    _ => None,
                },
                _ => None,
            }
        },
        _ => None,
    }
}

proof fn lemma_decode_call_items_prefix(items: Seq<Seq<char>>, n: int)
    requires
        0 <= n <= items.len(),
        spec_decode_call_items(items.take(n)) is None,
    ensures
        spec_decode_call_items(items) is None,
    decreases items.len() - n,
{
    if n < items.len() {
        assert(items.take(n + 1).drop_last() =~= items.take(n));
        lemma_decode_call_items_prefix(items, n + 1);
    } else {
        assert(items.take(n) =~= items);
    }
}

/// A stored tool-calls column read back, where it is a list of calls.
pub fn decode_calls(raw: &str) -> (r: Option<Vec<ToolCall>>)
    ensures
        r matches Some(v) ==> spec_decode_calls(raw@) == Some(calls_view(v@)),
        r is None ==> spec_decode_calls(raw@) is None,
{
    match json_node(raw) {
        JsonNode::Array(items) => {
            let ghost iv = strings_view(items@);
            assert(iv =~= items@.map_values(|t: String| t@));
            let mut out: Vec<ToolCall> = Vec::new();
            let mut i: usize = 0;
            while i < items.len()
                invariant
                    i <= items.len(),
                    iv == strings_view(items@),
                    spec_json_node(raw@) == JsonNodeView::Array(iv),
                    spec_decode_call_items(iv.take(i as int)) == Some(calls_view(out@)),
                decreases items.len() - i,
            {
                let ghost before = out@;
                assert(iv.take(i as int + 1).drop_last() =~= iv.take(i as int));
                match decode_call(items[i].as_str()) {
                    Some(c) => {
                        out.push(c);
                        assert(calls_view(out@) =~= calls_view(before).push(c@));
                    },
                    None => {
                        proof { lemma_decode_call_items_prefix(iv, i as int + 1); }
                        return None;
                    },
                }
                i = i + 1;
            }
            assert(iv.take(items.len() as int) =~= iv);
            Some(out)
        },
        _ => None,
    }
}

// ---------------------------------------------------------------- string lists

/// How a list of strings (a conversation's stop sequences) is stored:
/// `serde_json`'s compact JSON array of the strings.
pub open spec fn spec_string_list_json(v: Seq<Seq<char>>) -> Seq<char> {
    spec_json_array(v.map_values(|s: Seq<char>| spec_json_quote(s)))
}

/// The stored form of a list of strings: `None` for an empty list.
pub fn string_list_json(v: &Vec<String>) -> (r: Option<String>)
    ensures
        v@.len() == 0 ==> r is None,
        v@.len() > 0 ==> (r matches Some(t) && t@ == spec_string_list_json(strings_view(v@))),
{
    if v.len() == 0 {
        None
    } else {
        Some(json_string_list_text(v))
    }
}

/// A stored string list read back: empty where the column is NULL or is
/// not a JSON array of strings.
pub open spec fn spec_string_list_of(raw: Option<Seq<char>>) -> Seq<Seq<char>> {
    match raw {
        Some(t) => match spec_json_string_list(t) {
            Some(v) => v,
            None => Seq::empty(),
        },
        None => Seq::empty(),
    }
}

/// The list of strings a stored column stands for.
pub fn string_list_of(raw: &Option<String>) -> (r: Vec<String>)
    ensures
        strings_view(r@) == spec_string_list_of(opt_view(*raw)),
{
    let empty: Vec<String> = Vec::new();
    assert(strings_view(empty@) =~= Seq::<Seq<char>>::empty());
    match raw {
        Some(t) => match json_string_list(t.as_str()) {
            Some(v) => v,
            None => empty,
        },
        None => empty,
    }
}

// ---------------------------------------------------------------- messages

#[derive(Debug, PartialEq, Eq)]
pub struct Message {
    pub role: Role,
    pub content: Vec<ContentPart>,
    pub tool_calls: Option<Vec<ToolCall>>,
    pub tool_call_id: Option<String>,
    pub created_at: Option<i64>,
    pub id: Option<i64>,
    pub parent_id: Option<i64>,
    pub branch_index: i64,
}

pub struct MessageView {
    pub role: Role,
    pub content: Seq<PartView>,
    pub tool_calls: Option<Seq<CallView>>,
    pub tool_call_id: Option<Seq<char>>,
    pub created_at: Option<i64>,
    pub id: Option<i64>,
    pub parent_id: Option<i64>,
    pub branch_index: i64,
}

impl View for Message {
    type V = MessageView;

    open spec fn view(&self) -> MessageView {
        MessageView {
            role: self.role,
            content: parts_view(self.content@),
            tool_calls: opt_calls_view(self.tool_calls),
            tool_call_id: opt_view(self.tool_call_id),
            created_at: self.created_at,
            id: self.id,
            parent_id: self.parent_id,
            branch_index: self.branch_index,
        }
    }
}

impl Clone for Message {
    fn clone(&self) -> (r: Self)
        ensures
            r@ == self@,
    {
        Message {
            role: self.role,
            content: clone_parts(&self.content),
            tool_calls: clone_opt_calls(&self.tool_calls),
            tool_call_id: clone_opt_string(&self.tool_call_id),
            created_at: self.created_at,
            id: self.id,
            parent_id: self.parent_id,
            branch_index: self.branch_index,
        }
    }
}

/// A new, unsaved message with the given parts and nothing else set.
pub open spec fn spec_new_message(role: Role, content: Seq<PartView>) -> MessageView {
    MessageView {
        role,
        content,
        tool_calls: None,
        tool_call_id: None,
        created_at: None,
        id: None,
        parent_id: None,
        branch_index: 0,
    }
}

/// The texts of the text parts, in order.
pub open spec fn spec_texts(parts: Seq<PartView>) -> Seq<Seq<char>>
    decreases parts.len(),
{
    if parts.len() == 0 {
        Seq::empty()
    } else {
        match parts.last() {
            PartView::Text(t) => spec_texts(parts.drop_last()).push(t),
            PartView::Image(_, _) => spec_texts(parts.drop_last()),
        }
    }
}

/// The number of image parts.
pub open spec fn spec_image_count(parts: Seq<PartView>) -> nat
    decreases parts.len(),
{
    if parts.len() == 0 {
        0
    } else {
        match parts.last() {
            PartView::Text(_) => spec_image_count(parts.drop_last()),
            PartView::Image(_, _) => spec_image_count(parts.drop_last()) + 1,
        }
    }
}

/// A message's text: its text parts joined by newlines.
pub open spec fn spec_text_str(parts: Seq<PartView>) -> Seq<char> {
    join_with(spec_texts(parts), seq!['\n'])
}

impl Message {
    /// A new message holding one text part.
    pub fn text(role: Role, text: String) -> (m: Message)
        ensures
            m@ == spec_new_message(role, seq![PartView::Text(text@)]),
    {
        let mut content: Vec<ContentPart> = Vec::new();
        content.push(ContentPart::Text { text });
        let m = Message {
            role,
            content,
            tool_calls: None,
            tool_call_id: None,
            created_at: None,
            id: None,
            parent_id: None,
            branch_index: 0,
        };
        assert(m@.content =~= seq![PartView::Text(text@)]);
        m
    }

    /// A new message holding the given parts.
    pub fn from_parts(role: Role, parts: Vec<ContentPart>) -> (m: Message)
        ensures
            m@ == spec_new_message(role, parts_view(parts@)),
    {
        Message {
            role,
            content: parts,
            tool_calls: None,
            tool_call_id: None,
            created_at: None,
            id: None,
            parent_id: None,
            branch_index: 0,
        }
    }

    /// A new tool-role message answering the tool call `tool_call_id`.
    pub fn tool_result(tool_call_id: String, text: String) -> (m: Message)
        ensures
            m@ == (MessageView {
                tool_call_id: Some(tool_call_id@),
                ..spec_new_message(Role::Tool, seq![PartView::Text(text@)])
            }),
    {
        let mut content: Vec<ContentPart> = Vec::new();
        content.push(ContentPart::Text { text });
        let m = Message {
            role: Role::Tool,
            content,
            tool_calls: None,
            tool_call_id: Some(tool_call_id),
            created_at: None,
            id: None,
            parent_id: None,
            branch_index: 0,
        };
        assert(m@.content =~= seq![PartView::Text(text@)]);
        m
    }

    /// The message's text parts joined by newlines.
    pub fn text_str(&self) -> (r: String)
        ensures
            r@ == spec_text_str(self@.content),
    {
        let mut texts: Vec<String> = Vec::new();
        let mut i: usize = 0;
        while i < self.content.len()
            invariant
                i <= self.content.len(),
                strings_view(texts@) == spec_texts(parts_view(self.content@).take(i as int)),
            decreases self.content.len() - i,
        {
            let ghost before = strings_view(texts@);
            let ghost pv = parts_view(self.content@);
            assert(pv.take(i as int + 1).drop_last() =~= pv.take(i as int));
            match &self.content[i] {
                ContentPart::Text { text } => {
                    texts.push(text.clone());
                    assert(strings_view(texts@) =~= before.push(text@));
                },
                ContentPart::ImageUrl { .. } => {
                    assert(strings_view(texts@) =~= before);
                },
            }
            i = i + 1;
        }
        assert(parts_view(self.content@).take(self.content.len() as int) =~= parts_view(self.content@));
        let mut out = String::new();
        proof {
            reveal_strlit("\n");
            assert("\n"@ =~= seq!['\n']);
        }
        push_joined(&mut out, &texts, "\n");
        assert(out@ =~= spec_text_str(self@.content));
        out
    }

    /// The number of image parts.
    pub fn image_count(&self) -> (r: usize)
        ensures
            r == spec_image_count(self@.content),
    {
        let mut n: usize = 0;
        let mut i: usize = 0;
        while i < self.content.len()
            invariant
                i <= self.content.len(),
                n == spec_image_count(parts_view(self.content@).take(i as int)),
                n <= i,
            decreases self.content.len() - i,
        {
            let ghost pv = parts_view(self.content@);
            assert(pv.take(i as int + 1).drop_last() =~= pv.take(i as int));
            match &self.content[i] {
                ContentPart::Text { .. } => {},
                ContentPart::ImageUrl { .. } => {
                    n = n + 1;
                },
            }
            i = i + 1;
        }
        assert(parts_view(self.content@).take(self.content.len() as int) =~= parts_view(self.content@));
        n
    }
}

} // verus!
