//! herdr's newline-delimited JSON socket API: the messages that are sent, and
//! what is read out of those that arrive.
use vstd::prelude::*;

use crate::decimal::{decimal, decimal_is_injective, push_decimal};
use crate::json::{field, field_in, keys_ascend, parsed, printed, text_before, text_field, text_in, Json};
use crate::text::opt_text;

verus! {

/// Numbers the requests of one connection.
pub struct RequestIds {
    pub next_id: u64,
}

/// The id of the `n`th request.
pub open spec fn request_id(n: nat) -> Seq<char> {
    "req_"@ + decimal(n)
}

impl RequestIds {
    pub fn new() -> (ids: Self)
        ensures
            ids.next_id == 0,
    {
        RequestIds { next_id: 0 }
    }

    /// The id of the next request.
    pub fn next(&mut self) -> (id: String)
        requires
            old(self).next_id < u64::MAX,
        ensures
            final(self).next_id == old(self).next_id + 1,
            id@ == request_id(final(self).next_id as nat),
    {
        self.next_id = self.next_id + 1;
        let mut id = String::new();
        id.append("req_");
        push_decimal(&mut id, self.next_id);
        assert(id@ =~= request_id(self.next_id as nat));
        id
    }
}

/// No two requests of a connection share an id.
pub proof fn request_ids_are_distinct(a: nat, b: nat)
    requires
        request_id(a) == request_id(b),
    ensures
        a == b,
{
    let n = "req_"@.len() as int;
    assert(request_id(a).skip(n) =~= decimal(a));
    assert(request_id(b).skip(n) =~= decimal(b));
    decimal_is_injective(a, b);
}

/// `json` is the request `method` with these parameters.
pub open spec fn is_request(
    json: Json,
    id: Seq<char>,
    method: Seq<char>,
    params: Json,
) -> bool {
    json matches Json::Object(fields) && {
        &&& fields@.len() == 3
        &&& fields@[0].0@ == "id"@ && text_in(fields@[0].1) == Some(id)
        &&& fields@[1].0@ == "method"@ && text_in(fields@[1].1) == Some(method)
        &&& fields@[2].0@ == "params"@ && fields@[2].1 == params
    }
}

/// A request holds its id, its method and its parameters, and nothing else.
pub proof fn requests_hold_id_method_and_params(
    json: Json,
    id: Seq<char>,
    method: Seq<char>,
    params: Json,
)
    requires
        is_request(json, id, method, params),
    ensures
        text_field(json, "id"@) == Some(id),
        text_field(json, "method"@) == Some(method),
        field(json, "params"@) == Some(params),
        json matches Json::Object(fields) && fields@.len() == 3,
{
    reveal_strlit("id");
    reveal_strlit("method");
    reveal_strlit("params");
    assert("id"@.len() == 2 && "method"@.len() == 6 && "params"@.len() == 6);
    assert("method"@[0] != "params"@[0]);
    reveal_with_fuel(field_in, 4);
}

proof fn first_letters_decide(a: Seq<char>, b: Seq<char>)
    requires
        a.len() > 0,
        b.len() > 0,
        a[0] < b[0],
    ensures
        text_before(a, b),
{
    assert(a.take(0) =~= b.take(0));
    assert(crate::json::common_up_to(a, b, 0));
}

/// The line that asks for `method`, without the newline that ends it.
pub fn request_line(id: &str, method: &str, params: Json) -> (line: String)
    requires
        keys_ascend(params),
    ensures
        exists|json: Json| #[trigger]
            is_request(json, id@, method@, params) && line@ == printed(json) && text_field(
                json,
                "id"@,
            ) == Some(id@) && text_field(json, "method"@) == Some(method@) && field(
                json,
                "params"@,
            ) == Some(params),
{
    let ghost given = params;
    let mut fields: Vec<(String, Json)> = Vec::new();
    fields.push(("id".to_owned(), Json::Str(id.to_owned())));
    fields.push(("method".to_owned(), Json::Str(method.to_owned())));
    fields.push(("params".to_owned(), params));
    let json = Json::Object(fields);
    proof {
        reveal_strlit("id");
        reveal_strlit("method");
        reveal_strlit("params");
        first_letters_decide("id"@, "method"@);
        first_letters_decide("id"@, "params"@);
        first_letters_decide("method"@, "params"@);
        requests_hold_id_method_and_params(json, id@, method@, given);
        assert(keys_ascend(fields@[0].1));
        assert(keys_ascend(fields@[1].1));
        assert(keys_ascend(fields@[2].1));
        assert(keys_ascend(json));
    }
    json.print()
}

/// `params` asks to send `text` to the pane `pane_id`.
pub open spec fn is_send_text(params: Json, pane_id: Seq<char>, text: Seq<char>) -> bool {
    params matches Json::Object(fields) && {
        &&& fields@.len() == 2
        &&& fields@[0].0@ == "pane_id"@ && text_in(fields@[0].1) == Some(pane_id)
        &&& fields@[1].0@ == "text"@ && text_in(fields@[1].1) == Some(text)
    }
}

/// The parameters that send a text name the pane and hold the text, the whole
/// of it and nothing else.
pub proof fn send_text_holds_pane_and_text(params: Json, pane_id: Seq<char>, text: Seq<char>)
    requires
        is_send_text(params, pane_id, text),
    ensures
        text_field(params, "pane_id"@) == Some(pane_id),
        text_field(params, "text"@) == Some(text),
        params matches Json::Object(fields) && fields@.len() == 2,
{
    reveal_strlit("pane_id");
    reveal_strlit("text");
    assert("pane_id"@.len() != "text"@.len());
    reveal_with_fuel(field_in, 3);
}

/// Other texts, and other panes, have other parameters.
pub proof fn sent_texts_are_told_apart(
    params: Json,
    pane_id: Seq<char>,
    text: Seq<char>,
    other_id: Seq<char>,
    other: Seq<char>,
)
    requires
        is_send_text(params, pane_id, text),
        pane_id != other_id || text != other,
    ensures
        !is_send_text(params, other_id, other),
        text_field(params, "pane_id"@) != Some(other_id) || text_field(params, "text"@) != Some(
            other,
        ),
{
    send_text_holds_pane_and_text(params, pane_id, text);
}

/// The parameters of `pane.send_text`.
pub fn send_text_params(pane_id: &str, text: &str) -> (params: Json)
    ensures
        is_send_text(params, pane_id@, text@),
        text_field(params, "pane_id"@) == Some(pane_id@),
        text_field(params, "text"@) == Some(text@),
        params matches Json::Object(fields) && fields@.len() == 2,
        keys_ascend(params),
{
    let mut fields: Vec<(String, Json)> = Vec::new();
    fields.push(("pane_id".to_owned(), Json::Str(pane_id.to_owned())));
    fields.push(("text".to_owned(), Json::Str(text.to_owned())));
    proof {
        reveal_strlit("pane_id");
        reveal_strlit("text");
        first_letters_decide("pane_id"@, "text"@);
        assert(keys_ascend(fields@[0].1));
        assert(keys_ascend(fields@[1].1));
        send_text_holds_pane_and_text(Json::Object(fields), pane_id@, text@);
    }
    Json::Object(fields)
}

/// The parameters of a request that has none.
pub fn no_params() -> (params: Json)
    ensures
        params matches Json::Object(fields) && fields@.len() == 0,
        keys_ascend(params),
{
    Json::Object(Vec::new())
}

/// `json` is an object with the one field `key`.
pub open spec fn is_single(json: Json, key: Seq<char>) -> bool {
    json matches Json::Object(fields) && fields@.len() == 1 && fields@[0].0@ == key
}

fn single(key: &str, value: Json) -> (json: Json)
    requires
        keys_ascend(value),
    ensures
        is_single(json, key@),
        field(json, key@) == Some(value),
        keys_ascend(json),
{
    let mut fields: Vec<(String, Json)> = Vec::new();
    fields.push((key.to_owned(), value));
    assert(keys_ascend(fields@[0].1));
    Json::Object(fields)
}

/// `params` subscribes to one kind of event.
pub open spec fn is_subscription(params: Json, kind: Seq<char>) -> bool {
    &&& is_single(params, "subscriptions"@)
    &&& field(params, "subscriptions"@) matches Some(Json::Array(items)) && {
        &&& items@.len() == 1
        &&& is_single(items@[0], "type"@)
        &&& text_field(items@[0], "type"@) == Some(kind)
    }
}

/// The parameters of `events.subscribe` for focus events.
pub fn subscribe_pane_focus_params() -> (params: Json)
    ensures
        is_subscription(params, "pane.focused"@),
        field(params, "subscriptions"@) matches Some(Json::Array(items)) && items@.len() == 1
            && text_field(items@[0], "type"@) == Some("pane.focused"@),
        keys_ascend(params),
{
    let item = single("type", Json::Str("pane.focused".to_owned()));
    let mut items: Vec<Json> = Vec::new();
    items.push(item);
    assert(keys_ascend(items@[0]));
    single("subscriptions", Json::Array(items))
}

/// What a message means to a request that waits for its reply.
#[derive(Debug, PartialEq)]
pub enum Reply {
    /// A pushed event or a stale reply.
    NotOurs,
    /// The request failed; the error, printed.
    Failed(String),
    /// The result of the request.
    Done(Json),
}

/// What `msg` means to the request `id`.
pub open spec fn is_reply(r: Reply, id: Seq<char>, msg: Json) -> bool {
    if text_field(msg, "id"@) != Some(id) {
        r is NotOurs
    } else {
        match field(msg, "error"@) {
            Some(err) => r matches Reply::Failed(text) && text@ == printed(err),
            None => match field(msg, "result"@) {
                Some(result) => r == Reply::Done(result),
                None => r == Reply::Done(Json::Null),
            },
        }
    }
}

/// The fields of a value with ascending keys have ascending keys.
proof fn fields_ascend(fields: Seq<(String, Json)>, key: Seq<char>)
    requires
        forall|i: int| 0 <= i < fields.len() ==> keys_ascend((#[trigger] fields[i]).1),
    ensures
        field_in(fields, key) matches Some(value) ==> keys_ascend(value),
    decreases fields.len(),
{
    if fields.len() > 0 {
        assert(keys_ascend(fields[0].1));
        let rest = fields.skip(1);
        assert forall|i: int| 0 <= i < rest.len() implies keys_ascend((#[trigger] rest[i]).1) by {
            assert(rest[i] == fields[i + 1]);
        }
        fields_ascend(rest, key);
    }
}

proof fn field_ascends(json: Json, key: Seq<char>)
    requires
        keys_ascend(json),
    ensures
        field(json, key) matches Some(value) ==> keys_ascend(value),
{
    match json {
        Json::Object(fields) => fields_ascend(fields@, key),
        _ => {},
    }
}

/// Takes the value of `key` out of `json`.
fn take_field(json: Json, key: &str) -> (r: Option<Json>)
    ensures
        r == field(json, key@),
{
    let name = key.to_owned();
    match json {
        Json::Object(fields) => {
            let mut fields = fields;
            let mut i: usize = 0;
            assert(fields@.skip(0) =~= fields@);
            while i < fields.len()
                invariant
                    name@ == key@,
                    json == Json::Object(fields),
                    i <= fields@.len(),
                    field(json, key@) == field_in(fields@.skip(i as int), key@),
                decreases fields@.len() - i,
            {
                assert(fields@.skip(i as int).skip(1) =~= fields@.skip(i + 1));
                if fields[i].0 == name {
                    let pair = fields.swap_remove(i);
                    return Some(pair.1);
                }
                i += 1;
            }
            None
        },
        _ => None,
    }
}

/// What `msg` means to the request `id` that waits for its reply.
pub fn on_message(id: &str, msg: Json) -> (r: Reply)
    requires
        keys_ascend(msg),
    ensures
        is_reply(r, id@, msg),
{
    let ours = match msg.get("id") {
        Some(value) => match value.as_text() {
            Some(text) => *text == id.to_owned(),
            None => false,
        },
        None => false,
    };
    if !ours {
        return Reply::NotOurs;
    }
    proof {
        field_ascends(msg, "error"@);
    }
    match msg.get("error") {
        Some(err) => return Reply::Failed(err.print()),
        None => {},
    }
    match take_field(msg, "result") {
        Some(result) => Reply::Done(result),
        None => Reply::Done(Json::Null),
    }
}

/// The list of panes in a reply: under `panes`, or the reply itself.
pub open spec fn panes_in(result: Json) -> Option<Seq<Json>> {
    match field(result, "panes"@) {
        Some(Json::Array(panes)) => Some(panes@),
        _ => match result {
            Json::Array(panes) => Some(panes@),
            _ => None,
        },
    }
}

/// Whether a pane is flagged as the focused one.
pub open spec fn is_focused(pane: Json) -> bool {
    field(pane, "focused"@) == Some(Json::Bool(true)) || field(pane, "is_focused"@) == Some(
        Json::Bool(true),
    )
}

/// The first pane that is flagged as focused.
pub open spec fn first_focused(panes: Seq<Json>) -> Option<Json>
    decreases panes.len(),
{
    if panes.len() == 0 {
        None
    } else if is_focused(panes[0]) {
        Some(panes[0])
    } else {
        first_focused(panes.skip(1))
    }
}

/// The id of a pane: `id`, or `pane_id` where there is no `id`.
pub open spec fn pane_name(pane: Json) -> Option<Seq<char>> {
    if field(pane, "id"@) is Some {
        text_field(pane, "id"@)
    } else {
        text_field(pane, "pane_id"@)
    }
}

/// The id of the focused pane in a reply to `pane.list`.
pub open spec fn focused_pane(result: Json) -> Option<Seq<char>> {
    match panes_in(result) {
        Some(panes) => match first_focused(panes) {
            Some(pane) => pane_name(pane),
            None => None,
        },
        None => None,
    }
}

fn flag(json: &Json, key: &str) -> (r: bool)
    ensures
        r == (field(*json, key@) == Some(Json::Bool(true))),
{
    match json.get(key) {
        Some(Json::Bool(b)) => *b,
        _ => false,
    }
}

fn get_text(json: &Json, key: &str) -> (r: Option<String>)
    ensures
        opt_text(r) == text_field(*json, key@),
{
    match json.get(key) {
        Some(value) => match value.as_text() {
            Some(text) => Some(text.clone()),
            None => None,
        },
        None => None,
    }
}

fn focused_among(panes: &Vec<Json>) -> (r: Option<String>)
    ensures
        opt_text(r) == (match first_focused(panes@) {
            Some(pane) => pane_name(pane),
            None => None,
        }),
{
    let mut i: usize = 0;
    assert(panes@.skip(0) =~= panes@);
    while i < panes.len()
        invariant
            i <= panes@.len(),
            first_focused(panes@) == first_focused(panes@.skip(i as int)),
        decreases panes@.len() - i,
    {
        assert(panes@.skip(i as int).skip(1) =~= panes@.skip(i + 1));
        let pane = &panes[i];
        if flag(pane, "focused") || flag(pane, "is_focused") {
            return if pane.get("id").is_some() {
                get_text(pane, "id")
            } else {
                get_text(pane, "pane_id")
            };
        }
        i += 1;
    }
    None
}

/// The focused pane's id in a `pane.list` result, whose shape is undocumented:
/// accepts `{"panes":[...]}` or a bare array, `focused`/`is_focused` flags, and
/// `id`/`pane_id` keys.
pub fn find_focused_pane(result: &Json) -> (r: Option<String>)
    ensures
        opt_text(r) == focused_pane(*result),
{
    match result.get("panes") {
        Some(Json::Array(panes)) => return focused_among(panes),
        _ => {},
    }
    match result {
        Json::Array(panes) => focused_among(panes),
        _ => None,
    }
}

/// The text in the field `inner` of the field `outer`.
pub open spec fn nested_text(json: Json, outer: Seq<char>, inner: Seq<char>) -> Option<Seq<char>> {
    match field(json, outer) {
        Some(value) => text_field(value, inner),
        None => None,
    }
}

/// The first of three texts that is there.
pub open spec fn first_of(
    a: Option<Seq<char>>,
    b: Option<Seq<char>>,
    c: Option<Seq<char>>,
) -> Option<Seq<char>> {
    if a is Some {
        a
    } else if b is Some {
        b
    } else {
        c
    }
}

fn get_nested_text(json: &Json, outer: &str, inner: &str) -> (r: Option<String>)
    ensures
        opt_text(r) == nested_text(*json, outer@, inner@),
{
    match json.get(outer) {
        Some(value) => get_text(value, inner),
        None => None,
    }
}

/// The pane id in a `pane.focused` event, tolerating several shapes.
pub fn event_pane_id(event: &Json) -> (r: Option<String>)
    ensures
        opt_text(r) == first_of(
            text_field(*event, "pane_id"@),
            nested_text(*event, "pane"@, "id"@),
            nested_text(*event, "event"@, "pane_id"@),
        ),
{
    let direct = get_text(event, "pane_id");
    if direct.is_some() {
        return direct;
    }
    let of_pane = get_nested_text(event, "pane", "id");
    if of_pane.is_some() {
        return of_pane;
    }
    get_nested_text(event, "event", "pane_id")
}

/// The copied text in a `clipboard.copied` event.
pub open spec fn copied_in(event: Json) -> Option<Seq<char>> {
    first_of(
        text_field(event, "text"@),
        nested_text(event, "event"@, "text"@),
        nested_text(event, "data"@, "text"@),
    )
}

/// The copied text in a `clipboard.copied` event, tolerating several shapes.
pub fn event_copied_text(event: &Json) -> (r: Option<String>)
    ensures
        opt_text(r) == copied_in(*event),
{
    let direct = get_text(event, "text");
    if direct.is_some() {
        return direct;
    }
    let of_event = get_nested_text(event, "event", "text");
    if of_event.is_some() {
        return of_event;
    }
    get_nested_text(event, "data", "text")
}

/// The copied text in the JSON of an event; none where that is broken or of
/// another shape.
pub fn copied_text(raw: &str) -> (r: Option<String>)
    ensures
        match parsed(raw@) {
            Some(event) => opt_text(r) == copied_in(event),
            None => r is None,
        },
{
    match Json::parse(raw) {
        Ok(event) => event_copied_text(&event),
        Err(_) => None,
    }
}

} // verus!
