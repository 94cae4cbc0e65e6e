//! What is read out of JSON, and what the messages of the socket API mean.
use vstd::prelude::*;

use crate::decimal::decimal;
use crate::herdr::{
    copied_in, first_of, first_focused, focused_pane, is_reply, is_subscription, nested_text,
    request_id, Reply,
};
use crate::json::{
    common_up_to, field, field_in, keys_ascend, printed, text_before, text_field, text_in, Json,
};
use crate::paste::{opt_str, recorded_target};
use crate::text::trimmed;

verus! {

proof fn first_key_decides(fields: Seq<(String, Json)>, key: Seq<char>, i: int)
    requires
        0 <= i <= fields.len(),
        forall|j: int| 0 <= j < i ==> (#[trigger] fields[j]).0@ != key,
    ensures
        i == fields.len() ==> field_in(fields, key) is None,
        i < fields.len() && fields[i].0@ == key ==> field_in(fields, key) == Some(fields[i].1),
    decreases i,
{
    if i > 0 {
        assert(fields[0].0@ != key);
        let rest = fields.skip(1);
        assert forall|j: int| 0 <= j < i - 1 implies (#[trigger] rest[j]).0@ != key by {
            assert(rest[j] == fields[j + 1]);
        }
        first_key_decides(rest, key, i - 1);
    }
}

/// The field of an object is the first that has the key; an object without it,
/// and what is no object, has none.
pub proof fn fields_are_found_by_key(json: Json, fields: Vec<(String, Json)>, key: Seq<char>, i: int)
    requires
        json == Json::Object(fields),
        0 <= i <= fields@.len(),
        forall|j: int| 0 <= j < i ==> (#[trigger] fields@[j]).0@ != key,
    ensures
        i == fields@.len() ==> field(json, key) is None,
        i < fields@.len() && fields@[i].0@ == key ==> field(json, key) == Some(fields@[i].1),
{
    first_key_decides(fields@, key, i);
}

/// Only objects have fields.
pub proof fn only_objects_have_fields(json: Json, key: Seq<char>)
    ensures
        !(json is Object) ==> field(json, key) is None,
{
}

/// Only texts are read as texts, and then as they are.
pub proof fn only_texts_are_texts(json: Json, key: Seq<char>)
    ensures
        json matches Json::Str(s) ==> text_in(json) == Some(s@),
        !(json is Str) ==> text_in(json) is None,
        field(json, key) is None ==> text_field(json, key) is None,
        field(json, key) matches Some(value) ==> {
            &&& value matches Json::Str(s) ==> text_field(json, key) == Some(s@)
            &&& !(value is Str) ==> text_field(json, key) is None
        },
{
}

/// Texts are ordered by the first character in which they differ; one that the
/// other begins with comes before it.
pub proof fn the_first_difference_orders(a: Seq<char>, b: Seq<char>, i: int)
    requires
        0 <= i < b.len(),
        i <= a.len(),
        forall|j: int| 0 <= j < i ==> a[j] == b[j],
        i == a.len() || a[i] < b[i],
    ensures
        text_before(a, b),
        !text_before(b, a),
        !text_before(a, a),
{
    assert(a.take(i) =~= b.take(i));
    assert(common_up_to(a, b, i));
    if text_before(b, a) {
        let k = choose|k: int| #[trigger]
            common_up_to(b, a, k) && k < a.len() && (k == b.len() || (k < b.len() && b[k] < a[k]));
        if k < i {
            assert(a[k] == b[k]);
        } else if k > i {
            assert(b.take(k)[i] == a.take(k)[i]);
        }
    }
    if text_before(a, a) {
        let k = choose|k: int| #[trigger]
            common_up_to(a, a, k) && k < a.len() && (k == a.len() || (k < a.len() && a[k] < a[k]));
    }
}

/// Where keys ascend, they do so in every value, and no key stands twice.
pub proof fn ascending_keys_are_distinct(json: Json, i: int, j: int)
    requires
        keys_ascend(json),
        0 <= i < j,
    ensures
        json matches Json::Object(fields) ==> j < fields@.len() ==> {
            &&& text_before(fields@[i].0@, fields@[j].0@)
            &&& fields@[i].0@ != fields@[j].0@
            &&& keys_ascend(fields@[i].1)
            &&& keys_ascend(fields@[j].1)
        },
        json matches Json::Array(items) ==> j < items@.len() ==> keys_ascend(items@[i])
            && keys_ascend(items@[j]),
{
    if json is Object && j < json->Object_0@.len() {
        let fields = json->Object_0@;
        let a = fields[i].0@;
        let b = fields[j].0@;
        assert(keys_ascend(fields[i].1));
        assert(keys_ascend(fields[j].1));
        assert(text_before(a, b));
        if a == b {
            let k = choose|k: int| #[trigger]
                common_up_to(a, b, k) && k < b.len() && (k == a.len() || (k < a.len() && a[k]
                    < b[k]));
        }
    }
}

/// Requests are numbered in the open.
pub proof fn request_ids_show_their_number(n: nat)
    ensures
        request_id(n) == seq!['r', 'e', 'q', '_'] + decimal(n),
{
    reveal_strlit("req_");
    assert("req_"@ =~= seq!['r', 'e', 'q', '_']);
}

/// A subscription names the one kind of event that it is for.
pub proof fn subscriptions_name_their_event(params: Json, kind: Seq<char>)
    requires
        is_subscription(params, kind),
    ensures
        params matches Json::Object(fields) && fields@.len() == 1,
        field(params, "subscriptions"@) matches Some(Json::Array(items)) && items@.len() == 1
            && text_field(items@[0], "type"@) == Some(kind) && (
        items@[0] matches Json::Object(fields) && fields@.len() == 1),
{
}

/// A message with another id, or none, is no reply. One with the id is a
/// failure exactly where it has an error, and else gives its result.
pub proof fn replies_are_for_the_one_who_asked(r: Reply, id: Seq<char>, msg: Json)
    requires
        is_reply(r, id, msg),
    ensures
        r is NotOurs <==> text_field(msg, "id"@) != Some(id),
        r matches Reply::Failed(text) ==> field(msg, "error"@) is Some && text@ == printed(
            field(msg, "error"@)->0,
        ),
        r matches Reply::Done(result) ==> {
            &&& field(msg, "error"@) is None
            &&& field(msg, "result"@) is Some ==> field(msg, "result"@) == Some(result)
            &&& field(msg, "result"@) is None ==> result is Null
        },
{
}

proof fn first_flag_decides(panes: Seq<Json>, i: int)
    requires
        0 <= i <= panes.len(),
        forall|j: int|
            0 <= j < i ==> field(#[trigger] panes[j], "focused"@) != Some(Json::Bool(true))
                && field(panes[j], "is_focused"@) != Some(Json::Bool(true)),
    ensures
        i == panes.len() ==> first_focused(panes) is None,
        i < panes.len() && (field(panes[i], "focused"@) == Some(Json::Bool(true)) || field(
            panes[i],
            "is_focused"@,
        ) == Some(Json::Bool(true))) ==> first_focused(panes) == Some(panes[i]),
    decreases i,
{
    if i > 0 {
        assert(field(panes[0], "focused"@) != Some(Json::Bool(true)));
        let rest = panes.skip(1);
        assert forall|j: int| 0 <= j < i - 1 implies field(#[trigger] rest[j], "focused"@) != Some(
            Json::Bool(true),
        ) && field(rest[j], "is_focused"@) != Some(Json::Bool(true)) by {
            assert(rest[j] == panes[j + 1]);
        }
        first_flag_decides(rest, i - 1);
    }
}

/// The focused pane is the first that is flagged so, in the list under `panes`
/// or in the reply that is a list itself; its id is its `id`, or `pane_id`
/// where it has none.
pub proof fn the_focused_pane_is_the_first_flagged(result: Json, panes: Vec<Json>, i: int)
    requires
        field(result, "panes"@) == Some(Json::Array(panes)) || result == Json::Array(panes),
        0 <= i <= panes@.len(),
        forall|j: int|
            0 <= j < i ==> field(#[trigger] panes@[j], "focused"@) != Some(Json::Bool(true))
                && field(panes@[j], "is_focused"@) != Some(Json::Bool(true)),
        i < panes@.len() ==> field(panes@[i], "focused"@) == Some(Json::Bool(true)) || field(
            panes@[i],
            "is_focused"@,
        ) == Some(Json::Bool(true)),
    ensures
        i == panes@.len() ==> focused_pane(result) is None,
        i < panes@.len() && field(panes@[i], "id"@) is Some ==> focused_pane(result) == text_field(
            panes@[i],
            "id"@,
        ),
        i < panes@.len() && field(panes@[i], "id"@) is None ==> focused_pane(result) == text_field(
            panes@[i],
            "pane_id"@,
        ),
{
    first_flag_decides(panes@, i);
}

/// In a reply without a list no pane is focused.
pub proof fn without_a_list_no_pane_is_focused(result: Json)
    requires
        !(result is Array),
        !(field(result, "panes"@) matches Some(Json::Array(_))),
    ensures
        focused_pane(result) is None,
{
}

/// The copied text of an event is its own, else that of its `event`, else that
/// of its `data`.
pub proof fn copied_text_is_found_where_it_stands(event: Json, t: Seq<char>)
    ensures
        text_field(event, "text"@) == Some(t) ==> copied_in(event) == Some(t),
        text_field(event, "text"@) is None ==> {
            &&& field(event, "event"@) matches Some(inner) ==> text_field(inner, "text"@) == Some(t)
                ==> copied_in(event) == Some(t)
            &&& (field(event, "event"@) matches Some(inner) ==> text_field(inner, "text"@) is None)
                ==> {
                &&& field(event, "data"@) matches Some(data) ==> copied_in(event) == text_field(
                    data,
                    "text"@,
                )
                &&& field(event, "data"@) is None ==> copied_in(event) is None
            }
        },
{
}

/// The first of three is the first that is there, and what stands inside a
/// field is that field's own.
pub proof fn the_first_that_is_there(
    a: Option<Seq<char>>,
    b: Option<Seq<char>>,
    c: Option<Seq<char>>,
    json: Json,
    outer: Seq<char>,
    inner: Seq<char>,
)
    ensures
        a is Some ==> first_of(a, b, c) == a,
        a is None && b is Some ==> first_of(a, b, c) == b,
        a is None && b is None ==> first_of(a, b, c) == c,
        field(json, outer) matches Some(value) ==> nested_text(json, outer, inner) == text_field(
            value,
            inner,
        ),
        field(json, outer) is None ==> nested_text(json, outer, inner) is None,
{
}

/// What was recorded is pasted to, without the space around it, exactly where
/// there is something and it is not the picker's own pane.
pub proof fn the_target_is_what_was_recorded(
    recorded: Seq<char>,
    self_pane: Option<Seq<char>>,
    s: &str,
)
    ensures
        recorded_target(None, self_pane) is None,
        trimmed(recorded).len() > 0 && self_pane != Some(trimmed(recorded)) ==> recorded_target(
            Some(recorded),
            self_pane,
        ) == Some(trimmed(recorded)),
        trimmed(recorded).len() == 0 || self_pane == Some(trimmed(recorded)) ==> recorded_target(
            Some(recorded),
            self_pane,
        ) is None,
        opt_str(Some(s)) == Some(s@),
        opt_str(None) is None,
{
}

} // verus!
