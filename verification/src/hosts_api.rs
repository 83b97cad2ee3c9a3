//! The hostnames of an account as the No-IP API lists them: which JSON
//! shapes are understood, and what a reply of the API means.
use vstd::prelude::*;

use crate::text::{push_all, same_text, string_from};

verus! {

/// A JSON document, holding what the host listing reads of it; numbers are
/// kept without their value, which nothing here reads.
pub enum Json {
    Null,
    Bool(bool),
    Number,
    Str(String),
    Array(Vec<Json>),
    Object(Vec<(String, Json)>),
}

/// A JSON document as plain values.
pub enum JsonView {
    Null,
    Bool(bool),
    Number,
    Str(Seq<char>),
    Array(Seq<JsonView>),
    Object(Seq<(Seq<char>, JsonView)>),
}

/// The plain values of a document.
pub open spec fn json_view(j: Json) -> JsonView
    decreases j,
{
    match j {
        Json::Null => JsonView::Null,
        Json::Bool(b) => JsonView::Bool(b),
        Json::Number => JsonView::Number,
        Json::Str(s) => JsonView::Str(s@),
        Json::Array(items) => JsonView::Array(
            Seq::new(
                items@.len(),
                |i: int|
                    if 0 <= i < items@.len() {
                        json_view(items@[i])
                    } else {
                        JsonView::Null
                    },
            ),
        ),
        Json::Object(fields) => JsonView::Object(
            Seq::new(
                fields@.len(),
                |i: int|
                    if 0 <= i < fields@.len() {
                        (fields@[i].0@, json_view(fields@[i].1))
                    } else {
                        (Seq::empty(), JsonView::Null)
                    },
            ),
        ),
    }
}

/// The plain values of the documents of a list.
pub open spec fn json_views(items: Seq<Json>) -> Seq<JsonView> {
    items.map_values(|x: Json| json_view(x))
}

/// The plain values of the fields of an object.
pub open spec fn field_views(fields: Seq<(String, Json)>) -> Seq<(Seq<char>, JsonView)> {
    fields.map_values(|f: (String, Json)| (f.0@, json_view(f.1)))
}

proof fn lemma_json_view_shape(j: Json)
    ensures
        j matches Json::Array(items) ==> json_view(j) == JsonView::Array(json_views(items@)),
        j matches Json::Object(fields) ==> json_view(j) == JsonView::Object(field_views(fields@)),
{
    match j {
        Json::Array(items) => {
            match json_view(j) {
                JsonView::Array(s) => {
                    assert forall|i: int| 0 <= i < s.len() implies s[i] == json_views(items@)[i] by {
                        assert(s[i] == json_view(items@[i]));
                    }
                    assert(s =~= json_views(items@));
                },
                _ => {},
            }
        },
        Json::Object(fields) => {
            match json_view(j) {
                JsonView::Object(s) => {
                    assert forall|i: int| 0 <= i < s.len() implies s[i] == field_views(fields@)[i] by {
                        assert(s[i] == (fields@[i].0@, json_view(fields@[i].1)));
                    }
                    assert(s =~= field_views(fields@));
                },
                _ => {},
            }
        },
        _ => {},
    }
}

/// What `serde_json::from_str` reads of a text: the document, or nothing
/// when the text is not JSON.
pub uninterp spec fn json_of(text: Seq<char>) -> Option<JsonView>;

/// `serde_json::Value`, carried through from the parse to the conversion.
#[verifier::external_type_specification]
#[verifier::external_body]
pub struct ExJsonValue(serde_json::Value);

/// The library's copy of a `serde_json` value, one for one; numbers keep
/// no value. What it gives is part of `parse_json`'s contract, its only
/// caller.
#[verifier::external_body]
fn json_from_value(v: serde_json::Value) -> Json {
    match v {
        serde_json::Value::Null => Json::Null,
        serde_json::Value::Bool(b) => Json::Bool(b),
        serde_json::Value::Number(_) => Json::Number,
        serde_json::Value::String(s) => Json::Str(s),
        serde_json::Value::Array(a) => Json::Array(a.into_iter().map(json_from_value).collect()),
        serde_json::Value::Object(o) => Json::Object(
            o.into_iter().map(|(k, x)| (k, json_from_value(x))).collect(),
        ),
    }
}

/// `serde_json::from_str` into a `serde_json::Value`: the document a text
/// holds, named by `json_of`, or nothing when the text is not JSON.
#[verifier::external_body]
pub(crate) fn parse_json(text: &str) -> (r: Option<Json>)
    ensures
        match r {
            Some(d) => json_of(text@) == Some(json_view(d)),
            None => json_of(text@) is None,
        },
{
    serde_json::from_str::<serde_json::Value>(text).ok().map(json_from_value)
}

/// The value of the first field named `key`.
pub open spec fn field_value(fields: Seq<(Seq<char>, JsonView)>, key: Seq<char>) -> Option<JsonView>
    decreases fields.len(),
{
    if fields.len() == 0 {
        None
    } else if fields[0].0 == key {
        Some(fields[0].1)
    } else {
        field_value(fields.drop_first(), key)
    }
}

/// The member `key` of an object; nothing for any other value.
pub open spec fn member(v: JsonView, key: Seq<char>) -> Option<JsonView> {
    match v {
        JsonView::Object(fields) => field_value(fields, key),
        _ => None,
    }
}

/// The text of the member `key` of an object; empty when there is no such
/// member or it is not a string.
pub open spec fn text_at(v: JsonView, key: Seq<char>) -> Seq<char> {
    match member(v, key) {
        Some(JsonView::Str(s)) => s,
        _ => Seq::empty(),
    }
}

/// The hostname a listed item names: the item itself when it is a string,
/// else the first of its members `hostname`, `host`, `fqdn`, `name` that is
/// present, when that one is a string.
pub open spec fn item_name(v: JsonView) -> Option<Seq<char>> {
    match v {
        JsonView::Str(s) => Some(s),
        _ => {
            let f = if member(v, "hostname"@) is Some {
                member(v, "hostname"@)
            } else if member(v, "host"@) is Some {
                member(v, "host"@)
            } else if member(v, "fqdn"@) is Some {
                member(v, "fqdn"@)
            } else {
                member(v, "name"@)
            };
            match f {
                Some(JsonView::Str(s)) => Some(s),
                _ => None,
            }
        },
    }
}

/// The name of a listed item: a string item is its own name; of an object,
/// the members are tried in the order `hostname`, `host`, `fqdn`, `name`,
/// and the first that is present decides (a name when it is a string,
/// none otherwise), whatever the later ones hold.
pub proof fn law_item_name_member_order(v: JsonView, f: Seq<char>)
    ensures
        v == JsonView::Str(f) ==> item_name(v) == Some(f),
        !(v is Str) && member(v, "hostname"@) == Some(JsonView::Str(f)) ==> item_name(v) == Some(f),
        !(v is Str) && member(v, "hostname"@) is None && member(v, "host"@) == Some(JsonView::Str(f))
            ==> item_name(v) == Some(f),
        !(v is Str) && member(v, "hostname"@) is None && member(v, "host"@) is None && member(
            v,
            "fqdn"@,
        ) == Some(JsonView::Str(f)) ==> item_name(v) == Some(f),
        !(v is Str) && member(v, "hostname"@) is None && member(v, "host"@) is None && member(
            v,
            "fqdn"@,
        ) is None && member(v, "name"@) == Some(JsonView::Str(f)) ==> item_name(v) == Some(f),
        !(v is Str) && member(v, "hostname"@) is Some && !(member(v, "hostname"@)->0 is Str)
            ==> item_name(v) is None,
{
}

/// The hostnames the items of a list name, in order.
pub open spec fn item_names(items: Seq<JsonView>) -> Seq<Seq<char>>
    decreases items.len(),
{
    if items.len() == 0 {
        Seq::empty()
    } else {
        match item_name(items.last()) {
            Some(n) => item_names(items.drop_last()).push(n),
            None => item_names(items.drop_last()),
        }
    }
}

/// The hostnames listed under the member `key`, when it is a list.
pub open spec fn listed_under(doc: JsonView, key: Seq<char>) -> Seq<Seq<char>> {
    match member(doc, key) {
        Some(JsonView::Array(items)) => item_names(items),
        _ => Seq::empty(),
    }
}

/// The hostnames of a listing: those of a top-level list, else those under
/// the first of `records`, `dns_records`, `data`, `hosts`, `hostnames` that
/// names any; nothing when none does.
pub open spec fn listed_hosts(doc: JsonView) -> Option<Seq<Seq<char>>> {
    let top = match doc {
        JsonView::Array(items) => item_names(items),
        _ => Seq::empty(),
    };
    if top.len() > 0 {
        Some(top)
    } else if listed_under(doc, "records"@).len() > 0 {
        Some(listed_under(doc, "records"@))
    } else if listed_under(doc, "dns_records"@).len() > 0 {
        Some(listed_under(doc, "dns_records"@))
    } else if listed_under(doc, "data"@).len() > 0 {
        Some(listed_under(doc, "data"@))
    } else if listed_under(doc, "hosts"@).len() > 0 {
        Some(listed_under(doc, "hosts"@))
    } else if listed_under(doc, "hostnames"@).len() > 0 {
        Some(listed_under(doc, "hostnames"@))
    } else {
        None
    }
}

/// The member `key` of an object.
pub fn json_member<'a>(v: &'a Json, key: &str) -> (r: Option<&'a Json>)
    ensures
        match r {
            Some(x) => member(json_view(*v), key@) == Some(json_view(*x)),
            None => member(json_view(*v), key@) is None,
        },
{
    proof {
        lemma_json_view_shape(*v);
    }
    match v {
        Json::Object(fields) => {
            let ghost fv = field_views(fields@);
            let mut k: usize = 0;
            assert(fv.skip(0) =~= fv);
            while k < fields.len()
                invariant
                    0 <= k <= fields@.len(),
                    fv == field_views(fields@),
                    member(json_view(*v), key@) == field_value(fv, key@),
                    field_value(fv, key@) == field_value(fv.skip(k as int), key@),
                decreases fields@.len() - k,
            {
                assert(fv.skip(k as int)[0] == fv[k as int]);
                assert(fv[k as int] == (fields@[k as int].0@, json_view(fields@[k as int].1)));
                assert(fv.skip(k as int).drop_first() =~= fv.skip(k + 1 as int));
                if same_text(fields[k].0.as_str(), key) {
                    return Some(&fields[k].1);
                }
                k = k + 1;
            }
            None
        },
        _ => None,
    }
}

/// The text of the member `key` of an object, or an empty text.
pub fn text_member(v: &Json, key: &str) -> (s: String)
    ensures
        s@ == text_at(json_view(*v), key@),
{
    match json_member(v, key) {
        Some(Json::Str(t)) => t.clone(),
        _ => String::new(),
    }
}

/// The hostname a listed item names.
pub fn json_item_name(v: &Json) -> (r: Option<String>)
    ensures
        match r {
            Some(s) => item_name(json_view(*v)) == Some(s@),
            None => item_name(json_view(*v)) is None,
        },
{
    match v {
        Json::Str(s) => Some(s.clone()),
        _ => {
            let f = match json_member(v, "hostname") {
                Some(x) => Some(x),
                None => match json_member(v, "host") {
                    Some(x) => Some(x),
                    None => match json_member(v, "fqdn") {
                        Some(x) => Some(x),
                        None => json_member(v, "name"),
                    },
                },
            };
            match f {
                Some(Json::Str(s)) => Some(s.clone()),
                _ => None,
            }
        },
    }
}

/// The hostnames the items of a list name, in order.
pub fn names_from(items: &Vec<Json>) -> (v: Vec<String>)
    ensures
        v@.map_values(|s: String| s@) == item_names(json_views(items@)),
{
    let mut v: Vec<String> = Vec::new();
    let mut k: usize = 0;
    while k < items.len()
        invariant
            0 <= k <= items@.len(),
            v@.map_values(|s: String| s@) == item_names(json_views(items@.take(k as int))),
        decreases items@.len() - k,
    {
        assert(json_views(items@.take(k + 1 as int)).drop_last() =~= json_views(
            items@.take(k as int),
        ));
        assert(json_views(items@.take(k + 1 as int)).last() == json_view(items@[k as int]));
        match json_item_name(&items[k]) {
            Some(n) => {
                v.push(n);
                assert(v@.map_values(|s: String| s@) =~= item_names(
                    json_views(items@.take(k as int)),
                ).push(item_name(json_view(items@[k as int]))->0));
            },
            None => {},
        }
        k = k + 1;
    }
    assert(items@.take(k as int) =~= items@);
    v
}

fn names_under(doc: &Json, key: &str) -> (v: Vec<String>)
    ensures
        v@.map_values(|s: String| s@) == listed_under(json_view(*doc), key@),
{
    match json_member(doc, key) {
        Some(Json::Array(items)) => {
            proof {
                lemma_json_view_shape(Json::Array(*items));
            }
            names_from(items)
        },
        _ => {
            let v: Vec<String> = Vec::new();
            assert(v@.map_values(|s: String| s@) =~= Seq::<Seq<char>>::empty());
            v
        },
    }
}

/// The hostnames of a listing.
pub fn parse_hosts(doc: &Json) -> (r: Option<Vec<String>>)
    ensures
        match r {
            Some(v) => listed_hosts(json_view(*doc)) == Some(v@.map_values(|s: String| s@)),
            None => listed_hosts(json_view(*doc)) is None,
        },
{
    proof {
        lemma_json_view_shape(*doc);
    }
    match doc {
        Json::Array(items) => {
            let v = names_from(items);
            if v.len() > 0 {
                return Some(v);
            }
        },
        _ => {},
    }
    let v = names_under(doc, "records");
    if v.len() > 0 {
        return Some(v);
    }
    let v = names_under(doc, "dns_records");
    if v.len() > 0 {
        return Some(v);
    }
    let v = names_under(doc, "data");
    if v.len() > 0 {
        return Some(v);
    }
    let v = names_under(doc, "hosts");
    if v.len() > 0 {
        return Some(v);
    }
    let v = names_under(doc, "hostnames");
    if v.len() > 0 {
        return Some(v);
    }
    None
}

/// What a reply of the API listing means: 401 is a bad key; another status
/// outside 200..=299 an error naming it (`status_text` is how it is
/// shown); otherwise the hostnames of the body, or an error when it lists
/// none or is not JSON (`None`).
pub fn hosts_reply(status: u16, status_text: &str, doc: Option<&Json>) -> (r: Result<
    Vec<String>,
    String,
>)
    ensures
        status == 401 ==> (r matches Err(m) && m@
            == "Invalid API key \u{2014} generate one at my.noip.com/auth/api-keys"@),
        status != 401 && !(200 <= status <= 299) ==> (r matches Err(m) && m@ == "API error HTTP "@
            + status_text@),
        200 <= status <= 299 ==> match r {
            Ok(v) => doc matches Some(d) && listed_hosts(json_view(*d)) == Some(
                v@.map_values(|s: String| s@),
            ),
            Err(m) => m@ == "No hosts found"@ && (doc is None || listed_hosts(json_view(*doc->0))
                is None),
        },
{
    if status == 401 {
        return Err(string_from("Invalid API key \u{2014} generate one at my.noip.com/auth/api-keys"));
    }
    if !(200 <= status && status <= 299) {
        let mut m = string_from("API error HTTP ");
        push_all(&mut m, status_text);
        return Err(m);
    }
    match doc {
        Some(d) => match parse_hosts(d) {
            Some(v) => Ok(v),
            None => Err(string_from("No hosts found")),
        },
        None => Err(string_from("No hosts found")),
    }
}

/// The hostnames a text lists: nothing when it is not JSON or lists none.
pub open spec fn hosts_of_text(text: Seq<char>) -> Option<Seq<Seq<char>>> {
    match json_of(text) {
        Some(d) => listed_hosts(d),
        None => None,
    }
}

/// The hostnames a text lists, read as JSON.
pub fn hosts_in_text(text: &str) -> (r: Option<Vec<String>>)
    ensures
        match r {
            Some(v) => hosts_of_text(text@) == Some(v@.map_values(|s: String| s@)),
            None => hosts_of_text(text@) is None,
        },
{
    match parse_json(text) {
        Some(doc) => parse_hosts(&doc),
        None => None,
    }
}

/// What a reply of the API listing means, from its status and the text of
/// its body: 401 is a bad key; another status outside 200..=299 an error
/// naming it; otherwise the hostnames the body lists, or an error when it
/// lists none or is not JSON.
pub fn hosts_from_reply(status: u16, status_text: &str, body: &str) -> (r: Result<
    Vec<String>,
    String,
>)
    ensures
        status == 401 ==> (r matches Err(m) && m@
            == "Invalid API key \u{2014} generate one at my.noip.com/auth/api-keys"@),
        status != 401 && !(200 <= status <= 299) ==> (r matches Err(m) && m@ == "API error HTTP "@
            + status_text@),
        200 <= status <= 299 ==> match r {
            Ok(v) => hosts_of_text(body@) == Some(v@.map_values(|s: String| s@)),
            Err(m) => m@ == "No hosts found"@ && hosts_of_text(body@) is None,
        },
{
    if status == 401 || !(200 <= status && status <= 299) {
        return hosts_reply(status, status_text, None);
    }
    match hosts_in_text(body) {
        Some(v) => Ok(v),
        None => Err(string_from("No hosts found")),
    }
}

/// What the background listing of hostnames hands back to the interface.
pub enum FetchResult {
    /// The hostnames listed.
    Hosts(Vec<String>),
    /// Why listing failed.
    Failed(String),
}

} // verus!
