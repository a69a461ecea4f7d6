use vstd::prelude::*;

use crate::json::{json_member, json_quoted, json_string_array, member, quote, string_array, JsonField};
use crate::table::string_views;

verus! {

/// The first frame of a connection: `{type:"hello", username, token}`.
pub struct Hello {
    pub kind: String,
    pub username: String,
    pub token: String,
}

/// A `plaintext` envelope: `{type, from, to?, data?, iv?, cid?}`.
pub struct ForwardMsg {
    pub kind: String,
    pub from: String,
    pub to: Option<String>,
    pub data: Option<String>,
    pub iv: Option<String>,
    pub cid: Option<String>,
}

/// The string member of a frame, if it holds one.
pub open spec fn text_member(text: Seq<char>, key: Seq<char>) -> Option<Seq<char>> {
    match json_member(text, key) {
        Some(Some(s)) => Some(s),
        _ => None,
    }
}

/// An optional string member is absent, `null` or a string.
pub open spec fn optional_ok(text: Seq<char>, key: Seq<char>) -> bool {
    json_member(text, key) != Some(None::<Seq<char>>)
}

/// The username and token of a well-formed `hello` frame.
pub open spec fn hello_of(text: Seq<char>) -> Option<(Seq<char>, Seq<char>)> {
    if text_member(text, "type"@) == Some("hello"@) && text_member(text, "username"@).is_some()
        && text_member(text, "token"@).is_some() {
        Some((text_member(text, "username"@).unwrap(), text_member(text, "token"@).unwrap()))
    } else {
        None
    }
}

/// A frame reads as a `plaintext` envelope: a string `type` and `from`, and the
/// optional fields absent, `null` or strings.
pub open spec fn forward_ok(text: Seq<char>) -> bool {
    &&& text_member(text, "type"@).is_some()
    &&& text_member(text, "from"@).is_some()
    &&& optional_ok(text, "to"@)
    &&& optional_ok(text, "data"@)
    &&& optional_ok(text, "iv"@)
    &&& optional_ok(text, "cid"@)
}

pub open spec fn opt_view(o: Option<String>) -> Option<Seq<char>> {
    match o {
        Some(s) => Some(s@),
        None => None,
    }
}

impl Hello {
    /// Reads a `hello` frame. `None` unless the frame is a JSON object whose
    /// `type` is the string "hello" and whose `username` and `token` are strings.
    pub fn parse(text: &str) -> (r: Option<Hello>)
        ensures
            match r {
                Some(h) => hello_of(text@) == Some((h.username@, h.token@)) && h.kind@
                    == "hello"@,
                None => hello_of(text@).is_none(),
            },
    {
        let kind = member(text, "type");
        let username = member(text, "username");
        let token = member(text, "token");
        match (kind, username, token) {
            (JsonField::Text(k), JsonField::Text(u), JsonField::Text(t)) => {
                if k == "hello".to_owned() {
                    Some(Hello { kind: k, username: u, token: t })
                } else {
                    None
                }
            },
            _ => None,
        }
    }
}

fn optional(f: JsonField) -> (r: Result<Option<String>, ()>)
    ensures
        match r {
            Ok(o) => f@ != Some(None::<Seq<char>>) && opt_view(o) == (match f@ {
                Some(Some(s)) => Some(s),
                _ => None,
            }),
            Err(_) => f@ == Some(None::<Seq<char>>),
        },
{
    match f {
        JsonField::Missing => Ok(None),
        JsonField::Text(s) => Ok(Some(s)),
        JsonField::Other => Err(()),
    }
}

impl ForwardMsg {
    /// Reads a frame as a `plaintext` envelope; `None` where `forward_ok` fails.
    pub fn parse(text: &str) -> (r: Option<ForwardMsg>)
        ensures
            match r {
                Some(m) => forward_ok(text@) && Some(m.kind@) == text_member(text@, "type"@)
                    && Some(m.from@) == text_member(text@, "from"@) && opt_view(m.to)
                    == text_member(text@, "to"@) && opt_view(m.data) == text_member(
                    text@,
                    "data"@,
                ) && opt_view(m.iv) == text_member(text@, "iv"@) && opt_view(m.cid)
                    == text_member(text@, "cid"@),
                None => !forward_ok(text@),
            },
    {
        let kind = match member(text, "type") {
            JsonField::Text(s) => s,
            _ => return None,
        };
        let from = match member(text, "from") {
            JsonField::Text(s) => s,
            _ => return None,
        };
        let to = match optional(member(text, "to")) {
            Ok(o) => o,
            Err(_) => return None,
        };
        let data = match optional(member(text, "data")) {
            Ok(o) => o,
            Err(_) => return None,
        };
        let iv = match optional(member(text, "iv")) {
            Ok(o) => o,
            Err(_) => return None,
        };
        let cid = match optional(member(text, "cid")) {
            Ok(o) => o,
            Err(_) => return None,
        };
        Some(ForwardMsg { kind, from, to, data, iv, cid })
    }
}

/// The `system` frame that announces a new participant.
pub open spec fn join_notice_text(identity: Seq<char>) -> Seq<char> {
    "{\"type\":\"system\",\"msg\":"@ + json_quoted(identity + " connected"@) + "}"@
}

/// The `presence` frame for a list of identities.
pub open spec fn presence_text(online: Seq<Seq<char>>) -> Seq<char> {
    "{\"type\":\"presence\",\"online\":"@ + json_string_array(online) + "}"@
}

/// Builds the `system` frame `"<identity> connected"`.
pub fn join_notice(identity: &str) -> (r: String)
    ensures
        r@ == join_notice_text(identity@),
{
    let mut msg = identity.to_owned();
    msg.append(" connected");
    let q = quote(msg.as_str());
    let mut r = "{\"type\":\"system\",\"msg\":".to_owned();
    r.append(q.as_str());
    r.append("}");
    r
}

/// Builds the `presence` frame listing the identities online.
pub fn presence_frame(online: &Vec<String>) -> (r: String)
    ensures
        r@ == presence_text(string_views(online@)),
{
    let list = string_array(online);
    let mut r = "{\"type\":\"presence\",\"online\":".to_owned();
    r.append(list.as_str());
    r.append("}");
    r
}

} // verus!
