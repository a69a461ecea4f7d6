use vstd::prelude::*;

verus! {

/// Whether `serde_json::from_str::<serde_json::Value>` accepts a text.
pub uninterp spec fn json_parses(text: Seq<char>) -> bool;

/// The message (its `Display` form) of the error that `serde_json::from_str`
/// into `serde_json::Value` gives for a text that is not JSON.
pub uninterp spec fn json_error_text(text: Seq<char>) -> Seq<char>;

/// What `serde_json` finds under `key` when `text` is read as a JSON value:
/// `None` where the text is not JSON, is not an object, lacks the key or holds
/// `null` there; `Some(Some(s))` where it holds the string `s`; `Some(None)` where
/// it holds a number, a boolean, an array or an object.
pub uninterp spec fn json_member(text: Seq<char>, key: Seq<char>) -> Option<Option<Seq<char>>>;

/// The JSON string literal that `serde_json::to_string` writes for a text.
pub uninterp spec fn json_quoted(s: Seq<char>) -> Seq<char>;

/// One member of a JSON object, as far as this crate reads it.
pub enum JsonField {
    /// Absent, or `null`.
    Missing,
    /// A string.
    Text(String),
    /// Any other JSON value.
    Other,
}

impl View for JsonField {
    type V = Option<Option<Seq<char>>>;

    open spec fn view(&self) -> Option<Option<Seq<char>>> {
        match self {
            JsonField::Missing => None,
            JsonField::Text(s) => Some(Some(s@)),
            JsonField::Other => Some(None),
        }
    }
}

/// Relies on `serde_json::from_str` into `serde_json::Value`: whether it succeeds
/// depends on the text alone, and so does the message of its error.
#[verifier::external_body]
pub(crate) fn check_json(text: &str) -> (r: Result<(), String>)
    ensures
        r.is_ok() == json_parses(text@),
        r matches Err(m) ==> m@ == json_error_text(text@),
{
    serde_json::from_str::<serde_json::Value>(text).map(|_| ()).map_err(|e| e.to_string())
}

/// Relies on `serde_json::from_str` into `serde_json::Value` and on `Value::get`:
/// the member found depends on the text and the key alone, and `get` finds
/// nothing in a value that is not an object.
#[verifier::external_body]
pub(crate) fn member(text: &str, key: &str) -> (r: JsonField)
    ensures
        r@ == json_member(text@, key@),
{
    match serde_json::from_str::<serde_json::Value>(text) {
        Ok(v) => match v.get(key) {
            None | Some(serde_json::Value::Null) => JsonField::Missing,
            Some(serde_json::Value::String(s)) => JsonField::Text(s.clone()),
            Some(_) => JsonField::Other,
        },
        Err(_) => JsonField::Missing,
    }
}

/// Relies on `serde_json::to_string` of a `&str`: the quoted and escaped form
/// depends on the characters alone, and writing a string into memory cannot fail.
#[verifier::external_body]
pub(crate) fn quote(s: &str) -> (r: String)
    ensures
        r@ == json_quoted(s@),
{
    serde_json::to_string(s).unwrap_or_default()
}

/// The compact JSON array of the quoted strings, in order.
pub open spec fn json_string_array(items: Seq<Seq<char>>) -> Seq<char> {
    "["@ + joined(items.map_values(|s: Seq<char>| json_quoted(s))) + "]"@
}

/// The texts separated by commas.
pub open spec fn joined(parts: Seq<Seq<char>>) -> Seq<char>
    decreases parts.len(),
{
    if parts.len() == 0 {
        Seq::empty()
    } else if parts.len() == 1 {
        parts[0]
    } else {
        joined(parts.drop_last()) + ","@ + parts.last()
    }
}

/// Writes a list of strings as a compact JSON array.
pub fn string_array(items: &Vec<String>) -> (r: String)
    ensures
        r@ == json_string_array(items@.map_values(|s: String| s@)),
{
    let ghost views = items@.map_values(|s: String| s@);
    let ghost quoted = views.map_values(|s: Seq<char>| json_quoted(s));
    let mut body = String::new();
    let mut i: usize = 0;
    while i < items.len()
        invariant
            i <= items@.len(),
            views == items@.map_values(|s: String| s@),
            quoted == views.map_values(|s: Seq<char>| json_quoted(s)),
            body@ == joined(quoted.subrange(0, i as int)),
        decreases items@.len() - i,
    {
        let q = quote(items[i].as_str());
        proof {
            assert(quoted.subrange(0, i + 1).drop_last() =~= quoted.subrange(0, i as int));
            assert(quoted.subrange(0, i + 1).last() == q@);
        }
        if i > 0 {
            body.append(",");
        }
        body.append(q.as_str());
        proof {
            reveal_strlit(",");
            if i == 0 {
                assert(body@ =~= quoted.subrange(0, 1)[0]);
            }
        }
        i = i + 1;
    }
    assert(quoted.subrange(0, i as int) =~= quoted);
    let mut r = String::new();
    r.append("[");
    r.append(body.as_str());
    r.append("]");
    r
}

} // verus!
