use vstd::prelude::*;

use base64::Engine;

use crate::envelope::text_member;
use crate::json::{check_json, json_error_text, json_parses, member, JsonField};

verus! {

/// The bytes that standard base64 (with padding) decodes a text to, if it is valid.
pub uninterp spec fn base64_decoded(s: Seq<char>) -> Option<Seq<u8>>;

/// The message (its `Display` form) of the error that standard base64 decoding
/// gives for an invalid text.
pub uninterp spec fn base64_error_text(s: Seq<char>) -> Seq<char>;

/// Relies on `base64::engine::general_purpose::STANDARD.decode`: the result,
/// and the message of its error, depend on the text alone.
#[verifier::external_body]
fn decode_base64(s: &str) -> (r: Result<Vec<u8>, String>)
    ensures
        match r {
            Ok(b) => base64_decoded(s@) == Some(b@),
            Err(m) => base64_decoded(s@).is_none() && m@ == base64_error_text(s@),
        },
{
    base64::engine::general_purpose::STANDARD.decode(s).map_err(|e| format!("{}", e))
}

/// An upload request: the payload in standard base64.
pub struct IpfsAddReq {
    pub data_b64: String,
}

impl IpfsAddReq {
    /// The bytes to store. On invalid base64 the error is "bad base64: "
    /// followed by the decoder's message.
    pub fn payload(&self) -> (r: Result<Vec<u8>, String>)
        ensures
            match r {
                Ok(b) => base64_decoded(self.data_b64@) == Some(b@),
                Err(m) => base64_decoded(self.data_b64@).is_none() && m@ == "bad base64: "@
                    + base64_error_text(self.data_b64@),
            },
    {
        match decode_base64(self.data_b64.as_str()) {
            Ok(b) => Ok(b),
            Err(e) => {
                let mut m = "bad base64: ".to_owned();
                m.append(e.as_str());
                Err(m)
            },
        }
    }
}

/// Reads the content address from the blob store's reply: the string member
/// `Hash` of a JSON object. A reply that is not JSON gives the JSON parser's
/// error; JSON without a string `Hash` gives an error that quotes the reply.
pub fn cid_from_reply(text: &str) -> (r: Result<String, String>)
    ensures
        !json_parses(text@) ==> (r matches Err(m) && m@ == json_error_text(text@)),
        json_parses(text@) ==> match r {
            Ok(cid) => text_member(text@, "Hash"@) == Some(cid@),
            Err(m) => text_member(text@, "Hash"@).is_none() && m@
                == "unexpected ipfs response: "@ + text@,
        },
{
    match check_json(text) {
        Ok(()) => {},
        Err(m) => return Err(m),
    }
    match member(text, "Hash") {
        JsonField::Text(cid) => Ok(cid),
        _ => {
            let mut m = "unexpected ipfs response: ".to_owned();
            m.append(text);
            Err(m)
        },
    }
}

} // verus!
