use vstd::prelude::*;

verus! {

/// The text that UTF-8 bytes spell, or `None` where they are not valid UTF-8.
pub uninterp spec fn utf8_text(bytes: Seq<u8>) -> Option<Seq<char>>;

/// Relies on std's `String::from_utf8`: it decodes valid UTF-8 and fails on
/// anything else; no bytes make the empty text.
#[verifier::external_body]
fn decode_utf8(bytes: Vec<u8>) -> (r: Option<String>)
    ensures
        match r {
            Some(s) => utf8_text(bytes@) == Some(s@),
            None => utf8_text(bytes@) is None,
        },
        bytes@.len() == 0 ==> r is Some && r->0@.len() == 0,
{
    String::from_utf8(bytes).ok()
}

/// A request sent from the server to a connected device: an opaque payload.
#[derive(Debug)]
pub struct Request {
    pub data: Vec<u8>,
}

impl Request {
    /// Wraps a payload as a request.
    pub fn new(data: Vec<u8>) -> (r: Self)
        ensures
            r.data@ == data@,
    {
        Request { data }
    }
}

/// A response sent from a connected device back to the server: an opaque payload.
#[derive(Debug, Clone)]
pub struct Response {
    pub data: Vec<u8>,
}

impl Response {
    /// Wraps a payload as a response.
    pub fn new(data: Vec<u8>) -> (r: Self)
        ensures
            r.data@ == data@,
    {
        Response { data }
    }

    /// The payload read as UTF-8 text; `None` where it is not valid UTF-8.
    pub fn text(&self) -> (r: Option<String>)
        ensures
            match r {
                Some(s) => utf8_text(self.data@) == Some(s@),
                None => utf8_text(self.data@) is None,
            },
    {
        decode_utf8(self.data.clone())
    }
}

} // verus!
