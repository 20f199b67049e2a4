//! What each request is answered with: the decisions of the HTTP boundary,
//! on plain values.

use crate::data_store::{read, Error, Mmds};
use crate::patch::merge;
use crate::text::{after_first, join, join_lines, split_after};
use crate::value::{Value, ValueView};
use vstd::prelude::*;

verus! {

/// Status of a reply that carries what was read.
pub const OK: u16 = 200;

/// Status of a reply to a write that was done.
pub const NO_CONTENT: u16 = 204;

/// Status of a reply to a read of what is not there.
pub const NOT_FOUND: u16 = 404;

/// Status of a reply to a write that was refused.
pub const INTERNAL_SERVER_ERROR: u16 = 500;

/// A reply: an HTTP status and a body.
#[derive(Debug, PartialEq, Eq)]
pub struct Response {
    pub status: u16,
    pub body: String,
}

/// The mathematical value of a [`Response`].
pub struct ResponseView {
    pub status: u16,
    pub body: Seq<char>,
}

impl View for Response {
    type V = ResponseView;

    open spec fn view(&self) -> ResponseView {
        ResponseView { status: self.status, body: self.body@ }
    }
}

/// Why a request could not be answered at all.
#[derive(Debug, PartialEq, Eq, Clone, Copy)]
pub enum Fault {
    /// The request path does not hold the prefix that the store is served
    /// under.
    OutsidePrefix,
    /// The lines read could not be written as a JSON string.
    Unencodable,
}

impl Error {
    /// The sentence that describes the error.
    pub open spec fn text(self) -> Seq<char> {
        match self {
            Error::NotFound => "The MMDS resource does not exist."@,
            Error::UnsupportedValueType => "Cannot add non-strings values to the MMDS data-store."@,
        }
    }

    /// The sentence that describes the error, as a string.
    pub fn message(&self) -> (sentence: String)
        ensures
            sentence@ == self.text(),
    {
        match self {
            Error::NotFound => "The MMDS resource does not exist.".to_owned(),
            Error::UnsupportedValueType => "Cannot add non-strings values to the MMDS data-store.".to_owned(),
        }
    }
}

/// The JSON text that `serde_json` writes for a string that holds `text`,
/// or `None` where it gives an error instead.
pub uninterp spec fn json_string(text: Seq<char>) -> Option<Seq<char>>;

/// `serde_json::to_string`, called on a string. Believed of it, not
/// proved: what it returns depends on the text alone, so that it has the
/// name [`json_string`]. Nothing is said of what that text looks like, nor
/// that the call succeeds; an error comes back as `None`.
#[verifier::external_body]
fn to_json_string(text: &str) -> (encoded: Option<String>)
    ensures
        match encoded {
            Some(literal) => json_string(text@) == Some(literal@),
            None => json_string(text@) is None,
        },
{
    serde_json::to_string(text).ok()
}

/// The reply to a read that failed.
pub open spec fn error_reply(e: Error) -> ResponseView {
    ResponseView {
        status: match e {
            Error::NotFound => NOT_FOUND,
            Error::UnsupportedValueType => INTERNAL_SERVER_ERROR,
        },
        body: e.text(),
    }
}

/// The reply to a write: nothing to say where it was done, the error's
/// sentence where it was refused.
pub open spec fn write_reply(done: Result<(), Error>) -> ResponseView {
    match done {
        Ok(()) => ResponseView { status: NO_CONTENT, body: Seq::empty() },
        Err(e) => ResponseView { status: INTERNAL_SERVER_ERROR, body: e.text() },
    }
}

/// The reply that carries what was read, given its encoding.
pub open spec fn listing_reply(encoded: Option<Seq<char>>) -> Result<ResponseView, Fault> {
    match encoded {
        Some(body) => Ok(ResponseView { status: OK, body }),
        None => Err(Fault::Unencodable),
    }
}

/// The answer to a read of the request path `fpath`.
pub open spec fn get_reply(document: ValueView, fpath: Seq<char>) -> Result<ResponseView, Fault> {
    match after_first(fpath, "/mds"@) {
        None => Err(Fault::OutsidePrefix),
        Some(path) => match read(document, path) {
            Ok(lines) => listing_reply(json_string(join_lines(lines))),
            Err(e) => Ok(error_reply(e)),
        },
    }
}

/// Makes the reply that carries `encoded`, the lines read as a JSON string.
pub fn respond_with_listing(encoded: Option<String>) -> (reply: Result<Response, Fault>)
    ensures
        match listing_reply(
            match encoded {
                Some(body) => Some(body@),
                None => None,
            },
        ) {
            Ok(view) => reply is Ok && reply->Ok_0@ == view,
            Err(fault) => reply == Err::<Response, Fault>(fault),
        },
{
    match encoded {
        Some(body) => Ok(Response { status: OK, body }),
        None => Err(Fault::Unencodable),
    }
}

/// Answers a read. `fpath` is the whole request path; what follows the
/// first `/mds` in it is the path into the document. What is found there is
/// sent as one JSON string, its lines joined by line feeds, with status 200.
/// A path that leads nowhere is answered with status 404 and the error's
/// sentence.
pub fn get_mds(store: &Mmds, fpath: &str) -> (reply: Result<Response, Fault>)
    ensures
        match get_reply(store@, fpath@) {
            Ok(view) => reply is Ok && reply->Ok_0@ == view,
            Err(fault) => reply == Err::<Response, Fault>(fault),
        },
{
    let path = match split_after(fpath, "/mds") {
        Some(path) => path,
        None => {
            return Err(Fault::OutsidePrefix);
        },
    };
    match store.get_value(path) {
        Ok(lines) => {
            let text = join(&lines);
            respond_with_listing(to_json_string(text.as_str()))
        },
        Err(e) => {
            let status = match e {
                Error::NotFound => NOT_FOUND,
                Error::UnsupportedValueType => INTERNAL_SERVER_ERROR,
            };
            Ok(Response { status, body: e.message() })
        },
    }
}

/// Makes the reply to a write.
fn respond_to_write(done: Result<(), Error>) -> (reply: Response)
    ensures
        reply@ == write_reply(done),
{
    match done {
        Ok(()) => Response { status: NO_CONTENT, body: String::new() },
        Err(e) => Response { status: INTERNAL_SERVER_ERROR, body: e.message() },
    }
}

/// Answers a replacement of the document by `data`: status 204 and no body
/// where `data` is a document and has taken the old one's place, status 500
/// and the error's sentence where it is none and the store is as it was.
pub fn put_mds(store: &mut Mmds, data: Value) -> (reply: Response)
    ensures
        data@.is_document() ==> final(store)@ == data@ && reply@ == write_reply(Ok(())),
        !data@.is_document() ==> final(store)@ == old(store)@ && reply@ == write_reply(
            Err(Error::UnsupportedValueType),
        ),
{
    let done = store.put_data(data);
    respond_to_write(done)
}

/// Answers a merge of `patch` into the document: status 204 and no body
/// where the merge gave a document, which the store now holds, status 500
/// and the error's sentence where it gave none and the store is as it was.
pub fn patch_mds(store: &mut Mmds, patch: Value) -> (reply: Response)
    ensures
        merge(old(store)@, patch@).is_document() ==> final(store)@ == merge(old(store)@, patch@)
            && reply@ == write_reply(Ok(())),
        !merge(old(store)@, patch@).is_document() ==> final(store)@ == old(store)@ && reply@
            == write_reply(Err(Error::UnsupportedValueType)),
{
    let done = store.patch_data(patch);
    respond_to_write(done)
}

} // verus!
