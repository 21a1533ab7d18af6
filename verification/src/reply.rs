//! What goes back to the caller.
//!
//! Every handler of the service ends by choosing a status, a content type, a
//! body, and for a new account a reference to it. Those choices are made
//! here, on plain values, so that the transport around them only carries
//! them out.

use vstd::prelude::*;
use vstd::string::StringExecFns;
use crate::protocol::{Ending, Outcome};
use crate::username::Rejection;

verus! {

/// Status of a request that was served.
pub const OK: u16 = 200;

/// Status of a request that created an account.
pub const CREATED: u16 = 201;

/// Status of a request that the caller has to change.
pub const BAD_REQUEST: u16 = 400;

/// Status of a request that failed through no fault of the caller.
pub const INTERNAL_SERVER_ERROR: u16 = 500;

/// Said where the submitted username is missing, is no text or breaks the rules.
pub const INVALID_PAYLOAD: &'static str = "JSON payload structure invalid.";

/// Said where the username is taken.
pub const ALREADY_EXISTS: &'static str = "User already exists.";

/// Said where a registration failed.
pub const REGISTRATION_FAILED: &'static str =
    "Internal server error. Contact site administrator for assistance.";

/// Said where the body is not well-formed JSON.
pub const INVALID_SYNTAX: &'static str = "Invalid JSON syntax.";

/// Said where the body is JSON of the wrong structure.
pub const INVALID_DATA: &'static str =
    "Given JSON data structure does not match expected parsed result.";

/// Said where the request does not announce a JSON body.
pub const MISSING_CONTENT_TYPE: &'static str = "Missing JSON content type in request header.";

/// Said where the body could not be read.
pub const UNREADABLE_BODY: &'static str = "Failed to buffer request body.";

/// Said where the body was refused for a reason not known here.
pub const UNKNOWN_FAULT: &'static str = "Unknown error";

/// Said where the home page cannot be shown.
pub const HOME_PAGE_FAILED: &'static str =
    "<h1>Internal server error. Please contact site administrator for help.<h1>";

/// Said where the accounts cannot be read for the page that lists them.
pub const USERS_UNAVAILABLE: &'static str = "<h1>Internal server error: Cannot display users.<h1>";

/// Said where the page that lists the accounts cannot be shown.
pub const PAGE_UNAVAILABLE: &'static str = "<h1>Internal server error: Cannot display page.<h1>";

/// Said where the accounts cannot be listed as data.
pub const LISTING_FAILED: &'static str = "Internal server error";

/// Shown in place of the page of a single account.
pub const UNDER_CONSTRUCTION: &'static str = "Hello! Under construction..";

/// The kind of content a reply carries.
#[derive(Clone, Copy, Debug, PartialEq, Eq, Structural)]
pub enum ContentType {
    /// `text/plain`
    TextPlain,
    /// `text/html`
    TextHtml,
    /// `application/json`
    ApplicationJson,
}

impl ContentType {
    /// The name of the content type as it stands in a header.
    pub open spec fn name(self) -> Seq<char> {
        match self {
            ContentType::TextPlain => "text/plain"@,
            ContentType::TextHtml => "text/html"@,
            ContentType::ApplicationJson => "application/json"@,
        }
    }

    /// Returns the name of the content type as it stands in a header.
    pub fn as_str(self) -> (name: &'static str)
        ensures
            name@ == self.name(),
    {
        match self {
            ContentType::TextPlain => "text/plain",
            ContentType::TextHtml => "text/html",
            ContentType::ApplicationJson => "application/json",
        }
    }
}

/// A reply: status, content type, body, and the reference to a new account
/// where one was created.
#[derive(Debug)]
pub struct Reply {
    pub status: u16,
    pub content_type: ContentType,
    pub location: Option<String>,
    pub body: String,
}

/// A `Reply` as plain mathematical data.
pub struct Answer {
    pub status: u16,
    pub content_type: ContentType,
    pub location: Option<Seq<char>>,
    pub body: Seq<char>,
}

impl View for Reply {
    type V = Answer;

    open spec fn view(&self) -> Answer {
        Answer {
            status: self.status,
            content_type: self.content_type,
            location: match self.location {
                Some(reference) => Some(reference@),
                None => None,
            },
            body: self.body@,
        }
    }
}

impl Answer {
    /// A reply without a reference.
    pub open spec fn plain(status: u16, content_type: ContentType, body: Seq<char>) -> Answer {
        Answer { status, content_type, location: None, body }
    }
}

/// Builds a reply without a reference.
fn plain_reply(status: u16, content_type: ContentType, body: &str) -> (reply: Reply)
    ensures
        reply@ == Answer::plain(status, content_type, body@),
{
    Reply { status, content_type, location: None, body: String::from_str(body) }
}

/// Why a request body did not arrive as a structured value.
#[derive(Clone, Copy, Debug, PartialEq, Eq, Structural)]
pub enum PayloadFault {
    /// The body is not well-formed JSON.
    JsonSyntaxError,
    /// The body is JSON, but not of the expected structure.
    JsonDataError,
    /// The request does not announce a JSON body.
    MissingJsonContentType,
    /// The body could not be read.
    BytesRejection,
    /// Any other reason.
    Unknown,
}

/// The status and the reason given for a rejected username.
pub open spec fn refusal_of(reason: Rejection) -> (u16, Seq<char>) {
    (BAD_REQUEST, INVALID_PAYLOAD@)
}

/// Returns the status and the reason given for a rejected username. Both
/// kinds of rejection are the caller's to mend and are told in the same words.
pub fn refusal(reason: Rejection) -> (told: (u16, String))
    ensures
        (told.0, told.1@) == refusal_of(reason),
{
    (BAD_REQUEST, String::from_str(INVALID_PAYLOAD))
}

/// The status and the reason given for a body that did not arrive.
pub open spec fn fault_of(fault: PayloadFault) -> (u16, Seq<char>) {
    match fault {
        PayloadFault::JsonSyntaxError => (BAD_REQUEST, INVALID_SYNTAX@),
        PayloadFault::JsonDataError => (BAD_REQUEST, INVALID_DATA@),
        PayloadFault::MissingJsonContentType => (BAD_REQUEST, MISSING_CONTENT_TYPE@),
        PayloadFault::BytesRejection => (INTERNAL_SERVER_ERROR, UNREADABLE_BODY@),
        PayloadFault::Unknown => (INTERNAL_SERVER_ERROR, UNKNOWN_FAULT@),
    }
}

/// Returns the status and the reason given for a body that did not arrive.
/// What the caller wrote wrongly is the caller's to mend; what could not be
/// read is not.
pub fn fault(cause: PayloadFault) -> (told: (u16, String))
    ensures
        (told.0, told.1@) == fault_of(cause),
{
    match cause {
        PayloadFault::JsonSyntaxError => (BAD_REQUEST, String::from_str(INVALID_SYNTAX)),
        PayloadFault::JsonDataError => (BAD_REQUEST, String::from_str(INVALID_DATA)),
        PayloadFault::MissingJsonContentType => (
            BAD_REQUEST,
            String::from_str(MISSING_CONTENT_TYPE),
        ),
        PayloadFault::BytesRejection => (
            INTERNAL_SERVER_ERROR,
            String::from_str(UNREADABLE_BODY),
        ),
        PayloadFault::Unknown => (INTERNAL_SERVER_ERROR, String::from_str(UNKNOWN_FAULT)),
    }
}

/// The reply to a request that was turned down with `told`.
pub fn told_reply(told: (u16, String)) -> (reply: Reply)
    ensures
        reply@ == Answer::plain(told.0, ContentType::TextPlain, told.1@),
{
    Reply { status: told.0, content_type: ContentType::TextPlain, location: None, body: told.1 }
}

/// The reply that a registration ends with.
pub open spec fn registration_answer(ending: Ending) -> Answer {
    match ending {
        Ending::Inserted { location } => Answer {
            status: CREATED,
            content_type: ContentType::TextPlain,
            location: Some(location),
            body: Seq::<char>::empty(),
        },
        Ending::RejectedDuplicate => Answer::plain(
            BAD_REQUEST,
            ContentType::TextPlain,
            ALREADY_EXISTS@,
        ),
        Ending::RejectedInvalid(reason) => Answer::plain(
            refusal_of(reason).0,
            ContentType::TextPlain,
            refusal_of(reason).1,
        ),
        Ending::Failed => Answer::plain(
            INTERNAL_SERVER_ERROR,
            ContentType::TextPlain,
            REGISTRATION_FAILED@,
        ),
    }
}

/// Returns the reply that a registration ends with: created, with the
/// reference to the new account and no body; a bad request that says the
/// name is taken, whichever way that was found out; a bad request for a
/// rejected username; or a server error in fixed words.
pub fn registration_reply(outcome: Outcome) -> (reply: Reply)
    ensures
        reply@ == registration_answer(outcome@),
{
    match outcome {
        Outcome::Inserted { location } => Reply {
            status: CREATED,
            content_type: ContentType::TextPlain,
            location: Some(location),
            body: String::new(),
        },
        Outcome::RejectedDuplicate => plain_reply(
            BAD_REQUEST,
            ContentType::TextPlain,
            ALREADY_EXISTS,
        ),
        Outcome::RejectedInvalid(reason) => told_reply(refusal(reason)),
        Outcome::Failed => plain_reply(
            INTERNAL_SERVER_ERROR,
            ContentType::TextPlain,
            REGISTRATION_FAILED,
        ),
    }
}

/// The status of a registration's reply tells how it ended: created for an
/// insert and for nothing else, a bad request for a duplicate and for a
/// rejected username, a server error for a failure. Only an insert carries a
/// reference, and a failure is always told in the same words.
pub proof fn lemma_registration_status(ending: Ending)
    ensures
        registration_answer(ending).status == CREATED <==> ending is Inserted,
        registration_answer(ending).status == BAD_REQUEST <==> (ending is RejectedDuplicate
            || ending is RejectedInvalid),
        registration_answer(ending).status == INTERNAL_SERVER_ERROR <==> ending is Failed,
        registration_answer(ending).location is Some <==> ending is Inserted,
        ending is Failed ==> registration_answer(ending).body == REGISTRATION_FAILED@,
{
}

/// What kept a page or a listing from being produced.
#[derive(Clone, Copy, Debug, PartialEq, Eq, Structural)]
pub enum PageFault {
    /// The accounts could not be read.
    Listing,
    /// The accounts were read, but the page or the data could not be written out.
    Rendering,
}

/// The reply for the home page.
pub open spec fn home_answer(rendered: Option<Seq<char>>) -> Answer {
    match rendered {
        Some(page) => Answer::plain(OK, ContentType::TextHtml, page),
        None => Answer::plain(INTERNAL_SERVER_ERROR, ContentType::TextHtml, HOME_PAGE_FAILED@),
    }
}

/// Returns the reply for the home page: the page where it was rendered, a
/// server error otherwise.
pub fn home_reply(rendered: Option<String>) -> (reply: Reply)
    ensures
        reply@ == home_answer(
            match rendered {
                Some(page) => Some(page@),
                None => None,
            },
        ),
{
    match rendered {
        Some(page) => Reply {
            status: OK,
            content_type: ContentType::TextHtml,
            location: None,
            body: page,
        },
        None => plain_reply(INTERNAL_SERVER_ERROR, ContentType::TextHtml, HOME_PAGE_FAILED),
    }
}

/// The reply for the page that lists the accounts.
pub open spec fn users_page_answer(rendered: Result<Seq<char>, PageFault>) -> Answer {
    match rendered {
        Ok(page) => Answer::plain(OK, ContentType::TextHtml, page),
        Err(PageFault::Listing) => Answer::plain(
            INTERNAL_SERVER_ERROR,
            ContentType::TextHtml,
            USERS_UNAVAILABLE@,
        ),
        Err(PageFault::Rendering) => Answer::plain(
            INTERNAL_SERVER_ERROR,
            ContentType::TextHtml,
            PAGE_UNAVAILABLE@,
        ),
    }
}

/// Returns the reply for the page that lists the accounts: the page where it
/// was rendered, and a server error that says which of the two steps failed
/// otherwise.
pub fn users_page_reply(rendered: Result<String, PageFault>) -> (reply: Reply)
    ensures
        reply@ == users_page_answer(
            match rendered {
                Ok(page) => Ok(page@),
                Err(fault) => Err(fault),
            },
        ),
{
    match rendered {
        Ok(page) => Reply {
            status: OK,
            content_type: ContentType::TextHtml,
            location: None,
            body: page,
        },
        Err(PageFault::Listing) => plain_reply(
            INTERNAL_SERVER_ERROR,
            ContentType::TextHtml,
            USERS_UNAVAILABLE,
        ),
        Err(PageFault::Rendering) => plain_reply(
            INTERNAL_SERVER_ERROR,
            ContentType::TextHtml,
            PAGE_UNAVAILABLE,
        ),
    }
}

/// The reply for the accounts listed as data.
pub open spec fn users_json_answer(encoded: Result<Seq<char>, PageFault>) -> Answer {
    match encoded {
        Ok(data) => Answer::plain(OK, ContentType::ApplicationJson, data),
        Err(_) => Answer::plain(INTERNAL_SERVER_ERROR, ContentType::TextPlain, LISTING_FAILED@),
    }
}

/// Returns the reply for the accounts listed as data: the data where the
/// accounts were read and written out, and otherwise a server error in
/// fixed words that tell nothing of the cause.
pub fn users_json_reply(encoded: Result<String, PageFault>) -> (reply: Reply)
    ensures
        reply@ == users_json_answer(
            match encoded {
                Ok(data) => Ok(data@),
                Err(fault) => Err(fault),
            },
        ),
{
    match encoded {
        Ok(data) => Reply {
            status: OK,
            content_type: ContentType::ApplicationJson,
            location: None,
            body: data,
        },
        Err(_) => plain_reply(INTERNAL_SERVER_ERROR, ContentType::TextPlain, LISTING_FAILED),
    }
}

/// Returns the reply for the page of a single account, which is yet to be built.
pub fn user_page_reply() -> (reply: Reply)
    ensures
        reply@ == Answer::plain(OK, ContentType::TextHtml, UNDER_CONSTRUCTION@),
{
    plain_reply(OK, ContentType::TextHtml, UNDER_CONSTRUCTION)
}

} // verus!
