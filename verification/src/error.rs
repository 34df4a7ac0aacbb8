//! Why a request is refused, and how the status of a failed call decides that.

use vstd::prelude::*;

verus! {

/// The gRPC code of a service that is out of reach.
pub const UNAVAILABLE: i32 = 14;

/// The gRPC code of a call that ran out of time.
pub const DEADLINE_EXCEEDED: i32 = 4;

/// The outcome of a gRPC call that failed.
#[derive(Debug)]
pub struct Status {
    /// The gRPC code.
    pub code: i32,
    /// What the service says about it.
    pub message: String,
    /// Debug text of the underlying error, where there is one.
    pub source: Option<String>,
}

/// What `tonic` displays of a status with this code and message and no underlying error.
pub uninterp spec fn displayed_status(code: i32, message: Seq<char>) -> Seq<char>;

/// Calls `Display` of `tonic::Status`, on a status made of `code` and `message` alone. Its text is a
/// function of the two; what it looks like is left unsaid, since the message is quoted by the
/// escaping rules of `Debug` for text.
#[verifier::external_body]
fn display_status(code: i32, message: &str) -> (text: String)
    ensures
        text@ == displayed_status(code, message@),
{
    tonic::Status::new(tonic::Code::from_i32(code), message).to_string()
}

impl Status {
    /// A status without an underlying error.
    pub fn new(code: i32, message: &str) -> (status: Self)
        ensures
            status.code == code,
            status.message@ == message@,
            status.source is None,
    {
        Status { code, message: message.to_owned(), source: None }
    }

    /// Whether the service could not be reached in time, as opposed to having refused.
    pub open spec fn is_outage(&self) -> bool {
        self.code == UNAVAILABLE || self.code == DEADLINE_EXCEEDED
    }

    /// The text of the status.
    pub open spec fn text(&self) -> Seq<char> {
        text_with_source(displayed_status(self.code, self.message@), self.source)
    }

    /// Tells an outage from a refusal.
    pub fn outage(&self) -> (outage: bool)
        ensures
            outage == self.is_outage(),
    {
        self.code == UNAVAILABLE || self.code == DEADLINE_EXCEEDED
    }

    /// Writes the status out.
    pub fn to_text(&self) -> (text: String)
        ensures
            text@ == self.text(),
    {
        with_source(display_status(self.code, self.message.as_str()), &self.source)
    }
}

/// The text of a status that is displayed as `shown` but for its underlying error.
pub open spec fn text_with_source(shown: Seq<char>, source: Option<String>) -> Seq<char> {
    match source {
        Some(text) => shown + ", source: "@ + text@,
        None => shown,
    }
}

/// Adds the underlying error to the text of a status.
pub fn with_source(shown: String, source: &Option<String>) -> (text: String)
    ensures
        text@ == text_with_source(shown@, *source),
{
    match source {
        Some(source) => shown.concat(", source: ").concat(source.as_str()),
        None => shown,
    }
}

/// A refused request.
#[derive(Debug)]
pub enum ProxyError {
    /// Policy does not allow it.
    SubstrateEgressDenied(String),
    /// Something that the decision needs is not to be had now.
    SubstrateEgressUnavailable(String),
}

/// What a `ProxyError` says.
pub enum Refusal {
    /// Policy does not allow it.
    Denied(Seq<char>),
    /// Something that the decision needs is not to be had now.
    Unavailable(Seq<char>),
}

impl View for ProxyError {
    type V = Refusal;

    open spec fn view(&self) -> Refusal {
        match self {
            ProxyError::SubstrateEgressDenied(message) => Refusal::Denied(message@),
            ProxyError::SubstrateEgressUnavailable(message) => Refusal::Unavailable(message@),
        }
    }
}

impl Refusal {
    /// The HTTP status that a refused request is answered with.
    pub open spec fn http_status(self) -> u16 {
        match self {
            Refusal::Denied(_) => 403,
            Refusal::Unavailable(_) => 503,
        }
    }
}

impl ProxyError {
    /// The HTTP status that the request is answered with: 403 Forbidden, or 503 Service Unavailable.
    pub fn http_status(&self) -> (status: u16)
        ensures
            status == self@.http_status(),
    {
        match self {
            ProxyError::SubstrateEgressDenied(_) => 403,
            ProxyError::SubstrateEgressUnavailable(_) => 503,
        }
    }

    /// The message.
    pub fn message(&self) -> (message: &str)
        ensures
            self@ is Denied ==> self@ == Refusal::Denied(message@),
            self@ is Unavailable ==> self@ == Refusal::Unavailable(message@),
    {
        match self {
            ProxyError::SubstrateEgressDenied(message) => message.as_str(),
            ProxyError::SubstrateEgressUnavailable(message) => message.as_str(),
        }
    }
}

/// A result whose error is seen as what it says.
pub open spec fn seen<T>(result: Result<T, ProxyError>) -> Result<T, Refusal> {
    match result {
        Ok(value) => Ok(value),
        Err(error) => Err(error@),
    }
}

/// A denial with a fixed message.
pub(crate) fn denied(message: &str) -> (error: ProxyError)
    ensures
        error@ == Refusal::Denied(message@),
{
    ProxyError::SubstrateEgressDenied(message.to_owned())
}

/// A denial whose message is `what` followed by `detail`.
pub(crate) fn denied_with(what: &str, detail: &str) -> (error: ProxyError)
    ensures
        error@ == Refusal::Denied(what@ + detail@),
{
    ProxyError::SubstrateEgressDenied(what.to_owned().concat(detail))
}

/// An unavailability whose message is `what` followed by `detail`.
pub(crate) fn unavailable_with(what: &str, detail: &str) -> (error: ProxyError)
    ensures
        error@ == Refusal::Unavailable(what@ + detail@),
{
    ProxyError::SubstrateEgressUnavailable(what.to_owned().concat(detail))
}

/// How a failed call is answered: an outage may pass, a refusal stands. `text` is the text of the
/// call's status, and the other two say what failed.
pub open spec fn failed_call(
    outage: bool,
    text: Seq<char>,
    if_outage: Seq<char>,
    if_refused: Seq<char>,
) -> Refusal {
    if outage {
        Refusal::Unavailable(if_outage + text)
    } else {
        Refusal::Denied(if_refused + text)
    }
}

/// The answer to a failed call.
pub fn answer_failed_call(outage: bool, text: &str, if_outage: &str, if_refused: &str) -> (error:
    ProxyError)
    ensures
        error@ == failed_call(outage, text@, if_outage@, if_refused@),
{
    if outage {
        unavailable_with(if_outage, text)
    } else {
        denied_with(if_refused, text)
    }
}

/// `outage` tells two gRPC codes from all others: 14, unavailable, and 4, deadline exceeded.
pub proof fn law_two_codes_are_outages(status: Status, outage: bool)
    requires
        call_ensures(Status::outage, (&status,), outage),
    ensures
        outage <==> status.code == 14 || status.code == 4,
{
}

/// `Status::new` keeps code and message, and adds nothing.
pub proof fn law_new_status(code: i32, message: &str, status: Status)
    requires
        call_ensures(Status::new, (code, message), status),
    ensures
        status.code == code,
        status.message@ == message@,
        status.source is None,
{
}

/// `to_text` writes what `tonic` displays, followed by the underlying error where there is one; and
/// nothing of either is left out.
pub proof fn law_status_text(status: Status, text: String)
    requires
        call_ensures(Status::to_text, (&status,), text),
    ensures
        status.source is None ==> text@ == displayed_status(status.code, status.message@),
        status.source matches Some(source) ==> {
            let shown = displayed_status(status.code, status.message@);
            &&& text@.len() == shown.len() + ", source: "@.len() + source@.len()
            &&& text@.take(shown.len() as int) == shown
            &&& text@.skip(shown.len() as int) == ", source: "@ + source@
        },
{
    if let Some(source) = status.source {
        let shown = displayed_status(status.code, status.message@);
        assert(text@ == shown + (", source: "@ + source@));
        assert(text@.take(shown.len() as int) == shown);
        assert(text@.skip(shown.len() as int) == ", source: "@ + source@);
    }
}

/// `with_source` adds the underlying error behind what is shown, and nothing where there is none.
pub proof fn law_source_stands_last(shown: String, source: Option<String>, text: String)
    requires
        call_ensures(with_source, (shown, &source), text),
    ensures
        source is None ==> text@ == shown@,
        source matches Some(s) ==> {
            &&& text@.len() == shown@.len() + ", source: "@.len() + s@.len()
            &&& text@.take(shown@.len() as int) == shown@
            &&& text@.skip(shown@.len() as int) == ", source: "@ + s@
        },
{
    if let Some(s) = source {
        assert(text@ == shown@ + (", source: "@ + s@));
        assert(text@.take(shown@.len() as int) == shown@);
        assert(text@.skip(shown@.len() as int) == ", source: "@ + s@);
    }
}

/// A failed call is answered as unavailable exactly if it was an outage and as denied otherwise, and
/// the whole text of its status stands behind what failed.
pub proof fn law_failed_calls_are_answered_by_outage(
    outage: bool,
    text: &str,
    if_outage: &str,
    if_refused: &str,
    error: ProxyError,
)
    requires
        call_ensures(answer_failed_call, (outage, text, if_outage, if_refused), error),
    ensures
        outage ==> (error matches ProxyError::SubstrateEgressUnavailable(message) && message@
            == if_outage@ + text@),
        !outage ==> (error matches ProxyError::SubstrateEgressDenied(message) && message@
            == if_refused@ + text@),
{
}

/// A denied request is answered with 403 and an unavailable one with 503, whatever the message.
pub proof fn law_http_status_of_refusals(error: ProxyError, status: u16)
    requires
        call_ensures(ProxyError::http_status, (&error,), status),
    ensures
        error is SubstrateEgressDenied ==> status == 403,
        error is SubstrateEgressUnavailable ==> status == 503,
{
}

/// `message` hands out the message as it is.
pub proof fn law_message_of_refusals(error: ProxyError, message: &str)
    requires
        call_ensures(ProxyError::message, (&error,), message),
    ensures
        error matches ProxyError::SubstrateEgressDenied(m) ==> message@ == m@,
        error matches ProxyError::SubstrateEgressUnavailable(m) ==> message@ == m@,
{
}

/// A refusal says what the error that it is seen of says: neither its kind nor its message changes.
pub proof fn law_refusals_say_what_errors_say(error: ProxyError, refusal: Refusal)
    ensures
        error@ == refusal <==> match (error, refusal) {
            (ProxyError::SubstrateEgressDenied(m), Refusal::Denied(r)) => m@ == r,
            (ProxyError::SubstrateEgressUnavailable(m), Refusal::Unavailable(r)) => m@ == r,
            _ => false,
        },
        refusal.http_status() == (if refusal is Denied {
            403u16
        } else {
            503u16
        }),
{
}

} // verus!
