//! Resolving the trust anchor of a session: taken as given, or fetched once
//! from a URL, trimmed and parsed.
//!
//! The anchor itself is opaque here. The caller fetches and parses; this
//! module says what to ask for, what to make of each answer, and what a
//! failure is called.

use crate::text::{contains_text, lemma_contains_middle, trim, trimmed};
use vstd::prelude::*;

verus! {

/// Where the resolution of a trust anchor stands.
#[derive(Clone, Debug, PartialEq, Eq)]
pub enum Resolver<A> {
    /// The URL was asked for; its answer is awaited.
    AwaitingResponse { url: String },
    /// The text fetched from the URL was handed out for parsing.
    AwaitingParse { url: String },
    /// The anchor is known.
    Resolved(A),
    /// There is no anchor, and the message says why.
    Failed(String),
}

/// A resolver as plain values.
pub enum ResolverView<A> {
    AwaitingResponse { url: Seq<char> },
    AwaitingParse { url: Seq<char> },
    Resolved(A),
    Failed(Seq<char>),
}

impl<A> View for Resolver<A> {
    type V = ResolverView<A>;

    open spec fn view(&self) -> ResolverView<A> {
        match *self {
            Resolver::AwaitingResponse { url } => ResolverView::AwaitingResponse { url: url@ },
            Resolver::AwaitingParse { url } => ResolverView::AwaitingParse { url: url@ },
            Resolver::Resolved(anchor) => ResolverView::Resolved(anchor),
            Resolver::Failed(message) => ResolverView::Failed(message@),
        }
    }
}

/// What the caller is to do for the resolver.
#[derive(Clone, Debug, PartialEq, Eq)]
pub enum Request {
    /// Nothing.
    Nothing,
    /// Fetch the URL with one blocking GET and report the answer.
    Get(String),
    /// Parse the text as a trust anchor and report the outcome.
    Parse(String),
}

/// A request as plain values.
pub enum RequestView {
    Nothing,
    Get(Seq<char>),
    Parse(Seq<char>),
}

impl View for Request {
    type V = RequestView;

    open spec fn view(&self) -> RequestView {
        match *self {
            Request::Nothing => RequestView::Nothing,
            Request::Get(url) => RequestView::Get(url@),
            Request::Parse(text) => RequestView::Parse(text@),
        }
    }
}

/// What came of a request, as the caller reports it.
#[derive(Debug, PartialEq, Eq)]
pub enum Answer<A> {
    /// The GET could not be made or got no answer; the text says why.
    Unreachable(String),
    /// The endpoint answered with this status. The body is its text, or why
    /// it could not be read.
    Answered { status: u16, body: Result<String, String> },
    /// The text was parsed: the anchor, or why the text is none.
    Parsed(Result<A, String>),
}

/// An answer as plain values.
pub enum AnswerView<A> {
    Unreachable(Seq<char>),
    Answered { status: u16, body: Result<Seq<char>, Seq<char>> },
    Parsed(Result<A, Seq<char>>),
}

impl<A> View for Answer<A> {
    type V = AnswerView<A>;

    open spec fn view(&self) -> AnswerView<A> {
        match *self {
            Answer::Unreachable(cause) => AnswerView::Unreachable(cause@),
            Answer::Answered { status, body } => AnswerView::Answered {
                status,
                body: match body {
                    Ok(text) => Ok(text@),
                    Err(cause) => Err(cause@),
                },
            },
            Answer::Parsed(outcome) => AnswerView::Parsed(
                match outcome {
                    Ok(anchor) => Ok(anchor),
                    Err(cause) => Err(cause@),
                },
            ),
        }
    }
}

/// Whether an HTTP status reports success.
pub open spec fn is_success(status: u16) -> bool {
    200 <= status <= 299
}

/// The message for a session that was given neither an anchor nor a URL.
pub open spec fn missing_text() -> Seq<char> {
    "Neither a waypoint nor a waypoint URL was given"@
}

/// The message for an anchor that could not be had from a URL.
pub open spec fn failure_text(url: Seq<char>, cause: Seq<char>) -> Seq<char> {
    "Failure to retrieve a waypoint from "@ + url + ": "@ + cause
}

/// Why an answer without success is no anchor.
pub open spec fn status_cause(url: Seq<char>) -> Seq<char> {
    "Failed to retrieve waypoint from URL "@ + url
}

/// Why an answer without text is no anchor.
pub open spec fn empty_cause() -> Seq<char> {
    "the answer holds no waypoint"@
}

/// How resolution begins: with the anchor, where one is given; else with
/// one GET of the URL; and with a failure where neither is given.
pub open spec fn begin_for<A>(literal: Option<A>, url: Option<Seq<char>>) -> (
    ResolverView<A>,
    RequestView,
) {
    match literal {
        Some(anchor) => (ResolverView::Resolved(anchor), RequestView::Nothing),
        None => match url {
            Some(u) => (ResolverView::AwaitingResponse { url: u }, RequestView::Get(u)),
            None => (ResolverView::Failed(missing_text()), RequestView::Nothing),
        },
    }
}

/// What the answer to the GET leads to: a failure that names the URL where
/// the endpoint was not reached, did not report success, or sent a body that
/// cannot be read or holds nothing but white space; else the parsing of the
/// body without the white space around it.
pub open spec fn on_response<A>(url: Seq<char>, answer: AnswerView<A>) -> (
    ResolverView<A>,
    RequestView,
) {
    match answer {
        AnswerView::Unreachable(cause) => (
            ResolverView::Failed(failure_text(url, cause)),
            RequestView::Nothing,
        ),
        AnswerView::Answered { status, body } => if !is_success(status) {
            (ResolverView::Failed(failure_text(url, status_cause(url))), RequestView::Nothing)
        } else {
            match body {
                Err(cause) => (
                    ResolverView::Failed(failure_text(url, cause)),
                    RequestView::Nothing,
                ),
                Ok(text) => if trimmed(text).len() == 0 {
                    (ResolverView::Failed(failure_text(url, empty_cause())), RequestView::Nothing)
                } else {
                    (ResolverView::AwaitingParse { url }, RequestView::Parse(trimmed(text)))
                },
            }
        },
        AnswerView::Parsed(_) => (ResolverView::AwaitingResponse { url }, RequestView::Nothing),
    }
}

/// The state after an answer, and what the caller is to do.
///
/// An answer that the state does not wait for changes nothing, and a
/// resolution that has ended, either way, stays as it is.
pub open spec fn advance_for<A>(state: ResolverView<A>, answer: AnswerView<A>) -> (
    ResolverView<A>,
    RequestView,
) {
    match state {
        ResolverView::AwaitingResponse { url } => on_response(url, answer),
        ResolverView::AwaitingParse { url } => match answer {
            AnswerView::Parsed(Ok(anchor)) => (ResolverView::Resolved(anchor), RequestView::Nothing),
            AnswerView::Parsed(Err(cause)) => (
                ResolverView::Failed(failure_text(url, cause)),
                RequestView::Nothing,
            ),
            _ => (state, RequestView::Nothing),
        },
        _ => (state, RequestView::Nothing),
    }
}

/// The number of GETs that the answers of a run lead to, from a state on.
pub open spec fn gets_after<A>(state: ResolverView<A>, answers: Seq<AnswerView<A>>) -> nat
    decreases answers.len(),
{
    if answers.len() == 0 {
        0
    } else {
        let (after, request) = advance_for(state, answers[0]);
        let here: nat = if request is Get {
            1
        } else {
            0
        };
        here + gets_after(after, answers.drop_first())
    }
}

/// The number of GETs in a whole resolution: the one it may begin with, and
/// those that the answers lead to.
pub open spec fn gets_in_all<A>(
    literal: Option<A>,
    url: Option<Seq<char>>,
    answers: Seq<AnswerView<A>>,
) -> nat {
    let (state, request) = begin_for(literal, url);
    let first: nat = if request is Get {
        1
    } else {
        0
    };
    first + gets_after(state, answers)
}

/// The state that a run of answers ends in.
pub open spec fn state_after<A>(state: ResolverView<A>, answers: Seq<AnswerView<A>>) -> ResolverView<
    A,
>
    decreases answers.len(),
{
    if answers.len() == 0 {
        state
    } else {
        state_after(advance_for(state, answers[0]).0, answers.drop_first())
    }
}

/// No answer leads to a GET: whatever is reported, and in whatever state, the
/// resolver asks for no fetch.
pub proof fn lemma_no_get_after_begin<A>(state: ResolverView<A>, answers: Seq<AnswerView<A>>)
    ensures
        gets_after(state, answers) == 0,
    decreases answers.len(),
{
    if answers.len() > 0 {
        lemma_no_get_after_begin(advance_for(state, answers[0]).0, answers.drop_first());
    }
}

/// A resolution that has ended stays as it is, whatever is reported.
pub proof fn lemma_ended_stays<A>(state: ResolverView<A>, answers: Seq<AnswerView<A>>)
    requires
        state is Resolved || state is Failed,
    ensures
        state_after(state, answers) == state,
    decreases answers.len(),
{
    if answers.len() > 0 {
        lemma_ended_stays(state, answers.drop_first());
    }
}

/// An anchor that is given is the anchor of the session, unchanged, and
/// nothing is fetched for it, whether a URL is given too or not.
pub proof fn lemma_given_anchor_is_kept<A>(
    anchor: A,
    url: Option<Seq<char>>,
    answers: Seq<AnswerView<A>>,
)
    ensures
        begin_for(Some(anchor), url) == (ResolverView::Resolved(anchor), RequestView::Nothing),
        state_after(begin_for(Some(anchor), url).0, answers) == ResolverView::Resolved(anchor),
        gets_in_all(Some(anchor), url, answers) == 0,
{
    lemma_ended_stays(ResolverView::Resolved(anchor), answers);
    lemma_no_get_after_begin(ResolverView::Resolved(anchor), answers);
}

/// Where only a URL is given, it is fetched exactly once: resolution begins
/// with a GET of that URL and never asks for another.
pub proof fn lemma_url_is_fetched_once<A>(url: Seq<char>, answers: Seq<AnswerView<A>>)
    ensures
        begin_for::<A>(None, Some(url)).1 == RequestView::Get(url),
        gets_in_all::<A>(None, Some(url), answers) == 1,
{
    lemma_no_get_after_begin(begin_for::<A>(None, Some(url)).0, answers);
}

/// An answer without success is a failure, whatever its body.
pub proof fn lemma_bad_status_fails<A>(
    url: Seq<char>,
    status: u16,
    body: Result<Seq<char>, Seq<char>>,
)
    requires
        !is_success(status),
    ensures
        advance_for::<A>(
            ResolverView::AwaitingResponse { url },
            AnswerView::Answered { status, body },
        ) == (
            ResolverView::<A>::Failed(failure_text(url, status_cause(url))),
            RequestView::Nothing,
        ),
{
}

/// A text that is no anchor is a failure.
pub proof fn lemma_unparsable_fails<A>(url: Seq<char>, cause: Seq<char>)
    ensures
        advance_for::<A>(ResolverView::AwaitingParse { url }, AnswerView::Parsed(Err(cause))) == (
            ResolverView::<A>::Failed(failure_text(url, cause)),
            RequestView::Nothing,
        ),
{
}

/// A good answer is parsed without the white space around it.
pub proof fn lemma_body_is_trimmed<A>(url: Seq<char>, status: u16, text: Seq<char>)
    requires
        is_success(status),
        trimmed(text).len() > 0,
    ensures
        advance_for::<A>(
            ResolverView::AwaitingResponse { url },
            AnswerView::Answered { status, body: Ok(text) },
        ) == (ResolverView::<A>::AwaitingParse { url }, RequestView::Parse(trimmed(text))),
{
}

/// Every failure that an answer leads to names the URL that was asked for.
pub proof fn lemma_failure_names_url<A>(state: ResolverView<A>, answer: AnswerView<A>)
    requires
        state is AwaitingResponse || state is AwaitingParse,
        advance_for(state, answer).0 is Failed,
    ensures
        state matches ResolverView::AwaitingResponse { url } ==> contains_text(
            advance_for(state, answer).0->Failed_0,
            url,
        ),
        state matches ResolverView::AwaitingParse { url } ==> contains_text(
            advance_for(state, answer).0->Failed_0,
            url,
        ),
{
    let url = match state {
        ResolverView::AwaitingResponse { url } => url,
        ResolverView::AwaitingParse { url } => url,
        _ => Seq::empty(),
    };
    let message = advance_for(state, answer).0->Failed_0;
    assert forall|cause: Seq<char>| contains_text(#[trigger] failure_text(url, cause), url) by {
        lemma_contains_middle("Failure to retrieve a waypoint from "@, url, ": "@ + cause);
        assert("Failure to retrieve a waypoint from "@ + url + (": "@ + cause) =~= failure_text(
            url,
            cause,
        ));
    }
    assert(exists|cause: Seq<char>| message == failure_text(url, cause));
}

/// Tells whether an HTTP status reports success.
pub fn status_is_success(status: u16) -> (success: bool)
    ensures
        success == is_success(status),
{
    200 <= status && status <= 299
}

/// Writes the message for an anchor that could not be had from a URL.
pub fn failure_message(url: &str, cause: &str) -> (out: String)
    ensures
        out@ == failure_text(url@, cause@),
{
    let mut out = "Failure to retrieve a waypoint from ".to_owned();
    out.append(url);
    out.append(": ");
    out.append(cause);
    out
}

/// Begins the resolution of the trust anchor from what the session was
/// given: the anchor itself, a URL to fetch it from, both or neither.
pub fn begin<A>(literal: Option<A>, url: Option<String>) -> (out: (Resolver<A>, Request))
    ensures
        (out.0@, out.1@) == begin_for(
            literal,
            match url {
                Some(u) => Some(u@),
                None => None,
            },
        ),
{
    match literal {
        Some(anchor) => (Resolver::Resolved(anchor), Request::Nothing),
        None => match url {
            Some(u) => {
                let asked = u.clone();
                (Resolver::AwaitingResponse { url: u }, Request::Get(asked))
            },
            None => (
                Resolver::Failed("Neither a waypoint nor a waypoint URL was given".to_owned()),
                Request::Nothing,
            ),
        },
    }
}

/// Takes the resolution one step, from the state it is in and the answer
/// that the caller reports.
pub fn advance<A>(state: Resolver<A>, answer: Answer<A>) -> (out: (Resolver<A>, Request))
    ensures
        (out.0@, out.1@) == advance_for(state@, answer@),
{
    match state {
        Resolver::AwaitingResponse { url } => match answer {
            Answer::Unreachable(cause) => (
                Resolver::Failed(failure_message(url.as_str(), cause.as_str())),
                Request::Nothing,
            ),
            Answer::Answered { status, body } => {
                if !status_is_success(status) {
                    let mut cause = "Failed to retrieve waypoint from URL ".to_owned();
                    cause.append(url.as_str());
                    (
                        Resolver::Failed(failure_message(url.as_str(), cause.as_str())),
                        Request::Nothing,
                    )
                } else {
                    match body {
                        Err(cause) => (
                            Resolver::Failed(failure_message(url.as_str(), cause.as_str())),
                            Request::Nothing,
                        ),
                        Ok(text) => {
                            let inner = trim(text.as_str());
                            if inner.as_str().is_empty() {
                                (
                                    Resolver::Failed(
                                        failure_message(
                                            url.as_str(),
                                            "the answer holds no waypoint",
                                        ),
                                    ),
                                    Request::Nothing,
                                )
                            } else {
                                (Resolver::AwaitingParse { url }, Request::Parse(inner))
                            }
                        },
                    }
                }
            },
            Answer::Parsed(_) => (Resolver::AwaitingResponse { url }, Request::Nothing),
        },
        Resolver::AwaitingParse { url } => match answer {
            Answer::Parsed(Ok(anchor)) => (Resolver::Resolved(anchor), Request::Nothing),
            Answer::Parsed(Err(cause)) => (
                Resolver::Failed(failure_message(url.as_str(), cause.as_str())),
                Request::Nothing,
            ),
            _ => (Resolver::AwaitingParse { url }, Request::Nothing),
        },
        Resolver::Resolved(anchor) => (Resolver::Resolved(anchor), Request::Nothing),
        Resolver::Failed(message) => (Resolver::Failed(message), Request::Nothing),
    }
}

} // verus!
