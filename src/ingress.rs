//! The inbound endpoint's decisions: the bounded request body, and what a
//! webhook request is answered with and whether it is handed to delivery.

use vstd::prelude::*;
use crate::configure::{Config, RepositoryView, string_views};
use crate::datastructures::{
    branch_of, push_message, CommandBundle, DisplayableEvent, GitHubEarlyParse, GitHubPingEvent,
    GitHubPushEvent, Response, SERVER_VERSION,
};
use crate::signature::{signature_verdict, verify_signature, SignatureError};
use crate::text::{chars_of, range_equals};

verus! {

/// The most bytes a request body may hold.
pub const BODY_LIMIT: usize = 262144;

/// A request body being read; it only grows up to [`BODY_LIMIT`] bytes.
pub struct BodyBuffer {
    bytes: Vec<u8>,
}

impl View for BodyBuffer {
    type V = Seq<u8>;

    closed spec fn view(&self) -> Seq<u8> {
        self.bytes@
    }
}

impl BodyBuffer {
    pub fn new() -> (r: Self)
        ensures
            r@.len() == 0,
    {
        BodyBuffer { bytes: Vec::new() }
    }

    /// Adds the next chunk of the body. Where it would take the body past
    /// [`BODY_LIMIT`], the chunk is not kept and the `400` "overflow"
    /// response comes back: the request is to be answered with it at once.
    pub fn push_chunk(&mut self, chunk: &[u8]) -> (r: Result<(), Response>)
        ensures
            old(self)@.len() + chunk@.len() <= BODY_LIMIT ==> r is Ok && final(self)@ == old(self)@
                + chunk@,
            old(self)@.len() + chunk@.len() > BODY_LIMIT ==> r is Err && final(self)@ == old(self)@,
            match r {
                Err(resp) => resp.status == 400 && resp.reason@ == "overflow"@ && !resp.empty
                    && resp.version@ == SERVER_VERSION@,
                Ok(_) => true,
            },
    {
        if chunk.len() > BODY_LIMIT || self.bytes.len() > BODY_LIMIT - chunk.len() {
            return Err(Response::reason(400, "overflow"));
        }
        let mut i: usize = 0;
        let ghost start = self.bytes@;
        while i < chunk.len()
            invariant
                i <= chunk@.len(),
                start.len() + chunk@.len() <= BODY_LIMIT,
                self.bytes@ == start + chunk@.take(i as int),
            decreases chunk.len() - i,
        {
            self.bytes.push(chunk[i]);
            assert(self.bytes@ =~= start + chunk@.take(i + 1));
            i = i + 1;
        }
        assert(chunk@.take(chunk@.len() as int) == chunk@);
        Ok(())
    }

    /// The bytes read so far.
    pub fn bytes(&self) -> (r: &Vec<u8>)
        ensures
            r@ == self@,
    {
        &self.bytes
    }

    /// The body, read in full.
    pub fn into_bytes(self) -> (r: Vec<u8>)
        ensures
            r@ == self@,
    {
        self.bytes
    }
}

/// Whether every character of `s` is `0` (the hash marking a created or
/// deleted branch).
pub open spec fn all_zero(s: Seq<char>) -> bool {
    forall|i: int| 0 <= i < s.len() ==> s[i] == '0'
}

pub fn check_0(s: &str) -> (r: bool)
    ensures
        r == all_zero(s@),
{
    let v = chars_of(s);
    let mut i: usize = 0;
    while i < v.len()
        invariant
            i <= v@.len(),
            v@ == s@,
            forall|j: int| 0 <= j < i ==> v@[j] == '0',
        decreases v.len() - i,
    {
        if v[i] != '0' {
            return false;
        }
        i = i + 1;
    }
    true
}

/// What `{:?}` writes for a string: the string in double quotes, with
/// quotes, backslashes and control characters escaped.
pub uninterp spec fn debug_str_of(s: Seq<char>) -> Seq<char>;

/// Relies on std's `Debug` for `str` (`format!("{:?}", s)`): the text
/// depends on the characters of `s` alone.
#[verifier::external_body]
fn debug_str(s: &str) -> (r: String)
    ensures
        r@ == debug_str_of(s@),
{
    format!("{:?}", s)
}

/// Whether `a` and `b` hold the same characters.
fn text_equals(a: &str, b: &str) -> (r: bool)
    ensures
        r == (a@ == b@),
{
    let va = chars_of(a);
    let vb = chars_of(b);
    assert(va@.subrange(0, va@.len() as int) == va@);
    range_equals(&va, 0, va.len(), &vb)
}

/// Whether `name` is one of `list`.
fn contains_text(list: &Vec<String>, name: &str) -> (r: bool)
    ensures
        r == string_views(list@).contains(name@),
{
    let mut i: usize = 0;
    while i < list.len()
        invariant
            i <= list@.len(),
            forall|j: int| 0 <= j < i ==> list@[j]@ != name@,
        decreases list.len() - i,
    {
        if text_equals(list[i].as_str(), name) {
            assert(string_views(list@)[i as int] == name@);
            return true;
        }
        i = i + 1;
    }
    assert forall|j: int| 0 <= j < string_views(list@).len() implies string_views(list@)[j]
        != name@ by {
        assert(string_views(list@)[j] == list@[j]@);
    }
    false
}

/// A webhook request, read and parsed: the raw body; its repository, if the
/// body has one; the signature and event-kind headers, if present; and the
/// body parsed as each event kind, or the parser's complaint.
pub struct WebhookRequest {
    pub body: Vec<u8>,
    pub early: Option<GitHubEarlyParse>,
    pub signature: Option<Vec<u8>>,
    pub event: Option<String>,
    pub ping: Result<GitHubPingEvent, String>,
    pub push: Result<GitHubPushEvent, String>,
}

/// What a request is answered with, and what it hands to delivery.
pub struct Outcome {
    pub response: Response,
    pub delivery: Option<CommandBundle>,
}

/// An outcome as plain values: status, reason, whether the response is
/// body-less, and the chats and text handed to delivery, if any.
pub struct OutcomeView {
    pub status: u16,
    pub reason: Seq<char>,
    pub empty: bool,
    pub delivery: Option<(Seq<i64>, Seq<char>)>,
}

impl View for Outcome {
    type V = OutcomeView;

    open spec fn view(&self) -> OutcomeView {
        OutcomeView {
            status: self.response.status,
            reason: self.response.reason@,
            empty: self.response.empty,
            delivery: match self.delivery {
                Some(b) => Some((b.receiver@, b.text@)),
                None => None,
            },
        }
    }
}

/// A reply with `status` and `reason` that delivers nothing.
pub open spec fn reply(status: u16, reason: Seq<char>) -> OutcomeView {
    OutcomeView { status, reason, empty: false, delivery: None }
}

/// The signature header as bytes.
pub open spec fn header_view(h: Option<Vec<u8>>) -> Option<Seq<u8>> {
    match h {
        Some(v) => Some(v@),
        None => None,
    }
}

/// What a push that passed the checks leads to: nothing for a created or
/// deleted branch, a "Skipped." for an ignored branch, and otherwise the
/// message, delivered to the repository's chats.
pub open spec fn push_outcome(settings: RepositoryView, event: GitHubPushEvent) -> OutcomeView {
    if all_zero(event.after@) || all_zero(event.before@) {
        OutcomeView { status: 204, reason: Seq::empty(), empty: true, delivery: None }
    } else if settings.branch_ignore.contains(branch_of(event.remote_ref@)) {
        reply(204, "Skipped."@)
    } else {
        OutcomeView {
            status: 200,
            reason: Seq::empty(),
            empty: false,
            delivery: Some((settings.send_to, push_message(event))),
        }
    }
}

/// What an event of kind `kind` leads to once the signature has passed.
pub open spec fn event_outcome(
    settings: RepositoryView,
    kind: Seq<char>,
    ping: Result<GitHubPingEvent, String>,
    push: Result<GitHubPushEvent, String>,
) -> OutcomeView {
    if kind == "ping"@ {
        match ping {
            Ok(p) => reply(200, p.zen@),
            Err(e) => reply(500, e@),
        }
    } else if kind == "push"@ {
        match push {
            Ok(event) => push_outcome(settings, event),
            Err(e) => reply(500, e@),
        }
    } else {
        reply(400, "Unsupported event type "@ + debug_str_of(kind))
    }
}

/// What a webhook request leads to. A body without a repository is a `500`.
/// The repository's settings give the secret; a missing or wrong signature
/// is a `403`. A missing event kind is a `500`; then the event decides.
pub open spec fn request_outcome(config: Config, request: WebhookRequest) -> OutcomeView {
    match request.early {
        None => reply(500, Seq::empty()),
        Some(early) => {
            let settings = config.resolve(early.repository.full_name@);
            match signature_verdict(
                settings.secrets,
                request.body@,
                header_view(request.signature),
            ) {
                Err(SignatureError::HeaderMissing) => reply(403, "signature header missing"@),
                Err(SignatureError::Mismatch) => reply(403, "signature mismatch"@),
                Ok(_) => match request.event {
                    None => reply(500, Seq::empty()),
                    Some(kind) => event_outcome(settings, kind@, request.ping, request.push),
                },
            }
        },
    }
}

/// Decides a webhook request: the response, and the bundle to hand to
/// delivery, if any; see [`request_outcome`].
pub fn handle_post(config: &Config, request: &WebhookRequest) -> (r: Outcome)
    ensures
        r@ == request_outcome(*config, *request),
        r.response.version@ == SERVER_VERSION@,
{
    let early = match &request.early {
        None => return Outcome { response: Response::new(500), delivery: None },
        Some(e) => e,
    };
    let settings = config.fetch_repository_configure(early.repository.full_name.as_str());
    match verify_signature(settings.secrets.as_str(), request.body.as_slice(), &request.signature) {
        Err(SignatureError::HeaderMissing) => {
            return Outcome {
                response: Response::reason(403, "signature header missing"),
                delivery: None,
            };
        },
        Err(SignatureError::Mismatch) => {
            return Outcome { response: Response::reason(403, "signature mismatch"), delivery: None };
        },
        Ok(()) => {},
    }
    let kind = match &request.event {
        None => return Outcome { response: Response::new(500), delivery: None },
        Some(k) => k,
    };
    if text_equals(kind.as_str(), "ping") {
        match &request.ping {
            Ok(p) => Outcome { response: Response::reason(200, p.zen.as_str()), delivery: None },
            Err(e) => Outcome { response: Response::reason(500, e.as_str()), delivery: None },
        }
    } else if text_equals(kind.as_str(), "push") {
        match &request.push {
            Err(e) => Outcome { response: Response::reason(500, e.as_str()), delivery: None },
            Ok(event) => {
                if check_0(event.after.as_str()) || check_0(event.before.as_str()) {
                    Outcome { response: Response::new_empty(), delivery: None }
                } else if contains_text(&settings.branch_ignore, event.branch_name().as_str()) {
                    Outcome { response: Response::reason(204, "Skipped."), delivery: None }
                } else {
                    let bundle = CommandBundle::new(settings.send_to, event.to_message());
                    Outcome { response: Response::new_ok(), delivery: Some(bundle) }
                }
            },
        }
    } else {
        let mut reason = String::from_str("Unsupported event type ");
        let quoted = debug_str(kind.as_str());
        reason.append(quoted.as_str());
        Outcome { response: Response::reason(400, reason.as_str()), delivery: None }
    }
}

/// Whether a request names its repository and carries a signature that its
/// repository's secret accepts.
pub open spec fn passes_checks(config: Config, request: WebhookRequest) -> bool {
    &&& request.early is Some
    &&& signature_verdict(
        config.resolve(request.early->0.repository.full_name@).secrets,
        request.body@,
        header_view(request.signature),
    ) is Ok
}

/// Whether a request that passed the checks is of kind `kind`.
pub open spec fn is_kind(request: WebhookRequest, kind: Seq<char>) -> bool {
    request.event is Some && request.event->0@ == kind
}

/// A ping is answered from the request alone: the same ping, sent twice,
/// is answered both times with `200` and its greeting, and neither time
/// hands anything to delivery.
pub proof fn lemma_ping_repeatable(
    config: Config,
    first: WebhookRequest,
    second: WebhookRequest,
    ping: GitHubPingEvent,
)
    requires
        first == second,
        passes_checks(config, first),
        is_kind(first, "ping"@),
        first.ping == Ok::<GitHubPingEvent, String>(ping),
    ensures
        request_outcome(config, first) == request_outcome(config, second),
        request_outcome(config, first) == reply(200, ping.zen@),
        request_outcome(config, second).delivery is None,
{
}

/// A push to a branch that its repository ignores is answered with `204`
/// and hands nothing to delivery.
pub proof fn lemma_ignored_branch_not_delivered(
    config: Config,
    request: WebhookRequest,
    event: GitHubPushEvent,
)
    requires
        passes_checks(config, request),
        is_kind(request, "push"@),
        request.push == Ok::<GitHubPushEvent, String>(event),
        config.resolve(request.early->0.repository.full_name@).branch_ignore.contains(
            branch_of(event.remote_ref@),
        ),
    ensures
        request_outcome(config, request).status == 204,
        request_outcome(config, request).delivery is None,
{
    reveal_strlit("ping");
    reveal_strlit("push");
    assert("push"@[1] != "ping"@[1]);
}

/// A push whose `before` or `after` hash is all zeros gets the body-less
/// `204`, whatever its branch and whatever the repository ignores.
pub proof fn lemma_zero_hash_empty(config: Config, request: WebhookRequest, event: GitHubPushEvent)
    requires
        passes_checks(config, request),
        is_kind(request, "push"@),
        request.push == Ok::<GitHubPushEvent, String>(event),
        all_zero(event.before@) || all_zero(event.after@),
    ensures
        request_outcome(config, request) == (OutcomeView {
            status: 204,
            reason: Seq::empty(),
            empty: true,
            delivery: None,
        }),
{
    reveal_strlit("ping");
    reveal_strlit("push");
    assert("push"@[1] != "ping"@[1]);
}

} // verus!
