use vstd::prelude::*;
use vstd::string::StringExecFns;
use crate::reference::ImageIdentifier;
use crate::challenge::{spec_challenge, spec_challenge_url, build_challenge_url};
use crate::manifest::{spec_layers_of_body, spec_token_of_body, layers_from_body, token_from_body};
use crate::PullError;

verus! {

/// How often one manifest or blob request is attempted before the pull gives
/// up on transport failures.
pub const MAX_FETCH_ATTEMPTS: u8 = 3;

/// An HTTP success status.
pub open spec fn spec_is_success(status: u16) -> bool {
    200 <= status < 300
}

fn is_success(status: u16) -> (r: bool)
    ensures
        r == spec_is_success(status),
{
    200 <= status && status < 300
}

/// The manifest endpoint for an image.
pub open spec fn spec_manifest_url(author: Seq<char>, name: Seq<char>, tag: Seq<char>) -> Seq<char> {
    "https://registry.hub.docker.com/v2/"@ + author + "/"@ + name + "/manifests/"@ + tag
}

/// The blob endpoint for one layer digest of an image.
pub open spec fn spec_blob_url(author: Seq<char>, name: Seq<char>, digest: Seq<char>) -> Seq<char> {
    "https://registry.hub.docker.com/v2/"@ + author + "/"@ + name + "/blobs/"@ + digest
}

pub fn manifest_url(image: &ImageIdentifier) -> (r: String)
    ensures
        r@ == spec_manifest_url(image.author@, image.name@, image.tag@),
{
    let mut u = String::from_str("https://registry.hub.docker.com/v2/");
    u.append(image.author.as_str());
    u.append("/");
    u.append(image.name.as_str());
    u.append("/manifests/");
    u.append(image.tag.as_str());
    proof {
        assert(u@ =~= spec_manifest_url(image.author@, image.name@, image.tag@));
    }
    u
}

pub fn blob_url(image: &ImageIdentifier, digest: &str) -> (r: String)
    ensures
        r@ == spec_blob_url(image.author@, image.name@, digest@),
{
    let mut u = String::from_str("https://registry.hub.docker.com/v2/");
    u.append(image.author.as_str());
    u.append("/");
    u.append(image.name.as_str());
    u.append("/blobs/");
    u.append(digest);
    proof {
        assert(u@ =~= spec_blob_url(image.author@, image.name@, digest@));
    }
    u
}

/// The Authorization header value carrying a bearer token.
pub fn authorization_value(token: &str) -> (r: String)
    ensures
        r@ == "Bearer "@ + token@,
{
    let mut s = String::from_str("Bearer ");
    s.append(token);
    s
}

/// The backoff before retried attempt number `attempts`, in milliseconds.
pub open spec fn spec_backoff_ms(attempts: u8) -> u64 {
    if attempts <= 1 {
        100
    } else if attempts == 2 {
        200
    } else {
        400
    }
}

fn backoff_ms(attempts: u8) -> (r: u64)
    ensures
        r == spec_backoff_ms(attempts),
{
    if attempts <= 1 {
        100
    } else if attempts == 2 {
        200
    } else {
        400
    }
}

/// What the driver reports back to the machine about the action it performed.
pub enum PullEvent {
    /// An HTTP response to the pending manifest or token request.
    Response { status: u16, www_authenticate: Option<String>, body: String },
    /// The pending request failed in transport.
    NetworkFailed,
    /// The pending layer was downloaded, saved, and handed to the extraction
    /// utility, which ended with the given exit code, None for an abnormal
    /// end.
    LayerApplied { tar_exit: Option<i32> },
    /// The pending layer was downloaded but could not be saved.
    LayerSaveFailed,
}

/// What the driver must do next.
pub enum PullAction {
    /// Request the manifest, after the given delay, with the bearer token if
    /// one is given.
    FetchManifest { url: String, token: Option<String>, delay_ms: u64 },
    /// Request a bearer token from the token endpoint.
    FetchToken { url: String },
    /// After the given delay, download one layer blob, save it to a private
    /// temporary file, extract that file onto the destination, and delete it
    /// whatever the extraction did.
    FetchLayer { url: String, token: Option<String>, digest: String, delay_ms: u64 },
    /// The pull is complete.
    Done,
    /// The pull failed.
    Fail { error: PullError },
}

/// Where the pull stands: which response it is waiting for.
pub enum Phase {
    ManifestFirst { attempts: u8 },
    TokenWait,
    ManifestAuthed { token: String, attempts: u8 },
    LayersWait { token: Option<String>, digests: Vec<String>, next: usize, attempts: u8 },
    Finished,
    Failed,
}

/// One pull of one image: a machine that decides, step by step, which request
/// the driver performs next. The driver does the transport and feeds every
/// outcome back.
pub struct PullSession {
    pub image: ImageIdentifier,
    pub phase: Phase,
}

pub open spec fn opt_str_view(t: Option<String>) -> Option<Seq<char>> {
    match t {
        None => None,
        Some(s) => Some(s@),
    }
}

fn clone_token(t: &Option<String>) -> (r: Option<String>)
    ensures
        opt_str_view(r) == opt_str_view(*t),
{
    match t {
        None => None,
        Some(s) => Some(s.clone()),
    }
}

/// The step failed: the machine stops with the given error.
pub open spec fn fail_rel(post: PullSession, a: PullAction, err: PullError) -> bool {
    &&& post.phase is Failed
    &&& a matches PullAction::Fail { error } && error == err
}

/// The machine enters the layer phase over digests `ds` (or finishes at once
/// when there are none), and asks for the first blob with the bearer `tok`.
pub open spec fn layers_start_rel(
    image: ImageIdentifier,
    tok: Option<Seq<char>>,
    ds: Seq<Seq<char>>,
    post: PullSession,
    a: PullAction,
) -> bool {
    if ds.len() == 0 {
        post.phase is Finished && a is Done
    } else {
        &&& post.phase matches Phase::LayersWait { token, digests, next, attempts }
            && opt_str_view(token) == tok && digests@.len() == ds.len() && (forall|k: int|
            0 <= k < ds.len() ==> digests@[k]@ == ds[k]) && next == 0 && attempts == 0
        &&& a matches PullAction::FetchLayer { url, token: t2, digest, delay_ms } && url@
            == spec_blob_url(image.author@, image.name@, ds[0]) && opt_str_view(t2) == tok
            && digest@ == ds[0] && delay_ms == 0
    }
}

/// A canonical manifest response body was accepted: its layers decide how the
/// pull goes on.
pub open spec fn manifest_start_rel(
    image: ImageIdentifier,
    tok: Option<Seq<char>>,
    body: Seq<char>,
    post: PullSession,
    a: PullAction,
) -> bool {
    match spec_layers_of_body(body) {
        None => fail_rel(post, a, PullError::ManifestParse),
        Some(ds) => layers_start_rel(image, tok, ds, post, a),
    }
}

/// The transition relation of the pull machine: what one step does for every
/// phase and event. An event of the wrong kind for the pending request is
/// treated as a transport fault.
pub open spec fn step_rel(pre: PullSession, e: PullEvent, post: PullSession, a: PullAction) -> bool {
    &&& post.image == pre.image
    &&& match pre.phase {
        Phase::ManifestFirst { attempts } => match e {
            PullEvent::Response { status, www_authenticate, body } => {
                if spec_is_success(status) {
                    manifest_start_rel(pre.image, None, body@, post, a)
                } else {
                    match www_authenticate {
                        None => fail_rel(post, a, PullError::AuthChallenge),
                        Some(h) => match spec_challenge(h@) {
                            None => fail_rel(post, a, PullError::AuthChallenge),
                            Some(c) => {
                                &&& post.phase is TokenWait
                                &&& a matches PullAction::FetchToken { url } && url@
                                    == spec_challenge_url(c.0, c.1)
                            },
                        },
                    }
                }
            },
            PullEvent::NetworkFailed => {
                if attempts + 1 < MAX_FETCH_ATTEMPTS {
                    &&& post.phase matches Phase::ManifestFirst { attempts: a2 } && a2 == attempts
                        + 1
                    &&& a matches PullAction::FetchManifest { url, token, delay_ms } && url@
                        == spec_manifest_url(pre.image.author@, pre.image.name@, pre.image.tag@)
                        && token is None && delay_ms == spec_backoff_ms((attempts + 1) as u8)
                } else {
                    fail_rel(post, a, PullError::Network)
                }
            },
            _ => fail_rel(post, a, PullError::Network),
        },
        Phase::TokenWait => match e {
            // The token endpoint's status is not inspected; only the body counts.
            PullEvent::Response { status, www_authenticate, body } => {
                match spec_token_of_body(body@) {
                    None => fail_rel(post, a, PullError::AuthChallenge),
                    Some(t) => {
                        &&& post.phase matches Phase::ManifestAuthed { token, attempts } && token@
                            == t && attempts == 0
                        &&& a matches PullAction::FetchManifest { url, token: t2, delay_ms }
                            && url@ == spec_manifest_url(
                            pre.image.author@,
                            pre.image.name@,
                            pre.image.tag@,
                        ) && opt_str_view(t2) == Some(t) && delay_ms == 0
                    },
                }
            },
            _ => fail_rel(post, a, PullError::Network),
        },
        Phase::ManifestAuthed { token, attempts } => match e {
            PullEvent::Response { status, www_authenticate, body } => {
                if spec_is_success(status) {
                    manifest_start_rel(pre.image, Some(token@), body@, post, a)
                } else {
                    fail_rel(post, a, PullError::Network)
                }
            },
            PullEvent::NetworkFailed => {
                if attempts + 1 < MAX_FETCH_ATTEMPTS {
                    &&& post.phase matches Phase::ManifestAuthed { token: tk, attempts: a2 } && tk@
                        == token@ && a2 == attempts + 1
                    &&& a matches PullAction::FetchManifest { url, token: t2, delay_ms } && url@
                        == spec_manifest_url(pre.image.author@, pre.image.name@, pre.image.tag@)
                        && opt_str_view(t2) == Some(token@) && delay_ms == spec_backoff_ms(
                        (attempts + 1) as u8,
                    )
                } else {
                    fail_rel(post, a, PullError::Network)
                }
            },
            _ => fail_rel(post, a, PullError::Network),
        },
        Phase::LayersWait { token, digests, next, attempts } => match e {
            PullEvent::LayerApplied { tar_exit } => {
                if tar_exit == Some(0i32) {
                    if next + 1 == digests@.len() {
                        post.phase is Finished && a is Done
                    } else {
                        &&& post.phase matches Phase::LayersWait {
                            token: tk,
                            digests: d2,
                            next: n2,
                            attempts: a2,
                        } && opt_str_view(tk) == opt_str_view(token) && d2 == digests && n2 == next
                            + 1 && a2 == 0
                        &&& a matches PullAction::FetchLayer { url, token: t2, digest, delay_ms }
                            && url@ == spec_blob_url(
                            pre.image.author@,
                            pre.image.name@,
                            digests@[next + 1]@,
                        ) && opt_str_view(t2) == opt_str_view(token) && digest@ == digests@[next
                            + 1]@ && delay_ms == 0
                    }
                } else {
                    fail_rel(post, a, PullError::Extraction)
                }
            },
            PullEvent::NetworkFailed => {
                if attempts + 1 < MAX_FETCH_ATTEMPTS {
                    &&& post.phase matches Phase::LayersWait {
                        token: tk,
                        digests: d2,
                        next: n2,
                        attempts: a2,
                    } && opt_str_view(tk) == opt_str_view(token) && d2 == digests && n2 == next
                        && a2 == attempts + 1
                    &&& a matches PullAction::FetchLayer { url, token: t2, digest, delay_ms }
                        && url@ == spec_blob_url(pre.image.author@, pre.image.name@, digests@[next as int]@)
                        && opt_str_view(t2) == opt_str_view(token) && digest@
                        == digests@[next as int]@ && delay_ms == spec_backoff_ms((attempts + 1) as u8)
                } else {
                    fail_rel(post, a, PullError::Network)
                }
            },
            PullEvent::LayerSaveFailed => fail_rel(post, a, PullError::BlobDownload),
            _ => fail_rel(post, a, PullError::Network),
        },
        Phase::Finished => fail_rel(post, a, PullError::Network),
        Phase::Failed => fail_rel(post, a, PullError::Network),
    }
}

impl PullSession {
    /// In the layer phase the cursor stays inside the digest list.
    pub open spec fn wf(self) -> bool {
        match self.phase {
            Phase::LayersWait { digests, next, .. } => next < digests@.len(),
            _ => true,
        }
    }

    /// Starts a pull: the fresh session and the first action, an
    /// unauthenticated manifest request.
    pub fn new(image: ImageIdentifier) -> (r: (PullSession, PullAction))
        ensures
            r.0.wf(),
            r.0.image == image,
            r.0.phase matches Phase::ManifestFirst { attempts } && attempts == 0,
            r.1 matches PullAction::FetchManifest { url, token, delay_ms } && url@
                == spec_manifest_url(image.author@, image.name@, image.tag@) && token is None
                && delay_ms == 0,
    {
        let url = manifest_url(&image);
        (
            PullSession { image, phase: Phase::ManifestFirst { attempts: 0 } },
            PullAction::FetchManifest { url, token: None, delay_ms: 0 },
        )
    }

    /// Feeds the outcome of the pending action to the machine and returns
    /// what the driver must do next.
    pub fn step(&mut self, e: PullEvent) -> (a: PullAction)
        requires
            old(self).wf(),
        ensures
            final(self).wf(),
            step_rel(*old(self), e, *final(self), a),
    {
        let mut ph = Phase::Failed;
        core::mem::swap(&mut self.phase, &mut ph);
        match ph {
            Phase::ManifestFirst { attempts } => match e {
                PullEvent::Response { status, www_authenticate, body } => {
                    if is_success(status) {
                        self.start_layers(None, body.as_str())
                    } else {
                        match www_authenticate {
                            None => {
                                self.phase = Phase::Failed;
                                PullAction::Fail { error: PullError::AuthChallenge }
                            },
                            Some(h) => match build_challenge_url(h.as_str()) {
                                Err(err) => {
                                    self.phase = Phase::Failed;
                                    PullAction::Fail { error: err }
                                },
                                Ok(url) => {
                                    self.phase = Phase::TokenWait;
                                    PullAction::FetchToken { url }
                                },
                            },
                        }
                    }
                },
                PullEvent::NetworkFailed => {
                    if attempts < MAX_FETCH_ATTEMPTS - 1 {
                        let url = manifest_url(&self.image);
                        let d = backoff_ms(attempts + 1);
                        self.phase = Phase::ManifestFirst { attempts: attempts + 1 };
                        PullAction::FetchManifest { url, token: None, delay_ms: d }
                    } else {
                        self.phase = Phase::Failed;
                        PullAction::Fail { error: PullError::Network }
                    }
                },
                _ => {
                    self.phase = Phase::Failed;
                    PullAction::Fail { error: PullError::Network }
                },
            },
            Phase::TokenWait => match e {
                PullEvent::Response { status: _, www_authenticate: _, body } => {
                    match token_from_body(body.as_str()) {
                        Err(err) => {
                            self.phase = Phase::Failed;
                            PullAction::Fail { error: err }
                        },
                        Ok(t) => {
                            let url = manifest_url(&self.image);
                            let t2 = Some(t.clone());
                            self.phase = Phase::ManifestAuthed { token: t, attempts: 0 };
                            PullAction::FetchManifest { url, token: t2, delay_ms: 0 }
                        },
                    }
                },
                _ => {
                    self.phase = Phase::Failed;
                    PullAction::Fail { error: PullError::Network }
                },
            },
            Phase::ManifestAuthed { token, attempts } => match e {
                PullEvent::Response { status, www_authenticate: _, body } => {
                    if is_success(status) {
                        self.start_layers(Some(token), body.as_str())
                    } else {
                        self.phase = Phase::Failed;
                        PullAction::Fail { error: PullError::Network }
                    }
                },
                PullEvent::NetworkFailed => {
                    if attempts < MAX_FETCH_ATTEMPTS - 1 {
                        let url = manifest_url(&self.image);
                        let d = backoff_ms(attempts + 1);
                        let t2 = Some(token.clone());
                        self.phase = Phase::ManifestAuthed { token, attempts: attempts + 1 };
                        PullAction::FetchManifest { url, token: t2, delay_ms: d }
                    } else {
                        self.phase = Phase::Failed;
                        PullAction::Fail { error: PullError::Network }
                    }
                },
                _ => {
                    self.phase = Phase::Failed;
                    PullAction::Fail { error: PullError::Network }
                },
            },
            Phase::LayersWait { token, digests, next, attempts } => match e {
                PullEvent::LayerApplied { tar_exit } => {
                    let len = digests.len();
                    let ok = match tar_exit {
                        Some(c) => c == 0,
                        None => false,
                    };
                    if !ok {
                        self.phase = Phase::Failed;
                        PullAction::Fail { error: PullError::Extraction }
                    } else if next + 1 == len {
                        self.phase = Phase::Finished;
                        PullAction::Done
                    } else {
                        let n2 = next + 1;
                        let url = blob_url(&self.image, digests[n2].as_str());
                        let dg = digests[n2].clone();
                        let t2 = clone_token(&token);
                        self.phase = Phase::LayersWait { token, digests, next: n2, attempts: 0 };
                        PullAction::FetchLayer { url, token: t2, digest: dg, delay_ms: 0 }
                    }
                },
                PullEvent::NetworkFailed => {
                    if attempts < MAX_FETCH_ATTEMPTS - 1 {
                        let url = blob_url(&self.image, digests[next].as_str());
                        let dg = digests[next].clone();
                        let t2 = clone_token(&token);
                        let d = backoff_ms(attempts + 1);
                        self.phase = Phase::LayersWait {
                            token,
                            digests,
                            next,
                            attempts: attempts + 1,
                        };
                        PullAction::FetchLayer { url, token: t2, digest: dg, delay_ms: d }
                    } else {
                        self.phase = Phase::Failed;
                        PullAction::Fail { error: PullError::Network }
                    }
                },
                PullEvent::LayerSaveFailed => {
                    self.phase = Phase::Failed;
                    PullAction::Fail { error: PullError::BlobDownload }
                },
                _ => {
                    self.phase = Phase::Failed;
                    PullAction::Fail { error: PullError::Network }
                },
            },
            Phase::Finished => {
                self.phase = Phase::Failed;
                PullAction::Fail { error: PullError::Network }
            },
            Phase::Failed => {
                self.phase = Phase::Failed;
                PullAction::Fail { error: PullError::Network }
            },
        }
    }

    /// Accepts a canonical manifest body: parses it and enters the layer
    /// phase, or finishes at once on an empty layer list.
    fn start_layers(&mut self, token: Option<String>, body: &str) -> (a: PullAction)
        ensures
            final(self).image == old(self).image,
            final(self).wf(),
            manifest_start_rel(old(self).image, opt_str_view(token), body@, *final(self), a),
    {
        match layers_from_body(body) {
            Err(err) => {
                self.phase = Phase::Failed;
                PullAction::Fail { error: err }
            },
            Ok(digests) => {
                if digests.len() == 0 {
                    self.phase = Phase::Finished;
                    PullAction::Done
                } else {
                    let url = blob_url(&self.image, digests[0].as_str());
                    let dg = digests[0].clone();
                    let t2 = clone_token(&token);
                    self.phase = Phase::LayersWait { token, digests, next: 0, attempts: 0 };
                    PullAction::FetchLayer { url, token: t2, digest: dg, delay_ms: 0 }
                }
            },
        }
    }
}

/// A run of the machine: `states[0]` is where it began, and each step obeys
/// the transition relation.
pub open spec fn wf_trace(
    states: Seq<PullSession>,
    events: Seq<PullEvent>,
    actions: Seq<PullAction>,
) -> bool {
    &&& states.len() == events.len() + 1
    &&& actions.len() == events.len()
    &&& forall|i: int|
        0 <= i < events.len() ==> step_rel(states[i], #[trigger] events[i], states[i + 1], actions[i])
}

/// The first manifest exchange lies behind.
pub open spec fn past_first_manifest(s: PullSession) -> bool {
    !(s.phase is ManifestFirst)
}

/// One step: a token request comes only out of the first manifest exchange,
/// and that exchange, once left, is never entered again.
pub proof fn lemma_step_past_first(pre: PullSession, e: PullEvent, post: PullSession, a: PullAction)
    requires
        step_rel(pre, e, post, a),
    ensures
        past_first_manifest(pre) ==> past_first_manifest(post) && !(a is FetchToken),
        a is FetchToken ==> past_first_manifest(post),
{
}

proof fn lemma_past_stays(
    states: Seq<PullSession>,
    events: Seq<PullEvent>,
    actions: Seq<PullAction>,
    from: int,
    to: int,
)
    requires
        wf_trace(states, events, actions),
        0 <= from <= to < states.len(),
        past_first_manifest(states[from]),
    ensures
        past_first_manifest(states[to]),
    decreases to - from,
{
    if from < to {
        lemma_past_stays(states, events, actions, from, to - 1);
        lemma_step_past_first(states[to - 1], events[to - 1], states[to], actions[to - 1]);
    }
}

/// Law: over any run, whatever the registry answers, the machine requests a
/// bearer token at most once.
pub proof fn lemma_token_fetched_at_most_once(
    states: Seq<PullSession>,
    events: Seq<PullEvent>,
    actions: Seq<PullAction>,
    i: int,
    j: int,
)
    requires
        wf_trace(states, events, actions),
        0 <= i < j < actions.len(),
        actions[i] is FetchToken,
    ensures
        !(actions[j] is FetchToken),
{
    lemma_step_past_first(states[i], events[i], states[i + 1], actions[i]);
    lemma_past_stays(states, events, actions, i + 1, j);
    lemma_step_past_first(states[j], events[j], states[j + 1], actions[j]);
}

/// Law: when the first manifest response already has a success status, the
/// machine never requests a token.
pub proof fn lemma_success_means_no_token_fetch(
    states: Seq<PullSession>,
    events: Seq<PullEvent>,
    actions: Seq<PullAction>,
    j: int,
)
    requires
        wf_trace(states, events, actions),
        states[0].phase matches Phase::ManifestFirst { .. },
        events.len() > 0,
        events[0] matches PullEvent::Response { status, .. } && spec_is_success(status),
        0 <= j < actions.len(),
    ensures
        !(actions[j] is FetchToken),
{
    assert(step_rel(states[0], events[0], states[1], actions[0]));
    if j > 0 {
        lemma_past_stays(states, events, actions, 1, j);
        lemma_step_past_first(states[j], events[j], states[j + 1], actions[j]);
    }
}

/// Law: a first manifest response with a failure status and a well-formed
/// challenge makes the machine request the token exactly once, from the
/// challenge URL, and then retry the manifest exactly once, now carrying the
/// bearer token; no further token request ever follows.
pub proof fn lemma_challenge_causes_single_token_fetch(
    states: Seq<PullSession>,
    events: Seq<PullEvent>,
    actions: Seq<PullAction>,
    h: Seq<char>,
    tbody: Seq<char>,
)
    requires
        wf_trace(states, events, actions),
        events.len() >= 2,
        states[0].phase matches Phase::ManifestFirst { .. },
        events[0] matches PullEvent::Response { status, www_authenticate: Some(hh), body }
            && !spec_is_success(status) && hh@ == h,
        spec_challenge(h) is Some,
        events[1] matches PullEvent::Response { status: s2, www_authenticate: w2, body: b2 }
            && b2@ == tbody,
        spec_token_of_body(tbody) is Some,
    ensures
        actions[0] matches PullAction::FetchToken { url } && url@ == spec_challenge_url(
            spec_challenge(h)->Some_0.0,
            spec_challenge(h)->Some_0.1,
        ),
        actions[1] matches PullAction::FetchManifest { url, token, delay_ms } && url@
            == spec_manifest_url(
            states[0].image.author@,
            states[0].image.name@,
            states[0].image.tag@,
        ) && opt_str_view(token) == Some(spec_token_of_body(tbody)->Some_0),
        forall|j: int| 2 <= j < actions.len() ==> !(actions[j] is FetchToken),
{
    assert(step_rel(states[0], events[0], states[1], actions[0]));
    assert(step_rel(states[1], events[1], states[2], actions[1]));
    assert forall|j: int| 2 <= j < actions.len() implies !(actions[j] is FetchToken) by {
        lemma_past_stays(states, events, actions, 2, j);
        lemma_step_past_first(states[j], events[j], states[j + 1], actions[j]);
    }
}

/// A successful application: the event that reports the extraction utility
/// ended with exit code zero.
pub open spec fn is_applied_ok(e: PullEvent) -> bool {
    e matches PullEvent::LayerApplied { tar_exit } && tar_exit == Some(0i32)
}

/// How many layers the events report as successfully applied.
pub open spec fn spec_applied_count(events: Seq<PullEvent>) -> int
    decreases events.len(),
{
    if events.len() == 0 {
        0
    } else {
        spec_applied_count(events.drop_last()) + if is_applied_ok(events.last()) {
            1int
        } else {
            0int
        }
    }
}

/// In the layer phase the digest list is the manifest's list `ds0` and the
/// cursor equals the number of layers applied so far; a finished machine has
/// applied them all.
pub open spec fn layers_inv(ds0: Seq<Seq<char>>, s: PullSession, applied: int) -> bool {
    match s.phase {
        Phase::LayersWait { digests, next, .. } => {
            &&& digests@.len() == ds0.len()
            &&& forall|k: int| 0 <= k < ds0.len() ==> digests@[k]@ == ds0[k]
            &&& next == applied
            &&& next < ds0.len()
        },
        Phase::Finished => applied == ds0.len(),
        Phase::Failed => true,
        _ => false,
    }
}

proof fn lemma_step_layers_inv(
    ds0: Seq<Seq<char>>,
    pre: PullSession,
    e: PullEvent,
    post: PullSession,
    a: PullAction,
    applied: int,
)
    requires
        step_rel(pre, e, post, a),
        layers_inv(ds0, pre, applied),
    ensures
        layers_inv(
            ds0,
            post,
            applied + if is_applied_ok(e) {
                1int
            } else {
                0int
            },
        ),
{
}

/// Law: in any run that starts at the first layer, the machine's cursor
/// always equals the number of successfully applied layers, over the
/// manifest's own digest list; in particular a finished run has applied
/// every layer.
pub proof fn lemma_layer_phase_invariant(
    ds0: Seq<Seq<char>>,
    states: Seq<PullSession>,
    events: Seq<PullEvent>,
    actions: Seq<PullAction>,
    i: int,
)
    requires
        wf_trace(states, events, actions),
        layers_inv(ds0, states[0], 0),
        0 <= i < states.len(),
    ensures
        layers_inv(ds0, states[i], spec_applied_count(events.take(i))),
    decreases i,
{
    if i == 0 {
        assert(events.take(0) =~= Seq::<PullEvent>::empty());
    } else {
        lemma_layer_phase_invariant(ds0, states, events, actions, i - 1);
        lemma_step_layers_inv(
            ds0,
            states[i - 1],
            events[i - 1],
            states[i],
            actions[i - 1],
            spec_applied_count(events.take(i - 1)),
        );
        assert(events.take(i).drop_last() =~= events.take(i - 1));
        assert(events.take(i).last() == events[i - 1]);
    }
}

/// Law: the step that accepts the canonical manifest response establishes the
/// layer-phase invariant over the manifest's own digest list, with no layer
/// applied yet; a body without a well-formed layer list fails the pull.
pub proof fn lemma_manifest_accept_starts_layer_phase(
    pre: PullSession,
    e: PullEvent,
    post: PullSession,
    a: PullAction,
    bodyv: Seq<char>,
)
    requires
        step_rel(pre, e, post, a),
        pre.phase matches Phase::ManifestFirst { .. } || pre.phase matches Phase::ManifestAuthed {
            ..
        },
        e matches PullEvent::Response { status, www_authenticate, body } && spec_is_success(status)
            && body@ == bodyv,
    ensures
        match spec_layers_of_body(bodyv) {
            Some(ds) => layers_inv(ds, post, 0),
            None => post.phase is Failed,
        },
{
}

/// Law: every blob the machine asks for is the digest at its cursor, so the
/// k-th successful application applies the manifest's k-th layer: extraction
/// order equals manifest order.
pub proof fn lemma_layer_fetches_in_manifest_order(
    ds0: Seq<Seq<char>>,
    states: Seq<PullSession>,
    events: Seq<PullEvent>,
    actions: Seq<PullAction>,
    i: int,
)
    requires
        wf_trace(states, events, actions),
        layers_inv(ds0, states[0], 0),
        0 <= i < actions.len(),
    ensures
        actions[i] matches PullAction::FetchLayer { digest, .. } ==> {
            &&& states[i + 1].phase matches Phase::LayersWait { next, .. }
                && next == spec_applied_count(events.take(i + 1)) && digest@ == ds0[next as int]
        },
{
    lemma_layer_phase_invariant(ds0, states, events, actions, i);
    lemma_layer_phase_invariant(ds0, states, events, actions, i + 1);
    assert(step_rel(states[i], events[i], states[i + 1], actions[i]));
    assert(events.take(i + 1).drop_last() =~= events.take(i));
    assert(events.take(i + 1).last() == events[i]);
}

} // verus!
