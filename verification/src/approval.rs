//! The approval request data model and its lifecycle rules.
//!
//! A request is created pending, carries its provenance, payload and temporal
//! bounds, and is resolved at most once; a second resolution attempt is
//! rejected and the winning resolution is reported back to the caller.

use vstd::prelude::*;

verus! {

/// Nanoseconds in one second; the unit conversion for [`Timeout`].
pub const NANOS_PER_SEC: u32 = 1_000_000_000;

/// How dangerous the pending action is, as a small ordered ranking.
#[derive(Clone, Copy, Debug, PartialEq, Eq, Structural, Hash)]
pub enum Severity {
    Info,
    Warning,
    Critical,
}

impl Severity {
    /// The position of this severity in the ranking, lowest first.
    pub open spec fn rank(self) -> int {
        match self {
            Severity::Info => 0,
            Severity::Warning => 1,
            Severity::Critical => 2,
        }
    }

    /// True when `self` ranks at least as dangerous as `other`.
    pub fn at_least(self, other: Severity) -> (r: bool)
        ensures
            r == (self.rank() >= other.rank()),
    {
        let a: u8 = match self {
            Severity::Info => 0,
            Severity::Warning => 1,
            Severity::Critical => 2,
        };
        let b: u8 = match other {
            Severity::Info => 0,
            Severity::Warning => 1,
            Severity::Critical => 2,
        };
        a >= b
    }
}

/// How long a request waits for a decision before it times out.
///
/// Kept as whole seconds plus a sub-second remainder in nanoseconds, so that
/// expiration arithmetic is exact while serialization can keep only the
/// whole-second count.
#[derive(Clone, Copy, Debug, PartialEq, Eq, Structural, Hash)]
pub struct Timeout {
    pub secs: u64,
    pub nanos: u32,
}

impl Timeout {
    /// The sub-second part stays below one second.
    pub open spec fn wf(self) -> bool {
        self.nanos < NANOS_PER_SEC
    }

    /// The whole window in nanoseconds, as a mathematical integer.
    pub open spec fn as_nanos(self) -> int {
        self.secs * (NANOS_PER_SEC as int) + self.nanos
    }

    /// True for the empty window, which expires as soon as time advances.
    pub open spec fn is_zero(self) -> bool {
        self.secs == 0 && self.nanos == 0
    }

    /// A window of whole seconds.
    pub fn from_secs(secs: u64) -> (r: Timeout)
        ensures
            r == (Timeout { secs, nanos: 0u32 }),
            r.wf(),
    {
        Timeout { secs, nanos: 0 }
    }

    /// A window of whole milliseconds.
    pub fn from_millis(millis: u64) -> (r: Timeout)
        ensures
            r.wf(),
            r.as_nanos() == millis * 1_000_000,
            millis == 0 ==> r.is_zero(),
    {
        let r = Timeout { secs: millis / 1000, nanos: (millis % 1000) as u32 * 1_000_000 };
        proof {
            assert(r.as_nanos() == millis * 1_000_000) by (nonlinear_arith)
                requires
                    r.secs == millis / 1000,
                    r.nanos == (millis % 1000) * 1_000_000,
            {
            }
        }
        r
    }
}

/// Where an approval request originated from.
#[derive(Clone, Debug, PartialEq, Eq)]
pub enum ApprovalSource {
    /// Request came from clawsudo policy evaluation.
    ClawSudo { policy_rule: Option<String> },
    /// Request came from the automated response engine.
    ResponseEngine { threat_id: String, playbook: Option<String> },
}

/// The mathematical shape of an [`ApprovalSource`], over character sequences.
pub enum SourceView {
    ClawSudo { policy_rule: Option<Seq<char>> },
    ResponseEngine { threat_id: Seq<char>, playbook: Option<Seq<char>> },
}

impl View for ApprovalSource {
    type V = SourceView;

    open spec fn view(&self) -> SourceView {
        match self {
            ApprovalSource::ClawSudo { policy_rule } => SourceView::ClawSudo {
                policy_rule: policy_rule.deep_view(),
            },
            ApprovalSource::ResponseEngine { threat_id, playbook } => SourceView::ResponseEngine {
                threat_id: threat_id@,
                playbook: playbook.deep_view(),
            },
        }
    }
}

/// The outcome of an approval decision.
///
/// `at` is a UTC wall-clock instant in whole nanoseconds since the Unix epoch.
#[derive(Clone, Debug, PartialEq, Eq)]
pub enum ApprovalResolution {
    /// The request was approved.
    Approved { by: String, via: String, message: Option<String>, at: i64 },
    /// The request was denied.
    Denied { by: String, via: String, message: Option<String>, at: i64 },
    /// The request expired before anyone responded.
    TimedOut { at: i64 },
}

/// The mathematical shape of an [`ApprovalResolution`].
pub enum ResolutionView {
    Approved { by: Seq<char>, via: Seq<char>, message: Option<Seq<char>>, at: int },
    Denied { by: Seq<char>, via: Seq<char>, message: Option<Seq<char>>, at: int },
    TimedOut { at: int },
}

impl ResolutionView {
    /// When the resolution happened.
    pub open spec fn at_time(self) -> int {
        match self {
            ResolutionView::Approved { at, .. } => at,
            ResolutionView::Denied { at, .. } => at,
            ResolutionView::TimedOut { at } => at,
        }
    }
}

impl ApprovalResolution {
    /// Render this resolution on a single line, exactly as
    /// [`resolution_display`] states.
    pub fn display(&self) -> (r: String)
        ensures
            r@ == resolution_display(self@),
    {
        let mut s = String::new();
        match self {
            ApprovalResolution::Approved { by, via, .. } => {
                s.append("Approved by ");
                s.append(by.as_str());
                s.append(" via ");
                s.append(via.as_str());
            },
            ApprovalResolution::Denied { by, via, .. } => {
                s.append("Denied by ");
                s.append(by.as_str());
                s.append(" via ");
                s.append(via.as_str());
            },
            ApprovalResolution::TimedOut { .. } => {
                s.append("Timed out");
            },
        }
        s
    }

    /// When this resolution happened, in whole nanoseconds since the Unix
    /// epoch.
    pub fn at_time(&self) -> (r: i64)
        ensures
            r as int == self@.at_time(),
    {
        match self {
            ApprovalResolution::Approved { at, .. } => *at,
            ApprovalResolution::Denied { at, .. } => *at,
            ApprovalResolution::TimedOut { at } => *at,
        }
    }

    /// An equal copy of this resolution.
    pub fn duplicate(&self) -> (r: ApprovalResolution)
        ensures
            r == *self,
    {
        match self {
            ApprovalResolution::Approved { by, via, message, at } => {
                ApprovalResolution::Approved {
                    by: by.clone(),
                    via: via.clone(),
                    message: match message {
                        Some(m) => Some(m.clone()),
                        None => None,
                    },
                    at: *at,
                }
            },
            ApprovalResolution::Denied { by, via, message, at } => {
                ApprovalResolution::Denied {
                    by: by.clone(),
                    via: via.clone(),
                    message: match message {
                        Some(m) => Some(m.clone()),
                        None => None,
                    },
                    at: *at,
                }
            },
            ApprovalResolution::TimedOut { at } => {
                ApprovalResolution::TimedOut { at: *at }
            },
        }
    }
}

impl View for ApprovalResolution {
    type V = ResolutionView;

    open spec fn view(&self) -> ResolutionView {
        match self {
            ApprovalResolution::Approved { by, via, message, at } => ResolutionView::Approved {
                by: by@,
                via: via@,
                message: message.deep_view(),
                at: *at as int,
            },
            ApprovalResolution::Denied { by, via, message, at } => ResolutionView::Denied {
                by: by@,
                via: via@,
                message: message.deep_view(),
                at: *at as int,
            },
            ApprovalResolution::TimedOut { at } => ResolutionView::TimedOut { at: *at as int },
        }
    }
}

/// Current status of an approval request.
#[derive(Clone, Debug, PartialEq, Eq)]
pub enum ApprovalStatus {
    /// Awaiting a decision.
    Pending,
    /// A decision has been made; this state is terminal.
    Resolved(ApprovalResolution),
}

/// The mathematical shape of an [`ApprovalStatus`].
pub enum StatusView {
    Pending,
    Resolved(ResolutionView),
}

impl ApprovalStatus {
    /// Render this status on a single line, exactly as [`status_display`]
    /// states.
    pub fn display(&self) -> (r: String)
        ensures
            r@ == status_display(self@),
    {
        match self {
            ApprovalStatus::Pending => {
                let mut s = String::new();
                s.append("Pending");
                s
            },
            ApprovalStatus::Resolved(r) => r.display(),
        }
    }
}

impl View for ApprovalStatus {
    type V = StatusView;

    open spec fn view(&self) -> StatusView {
        match self {
            ApprovalStatus::Pending => StatusView::Pending,
            ApprovalStatus::Resolved(r) => StatusView::Resolved(r@),
        }
    }
}

/// The single-line rendering of an approval source, for logs and
/// notifications.
pub open spec fn source_display(v: SourceView) -> Seq<char> {
    match v {
        SourceView::ClawSudo { policy_rule: Some(rule) } => "clawsudo (rule: "@ + rule + ")"@,
        SourceView::ClawSudo { policy_rule: None } => "clawsudo"@,
        SourceView::ResponseEngine { threat_id, playbook: Some(pb) } => "response-engine (threat: "@
            + threat_id + ", playbook: "@ + pb + ")"@,
        SourceView::ResponseEngine { threat_id, playbook: None } => "response-engine (threat: "@
            + threat_id + ")"@,
    }
}

/// The single-line rendering of a resolution: actor and channel for a
/// decision, a fixed phrase for a timeout.  Message and timestamp stay in the
/// structured fields.
pub open spec fn resolution_display(v: ResolutionView) -> Seq<char> {
    match v {
        ResolutionView::Approved { by, via, .. } => "Approved by "@ + by + " via "@ + via,
        ResolutionView::Denied { by, via, .. } => "Denied by "@ + by + " via "@ + via,
        ResolutionView::TimedOut { .. } => "Timed out"@,
    }
}

/// The single-line rendering of a status: the resolution's line once
/// resolved, a fixed word while pending.
pub open spec fn status_display(v: StatusView) -> Seq<char> {
    match v {
        StatusView::Pending => "Pending"@,
        StatusView::Resolved(r) => resolution_display(r),
    }
}

impl ApprovalSource {
    /// Render this source on a single line, exactly as [`source_display`]
    /// states.
    pub fn display(&self) -> (r: String)
        ensures
            r@ == source_display(self@),
    {
        let mut s = String::new();
        match self {
            ApprovalSource::ClawSudo { policy_rule: Some(rule) } => {
                s.append("clawsudo (rule: ");
                s.append(rule.as_str());
                s.append(")");
            },
            ApprovalSource::ClawSudo { policy_rule: None } => {
                s.append("clawsudo");
            },
            ApprovalSource::ResponseEngine { threat_id, playbook: Some(pb) } => {
                s.append("response-engine (threat: ");
                s.append(threat_id.as_str());
                s.append(", playbook: ");
                s.append(pb.as_str());
                s.append(")");
            },
            ApprovalSource::ResponseEngine { threat_id, playbook: None } => {
                s.append("response-engine (threat: ");
                s.append(threat_id.as_str());
                s.append(")");
            },
        }
        s
    }
}

/// Why a resolution attempt was rejected.
#[derive(Clone, Debug, PartialEq, Eq)]
pub enum ApprovalError {
    /// The request already carries a resolution; the winning one is returned
    /// so the loser of a race can log which attempt went through.
    AlreadyResolved(ApprovalResolution),
}

/// A request for human approval before executing a privileged action.
///
/// `created_at` is a UTC wall-clock instant in whole nanoseconds since the
/// Unix epoch.
#[derive(Clone, Debug, PartialEq, Eq)]
pub struct ApprovalRequest {
    /// Unique identifier in canonical hyphenated form, 36 characters.
    pub id: String,
    /// Where this request originated.
    pub source: ApprovalSource,
    /// The command or action requiring approval.
    pub command: String,
    /// The agent requesting the action.
    pub agent: String,
    /// How serious this action is.
    pub severity: Severity,
    /// Additional context about why this action is being requested.
    pub context: String,
    /// When the request was created.
    pub created_at: i64,
    /// How long to wait for a response before timing out.
    pub timeout: Timeout,
    /// Whether a decision has been made yet.
    pub status: ApprovalStatus,
}

/// The mathematical shape of an [`ApprovalRequest`].
pub struct RequestView {
    pub id: Seq<char>,
    pub source: SourceView,
    pub command: Seq<char>,
    pub agent: Seq<char>,
    pub severity: Severity,
    pub context: Seq<char>,
    pub created_at: int,
    pub timeout: Timeout,
    pub status: StatusView,
}

impl View for ApprovalRequest {
    type V = RequestView;

    open spec fn view(&self) -> RequestView {
        RequestView {
            id: self.id@,
            source: self.source@,
            command: self.command@,
            agent: self.agent@,
            severity: self.severity,
            context: self.context@,
            created_at: self.created_at as int,
            timeout: self.timeout,
            status: self.status@,
        }
    }
}

/// True for a character that may appear between the hyphens of a canonical id.
pub open spec fn is_lower_hex_digit(c: char) -> bool {
    ('0' <= c && c <= '9') || ('a' <= c && c <= 'f')
}

/// The canonical 36-character hyphenated form of a 128-bit identifier:
/// lowercase hex digits in groups of 8-4-4-4-12 separated by hyphens.
pub open spec fn is_canonical_id(s: Seq<char>) -> bool {
    &&& s.len() == 36
    &&& forall|i: int|
        0 <= i < 36 ==> (if i == 8 || i == 13 || i == 18 || i == 23 {
            s[i] == '-'
        } else {
            is_lower_hex_digit(#[trigger] s[i])
        })
}

impl RequestView {
    /// The instant after which the request counts as expired, if it is
    /// representable at all.
    pub open spec fn deadline(self) -> int {
        self.created_at + self.timeout.as_nanos()
    }

    /// Whether the request counts as expired at instant `now`.
    ///
    /// A deadline that does not fit the native timestamp range is treated as
    /// already elapsed, failing safe toward requiring a response.
    pub open spec fn expired_at(self, now: int) -> bool {
        if self.deadline() > i64::MAX as int {
            true
        } else {
            now > self.deadline()
        }
    }

    /// Well-formedness: the creation instant fits the native timestamp range,
    /// the timeout is in canonical form, and a resolution, once present, does
    /// not predate the request.
    pub open spec fn wf(self) -> bool {
        &&& i64::MIN as int <= self.created_at <= i64::MAX as int
        &&& self.timeout.wf()
        &&& (self.status matches StatusView::Resolved(r) ==> r.at_time() >= self.created_at)
    }
}

/// What applying a resolution does to a status: a pending request accepts it
/// and becomes resolved; a resolved request rejects it and names the
/// resolution that already won.
pub open spec fn resolve_transition(s: StatusView, r: ResolutionView) -> Result<
    StatusView,
    ResolutionView,
> {
    match s {
        StatusView::Pending => Ok(StatusView::Resolved(r)),
        StatusView::Resolved(existing) => Err(existing),
    }
}

/// Relies on `uuid::Uuid::new_v4` and its `Display` impl: a freshly generated
/// random UUID rendered in the canonical lowercase hyphenated form
/// (8-4-4-4-12 hex digits, 36 characters).  Nothing is claimed about the
/// random value itself, only about the shape of its rendering.
#[verifier::external_body]
fn fresh_request_id() -> (r: String)
    ensures
        is_canonical_id(r@),
{
    uuid::Uuid::new_v4().to_string()
}

/// Relies on `chrono::Utc::now` and `DateTime::timestamp_nanos_opt`: the
/// current UTC wall-clock time in whole nanoseconds since the Unix epoch.
/// An instant outside the representable range (before 1677 or after 2262)
/// maps to `i64::MAX`, which fails safe toward expiring requests.
#[verifier::external_body]
fn now_unix_nanos() -> (r: i64) {
    chrono::Utc::now().timestamp_nanos_opt().unwrap_or(i64::MAX)
}

impl ApprovalRequest {
    /// Create a new approval request with a generated unique id and the
    /// current timestamp, in the pending state.
    pub fn new(
        source: ApprovalSource,
        command: String,
        agent: String,
        severity: Severity,
        context: String,
        timeout: Timeout,
    ) -> (r: ApprovalRequest)
        requires
            timeout.wf(),
        ensures
            is_canonical_id(r.id@),
            r.source == source,
            r.command == command,
            r.agent == agent,
            r.severity == severity,
            r.context == context,
            r.timeout == timeout,
            r.status == ApprovalStatus::Pending,
            r@.wf(),
    {
        ApprovalRequest {
            id: fresh_request_id(),
            source,
            command,
            agent,
            severity,
            context,
            created_at: now_unix_nanos(),
            timeout,
            status: ApprovalStatus::Pending,
        }
    }

    /// Decide well-formedness of this request's underlying value.
    pub fn check_wf(&self) -> (r: bool)
        ensures
            r == self@.wf(),
    {
        let status_ok: bool = match &self.status {
            ApprovalStatus::Pending => true,
            ApprovalStatus::Resolved(res) => res.at_time() >= self.created_at,
        };
        self.timeout.nanos < NANOS_PER_SEC && status_ok
    }

    /// Whether the request counts as expired at the given instant, in whole
    /// nanoseconds since the Unix epoch.  Pure: reads no clock.
    pub fn is_expired_at(&self, now_nanos: i64) -> (r: bool)
        ensures
            r == self@.expired_at(now_nanos as int),
    {
        let deadline: i128 = self.created_at as i128 + (self.timeout.secs as i128)
            * (NANOS_PER_SEC as i128) + self.timeout.nanos as i128;
        if deadline > i64::MAX as i128 {
            true
        } else {
            (now_nanos as i128) > deadline
        }
    }

    /// Returns `true` if this request has exceeded its timeout duration,
    /// judged against the wall clock now.  The exact relation between the
    /// result and a given instant is stated on [`Self::is_expired_at`], which
    /// this function applies to the current time.
    pub fn is_expired(&self) -> (r: bool)
        ensures
            self@.deadline() > i64::MAX as int ==> r,
    {
        let now = now_unix_nanos();
        self.is_expired_at(now)
    }

    /// Apply a resolution: succeeds exactly when the request is still
    /// pending, and otherwise reports the resolution that already won,
    /// leaving the request unchanged.
    pub fn resolve(&mut self, resolution: ApprovalResolution) -> (r: Result<(), ApprovalError>)
        requires
            old(self)@.wf(),
            resolution@.at_time() >= old(self)@.created_at,
        ensures
            final(self)@.wf(),
            old(self).status is Pending ==> {
                &&& r is Ok
                &&& final(self).status == ApprovalStatus::Resolved(resolution)
            },
            old(self).status matches ApprovalStatus::Resolved(existing) ==> {
                &&& r == Result::<(), ApprovalError>::Err(
                    ApprovalError::AlreadyResolved(existing),
                )
                &&& *final(self) == *old(self)
            },
            final(self).id == old(self).id,
            final(self).source == old(self).source,
            final(self).command == old(self).command,
            final(self).agent == old(self).agent,
            final(self).severity == old(self).severity,
            final(self).context == old(self).context,
            final(self).created_at == old(self).created_at,
            final(self).timeout == old(self).timeout,
            resolve_transition(old(self)@.status, resolution@) matches Ok(next)
                ==> final(self)@.status == next,
            resolve_transition(old(self)@.status, resolution@) matches Err(existing) ==> {
                &&& final(self)@.status == old(self)@.status
                &&& r matches Err(ApprovalError::AlreadyResolved(e)) && e@ == existing
            },
    {
        match &self.status {
            ApprovalStatus::Pending => {
                self.status = ApprovalStatus::Resolved(resolution);
                Ok(())
            },
            ApprovalStatus::Resolved(existing) => {
                Err(ApprovalError::AlreadyResolved(existing.duplicate()))
            },
        }
    }
}

/// Law: a resolution is applied to a pending request exactly once.  From
/// `Pending`, applying `first` succeeds and moves the status to
/// `Resolved(first)`; from that state every later attempt, whatever its
/// content, is rejected with the original resolution, and the status stays
/// `Resolved(first)` forever.
pub proof fn lemma_resolution_terminal(first: ResolutionView)
    ensures
        resolve_transition(StatusView::Pending, first) == Ok::<StatusView, ResolutionView>(
            StatusView::Resolved(first),
        ),
        forall|later: ResolutionView|
            resolve_transition(StatusView::Resolved(first), later) == Err::<
                StatusView,
                ResolutionView,
            >(first),
{
}

/// Law: expiration against the model clock.  Under a zero timeout the request
/// is expired exactly when any time has passed since creation; under a
/// positive timeout whose deadline is representable, the request is not
/// expired while `now` is within the window — in particular not at the
/// creation instant itself.  An unrepresentable deadline counts as expired.
pub proof fn lemma_expiry(r: RequestView, now: int)
    requires
        r.timeout.wf(),
        r.created_at <= i64::MAX as int,
    ensures
        r.timeout.is_zero() ==> (r.expired_at(now) <==> now > r.created_at),
        (!r.timeout.is_zero() && r.deadline() <= i64::MAX as int && now <= r.deadline())
            ==> !r.expired_at(now),
        r.deadline() > i64::MAX as int ==> r.expired_at(now),
{
    if r.timeout.is_zero() {
        assert(r.timeout.as_nanos() == 0);
    }
}

} // verus!
