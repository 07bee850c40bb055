//! The ingest gateway's decisions: authentication, rate limiting, batch and
//! PCAP upload checks, and the assembly of analyzer output into events.
use vstd::prelude::*;

use crate::config::GatewayConfig;
use crate::event::{
    count_events_from, count_source, is_envelope, EventSource, IngestBatch, IngestEvent,
    NetworkEvent,
};
use crate::parser::{has_pcap_magic, is_valid_pcap_magic};
use crate::security::{
    agent_identifier_error, constant_time_eq_str, ingest_batch_error, unit_result_matches,
    validate_agent_identifier, validate_ingest_batch,
};

verus! {

broadcast use vstd::string::group_string_axioms;

// ---------------------------------------------------------------------------
// Rate limiting
// ---------------------------------------------------------------------------

/// The state of a fixed-window rate limiter; times are monotonic nanoseconds.
pub struct RateWindow {
    pub max_per_window: u32,
    pub window: u64,
    pub start: u64,
    pub count: u32,
}

/// The current window has run out at time `now` (time before the window's
/// start counts as none elapsed).
pub open spec fn window_expired(w: RateWindow, now: u64) -> bool {
    if now >= w.start {
        now - w.start >= w.window
    } else {
        0 >= w.window
    }
}

/// The window a check at `now` counts against: a fresh one once the current
/// window has run out.
pub open spec fn current_window(w: RateWindow, now: u64) -> RateWindow {
    if window_expired(w, now) {
        RateWindow { max_per_window: w.max_per_window, window: w.window, start: now, count: 0 }
    } else {
        w
    }
}

/// A check at `now`: whether it passes, and the limiter's state after it.
pub open spec fn after_check(w: RateWindow, now: u64) -> (bool, RateWindow) {
    let c = current_window(w, now);
    if c.count >= c.max_per_window {
        (false, c)
    } else {
        (
            true,
            RateWindow {
                max_per_window: c.max_per_window,
                window: c.window,
                start: c.start,
                count: (c.count + 1) as u32,
            },
        )
    }
}

/// How many of a run of checks at `times` pass.
pub open spec fn passes(w: RateWindow, times: Seq<u64>) -> nat
    decreases times.len(),
{
    if times.len() == 0 {
        0
    } else {
        let (ok, next) = after_check(w, times[0]);
        (if ok {
            1nat
        } else {
            0nat
        }) + passes(next, times.drop_first())
    }
}

/// Fixed-window request rate limiter.
pub struct RateLimiter {
    max_per_window: u32,
    window_nanos: u64,
    window_start: u64,
    count: u32,
}

impl View for RateLimiter {
    type V = RateWindow;

    closed spec fn view(&self) -> RateWindow {
        RateWindow {
            max_per_window: self.max_per_window,
            window: self.window_nanos,
            start: self.window_start,
            count: self.count,
        }
    }
}

impl RateLimiter {
    /// A limiter allowing `max_per_window` checks per `window_nanos`, whose
    /// first window opens at `now`.
    pub fn new(max_per_window: u32, window_nanos: u64, now: u64) -> (r: RateLimiter)
        ensures
            r@ == (RateWindow { max_per_window, window: window_nanos, start: now, count: 0 }),
    {
        RateLimiter { max_per_window, window_nanos, window_start: now, count: 0 }
    }

    /// Count one request at time `now`; `false` when the window's budget is spent.
    pub fn check(&mut self, now: u64) -> (r: bool)
        ensures
            (r, final(self)@) == after_check(old(self)@, now),
    {
        let elapsed: u64 = if now >= self.window_start {
            now - self.window_start
        } else {
            0
        };
        if elapsed >= self.window_nanos {
            self.window_start = now;
            self.count = 0;
        }
        if self.count >= self.max_per_window {
            return false;
        }
        self.count = self.count + 1;
        true
    }
}

/// Within one window a limiter passes at most `max_per_window` checks in all:
/// a run of checks that all fall inside the current window passes at most as
/// many times as the window's budget has left.
pub proof fn law_window_budget(w: RateWindow, times: Seq<u64>)
    requires
        w.count <= w.max_per_window,
        forall|i: int| 0 <= i < times.len() ==> !window_expired(w, #[trigger] times[i]),
    ensures
        passes(w, times) <= w.max_per_window - w.count,
    decreases times.len(),
{
    if times.len() > 0 {
        let (ok, next) = after_check(w, times[0]);
        assert forall|i: int| 0 <= i < times.drop_first().len() implies !window_expired(
            next,
            #[trigger] times.drop_first()[i],
        ) by {
            assert(times.drop_first()[i] == times[i + 1]);
        }
        law_window_budget(next, times.drop_first());
    }
}

/// One check, on the limiter's fields. When at least `window` nanoseconds have
/// passed since the window's start (a time before the start counts as none),
/// the check opens a fresh window at `now` and is its first request: it passes
/// exactly when the budget is not zero, and then the count is one. Otherwise it
/// passes exactly when the count is below the budget; a pass adds exactly one
/// to the count, and a refusal changes nothing.
pub proof fn law_check_step(w: RateWindow, now: u64)
    ensures
        after_check(w, now).1.max_per_window == w.max_per_window,
        after_check(w, now).1.window == w.window,
        (if now >= w.start {
            now - w.start
        } else {
            0
        }) >= w.window ==> after_check(w, now).1.start == now && after_check(w, now).0 == (
        w.max_per_window > 0) && after_check(w, now).1.count == (if w.max_per_window > 0 {
            1int
        } else {
            0int
        }),
        (if now >= w.start {
            now - w.start
        } else {
            0
        }) < w.window ==> after_check(w, now).0 == (w.count < w.max_per_window) && (if w.count
            < w.max_per_window {
            after_check(w, now).1.start == w.start && after_check(w, now).1.count == w.count + 1
        } else {
            after_check(w, now).1 == w
        }),
{
}

/// Inside one window the limiter passes exactly as many checks as its budget
/// has left, or all of them when there are fewer: a run of `n` checks that all
/// fall inside the current window passes `min(max_per_window - count, n)`
/// times (so a fresh window passes `min(max_per_window, n)`).
pub proof fn law_window_passes_exactly(w: RateWindow, times: Seq<u64>)
    requires
        w.count <= w.max_per_window,
        forall|i: int| 0 <= i < times.len() ==> !window_expired(w, #[trigger] times[i]),
    ensures
        passes(w, times) == (if w.max_per_window - w.count <= times.len() {
            w.max_per_window - w.count
        } else {
            times.len() as int
        }),
    decreases times.len(),
{
    if times.len() > 0 {
        let (ok, next) = after_check(w, times[0]);
        assert(!window_expired(w, times[0]));
        assert forall|i: int| 0 <= i < times.drop_first().len() implies !window_expired(
            next,
            #[trigger] times.drop_first()[i],
        ) by {
            assert(times.drop_first()[i] == times[i + 1]);
        }
        law_window_passes_exactly(next, times.drop_first());
    }
}

/// Once a window's budget is spent, every check fails until the window runs out.
pub proof fn law_blocks_when_spent(w: RateWindow, now: u64)
    requires
        w.count >= w.max_per_window,
        !window_expired(w, now),
    ensures
        !after_check(w, now).0,
        after_check(w, now).1 == w,
{
}

/// A check after the window has run out counts against a fresh window, so it
/// passes whenever the limit allows any request at all.
pub proof fn law_fresh_window(w: RateWindow, now: u64)
    requires
        window_expired(w, now),
    ensures
        after_check(w, now).0 == (w.max_per_window > 0),
        after_check(w, now).1.start == now,
{
}

// ---------------------------------------------------------------------------
// Authentication and admission
// ---------------------------------------------------------------------------

pub open spec fn opt_str_view(o: Option<&str>) -> Option<Seq<char>> {
    match o {
        Some(s) => Some(s@),
        None => None,
    }
}

/// A request carrying `provided` as its API key is let in: with no key
/// configured only when keys are not required, otherwise only with that key.
pub open spec fn is_authorized(config: GatewayConfig, provided: Option<Seq<char>>) -> bool {
    match config.api_key {
        None => !config.require_api_key,
        Some(expected) => provided == Some(expected@),
    }
}

/// Check the `X-API-Key` value of a request (constant-time comparison).
pub fn authorize(config: &GatewayConfig, provided_key: Option<&str>) -> (r: bool)
    ensures
        r == is_authorized(*config, opt_str_view(provided_key)),
{
    match &config.api_key {
        None => !config.require_api_key,
        Some(expected) => match provided_key {
            Some(provided) => constant_time_eq_str(provided, expected.as_str()),
            None => false,
        },
    }
}

/// Fail closed: when a key is required but none is configured, no request
/// is let in, whatever key it carries.
pub proof fn law_fail_closed(config: GatewayConfig, provided: Option<Seq<char>>)
    requires
        config.require_api_key,
        config.api_key is None,
    ensures
        !is_authorized(config, provided),
{
}

/// With a key configured, exactly the requests carrying that key are let in,
/// whether or not keys are required.
pub proof fn law_configured_key_decides(config: GatewayConfig, provided: Option<Seq<char>>)
    requires
        config.api_key is Some,
    ensures
        is_authorized(config, provided) == (provided == Some(config.api_key.unwrap()@)),
{
}

/// What the gateway does at startup with its key settings.
#[derive(Debug, Clone, Copy, PartialEq, Eq, Structural)]
pub enum StartupKeyCheck {
    /// Keys are required but none is configured: refuse to start.
    Refuse,
    /// No key is configured and none is required: start, with a warning that
    /// ingest is unauthenticated.
    WarnUnauthenticated,
    /// A key is configured: start.
    Start,
}

/// The startup decision for the key settings: a required key that is missing
/// stops the gateway; a missing key that is not required is allowed with a
/// warning.
pub fn startup_key_check(require_api_key: bool, api_key: Option<&str>) -> (r: StartupKeyCheck)
    ensures
        r == (if api_key is Some {
            StartupKeyCheck::Start
        } else if require_api_key {
            StartupKeyCheck::Refuse
        } else {
            StartupKeyCheck::WarnUnauthenticated
        }),
{
    match api_key {
        Some(_) => StartupKeyCheck::Start,
        None => if require_api_key {
            StartupKeyCheck::Refuse
        } else {
            StartupKeyCheck::WarnUnauthenticated
        },
    }
}

/// Why the gateway refuses a request.
#[derive(Debug, Clone, Copy, PartialEq, Eq, Structural)]
pub enum Rejection {
    Unauthorized,
    TooManyRequests,
    BadRequest,
    PayloadTooLarge,
    ServiceUnavailable,
    InternalError,
}

pub open spec fn rejection_status(r: Rejection) -> u16 {
    match r {
        Rejection::Unauthorized => 401,
        Rejection::TooManyRequests => 429,
        Rejection::BadRequest => 400,
        Rejection::PayloadTooLarge => 413,
        Rejection::ServiceUnavailable => 503,
        Rejection::InternalError => 500,
    }
}

impl Rejection {
    /// The HTTP status code the gateway answers with.
    pub fn status_code(&self) -> (r: u16)
        ensures
            r == rejection_status(*self),
    {
        match self {
            Rejection::Unauthorized => 401,
            Rejection::TooManyRequests => 429,
            Rejection::BadRequest => 400,
            Rejection::PayloadTooLarge => 413,
            Rejection::ServiceUnavailable => 503,
            Rejection::InternalError => 500,
        }
    }
}

/// The first two gates of every ingest endpoint: authentication, then the
/// rate limiter, which only requests that pass authentication consume.
pub fn admit_request(
    config: &GatewayConfig,
    provided_key: Option<&str>,
    limiter: &mut RateLimiter,
    now: u64,
) -> (r: Result<(), Rejection>)
    ensures
        !is_authorized(*config, opt_str_view(provided_key)) ==> r == Err::<(), Rejection>(
            Rejection::Unauthorized,
        ) && final(limiter)@ == old(limiter)@,
        is_authorized(*config, opt_str_view(provided_key)) ==> final(limiter)@ == after_check(
            old(limiter)@,
            now,
        ).1 && r == (if after_check(old(limiter)@, now).0 {
            Ok::<(), Rejection>(())
        } else {
            Err(Rejection::TooManyRequests)
        }),
{
    if !authorize(config, provided_key) {
        return Err(Rejection::Unauthorized);
    }
    if !limiter.check(now) {
        return Err(Rejection::TooManyRequests);
    }
    Ok(())
}

/// Check an ingest batch against the gateway's batch limits.
pub fn validate_batch(config: &GatewayConfig, batch: &IngestBatch) -> (r: Result<(), String>)
    ensures
        unit_result_matches(
            r,
            ingest_batch_error(*batch, config.max_events_per_batch, config.max_raw_event_bytes),
        ),
{
    validate_ingest_batch(batch, config.max_events_per_batch, config.max_raw_event_bytes)
}

// ---------------------------------------------------------------------------
// PCAP uploads
// ---------------------------------------------------------------------------

/// The parts of a PCAP upload form that the gateway reads.
#[derive(Debug, Clone, Copy, PartialEq, Eq, Structural)]
pub enum PcapFormField {
    AgentId,
    Hostname,
    Interface,
    Filename,
    Pcap,
    Other,
}

pub open spec fn form_field_of(name: Option<Seq<char>>) -> PcapFormField {
    match name {
        Some(n) => if n == "agent_id"@ {
            PcapFormField::AgentId
        } else if n == "hostname"@ {
            PcapFormField::Hostname
        } else if n == "interface"@ {
            PcapFormField::Interface
        } else if n == "filename"@ {
            PcapFormField::Filename
        } else if n == "pcap"@ {
            PcapFormField::Pcap
        } else {
            PcapFormField::Other
        },
        None => PcapFormField::Other,
    }
}

/// Which part of the form a multipart field with this name fills.
pub fn pcap_form_field(name: Option<&str>) -> (r: PcapFormField)
    ensures
        r == form_field_of(opt_str_view(name)),
{
    match name {
        Some(n) => if crate::text::str_eq(n, "agent_id") {
            PcapFormField::AgentId
        } else if crate::text::str_eq(n, "hostname") {
            PcapFormField::Hostname
        } else if crate::text::str_eq(n, "interface") {
            PcapFormField::Interface
        } else if crate::text::str_eq(n, "filename") {
            PcapFormField::Filename
        } else if crate::text::str_eq(n, "pcap") {
            PcapFormField::Pcap
        } else {
            PcapFormField::Other
        },
        None => PcapFormField::Other,
    }
}

/// The fields of a PCAP upload received so far (a later field of the same
/// name replaces an earlier one).
#[derive(Debug, Clone)]
pub struct PcapForm {
    pub agent_id: Option<String>,
    pub hostname: Option<String>,
    pub interface: Option<String>,
    pub filename: Option<String>,
    pub pcap: Option<Vec<u8>>,
}

/// A complete, checked PCAP upload.
#[derive(Debug, Clone)]
pub struct PcapUpload {
    pub agent_id: String,
    pub hostname: String,
    pub interface: String,
    pub filename: String,
    pub pcap: Vec<u8>,
}

/// The outcome of a finished form: the upload's text fields (the interface
/// defaulting to `unknown`), or the refusal.
pub open spec fn upload_outcome(f: PcapForm) -> Result<(Seq<char>, Seq<char>, Seq<char>, Seq<char>), Rejection> {
    if f.agent_id is None || f.hostname is None || f.filename is None || f.pcap is None {
        Err(Rejection::BadRequest)
    } else {
        let agent_id = f.agent_id.unwrap()@;
        let hostname = f.hostname.unwrap()@;
        let interface = match f.interface {
            Some(i) => i@,
            None => "unknown"@,
        };
        let pcap = f.pcap.unwrap()@;
        if agent_identifier_error(agent_id, "agent_id"@) is Some
            || agent_identifier_error(hostname, "hostname"@) is Some
            || agent_identifier_error(interface, "interface"@) is Some {
            Err(Rejection::BadRequest)
        } else if pcap.len() == 0 || !has_pcap_magic(pcap) {
            Err(Rejection::BadRequest)
        } else {
            Ok((agent_id, hostname, interface, f.filename.unwrap()@))
        }
    }
}

impl PcapForm {
    pub fn new() -> (r: PcapForm)
        ensures
            r.agent_id is None,
            r.hostname is None,
            r.interface is None,
            r.filename is None,
            r.pcap is None,
    {
        PcapForm { agent_id: None, hostname: None, interface: None, filename: None, pcap: None }
    }

    /// Record the text of a form field; the PCAP part and unknown fields are
    /// not text and leave the form as it is.
    pub fn set_text(&mut self, field: PcapFormField, text: String)
        ensures
            final(self).agent_id == (if field == PcapFormField::AgentId {
                Some(text)
            } else {
                old(self).agent_id
            }),
            final(self).hostname == (if field == PcapFormField::Hostname {
                Some(text)
            } else {
                old(self).hostname
            }),
            final(self).interface == (if field == PcapFormField::Interface {
                Some(text)
            } else {
                old(self).interface
            }),
            final(self).filename == (if field == PcapFormField::Filename {
                Some(text)
            } else {
                old(self).filename
            }),
            final(self).pcap == old(self).pcap,
    {
        match field {
            PcapFormField::AgentId => {
                self.agent_id = Some(text);
            },
            PcapFormField::Hostname => {
                self.hostname = Some(text);
            },
            PcapFormField::Interface => {
                self.interface = Some(text);
            },
            PcapFormField::Filename => {
                self.filename = Some(text);
            },
            _ => {},
        }
    }

    /// Record the PCAP bytes, refusing more than `max_pcap_bytes` of them.
    pub fn set_pcap(&mut self, data: Vec<u8>, max_pcap_bytes: usize) -> (r: Result<(), Rejection>)
        ensures
            data.len() > max_pcap_bytes ==> r == Err::<(), Rejection>(Rejection::PayloadTooLarge)
                && *final(self) == *old(self),
            data.len() <= max_pcap_bytes ==> r is Ok && final(self).pcap == Some(data)
                && final(self).agent_id == old(self).agent_id
                && final(self).hostname == old(self).hostname
                && final(self).interface == old(self).interface
                && final(self).filename == old(self).filename,
    {
        if data.len() > max_pcap_bytes {
            return Err(Rejection::PayloadTooLarge);
        }
        self.pcap = Some(data);
        Ok(())
    }

    /// Check a finished form: every required field present, identifiers
    /// well formed, and PCAP data that is not empty and starts with a PCAP magic.
    /// The filename is carried through as given, and the capture's records are
    /// not checked for completeness: this library holds no rule for either.
    pub fn finish(self) -> (r: Result<PcapUpload, Rejection>)
        ensures
            match upload_outcome(self) {
                Ok((a, h, i, f)) => r matches Ok(u) && u.agent_id@ == a && u.hostname@ == h
                    && u.interface@ == i && u.filename@ == f && Some(u.pcap) == self.pcap,
                Err(e) => r == Err::<PcapUpload, Rejection>(e),
            },
    {
        let ghost form = self;
        let agent_id = match self.agent_id {
            Some(a) => a,
            None => {
                return Err(Rejection::BadRequest);
            },
        };
        let hostname = match self.hostname {
            Some(h) => h,
            None => {
                return Err(Rejection::BadRequest);
            },
        };
        let interface = match self.interface {
            Some(i) => i,
            None => "unknown".to_owned(),
        };
        let filename = match self.filename {
            Some(f) => f,
            None => {
                return Err(Rejection::BadRequest);
            },
        };
        let pcap = match self.pcap {
            Some(p) => p,
            None => {
                return Err(Rejection::BadRequest);
            },
        };
        if validate_agent_identifier(agent_id.as_str(), "agent_id").is_err()
            || validate_agent_identifier(hostname.as_str(), "hostname").is_err()
            || validate_agent_identifier(interface.as_str(), "interface").is_err() {
            return Err(Rejection::BadRequest);
        }
        if pcap.len() == 0 || !is_valid_pcap_magic(pcap.as_slice()) {
            return Err(Rejection::BadRequest);
        }
        Ok(PcapUpload { agent_id, hostname, interface, filename, pcap })
    }
}

// ---------------------------------------------------------------------------
// Traffic analysis
// ---------------------------------------------------------------------------

/// Runs the offline analyzers on uploaded PCAPs, with the gateway's settings.
#[derive(Debug, Clone)]
pub struct TrafficAnalyzer {
    pub config: GatewayConfig,
}

impl TrafficAnalyzer {
    pub fn new(config: GatewayConfig) -> (r: TrafficAnalyzer)
        ensures
            r.config == config,
    {
        TrafficAnalyzer { config }
    }

    /// The events of one PCAP: the Zeek events, then the p0f events, then the
    /// fatt events, at most `max_events_per_batch` in all, each in an envelope
    /// for the uploading agent.
    pub fn assemble_events(
        &self,
        agent_id: &str,
        hostname: &str,
        zeek_events: Vec<IngestEvent>,
        p0f_events: Vec<IngestEvent>,
        fatt_events: Vec<IngestEvent>,
    ) -> (r: Vec<NetworkEvent>)
        ensures
            r.len() == if zeek_events.len() + p0f_events.len() + fatt_events.len()
                <= self.config.max_events_per_batch {
                zeek_events.len() + p0f_events.len() + fatt_events.len()
            } else {
                self.config.max_events_per_batch as int
            },
            forall|k: int|
                0 <= k < r.len() ==> is_envelope(
                    #[trigger] r@[k],
                    agent_id@,
                    hostname@,
                    (zeek_events@ + p0f_events@ + fatt_events@)[k],
                ),
    {
        let ghost all_events = zeek_events@ + p0f_events@ + fatt_events@;
        let mut events = zeek_events;
        let mut p0f = p0f_events;
        let mut fatt = fatt_events;
        events.append(&mut p0f);
        events.append(&mut fatt);
        events.truncate(self.config.max_events_per_batch);
        let ghost kept = events@;
        let mut r: Vec<NetworkEvent> = Vec::new();
        for e in it: events.into_iter()
            invariant
                it.seq() == kept,
                kept.len() <= all_events.len(),
                forall|k: int| 0 <= k < kept.len() ==> kept[k] == all_events[k],
                r.len() == it.index(),
                forall|k: int|
                    0 <= k < r.len() ==> is_envelope(#[trigger] r@[k], agent_id@, hostname@, kept[k]),
        {
            r.push(NetworkEvent::from_ingest(agent_id, hostname, e));
        }
        r
    }
}

// ---------------------------------------------------------------------------
// Responses
// ---------------------------------------------------------------------------

/// Body of the liveness endpoint.
#[derive(Debug, Clone)]
pub struct HealthResponse {
    pub status: String,
    pub service: String,
}

pub fn health() -> (r: HealthResponse)
    ensures
        r.status@ == "ok"@,
        r.service@ == "netwatcher-gateway"@,
{
    HealthResponse { status: "ok".to_owned(), service: "netwatcher-gateway".to_owned() }
}

/// Body of a JSON batch ingest: how many events were published of how many.
#[derive(Debug, Clone, Copy)]
pub struct IngestResponse {
    pub accepted: usize,
    pub total: usize,
}

/// Body of a PCAP ingest.
#[derive(Debug, Clone)]
pub struct PcapIngestResponse {
    pub accepted: usize,
    pub zeek_events: usize,
    pub p0f_events: usize,
    pub fatt_events: usize,
    pub filename: String,
}

/// Body of an agent registration.
#[derive(Debug, Clone)]
pub struct RegisterResponse {
    pub agent_id: String,
    pub status: String,
}

/// The answer to a registration of the batch's agent.
pub fn register_response(batch: &IngestBatch) -> (r: RegisterResponse)
    ensures
        r.agent_id@ == batch.agent_id@,
        r.status@ == "registered"@,
{
    RegisterResponse { agent_id: batch.agent_id.clone(), status: "registered".to_owned() }
}

/// The answer to a PCAP ingest that produced `events`, of which `accepted` were published.
pub fn pcap_ingest_response(accepted: usize, events: &Vec<NetworkEvent>, filename: String) -> (r:
    PcapIngestResponse)
    ensures
        r.accepted == accepted,
        r.zeek_events == count_source(events@, EventSource::Zeek),
        r.p0f_events == count_source(events@, EventSource::P0f),
        r.fatt_events == count_source(events@, EventSource::Fatt),
        r.filename == filename,
{
    PcapIngestResponse {
        accepted,
        zeek_events: count_events_from(events, EventSource::Zeek),
        p0f_events: count_events_from(events, EventSource::P0f),
        fatt_events: count_events_from(events, EventSource::Fatt),
        filename,
    }
}

} // verus!
