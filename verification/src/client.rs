//! When the server is asked, and what becomes of its answers.

use crate::json::{get, get_spec, held, json_contents, json_document, parse_json, Json};
use crate::mlx::{
    merge_mlx_telemetry, merge_mlx_telemetry_spec, mlx_metadata_is_empty,
    mlx_metadata_is_empty_spec, parse_mlx_metadata, parse_mlx_runtime_telemetry,
    parse_mlx_sources_spec, present,
};
use crate::model::{LlmTelemetry, MlxTelemetry};
use crate::omlx::{omlx_figures, omlx_status, parse_omlx_telemetry};
use crate::units::{product, product_spec, total, total_spec};
use vstd::prelude::*;

verus! {

/// The longest wait between two attempts, in seconds.
pub const RETRY_MAX: u64 = 30;

/// What has to be done next to fetch a document that asks for a session.
#[derive(Clone, Copy, Debug, PartialEq, Eq, Structural)]
pub enum FetchAction {
    /// Log in.
    Login,
    /// Forget the session, and log in.
    Renew,
    /// Ask for the document.
    Ask,
    /// Read the body of the answer.
    Read,
    /// There is no document.
    GiveUp,
}

/// What has happened.
#[derive(Clone, Copy, Debug, PartialEq, Eq, Structural)]
pub enum FetchEvent {
    /// The fetch begins, with or without a session.
    Begun(bool),
    /// A login was tried; there is a session, or there is none.
    LoggedIn(bool),
    /// The server answered with a status, or did not answer.
    Answered(Option<u16>),
}

/// How far a fetch has come: whether the session was renewed already.
#[derive(Clone, Copy, Debug, PartialEq, Eq, Structural)]
pub struct Fetch {
    pub renewed: bool,
}

/// What follows an event of a fetch. A session that the server refuses is
/// renewed once.
pub open spec fn fetch_spec(fetch: Fetch, event: FetchEvent) -> (Fetch, FetchAction) {
    match event {
        FetchEvent::Begun(session) => (
            Fetch { renewed: false },
            if session {
                FetchAction::Ask
            } else {
                FetchAction::Login
            },
        ),
        FetchEvent::LoggedIn(session) => (
            fetch,
            if session {
                FetchAction::Ask
            } else {
                FetchAction::GiveUp
            },
        ),
        FetchEvent::Answered(status) => if status == Some(401u16) && !fetch.renewed {
            (Fetch { renewed: true }, FetchAction::Renew)
        } else if status == Some(200u16) {
            (fetch, FetchAction::Read)
        } else {
            (fetch, FetchAction::GiveUp)
        },
    }
}

impl Fetch {
    /// A fetch that has not begun.
    pub fn new() -> (result: Fetch)
        ensures
            !result.renewed,
    {
        Fetch { renewed: false }
    }

    /// What follows an event.
    pub fn step(&mut self, event: FetchEvent) -> (action: FetchAction)
        ensures
            (*final(self), action) == fetch_spec(*old(self), event),
    {
        match event {
            FetchEvent::Begun(session) => {
                self.renewed = false;
                if session {
                    FetchAction::Ask
                } else {
                    FetchAction::Login
                }
            },
            FetchEvent::LoggedIn(session) => if session {
                FetchAction::Ask
            } else {
                FetchAction::GiveUp
            },
            FetchEvent::Answered(status) => match status {
                Some(code) => if code == 401 && !self.renewed {
                    self.renewed = true;
                    FetchAction::Renew
                } else if code == 200 {
                    FetchAction::Read
                } else {
                    FetchAction::GiveUp
                },
                None => FetchAction::GiveUp,
            },
        }
    }
}

/// Once a session was renewed, every answer ends the fetch: the server is asked
/// twice at most.
pub proof fn a_fetch_ends_after_one_renewal(fetch: Fetch, status: Option<u16>)
    ensures
        fetch.renewed ==> ({
            let (after, action) = fetch_spec(fetch, FetchEvent::Answered(status));
            after.renewed && (action == FetchAction::Read || action == FetchAction::GiveUp)
        }),
        !fetch.renewed ==> ({
            let (after, action) = fetch_spec(fetch, FetchEvent::Answered(status));
            action == FetchAction::Renew ==> after.renewed
        }),
        fetch_spec(fetch, FetchEvent::Answered(status)).1 == FetchAction::Read <==> status == Some(
            200u16,
        ),
{
}

/// Why a server's health cannot be read.
#[derive(Clone, Copy, Debug, PartialEq, Eq, Structural)]
pub enum HealthError {
    /// It answered with another status.
    Status(u16),
    /// Its answer is not JSON.
    InvalidJson,
    /// Its answer is not that of an oMLX server.
    Unrecognized,
}

/// Whether a document is the health of an oMLX server.
pub open spec fn is_health_spec(health: Json) -> bool {
    get_spec(health, "default_model"@) is Some || get_spec(health, "engine_pool"@) is Some
}

/// Whether a document is the health of an oMLX server.
pub fn is_health(health: &Json) -> (result: bool)
    ensures
        result == is_health_spec(*health),
{
    get(health, "default_model").is_some() || get(health, "engine_pool").is_some()
}

/// What is made of a document that may be a server's health.
pub open spec fn health_result(document: Option<Json>) -> Result<Json, HealthError> {
    match document {
        Some(health) => if is_health_spec(health) {
            Ok(health)
        } else {
            Err(HealthError::Unrecognized)
        },
        None => Err(HealthError::InvalidJson),
    }
}

/// What is made of a document that may be a server's health.
pub fn check_health(document: Option<Json>) -> (result: Result<Json, HealthError>)
    ensures
        result == health_result(document),
{
    match document {
        Some(health) => if is_health(&health) {
            Ok(health)
        } else {
            Err(HealthError::Unrecognized)
        },
        None => Err(HealthError::InvalidJson),
    }
}

/// The document that an answer of the server holds, where it is its health.
pub open spec fn health_read(status: u16, body: Seq<char>) -> Result<Json, HealthError> {
    if status != 200 {
        Err(HealthError::Status(status))
    } else {
        health_result(
            match json_document(body) {
                Some(value) => Some(json_contents(value)),
                None => None,
            },
        )
    }
}

/// Reads a server's health out of its answer.
pub fn read_health(status: u16, body: &str) -> (result: Result<Json, HealthError>)
    ensures
        result == health_read(status, body@),
{
    if status != 200 {
        return Err(HealthError::Status(status));
    }
    check_health(parse_json(body))
}

/// Asks a server again and again, and keeps its last answer. The moments are in
/// nanoseconds of a clock that does not go back.
#[derive(Debug)]
pub struct LlmTelemetryClient {
    pub host: String,
    pub port: u16,
    pub session_cookie: Option<String>,
    pub cached: Option<LlmTelemetry>,
    pub mlx_metadata: MlxTelemetry,
    pub last_stats_available: Option<bool>,
    pub next_metadata_poll: u64,
    pub next_poll: u64,
    pub retry_backoff: u64,
}

/// A moment some seconds later.
pub open spec fn later_spec(now: u64, seconds: u64) -> u64 {
    total_spec(now, product_spec(seconds, 1_000_000_000))
}

fn later(now: u64, seconds: u64) -> (result: u64)
    ensures
        result == later_spec(now, seconds),
{
    total(now, product(seconds, 1_000_000_000))
}

/// What an attempt's outcome makes of a client. An answer is kept and asked for
/// again in a second; after a failure the last answer stays, and each wait is
/// twice as long as the one before, up to half a minute.
pub open spec fn settled(
    client: LlmTelemetryClient,
    now: u64,
    telemetry: Option<LlmTelemetry>,
) -> LlmTelemetryClient {
    match telemetry {
        Some(answer) => LlmTelemetryClient {
            cached: Some(answer),
            retry_backoff: 1,
            next_poll: later_spec(now, 1),
            ..client
        },
        None => LlmTelemetryClient {
            next_poll: later_spec(now, client.retry_backoff),
            retry_backoff: if product_spec(client.retry_backoff, 2) <= RETRY_MAX {
                product_spec(client.retry_backoff, 2)
            } else {
                RETRY_MAX
            },
            ..client
        },
    }
}

/// What the server's word on its device and its settings makes of a client.
/// Where it says something it is asked again in a minute, and else in ten
/// seconds; what was known stays known.
pub open spec fn informed(
    client: LlmTelemetryClient,
    now: u64,
    device: Option<Json>,
    settings: Option<Json>,
) -> LlmTelemetryClient {
    let said = parse_mlx_sources_spec(present(device, settings));
    LlmTelemetryClient {
        mlx_metadata: merge_mlx_telemetry_spec(client.mlx_metadata, said),
        next_metadata_poll: later_spec(
            now,
            if mlx_metadata_is_empty_spec(said) {
                10
            } else {
                60
            },
        ),
        ..client
    }
}

/// Whether telemetry is what the server's health and statistics amount to, with
/// what a client knows of its device, at a time of day.
pub open spec fn composed(
    client: LlmTelemetryClient,
    health: Json,
    stats: Option<Json>,
    observed_at: u64,
    t: LlmTelemetry,
) -> bool {
    &&& t.provider is Some && t.provider.unwrap()@ == "oMLX"@
    &&& t.status is Some && t.status.unwrap()@ == omlx_status(health, stats)
    &&& t == (LlmTelemetry {
        provider: t.provider,
        status: t.status,
        mlx: merge_mlx_telemetry_spec(
            client.mlx_metadata,
            parse_mlx_sources_spec(present(Some(health), stats)),
        ),
        observed_at: Some(observed_at),
        ..omlx_figures(health, stats)
    })
}

impl LlmTelemetryClient {
    /// A client that has not asked yet.
    pub fn new(host: String, port: u16, now: u64) -> (result: LlmTelemetryClient)
        ensures
            result == (LlmTelemetryClient {
                host,
                port,
                session_cookie: None,
                cached: None,
                mlx_metadata: MlxTelemetry::nothing_spec(),
                last_stats_available: None,
                next_metadata_poll: now,
                next_poll: now,
                retry_backoff: 1,
            }),
    {
        LlmTelemetryClient {
            host,
            port,
            session_cookie: None,
            cached: None,
            mlx_metadata: MlxTelemetry::nothing(),
            last_stats_available: None,
            next_metadata_poll: now,
            next_poll: now,
            retry_backoff: 1,
        }
    }

    /// Whether it is time to ask.
    pub fn is_due(&self, now: u64) -> (result: bool)
        ensures
            result == (now >= self.next_poll),
    {
        now >= self.next_poll
    }

    /// Takes the outcome of an attempt in. An answer is kept and asked for again
    /// in a second; after a failure the last answer stays, and each wait is
    /// twice as long as the one before, up to half a minute.
    pub fn settle(&mut self, now: u64, telemetry: Option<LlmTelemetry>)
        ensures
            *final(self) == settled(*old(self), now, telemetry),
    {
        match telemetry {
            Some(answer) => {
                self.cached = Some(answer);
                self.retry_backoff = 1;
                self.next_poll = later(now, 1);
            },
            None => {
                self.next_poll = later(now, self.retry_backoff);
                let doubled: u64 = product(self.retry_backoff, 2);
                self.retry_backoff = if doubled <= RETRY_MAX {
                    doubled
                } else {
                    RETRY_MAX
                };
            },
        }
    }

    /// Notes whether statistics were available, and says whether that is news.
    pub fn note_stats(&mut self, available: bool) -> (news: bool)
        ensures
            news == (old(self).last_stats_available != Some(available)),
            *final(self) == (LlmTelemetryClient {
                last_stats_available: Some(available),
                ..*old(self)
            }),
    {
        let news = match self.last_stats_available {
            Some(known) => known != available,
            None => true,
        };
        self.last_stats_available = Some(available);
        news
    }

    /// Notes that the server's health could not be read.
    pub fn note_unhealthy(&mut self)
        ensures
            *final(self) == (LlmTelemetryClient { last_stats_available: None, ..*old(self) }),
    {
        self.last_stats_available = None;
    }

    /// Whether it is time to ask for the device and the settings.
    pub fn metadata_is_due(&self, now: u64) -> (result: bool)
        ensures
            result == (now >= self.next_metadata_poll),
    {
        now >= self.next_metadata_poll
    }

    /// Takes in what the server says of its device and its settings. Where it
    /// says something it is asked again in a minute, and else in ten seconds;
    /// what was known stays known.
    pub fn take_metadata(&mut self, now: u64, device: Option<&Json>, settings: Option<&Json>)
        ensures
            *final(self) == informed(*old(self), now, held(device), held(settings)),
    {
        let said = parse_mlx_metadata(device, settings);
        let wait: u64 = if mlx_metadata_is_empty(&said) {
            10
        } else {
            60
        };
        self.mlx_metadata = merge_mlx_telemetry(&self.mlx_metadata, &said);
        self.next_metadata_poll = later(now, wait);
    }

    /// The telemetry that the server's health and statistics amount to, with
    /// what is known of its device, at a time of day.
    pub fn compose(
        &self,
        health: &Json,
        stats: Option<&Json>,
        observed_at: u64,
    ) -> (t: LlmTelemetry)
        ensures
            composed(*self, *health, held(stats), observed_at, t),
    {
        let mut t = parse_omlx_telemetry(health, stats);
        t.mlx = merge_mlx_telemetry(
            &self.mlx_metadata,
            &parse_mlx_runtime_telemetry(health, stats),
        );
        t.observed_at = Some(observed_at);
        t
    }
}

/// Whether a client waits a second at least and half a minute at most.
pub open spec fn patient(client: LlmTelemetryClient) -> bool {
    1 <= client.retry_backoff <= RETRY_MAX
}

/// However often the server fails, the wait stays between a second and half a
/// minute, the last answer is kept, and one answer resets the wait.
pub proof fn waits_stay_bounded(
    client: LlmTelemetryClient,
    now: u64,
    telemetry: Option<LlmTelemetry>,
)
    requires
        patient(client),
    ensures
        patient(settled(client, now, telemetry)),
        telemetry is None ==> {
            let after = settled(client, now, telemetry);
            after.cached == client.cached && after.retry_backoff >= client.retry_backoff
        },
        telemetry is Some ==> settled(client, now, telemetry).retry_backoff == 1,
        now + RETRY_MAX * 1_000_000_000 <= u64::MAX ==> now < settled(
            client,
            now,
            telemetry,
        ).next_poll <= now + RETRY_MAX * 1_000_000_000,
{
    assert(client.retry_backoff * 1_000_000_000 <= RETRY_MAX * 1_000_000_000) by (nonlinear_arith)
        requires
            client.retry_backoff <= RETRY_MAX,
    ;
}

/// A document of the server that asks for a session.
#[derive(Clone, Copy, Debug, PartialEq, Eq, Structural)]
pub enum Page {
    Stats,
    DeviceInfo,
    GlobalSettings,
    Settings,
}

impl Page {
    pub open spec fn path_spec(self) -> Seq<char> {
        match self {
            Page::Stats => "/admin/api/stats?scope=session"@,
            Page::DeviceInfo => "/admin/api/device-info"@,
            Page::GlobalSettings => "/admin/api/global-settings"@,
            Page::Settings => "/admin/api/settings"@,
        }
    }

    /// Where the server keeps it.
    pub fn path(self) -> (result: &'static str)
        ensures
            result@ == self.path_spec(),
    {
        match self {
            Page::Stats => "/admin/api/stats?scope=session",
            Page::DeviceInfo => "/admin/api/device-info",
            Page::GlobalSettings => "/admin/api/global-settings",
            Page::Settings => "/admin/api/settings",
        }
    }
}

/// Why a poll failed.
#[derive(Clone, Copy, Debug, PartialEq, Eq, Structural)]
pub enum PollError {
    /// The server did not answer.
    Unreachable,
    /// Its health cannot be read.
    Health(HealthError),
}

/// How far a poll has come.
#[derive(Clone, Copy, Debug, PartialEq, Eq, Structural)]
pub enum PollStage {
    /// The server's health is awaited.
    Health,
    /// A document is awaited.
    Fetching(Page),
    /// Everything has come that there is.
    Answered,
    /// The poll failed.
    Failed(PollError),
}

/// One poll of the server: its health, its statistics and, now and then, its
/// device and its settings.
#[derive(Debug)]
pub struct Poll {
    pub stage: PollStage,
    pub health: Option<Json>,
    pub stats: Option<Json>,
    pub device: Option<Json>,
    /// When the device was asked for.
    pub asked_at: u64,
}

/// What becomes of a poll that awaits the server's health.
pub open spec fn after_health(poll: Poll, health: Result<Json, PollError>) -> Poll {
    match health {
        Ok(document) => Poll {
            stage: PollStage::Fetching(Page::Stats),
            health: Some(document),
            ..poll
        },
        Err(error) => Poll { stage: PollStage::Failed(error), ..poll },
    }
}

/// What becomes of a poll and its client with a document, or without the one
/// that was asked for. The older settings are asked for only where the newer are
/// missing; what the poll does not await changes nothing.
pub open spec fn after_page(
    poll: Poll,
    client: LlmTelemetryClient,
    document: Option<Json>,
    now: u64,
) -> (Poll, LlmTelemetryClient) {
    match poll.stage {
        PollStage::Fetching(Page::Stats) => (
            if now >= client.next_metadata_poll {
                Poll {
                    stage: PollStage::Fetching(Page::DeviceInfo),
                    stats: document,
                    asked_at: now,
                    ..poll
                }
            } else {
                Poll { stage: PollStage::Answered, stats: document, ..poll }
            },
            LlmTelemetryClient { last_stats_available: Some(document is Some), ..client },
        ),
        PollStage::Fetching(Page::DeviceInfo) => (
            Poll { stage: PollStage::Fetching(Page::GlobalSettings), device: document, ..poll },
            client,
        ),
        PollStage::Fetching(Page::GlobalSettings) => if document is Some {
            (
                Poll { stage: PollStage::Answered, ..poll },
                informed(client, poll.asked_at, poll.device, document),
            )
        } else {
            (Poll { stage: PollStage::Fetching(Page::Settings), ..poll }, client)
        },
        PollStage::Fetching(Page::Settings) => (
            Poll { stage: PollStage::Answered, ..poll },
            informed(client, poll.asked_at, poll.device, document),
        ),
        _ => (poll, client),
    }
}

impl Poll {
    /// A poll that awaits the server's health.
    pub fn new() -> (result: Poll)
        ensures
            result == (Poll {
                stage: PollStage::Health,
                health: None,
                stats: None,
                device: None,
                asked_at: 0,
            }),
    {
        Poll { stage: PollStage::Health, health: None, stats: None, device: None, asked_at: 0 }
    }

    /// Takes in the server's answer to the question of its health: a status and
    /// a body, or nothing.
    pub fn health_answered(
        &mut self,
        client: &mut LlmTelemetryClient,
        answer: Option<(u16, String)>,
    )
        ensures
            old(self).stage != PollStage::Health ==> *final(self) == *old(self) && *final(client)
                == *old(client),
            old(self).stage == PollStage::Health ==> {
                let health = match answer {
                    Some(parts) => match health_read(parts.0, parts.1@) {
                        Ok(document) => Ok::<Json, PollError>(document),
                        Err(error) => Err(PollError::Health(error)),
                    },
                    None => Err(PollError::Unreachable),
                };
                &&& *final(self) == after_health(*old(self), health)
                &&& *final(client) == if health is Ok {
                    *old(client)
                } else {
                    LlmTelemetryClient { last_stats_available: None, ..*old(client) }
                }
            },
    {
        if self.stage != PollStage::Health {
            return ;
        }
        match answer {
            Some(parts) => match read_health(parts.0, parts.1.as_str()) {
                Ok(document) => {
                    self.stage = PollStage::Fetching(Page::Stats);
                    self.health = Some(document);
                },
                Err(error) => {
                    self.stage = PollStage::Failed(PollError::Health(error));
                    client.note_unhealthy();
                },
            },
            None => {
                self.stage = PollStage::Failed(PollError::Unreachable);
                client.note_unhealthy();
            },
        }
    }

    /// Takes in the document that was asked for, or that there is none, and says
    /// whether it is news that there are statistics or that there are none.
    pub fn page_fetched(
        &mut self,
        client: &mut LlmTelemetryClient,
        document: Option<Json>,
        now: u64,
    ) -> (news: bool)
        ensures
            (*final(self), *final(client)) == after_page(*old(self), *old(client), document, now),
            news == (old(self).stage == PollStage::Fetching(Page::Stats)
                && old(client).last_stats_available != Some(document is Some)),
    {
        match self.stage {
            PollStage::Fetching(Page::Stats) => {
                let news = client.note_stats(document.is_some());
                self.stats = document;
                if client.metadata_is_due(now) {
                    self.stage = PollStage::Fetching(Page::DeviceInfo);
                    self.asked_at = now;
                } else {
                    self.stage = PollStage::Answered;
                }
                news
            },
            PollStage::Fetching(Page::DeviceInfo) => {
                self.stage = PollStage::Fetching(Page::GlobalSettings);
                self.device = document;
                false
            },
            PollStage::Fetching(Page::GlobalSettings) => {
                if document.is_some() {
                    self.stage = PollStage::Answered;
                    client.take_metadata(self.asked_at, self.device.as_ref(), document.as_ref());
                } else {
                    self.stage = PollStage::Fetching(Page::Settings);
                }
                false
            },
            PollStage::Fetching(Page::Settings) => {
                self.stage = PollStage::Answered;
                client.take_metadata(self.asked_at, self.device.as_ref(), document.as_ref());
                false
            },
            _ => false,
        }
    }

    /// The telemetry that a poll amounts to once everything has come.
    pub fn telemetry(&self, client: &LlmTelemetryClient, observed_at: u64) -> (result: Option<
        LlmTelemetry,
    >)
        ensures
            result is Some <==> self.stage == PollStage::Answered && self.health is Some,
            result is Some ==> composed(
                *client,
                self.health.unwrap(),
                self.stats,
                observed_at,
                result.unwrap(),
            ),
    {
        if self.stage != PollStage::Answered {
            return None;
        }
        match &self.health {
            Some(health) => Some(client.compose(health, self.stats.as_ref(), observed_at)),
            None => None,
        }
    }
}

/// How many answers a poll awaits at most.
pub open spec fn awaited(stage: PollStage) -> nat {
    match stage {
        PollStage::Health => 5,
        PollStage::Fetching(Page::Stats) => 4,
        PollStage::Fetching(Page::DeviceInfo) => 3,
        PollStage::Fetching(Page::GlobalSettings) => 2,
        PollStage::Fetching(Page::Settings) => 1,
        _ => 0,
    }
}

/// Every answer that a poll awaits brings it closer to its end: a poll asks five
/// times at most.
pub proof fn every_answer_advances_a_poll(
    poll: Poll,
    client: LlmTelemetryClient,
    health: Result<Json, PollError>,
    document: Option<Json>,
    now: u64,
)
    ensures
        poll.stage == PollStage::Health ==> awaited(after_health(poll, health).stage) < awaited(
            poll.stage,
        ),
        poll.stage is Fetching ==> awaited(after_page(poll, client, document, now).0.stage)
            < awaited(poll.stage),
{
}


/// A fetch without a session begins with a login, and one with a session with the
/// question. A login leads to the question or to nothing; a refused session is
/// renewed, and the question put again, once in every fetch.
pub proof fn fetches_ask_with_a_session(fetch: Fetch, session: bool)
    ensures
        ({
            let (begun, action) = fetch_spec(fetch, FetchEvent::Begun(session));
            &&& action == FetchAction::Ask <==> session
            &&& action == FetchAction::Login <==> !session
            &&& fetch_spec(begun, FetchEvent::Answered(Some(401))).1 == FetchAction::Renew
            &&& ({
                let (renewed, _) = fetch_spec(begun, FetchEvent::Answered(Some(401)));
                let (again, next) = fetch_spec(renewed, FetchEvent::LoggedIn(session));
                &&& next == FetchAction::Ask <==> session
                &&& next == FetchAction::GiveUp <==> !session
                &&& fetch_spec(again, FetchEvent::Answered(Some(401))).1 == FetchAction::GiveUp
            })
        }),
        fetch_spec(fetch, FetchEvent::Answered(None)).1 == FetchAction::GiveUp,
{
}

/// Each failure is waited out twice as long as the one before, and no longer than
/// half a minute; an answer is shown at once and asked for again a second later.
pub proof fn failures_are_waited_out(
    client: LlmTelemetryClient,
    now: u64,
    then: u64,
    answer: LlmTelemetry,
)
    requires
        patient(client),
        now + 30_000_000_000 <= u64::MAX,
        then + 30_000_000_000 <= u64::MAX,
    ensures
        ({
            let once = settled(client, now, None);
            let twice = settled(once, then, None);
            &&& once.next_poll == now + client.retry_backoff * 1_000_000_000
            &&& twice.next_poll - then == if 2 * (once.next_poll - now) <= 30_000_000_000 {
                2 * (once.next_poll - now)
            } else {
                30_000_000_000
            }
            &&& twice.cached == client.cached
            &&& twice.mlx_metadata == client.mlx_metadata
        }),
        ({
            let told = settled(client, now, Some(answer));
            &&& told.cached == Some(answer)
            &&& told.next_poll == now + 1_000_000_000
            &&& settled(told, then, None).next_poll == then + 1_000_000_000
            &&& settled(told, then, None).cached == Some(answer)
        }),
{
}

/// A poll holds the health and the statistics that the server gave it to its end,
/// and notes whether there were statistics. Device and settings are asked for
/// only when that is due.
pub proof fn polls_keep_what_they_were_given(
    poll: Poll,
    client: LlmTelemetryClient,
    health: Json,
    stats: Option<Json>,
    now: u64,
)
    ensures
        ({
            let asked = after_health(poll, Ok(health));
            let (told, noted) = after_page(asked, client, stats, now);
            &&& asked.stage == PollStage::Fetching(Page::Stats)
            &&& told.health == Some(health)
            &&& told.stats == stats
            &&& noted.last_stats_available == Some(stats is Some)
            &&& noted.cached == client.cached
            &&& noted.mlx_metadata == client.mlx_metadata
            &&& told.stage == PollStage::Answered <==> now < client.next_metadata_poll
            &&& told.stage == PollStage::Fetching(Page::DeviceInfo) <==> now
                >= client.next_metadata_poll
        }),
        after_health(poll, Err(PollError::Unreachable)).stage == PollStage::Failed(
            PollError::Unreachable,
        ),
{
}

/// Device and settings are put together when both were asked for. The older
/// settings are asked for where the newer are missing, and only there. What is
/// known of the device goes with the answers, health and statistics stay, and the
/// next time to ask is a minute on, or ten seconds where the server said nothing.
pub proof fn devices_are_asked_for_in_turn(
    poll: Poll,
    client: LlmTelemetryClient,
    device: Option<Json>,
    settings: Option<Json>,
    older: Option<Json>,
    now: u64,
)
    requires
        poll.stage == PollStage::Fetching(Page::DeviceInfo),
        poll.asked_at + 60_000_000_000 <= u64::MAX,
    ensures
        ({
            let (first, same) = after_page(poll, client, device, now);
            let (second, learned) = after_page(first, same, settings, now);
            let (third, informed) = after_page(second, learned, older, now);
            let last = if settings is Some {
                settings
            } else {
                older
            };
            let said = parse_mlx_sources_spec(present(device, last));
            &&& same == client
            &&& first.stage == PollStage::Fetching(Page::GlobalSettings)
            &&& settings is Some ==> second.stage == PollStage::Answered && informed == learned
            &&& settings is None ==> second.stage == PollStage::Fetching(Page::Settings)
                && learned == client
            &&& third.stage == PollStage::Answered
            &&& third.health == poll.health
            &&& third.stats == poll.stats
            &&& informed.mlx_metadata == merge_mlx_telemetry_spec(client.mlx_metadata, said)
            &&& informed.cached == client.cached
            &&& informed.next_poll == client.next_poll
            &&& informed.next_metadata_poll - poll.asked_at == if mlx_metadata_is_empty_spec(said) {
                10_000_000_000int
            } else {
                60_000_000_000
            }
        }),
{
}

/// A document is a server's health where it tells of a model or of engines, and
/// only an answer with the status of success is looked into.
pub proof fn health_is_told_by_its_fields(health: Json, status: u16, body: Seq<char>)
    ensures
        get_spec(health, "default_model"@) is Some ==> health_result(Some(health)) == Ok::<
            Json,
            HealthError,
        >(health),
        get_spec(health, "engine_pool"@) is Some ==> health_result(Some(health)) == Ok::<
            Json,
            HealthError,
        >(health),
        get_spec(health, "default_model"@) is None && get_spec(health, "engine_pool"@) is None
            ==> health_result(Some(health)) == Err::<Json, HealthError>(HealthError::Unrecognized),
        status != 200 ==> health_read(status, body) == Err::<Json, HealthError>(
            HealthError::Status(status),
        ),
        health_read(200, body) is Ok ==> json_document(body) is Some && health_read(200, body) == Ok::<
            Json,
            HealthError,
        >(json_contents(json_document(body).unwrap())),
{
}
} // verus!
