//! What the crawler does after each web request: deliver the page, wait and
//! ask again, or give up. The requests and the waiting are the caller's.
use vstd::prelude::*;
use crate::games::Game;
use crate::text::{chars_of, contains, contains_seq};

verus! {

/// What one request brought back.
pub enum Reply {
    /// The response text.
    Body(String),
    /// The request failed, with the HTTP status if the server sent one, and
    /// the error message.
    Failure { status: Option<u16>, message: String },
}

/// A reply as plain values.
pub enum ReplyView {
    Body(Seq<char>),
    Failure(Option<u16>, Seq<char>),
}

impl View for Reply {
    type V = ReplyView;

    open spec fn view(&self) -> ReplyView {
        match self {
            Reply::Body(b) => ReplyView::Body(b@),
            Reply::Failure { status, message } => ReplyView::Failure(*status, message@),
        }
    }
}

/// What to do next.
pub enum Step {
    /// Wait this many seconds, then request the same URL again.
    Request { wait_secs: u64 },
    /// The page is here; `slow_down` asks for a longer pause between requests
    /// from now on.
    Deliver { body: String, slow_down: bool },
    /// Give up: the page cannot be had.
    Abort,
}

/// A step as plain values.
pub enum StepView {
    Request(u64),
    Deliver(Seq<char>, bool),
    Abort,
}

impl View for Step {
    type V = StepView;

    open spec fn view(&self) -> StepView {
        match self {
            Step::Request { wait_secs } => StepView::Request(*wait_secs),
            Step::Deliver { body, slow_down } => StepView::Deliver(body@, *slow_down),
            Step::Abort => StepView::Abort,
        }
    }
}

/// Where a page request stands.
#[derive(Debug, Clone, Copy, PartialEq, Eq)]
pub enum PagePhase {
    /// The first request is out.
    Fresh,
    /// The network failed with a DNS error; retrying every ten minutes.
    DnsWait,
    /// One retry after the connection was reset.
    ResetRetry,
    /// One retry an hour after the channel was closed.
    ChannelRetry,
    /// One retry an hour after the server asked for fewer requests.
    Throttled,
    /// One retry a minute after any other HTTP error.
    LastTry,
    /// A page was delivered, or the request was given up.
    Finished,
}

/// The state of one page request.
pub struct PageFetch {
    phase: PagePhase,
    first_error: String,
    first_status: Option<u16>,
    recovered: String,
    slow_down: bool,
}

/// A page request as plain values.
pub struct PageFetchView {
    pub phase: PagePhase,
    /// The message of the first failure.
    pub first_error: Seq<char>,
    /// The HTTP status of the first failure.
    pub first_status: Option<u16>,
    /// The text that a retry after a network failure brought back.
    pub recovered: Seq<char>,
    pub slow_down: bool,
}

impl View for PageFetch {
    type V = PageFetchView;

    closed spec fn view(&self) -> PageFetchView {
        PageFetchView {
            phase: self.phase,
            first_error: self.first_error@,
            first_status: self.first_status,
            recovered: self.recovered@,
            slow_down: self.slow_down,
        }
    }
}

/// A request that has just been sent.
pub open spec fn page_start() -> PageFetchView {
    PageFetchView {
        phase: PagePhase::Fresh,
        first_error: Seq::empty(),
        first_status: None,
        recovered: Seq::empty(),
        slow_down: false,
    }
}

/// The request is over: what a network failure's retries brought back is
/// delivered, and nothing at all is a failure.
pub open spec fn page_finish(st: PageFetchView) -> (PageFetchView, StepView) {
    let done = PageFetchView { phase: PagePhase::Finished, ..st };
    if st.recovered.len() == 0 {
        (done, StepView::Abort)
    } else {
        (done, StepView::Deliver(st.recovered, st.slow_down))
    }
}

/// After a reset connection has been retried: a closed channel waits an
/// hour and slows the crawler down.
pub open spec fn page_after_reset(st: PageFetchView) -> (PageFetchView, StepView) {
    if contains_seq(st.first_error, "channel closed"@) {
        (
            PageFetchView { phase: PagePhase::ChannelRetry, slow_down: true, ..st },
            StepView::Request(3600),
        )
    } else {
        page_finish(st)
    }
}

/// After the DNS retries: a reset connection is retried after a second.
pub open spec fn page_after_dns(st: PageFetchView) -> (PageFetchView, StepView) {
    if contains_seq(st.first_error, "Connection reset by peer"@) {
        (PageFetchView { phase: PagePhase::ResetRetry, ..st }, StepView::Request(1))
    } else {
        page_after_reset(st)
    }
}

/// The next state and step of a page request, given what the last request
/// brought back.
pub open spec fn page_step(st: PageFetchView, reply: ReplyView) -> (PageFetchView, StepView) {
    let done = PageFetchView { phase: PagePhase::Finished, ..st };
    match st.phase {
        PagePhase::Fresh => match reply {
            ReplyView::Body(b) => (done, StepView::Deliver(b, false)),
            ReplyView::Failure(None, m) => {
                let failed = PageFetchView { first_error: m, first_status: None, recovered: Seq::empty(), ..st };
                if contains_seq(m, "dns error"@) {
                    (PageFetchView { phase: PagePhase::DnsWait, ..failed }, StepView::Request(600))
                } else {
                    page_after_dns(failed)
                }
            },
            ReplyView::Failure(Some(code), m) => {
                let failed = PageFetchView { first_error: m, first_status: Some(code), ..st };
                if code == 429 || code == 503 {
                    (
                        PageFetchView { phase: PagePhase::Throttled, slow_down: true, ..failed },
                        StepView::Request(3600),
                    )
                } else {
                    (PageFetchView { phase: PagePhase::LastTry, ..failed }, StepView::Request(60))
                }
            },
        },
        PagePhase::DnsWait => match reply {
            ReplyView::Body(b) => page_after_dns(PageFetchView { recovered: b, ..st }),
            ReplyView::Failure(_, m) => if contains_seq(m, "dns error"@) {
                (st, StepView::Request(600))
            } else {
                page_after_dns(st)
            },
        },
        PagePhase::ResetRetry => match reply {
            ReplyView::Body(b) => page_after_reset(PageFetchView { recovered: b, ..st }),
            ReplyView::Failure(_, _) => page_after_reset(st),
        },
        PagePhase::ChannelRetry => match reply {
            ReplyView::Body(b) => page_finish(PageFetchView { recovered: b, ..st }),
            ReplyView::Failure(_, _) => (done, StepView::Abort),
        },
        PagePhase::Throttled => match reply {
            ReplyView::Body(b) => (done, StepView::Deliver(b, st.slow_down)),
            ReplyView::Failure(_, _) => (done, StepView::Abort),
        },
        PagePhase::LastTry => match reply {
            ReplyView::Body(b) => (done, StepView::Deliver(b, st.slow_down)),
            ReplyView::Failure(_, _) => (done, StepView::Abort),
        },
        PagePhase::Finished => (st, StepView::Abort),
    }
}

fn has(s: &String, pat: &str) -> (r: bool)
    ensures
        r == contains_seq(s@, pat@),
{
    let sc = chars_of(s.as_str());
    let pc = chars_of(pat);
    contains(&sc, &pc)
}

impl PageFetch {
    /// The state of a request that has just been sent.
    pub fn new() -> (r: PageFetch)
        ensures
            r@ == page_start(),
    {
        PageFetch {
            phase: PagePhase::Fresh,
            first_error: String::new(),
            first_status: None,
            recovered: String::new(),
            slow_down: false,
        }
    }

    fn finish(&mut self) -> (r: Step)
        ensures
            (final(self)@, r@) == page_finish(old(self)@),
    {
        self.phase = PagePhase::Finished;
        if self.recovered.as_str().is_empty() {
            Step::Abort
        } else {
            Step::Deliver { body: self.recovered.clone(), slow_down: self.slow_down }
        }
    }

    fn after_reset(&mut self) -> (r: Step)
        ensures
            (final(self)@, r@) == page_after_reset(old(self)@),
    {
        if has(&self.first_error, "channel closed") {
            self.phase = PagePhase::ChannelRetry;
            self.slow_down = true;
            Step::Request { wait_secs: 3600 }
        } else {
            self.finish()
        }
    }

    fn after_dns(&mut self) -> (r: Step)
        ensures
            (final(self)@, r@) == page_after_dns(old(self)@),
    {
        if has(&self.first_error, "Connection reset by peer") {
            self.phase = PagePhase::ResetRetry;
            Step::Request { wait_secs: 1 }
        } else {
            self.after_reset()
        }
    }

    /// Takes in what the last request brought back and says what to do next.
    pub fn step(&mut self, reply: Reply) -> (r: Step)
        ensures
            (final(self)@, r@) == page_step(old(self)@, reply@),
    {
        match self.phase {
            PagePhase::Fresh => match reply {
                Reply::Body(b) => {
                    self.phase = PagePhase::Finished;
                    Step::Deliver { body: b, slow_down: false }
                },
                Reply::Failure { status: None, message } => {
                    let dns = has(&message, "dns error");
                    self.first_error = message;
                    self.first_status = None;
                    self.recovered = String::new();
                    if dns {
                        self.phase = PagePhase::DnsWait;
                        Step::Request { wait_secs: 600 }
                    } else {
                        self.after_dns()
                    }
                },
                Reply::Failure { status: Some(code), message } => {
                    self.first_error = message;
                    self.first_status = Some(code);
                    if code == 429 || code == 503 {
                        self.phase = PagePhase::Throttled;
                        self.slow_down = true;
                        Step::Request { wait_secs: 3600 }
                    } else {
                        self.phase = PagePhase::LastTry;
                        Step::Request { wait_secs: 60 }
                    }
                },
            },
            PagePhase::DnsWait => match reply {
                Reply::Body(b) => {
                    self.recovered = b;
                    self.after_dns()
                },
                Reply::Failure { status: _, message } => {
                    if has(&message, "dns error") {
                        Step::Request { wait_secs: 600 }
                    } else {
                        self.after_dns()
                    }
                },
            },
            PagePhase::ResetRetry => match reply {
                Reply::Body(b) => {
                    self.recovered = b;
                    self.after_reset()
                },
                Reply::Failure { .. } => self.after_reset(),
            },
            PagePhase::ChannelRetry => match reply {
                Reply::Body(b) => {
                    self.recovered = b;
                    self.finish()
                },
                Reply::Failure { .. } => {
                    self.phase = PagePhase::Finished;
                    Step::Abort
                },
            },
            PagePhase::Throttled | PagePhase::LastTry => match reply {
                Reply::Body(b) => {
                    self.phase = PagePhase::Finished;
                    Step::Deliver { body: b, slow_down: self.slow_down }
                },
                Reply::Failure { .. } => {
                    self.phase = PagePhase::Finished;
                    Step::Abort
                },
            },
            PagePhase::Finished => Step::Abort,
        }
    }
}


/// What one request to the owned-games API brought back.
pub enum ApiReply {
    /// The response parsed; these are the games it lists.
    Games(Vec<Game>),
    /// The response text is not the expected JSON.
    Unreadable(String),
    /// The request failed, with the HTTP status if the server sent one.
    Failure { status: Option<u16>, message: String },
}

/// An API reply as plain values.
pub enum ApiReplyView {
    Games(Seq<Game>),
    Unreadable(Seq<char>),
    Failure(Option<u16>, Seq<char>),
}

impl View for ApiReply {
    type V = ApiReplyView;

    open spec fn view(&self) -> ApiReplyView {
        match self {
            ApiReply::Games(g) => ApiReplyView::Games(g@),
            ApiReply::Unreadable(b) => ApiReplyView::Unreadable(b@),
            ApiReply::Failure { status, message } => ApiReplyView::Failure(*status, message@),
        }
    }
}

/// What to do next with an owned-games request.
pub enum ApiStep {
    /// Wait this many seconds, then request again.
    Request { wait_secs: u64 },
    /// These are the player's games.
    Deliver(Vec<Game>),
    /// Give up.
    Abort,
}

/// An API step as plain values.
pub enum ApiStepView {
    Request(u64),
    Deliver(Seq<Game>),
    Abort,
}

impl View for ApiStep {
    type V = ApiStepView;

    open spec fn view(&self) -> ApiStepView {
        match self {
            ApiStep::Request { wait_secs } => ApiStepView::Request(*wait_secs),
            ApiStep::Deliver(g) => ApiStepView::Deliver(g@),
            ApiStep::Abort => ApiStepView::Abort,
        }
    }
}

/// Where an owned-games request stands.
#[derive(Debug, Clone, Copy, PartialEq, Eq)]
pub enum GamesPhase {
    /// The first request is out.
    Fresh,
    /// One retry a minute after the gateway answered instead of the API.
    GatewayRetry,
    /// The network failed with a DNS error; retrying every ten minutes.
    DnsWait,
    /// One retry a minute after a gateway time-out status.
    TimeoutRetry,
    /// The games were delivered, or the request was given up.
    Finished,
}

/// The state of one owned-games request.
pub struct GameListFetch {
    pub phase: GamesPhase,
}

/// The next phase and step of an owned-games request.
pub open spec fn games_step(phase: GamesPhase, reply: ApiReplyView) -> (GamesPhase, ApiStepView) {
    let done = GamesPhase::Finished;
    match phase {
        GamesPhase::Fresh => match reply {
            ApiReplyView::Games(g) => (done, ApiStepView::Deliver(g)),
            ApiReplyView::Unreadable(b) => if contains_seq(b, "502 Bad Gateway"@) || contains_seq(
                b,
                "504 Gateway Time-out"@,
            ) {
                (GamesPhase::GatewayRetry, ApiStepView::Request(60))
            } else {
                (done, ApiStepView::Abort)
            },
            ApiReplyView::Failure(None, m) => if contains_seq(m, "dns error"@) {
                (GamesPhase::DnsWait, ApiStepView::Request(600))
            } else {
                (done, ApiStepView::Deliver(Seq::empty()))
            },
            ApiReplyView::Failure(Some(code), _) => if code == 504 {
                (GamesPhase::TimeoutRetry, ApiStepView::Request(60))
            } else {
                (done, ApiStepView::Abort)
            },
        },
        GamesPhase::DnsWait => match reply {
            ApiReplyView::Games(g) => (done, ApiStepView::Deliver(g)),
            ApiReplyView::Unreadable(_) => (done, ApiStepView::Abort),
            ApiReplyView::Failure(_, m) => if contains_seq(m, "dns error"@) {
                (GamesPhase::DnsWait, ApiStepView::Request(600))
            } else {
                (done, ApiStepView::Deliver(Seq::empty()))
            },
        },
        GamesPhase::GatewayRetry | GamesPhase::TimeoutRetry => match reply {
            ApiReplyView::Games(g) => (done, ApiStepView::Deliver(g)),
            _ => (done, ApiStepView::Abort),
        },
        GamesPhase::Finished => (done, ApiStepView::Abort),
    }
}

impl GameListFetch {
    /// The state of a request that has just been sent.
    pub fn new() -> (r: GameListFetch)
        ensures
            r.phase == GamesPhase::Fresh,
    {
        GameListFetch { phase: GamesPhase::Fresh }
    }

    /// Takes in what the last request brought back and says what to do next.
    pub fn step(&mut self, reply: ApiReply) -> (r: ApiStep)
        ensures
            (final(self).phase, r@) == games_step(old(self).phase, reply@),
    {
        let (phase, step) = match self.phase {
            GamesPhase::Fresh => match reply {
                ApiReply::Games(g) => (GamesPhase::Finished, ApiStep::Deliver(g)),
                ApiReply::Unreadable(b) => {
                    if has(&b, "502 Bad Gateway") || has(&b, "504 Gateway Time-out") {
                        (GamesPhase::GatewayRetry, ApiStep::Request { wait_secs: 60 })
                    } else {
                        (GamesPhase::Finished, ApiStep::Abort)
                    }
                },
                ApiReply::Failure { status: None, message } => {
                    if has(&message, "dns error") {
                        (GamesPhase::DnsWait, ApiStep::Request { wait_secs: 600 })
                    } else {
                        (GamesPhase::Finished, ApiStep::Deliver(Vec::new()))
                    }
                },
                ApiReply::Failure { status: Some(code), .. } => {
                    if code == 504 {
                        (GamesPhase::TimeoutRetry, ApiStep::Request { wait_secs: 60 })
                    } else {
                        (GamesPhase::Finished, ApiStep::Abort)
                    }
                },
            },
            GamesPhase::DnsWait => match reply {
                ApiReply::Games(g) => (GamesPhase::Finished, ApiStep::Deliver(g)),
                ApiReply::Unreadable(_) => (GamesPhase::Finished, ApiStep::Abort),
                ApiReply::Failure { message, .. } => {
                    if has(&message, "dns error") {
                        (GamesPhase::DnsWait, ApiStep::Request { wait_secs: 600 })
                    } else {
                        (GamesPhase::Finished, ApiStep::Deliver(Vec::new()))
                    }
                },
            },
            GamesPhase::GatewayRetry | GamesPhase::TimeoutRetry => match reply {
                ApiReply::Games(g) => (GamesPhase::Finished, ApiStep::Deliver(g)),
                _ => (GamesPhase::Finished, ApiStep::Abort),
            },
            GamesPhase::Finished => (GamesPhase::Finished, ApiStep::Abort),
        };
        self.phase = phase;
        step
    }
}


/// The reason a request slows the crawler down: the server answered "too
/// many requests" or "service unavailable", or the network reported a closed
/// channel.
pub open spec fn slow_down_cause(st: PageFetchView) -> bool {
    st.first_status == Some(429u16) || st.first_status == Some(503u16) || contains_seq(
        st.first_error,
        "channel closed"@,
    )
}

/// A request slows the crawler down only for a reason, and a fresh request
/// has none yet.
pub open spec fn page_fetch_inv(st: PageFetchView) -> bool {
    &&& st.slow_down ==> slow_down_cause(st)
    &&& st.phase == PagePhase::Fresh ==> !st.slow_down
}

/// A page that comes back on the first request is delivered unchanged, and
/// the crawler keeps its pace.
pub proof fn law_first_page_delivered(b: Seq<char>)
    ensures
        page_step(page_start(), ReplyView::Body(b)).1 == StepView::Deliver(b, false),
        page_step(page_start(), ReplyView::Body(b)).0.phase == PagePhase::Finished,
{
}

/// A request ends at most once: delivering or giving up finishes it, and a
/// finished request only gives up, unchanged.
pub proof fn law_page_ends_once(st: PageFetchView, reply: ReplyView)
    ensures
        !(page_step(st, reply).1 is Request) ==> page_step(st, reply).0.phase == PagePhase::Finished,
        st.phase == PagePhase::Finished ==> page_step(st, reply) == (st, StepView::Abort),
{
}

/// The crawler slows down only when the server throttled it or the channel
/// was closed: every request starts without a reason to, each step keeps
/// that so, and a delivery that asks to slow down has its reason.
pub proof fn law_slow_down_has_cause(st: PageFetchView, reply: ReplyView)
    requires
        page_fetch_inv(st),
    ensures
        page_fetch_inv(page_start()),
        page_fetch_inv(page_step(st, reply).0),
        page_step(st, reply).1 matches StepView::Deliver(_, true) ==> slow_down_cause(
            page_step(st, reply).0,
        ),
{
}

/// After a network failure (one without an HTTP status) an empty page is
/// never delivered: the request is given up instead.
pub proof fn law_no_empty_page_after_network_failure(st: PageFetchView, reply: ReplyView)
    requires
        (st.phase == PagePhase::Fresh && reply matches ReplyView::Failure(None, _))
            || st.phase == PagePhase::DnsWait || st.phase == PagePhase::ResetRetry || st.phase
            == PagePhase::ChannelRetry,
    ensures
        page_step(st, reply).1 matches StepView::Deliver(b, _) ==> b.len() > 0,
{
}

/// While the network keeps failing with a DNS error the request is retried
/// every ten minutes, and nothing else changes.
pub proof fn law_dns_failures_keep_waiting(st: PageFetchView, status: Option<u16>, m: Seq<char>)
    requires
        st.phase == PagePhase::DnsWait,
        contains_seq(m, "dns error"@),
    ensures
        page_step(st, ReplyView::Failure(status, m)) == (st, StepView::Request(600)),
{
}

/// Games that the API lists on the first request are delivered unchanged.
pub proof fn law_first_games_delivered(g: Seq<Game>)
    ensures
        games_step(GamesPhase::Fresh, ApiReplyView::Games(g)) == (
            GamesPhase::Finished,
            ApiStepView::Deliver(g),
        ),
{
}

/// A network failure that is not a DNS error yields an empty game list
/// rather than an error.
pub proof fn law_network_failure_no_games(phase: GamesPhase, m: Seq<char>)
    requires
        phase == GamesPhase::Fresh || phase == GamesPhase::DnsWait,
        !contains_seq(m, "dns error"@),
    ensures
        games_step(phase, ApiReplyView::Failure(None, m)) == (
            GamesPhase::Finished,
            ApiStepView::Deliver(Seq::empty()),
        ),
{
}

/// An owned-games request ends at most once, and a retry after a gateway
/// problem is the last request.
pub proof fn law_games_end_once(phase: GamesPhase, reply: ApiReplyView)
    ensures
        !(games_step(phase, reply).1 is Request) ==> games_step(phase, reply).0
            == GamesPhase::Finished,
        phase == GamesPhase::Finished ==> games_step(phase, reply).1 == ApiStepView::Abort,
        phase == GamesPhase::GatewayRetry || phase == GamesPhase::TimeoutRetry ==> !(games_step(
            phase,
            reply,
        ).1 is Request),
{
}

} // verus!
