//! Fetching the text of an HTTPS URL while following redirects, as a state
//! machine: the caller performs each request it is asked for and hands back
//! the raw response bytes (or the transport error).
use vstd::prelude::*;
use vstd::utf8::{decode_utf8, valid_utf8};
use crate::bangumi_api::{BangumiError, ErrorView};
use crate::http::{
    http_response, join2, parse_http_response_checked, utf8_error_text, utf8_to_str, HttpResponse,
    ResponseOutcome,
};
use crate::num::{dec_digits, push_dec};
use crate::text::push_range;
use crate::url::{parse_https_url, redirect_target, resolve_redirect_url, url_target};

verus! {

/// A GET of one URL with a budget of redirects.
pub struct HttpsGet {
    current: String,
    redirects_left: usize,
    awaiting: bool,
}

/// What the caller is to do next.
pub enum FetchStep {
    /// Connect to `host:port` over TLS, send a GET for `path`, and hand the
    /// whole reply (or the transport error) to [`HttpsGet::on_reply`].
    Fetch { host: String, port: u16, path: String },
    /// The fetch is over.
    Done(Result<String, BangumiError>),
    /// A chunk size in the reply is too large to be counted; the fetch
    /// cannot go on.
    ChunkSizeOverflow,
}

/// The abstract state of an [`HttpsGet`].
pub struct GetView {
    pub current: Seq<char>,
    pub redirects_left: usize,
    pub awaiting: bool,
}

/// The abstract value of a [`FetchStep`].
pub enum StepView {
    Fetch(Seq<char>, u16, Seq<char>),
    Done(Result<Seq<char>, ErrorView>),
    ChunkSizeOverflow,
}

impl View for HttpsGet {
    type V = GetView;

    closed spec fn view(&self) -> GetView {
        GetView { current: self.current@, redirects_left: self.redirects_left, awaiting: self.awaiting }
    }
}

impl View for FetchStep {
    type V = StepView;

    open spec fn view(&self) -> StepView {
        match self {
            FetchStep::Fetch { host, port, path } => StepView::Fetch(host@, *port, path@),
            FetchStep::Done(Ok(s)) => StepView::Done(Ok(s@)),
            FetchStep::Done(Err(e)) => StepView::Done(Err(e@)),
            FetchStep::ChunkSizeOverflow => StepView::ChunkSizeOverflow,
        }
    }
}

/// The request for a URL, or the error that stops it.
pub open spec fn attempt(url: Seq<char>) -> StepView {
    match url_target(url) {
        Ok((h, p, q)) => StepView::Fetch(h, p, q),
        Err(e) => StepView::Done(Err(e)),
    }
}

/// The status codes that are followed as redirects.
pub open spec fn is_redirect(code: u16) -> bool {
    code == 301 || code == 302 || code == 303 || code == 307 || code == 308
}

/// What a parsed response leads to, from state `st`: the text of a 200 body,
/// the next request of a redirect while the budget lasts, or an error.
pub open spec fn after_response(st: GetView, code: u16, location: Option<Seq<char>>, body: Seq<u8>) -> (GetView, StepView) {
    let done = GetView { current: st.current, redirects_left: st.redirects_left, awaiting: false };
    if code == 200 {
        if valid_utf8(body) {
            (done, StepView::Done(Ok(decode_utf8(body))))
        } else {
            (done, StepView::Done(Err(ErrorView::Parse("响应文本编码错误: "@ + utf8_error_text(body)))))
        }
    } else if is_redirect(code) {
        match location {
            None => (done, StepView::Done(Err(ErrorView::Network("HTTP重定向但缺少Location头"@)))),
            Some(loc) => {
                let next = redirect_target(st.current, loc);
                if st.redirects_left == 0 {
                    (
                        GetView { current: next, redirects_left: 0, awaiting: false },
                        StepView::Done(Err(ErrorView::Network("重定向次数过多"@))),
                    )
                } else {
                    let step = attempt(next);
                    (
                        GetView {
                            current: next,
                            redirects_left: (st.redirects_left - 1) as usize,
                            awaiting: step is Fetch,
                        },
                        step,
                    )
                }
            },
        }
    } else if code == 404 {
        (done, StepView::Done(Err(ErrorView::NotFound)))
    } else if code == 429 {
        (done, StepView::Done(Err(ErrorView::RateLimit)))
    } else {
        (done, StepView::Done(Err(ErrorView::Network("HTTP错误: "@ + dec_digits(code as nat)))))
    }
}

/// What a reply leads to, from state `st`.
pub open spec fn after_reply(st: GetView, reply: Result<Seq<u8>, ErrorView>) -> (GetView, StepView) {
    let done = GetView { current: st.current, redirects_left: st.redirects_left, awaiting: false };
    match reply {
        Err(e) => (done, StepView::Done(Err(e))),
        Ok(bytes) => match http_response(bytes) {
            ResponseOutcome::SizeOverflow => (done, StepView::ChunkSizeOverflow),
            ResponseOutcome::Failed(e) => (done, StepView::Done(Err(e))),
            ResponseOutcome::Parsed(v) => after_response(st, v.status_code, v.location, v.body),
        },
    }
}

/// The abstract value of a reply handed back by the caller.
pub open spec fn reply_view(reply: Result<Vec<u8>, BangumiError>) -> Result<Seq<u8>, ErrorView> {
    match reply {
        Ok(b) => Ok(b@),
        Err(e) => Err(e@),
    }
}

/// The step for the current URL.
fn attempt_step(url: &str) -> (r: FetchStep)
    ensures
        r@ == attempt(url@),
{
    match parse_https_url(url) {
        Ok((host, port, path)) => FetchStep::Fetch { host, port, path },
        Err(e) => FetchStep::Done(Err(e)),
    }
}

impl HttpsGet {
    /// Starts fetching `url`, following at most `max_redirects` redirects.
    pub fn start(url: &str, max_redirects: usize) -> (r: (HttpsGet, FetchStep))
        ensures
            r.0@ == (GetView { current: url@, redirects_left: max_redirects, awaiting: r.1 is Fetch }),
            r.1@ == attempt(url@),
    {
        let step = attempt_step(url);
        let awaiting = match step {
            FetchStep::Fetch { .. } => true,
            _ => false,
        };
        (HttpsGet { current: url.to_owned(), redirects_left: max_redirects, awaiting }, step)
    }

    /// Whether a request is out and its reply is expected.
    pub fn is_awaiting(&self) -> (r: bool)
        ensures
            r == self@.awaiting,
    {
        self.awaiting
    }

    /// The URL being fetched.
    pub fn current_url(&self) -> (r: &str)
        ensures
            r@ == self@.current,
    {
        self.current.as_str()
    }

    fn finish(&mut self, r: Result<String, BangumiError>) -> (s: FetchStep)
        ensures
            final(self)@ == (GetView { current: old(self)@.current, redirects_left: old(self)@.redirects_left, awaiting: false }),
            s == FetchStep::Done(r),
    {
        self.awaiting = false;
        FetchStep::Done(r)
    }

    /// Takes the reply to the last request and says what to do next.
    pub fn on_reply(&mut self, reply: Result<Vec<u8>, BangumiError>) -> (r: FetchStep)
        requires
            old(self)@.awaiting,
        ensures
            (final(self)@, r@) == after_reply(old(self)@, reply_view(reply)),
    {
        let bytes = match reply {
            Err(e) => {
                return self.finish(Err(e));
            },
            Ok(b) => b,
        };
        let response: HttpResponse = match parse_http_response_checked(&bytes) {
            None => {
                self.awaiting = false;
                return FetchStep::ChunkSizeOverflow;
            },
            Some(Err(e)) => {
                return self.finish(Err(e));
            },
            Some(Ok(resp)) => resp,
        };
        let code = response.status_code;
        if code == 200 {
            return match utf8_to_str(&response.body) {
                Ok(text) => self.finish(Ok(text.to_owned())),
                Err(m) => self.finish(Err(BangumiError::Parse(join2("响应文本编码错误: ", &m)))),
            };
        }
        if code == 301 || code == 302 || code == 303 || code == 307 || code == 308 {
            let location = match response.location() {
                None => {
                    return self.finish(
                        Err(BangumiError::Network("HTTP重定向但缺少Location头".to_owned())),
                    );
                },
                Some(l) => l,
            };
            let next = resolve_redirect_url(self.current.as_str(), location);
            self.current = next;
            if self.redirects_left == 0 {
                return self.finish(Err(BangumiError::Network("重定向次数过多".to_owned())));
            }
            self.redirects_left = self.redirects_left - 1;
            let step = attempt_step(self.current.as_str());
            self.awaiting = match step {
                FetchStep::Fetch { .. } => true,
                _ => false,
            };
            return step;
        }
        if code == 404 {
            return self.finish(Err(BangumiError::NotFound));
        }
        if code == 429 {
            return self.finish(Err(BangumiError::RateLimit));
        }
        let mut digits: Vec<char> = Vec::new();
        push_dec(&mut digits, code as u64);
        let mut msg = "HTTP错误: ".to_owned();
        push_range(&mut msg, &digits, 0, digits.len());
        assert(digits@.subrange(0, digits@.len() as int) =~= digits@);
        self.finish(Err(BangumiError::Network(msg)))
    }
}

/// The requests a fetch in state `st` goes on to make when it is handed
/// `replies` in turn, not counting the one it awaits.
pub open spec fn requests_after(st: GetView, replies: Seq<Result<Seq<u8>, ErrorView>>) -> nat
    decreases replies.len(),
{
    if replies.len() == 0 || !st.awaiting {
        0
    } else {
        let (next, step) = after_reply(st, replies[0]);
        requests_after(next, replies.drop_first()) + if step is Fetch {
            1nat
        } else {
            0nat
        }
    }
}

/// Each reply that leads to another request spends one redirect, and the
/// fetch then awaits that request's reply.
pub proof fn lemma_follow_up_spends_redirect(st: GetView, reply: Result<Seq<u8>, ErrorView>)
    requires
        st.awaiting,
    ensures
        after_reply(st, reply).1 is Fetch ==> after_reply(st, reply).0.redirects_left < st.redirects_left
            && after_reply(st, reply).0.awaiting,
        !(after_reply(st, reply).1 is Fetch) ==> !after_reply(st, reply).0.awaiting,
{
}

/// Whatever the replies, a fetch started with `max_redirects` makes at most
/// `max_redirects` requests after its first one.
pub proof fn lemma_request_bound(st: GetView, replies: Seq<Result<Seq<u8>, ErrorView>>)
    ensures
        requests_after(st, replies) <= st.redirects_left,
    decreases replies.len(),
{
    if replies.len() > 0 && st.awaiting {
        lemma_follow_up_spends_redirect(st, replies[0]);
        let (next, step) = after_reply(st, replies[0]);
        lemma_request_bound(next, replies.drop_first());
        if !(step is Fetch) {
            assert(!next.awaiting);
            if replies.drop_first().len() > 0 {
                assert(requests_after(next, replies.drop_first()) == 0);
            }
        }
    }
}

// ---------------------------------------------------------------- with a system HTTP client

/// What the caller is to do next when the system's HTTP client (WinHTTP)
/// makes the requests and reads status, `Location` and body separately.
pub enum WinStep {
    /// Send a GET for `path` to `host:port` over TLS and hand its status
    /// code and `Location` header to [`WinHttpGet::on_status`].
    Request { host: String, port: u16, path: String },
    /// Read the whole body of the response and hand it to [`WinHttpGet::on_body`].
    ReadBody,
    /// The fetch is over.
    Done(Result<String, BangumiError>),
}

/// The abstract value of a [`WinStep`].
pub enum WinStepView {
    Request(Seq<char>, u16, Seq<char>),
    ReadBody,
    Done(Result<Seq<char>, ErrorView>),
}

impl View for WinStep {
    type V = WinStepView;

    open spec fn view(&self) -> WinStepView {
        match self {
            WinStep::Request { host, port, path } => WinStepView::Request(host@, *port, path@),
            WinStep::ReadBody => WinStepView::ReadBody,
            WinStep::Done(Ok(s)) => WinStepView::Done(Ok(s@)),
            WinStep::Done(Err(e)) => WinStepView::Done(Err(e@)),
        }
    }
}

/// Where a [`WinHttpGet`] stands.
#[derive(Debug, Copy, Clone, PartialEq, Eq, Structural)]
pub enum WinPhase {
    /// Waiting for the status of the request made.
    AwaitingStatus,
    /// Waiting for the body of a 200 response.
    AwaitingBody,
    /// The fetch is over.
    Over,
}

/// A GET of one URL with a budget of redirects, through a client that
/// reports status and body separately.
pub struct WinHttpGet {
    current: String,
    redirects_left: usize,
    phase: WinPhase,
}

/// The abstract state of a [`WinHttpGet`].
pub struct WinView {
    pub current: Seq<char>,
    pub redirects_left: usize,
    pub phase: WinPhase,
}

impl View for WinHttpGet {
    type V = WinView;

    closed spec fn view(&self) -> WinView {
        WinView { current: self.current@, redirects_left: self.redirects_left, phase: self.phase }
    }
}

/// The request for a URL, or the error that stops it.
pub open spec fn win_attempt(url: Seq<char>) -> WinStepView {
    match url_target(url) {
        Ok((h, p, q)) => WinStepView::Request(h, p, q),
        Err(e) => WinStepView::Done(Err(e)),
    }
}

/// The phase after a step: waiting for a status after a request, over after the end.
pub open spec fn phase_after(step: WinStepView) -> WinPhase {
    match step {
        WinStepView::Request(_, _, _) => WinPhase::AwaitingStatus,
        WinStepView::ReadBody => WinPhase::AwaitingBody,
        WinStepView::Done(_) => WinPhase::Over,
    }
}

/// What a status leads to: the body of a 200 is read; redirects are followed
/// while the budget lasts; other codes end the fetch with their error.
pub open spec fn after_status(st: WinView, code: u32, location: Option<Seq<char>>) -> (WinView, WinStepView) {
    let over = WinView { phase: WinPhase::Over, ..st };
    if code == 301 || code == 302 || code == 303 || code == 307 || code == 308 {
        match location {
            None => (over, WinStepView::Done(Err(ErrorView::Network("HTTP重定向但缺少Location头"@)))),
            Some(loc) => {
                let next = redirect_target(st.current, loc);
                if st.redirects_left == 0 {
                    (
                        WinView { current: next, redirects_left: 0, phase: WinPhase::Over },
                        WinStepView::Done(Err(ErrorView::Network("重定向次数过多"@))),
                    )
                } else {
                    let step = win_attempt(next);
                    (
                        WinView { current: next, redirects_left: (st.redirects_left - 1) as usize, phase: phase_after(step) },
                        step,
                    )
                }
            },
        }
    } else if code == 404 {
        (over, WinStepView::Done(Err(ErrorView::NotFound)))
    } else if code == 429 {
        (over, WinStepView::Done(Err(ErrorView::RateLimit)))
    } else if code != 200 {
        (over, WinStepView::Done(Err(ErrorView::Network("HTTP错误: "@ + dec_digits(code as nat)))))
    } else {
        (WinView { phase: WinPhase::AwaitingBody, ..st }, WinStepView::ReadBody)
    }
}

/// The text of a body, or the error of its encoding.
pub open spec fn body_text(body: Seq<u8>) -> Result<Seq<char>, ErrorView> {
    if valid_utf8(body) {
        Ok(decode_utf8(body))
    } else {
        Err(ErrorView::Parse("响应文本编码错误: "@ + utf8_error_text(body)))
    }
}

/// The step for a URL.
fn win_attempt_step(url: &str) -> (r: WinStep)
    ensures
        r@ == win_attempt(url@),
{
    match parse_https_url(url) {
        Ok((host, port, path)) => WinStep::Request { host, port, path },
        Err(e) => WinStep::Done(Err(e)),
    }
}

/// The phase after a step.
fn phase_of(step: &WinStep) -> (r: WinPhase)
    ensures
        r == phase_after(step@),
{
    match step {
        WinStep::Request { .. } => WinPhase::AwaitingStatus,
        WinStep::ReadBody => WinPhase::AwaitingBody,
        WinStep::Done(_) => WinPhase::Over,
    }
}

impl WinHttpGet {
    /// Starts fetching `url`, following at most `max_redirects` redirects.
    pub fn start(url: &str, max_redirects: usize) -> (r: (WinHttpGet, WinStep))
        ensures
            r.0@ == (WinView { current: url@, redirects_left: max_redirects, phase: phase_after(r.1@) }),
            r.1@ == win_attempt(url@),
    {
        let step = win_attempt_step(url);
        let phase = phase_of(&step);
        (WinHttpGet { current: url.to_owned(), redirects_left: max_redirects, phase }, step)
    }

    /// Where the fetch stands.
    pub fn phase(&self) -> (r: WinPhase)
        ensures
            r == self@.phase,
    {
        self.phase
    }

    /// Takes the status code and `Location` header of the response to the
    /// last request and says what to do next.
    pub fn on_status(&mut self, code: u32, location: Option<String>) -> (r: WinStep)
        requires
            old(self)@.phase == WinPhase::AwaitingStatus,
        ensures
            (final(self)@, r@) == after_status(old(self)@, code, location.deep_view()),
    {
        if code == 301 || code == 302 || code == 303 || code == 307 || code == 308 {
            let loc = match location {
                None => {
                    self.phase = WinPhase::Over;
                    return WinStep::Done(Err(BangumiError::Network("HTTP重定向但缺少Location头".to_owned())));
                },
                Some(l) => l,
            };
            let next = resolve_redirect_url(self.current.as_str(), loc.as_str());
            self.current = next;
            if self.redirects_left == 0 {
                self.phase = WinPhase::Over;
                return WinStep::Done(Err(BangumiError::Network("重定向次数过多".to_owned())));
            }
            self.redirects_left = self.redirects_left - 1;
            let step = win_attempt_step(self.current.as_str());
            self.phase = phase_of(&step);
            return step;
        }
        if code == 404 {
            self.phase = WinPhase::Over;
            return WinStep::Done(Err(BangumiError::NotFound));
        }
        if code == 429 {
            self.phase = WinPhase::Over;
            return WinStep::Done(Err(BangumiError::RateLimit));
        }
        if code != 200 {
            self.phase = WinPhase::Over;
            let mut digits: Vec<char> = Vec::new();
            push_dec(&mut digits, code as u64);
            let mut msg = "HTTP错误: ".to_owned();
            push_range(&mut msg, &digits, 0, digits.len());
            assert(digits@.subrange(0, digits@.len() as int) =~= digits@);
            return WinStep::Done(Err(BangumiError::Network(msg)));
        }
        self.phase = WinPhase::AwaitingBody;
        WinStep::ReadBody
    }

    /// Takes the body of a 200 response and ends the fetch with its text.
    pub fn on_body(&mut self, body: Vec<u8>) -> (r: WinStep)
        requires
            old(self)@.phase == WinPhase::AwaitingBody,
        ensures
            final(self)@ == (WinView { phase: WinPhase::Over, ..old(self)@ }),
            r@ == WinStepView::Done(body_text(body@)),
    {
        self.phase = WinPhase::Over;
        match utf8_to_str(&body) {
            Ok(text) => WinStep::Done(Ok(text.to_owned())),
            Err(m) => WinStep::Done(Err(BangumiError::Parse(join2("响应文本编码错误: ", &m)))),
        }
    }

    /// Ends the fetch with an error of the client (a handle it could not
    /// open, a request it could not send, a body it could not read).
    pub fn on_failure(&mut self, error: BangumiError) -> (r: WinStep)
        ensures
            final(self)@ == (WinView { phase: WinPhase::Over, ..old(self)@ }),
            r@ == WinStepView::Done(Err(error@)),
    {
        self.phase = WinPhase::Over;
        WinStep::Done(Err(error))
    }
}

/// With the system client too, each status that leads to another request
/// spends one redirect.
pub proof fn lemma_status_follow_up_spends_redirect(st: WinView, code: u32, location: Option<Seq<char>>)
    ensures
        after_status(st, code, location).1 is Request ==> after_status(st, code, location).0.redirects_left
            < st.redirects_left,
{
}

/// A step of the system client asks for what a step of the portable fetch
/// asks for: the same request, or the same end.
pub open spec fn same_step(a: StepView, b: WinStepView) -> bool {
    match (a, b) {
        (StepView::Fetch(h, p, q), WinStepView::Request(h2, p2, q2)) => h == h2 && p == p2 && q == q2,
        (StepView::Done(r), WinStepView::Done(r2)) => r == r2,
        _ => false,
    }
}

/// Both fetches stand at the same URL with the same budget of redirects.
pub open spec fn same_state(g: GetView, w: WinView) -> bool {
    g.current == w.current && g.redirects_left == w.redirects_left
}

/// Both fetches start alike: the same first request, or the same error.
pub proof fn lemma_both_clients_start_alike(url: Seq<char>)
    ensures
        same_step(attempt(url), win_attempt(url)),
{
}

/// For the same server response (status, `Location` header and body), the
/// system client does what the portable fetch does: a 200 has its body read
/// and ends in the same text or error; any other status leads both to the
/// same next request or the same error, from the same URL and budget.
pub proof fn lemma_both_clients_agree(
    g: GetView,
    w: WinView,
    code: u16,
    location: Option<Seq<char>>,
    body: Seq<u8>,
)
    requires
        same_state(g, w),
    ensures
        ({
            let (g2, s) = after_response(g, code, location, body);
            let (w2, ws) = after_status(w, code as u32, location);
            &&& same_state(g2, w2)
            &&& if ws is ReadBody {
                s == StepView::Done(body_text(body))
            } else {
                same_step(s, ws)
            }
        }),
{
}

/// Where the portable fetch ends, from state `g` at step `s`, when the
/// server answers its requests in turn with `rs` (status, `Location` header
/// and body of each response): the step it stands at once it stops asking
/// or the responses run out.
pub open spec fn portable_run(g: GetView, s: StepView, rs: Seq<(u16, Option<Seq<char>>, Seq<u8>)>) -> StepView
    decreases rs.len(),
{
    if s is Fetch && rs.len() > 0 {
        let (g2, s2) = after_response(g, rs[0].0, rs[0].1, rs[0].2);
        portable_run(g2, s2, rs.drop_first())
    } else {
        s
    }
}

/// Where the system client ends, from state `w` at step `s`, when the
/// server answers its requests in turn with `rs`: the body of a 200 is read
/// and ends the fetch.
pub open spec fn win_run(w: WinView, s: WinStepView, rs: Seq<(u16, Option<Seq<char>>, Seq<u8>)>) -> WinStepView
    decreases rs.len(),
{
    if s is Request && rs.len() > 0 {
        let (w2, s2) = after_status(w, rs[0].0 as u32, rs[0].1);
        if s2 is ReadBody {
            WinStepView::Done(body_text(rs[0].2))
        } else {
            win_run(w2, s2, rs.drop_first())
        }
    } else {
        s
    }
}

proof fn lemma_runs_agree(g: GetView, s: StepView, w: WinView, ws: WinStepView, rs: Seq<(u16, Option<Seq<char>>, Seq<u8>)>)
    requires
        same_state(g, w),
        same_step(s, ws),
    ensures
        same_step(portable_run(g, s, rs), win_run(w, ws, rs)),
    decreases rs.len(),
{
    if s is Fetch && rs.len() > 0 {
        lemma_both_clients_agree(g, w, rs[0].0, rs[0].1, rs[0].2);
        let (g2, s2) = after_response(g, rs[0].0, rs[0].1, rs[0].2);
        let (w2, ws2) = after_status(w, rs[0].0 as u32, rs[0].1);
        if !(ws2 is ReadBody) {
            lemma_runs_agree(g2, s2, w2, ws2, rs.drop_first());
        } else {
            assert(portable_run(g2, s2, rs.drop_first()) == s2);
        }
    }
}

/// A whole fetch of `url` with `max_redirects` redirects ends alike on
/// both clients when the server gives both the same responses: the same
/// text or error (or, when the responses run out, the same next request).
pub proof fn lemma_both_clients_end_alike(
    url: Seq<char>,
    max_redirects: usize,
    rs: Seq<(u16, Option<Seq<char>>, Seq<u8>)>,
)
    ensures
        same_step(
            portable_run(
                GetView { current: url, redirects_left: max_redirects, awaiting: attempt(url) is Fetch },
                attempt(url),
                rs,
            ),
            win_run(
                WinView { current: url, redirects_left: max_redirects, phase: phase_after(win_attempt(url)) },
                win_attempt(url),
                rs,
            ),
        ),
{
    lemma_both_clients_start_alike(url);
    lemma_runs_agree(
        GetView { current: url, redirects_left: max_redirects, awaiting: attempt(url) is Fetch },
        attempt(url),
        WinView { current: url, redirects_left: max_redirects, phase: phase_after(win_attempt(url)) },
        win_attempt(url),
        rs,
    );
}

} // verus!
