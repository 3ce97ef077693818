use vstd::prelude::*;

use crate::utils::EkError;

verus! {

/// Which data family a request belongs to; the service tells them
/// apart by a tag in the request envelope.
#[derive(Copy, Clone)]
pub enum Direction {
    Datagrid,
    TimeSeries,
}

/// The envelope tag of each data family.
pub open spec fn direction_tag(d: Direction) -> Seq<char> {
    match d {
        Direction::Datagrid => "DataGrid_StandardAsync"@,
        Direction::TimeSeries => "TimeSeries"@,
    }
}

impl Direction {
    /// The envelope tag this direction puts on the wire.
    pub fn as_tag(&self) -> (r: &'static str)
        ensures
            r@ == direction_tag(*self),
    {
        match self {
            Direction::Datagrid => "DataGrid_StandardAsync",
            Direction::TimeSeries => "TimeSeries",
        }
    }
}

/// The session: where the local service listens and the credential
/// every request carries.
pub struct Connection {
    pub app_key: String,
    pub url: String,
    pub port: i16,
}

/// The address text `http://{url}`.
pub open spec fn url_text(c: Connection) -> Seq<char> {
    "http://"@ + c.url@
}

/// The address text `http://{url}:{port}`.
pub open spec fn address_text(c: Connection) -> Seq<char> {
    "http://"@ + c.url@ + ":"@ + crate::strutil::dec_str_signed(c.port as int)
}

impl Connection {
    /// A session for the service at `ip:port`, authenticated by `app_key`.
    pub fn new(app_key: String, ip: String, port: i16) -> (r: Self)
        ensures
            r.app_key@ == app_key@,
            r.url@ == ip@,
            r.port == port,
    {
        Connection { app_key, url: ip, port }
    }

    /// The service address without the port.
    pub fn get_url(&self) -> (r: String)
        ensures
            r@ == url_text(*self),
    {
        let mut out = String::from_str("http://");
        out.append(self.url.as_str());
        out
    }

    /// The service address with the port.
    pub fn get_address(&self) -> (r: String)
        ensures
            r@ == address_text(*self),
    {
        let mut out = String::from_str("http://");
        out.append(self.url.as_str());
        out.append(":");
        let p = crate::strutil::i16_to_string(self.port);
        out.append(p.as_str());
        out
    }

    /// The application credential.
    pub fn get_app_key(&self) -> (r: &String)
        ensures
            r@ == self.app_key@,
    {
        &self.app_key
    }

    /// Adopts the port the service was found listening on.
    pub fn set_port(&mut self, port: i16)
        ensures
            final(self).port == port,
            final(self).app_key@ == old(self).app_key@,
            final(self).url@ == old(self).url@,
    {
        self.port = port;
    }

    /// Where the handshake is posted: `{address}/api/handshake`.
    pub fn handshake_url(&self) -> (r: String)
        ensures
            r@ == address_text(*self) + "/api/handshake"@,
    {
        let mut out = self.get_address();
        out.append("/api/handshake");
        out
    }

    /// Where data requests are posted: `{address}/api/v1/data`.
    pub fn data_url(&self) -> (r: String)
        ensures
            r@ == address_text(*self) + "/api/v1/data"@,
    {
        let mut out = self.get_address();
        out.append("/api/v1/data");
        out
    }

    /// Where the status probe for a candidate port is sent:
    /// `http://{url}:{port}/api/status`.
    pub fn status_url(&self, port: i16) -> (r: String)
        ensures
            r@ == url_text(*self) + ":"@ + crate::strutil::dec_str_signed(port as int)
                + "/api/status"@,
    {
        let mut out = self.get_url();
        out.append(":");
        let p = crate::strutil::i16_to_string(port);
        out.append(p.as_str());
        out.append("/api/status");
        out
    }

    /// The handshake request body: the credential plus fixed scope and
    /// version metadata.
    pub fn handshake_body(&self) -> (r: String)
        ensures
            r@ == handshake_body_text(self.app_key@),
    {
        let mut out = String::from_str("{\"AppKey\":");
        let k = crate::jsontext::json_quote(self.app_key.as_str());
        out.append(k.as_str());
        out.append(",\"AppScope\":\"trapi\",\"ApiVersion\":\"1\"}");
        out
    }
}

/// The handshake body text for a given credential.
pub open spec fn handshake_body_text(app_key: Seq<char>) -> Seq<char> {
    "{\"AppKey\":"@ + crate::jsontext::json_quoted(app_key)
        + ",\"AppScope\":\"trapi\",\"ApiVersion\":\"1\"}"@
}

/// The ten consecutive ports, starting at `start`, on which the local
/// service may be listening; the probe adopts the first that answers.
pub fn port_candidates(start: i16) -> (r: Vec<i16>)
    requires
        start <= 32757,
    ensures
        r@.len() == 10,
        forall|i: int| 0 <= i < 10 ==> (#[trigger] r@[i]) as int == start as int + i,
{
    let mut r: Vec<i16> = Vec::new();
    let mut i: i16 = 0;
    while i < 10
        invariant
            start <= 32757,
            0 <= i <= 10,
            r@.len() == i as int,
            forall|j: int| 0 <= j < i ==> (#[trigger] r@[j]) as int == start as int + j,
        decreases 10 - i,
    {
        r.push(start + i);
        i = i + 1;
    }
    r
}

/// The bearer header value made from a handshake's token field:
/// `Bearer {token}`; a handshake answer without a usable token is an
/// authentication error.
pub fn bearer(token: &Option<String>) -> (r: Result<String, EkError>)
    ensures
        match token {
            Option::Some(t) => r matches Ok(b) && b@ == "Bearer "@ + t@,
            Option::None => r matches Err(e) && e matches EkError::AuthError(m) && m@
                == "Cannot get bearer access token"@,
        },
{
    match token {
        None => Err(EkError::AuthError(String::from_str("Cannot get bearer access token"))),
        Some(t) => {
            let mut out = String::from_str("Bearer ");
            out.append(t.as_str());
            Ok(out)
        },
    }
}

/// The headers every data request carries: a content type, the
/// application credential and, only when a bearer token is held, the
/// authorization header.
pub fn request_headers(app_key: &str, access_token: &Option<String>) -> (r: Vec<(String, String)>)
    ensures
        r@.len() == (if access_token is Some {
            3int
        } else {
            2
        }),
        r@[0].0@ == "CONTENT_TYPE"@ && r@[0].1@ == "application/json"@,
        r@[1].0@ == "x-tr-applicationid"@ && r@[1].1@ == app_key@,
        access_token matches Some(t) ==> r@[2].0@ == "Authorization"@ && r@[2].1@ == t@,
{
    let mut r: Vec<(String, String)> = Vec::new();
    r.push((String::from_str("CONTENT_TYPE"), String::from_str("application/json")));
    r.push((String::from_str("x-tr-applicationid"), String::from_str(app_key)));
    match access_token {
        None => {},
        Some(t) => {
            r.push((String::from_str("Authorization"), t.clone()));
        },
    }
    r
}

/// The request envelope around one payload: the family tag under `E`,
/// the payload under `W`.
pub open spec fn entity_text(tag: Seq<char>, payload: Seq<char>) -> Seq<char> {
    "{\"Entity\":{\"E\":\""@ + tag + "\",\"W\":"@ + payload + "}}"@
}

/// Wraps one payload in the request envelope for its data family.
pub fn entity_assembler(payload: &str, direction: &Direction) -> (r: String)
    ensures
        r@ == entity_text(direction_tag(*direction), payload@),
{
    let mut out = String::from_str("{\"Entity\":{\"E\":\"");
    out.append(direction.as_tag());
    out.append("\",\"W\":");
    out.append(payload);
    out.append("}}");
    out
}

/// The follow-up payload that polls an asynchronous ticket; `ticket` is
/// the ticket's raw JSON text as the service returned it.
pub open spec fn ticket_text(ticket: Seq<char>) -> Seq<char> {
    "{\"requests\":[{\"ticket\":"@ + ticket + "}]}"@
}

/// Renders the ticket-poll payload.
pub fn ticket_payload(ticket: &str) -> (r: String)
    ensures
        r@ == ticket_text(ticket@),
{
    let mut out = String::from_str("{\"requests\":[{\"ticket\":");
    out.append(ticket);
    out.append("}]}");
    out
}

/// Server-reported error codes that are retried or ignored rather
/// than failing the call: one rate/column-unsupported code and two
/// generic server-error codes.
pub open spec fn benign_code(c: u64) -> bool {
    c == 2504 || c == 500 || c == 400
}

/// Tells benign from fatal server-reported error codes.
pub fn is_benign_code(c: u64) -> (r: bool)
    ensures
        r == benign_code(c),
{
    c == 2504 || c == 500 || c == 400
}

/// What one exchange with the service produced for a cross-sectional
/// chunk: no usable answer (a transport failure or a non-success
/// status), a body that would not parse, or a decoded body.
pub enum DgEvent {
    NoResult,
    BadJson(String),
    Body(crate::datagrid::DgBody),
}

/// What the dispatcher should do next with a cross-sectional chunk.
pub enum DgAction {
    Resubmit,
    PollTicket(String),
    Finish(Option<crate::datagrid::DgData>),
    Fail(EkError),
}

/// The dispatch state of one cross-sectional chunk: which attempt is
/// in flight and, once the service answered with a ticket, the ticket
/// being polled.
pub struct DgDispatch {
    pub trial: u8,
    pub ticket: Option<String>,
}

impl DgDispatch {
    /// The state before the first submission.
    pub fn start() -> (r: Self)
        ensures
            r.trial == 1 && r.ticket is None,
    {
        DgDispatch { trial: 1, ticket: None }
    }
}

/// How one cross-sectional exchange outcome advances the dispatch: a
/// parse failure fails the call; no usable answer (and a benign
/// server error likewise) is retried up to five attempts in all and
/// then dropped, or re-polled without limit once a ticket is held; a
/// response with a ticket moves to polling it; a response without one
/// finishes with its data; a fatal or unreadable error code fails the
/// call, naming code and message; a body with neither responses nor
/// error code drops the chunk.
pub open spec fn dg_step_rel(st: DgDispatch, ev: DgEvent, st2: DgDispatch, act: DgAction) -> bool {
    match ev {
        DgEvent::BadJson(m) => act matches DgAction::Fail(e) && (e matches EkError::NoData(mm)
            && mm@ == m@),
        DgEvent::NoResult => match st.ticket {
            Some(tk) => (act matches DgAction::PollTicket(t2) && t2@ == tk@) && (
            st2.ticket matches Some(t3) && t3@ == tk@),
            None => if st.trial < 5 {
                st2.trial == st.trial + 1 && st2.ticket is None && act == DgAction::Resubmit
            } else {
                act matches DgAction::Finish(o) && o is None
            },
        },
        DgEvent::Body(b) => match b {
            crate::datagrid::DgBody::Responses { ticket, data } => match ticket {
                None => act == DgAction::Finish(Some(data)),
                Some(tk) => (act matches DgAction::PollTicket(t2) && t2@ == tk@) && (
                st2.ticket matches Some(t3) && t3@ == tk@),
            },
            crate::datagrid::DgBody::ErrorInfo { code, code_text, message } => match code {
                Some(c) => if benign_code(c) {
                    match st.ticket {
                        Some(tk) => (act matches DgAction::PollTicket(t2) && t2@ == tk@) && (
                        st2.ticket matches Some(t3) && t3@ == tk@),
                        None => if st.trial < 5 {
                            st2.trial == st.trial + 1 && st2.ticket is None && act
                                == DgAction::Resubmit
                        } else {
                            act matches DgAction::Finish(o) && o is None
                        },
                    }
                } else {
                    act matches DgAction::Fail(e) && (e matches EkError::Error(m) && m@
                        == crate::strutil::dec_str(c as int) + ": "@ + message@)
                },
                None => act matches DgAction::Fail(e) && (e matches EkError::Error(m) && m@
                    == "Could not parse as Error Code as u64, "@ + code_text@ + ": "@ + message@),
            },
            crate::datagrid::DgBody::Neither => act matches DgAction::Finish(o) && o is None,
        },
    }
}

/// Advances one cross-sectional chunk's dispatch by one exchange.
pub fn dg_step(st: DgDispatch, ev: DgEvent) -> (r: (DgDispatch, DgAction))
    ensures
        dg_step_rel(st, ev, r.0, r.1),
{
    match ev {
        DgEvent::BadJson(m) => {
            let act = DgAction::Fail(EkError::NoData(m));
            (st, act)
        },
        DgEvent::NoResult => {
            match &st.ticket {
                Some(tk) => {
                    let t2 = tk.clone();
                    let t3 = tk.clone();
                    (DgDispatch { trial: st.trial, ticket: Some(t3) }, DgAction::PollTicket(t2))
                },
                None => {
                    if st.trial < 5 {
                        (
                            DgDispatch { trial: st.trial + 1, ticket: None },
                            DgAction::Resubmit,
                        )
                    } else {
                        (st, DgAction::Finish(None))
                    }
                },
            }
        },
        DgEvent::Body(b) => {
            match b {
                crate::datagrid::DgBody::Responses { ticket, data } => {
                    match ticket {
                        None => (st, DgAction::Finish(Some(data))),
                        Some(tk) => {
                            let t2 = tk.clone();
                            (
                                DgDispatch { trial: st.trial, ticket: Some(tk) },
                                DgAction::PollTicket(t2),
                            )
                        },
                    }
                },
                crate::datagrid::DgBody::ErrorInfo { code, code_text, message } => {
                    match code {
                        Some(c) => {
                            if is_benign_code(c) {
                                match &st.ticket {
                                    Some(tk) => {
                                        let t2 = tk.clone();
                                        let t3 = tk.clone();
                                        (
                                            DgDispatch { trial: st.trial, ticket: Some(t3) },
                                            DgAction::PollTicket(t2),
                                        )
                                    },
                                    None => {
                                        if st.trial < 5 {
                                            (
                                                DgDispatch { trial: st.trial + 1, ticket: None },
                                                DgAction::Resubmit,
                                            )
                                        } else {
                                            (st, DgAction::Finish(None))
                                        }
                                    },
                                }
                            } else {
                                let mut m = crate::strutil::u64_to_string(c);
                                m.append(": ");
                                m.append(message.as_str());
                                (st, DgAction::Fail(EkError::Error(m)))
                            }
                        },
                        None => {
                            let mut m = String::from_str("Could not parse as Error Code as u64, ");
                            m.append(code_text.as_str());
                            m.append(": ");
                            m.append(message.as_str());
                            (st, DgAction::Fail(EkError::Error(m)))
                        },
                    }
                },
                crate::datagrid::DgBody::Neither => (st, DgAction::Finish(None)),
            }
        },
    }
}

/// What one exchange produced for a time-series chunk.
pub enum TsEvent {
    NoResult,
    BadJson(String),
    Body(crate::timeseries::TsBody),
}

/// What the dispatcher should do next with a time-series chunk.
pub enum TsAction {
    Resubmit,
    Finish(Option<crate::timeseries::TsBody>),
    Fail(EkError),
}

/// The dispatch state of one time-series chunk: which attempt is in
/// flight.
pub struct TsDispatch {
    pub trial: u8,
}

impl TsDispatch {
    /// The state before the first submission.
    pub fn start() -> (r: Self)
        ensures
            r.trial == 1,
    {
        TsDispatch { trial: 1 }
    }
}

/// How one time-series exchange outcome advances the dispatch: a
/// parse failure fails the call; no usable answer is retried up to
/// five attempts in all and then dropped; any decoded body finishes
/// the chunk.
pub open spec fn ts_step_rel(st: TsDispatch, ev: TsEvent, st2: TsDispatch, act: TsAction) -> bool {
    match ev {
        TsEvent::BadJson(m) => act matches TsAction::Fail(e) && (e matches EkError::NoData(mm)
            && mm@ == m@),
        TsEvent::NoResult => if st.trial < 5 {
            st2.trial == st.trial + 1 && act == TsAction::Resubmit
        } else {
            act matches TsAction::Finish(o) && o is None
        },
        TsEvent::Body(b) => act == TsAction::Finish(Some(b)),
    }
}

/// Advances one time-series chunk's dispatch by one exchange.
pub fn ts_step(st: TsDispatch, ev: TsEvent) -> (r: (TsDispatch, TsAction))
    ensures
        ts_step_rel(st, ev, r.0, r.1),
{
    match ev {
        TsEvent::BadJson(m) => {
            let act = TsAction::Fail(EkError::NoData(m));
            (st, act)
        },
        TsEvent::NoResult => {
            if st.trial < 5 {
                (TsDispatch { trial: st.trial + 1 }, TsAction::Resubmit)
            } else {
                (st, TsAction::Finish(None))
            }
        },
        TsEvent::Body(b) => (st, TsAction::Finish(Some(b))),
    }
}

/// The chunk outcomes that carried a value, in order; dropped chunks
/// contribute nothing.
pub open spec fn collect_somes<T>(s: Seq<Result<Option<T>, EkError>>) -> Seq<T>
    decreases s.len(),
{
    if s.len() == 0 {
        Seq::empty()
    } else {
        let rest = collect_somes(s.drop_first());
        match s[0] {
            Ok(o) => match o {
                Some(v) => seq![v] + rest,
                None => rest,
            },
            Err(_) => rest,
        }
    }
}

/// The first failed chunk outcome, if any.
pub open spec fn first_err<T>(s: Seq<Result<Option<T>, EkError>>) -> Option<EkError>
    decreases s.len(),
{
    if s.len() == 0 {
        None
    } else {
        match s[0] {
            Err(e) => Some(e),
            Ok(_) => first_err(s.drop_first()),
        }
    }
}

/// Gathers the per-chunk outcomes once every chunk has resolved: the
/// first failure fails the whole call; otherwise the successful
/// payloads come back in chunk order, dropped chunks silently left
/// out.
#[verifier::loop_isolation(false)]
pub fn collect_results<T>(results: Vec<Result<Option<T>, EkError>>) -> (r: Result<Vec<T>, EkError>)
    ensures
        match first_err(results@) {
            Some(e) => r matches Err(e2) && e2 == e,
            None => r matches Ok(v) && v@ == collect_somes(results@),
        },
{
    let ghost orig = results@;
    let mut out: Vec<T> = Vec::new();
    let mut rest = results;
    while rest.len() > 0
        invariant
            first_err(orig) == first_err(rest@),
            collect_somes(orig) == out@ + collect_somes(rest@),
        decreases rest@.len(),
    {
        let ghost before = rest@;
        let x = rest.remove(0);
        proof {
            assert(before.drop_first() =~= rest@);
            assert(before[0] == x);
        }
        match x {
            Err(e) => {
                return Err(e);
            },
            Ok(None) => {},
            Ok(Some(v)) => {
                let ghost pre = out@;
                out.push(v);
                proof {
                    assert(collect_somes(before) == seq![out@.last()] + collect_somes(rest@));
                    assert(out@ + collect_somes(rest@) =~= pre + (seq![out@.last()]
                        + collect_somes(rest@)));
                }
            },
        }
    }
    proof {
        assert(collect_somes(orig) =~= out@);
    }
    Ok(out)
}

} // verus!
