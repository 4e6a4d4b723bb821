use vstd::prelude::*;

verus! {

use crate::outgoing::OutgoingError;
use crate::req_addr::{be16, zero_addr, ReqAddr, ReqAddrView, SocketAddress};
use crate::socks5::codec::{encode_reply, lemma_reply_frame_form, reply_frame};
use crate::socks5::{get_reason, reason_of, reply_code, Socks5Error};
use vstd::utf8::valid_utf8;

/// The phase a session is in, between the wire operations that the caller
/// performs on its behalf.
#[derive(Debug, PartialEq, Eq)]
pub enum Phase {
    /// Expecting the two greeting bytes: version and method count.
    Greeting,
    /// Expecting `nmethods` method bytes.
    Methods { nmethods: u8 },
    /// Expecting the five-byte request prefix.
    RequestPrefix,
    /// Expecting the remaining address bytes of a request whose prefix
    /// carried this ATYP and this first address byte.
    RequestBody { atyp: u8, b0: u8 },
    /// Waiting for the dispatcher to connect to the parsed destination.
    Dispatching { addr: ReqAddr },
    /// The success reply is out; the byte pipe is running.
    Copying,
    /// The session is over.
    Terminated,
}

/// What happened since the last step: a read completed with exactly the
/// requested bytes, the outbound connect succeeded or failed, the copy
/// stage finished, or the client stream failed.
#[derive(Debug, PartialEq, Eq)]
pub enum Event {
    Bytes(Vec<u8>),
    ConnectOk(SocketAddress),
    ConnectFailed(OutgoingError),
    CopyDone,
    Failed,
}

/// What the caller must do next.
#[derive(Debug, PartialEq, Eq)]
pub enum Next {
    /// Read exactly this many bytes and feed them back as `Bytes`.
    Read(usize),
    /// Connect to this destination and feed back `ConnectOk` or
    /// `ConnectFailed`.
    Connect(ReqAddr),
    /// Splice the two streams and feed back `CopyDone`.
    Splice,
    /// Close the connection; the session is over.
    Close,
}

/// One step's outcome: bytes to write first, if any, then the next action.
#[derive(Debug, PartialEq, Eq)]
pub struct Output {
    pub write: Option<Vec<u8>>,
    pub next: Next,
}

/// The per-connection protocol state machine.  The caller performs the I/O
/// and feeds each outcome in as an `Event`; the machine decides every byte
/// that is written and every action that follows.
pub struct Socks5Session {
    pub phase: Phase,
    /// Whether a five-byte request prefix with the right version byte has
    /// been consumed.
    pub requested: bool,
    /// Whether a reply frame has been emitted.
    pub replied: bool,
}

/// Abstract value of a phase.
#[verifier::ext_equal]
pub enum PhaseView {
    Greeting,
    Methods { nmethods: u8 },
    RequestPrefix,
    RequestBody { atyp: u8, b0: u8 },
    Dispatching { addr: ReqAddrView },
    Copying,
    Terminated,
}

/// Abstract value of an event.
#[verifier::ext_equal]
pub enum EventView {
    Bytes(Seq<u8>),
    ConnectOk(ReqAddrView),
    ConnectFailed(OutgoingError),
    CopyDone,
    Failed,
}

/// Abstract value of a next action.
#[verifier::ext_equal]
pub enum NextView {
    Read(int),
    Connect(ReqAddrView),
    Splice,
    Close,
}

/// Abstract value of a step's outcome.
#[verifier::ext_equal]
pub struct OutputView {
    pub write: Option<Seq<u8>>,
    pub next: NextView,
}

/// Abstract value of a session.
#[verifier::ext_equal]
pub struct SessionView {
    pub phase: PhaseView,
    pub requested: bool,
    pub replied: bool,
}

impl View for Phase {
    type V = PhaseView;

    open spec fn view(&self) -> PhaseView {
        match self {
            Phase::Greeting => PhaseView::Greeting,
            Phase::Methods { nmethods } => PhaseView::Methods { nmethods: *nmethods },
            Phase::RequestPrefix => PhaseView::RequestPrefix,
            Phase::RequestBody { atyp, b0 } => PhaseView::RequestBody { atyp: *atyp, b0: *b0 },
            Phase::Dispatching { addr } => PhaseView::Dispatching { addr: addr@ },
            Phase::Copying => PhaseView::Copying,
            Phase::Terminated => PhaseView::Terminated,
        }
    }
}

impl View for Event {
    type V = EventView;

    open spec fn view(&self) -> EventView {
        match self {
            Event::Bytes(b) => EventView::Bytes(b@),
            Event::ConnectOk(local) => EventView::ConnectOk(local@),
            Event::ConnectFailed(e) => EventView::ConnectFailed(*e),
            Event::CopyDone => EventView::CopyDone,
            Event::Failed => EventView::Failed,
        }
    }
}

impl View for Next {
    type V = NextView;

    open spec fn view(&self) -> NextView {
        match self {
            Next::Read(n) => NextView::Read(*n as int),
            Next::Connect(a) => NextView::Connect(a@),
            Next::Splice => NextView::Splice,
            Next::Close => NextView::Close,
        }
    }
}

impl View for Output {
    type V = OutputView;

    open spec fn view(&self) -> OutputView {
        OutputView {
            write: match &self.write {
                Some(w) => Some(w@),
                None => None,
            },
            next: self.next@,
        }
    }
}

impl View for Socks5Session {
    type V = SessionView;

    open spec fn view(&self) -> SessionView {
        SessionView { phase: self.phase@, requested: self.requested, replied: self.replied }
    }
}

/// Whether the offered method bytes include "no authentication required".
pub open spec fn offers_no_auth(ms: Seq<u8>) -> bool {
    exists|i: int| 0 <= i < ms.len() && ms[i] == 0
}

/// Whether an event carries only well-formed data: a reported local
/// address is a well-formed socket address.
pub open spec fn ev_wf(ev: EventView) -> bool {
    match ev {
        EventView::ConnectOk(a) => a.wf() && a is Ip,
        _ => true,
    }
}

/// A well-formed session: the two flags follow the phase, and a stored
/// destination is well-formed.
impl SessionView {
    pub open spec fn wf(self) -> bool {
        match self.phase {
            PhaseView::Greeting => !self.requested && !self.replied,
            PhaseView::Methods { .. } => !self.requested && !self.replied,
            PhaseView::RequestPrefix => !self.requested && !self.replied,
            PhaseView::RequestBody { .. } => self.requested && !self.replied,
            PhaseView::Dispatching { addr } => addr.wf() && self.requested && !self.replied,
            PhaseView::Copying => self.requested && self.replied,
            PhaseView::Terminated => self.replied ==> self.requested,
        }
    }
}

/// The destination named by the remaining address bytes of a request, given
/// the ATYP and the pre-read first address byte.  `None` when the bytes do
/// not form a valid address of that type.
pub open spec fn parse_body(atyp: u8, b0: u8, rest: Seq<u8>) -> Option<ReqAddrView> {
    if atyp == 1 {
        if rest.len() == 5 {
            Some(
                ReqAddrView::Ip {
                    ip: seq![b0] + rest.subrange(0, 3),
                    port: be16(rest[3], rest[4]),
                },
            )
        } else {
            None
        }
    } else if atyp == 4 {
        if rest.len() == 17 {
            Some(
                ReqAddrView::Ip {
                    ip: seq![b0] + rest.subrange(0, 15),
                    port: be16(rest[15], rest[16]),
                },
            )
        } else {
            None
        }
    } else if atyp == 3 {
        if rest.len() == b0 + 2 && b0 >= 1 && valid_utf8(rest.subrange(0, b0 as int)) {
            Some(
                ReqAddrView::Domain {
                    name: rest.subrange(0, b0 as int),
                    port: be16(rest[b0 as int], rest[b0 + 1]),
                },
            )
        } else {
            None
        }
    } else {
        None
    }
}

/// A terminated session with the flags of `s`.
pub open spec fn terminated(s: SessionView) -> SessionView {
    SessionView { phase: PhaseView::Terminated, ..s }
}

/// A silent close: no write, connection closed.
pub open spec fn silent_close() -> OutputView {
    OutputView { write: None, next: NextView::Close }
}

/// The transition relation of the session machine: the state after the
/// event, and what is written and done on the way.
pub open spec fn step_spec(s: SessionView, ev: EventView) -> (SessionView, OutputView) {
    match (s.phase, ev) {
        (PhaseView::Greeting, EventView::Bytes(b)) => {
            if b.len() == 2 && b[0] == 5 {
                (
                    SessionView { phase: PhaseView::Methods { nmethods: b[1] }, ..s },
                    OutputView { write: None, next: NextView::Read(b[1] as int) },
                )
            } else {
                (terminated(s), silent_close())
            }
        },
        (PhaseView::Methods { nmethods }, EventView::Bytes(ms)) => {
            if ms.len() == nmethods as int {
                if offers_no_auth(ms) {
                    (
                        SessionView { phase: PhaseView::RequestPrefix, ..s },
                        OutputView { write: Some(seq![5u8, 0u8]), next: NextView::Read(5) },
                    )
                } else {
                    (
                        terminated(s),
                        OutputView { write: Some(seq![5u8, 0xffu8]), next: NextView::Close },
                    )
                }
            } else {
                (terminated(s), silent_close())
            }
        },
        (PhaseView::RequestPrefix, EventView::Bytes(b)) => {
            if b.len() != 5 || b[0] != 5 {
                (terminated(s), silent_close())
            } else {
                let s1 = SessionView { requested: true, ..s };
                if b[1] != 1 {
                    (
                        SessionView { phase: PhaseView::Terminated, replied: true, ..s1 },
                        OutputView {
                            write: Some(reply_frame(7, zero_addr())),
                            next: NextView::Close,
                        },
                    )
                } else if b[3] == 1 {
                    (
                        SessionView {
                            phase: PhaseView::RequestBody { atyp: 1, b0: b[4] },
                            ..s1
                        },
                        OutputView { write: None, next: NextView::Read(5) },
                    )
                } else if b[3] == 4 {
                    (
                        SessionView {
                            phase: PhaseView::RequestBody { atyp: 4, b0: b[4] },
                            ..s1
                        },
                        OutputView { write: None, next: NextView::Read(17) },
                    )
                } else if b[3] == 3 && b[4] >= 1 {
                    (
                        SessionView {
                            phase: PhaseView::RequestBody { atyp: 3, b0: b[4] },
                            ..s1
                        },
                        OutputView { write: None, next: NextView::Read(b[4] + 2) },
                    )
                } else {
                    (
                        SessionView { phase: PhaseView::Terminated, replied: true, ..s1 },
                        OutputView {
                            write: Some(reply_frame(8, zero_addr())),
                            next: NextView::Close,
                        },
                    )
                }
            }
        },
        (PhaseView::RequestBody { atyp, b0 }, EventView::Bytes(rest)) => {
            match parse_body(atyp, b0, rest) {
                Some(a) => (
                    SessionView { phase: PhaseView::Dispatching { addr: a }, ..s },
                    OutputView { write: None, next: NextView::Connect(a) },
                ),
                None => (
                    SessionView { phase: PhaseView::Terminated, replied: true, ..s },
                    OutputView { write: Some(reply_frame(8, zero_addr())), next: NextView::Close },
                ),
            }
        },
        (PhaseView::Dispatching { addr }, EventView::ConnectOk(local)) => {
            (
                SessionView { phase: PhaseView::Copying, replied: true, ..s },
                OutputView { write: Some(reply_frame(0, local)), next: NextView::Splice },
            )
        },
        (PhaseView::Dispatching { addr }, EventView::ConnectFailed(e)) => {
            (
                SessionView { phase: PhaseView::Terminated, replied: true, ..s },
                OutputView {
                    write: Some(reply_frame(reply_code(reason_of(e)), addr)),
                    next: NextView::Close,
                },
            )
        },
        (PhaseView::Copying, EventView::CopyDone) => (terminated(s), silent_close()),
        _ => (terminated(s), silent_close()),
    }
}

/// A byte sequence that is a reply frame for some code and some
/// well-formed bound address.
pub open spec fn is_reply(w: Seq<u8>) -> bool {
    exists|code: u8, a: ReqAddrView| a.wf() && w == reply_frame(code, a)
}

/// A two-byte frame (a method-selection answer) is never a reply frame.
proof fn lemma_two_byte_not_reply(w: Seq<u8>)
    requires
        w.len() == 2,
    ensures
        !is_reply(w),
{
    if is_reply(w) {
        let (code, a) = choose|code: u8, a: ReqAddrView| a.wf() && w == reply_frame(code, a);
        lemma_reply_frame_form(code, a);
    }
}

/// A reply frame for a well-formed address is a reply frame.
proof fn lemma_frame_is_reply(code: u8, a: ReqAddrView)
    requires
        a.wf(),
    ensures
        is_reply(reply_frame(code, a)),
{
    assert(a.wf() && reply_frame(code, a) == reply_frame(code, a));
}

/// Every reply frame starts with the version byte 5 and a zero reserved
/// byte, and is longer than a method-selection frame.
pub proof fn lemma_reply_header(w: Seq<u8>)
    requires
        is_reply(w),
    ensures
        w.len() >= 8,
        w[0] == 5,
        w[2] == 0,
{
    let (code, a) = choose|code: u8, a: ReqAddrView| a.wf() && w == reply_frame(code, a);
    lemma_reply_frame_form(code, a);
}

/// Once a reply has been sent, no step unsets the flag.
pub proof fn lemma_replied_monotonic(s: SessionView, ev: EventView)
    ensures
        s.replied ==> step_spec(s, ev).0.replied,
{
}

/// Stepping a well-formed session on a well-formed event keeps the session
/// well-formed.
pub proof fn lemma_step_wf(s: SessionView, ev: EventView)
    requires
        s.wf(),
        ev_wf(ev),
    ensures
        step_spec(s, ev).0.wf(),
{
}

/// A step writes a reply frame exactly when it sets `replied`; together
/// with monotonicity this bounds every session to at most one reply.
pub proof fn lemma_reply_iff_flip(s: SessionView, ev: EventView)
    requires
        s.wf(),
        ev_wf(ev),
    ensures
        (match step_spec(s, ev).1.write {
            Some(w) => is_reply(w),
            None => false,
        }) <==> (!s.replied && step_spec(s, ev).0.replied),
{
    match (s.phase, ev) {
        (PhaseView::Methods { nmethods }, EventView::Bytes(ms)) => {
            if ms.len() == nmethods as int {
                if offers_no_auth(ms) {
                    lemma_two_byte_not_reply(seq![5u8, 0u8]);
                } else {
                    lemma_two_byte_not_reply(seq![5u8, 0xffu8]);
                }
            }
        },
        (PhaseView::RequestPrefix, EventView::Bytes(b)) => {
            if b.len() == 5 && b[0] == 5 {
                if b[1] != 1 {
                    lemma_frame_is_reply(7, zero_addr());
                } else if b[3] == 1 || b[3] == 4 || (b[3] == 3 && b[4] >= 1) {
                } else {
                    lemma_frame_is_reply(8, zero_addr());
                }
            }
        },
        (PhaseView::RequestBody { atyp, b0 }, EventView::Bytes(rest)) => {
            if parse_body(atyp, b0, rest) is None {
                lemma_frame_is_reply(8, zero_addr());
            }
        },
        (PhaseView::Dispatching { addr }, EventView::ConnectOk(local)) => {
            lemma_frame_is_reply(0, local);
        },
        (PhaseView::Dispatching { addr }, EventView::ConnectFailed(e)) => {
            lemma_frame_is_reply(reply_code(reason_of(e)), addr);
        },
        _ => {},
    }
}

/// The `requested` flag is set exactly by the step that consumes a
/// five-byte request prefix carrying the protocol version byte, and once
/// set it is never unset: a reply can only follow an accepted request.
pub proof fn lemma_requested_iff_prefix(s: SessionView, ev: EventView)
    requires
        s.wf(),
    ensures
        s.requested ==> step_spec(s, ev).0.requested,
        (!s.requested && step_spec(s, ev).0.requested) <==> (s.phase is RequestPrefix
            && (ev matches EventView::Bytes(b) && b.len() == 5 && b[0] == 5)),
{
}

/// The session after a whole sequence of events.
pub open spec fn run_spec(s: SessionView, evs: Seq<EventView>) -> SessionView
    decreases evs.len(),
{
    if evs.len() == 0 {
        s
    } else {
        run_spec(step_spec(s, evs[0]).0, evs.drop_first())
    }
}

/// How many reply frames one step writes.
pub open spec fn step_replies(s: SessionView, ev: EventView) -> nat {
    match step_spec(s, ev).1.write {
        Some(w) => if is_reply(w) {
            1nat
        } else {
            0nat
        },
        None => 0nat,
    }
}

/// How many reply frames a whole run writes.
pub open spec fn run_replies(s: SessionView, evs: Seq<EventView>) -> nat
    decreases evs.len(),
{
    if evs.len() == 0 {
        0nat
    } else {
        step_replies(s, evs[0]) + run_replies(step_spec(s, evs[0]).0, evs.drop_first())
    }
}

/// Whether every event of a sequence is well-formed.
pub open spec fn evs_wf(evs: Seq<EventView>) -> bool {
    forall|i: int| 0 <= i < evs.len() ==> ev_wf(evs[i])
}

/// Over any whole run from a well-formed state, the machine stays
/// well-formed, a sent reply stays sent, and the number of reply frames
/// written is exactly one when the run ends with a reply sent that was not
/// yet sent at the start, and zero otherwise: one reply per session that
/// gets one, and never more.
pub proof fn lemma_exactly_one_reply(s: SessionView, evs: Seq<EventView>)
    requires
        s.wf(),
        evs_wf(evs),
    ensures
        run_spec(s, evs).wf(),
        s.replied ==> run_spec(s, evs).replied,
        run_replies(s, evs) == if run_spec(s, evs).replied && !s.replied {
            1nat
        } else {
            0nat
        },
    decreases evs.len(),
{
    if evs.len() > 0 {
        let s2 = step_spec(s, evs[0]).0;
        lemma_step_wf(s, evs[0]);
        lemma_reply_iff_flip(s, evs[0]);
        lemma_replied_monotonic(s, evs[0]);
        assert(evs_wf(evs.drop_first())) by {
            assert(forall|i: int|
                0 <= i < evs.drop_first().len() ==> evs.drop_first()[i] == evs[i + 1]
                    && ev_wf(evs[i + 1]));
        }
        lemma_exactly_one_reply(s2, evs.drop_first());
    }
}

/// No reply frame at all is written in a run in which no request prefix
/// was ever accepted: failures before the request draw no reply.
pub proof fn lemma_no_request_no_reply(s: SessionView, evs: Seq<EventView>)
    requires
        s.wf(),
        evs_wf(evs),
        !s.replied,
        !run_spec(s, evs).requested,
    ensures
        run_replies(s, evs) == 0,
{
    lemma_exactly_one_reply(s, evs);
}

/// A successful connect is answered with the success code and the outbound
/// socket's local address as the bound address.
pub proof fn lemma_success_reply_bound_addr(s: SessionView, local: ReqAddrView)
    requires
        s.phase matches PhaseView::Dispatching { .. },
    ensures
        step_spec(s, EventView::ConnectOk(local)).1.write == Some(reply_frame(0, local)),
        step_spec(s, EventView::ConnectOk(local)).1.next == NextView::Splice,
{
}

/// A failed connect is answered with the classified code and the client's
/// originally requested address as the bound address.
pub proof fn lemma_failure_reply_bound_addr(s: SessionView, addr: ReqAddrView, e: OutgoingError)
    requires
        s.phase == (PhaseView::Dispatching { addr }),
    ensures
        step_spec(s, EventView::ConnectFailed(e)).1.write == Some(
            reply_frame(reply_code(reason_of(e)), addr),
        ),
        step_spec(s, EventView::ConnectFailed(e)).1.next == NextView::Close,
{
}

/// Whether the offered methods include "no authentication required".
fn offers_no_auth_exec(ms: &Vec<u8>) -> (r: bool)
    ensures
        r == offers_no_auth(ms@),
{
    let mut i: usize = 0;
    while i < ms.len()
        invariant
            i <= ms@.len(),
            forall|j: int| 0 <= j < i ==> ms@[j] != 0,
        decreases ms@.len() - i,
    {
        if ms[i] == 0 {
            return true;
        }
        i = i + 1;
    }
    false
}

impl Socks5Session {
    /// A fresh session, expecting the client greeting.
    pub fn new() -> (s: Self)
        ensures
            s@ == (SessionView {
                phase: PhaseView::Greeting,
                requested: false,
                replied: false,
            }),
            s@.wf(),
    {
        Socks5Session { phase: Phase::Greeting, requested: false, replied: false }
    }

    /// The first action: read the two greeting bytes.
    pub fn start(&self) -> (out: Output)
        ensures
            out@ == (OutputView { write: None, next: NextView::Read(2) }),
    {
        Output { write: None, next: Next::Read(2) }
    }

    /// Feeds one event into the machine.  The returned output carries the
    /// bytes to write, if any, and the next action; the machine moves to
    /// the state that `step_spec` names.
    pub fn step(&mut self, ev: Event) -> (out: Output)
        requires
            old(self)@.wf(),
        ensures
            (final(self)@, out@) == step_spec(old(self)@, ev@),
    {
        match ev {
            Event::Bytes(b) => self.on_bytes(b),
            Event::ConnectOk(local) => self.on_connect_ok(local),
            Event::ConnectFailed(e) => self.on_connect_failed(e),
            Event::CopyDone => self.on_other(Ghost(EventView::CopyDone)),
            Event::Failed => self.on_other(Ghost(EventView::Failed)),
        }
    }

    fn on_bytes(&mut self, b: Vec<u8>) -> (out: Output)
        requires
            old(self)@.wf(),
        ensures
            (final(self)@, out@) == step_spec(old(self)@, EventView::Bytes(b@)),
    {
        let ghost pre = self@;
        let ghost evv = EventView::Bytes(b@);
        match &self.phase {
            Phase::Greeting => {
                if b.len() == 2 && b[0] == 5 {
                    let n = b[1];
                    self.phase = Phase::Methods { nmethods: n };
                    let out = Output { write: None, next: Next::Read(n as usize) };
                    proof {
                        assert((self@, out@) =~~= step_spec(pre, evv));
                    }
                    out
                } else {
                    self.close_silently(Ghost(pre), Ghost(evv))
                }
            },
            Phase::Methods { nmethods } => {
                if b.len() == *nmethods as usize {
                    if offers_no_auth_exec(&b) {
                        self.phase = Phase::RequestPrefix;
                        let mut w: Vec<u8> = Vec::new();
                        w.push(5);
                        w.push(0);
                        let out = Output { write: Some(w), next: Next::Read(5) };
                        proof {
                            assert(out@.write.unwrap() =~= seq![5u8, 0u8]);
                            assert((self@, out@) =~~= step_spec(pre, evv));
                        }
                        out
                    } else {
                        self.phase = Phase::Terminated;
                        let mut w: Vec<u8> = Vec::new();
                        w.push(5);
                        w.push(0xff);
                        let out = Output { write: Some(w), next: Next::Close };
                        proof {
                            assert(out@.write.unwrap() =~= seq![5u8, 0xffu8]);
                            assert((self@, out@) =~~= step_spec(pre, evv));
                        }
                        out
                    }
                } else {
                    self.close_silently(Ghost(pre), Ghost(evv))
                }
            },
            Phase::RequestPrefix => {
                if b.len() != 5 || b[0] != 5 {
                    self.close_silently(Ghost(pre), Ghost(evv))
                } else {
                    self.requested = true;
                    if b[1] != 1 {
                        let out = self.reply_and_close(Socks5Error::CommandNotSupported);
                        proof {
                            assert((self@, out@) =~~= step_spec(pre, evv));
                        }
                        out
                    } else if b[3] == 1 {
                        self.phase = Phase::RequestBody { atyp: 1, b0: b[4] };
                        let out = Output { write: None, next: Next::Read(5) };
                        proof {
                            assert((self@, out@) =~~= step_spec(pre, evv));
                        }
                        out
                    } else if b[3] == 4 {
                        self.phase = Phase::RequestBody { atyp: 4, b0: b[4] };
                        let out = Output { write: None, next: Next::Read(17) };
                        proof {
                            assert((self@, out@) =~~= step_spec(pre, evv));
                        }
                        out
                    } else if b[3] == 3 && b[4] >= 1 {
                        self.phase = Phase::RequestBody { atyp: 3, b0: b[4] };
                        let out = Output { write: None, next: Next::Read(b[4] as usize + 2) };
                        proof {
                            assert((self@, out@) =~~= step_spec(pre, evv));
                        }
                        out
                    } else {
                        let out = self.reply_and_close(Socks5Error::AddressTypeNotSupported);
                        proof {
                            assert((self@, out@) =~~= step_spec(pre, evv));
                        }
                        out
                    }
                }
            },
            Phase::RequestBody { atyp, b0 } => {
                let atyp = *atyp;
                let b0 = *b0;
                match Self::parse_body_exec(atyp, b0, &b) {
                    Some(addr) => {
                        let kept = addr.duplicate();
                        self.phase = Phase::Dispatching { addr: kept };
                        let out = Output { write: None, next: Next::Connect(addr) };
                        proof {
                            assert((self@, out@) =~~= step_spec(pre, evv));
                        }
                        out
                    },
                    None => {
                        let out = self.reply_and_close(Socks5Error::AddressTypeNotSupported);
                        proof {
                            assert((self@, out@) =~~= step_spec(pre, evv));
                        }
                        out
                    },
                }
            },
            _ => self.close_silently(Ghost(pre), Ghost(evv)),
        }
    }

    fn on_connect_ok(&mut self, local: SocketAddress) -> (out: Output)
        requires
            old(self)@.wf(),
        ensures
            (final(self)@, out@) == step_spec(old(self)@, EventView::ConnectOk(local@)),
    {
        let ghost pre = self@;
        let ghost evv = EventView::ConnectOk(local@);
        match &self.phase {
            Phase::Dispatching { addr } => {
                let bound = ReqAddr::IP(local);
                let w = encode_reply(Socks5Error::Success, &bound);
                self.phase = Phase::Copying;
                self.replied = true;
                let out = Output { write: Some(w), next: Next::Splice };
                proof {
                    assert((self@, out@) =~~= step_spec(pre, evv));
                }
                out
            },
            _ => self.close_silently(Ghost(pre), Ghost(evv)),
        }
    }

    fn on_connect_failed(&mut self, e: OutgoingError) -> (out: Output)
        requires
            old(self)@.wf(),
        ensures
            (final(self)@, out@) == step_spec(old(self)@, EventView::ConnectFailed(e)),
    {
        let ghost pre = self@;
        let ghost evv = EventView::ConnectFailed(e);
        match &self.phase {
            Phase::Dispatching { addr } => {
                let w = encode_reply(get_reason(&e), addr);
                self.phase = Phase::Terminated;
                self.replied = true;
                let out = Output { write: Some(w), next: Next::Close };
                proof {
                    assert((self@, out@) =~~= step_spec(pre, evv));
                }
                out
            },
            _ => self.close_silently(Ghost(pre), Ghost(evv)),
        }
    }

    fn on_other(&mut self, Ghost(evv): Ghost<EventView>) -> (out: Output)
        requires
            evv is CopyDone || evv is Failed,
        ensures
            (final(self)@, out@) == step_spec(old(self)@, evv),
    {
        let ghost pre = self@;
        self.close_silently(Ghost(pre), Ghost(evv))
    }

    fn close_silently(&mut self, Ghost(pre): Ghost<SessionView>, Ghost(evv): Ghost<EventView>) -> (out:
        Output)
        requires
            old(self)@ == pre,
            step_spec(pre, evv) == (terminated(pre), silent_close()),
        ensures
            (final(self)@, out@) == step_spec(pre, evv),
    {
        self.phase = Phase::Terminated;
        let out = Output { write: None, next: Next::Close };
        proof {
            assert((self@, out@) =~~= step_spec(pre, evv));
        }
        out
    }

    fn reply_and_close(&mut self, code: Socks5Error) -> (out: Output)
        ensures
            final(self)@ == (SessionView {
                phase: PhaseView::Terminated,
                replied: true,
                ..old(self)@
            }),
            out@ == (OutputView {
                write: Some(reply_frame(reply_code(code), zero_addr())),
                next: NextView::Close,
            }),
    {
        let bound = ReqAddr::default();
        let w = encode_reply(code, &bound);
        self.phase = Phase::Terminated;
        self.replied = true;
        let out = Output { write: Some(w), next: Next::Close };
        proof {
            assert(out@ =~~= (OutputView {
                write: Some(reply_frame(reply_code(code), zero_addr())),
                next: NextView::Close,
            }));
        }
        out
    }

    /// Parses the remaining address bytes of a request, per `parse_body`.
    fn parse_body_exec(atyp: u8, b0: u8, rest: &Vec<u8>) -> (r: Option<ReqAddr>)
        ensures
            match r {
                Some(a) => parse_body(atyp, b0, rest@) == Some(a@),
                None => parse_body(atyp, b0, rest@) is None,
            },
    {
        if atyp == 1 {
            if rest.len() != 5 {
                return None;
            }
            let mut full: Vec<u8> = Vec::new();
            full.push(b0);
            let mut i: usize = 0;
            while i < 5
                invariant
                    i <= 5,
                    rest@.len() == 5,
                    full@ =~= seq![b0] + rest@.subrange(0, i as int),
                decreases 5 - i,
            {
                full.push(rest[i]);
                i = i + 1;
            }
            match ReqAddr::parse_address_v4(full.as_slice()) {
                Ok(a) => {
                    proof {
                        assert(full@.subrange(0, 4) =~= seq![b0] + rest@.subrange(0, 3));
                        assert(parse_body(atyp, b0, rest@) == Some(a@));
                    }
                    Some(a)
                },
                Err(_) => None,
            }
        } else if atyp == 4 {
            if rest.len() != 17 {
                return None;
            }
            let mut full: Vec<u8> = Vec::new();
            full.push(b0);
            let mut i: usize = 0;
            while i < 17
                invariant
                    i <= 17,
                    rest@.len() == 17,
                    full@ =~= seq![b0] + rest@.subrange(0, i as int),
                decreases 17 - i,
            {
                full.push(rest[i]);
                i = i + 1;
            }
            match ReqAddr::parse_address_v6(full.as_slice()) {
                Ok(a) => {
                    proof {
                        assert(full@.subrange(0, 16) =~= seq![b0] + rest@.subrange(0, 15));
                        assert(parse_body(atyp, b0, rest@) == Some(a@));
                    }
                    Some(a)
                },
                Err(_) => None,
            }
        } else if atyp == 3 {
            if b0 < 1 || rest.len() != b0 as usize + 2 {
                return None;
            }
            match ReqAddr::parse_domain(b0 as usize, rest.as_slice()) {
                Ok(a) => {
                    proof {
                        assert(parse_body(atyp, b0, rest@) == Some(a@));
                    }
                    Some(a)
                },
                Err(_) => None,
            }
        } else {
            None
        }
    }
}

} // verus!
