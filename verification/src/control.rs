//! Local control socket: status / on / off / quit.
//!
//! Wire format: u32 LE length + JSON body.
//! Request:  {"op":"status"|"on"|"off"|"quit"}
//! Response: {"ok":true,"status":{…}} | {"ok":false,"error":"…"}

use crate::stats::{RuntimeStats, StatusSnapshot};
use crate::text;
use crate::wire;
use vstd::prelude::*;

verus! {

/// Where the control socket is, unless told otherwise.
pub const DEFAULT_CONTROL_SOCKET: &'static str = "/run/soulvpn/control.sock";

/// Longest body of a frame.
pub const MAX_FRAME: usize = 1048576;

/// A request.
#[derive(Debug)]
pub struct Request {
    pub op: String,
}

/// A response.
#[derive(Debug)]
pub struct Response {
    pub ok: bool,
    pub status: Option<StatusSnapshot>,
    pub error: Option<String>,
    pub message: Option<String>,
}

/// Why a request fails.
#[derive(Debug)]
pub enum ControlError {
    /// A frame that is empty or too long.
    FrameLength(usize),
    /// The daemon refused, with this reason.
    Refused(String),
    /// The daemon sent no status.
    NoStatus,
}

/// The operation that turns the data plane on or off, if it is one.
pub open spec fn switches(op: Seq<char>) -> Option<bool> {
    if op == "on"@ {
        Some(true)
    } else if op == "off"@ {
        Some(false)
    } else {
        None
    }
}

/// Whether there is an operation of this name.
pub open spec fn is_known(op: Seq<char>) -> bool {
    op == "status"@ || op == "quit"@ || switches(op) is Some
}

/// The statistics after a request for `op`.
pub open spec fn after_op(stats: RuntimeStats, op: Seq<char>, now_ms: u64) -> RuntimeStats {
    match switches(op) {
        Some(on) if stats.enabled != on => RuntimeStats {
            enabled: on,
            last_activity_ms: now_ms,
            ..stats
        },
        _ => stats,
    }
}

/// What is told to the enable hook: the new state, where a request for `op`
/// changes it.
pub open spec fn hook_call(stats: RuntimeStats, op: Seq<char>) -> Option<bool> {
    match switches(op) {
        Some(on) if stats.enabled != on => Some(on),
        _ => None,
    }
}

/// Whether `r` answers a request for `op` that left the statistics `stats`.
pub open spec fn answers(
    r: Response,
    stats: RuntimeStats,
    op: Seq<char>,
    now: u64,
    pid: u32,
) -> bool {
    if is_known(op) {
        &&& r.ok
        &&& r.error is None
        &&& r.status matches Some(snapshot) && stats.shown_as(snapshot, now, pid)
        &&& match switches(op) {
            Some(on) => r.message matches Some(text) && text@ == if on {
                "enabled"@
            } else {
                "disabled"@
            },
            None => r.message is None,
        }
    } else {
        &&& !r.ok
        &&& r.status is None
        &&& r.message is None
        &&& r.error matches Some(text) && text@ == "unknown op: "@ + op
    }
}

/// Tells whether the daemon is to end once the request is answered.
pub fn ends_daemon(req: &Request) -> (r: bool)
    ensures
        r == (req.op@ == "quit"@),
{
    text::same(req.op.as_str(), "quit")
}

/// Answers a request. Beside the response stands what the enable hook is told.
pub fn handle_request(
    req: &Request,
    stats: &mut RuntimeStats,
    now: u64,
    now_ms: u64,
    pid: u32,
) -> (r: (Response, Option<bool>))
    ensures
        *final(stats) == after_op(*old(stats), req.op@, now_ms),
        r.1 == hook_call(*old(stats), req.op@),
        answers(r.0, *final(stats), req.op@, now, pid),
{
    proof {
        reveal_strlit("status");
        reveal_strlit("on");
        reveal_strlit("off");
        reveal_strlit("quit");
        assert("on"@.len() == 2 && "off"@.len() == 3 && "status"@.len() == 6);
        assert("quit"@.len() == 4);
    }
    let op: &str = req.op.as_str();
    if text::same(op, "status") || text::same(op, "quit") {
        return (
            Response {
                ok: true,
                status: Some(stats.snapshot(now, pid)),
                error: None,
                message: None,
            },
            None,
        );
    }
    let on: bool = text::same(op, "on");
    if on || text::same(op, "off") {
        let mut told: Option<bool> = None;
        if stats.is_enabled() != on {
            stats.set_enabled(on, now_ms);
            told = Some(on);
        }
        let message: &str = if on {
            "enabled"
        } else {
            "disabled"
        };
        return (
            Response {
                ok: true,
                status: Some(stats.snapshot(now, pid)),
                error: None,
                message: Some(message.to_owned()),
            },
            told,
        );
    }
    let mut error: String = "unknown op: ".to_owned();
    error.append(op);
    (Response { ok: false, status: None, error: Some(error), message: None }, None)
}

/// What a response means to the one who asked.
pub open spec fn means(r: Response, outcome: Result<StatusSnapshot, ControlError>) -> bool {
    if !r.ok {
        &&& outcome matches Err(ControlError::Refused(reason))
        &&& reason@ == match r.error {
            Some(error) => error@,
            None => "control request failed"@,
        }
    } else {
        match r.status {
            Some(snapshot) => outcome == Ok::<StatusSnapshot, ControlError>(snapshot),
            None => outcome is Err && outcome->Err_0 == ControlError::NoStatus,
        }
    }
}

/// The status that a response carries, or why it carries none.
pub fn read_response(r: Response) -> (outcome: Result<StatusSnapshot, ControlError>)
    ensures
        means(r, outcome),
{
    if !r.ok {
        return Err(
            ControlError::Refused(
                match r.error {
                    Some(error) => error,
                    None => "control request failed".to_owned(),
                },
            ),
        );
    }
    match r.status {
        Some(snapshot) => Ok(snapshot),
        None => Err(ControlError::NoStatus),
    }
}

/// The length that a frame of this body announces; lengths wrap at 32 bits.
pub open spec fn announced(body: Seq<u8>) -> u32 {
    (body.len() % 0x1_0000_0000) as u32
}

/// The frame around a body.
pub open spec fn frame(body: Seq<u8>) -> Seq<u8> {
    wire::u32_le(announced(body)) + body
}

/// Whether a frame may announce this length.
pub open spec fn is_frame_len(len: nat) -> bool {
    0 < len <= MAX_FRAME
}

/// The frame around a body.
pub fn encode_frame(body: &[u8]) -> (r: Vec<u8>)
    ensures
        r@ == frame(body@),
{
    let mut out: Vec<u8> = vec![0u8; 4];
    let len: u32 = (body.len() as u64 % 0x1_0000_0000) as u32;
    wire::put_u32(out.as_mut_slice(), len);
    let ghost head = out@;
    out.extend_from_slice(body);
    proof {
        assert(head =~= wire::u32_le(len));
        assert(out@ =~= head + body@);
    }
    out
}

/// What the four bytes of `header` say of the body that follows them.
pub open spec fn read_frame_len(header: Seq<u8>) -> Result<usize, ControlError> {
    let len = wire::u32_of_le(header);
    if is_frame_len(len) {
        Ok(len as usize)
    } else {
        Err(ControlError::FrameLength(len as usize))
    }
}

/// The length of the body that follows the four bytes of `header`.
pub fn frame_len(header: &[u8; 4]) -> (r: Result<usize, ControlError>)
    ensures
        ({
            let len = wire::u32_of_le(header@);
            if is_frame_len(len) {
                r == Ok::<usize, ControlError>(len as usize)
            } else {
                r is Err && r->Err_0 == ControlError::FrameLength(len as usize)
            }
        }),
        r == read_frame_len(header@),
{
    let len: u32 = wire::get_u32(header);
    if len == 0 || len > MAX_FRAME as u32 {
        return Err(ControlError::FrameLength(len as usize));
    }
    Ok(len as usize)
}

impl ControlError {
    /// The message of the error.
    pub open spec fn shown(self) -> Seq<char> {
        match self {
            ControlError::FrameLength(len) => "invalid control frame length "@ + text::decimal(
                len as nat,
            ),
            ControlError::Refused(reason) => reason@,
            ControlError::NoStatus => "control response missing status payload"@,
        }
    }

    /// The message of the error.
    pub fn message(&self) -> (r: String)
        ensures
            r@ == self.shown(),
    {
        match self {
            ControlError::FrameLength(len) => {
                let mut out: String = "invalid control frame length ".to_owned();
                text::push_decimal(&mut out, *len as u64);
                out
            },
            ControlError::Refused(reason) => reason.clone(),
            ControlError::NoStatus => "control response missing status payload".to_owned(),
        }
    }
}

/// A frame that is written is read back: it announces the length of its body,
/// and the body follows.
pub proof fn law_frame_reads_back(body: Seq<u8>)
    requires
        is_frame_len(body.len()),
    ensures
        is_frame_len(wire::u32_of_le(frame(body).take(4))),
        wire::u32_of_le(frame(body).take(4)) == body.len(),
        frame(body).skip(4) == body,
{
    wire::law_u32_le_roundtrip(announced(body));
    assert(frame(body).take(4) =~= wire::u32_le(announced(body)));
    assert(frame(body).skip(4) =~= body);
}

/// Turning the data plane on or off twice is the same as once, and the hook
/// hears of it once at most.
pub proof fn law_switching_is_idempotent(
    stats: RuntimeStats,
    op: Seq<char>,
    now_ms: u64,
    later_ms: u64,
)
    requires
        switches(op) is Some,
    ensures
        after_op(after_op(stats, op, now_ms), op, later_ms) == after_op(stats, op, now_ms),
        hook_call(after_op(stats, op, now_ms), op) is None,
        after_op(stats, op, now_ms).enabled == switches(op)->0,
{
}

/// A request only ever changes the enable flag and the time of the last
/// activity.
pub proof fn law_requests_keep_counters(stats: RuntimeStats, op: Seq<char>, now_ms: u64)
    ensures
        after_op(stats, op, now_ms) == (RuntimeStats {
            enabled: after_op(stats, op, now_ms).enabled,
            last_activity_ms: after_op(stats, op, now_ms).last_activity_ms,
            ..stats
        }),
        switches(op) is None ==> after_op(stats, op, now_ms) == stats,
{
}

/// A request to quit is granted, tells the hook nothing and leaves the
/// statistics as they are.
pub proof fn law_quit_is_granted(
    r: Response,
    stats: RuntimeStats,
    now: u64,
    now_ms: u64,
    pid: u32,
)
    requires
        answers(r, after_op(stats, "quit"@, now_ms), "quit"@, now, pid),
    ensures
        r.ok,
        hook_call(stats, "quit"@) is None,
        after_op(stats, "quit"@, now_ms) == stats,
{
    reveal_strlit("on");
    reveal_strlit("off");
    reveal_strlit("quit");
    assert("on"@.len() == 2 && "off"@.len() == 3 && "quit"@.len() == 4);
}

/// The one who asks for the status, for the data plane on or off, or for the
/// end of the daemon, gets the statistics after the request; the one who asks
/// for anything else is refused with the name of what was asked.
pub proof fn law_request_is_answered(
    r: Response,
    outcome: Result<StatusSnapshot, ControlError>,
    stats: RuntimeStats,
    op: Seq<char>,
    now: u64,
    pid: u32,
)
    requires
        answers(r, stats, op, now, pid),
        means(r, outcome),
    ensures
        if is_known(op) {
            outcome matches Ok(snapshot) && stats.shown_as(snapshot, now, pid)
        } else {
            outcome matches Err(ControlError::Refused(reason)) && reason@ == "unknown op: "@ + op
        },
{
}

/// "on" and "off" bring the data plane to that state, whatever it was, note the
/// time and tell the hook exactly where that is a change; any other request
/// leaves it as it is.
pub proof fn law_switches_do_what_they_say(stats: RuntimeStats, op: Seq<char>, now_ms: u64)
    ensures
        after_op(stats, "on"@, now_ms).enabled,
        !after_op(stats, "off"@, now_ms).enabled,
        hook_call(stats, "on"@) == if stats.enabled {
            None
        } else {
            Some(true)
        },
        hook_call(stats, "off"@) == if stats.enabled {
            Some(false)
        } else {
            None
        },
        op != "on"@ && op != "off"@ ==> after_op(stats, op, now_ms) == stats && hook_call(stats, op)
            is None,
        after_op(stats, op, now_ms).last_activity_ms == if after_op(stats, op, now_ms).enabled
            != stats.enabled {
            now_ms
        } else {
            stats.last_activity_ms
        },
{
    reveal_strlit("on");
    reveal_strlit("off");
    assert("on"@.len() == 2 && "off"@.len() == 3);
}

/// There are four requests; each is granted with the status and, where it
/// switches, with what was asked for, and every other one is refused with its
/// name.
pub proof fn law_four_requests_are_granted(
    r: Response,
    stats: RuntimeStats,
    op: Seq<char>,
    now: u64,
    pid: u32,
)
    requires
        answers(r, stats, op, now, pid),
    ensures
        r.ok <==> op == "status"@ || op == "on"@ || op == "off"@ || op == "quit"@,
        r.ok ==> r.error is None && r.status is Some,
        r.ok ==> stats.shown_as(r.status->0, now, pid),
        op == "on"@ ==> r.message is Some && r.message->0@ == "enabled"@,
        op == "off"@ ==> r.message is Some && r.message->0@ == "disabled"@,
        op == "status"@ || op == "quit"@ ==> r.message is None,
        !r.ok ==> r.status is None && r.message is None && r.error is Some && r.error->0@
            == "unknown op: "@ + op,
{
    reveal_strlit("status");
    reveal_strlit("on");
    reveal_strlit("off");
    reveal_strlit("quit");
    assert("on"@.len() == 2 && "off"@.len() == 3 && "status"@.len() == 6);
    assert("quit"@.len() == 4);
}

/// The one who asks gets the status of a granted request, and of a refused one
/// the reason that the daemon gave.
pub proof fn law_responses_are_read(r: Response, outcome: Result<StatusSnapshot, ControlError>)
    requires
        means(r, outcome),
    ensures
        r.ok && r.status is Some ==> outcome is Ok && outcome->Ok_0 == r.status->0,
        r.ok && r.status is None ==> outcome is Err && outcome->Err_0 is NoStatus,
        !r.ok && r.error is Some ==> outcome is Err && outcome->Err_0 is Refused
            && outcome->Err_0->Refused_0@ == r.error->0@,
        !r.ok && r.error is None ==> outcome is Err && outcome->Err_0 is Refused
            && outcome->Err_0->Refused_0@ == "control request failed"@,
{
}

/// A frame is the length of its body in four bytes, the lowest first, and the
/// body. Bodies of up to a mebibyte are read, and no others.
pub proof fn law_frame_layout(body: Seq<u8>, header: Seq<u8>)
    requires
        body.len() < 0x1_0000_0000,
        header.len() == 4,
    ensures
        frame(body).len() == 4 + body.len(),
        frame(body)[0] + 256 * frame(body)[1] + 65536 * frame(body)[2] + 16777216 * frame(body)[3]
            == body.len(),
        frame(body).skip(4) == body,
        read_frame_len(frame(body).take(4)) == if 1 <= body.len() <= 1048576 {
            Ok::<usize, ControlError>(body.len() as usize)
        } else {
            Err(ControlError::FrameLength(body.len() as usize))
        },
        ({
            let len = header[0] + 256 * header[1] + 65536 * header[2] + 16777216 * header[3];
            read_frame_len(header) == if 1 <= len <= 1048576 {
                Ok::<usize, ControlError>(len as usize)
            } else {
                Err(ControlError::FrameLength(len as usize))
            }
        }),
{
    let head = wire::u32_le(announced(body));
    wire::law_u32_le_roundtrip(announced(body));
    assert(frame(body).take(4) =~= head);
    assert(frame(body).skip(4) =~= body);
    assert(header =~= seq![header[0], header[1], header[2], header[3]]);
    wire::law_lowest_byte_first(header[0], header[1], header[2], header[3], Seq::empty());
    wire::law_lowest_byte_first(head[0], head[1], head[2], head[3], Seq::empty());
    assert(head =~= seq![head[0], head[1], head[2], head[3]] + Seq::<u8>::empty());
    assert(header =~= seq![header[0], header[1], header[2], header[3]] + Seq::<u8>::empty());
}

} // verus!
