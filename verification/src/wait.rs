//! How long a guest waits for its response, and what it reads then.
//!
//! The guest alternates between looking at the sequence words and parking its
//! thread. [`wait_for_response_ready`] decides, from one look, what comes next;
//! reading the clock and parking are left to the caller.
use crate::bridge::{load_response, Bridge, BridgeModel, SeqWord};
use crate::envelope::bridge_error;
use vstd::prelude::*;
use vstd::utf8::*;

verus! {

/// How long the guest waits for a response before it gives up, in milliseconds.
pub const GUEST_WAIT_TIMEOUT_MS: i64 = 30_000;

/// How long the guest parks before it looks again, in nanoseconds.
pub const WAIT_SLICE_NS: i64 = 100_000_000;

/// What a guest that waits for its response does next.
#[derive(Debug, Clone, Copy, PartialEq, Eq, Structural)]
pub enum WaitStep {
    /// The latest request has been answered: stop waiting.
    Answered,
    /// No answer came in time: stop waiting.
    TimedOut,
    /// Park until `word` differs from `expected` or `timeout_ns` has elapsed,
    /// then look again.
    Park { word: SeqWord, expected: i32, timeout_ns: i64 },
}

/// One look at the sequence words and the clock.
pub struct Observation {
    pub req_seq: i32,
    pub resp_seq: i32,
    pub now_ms: i64,
}

/// Something was published, and the response word has caught up with it.
pub open spec fn answered(req_seq: i32, resp_seq: i32) -> bool {
    req_seq > 0 && resp_seq >= req_seq
}

/// What one look leads to.
pub open spec fn wait_step(seen: Observation, deadline_ms: int) -> WaitStep {
    if answered(seen.req_seq, seen.resp_seq) {
        WaitStep::Answered
    } else if seen.now_ms >= deadline_ms {
        WaitStep::TimedOut
    } else {
        WaitStep::Park {
            word: SeqWord::Response,
            expected: seen.resp_seq,
            timeout_ns: WAIT_SLICE_NS,
        }
    }
}

/// How a wait that makes these looks ends: `Some(true)` when it sees the
/// answer, `Some(false)` when it gives up, `None` while it still waits.
pub open spec fn wait_outcome(looks: Seq<Observation>, deadline_ms: int) -> Option<bool>
    decreases looks.len(),
{
    if looks.len() == 0 {
        None
    } else {
        match wait_step(looks[0], deadline_ms) {
            WaitStep::Answered => Some(true),
            WaitStep::TimedOut => Some(false),
            WaitStep::Park { .. } => wait_outcome(looks.drop_first(), deadline_ms),
        }
    }
}

/// The message of the error object that a guest reads when nobody answers.
pub open spec fn not_attached_message() -> Seq<char> {
    "network bridge not attached: no fetch broker responded within 30s"@
}

/// The bytes that a guest reads at the end of its wait.
pub open spec fn awaited_bytes(bridge: BridgeModel, ready: bool) -> Seq<u8> {
    if ready {
        bridge.response
    } else {
        encode_utf8(crate::envelope::error_envelope(not_attached_message()))
    }
}

/// The time at which a wait that begins at `now_ms` gives up.
pub fn wait_deadline(now_ms: i64) -> (deadline_ms: i128)
    ensures
        deadline_ms == now_ms + GUEST_WAIT_TIMEOUT_MS,
        deadline_ms - now_ms == 30_000,
{
    now_ms as i128 + GUEST_WAIT_TIMEOUT_MS as i128
}

/// Guest side: decides what to do after one look at the bridge and the clock.
/// An answer counts even when the deadline has passed. Does not consume the
/// response.
pub fn wait_for_response_ready<const N: usize>(
    bridge: &Bridge<N>,
    now_ms: i64,
    deadline_ms: i128,
) -> (step: WaitStep)
    ensures
        step == wait_step(
            Observation { req_seq: bridge.req_seq, resp_seq: bridge.resp_seq, now_ms },
            deadline_ms as int,
        ),
        step is Answered <==> bridge.req_seq > 0 && bridge.resp_seq >= bridge.req_seq,
        step is TimedOut <==> now_ms >= deadline_ms && (bridge.req_seq <= 0 || bridge.resp_seq
            < bridge.req_seq),
{
    let resp: i32 = bridge.resp_seq;
    if resp >= bridge.req_seq && bridge.req_seq > 0 {
        WaitStep::Answered
    } else if now_ms as i128 >= deadline_ms {
        WaitStep::TimedOut
    } else {
        WaitStep::Park { word: SeqWord::Response, expected: resp, timeout_ns: WAIT_SLICE_NS }
    }
}

/// Guest side: the bytes to read once the wait is over. `ready` tells whether
/// the wait ended with an answer; without one the guest reads an error object.
pub fn await_response<const N: usize>(bridge: &Bridge<N>, ready: bool) -> (bytes: Vec<u8>)
    ensures
        bytes@ == awaited_bytes(bridge@, ready),
        ready ==> bytes@ == bridge@.response,
{
    if ready {
        load_response(bridge)
    } else {
        bridge_error("network bridge not attached: no fetch broker responded within 30s")
    }
}

/// Look `i` is the first that ends the wait.
pub open spec fn ends_wait(looks: Seq<Observation>, deadline_ms: int, i: int) -> bool {
    &&& 0 <= i < looks.len()
    &&& !(wait_step(looks[i], deadline_ms) is Park)
    &&& forall|j: int| 0 <= j < i ==> #[trigger] wait_step(looks[j], deadline_ms) is Park
}

/// The outcome of a wait is what its first deciding look says, and a wait
/// without such a look has no outcome yet.
pub proof fn law_first_deciding_look_ends_wait(looks: Seq<Observation>, deadline_ms: int)
    ensures
        forall|i: int| #[trigger]
            ends_wait(looks, deadline_ms, i) ==> wait_outcome(looks, deadline_ms) == Some(
                answered(looks[i].req_seq, looks[i].resp_seq),
            ),
        wait_outcome(looks, deadline_ms) is Some <==> exists|i: int|
            ends_wait(looks, deadline_ms, i),
    decreases looks.len(),
{
    if looks.len() > 0 {
        let rest = looks.drop_first();
        law_first_deciding_look_ends_wait(rest, deadline_ms);
        if wait_step(looks[0], deadline_ms) is Park {
            assert forall|i: int| #[trigger] ends_wait(looks, deadline_ms, i) implies ends_wait(
                rest,
                deadline_ms,
                i - 1,
            ) && wait_outcome(looks, deadline_ms) == Some(
                answered(looks[i].req_seq, looks[i].resp_seq),
            ) by {
                assert(rest[i - 1] == looks[i]);
                assert forall|j: int| 0 <= j < i - 1 implies #[trigger] wait_step(
                    rest[j],
                    deadline_ms,
                ) is Park by {
                    assert(wait_step(looks[j + 1], deadline_ms) is Park);
                }
                assert(ends_wait(rest, deadline_ms, i - 1));
            }
            assert forall|i: int| #[trigger] ends_wait(rest, deadline_ms, i) implies ends_wait(
                looks,
                deadline_ms,
                i + 1,
            ) by {
                assert forall|j: int| 0 <= j < i + 1 implies #[trigger] wait_step(
                    looks[j],
                    deadline_ms,
                ) is Park by {
                    if j > 0 {
                        assert(wait_step(rest[j - 1], deadline_ms) is Park);
                    }
                }
            }
        } else {
            assert(ends_wait(looks, deadline_ms, 0));
            assert forall|i: int| #[trigger] ends_wait(looks, deadline_ms, i) implies i == 0 by {
                if i > 0 {
                    assert(wait_step(looks[0], deadline_ms) is Park);
                }
            }
        }
    }
}

/// A wait never hangs: once a look finds the clock at the deadline, the wait is
/// over.
pub proof fn law_wait_ends_at_deadline(looks: Seq<Observation>, deadline_ms: int, late: int)
    requires
        0 <= late < looks.len(),
        looks[late].now_ms >= deadline_ms,
    ensures
        wait_outcome(looks, deadline_ms) is Some,
    decreases looks.len(),
{
    if late > 0 && wait_step(looks[0], deadline_ms) is Park {
        assert(looks.drop_first()[late - 1] == looks[late]);
        law_wait_ends_at_deadline(looks.drop_first(), deadline_ms, late - 1);
    }
}

/// Without an answer a wait gives up once a look finds the clock at the
/// deadline, and goes on until then.
pub proof fn law_unanswered_wait_times_out(looks: Seq<Observation>, deadline_ms: int)
    requires
        forall|i: int|
            #![trigger looks[i]]
            0 <= i < looks.len() ==> !answered(looks[i].req_seq, looks[i].resp_seq),
    ensures
        wait_outcome(looks, deadline_ms) == Some(false) <==> exists|i: int|
            #![trigger looks[i]]
            0 <= i < looks.len() && looks[i].now_ms >= deadline_ms,
        wait_outcome(looks, deadline_ms) != Some(true),
    decreases looks.len(),
{
    if looks.len() > 0 {
        let rest = looks.drop_first();
        assert forall|i: int| #![trigger rest[i]] 0 <= i < rest.len() implies !answered(
            rest[i].req_seq,
            rest[i].resp_seq,
        ) by {
            assert(rest[i] == looks[i + 1]);
        }
        law_unanswered_wait_times_out(rest, deadline_ms);
        if looks[0].now_ms < deadline_ms {
            assert forall|i: int|
                #![trigger looks[i]]
                0 <= i < looks.len() && looks[i].now_ms >= deadline_ms implies exists|j: int|
                #![trigger rest[j]]
                0 <= j < rest.len() && rest[j].now_ms >= deadline_ms by {
                assert(rest[i - 1] == looks[i]);
            }
            assert forall|j: int|
                #![trigger rest[j]]
                0 <= j < rest.len() && rest[j].now_ms >= deadline_ms implies exists|i: int|
                #![trigger looks[i]]
                0 <= i < looks.len() && looks[i].now_ms >= deadline_ms by {
                assert(rest[j] == looks[j + 1]);
            }
        }
    }
}

/// A look ends the wait as answered, whatever the clock says, exactly when
/// something was published and the response word is at or past the request word.
/// Any other look gives up at the deadline, and parks before it: on the response
/// word, as it was seen, for a tenth of a second.
pub proof fn law_look_decides_by_words_then_clock(seen: Observation, deadline_ms: int)
    ensures
        seen.req_seq > 0 && seen.resp_seq >= seen.req_seq ==> wait_step(seen, deadline_ms)
            == WaitStep::Answered,
        (seen.req_seq <= 0 || seen.resp_seq < seen.req_seq) && seen.now_ms >= deadline_ms
            ==> wait_step(seen, deadline_ms) == WaitStep::TimedOut,
        (seen.req_seq <= 0 || seen.resp_seq < seen.req_seq) && seen.now_ms < deadline_ms
            ==> wait_step(seen, deadline_ms) == (WaitStep::Park {
            word: SeqWord::Response,
            expected: seen.resp_seq,
            timeout_ns: 100_000_000,
        }),
{
}

/// The guest counts a request as answered once the response word has caught up
/// with the request word, and never before it has published anything.
pub proof fn law_answered_when_caught_up(req_seq: i32, resp_seq: i32)
    ensures
        resp_seq < req_seq ==> !answered(req_seq, resp_seq),
        req_seq <= 0 ==> !answered(req_seq, resp_seq),
        0 < req_seq <= resp_seq ==> answered(req_seq, resp_seq),
{
}

/// A wait ends as answered at the first look that finds the response word caught
/// up, as long as no look before it came at the deadline; it goes on until then.
pub proof fn law_first_answered_look_ends_wait(
    looks: Seq<Observation>,
    deadline_ms: int,
    first: int,
)
    requires
        0 <= first < looks.len(),
        0 < looks[first].req_seq <= looks[first].resp_seq,
        forall|j: int|
            #![trigger looks[j]]
            0 <= j < first ==> looks[j].now_ms < deadline_ms && (looks[j].req_seq <= 0
                || looks[j].resp_seq < looks[j].req_seq),
    ensures
        wait_outcome(looks, deadline_ms) == Some(true),
        wait_outcome(looks.take(first + 1), deadline_ms) == Some(true),
        wait_outcome(looks.take(first), deadline_ms) is None,
    decreases looks.len(),
{
    let rest = looks.drop_first();
    if first > 0 {
        assert(rest[first - 1] == looks[first]);
        assert forall|j: int| #![trigger rest[j]] 0 <= j < first - 1 implies rest[j].now_ms
            < deadline_ms && (rest[j].req_seq <= 0 || rest[j].resp_seq < rest[j].req_seq) by {
            assert(rest[j] == looks[j + 1]);
        }
        law_first_answered_look_ends_wait(rest, deadline_ms, first - 1);
        assert(looks.take(first + 1).drop_first() =~= rest.take(first));
        assert(looks.take(first).drop_first() =~= rest.take(first - 1));
    }
}

/// A wait gives up at the first look at the deadline, if neither that look nor
/// any before it finds an answer; it goes on until then.
pub proof fn law_first_late_look_gives_up(
    looks: Seq<Observation>,
    deadline_ms: int,
    late: int,
)
    requires
        0 <= late < looks.len(),
        looks[late].now_ms >= deadline_ms,
        forall|j: int|
            #![trigger looks[j]]
            0 <= j < late ==> looks[j].now_ms < deadline_ms,
        forall|j: int|
            #![trigger looks[j]]
            0 <= j <= late ==> looks[j].req_seq <= 0 || looks[j].resp_seq < looks[j].req_seq,
    ensures
        wait_outcome(looks, deadline_ms) == Some(false),
        wait_outcome(looks.take(late + 1), deadline_ms) == Some(false),
        wait_outcome(looks.take(late), deadline_ms) is None,
    decreases looks.len(),
{
    let rest = looks.drop_first();
    if late > 0 {
        assert(rest[late - 1] == looks[late]);
        assert forall|j: int| #![trigger rest[j]] 0 <= j < late - 1 implies rest[j].now_ms
            < deadline_ms by {
            assert(rest[j] == looks[j + 1]);
        }
        assert forall|j: int| #![trigger rest[j]] 0 <= j <= late - 1 implies rest[j].req_seq <= 0
            || rest[j].resp_seq < rest[j].req_seq by {
            assert(rest[j] == looks[j + 1]);
        }
        law_first_late_look_gives_up(rest, deadline_ms, late - 1);
        assert(looks.take(late + 1).drop_first() =~= rest.take(late));
        assert(looks.take(late).drop_first() =~= rest.take(late - 1));
    }
}

/// At the end of an answered wait the guest reads the host's response, and at the
/// end of any other the one error object, whatever the bridge holds.
pub proof fn law_wait_ends_with_response_or_error(bridge: BridgeModel)
    ensures
        awaited_bytes(bridge, true) == bridge.response,
        awaited_bytes(bridge, false) == encode_utf8(
            "{\"__frachterBridgeError\":\"network bridge not attached: no fetch broker responded within 30s\"}"@,
        ),
{
    reveal_strlit("network bridge not attached: no fetch broker responded within 30s");
    reveal_strlit("{\"__frachterBridgeError\":\"");
    reveal_strlit("\"}");
    reveal_strlit(
        "{\"__frachterBridgeError\":\"network bridge not attached: no fetch broker responded within 30s\"}",
    );
    crate::envelope::law_plain_message_is_not_changed(not_attached_message());
    assert(crate::envelope::error_envelope(not_attached_message())
        =~= "{\"__frachterBridgeError\":\"network bridge not attached: no fetch broker responded within 30s\"}"@);
}

} // verus!
