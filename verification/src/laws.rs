//! What holds of a whole exchange between guest and host.
use crate::bridge::BridgeModel;
use crate::device_file::DeviceFileModel;
use vstd::prelude::*;

verus! {

/// Every published request has been answered.
pub open spec fn is_idle(bridge: BridgeModel) -> bool {
    bridge.req_seq == bridge.resp_seq
}

/// Guest and host have taken turns so far, with at most one request in flight
/// and neither word wrapped around.
pub open spec fn is_serialized(bridge: BridgeModel) -> bool {
    0 <= bridge.resp_seq <= bridge.req_seq <= bridge.resp_seq + 1
}

/// The host has answered the latest request, as the guest sees it.
pub open spec fn is_answered(bridge: BridgeModel) -> bool {
    crate::wait::answered(bridge.req_seq, bridge.resp_seq)
}

/// The bytes that reads into buffers of these sizes return, one after another.
pub open spec fn read_through(file: DeviceFileModel, rooms: Seq<nat>) -> Seq<u8>
    decreases rooms.len(),
{
    if rooms.len() == 0 {
        Seq::empty()
    } else {
        file.unread().take(file.read_len(rooms[0]) as int) + read_through(
            file.read(rooms[0]),
            rooms.drop_first(),
        )
    }
}

/// The room of several buffers together.
pub open spec fn total_room(rooms: Seq<nat>) -> nat
    decreases rooms.len(),
{
    if rooms.len() == 0 {
        0
    } else {
        rooms[0] + total_room(rooms.drop_first())
    }
}

/// A fresh bridge is serialized, a guest that publishes while the bridge is idle
/// keeps it so, and so does a host that answers a request in flight.
pub proof fn law_taking_turns_stays_serialized(
    bridge: BridgeModel,
    payload: Seq<u8>,
    capacity: nat,
)
    ensures
        is_serialized(BridgeModel::initial()),
        is_serialized(bridge) && is_idle(bridge) && bridge.req_seq < i32::MAX ==> is_serialized(
            bridge.publish(payload, capacity),
        ) && !is_idle(bridge.publish(payload, capacity)),
        is_serialized(bridge) && !is_idle(bridge) ==> is_serialized(
            bridge.submit(payload, capacity),
        ) && is_idle(bridge.submit(payload, capacity)),
{
}

/// Until a word wraps around, the host is shown a request exactly when one was
/// published and the latest has not been answered. While guest and host take
/// turns, that is exactly when the words differ.
pub proof fn law_pending_iff_unanswered(bridge: BridgeModel)
    requires
        0 <= bridge.req_seq,
        0 <= bridge.resp_seq,
    ensures
        bridge.pending() is Some <==> bridge.req_seq > 0 && !is_answered(bridge),
        is_serialized(bridge) ==> (bridge.pending() is Some <==> !is_idle(bridge)),
{
}

/// A host that answers what it is shown catches up: each answer ends the guest's
/// wait, or the host is still shown the latest request.
pub proof fn law_answers_catch_up(bridge: BridgeModel, response: Seq<u8>, capacity: nat)
    requires
        0 <= bridge.resp_seq < bridge.req_seq,
    ensures
        bridge.pending() == Some(bridge.request),
        ({
            let done = bridge.submit(response, capacity);
            &&& is_answered(done) <==> bridge.req_seq == bridge.resp_seq + 1
            &&& !is_answered(done) ==> done.pending() == Some(bridge.request)
            &&& done.req_seq - done.resp_seq == bridge.req_seq - bridge.resp_seq - 1
        }),
{
}

/// The host is shown the very bytes that the guest published last, as far as
/// they fit, also when earlier requests went unanswered.
pub proof fn law_host_sees_published_request(
    bridge: BridgeModel,
    request: Seq<u8>,
    capacity: nat,
)
    requires
        is_idle(bridge) || bridge.resp_seq <= bridge.req_seq < i32::MAX,
    ensures
        bridge.publish(request, capacity).pending() == Some(
            crate::bridge::fitting(request, capacity),
        ),
        request.len() <= capacity ==> bridge.publish(request, capacity).pending() == Some(request),
{
}

/// Publishing leaves the previous response alone, and answering leaves the
/// request alone.
pub proof fn law_slots_are_independent(bridge: BridgeModel, payload: Seq<u8>, capacity: nat)
    ensures
        bridge.publish(payload, capacity).response == bridge.response,
        bridge.publish(payload, capacity).resp_seq == bridge.resp_seq,
        bridge.submit(payload, capacity).request == bridge.request,
        bridge.submit(payload, capacity).req_seq == bridge.req_seq,
{
}

/// A guest that parks on the response word is never left asleep by an answer
/// that came in between: the answer changes the word.
pub proof fn law_answer_changes_awaited_word(
    bridge: BridgeModel,
    response: Seq<u8>,
    capacity: nat,
    now_ms: i64,
    deadline_ms: int,
)
    ensures
        crate::wait::wait_step(
            crate::wait::Observation { req_seq: bridge.req_seq, resp_seq: bridge.resp_seq, now_ms },
            deadline_ms,
        ) matches crate::wait::WaitStep::Park { word, expected, .. } ==> word
            == crate::bridge::SeqWord::Response && bridge.submit(response, capacity).resp_seq
            != expected,
{
}

/// After a reset nothing is pending and nothing is answered.
pub proof fn law_reset_forgets_everything()
    ensures
        BridgeModel::initial().pending() is None,
        !is_answered(BridgeModel::initial()),
        is_idle(BridgeModel::initial()),
{
}

/// One exchange over an idle bridge: the host sees the request and nothing else
/// ends the guest's wait; the answer ends it, the guest reads the response, and
/// the bridge is idle again, one exchange further. Both payloads arrive as far
/// as they fit.
pub proof fn law_exchange(
    bridge: BridgeModel,
    request: Seq<u8>,
    response: Seq<u8>,
    capacity: nat,
)
    requires
        is_idle(bridge),
        0 <= bridge.req_seq < i32::MAX,
    ensures
        ({
            let asked = bridge.publish(request, capacity);
            let done = asked.submit(response, capacity);
            &&& asked.pending() == Some(crate::bridge::fitting(request, capacity))
            &&& !is_answered(asked)
            &&& done.pending() is None
            &&& is_answered(done)
            &&& crate::wait::awaited_bytes(done, true) == crate::bridge::fitting(response, capacity)
            &&& is_idle(done)
            &&& done.req_seq == bridge.req_seq + 1
        }),
{
}

/// The same exchange through the device: what a guest writes to one handle and
/// closes is what the host sees, and what the host answers is what a second
/// handle reads.
pub proof fn law_device_round_trip(
    bridge: BridgeModel,
    request: Seq<u8>,
    response: Seq<u8>,
    capacity: nat,
)
    requires
        is_idle(bridge),
        0 <= bridge.req_seq < i32::MAX,
        request.len() > 0,
    ensures
        ({
            let asked = DeviceFileModel::opened().write(request).flush_into(bridge, capacity);
            let done = asked.submit(response, capacity);
            let reader = DeviceFileModel::opened().load(crate::wait::awaited_bytes(done, true));
            &&& asked.pending() == Some(crate::bridge::fitting(request, capacity))
            &&& !is_answered(asked)
            &&& is_answered(done)
            &&& done.pending() is None
            &&& reader.unread() == crate::bridge::fitting(response, capacity)
        }),
        request.len() <= capacity ==> crate::bridge::fitting(request, capacity) == request,
        response.len() <= capacity ==> crate::bridge::fitting(response, capacity) == response,
{
    assert(DeviceFileModel::opened().write(request).written =~= request);
    let received = crate::bridge::fitting(response, capacity);
    assert(received.skip(0) =~= received);
}

/// Without a broker the guest reads the error object: nobody answers, so its
/// wait gives up at the deadline, and the handle then serves the object, whose
/// string a JSON reader gives back as the message.
pub proof fn law_unattached_bridge_reads_error(
    bridge: BridgeModel,
    looks: Seq<crate::wait::Observation>,
    deadline_ms: int,
    late: int,
)
    requires
        !is_answered(bridge),
        0 <= late < looks.len(),
        looks[late].now_ms >= deadline_ms,
        forall|i: int|
            #![trigger looks[i]]
            0 <= i < looks.len() ==> looks[i].req_seq == bridge.req_seq && looks[i].resp_seq
                == bridge.resp_seq,
    ensures
        crate::wait::wait_outcome(looks, deadline_ms) == Some(false),
        DeviceFileModel::opened().load(crate::wait::awaited_bytes(bridge, false)).unread()
            == vstd::utf8::encode_utf8(
            crate::envelope::error_envelope(crate::wait::not_attached_message()),
        ),
        crate::envelope::read_json_string(
            crate::envelope::error_envelope(crate::wait::not_attached_message()).skip(26),
        ) == Some((crate::wait::not_attached_message(), seq!['}'])),
{
    crate::wait::law_unanswered_wait_times_out(looks, deadline_ms);
    let bytes = crate::wait::awaited_bytes(bridge, false);
    assert(bytes.skip(0) =~= bytes);
    reveal_strlit("network bridge not attached: no fetch broker responded within 30s");
    crate::envelope::law_error_envelope_carries_message(crate::wait::not_attached_message());
}

/// A handle publishes at most once: after the first flush neither flushing nor
/// closing changes the bridge or the handle, whatever is written in between.
pub proof fn law_handle_publishes_once(
    file: DeviceFileModel,
    bridge: BridgeModel,
    later: Seq<u8>,
    capacity: nat,
)
    requires
        file.written.len() > 0,
    ensures
        file.flush().flush() == file.flush(),
        file.flush().flush_into(bridge, capacity) == bridge,
        file.flush().write(later).flush_into(bridge, capacity) == bridge,
{
}

/// A handle that nothing was written to publishes nothing.
pub proof fn law_unwritten_handle_publishes_nothing(bridge: BridgeModel, capacity: nat)
    ensures
        DeviceFileModel::opened().flush_into(bridge, capacity) == bridge,
        DeviceFileModel::opened().flush() == DeviceFileModel::opened(),
{
}

/// How a request is cut into writes does not matter.
pub proof fn law_writes_concatenate(file: DeviceFileModel, a: Seq<u8>, b: Seq<u8>)
    ensures
        file.write(a).write(b) == file.write(a + b),
{
    assert(file.written + a + b =~= file.written + (a + b));
}

/// A handle keeps the response of its first read, whatever the host submits
/// later.
pub proof fn law_handle_keeps_its_response(
    file: DeviceFileModel,
    first: Seq<u8>,
    later: Seq<u8>,
    room: nat,
)
    ensures
        file.load(first).load(later) == file.load(first),
        file.load(first).read(room).load(later) == file.load(first).read(room),
        file.load(first).read(room).response == file.load(first).response,
{
}

/// Reads return the response in order and without gaps: what several reads
/// return together is what one read into all their room would.
pub proof fn law_reads_return_response_in_order(file: DeviceFileModel, rooms: Seq<nat>)
    requires
        file.response is Some,
        file.position <= file.response->0.len(),
    ensures
        read_through(file, rooms) == file.unread().take(file.read_len(total_room(rooms)) as int),
    decreases rooms.len(),
{
    if rooms.len() > 0 {
        let n = file.read_len(rooms[0]);
        let next = file.read(rooms[0]);
        assert(next.unread() =~= file.unread().skip(n as int));
        law_reads_return_response_in_order(next, rooms.drop_first());
        let m = next.read_len(total_room(rooms.drop_first()));
        assert(file.read_len(total_room(rooms)) == n + m);
        assert(file.unread().take(n as int) + file.unread().skip(n as int).take(m as int)
            =~= file.unread().take((n + m) as int));
    } else {
        assert(file.unread().take(0) =~= Seq::empty());
    }
}

/// A read into some room makes progress until the response is used up.
pub proof fn law_read_makes_progress(file: DeviceFileModel, room: nat)
    requires
        room > 0,
    ensures
        file.read_len(room) == 0 <==> file.unread().len() == 0,
{
}

/// A handle's request waits for an answer of its own, also when earlier requests
/// went unanswered: after the flush one more request is open, the host is shown the
/// bytes written, and until the host submits the guest's wait does not end as
/// answered, only at the deadline.
pub proof fn law_flushed_request_awaits_own_answer(
    file: DeviceFileModel,
    bridge: BridgeModel,
    capacity: nat,
    looks: Seq<crate::wait::Observation>,
    deadline_ms: int,
)
    requires
        !file.published,
        file.written.len() > 0,
        0 <= bridge.resp_seq <= bridge.req_seq < i32::MAX,
        forall|i: int|
            #![trigger looks[i]]
            0 <= i < looks.len() ==> looks[i].req_seq == file.flush_into(bridge, capacity).req_seq
                && looks[i].resp_seq == file.flush_into(bridge, capacity).resp_seq,
    ensures
        ({
            let asked = file.flush_into(bridge, capacity);
            &&& asked.req_seq - asked.resp_seq == bridge.req_seq - bridge.resp_seq + 1
            &&& asked.pending() is Some
            &&& asked.pending()->0.is_prefix_of(file.written)
            &&& file.written.len() <= capacity ==> asked.pending() == Some(file.written)
        }),
        crate::wait::wait_outcome(looks, deadline_ms) != Some(true),
        crate::wait::wait_outcome(looks, deadline_ms) == Some(false) <==> exists|i: int|
            #![trigger looks[i]]
            0 <= i < looks.len() && looks[i].now_ms >= deadline_ms,
{
    crate::wait::law_unanswered_wait_times_out(looks, deadline_ms);
}

/// The bridge after the host has submitted these responses, one after another.
pub open spec fn submit_all(
    bridge: BridgeModel,
    responses: Seq<Seq<u8>>,
    capacity: nat,
) -> BridgeModel
    decreases responses.len(),
{
    if responses.len() == 0 {
        bridge
    } else {
        submit_all(bridge, responses.drop_last(), capacity).submit(responses.last(), capacity)
    }
}

/// A host that submits once for each open request ends the guest's wait with the
/// last of them, not earlier, and the guest then reads that last response.
pub proof fn law_last_owed_answer_ends_wait(
    bridge: BridgeModel,
    responses: Seq<Seq<u8>>,
    capacity: nat,
    now_ms: i64,
    deadline_ms: int,
)
    requires
        0 <= bridge.resp_seq < bridge.req_seq,
        0 < responses.len() <= bridge.req_seq - bridge.resp_seq,
        responses.last().len() <= capacity,
    ensures
        ({
            let done = submit_all(bridge, responses, capacity);
            let step = crate::wait::wait_step(
                crate::wait::Observation { req_seq: done.req_seq, resp_seq: done.resp_seq, now_ms },
                deadline_ms,
            );
            &&& step is Answered <==> responses.len() == bridge.req_seq - bridge.resp_seq
            &&& crate::wait::awaited_bytes(done, true) == responses.last()
            &&& done.req_seq == bridge.req_seq
            &&& done.request == bridge.request
            &&& done.pending() is None <==> responses.len() == bridge.req_seq - bridge.resp_seq
        }),
{
    lemma_submit_all_counts(bridge, responses, capacity);
    lemma_submit_all_counts(bridge, responses.drop_last(), capacity);
}

proof fn lemma_submit_all_counts(bridge: BridgeModel, responses: Seq<Seq<u8>>, capacity: nat)
    requires
        0 <= bridge.resp_seq <= bridge.req_seq,
        responses.len() <= bridge.req_seq - bridge.resp_seq,
    ensures
        submit_all(bridge, responses, capacity).resp_seq == bridge.resp_seq + responses.len(),
        submit_all(bridge, responses, capacity).req_seq == bridge.req_seq,
        submit_all(bridge, responses, capacity).request == bridge.request,
    decreases responses.len(),
{
    if responses.len() > 0 {
        lemma_submit_all_counts(bridge, responses.drop_last(), capacity);
    }
}

/// One handle that writes, flushes and then reads serves the host's response, not
/// what it wrote; and without an answer it serves the error object.
pub proof fn law_reading_after_writing_serves_response(
    file: DeviceFileModel,
    bridge: BridgeModel,
    response: Seq<u8>,
    capacity: nat,
)
    requires
        file.response is None,
        response.len() <= capacity,
    ensures
        ({
            let answered = file.flush_into(bridge, capacity).submit(response, capacity);
            file.flush().load(crate::wait::awaited_bytes(answered, true)).unread() == response
        }),
        file.flush().load(crate::wait::awaited_bytes(bridge, false)).unread()
            == vstd::utf8::encode_utf8(
            "{\"__frachterBridgeError\":\"network bridge not attached: no fetch broker responded within 30s\"}"@,
        ),
{
    crate::wait::law_wait_ends_with_response_or_error(bridge);
    assert(response.skip(0) =~= response);
    let error = crate::wait::awaited_bytes(bridge, false);
    assert(error.skip(0) =~= error);
}

} // verus!
