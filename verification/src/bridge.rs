//! The shared request/response slots and the sequence words that guard them.
//!
//! One guest thread publishes requests, one host thread answers them. The
//! payloads live in fixed-size buffers inside [`Bridge`], so that a `Bridge`
//! placed at a fixed address is visible to every thread that shares the memory.
//! Threads take turns: every operation here runs to its end with the bridge to
//! itself, and none of them blocks.
use vstd::prelude::*;

verus! {

/// Capacity of the request and of the response buffer, in bytes.
///
/// Requests are small; responses are base64 plus a JSON envelope, so 24 MiB
/// covers a body of about 16 MiB.
pub const BRIDGE_BUFFER_BYTES: usize = 24 * 1024 * 1024;

/// The sequence word whose waiters a caller has to wake, or on which it has to
/// wait.
#[derive(Debug, Clone, Copy, PartialEq, Eq, Structural)]
pub enum SeqWord {
    /// The word the guest bumps when it publishes a request.
    Request,
    /// The word the host bumps when it submits a response.
    Response,
}

/// The shared state: two sequence words and two length-tagged payload buffers.
pub struct Bridge<const N: usize> {
    /// Bumped by the guest when it publishes a request.
    pub req_seq: i32,
    /// Bumped by the host when it submits the matching response.
    pub resp_seq: i32,
    /// Byte length of the current request payload in `request_buf`.
    pub req_len: u32,
    /// Byte length of the current response payload in `response_buf`.
    pub resp_len: u32,
    /// Request bytes; only the first `req_len` are meaningful.
    pub request_buf: [u8; N],
    /// Response bytes; only the first `resp_len` are meaningful.
    pub response_buf: [u8; N],
}

/// The bridge with the buffer size that guests and hosts agree on.
pub type FetchBridge = Bridge<BRIDGE_BUFFER_BYTES>;

/// What a [`Bridge`] means: the sequence words and the two current payloads.
#[verifier::ext_equal]
pub struct BridgeModel {
    pub req_seq: i32,
    pub resp_seq: i32,
    pub request: Seq<u8>,
    pub response: Seq<u8>,
}

/// The value of a sequence word after one more bump. The words wrap around.
pub open spec fn next_seq(seq: i32) -> i32 {
    if seq == i32::MAX {
        i32::MIN
    } else {
        (seq + 1) as i32
    }
}

/// The part of `payload` that fits into a buffer of `capacity` bytes.
pub open spec fn fitting(payload: Seq<u8>, capacity: nat) -> Seq<u8> {
    if payload.len() <= capacity {
        payload
    } else {
        payload.take(capacity as int)
    }
}

/// The bytes that a buffer exposes under a published length.
pub open spec fn exposed(buf: Seq<u8>, len: u32) -> Seq<u8> {
    if len <= buf.len() {
        buf.take(len as int)
    } else {
        buf
    }
}

impl BridgeModel {
    /// The state before anything was published.
    pub open spec fn initial() -> BridgeModel {
        BridgeModel { req_seq: 0, resp_seq: 0, request: Seq::empty(), response: Seq::empty() }
    }

    /// The state after the guest has published `request`.
    pub open spec fn publish(self, request: Seq<u8>, capacity: nat) -> BridgeModel {
        BridgeModel {
            req_seq: next_seq(self.req_seq),
            request: fitting(request, capacity),
            ..self
        }
    }

    /// The state after the host has submitted `response`.
    pub open spec fn submit(self, response: Seq<u8>, capacity: nat) -> BridgeModel {
        BridgeModel {
            resp_seq: next_seq(self.resp_seq),
            response: fitting(response, capacity),
            ..self
        }
    }

    /// The latest request, while it has not been answered: the request word is
    /// ahead of the response word, or has wrapped around just in front of it.
    pub open spec fn pending(self) -> Option<Seq<u8>> {
        if self.req_seq > self.resp_seq || self.req_seq == next_seq(self.resp_seq) {
            Some(self.request)
        } else {
            None
        }
    }
}

impl<const N: usize> View for Bridge<N> {
    type V = BridgeModel;

    open spec fn view(&self) -> BridgeModel {
        BridgeModel {
            req_seq: self.req_seq,
            resp_seq: self.resp_seq,
            request: exposed(self.request_buf@, self.req_len),
            response: exposed(self.response_buf@, self.resp_len),
        }
    }
}

impl<const N: usize> Bridge<N> {
    /// The published lengths lie within the buffers.
    pub open spec fn wf(&self) -> bool {
        &&& self.req_len <= N
        &&& self.resp_len <= N
    }

    /// An idle bridge with zeroed buffers.
    pub fn new() -> (bridge: Bridge<N>)
        ensures
            bridge.wf(),
            bridge@ == BridgeModel::initial(),
            bridge.req_seq == 0,
            bridge.resp_seq == 0,
            bridge.req_len == 0,
            bridge.resp_len == 0,
            bridge.request_buf@ == Seq::new(N as nat, |i: int| 0u8),
            bridge.response_buf@ == Seq::new(N as nat, |i: int| 0u8),
    {
        Bridge {
            req_seq: 0,
            resp_seq: 0,
            req_len: 0,
            resp_len: 0,
            request_buf: [0u8; N],
            response_buf: [0u8; N],
        }
    }
}

/// `after` is `before` with `payload` in its request slot; the rest of the
/// memory, stale request bytes included, is as before.
pub open spec fn holds_request<const N: usize>(
    before: &Bridge<N>,
    after: &Bridge<N>,
    payload: Seq<u8>,
) -> bool {
    let stored = fitting(payload, N as nat);
    &&& after.req_len == stored.len()
    &&& after.request_buf@ == stored + before.request_buf@.skip(stored.len() as int)
    &&& after.resp_len == before.resp_len
    &&& after.response_buf@ == before.response_buf@
    &&& before.wf() ==> after.wf()
}

/// `after` is `before` with `payload` in its response slot; the rest of the
/// memory, stale response bytes included, is as before.
pub open spec fn holds_response<const N: usize>(
    before: &Bridge<N>,
    after: &Bridge<N>,
    payload: Seq<u8>,
) -> bool {
    let stored = fitting(payload, N as nat);
    &&& after.resp_len == stored.len()
    &&& after.response_buf@ == stored + before.response_buf@.skip(stored.len() as int)
    &&& after.req_len == before.req_len
    &&& after.request_buf@ == before.request_buf@
    &&& before.wf() ==> after.wf()
}

/// Copies the part of `src` that fits to the front of `buf` and returns its
/// length. The bytes behind that part keep their values.
fn store_payload<const N: usize>(buf: &mut [u8; N], src: &[u8]) -> (len: u32)
    requires
        N <= u32::MAX,
    ensures
        len == fitting(src@, N as nat).len(),
        final(buf)@ == fitting(src@, N as nat) + old(buf)@.skip(len as int),
{
    let n: usize = if src.len() < N { src.len() } else { N };
    let mut i: usize = 0;
    while i < n
        invariant
            i <= n <= src@.len(),
            n <= N,
            buf@.len() == N,
            old(buf)@.len() == N,
            buf@ == src@.take(i as int) + old(buf)@.skip(i as int),
        decreases n - i,
    {
        buf[i] = src[i];
        i += 1;
    }
    n as u32
}

/// The bytes of `buf` that `len` exposes. A length beyond the buffer exposes
/// all of it.
fn load_payload<const N: usize>(buf: &[u8; N], len: u32) -> (payload: Vec<u8>)
    ensures
        payload@ == exposed(buf@, len),
{
    let n: usize = if (len as usize) < N { len as usize } else { N };
    let mut payload: Vec<u8> = Vec::new();
    let mut i: usize = 0;
    while i < n
        invariant
            i <= n <= N,
            buf@.len() == N,
            payload@ == buf@.take(i as int),
        decreases n - i,
    {
        payload.push(buf[i]);
        i += 1;
    }
    payload
}

/// Copies `src` into the request buffer and publishes its length. A payload
/// that exceeds the buffer is truncated.
pub fn store_request<const N: usize>(bridge: &mut Bridge<N>, src: &[u8])
    requires
        N <= u32::MAX,
    ensures
        final(bridge)@ == (BridgeModel { request: fitting(src@, N as nat), ..old(bridge)@ }),
        holds_request(old(bridge), final(bridge), src@),
{
    let n: u32 = store_payload(&mut bridge.request_buf, src);
    bridge.req_len = n;
}

/// The current request payload.
pub fn load_request<const N: usize>(bridge: &Bridge<N>) -> (request: Vec<u8>)
    ensures
        request@ == bridge@.request,
{
    load_payload(&bridge.request_buf, bridge.req_len)
}

/// Copies `src` into the response buffer and publishes its length. A payload
/// that exceeds the buffer is truncated.
pub fn store_response<const N: usize>(bridge: &mut Bridge<N>, src: &[u8])
    requires
        N <= u32::MAX,
    ensures
        final(bridge)@ == (BridgeModel { response: fitting(src@, N as nat), ..old(bridge)@ }),
        holds_response(old(bridge), final(bridge), src@),
{
    let n: u32 = store_payload(&mut bridge.response_buf, src);
    bridge.resp_len = n;
}

/// The current response payload.
pub fn load_response<const N: usize>(bridge: &Bridge<N>) -> (response: Vec<u8>)
    ensures
        response@ == bridge@.response,
{
    load_payload(&bridge.response_buf, bridge.resp_len)
}

/// Guest side: publishes `request` and bumps the request word. Does not block.
/// The caller wakes the waiters of the returned word.
pub fn publish_request<const N: usize>(bridge: &mut Bridge<N>, request: &[u8]) -> (wake: SeqWord)
    requires
        N <= u32::MAX,
    ensures
        wake == SeqWord::Request,
        final(bridge)@ == old(bridge)@.publish(request@, N as nat),
        holds_request(old(bridge), final(bridge), request@),
{
    store_request(bridge, request);
    bridge.req_seq = bridge.req_seq.wrapping_add(1);
    SeqWord::Request
}

/// Host side: the bytes of the request that was published and not yet
/// answered, if there is one. Does not block.
///
/// A request is outstanding while the request word is ahead of the response
/// word, by more than one where the guest gave up on an earlier request and
/// tried again.
pub fn fetch_bridge_pending_request<const N: usize>(bridge: &Bridge<N>) -> (request: Option<
    Vec<u8>,
>)
    ensures
        request is Some <==> bridge@.pending() is Some,
        0 <= bridge.resp_seq <= bridge.req_seq ==> (request is Some <==> bridge.req_seq
            != bridge.resp_seq),
        request matches Some(bytes) ==> bridge@.pending() == Some(bytes@),
{
    if bridge.req_seq > bridge.resp_seq || bridge.req_seq == bridge.resp_seq.wrapping_add(1) {
        Some(load_request(bridge))
    } else {
        None
    }
}

/// Host side: stores the response to the outstanding request and bumps the
/// response word. The caller wakes the waiters of the returned word.
pub fn fetch_bridge_submit_response<const N: usize>(bridge: &mut Bridge<N>, bytes: &[u8]) -> (wake:
    SeqWord)
    requires
        N <= u32::MAX,
    ensures
        wake == SeqWord::Response,
        final(bridge)@ == old(bridge)@.submit(bytes@, N as nat),
        holds_response(old(bridge), final(bridge), bytes@),
{
    store_response(bridge, bytes);
    bridge.resp_seq = bridge.resp_seq.wrapping_add(1);
    SeqWord::Response
}

/// Resets the sequence words and the payload lengths. The buffers keep their
/// bytes, which the lengths no longer expose.
pub fn reset_fetch_bridge<const N: usize>(bridge: &mut Bridge<N>)
    ensures
        final(bridge)@ == BridgeModel::initial(),
        final(bridge).req_seq == 0,
        final(bridge).resp_seq == 0,
        final(bridge).req_len == 0,
        final(bridge).resp_len == 0,
        final(bridge).request_buf@ == old(bridge).request_buf@,
        final(bridge).response_buf@ == old(bridge).response_buf@,
{
    bridge.req_seq = 0;
    bridge.resp_seq = 0;
    bridge.req_len = 0;
    bridge.resp_len = 0;
}

/// A payload passes through a buffer from its first byte on, whole where it fits
/// and cut off at the buffer's end where it does not.
pub proof fn law_payload_fits_from_its_front(payload: Seq<u8>, capacity: nat)
    ensures
        payload.len() <= capacity ==> fitting(payload, capacity) == payload,
        payload.len() > capacity ==> fitting(payload, capacity).len() == capacity,
        fitting(payload, capacity).is_prefix_of(payload),
{
}

/// A payload of up to 24 MiB passes through the agreed buffer unchanged, and a
/// longer one loses all that lies behind.
pub proof fn law_agreed_buffer_takes_24_mib(payload: Seq<u8>)
    ensures
        payload.len() <= 25_165_824 ==> fitting(payload, BRIDGE_BUFFER_BYTES as nat) == payload,
        payload.len() > 25_165_824 ==> fitting(payload, BRIDGE_BUFFER_BYTES as nat).len()
            == 25_165_824,
{
}

/// A bridge means what lies in its memory: its words, and as many bytes from the
/// front of each buffer as its length says and the buffer has.
pub proof fn law_model_shows_memory<const N: usize>(bridge: Bridge<N>)
    ensures
        bridge@.req_seq == bridge.req_seq,
        bridge@.resp_seq == bridge.resp_seq,
        bridge@.request.is_prefix_of(bridge.request_buf@),
        bridge@.response.is_prefix_of(bridge.response_buf@),
        bridge.req_len <= N ==> bridge@.request.len() == bridge.req_len,
        bridge.resp_len <= N ==> bridge@.response.len() == bridge.resp_len,
        bridge.req_len > N ==> bridge@.request.len() == N,
        bridge.resp_len > N ==> bridge@.response.len() == N,
{
    assert(bridge.request_buf@.take(N as int) =~= bridge.request_buf@);
    assert(bridge.response_buf@.take(N as int) =~= bridge.response_buf@);
}

/// Storing a request overwrites the front of the request buffer and its length,
/// and no other byte of either slot.
pub proof fn law_request_slot_holds_payload<const N: usize>(
    before: Bridge<N>,
    after: Bridge<N>,
    payload: Seq<u8>,
)
    requires
        holds_request(&before, &after, payload),
    ensures
        payload.len() <= N ==> after.req_len == payload.len(),
        payload.len() > N ==> after.req_len == N,
        forall|i: int|
            0 <= i < N ==> #[trigger] after.request_buf@[i] == if i < payload.len() {
                payload[i]
            } else {
                before.request_buf@[i]
            },
        after.resp_len == before.resp_len,
        after.response_buf@ == before.response_buf@,
        before.wf() ==> after.wf(),
{
}

/// Storing a response overwrites the front of the response buffer and its length,
/// and no other byte of either slot.
pub proof fn law_response_slot_holds_payload<const N: usize>(
    before: Bridge<N>,
    after: Bridge<N>,
    payload: Seq<u8>,
)
    requires
        holds_response(&before, &after, payload),
    ensures
        payload.len() <= N ==> after.resp_len == payload.len(),
        payload.len() > N ==> after.resp_len == N,
        forall|i: int|
            0 <= i < N ==> #[trigger] after.response_buf@[i] == if i < payload.len() {
                payload[i]
            } else {
                before.response_buf@[i]
            },
        after.req_len == before.req_len,
        after.request_buf@ == before.request_buf@,
        before.wf() ==> after.wf(),
{
}

/// Publishing moves the request word one on, from the largest number to the
/// smallest, and replaces the request; the host's word and response stay.
pub proof fn law_publish_moves_request_word(bridge: BridgeModel, request: Seq<u8>, capacity: nat)
    ensures
        ({
            let after = bridge.publish(request, capacity);
            &&& after.req_seq == if bridge.req_seq < i32::MAX {
                bridge.req_seq + 1
            } else {
                i32::MIN as int
            }
            &&& after.request.is_prefix_of(request)
            &&& after.request.len() == if request.len() <= capacity {
                request.len()
            } else {
                capacity
            }
            &&& after.resp_seq == bridge.resp_seq
            &&& after.response == bridge.response
        }),
{
}

/// Submitting moves the response word one on, from the largest number to the
/// smallest, and replaces the response; the guest's word and request stay.
pub proof fn law_submit_moves_response_word(bridge: BridgeModel, response: Seq<u8>, capacity: nat)
    ensures
        ({
            let after = bridge.submit(response, capacity);
            &&& after.resp_seq == if bridge.resp_seq < i32::MAX {
                bridge.resp_seq + 1
            } else {
                i32::MIN as int
            }
            &&& after.response.is_prefix_of(response)
            &&& after.response.len() == if response.len() <= capacity {
                response.len()
            } else {
                capacity
            }
            &&& after.req_seq == bridge.req_seq
            &&& after.request == bridge.request
        }),
{
}

/// The host is shown the latest request as long as the request word is ahead, also
/// across the wrap of the words, and nothing otherwise.
pub proof fn law_request_shown_while_ahead(bridge: BridgeModel)
    ensures
        bridge.req_seq > bridge.resp_seq ==> bridge.pending() == Some(bridge.request),
        bridge.req_seq == i32::MIN && bridge.resp_seq == i32::MAX ==> bridge.pending() == Some(
            bridge.request,
        ),
        bridge.req_seq == bridge.resp_seq ==> bridge.pending() is None,
        bridge.req_seq < bridge.resp_seq && !(bridge.req_seq == i32::MIN && bridge.resp_seq
            == i32::MAX) ==> bridge.pending() is None,
{
}

/// Before anything was published both words are zero and both payloads empty.
pub proof fn law_initial_state_is_blank()
    ensures
        BridgeModel::initial().req_seq == 0,
        BridgeModel::initial().resp_seq == 0,
        BridgeModel::initial().request.len() == 0,
        BridgeModel::initial().response.len() == 0,
{
}

} // verus!
