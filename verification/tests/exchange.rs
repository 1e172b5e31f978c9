use fetch_bridge::bridge::{
    load_request, load_response, publish_request, store_request, store_response, SeqWord,
    BRIDGE_BUFFER_BYTES,
};
use fetch_bridge::device_file::FetchDeviceFile;
use fetch_bridge::report::fetch_bridge_debug_state;
use fetch_bridge::wait::{
    await_response, wait_deadline, wait_for_response_ready, WaitStep, GUEST_WAIT_TIMEOUT_MS,
    WAIT_SLICE_NS,
};
use fetch_bridge::{
    fetch_bridge_pending_request, fetch_bridge_submit_response, reset_fetch_bridge, Bridge,
};

const NOT_ATTACHED: &str = "{\"__frachterBridgeError\":\"network bridge not attached: no fetch broker responded within 30s\"}";

#[test]
fn fresh_bridge_is_idle() {
    let bridge: Bridge<16> = Bridge::new();
    assert_eq!((bridge.req_seq, bridge.resp_seq), (0, 0));
    assert_eq!((bridge.req_len, bridge.resp_len), (0, 0));
    assert_eq!(fetch_bridge_pending_request(&bridge), None);
    assert_eq!(load_request(&bridge), Vec::<u8>::new());
    assert_eq!(load_response(&bridge), Vec::<u8>::new());
}

#[test]
fn buffers_hold_twenty_four_mebibytes() {
    assert_eq!(BRIDGE_BUFFER_BYTES, 25_165_824);
}

#[test]
fn host_sees_published_request_until_it_answers() {
    let mut bridge: Bridge<16> = Bridge::new();
    assert_eq!(publish_request(&mut bridge, b"GET /"), SeqWord::Request);
    assert_eq!((bridge.req_seq, bridge.resp_seq), (1, 0));
    assert_eq!(fetch_bridge_pending_request(&bridge), Some(b"GET /".to_vec()));
    // Looking does not take the request away.
    assert_eq!(fetch_bridge_pending_request(&bridge), Some(b"GET /".to_vec()));
    assert_eq!(fetch_bridge_submit_response(&mut bridge, b"200"), SeqWord::Response);
    assert_eq!((bridge.req_seq, bridge.resp_seq), (1, 1));
    assert_eq!(fetch_bridge_pending_request(&bridge), None);
    assert_eq!(await_response(&bridge, true), b"200".to_vec());
}

#[test]
fn payloads_are_truncated_to_the_buffer() {
    let mut bridge: Bridge<4> = Bridge::new();
    publish_request(&mut bridge, b"abcdef");
    assert_eq!(bridge.req_len, 4);
    assert_eq!(fetch_bridge_pending_request(&bridge), Some(b"abcd".to_vec()));
    fetch_bridge_submit_response(&mut bridge, b"12345");
    assert_eq!(bridge.resp_len, 4);
    assert_eq!(load_response(&bridge), b"1234".to_vec());
    let mut exact: Bridge<4> = Bridge::new();
    store_request(&mut exact, b"wxyz");
    assert_eq!(load_request(&exact), b"wxyz".to_vec());
}

#[test]
fn shorter_payload_hides_stale_bytes() {
    let mut bridge: Bridge<8> = Bridge::new();
    store_request(&mut bridge, b"longest!");
    store_response(&mut bridge, b"response");
    store_request(&mut bridge, b"ab");
    assert_eq!(load_request(&bridge), b"ab".to_vec());
    assert_eq!(bridge.request_buf, *b"abngest!");
    assert_eq!(load_response(&bridge), b"response".to_vec());
    store_response(&mut bridge, b"");
    assert_eq!(load_response(&bridge), Vec::<u8>::new());
    assert_eq!(load_request(&bridge), b"ab".to_vec());
}

#[test]
fn length_beyond_the_buffer_exposes_all_of_it() {
    let mut bridge: Bridge<3> = Bridge::new();
    store_request(&mut bridge, b"xyz");
    bridge.req_len = 4_000_000_000;
    assert_eq!(load_request(&bridge), b"xyz".to_vec());
}

#[test]
fn retried_request_is_shown() {
    let mut bridge: Bridge<8> = Bridge::new();
    publish_request(&mut bridge, b"a");
    assert_eq!(wait_for_response_ready(&bridge, 30_000, 30_000), WaitStep::TimedOut);
    publish_request(&mut bridge, b"b");
    assert_eq!(fetch_bridge_pending_request(&bridge), Some(b"b".to_vec()));
}

#[test]
fn answers_catch_up_with_retries() {
    let mut bridge: Bridge<8> = Bridge::new();
    publish_request(&mut bridge, b"a");
    publish_request(&mut bridge, b"b");
    fetch_bridge_submit_response(&mut bridge, b"1");
    assert!(matches!(wait_for_response_ready(&bridge, 0, 1), WaitStep::Park { .. }));
    assert_eq!(fetch_bridge_pending_request(&bridge), Some(b"b".to_vec()));
    fetch_bridge_submit_response(&mut bridge, b"2");
    assert_eq!(wait_for_response_ready(&bridge, 0, 1), WaitStep::Answered);
    assert_eq!(fetch_bridge_pending_request(&bridge), None);
    assert_eq!(await_response(&bridge, true), b"2".to_vec());
}

#[test]
fn surplus_answers_leave_nothing_pending() {
    let mut bridge: Bridge<8> = Bridge::new();
    fetch_bridge_submit_response(&mut bridge, b"1");
    assert_eq!((bridge.req_seq, bridge.resp_seq), (0, 1));
    assert_eq!(fetch_bridge_pending_request(&bridge), None);
}

#[test]
fn sequence_words_wrap_around() {
    let mut bridge: Bridge<8> = Bridge::new();
    bridge.req_seq = i32::MAX;
    bridge.resp_seq = i32::MAX;
    publish_request(&mut bridge, b"q");
    assert_eq!(bridge.req_seq, i32::MIN);
    assert_eq!(fetch_bridge_pending_request(&bridge), Some(b"q".to_vec()));
    fetch_bridge_submit_response(&mut bridge, b"a");
    assert_eq!(bridge.resp_seq, i32::MIN);
    // A guest only takes positive request words for answered.
    assert_eq!(wait_for_response_ready(&bridge, 0, 0), WaitStep::TimedOut);
}

#[test]
fn reset_forgets_payloads_and_words() {
    let mut bridge: Bridge<8> = Bridge::new();
    publish_request(&mut bridge, b"q");
    fetch_bridge_submit_response(&mut bridge, b"a");
    reset_fetch_bridge(&mut bridge);
    assert_eq!((bridge.req_seq, bridge.resp_seq), (0, 0));
    assert_eq!((bridge.req_len, bridge.resp_len), (0, 0));
    assert_eq!(load_request(&bridge), Vec::<u8>::new());
    assert_eq!(load_response(&bridge), Vec::<u8>::new());
    assert_eq!(fetch_bridge_pending_request(&bridge), None);
    assert_eq!(wait_for_response_ready(&bridge, 10, 10), WaitStep::TimedOut);
}

#[test]
fn wait_parks_on_the_response_word() {
    let mut bridge: Bridge<8> = Bridge::new();
    publish_request(&mut bridge, b"q");
    let deadline = wait_deadline(1_000);
    assert_eq!(deadline, 31_000);
    assert_eq!(
        wait_for_response_ready(&bridge, 30_999, deadline),
        WaitStep::Park { word: SeqWord::Response, expected: 0, timeout_ns: 100_000_000 }
    );
    // An answer changes the word that the guest parks on.
    fetch_bridge_submit_response(&mut bridge, b"a");
    assert_ne!(bridge.resp_seq, 0);
}

#[test]
fn wait_times_out_at_the_deadline() {
    let mut bridge: Bridge<8> = Bridge::new();
    publish_request(&mut bridge, b"q");
    let deadline = wait_deadline(0);
    assert_eq!(wait_for_response_ready(&bridge, 30_000, deadline), WaitStep::TimedOut);
    assert_eq!(await_response(&bridge, false), NOT_ATTACHED.as_bytes().to_vec());
}

#[test]
fn answer_counts_after_the_deadline() {
    let mut bridge: Bridge<8> = Bridge::new();
    publish_request(&mut bridge, b"q");
    fetch_bridge_submit_response(&mut bridge, b"a");
    assert_eq!(wait_for_response_ready(&bridge, 99_999, 30_000), WaitStep::Answered);
}

#[test]
fn nothing_published_is_never_answered() {
    let bridge: Bridge<8> = Bridge::new();
    assert_eq!(
        wait_for_response_ready(&bridge, 0, 1),
        WaitStep::Park { word: SeqWord::Response, expected: 0, timeout_ns: WAIT_SLICE_NS }
    );
    assert_eq!(wait_for_response_ready(&bridge, 1, 1), WaitStep::TimedOut);
}

#[test]
fn wait_constants() {
    assert_eq!(GUEST_WAIT_TIMEOUT_MS, 30_000);
    assert_eq!(WAIT_SLICE_NS, 100_000_000);
    assert_eq!(wait_deadline(i64::MAX), i64::MAX as i128 + 30_000);
    assert_eq!(wait_deadline(-5), 29_995);
}

#[test]
fn several_exchanges_in_turn() {
    let mut bridge: Bridge<16> = Bridge::new();
    for round in 1..=5i32 {
        let request = format!("request {}", round);
        let response = format!("response {}", round);
        publish_request(&mut bridge, request.as_bytes());
        assert_eq!(fetch_bridge_pending_request(&bridge), Some(request.into_bytes()));
        assert!(matches!(wait_for_response_ready(&bridge, 0, 1), WaitStep::Park { .. }));
        fetch_bridge_submit_response(&mut bridge, response.as_bytes());
        assert_eq!(wait_for_response_ready(&bridge, 0, 1), WaitStep::Answered);
        assert_eq!(await_response(&bridge, true), response.into_bytes());
        assert_eq!((bridge.req_seq, bridge.resp_seq), (round, round));
    }
}

#[test]
fn debug_state_reports_words_and_lengths() {
    let mut bridge: Bridge<64> = Bridge::new();
    assert_eq!(
        fetch_bridge_debug_state(&bridge, 0),
        "{\"reqSeq\":0,\"respSeq\":0,\"reqLen\":0,\"respLen\":0,\"reqSeqAddr\":0}"
    );
    publish_request(&mut bridge, b"hello world!");
    bridge.resp_seq = -1;
    bridge.resp_len = 305;
    assert_eq!(
        fetch_bridge_debug_state(&bridge, 1_048_576),
        "{\"reqSeq\":1,\"respSeq\":-1,\"reqLen\":12,\"respLen\":305,\"reqSeqAddr\":1048576}"
    );
}

#[test]
fn debug_state_formats_extremes_as_std_does() {
    let mut bridge: Bridge<1> = Bridge::new();
    for (req, resp, req_len, resp_len, addr) in [
        (i32::MIN, i32::MAX, u32::MAX, 0u32, usize::MAX),
        (-10, 10, 9, 10, 99),
        (100, -2147483647, 1000000007, 4294967290, 1234567890),
    ] {
        bridge.req_seq = req;
        bridge.resp_seq = resp;
        bridge.req_len = req_len;
        bridge.resp_len = resp_len;
        assert_eq!(
            fetch_bridge_debug_state(&bridge, addr),
            format!(
                "{{\"reqSeq\":{},\"respSeq\":{},\"reqLen\":{},\"respLen\":{},\"reqSeqAddr\":{}}}",
                req, resp, req_len, resp_len, addr
            )
        );
    }
}

#[test]
fn request_travels_through_the_device() {
    let mut bridge: Bridge<32> = Bridge::new();
    let mut writer = FetchDeviceFile::new();
    assert_eq!(writer.poll_write(b"{\"url\":"), 7);
    assert_eq!(writer.poll_write(b"\"/x\"}"), 5);
    assert_eq!(fetch_bridge_pending_request(&bridge), None);
    assert_eq!(writer.poll_flush(&mut bridge), Some(SeqWord::Request));
    assert_eq!(fetch_bridge_pending_request(&bridge), Some(b"{\"url\":\"/x\"}".to_vec()));
    fetch_bridge_submit_response(&mut bridge, b"{\"status\":200}");
    let mut reader = FetchDeviceFile::new();
    assert!(reader.needs_response());
    assert_eq!(reader.size(&bridge), 14);
    let mut dst = [0u8; 32];
    assert_eq!(reader.poll_read(&bridge, true, &mut dst), 14);
    assert_eq!(&dst[..14], b"{\"status\":200}");
    assert_eq!(dst[14], 0);
    assert_eq!(reader.poll_read(&bridge, true, &mut dst), 0);
}

#[test]
fn reports_tell_states_apart() {
    let mut bridge: Bridge<32> = Bridge::new();
    let fresh = fetch_bridge_debug_state(&bridge, 64);
    assert_ne!(fresh, fetch_bridge_debug_state(&bridge, 65));
    publish_request(&mut bridge, b"q");
    let asked = fetch_bridge_debug_state(&bridge, 64);
    assert_ne!(fresh, asked);
    fetch_bridge_submit_response(&mut bridge, b"");
    assert_ne!(asked, fetch_bridge_debug_state(&bridge, 64));
    reset_fetch_bridge(&mut bridge);
    assert_eq!(fresh, fetch_bridge_debug_state(&bridge, 64));
}
