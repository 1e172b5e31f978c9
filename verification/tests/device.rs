use fetch_bridge::bridge::{publish_request, SeqWord};
use fetch_bridge::device_file::{FetchDeviceFile, WRITE_READY_BYTES};
use fetch_bridge::device_fs::{dir_metadata, file_metadata, FetchDeviceFs, FsError};
use fetch_bridge::envelope::bridge_error;
use fetch_bridge::path::{is_device_path, FETCH_DEVICE_FILE_NAME};
use fetch_bridge::{fetch_bridge_submit_response, Bridge, FetchDevice};

#[test]
fn envelope_carries_plain_message() {
    assert_eq!(bridge_error("boom"), b"{\"__frachterBridgeError\":\"boom\"}".to_vec());
    assert_eq!(bridge_error(""), b"{\"__frachterBridgeError\":\"\"}".to_vec());
}

#[test]
fn envelope_escapes_backslashes_and_quotes() {
    assert_eq!(
        bridge_error("a\"b\\c"),
        b"{\"__frachterBridgeError\":\"a\\\"b\\\\c\"}".to_vec()
    );
    assert_eq!(bridge_error("\\\""), b"{\"__frachterBridgeError\":\"\\\\\\\"\"}".to_vec());
}

#[test]
fn envelope_agrees_with_successive_replacements() {
    for message in ["", "plain", "\\", "\"", "\\\"", "\"\\\"", "\u{e9}\u{20ac}\"\u{1f600}\\", "\n"] {
        let escaped = message.replace('\\', "\\\\").replace('"', "\\\"");
        let expected = format!(r#"{{"__frachterBridgeError":"{}"}}"#, escaped);
        assert_eq!(bridge_error(message), expected.into_bytes());
    }
}

#[test]
fn handle_publishes_once() {
    let mut bridge: Bridge<16> = Bridge::new();
    let mut file = FetchDeviceFile::new();
    file.poll_write(b"first");
    assert_eq!(file.publish_if_pending(&mut bridge), Some(SeqWord::Request));
    assert_eq!(file.publish_if_pending(&mut bridge), None);
    assert_eq!(file.poll_flush(&mut bridge), None);
    file.poll_write(b" second");
    assert_eq!(file.poll_shutdown(&mut bridge), None);
    assert_eq!(bridge.req_seq, 1);
    assert_eq!(bridge.req_len, 5);
    assert_eq!(file.write_buf, b"first second".to_vec());
}

#[test]
fn unwritten_handle_publishes_nothing() {
    let mut bridge: Bridge<16> = Bridge::new();
    let mut file = FetchDeviceFile::new();
    assert_eq!(file.poll_write(b""), 0);
    assert_eq!(file.poll_flush(&mut bridge), None);
    assert_eq!(file.poll_shutdown(&mut bridge), None);
    assert_eq!(bridge.req_seq, 0);
    assert!(!file.published);
    // It can still publish what is written afterwards.
    file.poll_write(b"late");
    assert_eq!(file.poll_shutdown(&mut bridge), Some(SeqWord::Request));
    assert_eq!(bridge.req_seq, 1);
}

#[test]
fn reads_return_response_in_order() {
    let mut bridge: Bridge<16> = Bridge::new();
    publish_request(&mut bridge, b"q");
    fetch_bridge_submit_response(&mut bridge, b"0123456789");
    let mut file = FetchDeviceFile::new();
    let mut collected: Vec<u8> = Vec::new();
    for room in [3usize, 0, 4, 1, 5, 2] {
        let mut dst = vec![0xffu8; room];
        let before = file.poll_read_ready(&bridge, true);
        let count = file.poll_read(&bridge, true, &mut dst);
        assert_eq!(count, before.min(room));
        assert!(dst[count..].iter().all(|b| *b == 0xff));
        collected.extend_from_slice(&dst[..count]);
    }
    assert_eq!(collected, b"0123456789".to_vec());
    assert_eq!(file.poll_read_ready(&bridge, true), 0);
}

#[test]
fn handle_keeps_its_response() {
    let mut bridge: Bridge<16> = Bridge::new();
    publish_request(&mut bridge, b"q");
    fetch_bridge_submit_response(&mut bridge, b"old");
    let mut file = FetchDeviceFile::new();
    let mut dst = [0u8; 1];
    assert_eq!(file.poll_read(&bridge, true, &mut dst), 1);
    publish_request(&mut bridge, b"q");
    fetch_bridge_submit_response(&mut bridge, b"new!");
    assert!(!file.needs_response());
    let mut rest = [0u8; 8];
    assert_eq!(file.poll_read(&bridge, false, &mut rest), 2);
    assert_eq!(&rest[..2], b"ld");
    assert_eq!(file.size(&bridge), 4);
}

#[test]
fn unanswered_handle_reads_the_error() {
    let bridge: Bridge<16> = Bridge::new();
    let mut file = FetchDeviceFile::new();
    let mut dst = vec![0u8; 200];
    let count = file.poll_read(&bridge, false, &mut dst);
    assert_eq!(
        &dst[..count],
        "{\"__frachterBridgeError\":\"network bridge not attached: no fetch broker responded within 30s\"}"
            .as_bytes()
    );
    assert_eq!(file.size(&bridge), 0);
}

#[test]
fn idle_operations_of_a_handle() {
    let mut bridge: Bridge<16> = Bridge::new();
    publish_request(&mut bridge, b"q");
    fetch_bridge_submit_response(&mut bridge, b"abc");
    let mut file = FetchDeviceFile::new();
    let mut dst = [0u8; 2];
    file.poll_read(&bridge, true, &mut dst);
    file.start_seek();
    assert_eq!(file.poll_complete(), 0);
    assert_eq!(file.set_len(77), Ok(()));
    assert_eq!(file.unlink(), Ok(()));
    assert_eq!(file.poll_read_ready(&bridge, true), 1);
    assert_eq!((file.last_accessed(), file.last_modified(), file.created_time()), (0, 0, 0));
    assert_eq!(file.poll_write_ready(), 8192);
    assert_eq!(WRITE_READY_BYTES, 8192);
}

#[test]
fn device_name_is_fetch() {
    assert_eq!(FETCH_DEVICE_FILE_NAME, "fetch");
    assert_eq!(FetchDevice::file_name(), "fetch");
}

#[test]
fn device_paths() {
    for path in ["fetch", "/fetch", "/frachter/fetch", "./fetch", "a/../fetch", "fetch/", "fetch/.", "fetch/.//./"] {
        assert!(is_device_path(path.as_bytes()), "{}", path);
    }
    for path in ["", "/", ".", "..", "fetch/..", "Fetch", "fetchx", "xfetch", "fetch/x", "/frachter", "frachter-fetch", "fetc"] {
        assert!(!is_device_path(path.as_bytes()), "{}", path);
    }
}

#[test]
fn device_paths_agree_with_std() {
    let pieces = ["", ".", "..", "fetch", "a", ".fetch", "...", "fetch."];
    for a in pieces {
        for b in pieces {
            for c in pieces {
                for lead in ["", "/", "//"] {
                    let path = format!("{}{}/{}/{}", lead, a, b, c);
                    let expected = std::path::Path::new(&path)
                        .file_name()
                        .map(|n| n == FETCH_DEVICE_FILE_NAME)
                        .unwrap_or(false);
                    assert_eq!(is_device_path(path.as_bytes()), expected, "{}", path);
                }
            }
        }
    }
}

#[test]
fn device_path_need_not_be_text() {
    assert!(is_device_path(b"/\xff\xfe/fetch"));
    assert!(!is_device_path(b"/fetch\xff"));
}

#[test]
fn metadata_tells_file_from_directory() {
    let fs = FetchDevice::mount();
    let file = fs.metadata(b"/fetch").unwrap();
    assert!(file.ft.file && !file.ft.dir && !file.ft.symlink);
    assert!(!file.ft.char_device && !file.ft.block_device && !file.ft.socket && !file.ft.fifo);
    assert_eq!((file.accessed, file.created, file.modified, file.len), (0, 0, 0, 0));
    assert_eq!(file, file_metadata());
    let dir = fs.metadata(b"/").unwrap();
    assert!(dir.ft.dir && !dir.ft.file && !dir.ft.symlink);
    assert!(!dir.ft.char_device && !dir.ft.block_device && !dir.ft.socket && !dir.ft.fifo);
    assert_eq!((dir.accessed, dir.created, dir.modified, dir.len), (0, 0, 0, 0));
    assert_eq!(dir, dir_metadata());
    assert_eq!(fs.symlink_metadata(b"/fetch"), Ok(file));
    assert_eq!(fs.symlink_metadata(b"/nowhere"), Ok(dir));
}

#[test]
fn only_the_device_opens() {
    let fs = FetchDeviceFs;
    let file = fs.open(b"/fetch").unwrap();
    assert!(file.write_buf.is_empty() && !file.published && file.needs_response());
    assert_eq!(fs.open(b"/other").err(), Some(FsError::EntryNotFound));
    assert_eq!(fs.open(b"/").err(), Some(FsError::EntryNotFound));
}

#[test]
fn filesystem_refuses_changes() {
    let fs = FetchDeviceFs;
    assert_eq!(fs.readlink(b"/fetch"), Err(FsError::InvalidInput));
    assert_eq!(fs.read_dir(b"/"), Ok(Vec::new()));
    assert_eq!(fs.create_dir(b"/d"), Err(FsError::PermissionDenied));
    assert_eq!(fs.remove_dir(b"/d"), Err(FsError::PermissionDenied));
    assert_eq!(fs.rename(b"/fetch", b"/x"), Err(FsError::PermissionDenied));
    assert_eq!(fs.remove_file(b"/fetch"), Err(FsError::PermissionDenied));
    assert_eq!(fs.mount("x", b"/x"), Err(FsError::Unsupported));
}
