use fetch_bridge::sdk::SdkUrls;
use fetch_bridge::wat::{is_parser_text, wat_outcome, MAX_GROUPED_TEXT};
use fetch_bridge::{set_sdk_url, set_worker_url, wat2wasm};

#[test]
fn urls_are_set_independently() {
    let mut urls = SdkUrls::new();
    assert_eq!(urls.custom_sdk_url, None);
    assert_eq!(urls.custom_worker_url, None);
    set_sdk_url(&mut urls, "https://a/sdk.js".to_string());
    assert_eq!(urls.custom_sdk_url.as_deref(), Some("https://a/sdk.js"));
    assert_eq!(urls.custom_worker_url, None);
    set_worker_url(&mut urls, "https://a/worker.js".to_string());
    set_sdk_url(&mut urls, "https://b/sdk.js".to_string());
    assert_eq!(urls.custom_sdk_url.as_deref(), Some("https://b/sdk.js"));
    assert_eq!(urls.custom_worker_url.as_deref(), Some("https://a/worker.js"));
}

#[test]
fn empty_module_encodes_to_its_header() {
    assert_eq!(
        wat2wasm("(module)".to_string()).unwrap(),
        vec![0x00, 0x61, 0x73, 0x6d, 0x01, 0x00, 0x00, 0x00]
    );
}

#[test]
fn binary_passes_through() {
    let binary = "\0asm\u{1}\0\0\0".to_string();
    assert_eq!(wat2wasm(binary.clone()).unwrap(), binary.into_bytes());
    assert_eq!(wat2wasm("\0asm".to_string()).unwrap(), b"\0asm".to_vec());
}

#[test]
fn malformed_text_is_refused() {
    let error = wat2wasm("module".to_string()).unwrap_err();
    assert!(!error.message.is_empty());
    assert!(wat2wasm("(module (func call $missing))".to_string()).is_err());
    assert_eq!(
        wat2wasm("module".to_string()).unwrap_err().message,
        error.message
    );
}

const NAMED_REFERENCE: &str =
    "(component (core type (module (import \"a\" \"b\" (global (ref null $t))))))";

const GROUPED_IMPORT: &str = "(module (import \"m\" (item \"a\") (item \"b\") (func)))";

const ELEMENT_ITEM: &str = "(module (table 1 funcref) (func $f) (elem (i32.const 0) funcref (item ref.func $f)))";

fn padded(text: &str, len: usize) -> String {
    format!("{}{}", text, " ".repeat(len - text.len()))
}

#[test]
fn parser_text_lacks_a_word() {
    for text in [
        "",
        "(module)",
        "module",
        "(module (table 1 (ref null $t)) (type $t (func)))",
        "(component)",
        "(component (core module $m))",
        "(component (core type (module (import \"a\" \"b\" (global (ref null 0))))))",
        "(component (core module $m (type $t (func)) (func (param (ref $t)))))",
        "\0asm component core module ref global $",
        "$ component core module reference global",
        "$ component core module ref.func table",
        "$ component core modules ref table",
        "$ component $core module ref table",
    ] {
        assert!(is_parser_text(text), "{}", text);
    }
    for text in [
        NAMED_REFERENCE,
        "(component (core type (module (export \"b\" (table 1 (ref null $t))))))",
        "component core\tmodule(ref)table\"$",
        "global;ref,module[core]component{$",
    ] {
        assert!(!is_parser_text(text), "{}", text);
    }
}

#[test]
fn words_inside_identifiers_are_no_keywords() {
    let text = "(module $core_component (table 1 funcref) (func $f) (elem declare func $f) \
                (func (drop (ref.func $f))))";
    assert!(is_parser_text(text));
    let binary = wat2wasm(text.to_string()).unwrap();
    assert_eq!(&binary[..8], b"\0asm\x01\0\0\0");
}

#[test]
fn long_text_with_grouped_imports_is_left_out() {
    assert!(is_parser_text(&padded(GROUPED_IMPORT, MAX_GROUPED_TEXT)));
    assert!(!is_parser_text(&padded(GROUPED_IMPORT, MAX_GROUPED_TEXT + 1)));
    assert!(is_parser_text(&padded(ELEMENT_ITEM, MAX_GROUPED_TEXT + 1)));
    assert!(!is_parser_text(&padded(NAMED_REFERENCE, MAX_GROUPED_TEXT + 1)));
}

#[test]
fn long_text_encodes_like_the_short_one() {
    for text in [GROUPED_IMPORT, ELEMENT_ITEM] {
        let binary = wat2wasm(text.to_string()).unwrap();
        assert_eq!(&binary[..8], b"\0asm\x01\0\0\0");
        assert_eq!(wat2wasm(padded(text, MAX_GROUPED_TEXT)).unwrap(), binary);
    }
    assert_eq!(
        wat2wasm(padded("(module)", MAX_GROUPED_TEXT + 1)).unwrap(),
        wat2wasm("(module)".to_string()).unwrap()
    );
}

#[test]
fn components_without_named_references_encode() {
    let text = "(component (core type (module (import \"a\" \"b\" (global (ref null 0))))))";
    let binary = wat2wasm(text.to_string()).unwrap();
    assert_eq!(&binary[..4], b"\0asm");
}

#[test]
fn parser_outcome_is_passed_on() {
    assert_eq!(wat_outcome(Ok(vec![1, 2])).unwrap(), vec![1, 2]);
    assert_eq!(wat_outcome(Err("bad".to_string())).unwrap_err().message, "bad");
}
