use alure_sdk::encode_record;
use alure_sdk::extract_filename;
use alure_sdk::load_from_content;
use alure_sdk::AlureClient;
use alure_sdk::FileStorage;
use alure_sdk::ReceiptRecord;

use sha2::Digest;

fn full_record() -> ReceiptRecord {
    ReceiptRecord {
        receipt: "v1.abc.def".to_string(),
        device_id: "dev-1".to_string(),
        activation_id: Some("act-7".to_string()),
        project_id: Some("proj-9".to_string()),
    }
}

fn bare_record() -> ReceiptRecord {
    ReceiptRecord {
        receipt: "v1.x.y".to_string(),
        device_id: "dev-2".to_string(),
        activation_id: None,
        project_id: None,
    }
}

#[test]
fn round_trip_full_record() {
    let rec = full_record();
    let doc = encode_record(&rec);
    let back = load_from_content(Some(&doc)).unwrap().unwrap();
    assert_eq!(back, rec);
}

#[test]
fn round_trip_bare_record() {
    let rec = bare_record();
    let doc = encode_record(&rec);
    let back = load_from_content(Some(&doc)).unwrap().unwrap();
    assert_eq!(back, rec);
}

#[test]
fn round_trip_with_escaped_characters() {
    let rec = ReceiptRecord {
        receipt: "quote\" back\\slash".to_string(),
        device_id: "tab\tnewline\nend".to_string(),
        activation_id: Some("".to_string()),
        project_id: None,
    };
    let doc = encode_record(&rec);
    let back = load_from_content(Some(&doc)).unwrap().unwrap();
    assert_eq!(back, rec);
}

#[test]
fn missing_file_is_no_record() {
    assert_eq!(load_from_content(None).unwrap(), None);
}

#[test]
fn missing_fields_default() {
    let back = load_from_content(Some("{}")).unwrap().unwrap();
    assert_eq!(back.receipt, "");
    assert_eq!(back.device_id, "");
    assert_eq!(back.activation_id, None);
    assert_eq!(back.project_id, None);
}

#[test]
fn unknown_keys_are_ignored_and_whitespace_tolerated() {
    let doc = " {\n  \"receipt\": \"r\",\n  \"other\": 17,\n  \"device_id\": \"d\"\n} ";
    let back = load_from_content(Some(doc)).unwrap().unwrap();
    assert_eq!(back.receipt, "r");
    assert_eq!(back.device_id, "d");
    assert_eq!(back.activation_id, None);
}

#[test]
fn non_string_values_default() {
    let doc = "{\"receipt\":null,\"device_id\":true,\"activation_id\":42}";
    let back = load_from_content(Some(doc)).unwrap().unwrap();
    assert_eq!(back.receipt, "");
    assert_eq!(back.device_id, "");
    assert_eq!(back.activation_id, None);
}

#[test]
fn malformed_documents_fail_to_parse() {
    for bad in [
        "",
        "not json",
        "{\"a\":\"b\"",
        "{\"a\" \"b\"}",
        "{} trailing",
        "{\"a\":\"b\",}",
        "{\"receipt\":\"\\ud800\"}",
    ] {
        let e = load_from_content(Some(bad)).unwrap_err();
        assert_eq!(e.0, "parse_failed", "doc {:?}", bad);
    }
}

#[test]
fn malformed_atoms_fail_to_parse() {
    for bad in [
        "+",
        "--",
        "1.2.3",
        "e+",
        "01",
        "1.",
        ".5",
        "nulll",
        "{\"x\":1e}",
        "{\"a\":[\"\\ud800\"]}",
    ] {
        let e = load_from_content(Some(bad)).unwrap_err();
        assert_eq!(e.0, "parse_failed", "doc {:?}", bad);
    }
}

#[test]
fn json_numbers_are_accepted() {
    for doc in ["-12.5e-3", "0", "-0", "1E+10", "{\"x\":-0.5e+10,\"receipt\":\"r\"}"] {
        let back = load_from_content(Some(doc)).unwrap().unwrap();
        if doc.contains("receipt") {
            assert_eq!(back.receipt, "r", "doc {:?}", doc);
        } else {
            assert_eq!(back.receipt, "", "doc {:?}", doc);
        }
    }
}

#[test]
fn non_object_documents_load_as_defaults() {
    for doc in ["[1,2]", "\"just a string\"", "42", "null", "true", " [ {\"x\": [1, {}]} , 2 ] "] {
        let back = load_from_content(Some(doc)).unwrap().unwrap();
        assert_eq!(back.receipt, "", "doc {:?}", doc);
        assert_eq!(back.device_id, "", "doc {:?}", doc);
        assert_eq!(back.activation_id, None, "doc {:?}", doc);
        assert_eq!(back.project_id, None, "doc {:?}", doc);
    }
}

#[test]
fn nested_values_default_their_fields() {
    let doc = "{\"receipt\":{\"x\":[1,\"y\"],\"z\":{}},\"device_id\":[true,null],\"project_id\":\"p\"}";
    let back = load_from_content(Some(doc)).unwrap().unwrap();
    assert_eq!(back.receipt, "");
    assert_eq!(back.device_id, "");
    assert_eq!(back.activation_id, None);
    assert_eq!(back.project_id.as_deref(), Some("p"));
}

#[test]
fn unicode_escapes_decode() {
    let doc = "{\"receipt\":\"\\u0041\\u00e9\\u20ac\",\"device_id\":\"\\ud83d\\ude00\",\"project_id\":\"\\b\\f\"}";
    let back = load_from_content(Some(doc)).unwrap().unwrap();
    assert_eq!(back.receipt, "A\u{e9}\u{20ac}");
    assert_eq!(back.device_id, "\u{1f600}");
    assert_eq!(back.project_id.as_deref(), Some("\u{8}\u{c}"));
}

#[test]
fn serde_compatible_documents_load() {
    // a document as another writer would produce it, pretty-printed
    let doc = "{\n  \"receipt\": \"r1\",\n  \"device_id\": \"d1\",\n  \"activation_id\": null,\n  \"project_id\": null\n}";
    let back = load_from_content(Some(doc)).unwrap().unwrap();
    assert_eq!(back.receipt, "r1");
    assert_eq!(back.device_id, "d1");
    assert_eq!(back.activation_id, None);
    assert_eq!(back.project_id, None);
}

#[test]
fn default_root_is_under_home() {
    let s = FileStorage::new(None).unwrap();
    assert!(s.base_dir().ends_with("/.alure"));
    assert_eq!(s.receipts_path(), format!("{}/receipt.json", s.base_dir()));
}

#[test]
fn storage_paths_are_fixed() {
    let s = FileStorage::new(Some("/tmp/alure-root".to_string())).unwrap();
    assert_eq!(s.receipts_path(), "/tmp/alure-root/receipt.json");
    assert_eq!(s.downloads_path(), "/tmp/alure-root/downloads");
}

#[test]
fn client_trims_base_url() {
    let c = AlureClient::new(
        Some("https://example.test/api/".to_string()),
        Some("/tmp/alure-root".to_string()),
        None,
        Some(3),
    )
    .unwrap();
    assert_eq!(c.base_url(), "https://example.test/api");
    assert_eq!(c.timeout_seconds(), 3);
    let d = AlureClient::new(None, Some("/tmp/alure-root".to_string()), None, None).unwrap();
    assert_eq!(d.base_url(), "http://localhost:3000/api/v1");
    assert_eq!(d.timeout_seconds(), 10);
}

#[test]
fn project_id_prefers_given_receipt() {
    let c = AlureClient::new(None, Some("/tmp/alure-root".to_string()), None, None).unwrap();
    let payload = "{\"project_id\":\"proj-1\"}";
    let token = format!(
        "v1.{}.sig",
        base64::Engine::encode(
            &base64::engine::general_purpose::URL_SAFE_NO_PAD,
            payload.as_bytes()
        )
    );
    let got = c.project_id_from_receipt(Some(token.clone()), None).unwrap();
    assert_eq!(got.as_deref(), Some("proj-1"));
    let mut rec = bare_record();
    rec.receipt = token;
    let via_store = c.project_id_from_receipt(None, Some(rec)).unwrap();
    assert_eq!(via_store.as_deref(), Some("proj-1"));
    assert_eq!(c.project_id_from_receipt(None, None).unwrap(), None);
    assert_eq!(
        c.project_id_from_receipt(Some("garbage".to_string()), None).unwrap(),
        None
    );
}

#[test]
fn verify_offline_with_given_receipt_uses_wall_clock() {
    let c = AlureClient::new(None, Some("/tmp/alure-root".to_string()), None, None).unwrap();
    let payload = format!(
        "{{\"device_id_hash\":\"{:x}\"}}",
        sha2::Sha256::digest("dev-1".as_bytes())
    );
    let token = format!(
        "v1.{}.sig",
        base64::Engine::encode(
            &base64::engine::general_purpose::URL_SAFE_NO_PAD,
            payload.as_bytes()
        )
    );
    let r = c
        .verify_offline(Some(token), Some("dev-1".to_string()), None, false)
        .unwrap();
    assert!(r.valid);
    assert_eq!(r.reason, None);
}

#[test]
fn verify_offline_without_receipt_is_missing_receipt() {
    let c = AlureClient::new(None, Some("/tmp/alure-root".to_string()), None, None).unwrap();
    let r = c.verify_offline(None, None, None, false).unwrap();
    assert!(!r.valid);
    assert_eq!(r.reason.as_deref(), Some("missing_receipt"));
}

#[test]
fn extract_filename_cases() {
    assert_eq!(
        extract_filename("attachment; filename=\"report.pdf\"").as_deref(),
        Some("report.pdf")
    );
    assert_eq!(
        extract_filename("attachment; filename=plain.bin").as_deref(),
        Some("plain.bin")
    );
    assert_eq!(extract_filename("attachment"), None);
    assert_eq!(extract_filename("filename="), Some("".to_string()));
}
