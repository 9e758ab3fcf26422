use cliptools::codec::ContentType;
use cliptools::error::CliptoolsError as MessageError;
use cliptools::transaction::{
    binary_allowed, copy, list, paste_output, paste_source, payload_from_json, payload_from_members,
    BinaryPolicy, ClipboardPayload, CliptoolsError, CopyRequest, PasteRequest,
};

fn s(x: &str) -> String {
    x.to_string()
}

fn native_text_types() -> Vec<(String, ContentType)> {
    vec![
        (s("public.utf8-plain-text"), ContentType::Text),
        (s("NSStringPboardType"), ContentType::Text),
    ]
}

#[test]
fn list_deduplicates_normalized_types() {
    let out = list(Some(native_text_types()), false).unwrap();
    assert_eq!(out, vec![s("text")]);
}

#[test]
fn list_passes_native_names_through() {
    let out = list(Some(native_text_types()), true).unwrap();
    assert_eq!(out, vec![s("public.utf8-plain-text"), s("NSStringPboardType")]);
}

#[test]
fn list_sorts_names() {
    let types = vec![
        (s("a"), ContentType::Url),
        (s("b"), ContentType::Html),
        (s("c"), ContentType::Custom(s("zz"))),
        (s("d"), ContentType::Text),
        (s("e"), ContentType::Html),
        (s("f"), ContentType::Custom(s("aa"))),
    ];
    let out = list(Some(types), false).unwrap();
    assert_eq!(out, vec![s("@aa"), s("@zz"), s("html"), s("text"), s("url")]);
}

#[test]
fn list_of_failed_enumeration_is_data_not_found() {
    let e = list(None, false).unwrap_err();
    assert!(matches!(e, CliptoolsError::DataNotFound));
    assert_eq!(e.exit_code(), 1);
    assert_eq!(list(Some(vec![]), false).unwrap(), Vec::<String>::new());
}

#[test]
fn copy_json_object() {
    let p = payload_from_json(br#"{"text": "hello", "url": "http://example.com"}"#).unwrap();
    assert_eq!(p.len(), 2);
    assert_eq!(p.get(&ContentType::Text), Some(&b"hello".to_vec()));
    assert_eq!(p.get(&ContentType::Url), Some(&b"http://example.com".to_vec()));
    assert_eq!(p.get(&ContentType::Html), None);
}

#[test]
fn copy_json_rejects_non_objects() {
    let e = payload_from_json(br#"["text", "hello"]"#).unwrap_err();
    assert!(matches!(e, CliptoolsError::JsonError(ref m) if m == "expected a JSON object at top level"));
    assert_eq!(e.exit_code(), 2);
    let e = payload_from_json(b"{not json").unwrap_err();
    assert!(matches!(e, CliptoolsError::JsonError(ref m) if m == "cannot read JSON input"));
}

#[test]
fn copy_json_rejects_bad_members() {
    let e = payload_from_json(br#"{"text": 3}"#).unwrap_err();
    assert!(matches!(e, CliptoolsError::JsonError(ref m) if m == "expected a string under key text"));
    let e = payload_from_json(br#"{"bogus": "x"}"#).unwrap_err();
    assert!(matches!(e, CliptoolsError::ArgumentError(ref m) if m == "unknown type: bogus"));
    assert_eq!(e.exit_code(), 2);
}

#[test]
fn copy_json_later_member_of_same_type_wins() {
    let members = vec![(s("TEXT"), Some(s("first"))), (s("text"), Some(s("second")))];
    let p = payload_from_members(&members).unwrap();
    assert_eq!(p.len(), 1);
    assert_eq!(p.get(&ContentType::Text), Some(&b"second".to_vec()));
    let p = payload_from_json("{\"@x\": \"é\"}".as_bytes()).unwrap();
    assert_eq!(p.get(&ContentType::Custom(s("x"))), Some(&vec![0xc3, 0xa9]));
}

#[test]
fn copy_json_duplicate_keys_last_wins() {
    let p = payload_from_json(br#"{"text": "a", "text": "b"}"#).unwrap();
    assert_eq!(p.len(), 1);
    assert_eq!(p.get(&ContentType::Text), Some(&b"b".to_vec()));
}

#[test]
fn copy_default_type_is_text() {
    let req = CopyRequest { portable_type: None, system_type: None, json: false };
    let p = copy(&req, Some(b"abc".to_vec())).unwrap();
    assert_eq!(p.len(), 1);
    assert_eq!(p.get(&ContentType::Text), Some(&b"abc".to_vec()));
}

#[test]
fn copy_single_type_choices() {
    let req = CopyRequest { portable_type: Some(s("HTML")), system_type: None, json: false };
    let p = copy(&req, Some(b"<b>".to_vec())).unwrap();
    assert_eq!(p.get(&ContentType::Html), Some(&b"<b>".to_vec()));
    let req = CopyRequest { portable_type: None, system_type: Some(s("text/rtf")), json: false };
    let p = copy(&req, Some(vec![1, 2])).unwrap();
    assert_eq!(p.get(&ContentType::Custom(s("text/rtf"))), Some(&vec![1, 2]));
    let req = CopyRequest { portable_type: Some(s("foo")), system_type: None, json: false };
    let e = copy(&req, Some(vec![])).unwrap_err();
    assert!(matches!(e, CliptoolsError::ArgumentError(_)));
    let req = CopyRequest { portable_type: None, system_type: None, json: false };
    let e = copy(&req, None).unwrap_err();
    assert!(matches!(e, CliptoolsError::InternalError));
    assert_eq!(e.exit_code(), 1);
    let req = CopyRequest { portable_type: None, system_type: None, json: true };
    let p = copy(&req, Some(br#"{"png": "x"}"#.to_vec())).unwrap();
    assert_eq!(p.get(&ContentType::Png), Some(&b"x".to_vec()));
}

#[test]
fn payload_set_replaces() {
    let mut p = ClipboardPayload::new();
    p.set(ContentType::Rtf, vec![1]);
    p.set(ContentType::Pdf, vec![2]);
    p.set(ContentType::Rtf, vec![3]);
    assert_eq!(p.len(), 2);
    assert_eq!(p.get(&ContentType::Rtf), Some(&vec![3]));
    assert_eq!(p.entries().len(), 2);
}

#[test]
fn paste_binary_policy() {
    let source = Some(ContentType::Custom(s("public.data")));
    let bytes = vec![0xff, 0xfe, 0x00];
    let e = paste_output(&source, Some(bytes.clone()), binary_allowed(BinaryPolicy::Never, false))
        .unwrap_err();
    assert!(matches!(e, CliptoolsError::Utf8Error));
    assert_eq!(e.exit_code(), 2);
    let e = paste_output(&source, Some(bytes.clone()), binary_allowed(BinaryPolicy::Auto, true))
        .unwrap_err();
    assert!(matches!(e, CliptoolsError::Utf8Error));
    let out = paste_output(&source, Some(bytes.clone()), binary_allowed(BinaryPolicy::Always, true));
    assert_eq!(out.unwrap(), bytes);
    let out = paste_output(&source, Some(bytes.clone()), binary_allowed(BinaryPolicy::Auto, false));
    assert_eq!(out.unwrap(), bytes);
    let out = paste_output(&source, Some(b"ok".to_vec()), false);
    assert_eq!(out.unwrap(), b"ok".to_vec());
}

#[test]
fn paste_missing_text_and_unknown_type() {
    let e = paste_output(&None, None, true).unwrap_err();
    assert!(matches!(e, CliptoolsError::DataNotFound));
    assert_eq!(e.exit_code(), 1);
    let req = PasteRequest { portable_type: Some(s("foo")), system_type: None, binary: BinaryPolicy::Auto };
    let e = paste_source(&req).unwrap_err();
    assert!(matches!(e, CliptoolsError::ArgumentError(ref m)
        if m == "unknown type: foo; try using --system-type to specify a system native type"));
    assert_eq!(e.exit_code(), 2);
    let req = PasteRequest { portable_type: Some(s("")), system_type: None, binary: BinaryPolicy::Auto };
    assert!(matches!(paste_source(&req).unwrap_err(), CliptoolsError::ArgumentError(_)));
}

#[test]
fn paste_sources() {
    let req = PasteRequest { portable_type: None, system_type: None, binary: BinaryPolicy::Auto };
    assert_eq!(paste_source(&req).unwrap(), None);
    let req = PasteRequest { portable_type: Some(s("Url")), system_type: None, binary: BinaryPolicy::Auto };
    assert_eq!(paste_source(&req).unwrap(), Some(ContentType::Url));
    let req = PasteRequest { portable_type: None, system_type: Some(s("UTF8_STRING")), binary: BinaryPolicy::Never };
    assert_eq!(paste_source(&req).unwrap(), Some(ContentType::Custom(s("UTF8_STRING"))));
    let out = paste_output(&None, Some(vec![0xff]), false);
    assert_eq!(out.unwrap(), vec![0xff]);
}

#[test]
fn exit_codes_by_kind() {
    assert_eq!(CliptoolsError::DataNotFound.exit_code(), 1);
    assert_eq!(CliptoolsError::InternalError.exit_code(), 1);
    assert_eq!(CliptoolsError::ArgumentError(s("x")).exit_code(), 2);
    assert_eq!(CliptoolsError::JsonError(s("x")).exit_code(), 2);
    assert_eq!(CliptoolsError::Utf8Error.exit_code(), 2);
}

#[test]
fn message_error_shows_its_message() {
    let e = MessageError::new(s("boom"), Some(3));
    assert_eq!(e.to_string(), "boom");
}
