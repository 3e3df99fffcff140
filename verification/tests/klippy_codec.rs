use rmr_core::klippy::codec::KlippyUdsCodec;

#[test]
fn codec_round_trip() {
    let mut codec = KlippyUdsCodec;
    let mut buf = Vec::new();
    codec.encode(br#"{"id":1}"#, &mut buf);
    codec.encode(br#"{"id":2}"#, &mut buf);
    assert_eq!(buf, b"{\"id\":1}\n{\"id\":2}\n".to_vec());
    assert_eq!(codec.decode(&mut buf), Some(br#"{"id":1}"#.to_vec()));
    assert_eq!(codec.decode(&mut buf), Some(br#"{"id":2}"#.to_vec()));
    assert_eq!(codec.decode(&mut buf), None);
    assert!(buf.is_empty());
}

#[test]
fn codec_partial_and_empty_lines() {
    let mut codec = KlippyUdsCodec;
    let mut buf = b"{\"par".to_vec();
    assert_eq!(codec.decode(&mut buf), None);
    assert_eq!(buf, b"{\"par".to_vec());
    buf.extend_from_slice(b"tial\"}\n\n[1]\n");
    assert_eq!(codec.decode(&mut buf), Some(b"{\"partial\"}".to_vec()));
    // An empty line is dropped and yields nothing.
    assert_eq!(codec.decode(&mut buf), None);
    assert_eq!(buf, b"[1]\n".to_vec());
    assert_eq!(codec.decode(&mut buf), Some(b"[1]".to_vec()));
}

#[test]
fn codec_checks_json_text() {
    let mut codec = KlippyUdsCodec;
    let mut buf = b"{\"id\":1}\nnot json\n\n[1, 2".to_vec();
    assert_eq!(codec.decode_json(&mut buf).unwrap(), Some(br#"{"id":1}"#.to_vec()));
    let bad = codec.decode_json(&mut buf).unwrap_err();
    assert_eq!(bad.line, b"not json".to_vec());
    assert_eq!(buf, b"\n[1, 2".to_vec());
    assert_eq!(codec.decode_json(&mut buf).unwrap(), None);
    assert_eq!(codec.decode_json(&mut buf).unwrap(), None);
    assert_eq!(buf, b"[1, 2".to_vec());
    buf.extend_from_slice(b"]\n");
    assert_eq!(codec.decode_json(&mut buf).unwrap(), Some(b"[1, 2]".to_vec()));
    let mut out = Vec::new();
    codec.encode(b"\"a\\nb\"", &mut out);
    assert_eq!(codec.decode_json(&mut out).unwrap(), Some(b"\"a\\nb\"".to_vec()));
    assert!(out.is_empty());
}
