use nativeshell::data_util::DataUtil;

fn unit_bytes(units: &[u16]) -> Vec<u8> {
    let mut out = Vec::new();
    for u in units {
        out.extend_from_slice(&u.to_le_bytes());
    }
    out
}

fn header(offset: u32, wide: bool) -> Vec<u8> {
    let mut h = Vec::new();
    h.extend_from_slice(&offset.to_le_bytes());
    h.extend_from_slice(&[0u8; 12]);
    h.extend_from_slice(&(if wide { 1u32 } else { 0u32 }).to_le_bytes());
    h
}

#[test]
fn bundle_files_layout() {
    let block = DataUtil::bundle_files(&["a".to_string(), "bc".to_string()]);
    let mut expected = header(20, true);
    expected.extend_from_slice(&unit_bytes(&[0x61, 0, 0x62, 0x63, 0, 0]));
    assert_eq!(block, expected);
}

#[test]
fn bundle_files_empty_list() {
    let block = DataUtil::bundle_files(&[]);
    let mut expected = header(20, true);
    expected.extend_from_slice(&[0, 0]);
    assert_eq!(block, expected);
}

#[test]
fn extract_files_reads_back_bundle() {
    let files = vec![
        "C:\\Users\\me\\report.txt".to_string(),
        "D:\\\u{e9}t\u{e9}\\\u{1F600}.png".to_string(),
    ];
    let block = DataUtil::bundle_files(&files);
    assert_eq!(DataUtil::extract_files(block), files);
}

#[test]
fn extract_files_stops_at_empty_name() {
    let mut block = header(20, true);
    block.extend_from_slice(&unit_bytes(&[0x61, 0, 0, 0x62, 0, 0]));
    assert_eq!(DataUtil::extract_files(block), vec!["a".to_string()]);
}

#[test]
fn extract_files_honours_offset() {
    let mut block = header(24, true);
    block.extend_from_slice(&[7, 7, 7, 7]);
    block.extend_from_slice(&unit_bytes(&[0x78, 0, 0]));
    assert_eq!(DataUtil::extract_files(block), vec!["x".to_string()]);
}

#[test]
fn extract_files_decodes_surrogates() {
    let mut block = header(20, true);
    block.extend_from_slice(&unit_bytes(&[0xD83D, 0xDE00, 0xD800, 0x41, 0, 0]));
    assert_eq!(
        DataUtil::extract_files(block),
        vec!["\u{1F600}\u{FFFD}A".to_string()]
    );
}

#[test]
fn extract_files_byte_names() {
    let mut block = header(20, false);
    block.extend_from_slice(b"C:\\file.txt\0");
    assert_eq!(DataUtil::extract_files(block), vec!["C:\\file.txt".to_string()]);
}

#[test]
fn extract_files_byte_names_empty() {
    let mut block = header(20, false);
    block.push(0);
    assert_eq!(DataUtil::extract_files(block), Vec::<String>::new());
}

#[test]
fn extract_files_byte_names_invalid_utf8() {
    let mut block = header(20, false);
    block.extend_from_slice(&[0x61, 0xFF, 0x62, 0]);
    assert_eq!(DataUtil::extract_files(block), vec!["a\u{FFFD}b".to_string()]);
}

#[test]
fn bundle_url_w_layout() {
    let data = DataUtil::bundle_url_w("http://x/\u{1F600}");
    let mut expected = unit_bytes(&[
        0x68, 0x74, 0x74, 0x70, 0x3A, 0x2F, 0x2F, 0x78, 0x2F, 0xD83D, 0xDE00,
    ]);
    expected.extend_from_slice(&[0, 0]);
    assert_eq!(data, expected);
}

#[test]
fn extract_url_w_reads_back_bundle() {
    let url = "https://example.com/\u{e9}";
    let data = DataUtil::bundle_url_w(url);
    assert_eq!(DataUtil::extract_url_w(&data), url);
}

#[test]
fn extract_url_w_stops_at_nul() {
    let data = unit_bytes(&[0x61, 0x62, 0, 0x63, 0]);
    assert_eq!(DataUtil::extract_url_w(&data), "ab");
}

#[test]
fn extract_url_bytes() {
    assert_eq!(DataUtil::extract_url(b"http://a.b/c\0"), "http://a.b/c");
    assert_eq!(DataUtil::extract_url(b"\0"), "");
}
