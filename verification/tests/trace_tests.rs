use skip_if_tree_ok_in_past::trace::{
    ancestor_marker_bytes, done_marker_bytes, get_trace_url, scan_chunk, scan_chunks, ChunkStep,
    MAX_TRACE_SIZE,
};

#[test]
fn test_get_trace_url() {
    assert_eq!(
        get_trace_url(
            "http://gitlab-fake-api/api/projects/123/jobs",
            456,
            "___API_READ_TOKEN___"
        ),
        "http://gitlab-fake-api/api/projects/123/jobs/456/trace?private_token=___API_READ_TOKEN___"
    );
}

#[test]
fn marker_bytes_spell_the_marker_texts() {
    assert_eq!(ancestor_marker_bytes(), b"[skip-ci-oldest-ancestor]".to_vec());
    assert_eq!(done_marker_bytes(), b"[skip-ci-done]".to_vec());
}

#[test]
fn ancestor_value_is_extracted_from_a_chunk() {
    let chunk =
        b"job log...\n[skip-ci-oldest-ancestor]=http://gitlab-fake-api/api/projects/123/jobs/11\nrest\n"
            .to_vec();
    match scan_chunk(&chunk, 0) {
        ChunkStep::Found(value) => assert_eq!(
            value,
            b"http://gitlab-fake-api/api/projects/123/jobs/11".to_vec()
        ),
        _ => panic!("expected the ancestor value"),
    }
}

#[test]
fn done_marker_stops_the_scan() {
    let chunk = b"some output\n[skip-ci-done]\nmore\n".to_vec();
    assert!(matches!(scan_chunk(&chunk, 0), ChunkStep::Stop));
    let stream = vec![
        b"first chunk\n".to_vec(),
        b"[skip-ci-done]\n".to_vec(),
        b"[skip-ci-oldest-ancestor]=http://late/too-late\n".to_vec(),
    ];
    assert_eq!(scan_chunks(&stream), None);
}

#[test]
fn ancestor_in_the_same_chunk_wins_over_done() {
    let chunk = b"[skip-ci-oldest-ancestor]=http://a/b\n[skip-ci-done]\n".to_vec();
    match scan_chunk(&chunk, 0) {
        ChunkStep::Found(value) => assert_eq!(value, b"http://a/b".to_vec()),
        _ => panic!("expected the ancestor value"),
    }
}

#[test]
fn an_undecided_chunk_only_accumulates() {
    let chunk = b"abc".to_vec();
    match scan_chunk(&chunk, 5) {
        ChunkStep::More(total) => assert_eq!(total, 8),
        _ => panic!("expected accumulation"),
    }
}

#[test]
fn crossing_the_size_cap_stops_the_scan() {
    let big = vec![0u8; MAX_TRACE_SIZE + 1];
    assert!(matches!(scan_chunk(&big, 0), ChunkStep::Stop));
    let stream = vec![
        vec![0u8; MAX_TRACE_SIZE],
        vec![0u8; 1],
        b"[skip-ci-oldest-ancestor]=http://gitlab-fake-api/api/projects/123/jobs/11\n\n".to_vec(),
    ];
    assert_eq!(scan_chunks(&stream), None);
}

#[test]
fn scan_up_to_the_cap_still_finds_the_marker() {
    let stream = vec![
        vec![0u8; MAX_TRACE_SIZE],
        b"[skip-ci-oldest-ancestor]=http://gitlab-fake-api/api/projects/123/jobs/11\n".to_vec(),
    ];
    assert_eq!(
        scan_chunks(&stream),
        Some(b"http://gitlab-fake-api/api/projects/123/jobs/11".to_vec())
    );
}

#[test]
fn a_marker_without_its_line_end_in_the_chunk_is_missed() {
    let stream = vec![
        b"[skip-ci-oldest-ancestor]=http://gitlab".to_vec(),
        b"-fake-api/api/projects/123/jobs/11\n".to_vec(),
    ];
    assert_eq!(scan_chunks(&stream), None);
}

#[test]
fn a_marker_with_an_immediate_line_end_yields_an_empty_value() {
    let chunk = b"x[skip-ci-oldest-ancestor]\n".to_vec();
    match scan_chunk(&chunk, 0) {
        ChunkStep::Found(value) => assert_eq!(value, Vec::<u8>::new()),
        _ => panic!("expected an empty value"),
    }
}

#[test]
fn the_first_chunk_with_the_marker_decides() {
    let stream = vec![
        b"noise\n".to_vec(),
        b"[skip-ci-oldest-ancestor]=http://first\n".to_vec(),
        b"[skip-ci-oldest-ancestor]=http://second\n".to_vec(),
    ];
    assert_eq!(scan_chunks(&stream), Some(b"http://first".to_vec()));
}

#[test]
fn an_empty_stream_finds_nothing() {
    assert_eq!(scan_chunks(&Vec::new()), None);
}
