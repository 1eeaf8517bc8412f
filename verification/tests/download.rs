use mcpm::download::DownloadProgress;

#[test]
fn fresh_download_starts_at_zero() {
    let p = DownloadProgress::start(100, None);
    assert_eq!(p.downloaded, 0);
    assert_eq!(p.total_size, 100);
    assert!(!p.is_complete());
}

#[test]
fn resumed_download_starts_at_the_partial_length() {
    let p = DownloadProgress::start(100, Some(40));
    assert_eq!(p.downloaded, 40);
    assert!(!p.is_complete());
}

#[test]
fn chunks_advance_the_counter_up_to_the_total() {
    let mut p = DownloadProgress::start(100, Some(40));
    p.on_chunk(30);
    assert_eq!(p.downloaded, 70);
    assert!(!p.is_complete());
    p.on_chunk(50);
    assert_eq!(p.downloaded, 100);
    assert!(p.is_complete());
    p.on_chunk(10);
    assert_eq!(p.downloaded, 100);
}

#[test]
fn oversized_partial_file_is_capped_at_the_total() {
    let mut p = DownloadProgress::start(100, Some(150));
    assert_eq!(p.downloaded, 150);
    p.on_chunk(1);
    assert_eq!(p.downloaded, 100);
}

#[test]
fn resumed_transfer_reaches_exactly_the_total() {
    // A 10-byte remote file, 4 bytes already on disk: streaming the 6
    // remaining bytes in two chunks ends at exactly the total.
    let remote: Vec<u8> = vec![0, 1, 2, 3, 4, 5, 6, 7, 8, 9];
    let partial: Vec<u8> = remote[..4].to_vec();
    let mut file = partial.clone();
    let chunks: Vec<Vec<u8>> = vec![remote[4..7].to_vec(), remote[7..].to_vec()];
    let mut p = DownloadProgress::start(remote.len() as u64, Some(partial.len() as u64));
    for c in &chunks {
        file.extend_from_slice(c);
        p.on_chunk(c.len());
    }
    assert_eq!(file, remote);
    assert_eq!(p.downloaded, remote.len() as u64);
    assert!(p.is_complete());
}
