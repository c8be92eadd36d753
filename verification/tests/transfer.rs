use launcher_core::download_manager::{
    DownloadManager, DownloadRequest, DownloadTask, OpenMode, RemoteRejection, RATE_WINDOW_MS,
};
use launcher_core::file_manager::FileManager;
use launcher_core::types::DownloadProgress;

/// A source of `len` bytes that differ from place to place.
fn source(len: usize) -> Vec<u8> {
    let mut bytes = Vec::with_capacity(len);
    for i in 0..len {
        bytes.push(((i * 31 + i / 251) % 256) as u8);
    }
    bytes
}

/// Opens the destination as the task asks.
fn open(task: &DownloadTask, file: &mut Vec<u8>) {
    match task.open_mode() {
        OpenMode::Truncate => file.clear(),
        OpenMode::Append => {}
    }
}

/// Accepts the response or fails the test.
fn accept(
    request: DownloadRequest,
    status: u16,
    content_length: Option<u64>,
    now_ms: u64,
) -> DownloadTask {
    match request.on_response(status, content_length, now_ms) {
        Ok(task) => task,
        Err(rejection) => panic!("rejected with status {}", rejection.status),
    }
}

/// Writes the chunks to the file and gives the samples.
fn stream(
    task: &mut DownloadTask,
    file: &mut Vec<u8>,
    chunks: &[&[u8]],
    first_ms: u64,
) -> Vec<DownloadProgress> {
    let mut samples = Vec::new();
    let mut now = first_ms;
    for chunk in chunks {
        file.extend_from_slice(chunk);
        samples.push(task.on_chunk(chunk, now));
        now += 100;
    }
    samples
}

#[test]
fn fresh_download_asks_for_no_range() {
    let request = DownloadManager::download_file();
    assert_eq!(request.resume_offset, 0);
    assert_eq!(request.range_header(), None);
}

#[test]
fn resume_with_nothing_on_disk_is_a_fresh_download() {
    let request = DownloadManager::resume_download(0);
    assert_eq!(request, DownloadManager::download_file());
    assert_eq!(request.range_header(), None);
    let task = accept(request, 200, Some(10), 0);
    assert_eq!(task.open_mode(), OpenMode::Truncate);
}

#[test]
fn resume_asks_for_the_rest() {
    let request = DownloadManager::resume_download(8192);
    assert_eq!(request.range_header(), Some("bytes=8192-".to_string()));
    assert_eq!(
        DownloadManager::resume_download(1).range_header(),
        Some("bytes=1-".to_string())
    );
    assert_eq!(
        DownloadManager::resume_download(u64::MAX).range_header(),
        Some("bytes=18446744073709551615-".to_string())
    );
}

#[test]
fn fresh_download_truncates_and_takes_the_declared_length() {
    let task = accept(DownloadManager::download_file(), 200, Some(10_000), 0);
    assert_eq!(task.open_mode(), OpenMode::Truncate);
    assert_eq!(task.total_bytes(), 10_000);
    assert_eq!(task.downloaded_bytes(), 0);
    assert_eq!(
        task.progress(),
        DownloadProgress { downloaded_bytes: 0, total_bytes: 10_000, bytes_per_second: 0 }
    );
}

#[test]
fn honored_range_appends_and_adds_the_offset_to_the_total() {
    let task = accept(DownloadManager::resume_download(8192), 206, Some(1808), 0);
    assert_eq!(task.open_mode(), OpenMode::Append);
    assert_eq!(task.total_bytes(), 10_000);
    assert_eq!(task.downloaded_bytes(), 8192);
}

#[test]
fn ignored_range_starts_the_file_over() {
    let task = accept(DownloadManager::resume_download(8192), 200, Some(10_000), 0);
    assert_eq!(task.open_mode(), OpenMode::Truncate);
    assert_eq!(task.total_bytes(), 10_000);
    assert_eq!(task.downloaded_bytes(), 0);
}

#[test]
fn unknown_length_leaves_the_total_unknown() {
    let fresh = accept(DownloadManager::download_file(), 200, None, 0);
    assert_eq!(fresh.total_bytes(), 0);
    let resumed = accept(DownloadManager::resume_download(500), 206, None, 0);
    assert_eq!(resumed.total_bytes(), 0);
    assert_eq!(resumed.downloaded_bytes(), 500);
    assert_eq!(resumed.progress().percent_hundredths(), None);
}

#[test]
fn status_outside_the_successes_is_rejected() {
    for status in [100u16, 199, 300, 304, 404, 416, 500, 503] {
        let outcome = DownloadManager::resume_download(10).on_response(status, Some(5), 0);
        match outcome {
            Ok(_) => panic!("status {} was accepted", status),
            Err(rejection) => assert_eq!(rejection, RemoteRejection { status }),
        }
    }
}

#[test]
fn rejection_message_holds_status_and_body() {
    let rejection = RemoteRejection { status: 404 };
    assert_eq!(rejection.message("Not Found"), "Download rejected (404): Not Found");
    assert_eq!(RemoteRejection { status: 503 }.message(""), "Download rejected (503): ");
}

#[test]
fn every_success_status_is_accepted() {
    for status in [200u16, 201, 204, 206, 299] {
        assert!(DownloadManager::download_file().on_response(status, None, 0).is_ok());
    }
}

#[test]
fn samples_count_every_byte_and_never_go_back() {
    let data = source(10_000);
    let chunks: [&[u8]; 3] = [&data[..4096], &data[4096..8192], &data[8192..]];
    let mut file = Vec::new();
    let mut task = accept(DownloadManager::download_file(), 200, Some(10_000), 0);
    open(&task, &mut file);
    let samples = stream(&mut task, &mut file, &chunks, 10);
    let counts: Vec<u64> = samples.iter().map(|sample| sample.downloaded_bytes).collect();
    assert_eq!(counts, vec![4096, 8192, 10_000]);
    for pair in samples.windows(2) {
        assert!(pair[0].downloaded_bytes <= pair[1].downloaded_bytes);
    }
    for sample in &samples {
        assert_eq!(sample.total_bytes, 10_000);
    }
    assert_eq!(task.downloaded_bytes(), 10_000);
    assert_eq!(file, data);
}

#[test]
fn resumed_samples_start_at_the_offset() {
    let data = source(1808);
    let mut task = accept(DownloadManager::resume_download(8192), 206, Some(1808), 0);
    let first = task.on_chunk(&data[..1000], 1);
    let second = task.on_chunk(&data[1000..], 2);
    assert_eq!(first.downloaded_bytes, 9192);
    assert_eq!(second.downloaded_bytes, 10_000);
    assert_eq!(second.total_bytes, 10_000);
    assert_eq!(second.percent_hundredths(), Some(10_000));
}

#[test]
fn empty_chunk_changes_no_count() {
    let mut task = accept(DownloadManager::download_file(), 200, Some(4), 0);
    let before = task.on_chunk(&[1, 2], 1);
    let after = task.on_chunk(&[], 2);
    assert_eq!(before.downloaded_bytes, 2);
    assert_eq!(after.downloaded_bytes, 2);
}

#[test]
fn resume_after_interruption_rebuilds_the_source() {
    let data = source(10_000);
    let digest = FileManager::calculate_file_hash(&data);

    // One attempt that is not cut.
    let mut single = vec![0xffu8; 7];
    let mut task = accept(DownloadManager::download_file(), 200, Some(10_000), 0);
    open(&task, &mut single);
    stream(&mut task, &mut single, &[&data[..4096], &data[4096..8192], &data[8192..]], 0);

    // The first attempt is cut after two chunks.
    let mut file = vec![0xffu8; 7];
    let mut task = accept(DownloadManager::download_file(), 200, Some(10_000), 0);
    open(&task, &mut file);
    let samples = stream(&mut task, &mut file, &[&data[..4096], &data[4096..8192]], 0);
    assert_eq!(samples[1].downloaded_bytes, 8192);
    assert_eq!(task.downloaded_bytes(), 8192);
    assert_eq!(file.len(), 8192);
    assert_eq!(file[..], data[..8192]);

    // The second attempt takes the rest.
    let request = DownloadManager::resume_download(file.len() as u64);
    assert_eq!(request.range_header(), Some("bytes=8192-".to_string()));
    let mut task = accept(request, 206, Some(1808), 0);
    open(&task, &mut file);
    let samples = stream(&mut task, &mut file, &[&data[8192..]], 0);
    assert_eq!(samples[0].downloaded_bytes, 10_000);
    assert_eq!(samples[0].total_bytes, 10_000);

    assert_eq!(file.len(), 10_000);
    assert_eq!(file, single);
    assert_eq!(file, data);
    assert_eq!(FileManager::calculate_file_hash(&file), digest);
    assert!(FileManager::verify_file_integrity(&file, &digest));
}

#[test]
fn resume_against_a_server_without_ranges_rebuilds_the_source() {
    let data = source(5000);
    let mut file = data[..3000].to_vec();
    let mut task = accept(DownloadManager::resume_download(3000), 200, Some(5000), 0);
    open(&task, &mut file);
    let samples = stream(&mut task, &mut file, &[&data[..2500], &data[2500..]], 0);
    assert_eq!(samples[1].downloaded_bytes, 5000);
    assert_eq!(file, data);
}

#[test]
fn interruption_keeps_what_was_received() {
    let data = source(6000);
    let mut file = Vec::new();
    let mut task = accept(DownloadManager::download_file(), 200, Some(6000), 0);
    open(&task, &mut file);
    stream(&mut task, &mut file, &[&data[..1024], &data[1024..2048], &data[2048..2500]], 0);
    // The stream breaks here; nothing else touches the file.
    assert_eq!(task.downloaded_bytes(), 2500);
    assert_eq!(file.len() as u64, task.downloaded_bytes());
    assert_eq!(file[..], data[..2500]);
}

#[test]
fn rate_is_measured_over_full_windows() {
    assert_eq!(RATE_WINDOW_MS, 1000);
    let data = source(10_000);
    let mut task = accept(DownloadManager::download_file(), 200, Some(10_000), 0);
    // Half a window: no rate yet.
    let first = task.on_chunk(&data[..4096], 500);
    assert_eq!(first.bytes_per_second, 0);
    // The window is full: 8192 bytes in 1000 ms.
    let second = task.on_chunk(&data[4096..8192], 1000);
    assert_eq!(second.bytes_per_second, 8192);
    // The next window lasts 2000 ms and holds 1808 bytes.
    let third = task.on_chunk(&data[8192..], 3000);
    assert_eq!(third.bytes_per_second, 904);
}

#[test]
fn rate_ignores_intervals_of_no_length() {
    let mut task = accept(DownloadManager::download_file(), 200, None, 100);
    assert_eq!(task.on_chunk(&[0u8; 64], 100).bytes_per_second, 0);
    assert_eq!(task.on_chunk(&[0u8; 64], 100).bytes_per_second, 0);
    // A clock that goes back does not close the window either.
    assert_eq!(task.on_chunk(&[0u8; 64], 50).bytes_per_second, 0);
    // 256 bytes in 1600 ms.
    assert_eq!(task.on_chunk(&[0u8; 64], 1700).bytes_per_second, 160);
    // The rate stays until the next window is full.
    assert_eq!(task.on_chunk(&[0u8; 64], 1800).bytes_per_second, 160);
}

#[test]
fn percent_is_in_hundredths_and_rounds_down() {
    let sample = DownloadProgress { downloaded_bytes: 8192, total_bytes: 10_000, bytes_per_second: 0 };
    assert_eq!(sample.percent_hundredths(), Some(8192));
    let third = DownloadProgress { downloaded_bytes: 1, total_bytes: 3, bytes_per_second: 0 };
    assert_eq!(third.percent_hundredths(), Some(3333));
    let none = DownloadProgress { downloaded_bytes: 0, total_bytes: 10, bytes_per_second: 0 };
    assert_eq!(none.percent_hundredths(), Some(0));
    let unknown = DownloadProgress { downloaded_bytes: 5, total_bytes: 0, bytes_per_second: 0 };
    assert_eq!(unknown.percent_hundredths(), None);
    let beyond = DownloadProgress { downloaded_bytes: u64::MAX, total_bytes: 1, bytes_per_second: 0 };
    assert_eq!(beyond.percent_hundredths(), Some(u64::MAX as u128 * 10_000));
}
