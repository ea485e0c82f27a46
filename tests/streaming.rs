use cipher_core::stream::{ProgressSnapshot, Stream, CHUNK_SIZE};
use cipher_core::types::ResponseTextCode;

const PASSWORD: &str = "Valid1Pass!";

/// Runs an encryption over `plaintext` in memory, as a host would: header
/// first, then one frame per chunk read. Returns the container and the reports.
fn encrypt(plaintext: &[u8], password: &str) -> (Vec<u8>, Vec<ProgressSnapshot>) {
    let (mut stream, header) = Stream::start_encryption(password, plaintext.len() as u64).unwrap();
    let mut container = header;
    let mut reports = Vec::new();
    for chunk in plaintext.chunks(stream.read_size()) {
        let out = stream.process_chunk(chunk, 0).unwrap();
        container.extend_from_slice(&out.bytes);
        reports.extend(out.report);
    }
    reports.extend(stream.finish(0));
    (container, reports)
}

/// Runs a decryption over a container in memory; stops at the first failure.
fn decrypt(container: &[u8], password: &str) -> Result<(Vec<u8>, Vec<ProgressSnapshot>), ResponseTextCode> {
    let header_len = container.len().min(24);
    let mut stream = Stream::start_decryption(password, &container[..header_len], container.len() as u64)?;
    let mut plaintext = Vec::new();
    let mut reports = Vec::new();
    for frame in container[header_len..].chunks(stream.read_size()) {
        let out = stream.process_chunk(frame, 0)?;
        plaintext.extend_from_slice(&out.bytes);
        reports.extend(out.report);
    }
    reports.extend(stream.finish(0));
    Ok((plaintext, reports))
}

fn sample(len: usize) -> Vec<u8> {
    (0..len).map(|i| (i * 31 % 251) as u8).collect()
}

#[test]
fn round_trip_small_sizes() {
    for len in [0usize, 1, 100] {
        let plaintext = sample(len);
        let (container, _) = encrypt(&plaintext, PASSWORD);
        assert_eq!(container.len(), 24 + if len == 0 { 0 } else { len + 48 });
        assert_eq!(decrypt(&container, PASSWORD).unwrap().0, plaintext);
    }
}

#[test]
fn round_trip_chunk_boundaries() {
    for len in [CHUNK_SIZE - 1, CHUNK_SIZE, 2 * CHUNK_SIZE + 5] {
        let plaintext = sample(len);
        let (container, _) = encrypt(&plaintext, PASSWORD);
        assert_eq!(decrypt(&container, PASSWORD).unwrap().0, plaintext);
    }
}

#[test]
fn one_byte_over_chunk_gives_two_frames() {
    let plaintext = sample(CHUNK_SIZE + 1);
    let (container, _) = encrypt(&plaintext, PASSWORD);
    assert_eq!(container.len(), 24 + (CHUNK_SIZE + 48) + (1 + 48));
    let frames: Vec<&[u8]> = container[24..].chunks(CHUNK_SIZE + 48).collect();
    assert_eq!(frames.len(), 2);
    assert_eq!(frames[1].len(), 1 + 16 + 32);
    assert_eq!(decrypt(&container, PASSWORD).unwrap().0, plaintext);
}

#[test]
fn wrong_password_is_invalid_password() {
    let (container, _) = encrypt(&sample(1000), PASSWORD);
    assert_eq!(decrypt(&container, "Other1Pass!").unwrap_err(), ResponseTextCode::InvalidPassword);
}

#[test]
fn corrupt_later_chunk_fails_at_that_chunk() {
    let plaintext = sample(CHUNK_SIZE + 10);
    let (mut container, _) = encrypt(&plaintext, PASSWORD);
    let last = container.len() - 1;
    container[last] ^= 0x80;
    let mut stream = Stream::start_decryption(PASSWORD, &container[..24], container.len() as u64).unwrap();
    let frames: Vec<&[u8]> = container[24..].chunks(stream.read_size()).collect();
    assert!(stream.process_chunk(frames[0], 0).is_ok());
    let processed = stream.bytes_processed();
    assert_eq!(stream.process_chunk(frames[1], 0).err(), Some(ResponseTextCode::InvalidPassword));
    assert_eq!(stream.bytes_processed(), processed);
}

#[test]
fn truncated_header_is_decryption_failure() {
    assert_eq!(Stream::start_decryption(PASSWORD, &[0u8; 10], 10).err(), Some(ResponseTextCode::DecryptionFailed));
}

#[test]
fn streams_refuse_passwords_that_break_the_policy() {
    assert_eq!(Stream::start_encryption("", 10).err(), Some(ResponseTextCode::InvalidPassword));
    assert_eq!(Stream::start_encryption("short1!", 10).err(), Some(ResponseTextCode::InvalidPassword));
    assert_eq!(Stream::start_decryption("NoSpecial123", &[0u8; 24], 24).err(), Some(ResponseTextCode::InvalidPassword));
    assert_eq!(Stream::start_decryption("NoSpecial123", &[0u8; 3], 24).err(), Some(ResponseTextCode::InvalidPassword));
}

#[test]
fn progress_is_monotone_and_reaches_total() {
    let plaintext = sample(3 * CHUNK_SIZE + 7);
    let (container, reports) = encrypt(&plaintext, PASSWORD);
    assert!(!reports.is_empty());
    assert!(reports.windows(2).all(|w| w[0].bytes_processed <= w[1].bytes_processed));
    assert_eq!(reports.last().unwrap().bytes_processed, plaintext.len() as u64);
    assert_eq!(reports.last().unwrap().total_bytes, plaintext.len() as u64);

    let (_, reports) = decrypt(&container, PASSWORD).unwrap();
    assert!(reports.windows(2).all(|w| w[0].bytes_processed <= w[1].bytes_processed));
    assert_eq!(reports.last().unwrap().bytes_processed, container.len() as u64);
    assert_eq!(reports.last().unwrap().total_bytes, container.len() as u64);
}

#[test]
fn reports_are_throttled() {
    let total = 4 * 10u64;
    let (mut stream, _) = Stream::start_encryption(PASSWORD, total).unwrap();
    let chunk = [1u8; 10];
    let first = stream.process_chunk(&chunk, 0).unwrap().report;
    assert_eq!(first, Some(ProgressSnapshot { bytes_processed: 10, total_bytes: 40, elapsed_millis: 0 }));
    assert_eq!(stream.process_chunk(&chunk, 10).unwrap().report, None);
    assert_eq!(
        stream.process_chunk(&chunk, 30).unwrap().report,
        Some(ProgressSnapshot { bytes_processed: 30, total_bytes: 40, elapsed_millis: 30 })
    );
    assert_eq!(
        stream.process_chunk(&chunk, 31).unwrap().report,
        Some(ProgressSnapshot { bytes_processed: 40, total_bytes: 40, elapsed_millis: 31 })
    );
    assert_eq!(stream.finish(32), None);
}

#[test]
fn empty_source_reports_once_at_finish() {
    let (mut stream, _) = Stream::start_encryption(PASSWORD, 0).unwrap();
    assert_eq!(stream.finish(5), Some(ProgressSnapshot { bytes_processed: 0, total_bytes: 0, elapsed_millis: 5 }));
    assert_eq!(stream.finish(6), None);
}

#[test]
fn stream_codes() {
    let (stream, _) = Stream::start_encryption(PASSWORD, 0).unwrap();
    assert!(stream.is_encryption());
    assert_eq!(stream.read_size(), CHUNK_SIZE);
    assert_eq!(stream.failure_code(), ResponseTextCode::EncryptionFailed);
    assert_eq!(stream.success_code(), ResponseTextCode::EncryptionSuccessful);
    let dec = Stream::start_decryption(PASSWORD, &[0u8; 24], 24).unwrap();
    assert_eq!(dec.read_size(), CHUNK_SIZE + 48);
    assert_eq!(dec.bytes_processed(), 24);
    assert_eq!(dec.total_bytes(), 24);
    assert_eq!(dec.failure_code(), ResponseTextCode::DecryptionFailed);
    assert_eq!(dec.success_code(), ResponseTextCode::DecryptionSuccessful);
}
