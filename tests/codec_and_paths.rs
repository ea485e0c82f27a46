use cipher_core::codec::{open_chunk, seal_chunk, split_encrypted, CodecError};
use cipher_core::paths::{
    create_unique_output_path, default_output_path, progress_event, sanitize_path, timestamped_output_path,
};
use cipher_core::types::ResponseTextCode;

const KEY: [u8; 32] = [3u8; 32];
const NONCE: [u8; 24] = [9u8; 24];

#[test]
fn split_encrypted_at_ad() {
    let data: Vec<u8> = (0u8..40).collect();
    let (ad, rest) = split_encrypted(&data);
    assert_eq!(ad, (0u8..32).collect::<Vec<u8>>());
    assert_eq!(rest, (32u8..40).collect::<Vec<u8>>());
}

#[test]
fn seal_then_open_round_trip() {
    for plaintext in [vec![], vec![42u8], b"attack at dawn".to_vec()] {
        let frame = seal_chunk(&KEY, &NONCE, &plaintext).unwrap();
        assert_eq!(frame.len(), plaintext.len() + 48);
        if !plaintext.is_empty() {
            assert_ne!(&frame[32..32 + plaintext.len()], &plaintext[..]);
        }
        assert_eq!(open_chunk(&KEY, &NONCE, &frame), Ok(plaintext));
    }
}

#[test]
fn fresh_ad_per_chunk() {
    let a = seal_chunk(&KEY, &NONCE, b"same").unwrap();
    let b = seal_chunk(&KEY, &NONCE, b"same").unwrap();
    assert_ne!(&a[..32], &b[..32]);
}

#[test]
fn open_with_wrong_key_fails() {
    let frame = seal_chunk(&KEY, &NONCE, b"secret").unwrap();
    let other = [4u8; 32];
    assert_eq!(open_chunk(&other, &NONCE, &frame), Err(CodecError::AuthenticationFailed));
    let other_nonce = [1u8; 24];
    assert_eq!(open_chunk(&KEY, &other_nonce, &frame), Err(CodecError::AuthenticationFailed));
}

#[test]
fn flipped_byte_is_detected() {
    let frame = seal_chunk(&KEY, &NONCE, b"integrity matters").unwrap();
    for i in 0..frame.len() {
        let mut tampered = frame.clone();
        tampered[i] ^= 0x01;
        assert_eq!(open_chunk(&KEY, &NONCE, &tampered), Err(CodecError::AuthenticationFailed), "byte {}", i);
    }
}

#[test]
fn short_frame_is_refused() {
    assert_eq!(open_chunk(&KEY, &NONCE, &[0u8; 47]), Err(CodecError::AuthenticationFailed));
    assert_eq!(open_chunk(&KEY, &NONCE, &[]), Err(CodecError::AuthenticationFailed));
}

#[test]
fn encryption_output_paths() {
    assert_eq!(default_output_path("report.pdf", true), Ok("report.pdf.enc".to_string()));
    assert_eq!(default_output_path("/home/a/report.pdf", true), Ok("/home/a/report.pdf.enc".to_string()));
    assert_eq!(
        timestamped_output_path("/home/a/report.pdf", true, "20240102T030405"),
        Ok("/home/a/report_20240102T030405.pdf.enc".to_string())
    );
    assert_eq!(timestamped_output_path("notes", true, "T1"), Ok("notes_T1.enc".to_string()));
    assert_eq!(timestamped_output_path(".bashrc", true, "T1"), Ok(".bashrc_T1.enc".to_string()));
}

#[test]
fn decryption_output_paths() {
    assert_eq!(default_output_path("/home/a/report.pdf.enc", false), Ok("/home/a/report.pdf".to_string()));
    assert_eq!(default_output_path("notes.enc", false), Ok("notes".to_string()));
    assert_eq!(
        timestamped_output_path("/home/a/report.pdf.enc", false, "20240102T030405"),
        Ok("/home/a/report_20240102T030405.pdf".to_string())
    );
    assert_eq!(timestamped_output_path("notes.enc", false, "T1"), Ok("notes_T1".to_string()));
}

#[test]
fn output_path_errors() {
    assert_eq!(default_output_path("", true), Err(ResponseTextCode::ParentDirectoryRetrieveFailed));
    assert_eq!(default_output_path("dir/", true), Err(ResponseTextCode::FileNameExtractionFailed));
    assert_eq!(default_output_path("dir/..", true), Err(ResponseTextCode::FileNameExtractionFailed));
    assert_eq!(default_output_path("dir/notes", false), Err(ResponseTextCode::FileExtensionExtractionFailed));
    assert_eq!(default_output_path("dir/.enc", false), Err(ResponseTextCode::FileExtensionExtractionFailed));
    assert_eq!(default_output_path("dir/...enc", false), Err(ResponseTextCode::FileNameExtractionFailed));
}

#[test]
fn collision_gives_timestamped_path() {
    let taken = create_unique_output_path("report.pdf", true, true).unwrap();
    assert_ne!(taken, "report.pdf.enc");
    assert!(taken.starts_with("report_"));
    assert!(taken.ends_with(".pdf.enc"));
    let stamp = &taken["report_".len()..taken.len() - ".pdf.enc".len()];
    assert_eq!(stamp.len(), 15);
    assert_eq!(&stamp[8..9], "T");
    assert!(stamp.chars().enumerate().all(|(i, c)| i == 8 || c.is_ascii_digit()));
    assert_eq!(create_unique_output_path("report.pdf", true, false), Ok("report.pdf.enc".to_string()));
    let decrypted = create_unique_output_path("/tmp/x/report.pdf.enc", false, true).unwrap();
    assert!(decrypted.starts_with("/tmp/x/report_"));
    assert!(decrypted.ends_with(".pdf"));
}

#[test]
fn sanitized_event_names() {
    assert_eq!(sanitize_path("/home/me/my file.pdf"), "/home/me/my_file_pdf");
    assert_eq!(sanitize_path("C:/x-y_z"), "C:/x-y_z");
    assert_eq!(sanitize_path("é"), "_");
    assert_eq!(progress_event(true, "a b"), "encryption_progress_a_b");
    assert_eq!(progress_event(false, "a.enc"), "decryption_progress_a_enc");
}
