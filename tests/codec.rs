use repliktor::codec::{compress_file, declared_size, decompress_file, Payload, Step};
use repliktor::errors::BackupError;
use repliktor::paths::FilePath;
use repliktor::report::RunReport;

fn path(parts: &[&str]) -> FilePath {
    FilePath { parts: parts.iter().map(|p| p.to_string()).collect() }
}

#[test]
fn round_trip_restores_bytes_and_path() {
    let data: Vec<u8> = (0..5000u32).map(|i| (i * 7 % 251) as u8).collect();
    let name = "src".to_string();
    let out = compress_file(&name, &path(&["d", "x.bin"]), &data).unwrap();
    assert_ne!(out.bytes, data);
    let out_parts: Vec<&str> = out.path.parts.iter().map(|s| s.as_str()).collect();
    assert_eq!(out_parts, vec!["src", "d", "x.bin.zst"]);
    let below = FilePath { parts: out.path.parts[1..].to_vec() };
    let back = decompress_file(&name, &below, &out.bytes).unwrap();
    assert_eq!(back.bytes, data);
    let back_parts: Vec<&str> = back.path.parts.iter().map(|s| s.as_str()).collect();
    assert_eq!(back_parts, vec!["src", "d", "x.bin"]);
}

#[test]
fn round_trip_of_empty_file() {
    let name = "src".to_string();
    let out = compress_file(&name, &path(&["e"]), &[]).unwrap();
    let back = decompress_file(&name, &path(&["e.zst"]), &out.bytes).unwrap();
    assert!(back.bytes.is_empty());
}

#[test]
fn compressing_twice_gives_identical_bytes() {
    let data = b"the same input, the same level".repeat(40);
    let name = "src".to_string();
    let a = compress_file(&name, &path(&["f.txt"]), &data).unwrap();
    let b = compress_file(&name, &path(&["f.txt"]), &data).unwrap();
    assert_eq!(a.bytes, b.bytes);
}

#[test]
fn compressed_frame_declares_source_length() {
    let data = vec![9u8; 10];
    let out = compress_file(&"s".to_string(), &path(&["x.bin"]), &data).unwrap();
    assert_eq!(declared_size(&out.bytes), Ok(Some(10)));
}

#[test]
fn declared_size_of_garbage_is_codec_error() {
    assert_eq!(declared_size(&[1, 2, 3, 4, 5, 6, 7, 8]), Err(BackupError::Codec));
}

#[test]
fn compress_without_file_name_is_path_error() {
    let r = compress_file(&"s".to_string(), &path(&[]), b"abc");
    assert!(matches!(r, Err(BackupError::Path)));
}

#[test]
fn compressed_bytes_are_a_zstd_frame() {
    let data = b"hello hello hello hello".to_vec();
    let out = compress_file(&"s".to_string(), &path(&["h.txt"]), &data).unwrap();
    assert_eq!(&out.bytes[..4], &[0x28, 0xB5, 0x2F, 0xFD]);
    assert_eq!(zstd::stream::decode_all(&out.bytes[..]).unwrap(), data);
}

#[test]
fn decompress_invalid_stream_is_codec_error() {
    let r = decompress_file(&"s".to_string(), &path(&["x.zst"]), b"not zstd data");
    assert!(matches!(r, Err(BackupError::Codec)));
}

#[test]
fn decompress_without_suffix_is_codec_error() {
    let out = compress_file(&"s".to_string(), &path(&["x"]), b"abc").unwrap();
    let r = decompress_file(&"s".to_string(), &path(&["x.gz"]), &out.bytes);
    assert!(matches!(r, Err(BackupError::Codec)));
}

#[test]
fn progress_messages_are_tagged() {
    let p = Payload::progress(Step::Compressed, "/dest/src/x.bin.zst");
    assert_eq!(p.message, "[compressed] /dest/src/x.bin.zst");
    let p = Payload::progress(Step::Decompressed, "/restore/src/x.bin");
    assert_eq!(p.message, "[decompressed] /restore/src/x.bin");
}

#[test]
fn one_file_source_gives_one_tagged_artifact() {
    let data = vec![0u8; 10];
    let out = compress_file(&"source".to_string(), &path(&["x.bin"]), &data).unwrap();
    let out_parts: Vec<&str> = out.path.parts.iter().map(|s| s.as_str()).collect();
    assert_eq!(out_parts, vec!["source", "x.bin.zst"]);
    let p = Payload::progress(Step::Compressed, "dest/source/x.bin.zst");
    assert!(p.message.starts_with("[compressed] "));
}

#[test]
fn run_report_counts_outcomes() {
    let mut r = RunReport::new();
    assert!(r.is_complete());
    r.record("a".to_string(), Ok(()));
    r.record("b".to_string(), Err(BackupError::Codec));
    r.record("c".to_string(), Ok(()));
    assert!(!r.is_complete());
    assert_eq!(r.succeeded, vec!["a".to_string(), "c".to_string()]);
    assert_eq!(r.failed, vec![("b".to_string(), BackupError::Codec)]);
    assert_eq!(r.summary(), "2 succeeded, 1 failed");
}
