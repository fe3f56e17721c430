use tollgate::durable_log::{durable_log_tail_start, read_durable_log, verify_durable_log};
use tollgate::json::read_json;
use tollgate::log_frame::{LogFrame, WallTime};
use tollgate::log_writer::{log_index_path, DurableLogWriter};
use tollgate::runner::{LogStream, SealedLog};

fn noon() -> WallTime {
    WallTime {
        year: 2026,
        ordinal: 100,
        hour: 12,
        minute: 0,
        second: 0,
        nanosecond: 0,
        offset_hours: 0,
        offset_minutes: 0,
        offset_seconds: 0,
    }
}

/// Writes output to a log: its bytes, its index, and its seal.
fn written(output: &[(LogStream, &[u8])]) -> (Vec<u8>, Vec<u8>, SealedLog) {
    let mut writer = DurableLogWriter::create();
    let mut bytes: Vec<u8> = Vec::new();
    let mut index: Vec<u8> = Vec::new();
    for (stream, payload) in output {
        let appended = writer.append(*stream, payload, 7, noon());
        bytes.extend_from_slice(&appended.record);
        index.extend_from_slice(&appended.index_record);
    }
    (bytes, index, writer.seal("indexed.tlog"))
}

#[test]
fn durable_log_index_seeks_and_streaming_verification_matches_the_seal() {
    let (bytes, index, seal) = written(&[
        (LogStream::Stdout, b"one"),
        (LogStream::Stderr, b"two"),
        (LogStream::Stdout, b"three"),
    ]);

    let tail = read_durable_log(&bytes, Some(&index), 2, 10).unwrap();
    assert_eq!(tail.len(), 2);
    assert_eq!(tail[0].frame.broker_sequence, 2);
    assert_eq!(tail[0].text, "two");
    assert_eq!(tail[1].text, "three");
    assert!(verify_durable_log(&bytes, &seal.hash, seal.stdout_end, seal.stderr_end).unwrap());
}

#[test]
fn captures_stdout_and_stderr_without_utf8_assumptions() {
    let (bytes, index, seal) = written(&[
        (LogStream::Stdout, b"out"),
        (LogStream::Stderr, b"e\xffr"),
    ]);
    assert_eq!(seal.stdout_end, 3);
    assert_eq!(seal.stderr_end, 3);
    assert_ne!(seal.hash, "");
    let frames = read_durable_log(&bytes, Some(&index), 1, 10).unwrap();
    assert!(!frames[0].invalid_utf8);
    assert!(frames[1].invalid_utf8);
    assert_eq!(frames[1].text, "e\u{fffd}r");
}

#[test]
fn a_log_without_an_index_is_read_from_the_start() {
    let (bytes, index, _) = written(&[(LogStream::Stdout, b"one"), (LogStream::Stdout, b"two")]);
    assert_eq!(
        read_durable_log(&bytes, None, 2, 10),
        read_durable_log(&bytes, Some(&index), 2, 10)
    );
    assert_eq!(read_durable_log(&bytes, Some(&index), 1, 1).unwrap().len(), 1);
    assert!(read_durable_log(&bytes, Some(&index), 9, 1).unwrap().is_empty());
}

#[test]
fn a_changed_log_does_not_match_its_seal() {
    let (mut bytes, _, seal) = written(&[(LogStream::Stdout, b"one")]);
    assert!(verify_durable_log(&bytes, &seal.hash, 3, 0).unwrap());
    assert!(!verify_durable_log(&bytes, &seal.hash, 4, 0).unwrap());
    assert!(!verify_durable_log(&bytes, "other", 3, 0).unwrap());
    let last = bytes.len() - 1;
    bytes[last] ^= 1;
    assert!(!verify_durable_log(&bytes, &seal.hash, 3, 0).unwrap());
    bytes.truncate(last);
    assert!(verify_durable_log(&bytes, &seal.hash, 3, 0).is_err());
}

#[test]
fn a_broken_index_is_refused() {
    let (bytes, index, _) = written(&[(LogStream::Stdout, b"one"), (LogStream::Stdout, b"two")]);
    assert!(read_durable_log(&bytes, Some(&index[1..]), 2, 1).is_err());
}

#[test]
fn the_tail_of_a_log_starts_where_the_index_says() {
    assert_eq!(durable_log_tail_start(None, 5), Ok(0));
    let record = written(&[(LogStream::Stdout, b"x")]).1.len() as u64;
    assert_eq!(durable_log_tail_start(Some(record * 9), 5), Ok(5));
    assert_eq!(durable_log_tail_start(Some(record * 3), 5), Ok(1));
    assert!(durable_log_tail_start(Some(record + 1), 5).is_err());
}

#[test]
fn a_log_frame_reads_back_as_it_was_written() {
    let frame = LogFrame {
        stream: LogStream::Stderr,
        stream_offset: 5,
        broker_sequence: 2,
        monotonic_ns: 7,
        wall_time: noon(),
        payload_len: 3,
    };
    let text = String::from_utf8(frame.to_json()).unwrap();
    assert!(text.contains("\"stream\":\"stderr\""));
    assert!(text.contains("[2026,100,12,0,0,0,0,0,0]"));
    let list = b"[\"stderr\",5,2,7,[2026,100,12,0,0,0,0,0,0],3]";
    assert_eq!(LogFrame::read(&read_json(list).unwrap()), Some(frame));
    assert_eq!(log_index_path("/logs/a.tlog"), "/logs/a.tlog.idx");
}

#[test]
fn a_log_frame_is_read_in_each_of_its_forms() {
    let tagged = b"[{\"stderr\":null},5,2,7,[2026,100,12,0,0,0,-5,30,-15],3]";
    let frame = LogFrame::read(&read_json(tagged).unwrap()).unwrap();
    assert_eq!(frame.stream, LogStream::Stderr);
    // All of an offset is on the side of UTC on which its hours are.
    assert_eq!(frame.wall_time.offset_hours, -5);
    assert_eq!(frame.wall_time.offset_minutes, -30);
    assert_eq!(frame.wall_time.offset_seconds, -15);
    for spoiled in [
        "[{\"stderr\":1},5,2,7,[2026,100,12,0,0,0,0,0,0],3]",
        "[{\"stderr\":null,\"stdout\":null},5,2,7,[2026,100,12,0,0,0,0,0,0],3]",
        "[\"stderr\",5,2,7,[2026,366,12,0,0,0,0,0,0],3]",
        "[\"stderr\",5,2,7,[2026,100,12,0,0,0,0,60,0],3]",
    ] {
        assert_eq!(LogFrame::read(&read_json(spoiled.as_bytes()).unwrap()), None);
    }
}
