use file_transfer::client::{Client, ClientAction, ClientPhase};
use file_transfer::containment::{is_within, join_request_path, resolve_request};
use file_transfer::error::TransferError;
use file_transfer::receiver::ResponseReader;
use file_transfer::server::{ServerAction, ServerConnection, ServerPhase};
use file_transfer::wire::{
    decode_header, decode_le, decode_length_prefix, encode_header, encode_le, encode_request,
    parse_request,
};

/// Resolves `.` and `..` the way a filesystem without symlinks would; `None`
/// where the path names no file in `files`.
fn canonicalize(path: &[u8], files: &[(Vec<u8>, Vec<u8>)]) -> Option<Vec<u8>> {
    let mut parts: Vec<&[u8]> = Vec::new();
    for part in path.split(|b| *b == b'/') {
        match part {
            b"" | b"." => {}
            b".." => {
                parts.pop();
            }
            p => parts.push(p),
        }
    }
    let mut out = Vec::new();
    for p in parts {
        out.push(b'/');
        out.extend_from_slice(p);
    }
    if out.is_empty() {
        out.push(b'/');
    }
    if files.iter().any(|(name, _)| *name == out) {
        Some(out)
    } else {
        None
    }
}

/// Drives one server connection over an in-memory filesystem, reading the
/// file in chunks of `chunk` bytes; returns what it wrote to the socket and
/// how it closed.
fn serve(
    root: &[u8],
    files: &[(Vec<u8>, Vec<u8>)],
    request: &[u8],
    chunk: usize,
) -> (Vec<u8>, Result<u64, TransferError>) {
    let (mut conn, mut action) = ServerConnection::new(root);
    let mut input = request.to_vec();
    let mut output = Vec::new();
    let mut content: Vec<u8> = Vec::new();
    let mut offset = 0usize;
    let mut last = 0usize;
    loop {
        action = match action {
            ServerAction::ReadExact(n) => {
                let got = if input.len() >= n {
                    Some(input.drain(..n).collect::<Vec<u8>>())
                } else {
                    None
                };
                if conn.phase() == ServerPhase::AwaitingPrefix {
                    conn.on_prefix(got.as_deref())
                } else {
                    conn.on_path(got.as_deref())
                }
            }
            ServerAction::Resolve(p) => conn.on_resolved(canonicalize(&p, files)),
            ServerAction::Open(p) => {
                let found = files.iter().find(|(name, _)| *name == p);
                let size = found.map(|(_, data)| data.len() as u64);
                if let Some((_, data)) = found {
                    content = data.clone();
                }
                conn.on_opened(size)
            }
            ServerAction::SendHeader(h) => {
                output.extend_from_slice(&h);
                conn.on_header_sent(true)
            }
            ServerAction::ReadFile => {
                last = std::cmp::min(chunk, content.len() - offset);
                conn.on_file_read(Some(&content[offset..offset + last]))
            }
            ServerAction::SendChunk(n) => {
                assert_eq!(n, last);
                output.extend_from_slice(&content[offset..offset + n]);
                offset += n;
                conn.on_chunk_sent(true)
            }
            ServerAction::Close(r) => return (output, r),
        };
    }
}

/// What a client run ends with.
struct Outcome {
    result: Result<u64, TransferError>,
    connected: bool,
    local: Option<Vec<u8>>,
}

/// Drives one client transfer against the bytes `response`, handed over in
/// reads of at most `chunk` bytes.
fn fetch(remote: &[u8], exists: bool, response: &[u8], chunk: usize) -> Outcome {
    let mut client = Client::new(remote);
    let mut action = client.begin(exists);
    let mut connected = false;
    let mut local: Option<Vec<u8>> = None;
    let mut pos = 0usize;
    let mut last: Vec<u8> = Vec::new();
    loop {
        action = match action {
            ClientAction::Connect => {
                connected = true;
                client.on_connected(true)
            }
            ClientAction::Send(_) => client.on_sent(true),
            ClientAction::Read => {
                let end = std::cmp::min(pos + chunk, response.len());
                last = response[pos..end].to_vec();
                pos = end;
                client.on_read(&last)
            }
            ClientAction::CreateFile => {
                assert!(local.is_none());
                local = Some(Vec::new());
                client.on_created(true)
            }
            ClientAction::Write(start) => {
                local.as_mut().unwrap().extend_from_slice(&last[start..]);
                client.on_written(true)
            }
            ClientAction::Finish { result, remove_file } => {
                if remove_file {
                    assert!(local.is_some());
                    local = None;
                }
                assert_eq!(client.phase(), ClientPhase::Finished);
                return Outcome { result, connected, local };
            }
        };
    }
}

fn sample(n: usize) -> Vec<u8> {
    (0..n).map(|i| (i * 7 + 3) as u8).collect()
}

fn served_files() -> Vec<(Vec<u8>, Vec<u8>)> {
    vec![
        (b"/srv/data/a.txt".to_vec(), sample(1000)),
        (b"/srv/data/empty".to_vec(), Vec::new()),
        (b"/srv/data/sub/b.bin".to_vec(), sample(4096)),
        (b"/srv/outside.txt".to_vec(), b"secret".to_vec()),
    ]
}

#[test]
fn request_frame_layout() {
    let frame = encode_request(b"a.txt").unwrap();
    assert_eq!(frame, vec![5, 0, b'a', b'.', b't', b'x', b't']);
    let frame = encode_request(&vec![b'x'; 258]).unwrap();
    assert_eq!(&frame[..2], &[2, 1]);
    assert_eq!(frame.len(), 260);
}

#[test]
fn request_path_length_limit() {
    let longest = vec![b'p'; 65535];
    let frame = encode_request(&longest).unwrap();
    assert_eq!(&frame[..2], &[0xff, 0xff]);
    assert_eq!(parse_request(&frame).unwrap(), longest);
    assert_eq!(encode_request(&vec![b'p'; 65536]), Err(TransferError::PathTooLong));
}

#[test]
fn request_round_trip_and_truncation() {
    let frame = encode_request(b"sub/b.bin").unwrap();
    assert_eq!(parse_request(&frame).unwrap(), b"sub/b.bin".to_vec());
    let mut longer = frame.clone();
    longer.extend_from_slice(b"trailing");
    assert_eq!(parse_request(&longer).unwrap(), b"sub/b.bin".to_vec());
    assert_eq!(parse_request(&frame[..frame.len() - 1]), Err(TransferError::ProtocolError));
    assert_eq!(parse_request(&[9]), Err(TransferError::ProtocolError));
    assert_eq!(parse_request(&[0, 0]).unwrap(), Vec::<u8>::new());
}

#[test]
fn length_prefix_decoding() {
    assert_eq!(decode_length_prefix(&[0x34, 0x12]), Ok(0x1234));
    assert_eq!(decode_length_prefix(&[1]), Err(TransferError::ProtocolError));
    assert_eq!(decode_length_prefix(&[1, 2, 3]), Err(TransferError::ProtocolError));
}

#[test]
fn header_layout_and_round_trip() {
    assert_eq!(encode_header(258), vec![2, 1, 0, 0, 0, 0, 0, 0]);
    assert_eq!(encode_header(0), vec![0; 8]);
    assert_eq!(encode_header(u64::MAX), vec![0xff; 8]);
    for v in [0u64, 1, 255, 256, 65535, 1 << 40, u64::MAX - 1, u64::MAX] {
        assert_eq!(decode_header(&encode_header(v)), Ok(v));
    }
    assert_eq!(decode_header(&[1, 2, 3]), Err(TransferError::ProtocolError));
    assert_eq!(decode_le(&[0x78, 0x56, 0x34, 0x12]), 0x1234_5678);
    assert_eq!(encode_le(0x1234_5678, 3), vec![0x78, 0x56, 0x34]);
}

#[test]
fn join_onto_root() {
    assert_eq!(join_request_path(b"/srv/data", b"a.txt"), b"/srv/data/a.txt".to_vec());
    assert_eq!(join_request_path(b"/", b"a.txt"), b"/a.txt".to_vec());
    assert_eq!(join_request_path(b"/srv/data", b"/etc/passwd"), b"/etc/passwd".to_vec());
    assert_eq!(join_request_path(b"/srv/data", b""), b"/srv/data/".to_vec());
}

#[test]
fn containment_by_components() {
    assert!(is_within(b"/srv/data", b"/srv/data"));
    assert!(is_within(b"/srv/data", b"/srv/data/a.txt"));
    assert!(!is_within(b"/srv/data", b"/srv/data2/a.txt"));
    assert!(!is_within(b"/srv/data", b"/srv/outside.txt"));
    assert!(!is_within(b"/srv/data", b"/srv"));
    assert!(is_within(b"/", b"/etc/passwd"));
}

#[test]
fn resolution_outcomes() {
    let root = b"/srv/data";
    assert_eq!(resolve_request(root, None), Err(TransferError::NotFound));
    assert_eq!(
        resolve_request(root, Some(b"/srv/outside.txt".to_vec())),
        Err(TransferError::PathEscape)
    );
    assert_eq!(
        resolve_request(root, Some(b"/srv/data/a.txt".to_vec())),
        Ok(b"/srv/data/a.txt".to_vec())
    );
}

#[test]
fn reader_in_small_chunks() {
    let content = sample(100);
    let mut stream = encode_header(100);
    stream.extend_from_slice(&content);
    for chunk in [1usize, 3, 7, 8, 9, 64, 200] {
        let mut reader = ResponseReader::new();
        let mut payload = Vec::new();
        for piece in stream.chunks(chunk) {
            let start = reader.feed(piece);
            payload.extend_from_slice(&piece[start..]);
        }
        assert_eq!(reader.declared_len(), Some(100));
        assert_eq!(reader.finish(), Ok(100));
        assert_eq!(payload, content);
    }
}

#[test]
fn reader_header_cut_short() {
    let mut reader = ResponseReader::new();
    assert_eq!(reader.feed(&[1, 0, 0]), 3);
    assert!(!reader.header_complete());
    assert_eq!(reader.declared_len(), None);
    assert_eq!(reader.finish(), Err(TransferError::ProtocolError));
}

#[test]
fn reader_counts_short_and_long_payloads() {
    let mut reader = ResponseReader::new();
    reader.feed(&encode_header(10));
    reader.feed(&[1, 2, 3]);
    assert_eq!(reader.finish(), Err(TransferError::TruncatedTransfer));
    reader.feed(&[4, 5, 6, 7, 8, 9, 10]);
    assert_eq!(reader.finish(), Ok(10));
    reader.feed(&[11]);
    assert_eq!(reader.finish(), Err(TransferError::TruncatedTransfer));
}

#[test]
fn round_trip_through_both_sides() {
    let files = served_files();
    let (response, closed) =
        serve(b"/srv/data", &files, &encode_request(b"a.txt").unwrap(), 64);
    assert_eq!(closed, Ok(1000));
    let out = fetch(b"a.txt", false, &response, 100);
    assert_eq!(out.result, Ok(1000));
    assert_eq!(out.local, Some(sample(1000)));
}

#[test]
fn zero_length_file() {
    let files = served_files();
    let (response, closed) =
        serve(b"/srv/data", &files, &encode_request(b"empty").unwrap(), 64);
    assert_eq!(closed, Ok(0));
    assert_eq!(response, vec![0; 8]);
    let out = fetch(b"empty", false, &response, 100);
    assert_eq!(out.result, Ok(0));
    assert_eq!(out.local, Some(Vec::new()));
}

#[test]
fn escape_from_root_sends_nothing() {
    let files = served_files();
    let (response, closed) =
        serve(b"/srv/data", &files, &encode_request(b"../outside.txt").unwrap(), 64);
    assert_eq!(closed, Err(TransferError::PathEscape));
    assert!(response.is_empty());
    let out = fetch(b"../outside.txt", false, &response, 100);
    assert_eq!(out.result, Err(TransferError::ProtocolError));
    assert_eq!(out.local, None);
}

#[test]
fn missing_file_sends_nothing() {
    let files = served_files();
    let (response, closed) =
        serve(b"/srv/data", &files, &encode_request(b"nope").unwrap(), 64);
    assert_eq!(closed, Err(TransferError::NotFound));
    assert!(response.is_empty());
}

#[test]
fn truncated_request_closes() {
    let files = served_files();
    let (response, closed) = serve(b"/srv/data", &files, &[5, 0, b'a'], 64);
    assert_eq!(closed, Err(TransferError::ProtocolError));
    assert!(response.is_empty());
    let (_, closed) = serve(b"/srv/data", &files, &[5], 64);
    assert_eq!(closed, Err(TransferError::ProtocolError));
}

#[test]
fn short_transfer_removes_partial_file() {
    let files = served_files();
    let (response, _) = serve(b"/srv/data", &files, &encode_request(b"a.txt").unwrap(), 64);
    let cut = &response[..8 + 500];
    let out = fetch(b"a.txt", false, cut, 64);
    assert_eq!(out.result, Err(TransferError::TruncatedTransfer));
    assert_eq!(out.local, None);
}

#[test]
fn existing_destination_fails_before_connecting() {
    let out = fetch(b"a.txt", true, &[], 64);
    assert_eq!(out.result, Err(TransferError::DestinationExists));
    assert!(!out.connected);
    assert_eq!(out.local, None);
}

#[test]
fn overlong_remote_path_fails() {
    let out = fetch(&vec![b'x'; 70000], false, &[], 64);
    assert_eq!(out.result, Err(TransferError::PathTooLong));
    assert_eq!(out.local, None);
}

#[test]
fn failed_write_removes_file() {
    let mut client = Client::new(b"a.txt");
    assert!(matches!(client.begin(false), ClientAction::Connect));
    assert!(matches!(client.on_connected(true), ClientAction::Send(_)));
    assert!(matches!(client.on_sent(true), ClientAction::Read));
    let mut chunk = encode_header(4);
    chunk.extend_from_slice(&[1, 2]);
    assert!(matches!(client.on_read(&chunk), ClientAction::CreateFile));
    assert!(matches!(client.on_created(true), ClientAction::Write(8)));
    match client.on_written(false) {
        ClientAction::Finish { result, remove_file } => {
            assert_eq!(result, Err(TransferError::IOError));
            assert!(remove_file);
        }
        other => panic!("unexpected {:?}", other),
    }
}

#[test]
fn failed_connect_reports_connection_error() {
    let mut client = Client::new(b"a.txt");
    client.begin(false);
    match client.on_connected(false) {
        ClientAction::Finish { result, remove_file } => {
            assert_eq!(result, Err(TransferError::ConnectionError));
            assert!(!remove_file);
        }
        other => panic!("unexpected {:?}", other),
    }
}

#[test]
fn interleaved_connections_stay_independent() {
    let files = served_files();
    let (mut first, mut a1) = ServerConnection::new(b"/srv/data");
    let (mut second, mut a2) = ServerConnection::new(b"/srv/data");
    let r1 = encode_request(b"a.txt").unwrap();
    let r2 = encode_request(b"sub/b.bin").unwrap();
    assert!(matches!(a1, ServerAction::ReadExact(2)));
    assert!(matches!(a2, ServerAction::ReadExact(2)));
    a1 = first.on_prefix(Some(&r1[..2]));
    a2 = second.on_prefix(Some(&r2[..2]));
    assert!(matches!(a1, ServerAction::ReadExact(5)));
    assert!(matches!(a2, ServerAction::ReadExact(9)));
    a2 = second.on_path(Some(&r2[2..]));
    a1 = first.on_path(Some(&r1[2..]));
    match (a1, a2) {
        (ServerAction::Resolve(p1), ServerAction::Resolve(p2)) => {
            assert_eq!(p1, b"/srv/data/a.txt".to_vec());
            assert_eq!(p2, b"/srv/data/sub/b.bin".to_vec());
            assert!(matches!(first.on_resolved(canonicalize(&p1, &files)), ServerAction::Open(_)));
            assert!(matches!(
                second.on_resolved(canonicalize(&p2, &files)),
                ServerAction::Open(_)
            ));
        }
        _ => panic!("both connections should resolve"),
    }
    match (first.on_opened(Some(1000)), second.on_opened(Some(4096))) {
        (ServerAction::SendHeader(h1), ServerAction::SendHeader(h2)) => {
            assert_eq!(h1, encode_header(1000));
            assert_eq!(h2, encode_header(4096));
        }
        _ => panic!("both connections should send a header"),
    }
}

#[test]
fn chunk_size_not_dividing_file() {
    let files = served_files();
    for chunk in [1usize, 7, 333, 999, 1001, 4095] {
        let (response, closed) =
            serve(b"/srv/data", &files, &encode_request(b"sub/b.bin").unwrap(), chunk);
        assert_eq!(closed, Ok(4096));
        let out = fetch(b"sub/b.bin", false, &response, chunk);
        assert_eq!(out.result, Ok(4096));
        assert_eq!(out.local, Some(sample(4096)));
    }
}

#[test]
fn file_read_failure_closes_connection() {
    let (mut conn, _) = ServerConnection::new(b"/srv/data");
    conn.on_prefix(Some(&[1, 0]));
    conn.on_path(Some(b"a"));
    conn.on_resolved(Some(b"/srv/data/a".to_vec()));
    assert!(matches!(conn.on_opened(None), ServerAction::Close(Err(TransferError::IOError))));
}

#[test]
fn three_byte_response_in_one_read() {
    let response = [3u8, 0, 0, 0, 0, 0, 0, 0, 97, 98, 99];
    let out = fetch(b"abc", false, &response, 1 << 20);
    assert_eq!(out.result, Ok(3));
    assert_eq!(out.local, Some(vec![97, 98, 99]));
}

#[test]
fn payload_shorter_than_header_says() {
    let response = [5u8, 0, 0, 0, 0, 0, 0, 0, 97, 98];
    let out = fetch(b"abc", false, &response, 1 << 20);
    assert_eq!(out.result, Err(TransferError::TruncatedTransfer));
    assert_eq!(out.local, None);
}

#[test]
fn surplus_bytes_are_a_mismatch() {
    let response = [1u8, 0, 0, 0, 0, 0, 0, 0, 97, 98];
    let out = fetch(b"abc", false, &response, 3);
    assert_eq!(out.result, Err(TransferError::TruncatedTransfer));
    assert_eq!(out.local, None);
}

#[test]
fn server_output_is_header_then_file() {
    let files = served_files();
    let (response, closed) =
        serve(b"/srv/data", &files, &encode_request(b"sub/b.bin").unwrap(), 1500);
    assert_eq!(closed, Ok(4096));
    let mut expected = encode_header(4096);
    expected.extend_from_slice(&sample(4096));
    assert_eq!(response, expected);
}
