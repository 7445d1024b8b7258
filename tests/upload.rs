use qrs::body::{copy_chunks, payload_length, BodyCopier};
use qrs::error::ErrorKind;
use qrs::headers::{boundary_of, extract_file_name, HeaderScanner};
use qrs::naming::{candidate_name, first_free_name};
use qrs::receive::plan_upload;

fn feed_all(lines: &[&[u8]]) -> Result<HeaderScanner, ErrorKind> {
    let mut scan = HeaderScanner::new();
    for line in lines {
        scan.feed_line(line)?;
        if scan.is_finished() {
            break;
        }
    }
    Ok(scan)
}

#[test]
fn file_name_of_disposition_line() {
    let line = b"Content-Disposition: form-data; name=\"file\"; filename=\"a.png\"\r\n";
    let name = extract_file_name(line).ok().unwrap();
    assert_eq!(name, b"a.png".to_vec());
}

#[test]
fn disposition_without_quote_fails() {
    let line = b"Content-Disposition: form-data; name=file\r\n";
    assert!(matches!(extract_file_name(line), Err(ErrorKind::MissingQuote)));
    let mut scan = HeaderScanner::new();
    assert!(matches!(scan.feed_line(line), Err(ErrorKind::MissingQuote)));
    assert_eq!(scan.consumed(), 0);
}

#[test]
fn scanner_counts_header_bytes() {
    let lines: [&[u8]; 4] = [
        b"------B\r\n",
        b"Content-Disposition: form-data; name=\"file\"; filename=\"rust.logo\"\r\n",
        b"Content-Type: image/jpeg\r\n",
        b"\r\n",
    ];
    let scan = feed_all(&lines).ok().unwrap();
    assert!(scan.is_finished());
    let total: usize = lines.iter().map(|l| l.len()).sum();
    assert_eq!(scan.consumed(), total);
    assert_eq!(scan.file_name(), b"rust.logo".to_vec());
}

#[test]
fn scanner_without_disposition_keeps_empty_name() {
    let lines: [&[u8]; 2] = [b"--x\r\n", b"\r\n"];
    let scan = feed_all(&lines).ok().unwrap();
    assert!(scan.is_finished());
    assert_eq!(scan.consumed(), 7);
    assert!(scan.file_name().is_empty());
}

#[test]
fn scanner_fails_when_stream_ends() {
    let mut scan = HeaderScanner::new();
    assert!(scan.feed_line(b"--x\r\n").is_ok());
    assert!(!scan.is_finished());
    assert!(matches!(scan.feed_line(b""), Err(ErrorKind::UnterminatedHeaders)));
}

#[test]
fn boundary_after_last_key() {
    assert_eq!(boundary_of(b"multipart/form-data; boundary=----abc"), b"----abc".to_vec());
    assert_eq!(boundary_of(b"a boundary=x; boundary=yz"), b"yz".to_vec());
    assert_eq!(boundary_of(b"text/plain"), b"text/plain".to_vec());
}

#[test]
fn payload_length_formula() {
    assert_eq!(payload_length(100, 40, 10).ok(), Some(42));
    assert_eq!(payload_length(58, 40, 10).ok(), Some(0));
}

#[test]
fn negative_payload_length_fails() {
    assert!(matches!(payload_length(57, 40, 10), Err(ErrorKind::LengthMismatch)));
    assert!(matches!(payload_length(10, 40, 0), Err(ErrorKind::LengthMismatch)));
}

#[test]
fn last_chunk_is_cut_at_payload_length() {
    let mut c = BodyCopier::new(10);
    assert_eq!(c.take(4), 4);
    assert_eq!(c.take(4), 4);
    assert!(!c.is_done());
    assert_eq!(c.take(4), 2);
    assert!(c.is_done());
    assert_eq!(c.take(4), 0);
    assert_eq!(c.copied(), 10);
}

#[test]
fn candidate_names() {
    assert_eq!(candidate_name(b"out.txt", 0), b"out.txt".to_vec());
    assert_eq!(candidate_name(b"out.txt", 2), b"out.txt.2".to_vec());
    assert_eq!(candidate_name(b"readme", 12), b"readme.12".to_vec());
}

#[test]
fn collision_picks_first_gap() {
    let taken = vec![b"out.txt".to_vec(), b"out.txt.1".to_vec()];
    assert_eq!(first_free_name(b"out.txt", &taken), b"out.txt.2".to_vec());
    assert_eq!(first_free_name(b"new.txt", &taken), b"new.txt".to_vec());
}

#[test]
fn same_name_twice_gives_two_files() {
    let mut taken: Vec<Vec<u8>> = Vec::new();
    let first = first_free_name(b"a.png", &taken);
    taken.push(first.clone());
    let second = first_free_name(b"a.png", &taken);
    assert_ne!(first, second);
    assert_eq!(first, b"a.png".to_vec());
    assert_eq!(second, b"a.png.1".to_vec());
}

fn body_of(payload: &[u8]) -> (Vec<u8>, &'static str) {
    let mut body = Vec::new();
    body.extend_from_slice(b"--XyZ\r\n");
    body.extend_from_slice(b"Content-Disposition: form-data; name=\"file\"; filename=\"d.bin\"\r\n");
    body.extend_from_slice(b"Content-Type: application/octet-stream\r\n");
    body.extend_from_slice(b"\r\n");
    body.extend_from_slice(payload);
    body.extend_from_slice(b"\r\n--XyZ--\r\n");
    (body, "multipart/form-data; boundary=XyZ")
}

fn receive(body: &[u8], content_type: &str, chunk: usize) -> Result<(Vec<u8>, Vec<u8>), ErrorKind> {
    let mut pos = 0;
    let mut scan = HeaderScanner::new();
    while !scan.is_finished() {
        let end = body[pos..].iter().position(|b| *b == b'\n').map(|i| pos + i + 1).unwrap_or(body.len());
        scan.feed_line(&body[pos..end])?;
        pos = end;
    }
    let plan = plan_upload(&scan, body.len(), content_type.as_bytes(), &Vec::new())?;
    let mut copier = BodyCopier::new(plan.payload_len);
    let mut out = Vec::new();
    while !copier.is_done() {
        let end = (pos + chunk).min(body.len());
        let n = end - pos;
        if n == 0 {
            break;
        }
        let w = copier.take(n);
        out.extend_from_slice(&body[pos..pos + w]);
        pos = end;
    }
    Ok((plan.output, out))
}

#[test]
fn whole_upload_writes_payload_exactly() {
    for k in [0usize, 1, 7, 100] {
        let payload: Vec<u8> = (0..k).map(|i| (i * 37 % 256) as u8).collect();
        let (body, ct) = body_of(&payload);
        for chunk in [1usize, 3, 8, 1000] {
            let (name, out) = receive(&body, ct, chunk).ok().unwrap();
            assert_eq!(name, b"d.bin".to_vec());
            assert_eq!(out, payload);
        }
    }
}

#[test]
fn short_content_length_plans_nothing() {
    let (body, ct) = body_of(b"abc");
    let mut scan = HeaderScanner::new();
    for line in body.split_inclusive(|b| *b == b'\n') {
        scan.feed_line(line).ok().unwrap();
        if scan.is_finished() {
            break;
        }
    }
    let r = plan_upload(&scan, scan.consumed() + 5, ct.as_bytes(), &Vec::new());
    assert!(matches!(r, Err(ErrorKind::LengthMismatch)));
    let unfinished = HeaderScanner::new();
    assert!(matches!(plan_upload(&unfinished, 100, ct.as_bytes(), &Vec::new()), Err(ErrorKind::UnterminatedHeaders)));
}

#[test]
fn numbered_names_follow_the_extension() {
    assert_eq!(candidate_name(b"README", 1), b"README.1".to_vec());
    assert_eq!(candidate_name(b"a.", 1), b"a.1".to_vec());
    assert_eq!(candidate_name(b"a..", 3), b"a..3".to_vec());
    assert_eq!(candidate_name(b"dir/", 1), b"dir.1".to_vec());
    assert_eq!(candidate_name(b"a.txt//", 2), b"a.txt.2".to_vec());
    assert_eq!(candidate_name(b"dir/", 0), b"dir/".to_vec());
    let taken = vec![b"a.".to_vec()];
    assert_eq!(first_free_name(b"a.", &taken), b"a.1".to_vec());
}

#[test]
fn chunked_copy_stops_at_limit() {
    let chunks = vec![b"abcd".to_vec(), b"efgh".to_vec(), b"ij\r\n--X--".to_vec(), b"zz".to_vec()];
    assert_eq!(copy_chunks(&chunks, 10), b"abcdefghij".to_vec());
    assert_eq!(copy_chunks(&chunks, 0), Vec::<u8>::new());
    assert_eq!(copy_chunks(&chunks, 4), b"abcd".to_vec());
}
