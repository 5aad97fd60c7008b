use std::collections::HashMap;

use upload_pipeline::pipeline::{Action, Event, Session, Status};
use upload_pipeline::pipeline::upload;

/// One simulated multipart field.
struct FieldSim {
    has_disposition: bool,
    filename: Option<String>,
    chunks: Vec<Vec<u8>>,
    open_ok: bool,
    /// Number of chunk writes that succeed before the disk "fails".
    writes_before_failure: usize,
}

impl FieldSim {
    fn ok(filename: Option<&str>, chunks: &[&[u8]]) -> FieldSim {
        FieldSim {
            has_disposition: true,
            filename: filename.map(|s| s.to_string()),
            chunks: chunks.iter().map(|c| c.to_vec()).collect(),
            open_ok: true,
            writes_before_failure: usize::MAX,
        }
    }

    fn malformed() -> FieldSim {
        FieldSim {
            has_disposition: false,
            filename: None,
            chunks: Vec::new(),
            open_ok: true,
            writes_before_failure: usize::MAX,
        }
    }
}

/// What the simulated run observed.
struct Outcome {
    status: Status,
    files: HashMap<String, Vec<u8>>,
    poll_field_count: usize,
    fields_reached: usize,
}

/// Drive one session the way the unverified server loop would: perform each
/// action against an in-memory "disk" and answer with the matching event.
fn drive(authenticated: bool, root: &str, fields: Vec<FieldSim>) -> Outcome {
    let (mut session, mut action) = Session::new(authenticated, root.to_string());
    let mut files: HashMap<String, Vec<u8>> = HashMap::new();
    let mut poll_field_count = 0usize;
    let mut fields_reached = 0usize;
    let mut field_iter = fields.into_iter();
    let mut current: Option<FieldSim> = None;
    let mut chunk_index = 0usize;
    let mut writes_done = 0usize;
    let mut open_path: Option<String> = None;
    loop {
        let event = match action {
            Action::Respond(status) => {
                return Outcome { status, files, poll_field_count, fields_reached };
            }
            Action::PollField => {
                poll_field_count += 1;
                match field_iter.next() {
                    None => Event::BodyExhausted,
                    Some(f) => {
                        fields_reached += 1;
                        let ev = Event::FieldAvailable {
                            has_disposition: f.has_disposition,
                            filename: f.filename.clone(),
                        };
                        chunk_index = 0;
                        writes_done = 0;
                        current = Some(f);
                        ev
                    }
                }
            }
            Action::Open(path) => {
                let f = current.as_ref().expect("open without a field");
                if f.open_ok {
                    files.insert(path.clone(), Vec::new());
                    open_path = Some(path);
                    Event::OpenResult(true)
                } else {
                    Event::OpenResult(false)
                }
            }
            Action::PollChunk => {
                let f = current.as_ref().expect("poll chunk without a field");
                if chunk_index < f.chunks.len() {
                    let c = f.chunks[chunk_index].clone();
                    chunk_index += 1;
                    Event::ChunkAvailable(c)
                } else {
                    Event::FieldExhausted
                }
            }
            Action::Write(bytes) => {
                let f = current.as_ref().expect("write without a field");
                if writes_done < f.writes_before_failure {
                    writes_done += 1;
                    let path = open_path.as_ref().expect("write without an open file");
                    files.get_mut(path).expect("write to a missing file").extend(bytes);
                    Event::WriteResult(true)
                } else {
                    Event::WriteResult(false)
                }
            }
            Action::Close => {
                open_path = None;
                Event::Closed
            }
        };
        assert!(session.accepts_event(&event), "protocol violation in the driver");
        action = session.step(event);
    }
}

#[test]
fn single_field_bytes_concatenate_in_order() {
    let out = drive(
        true,
        "uploads",
        vec![FieldSim::ok(Some("data.txt"), &[b"hel", b"lo ", b"world"])],
    );
    assert_eq!(out.status, Status::Success);
    assert_eq!(out.files.len(), 1);
    assert_eq!(out.files["uploads/data.txt"], b"hello world".to_vec());
}

#[test]
fn many_chunks_keep_order() {
    let chunks: Vec<Vec<u8>> = (0u8..100).map(|i| vec![i, i.wrapping_mul(3)]).collect();
    let refs: Vec<&[u8]> = chunks.iter().map(|c| c.as_slice()).collect();
    let out = drive(true, "r", vec![FieldSim::ok(Some("big.bin"), &refs)]);
    let expected: Vec<u8> = chunks.concat();
    assert_eq!(out.files["r/big.bin"], expected);
}

#[test]
fn zero_chunks_create_an_empty_file() {
    let out = drive(true, "uploads", vec![FieldSim::ok(Some("empty.txt"), &[])]);
    assert_eq!(out.status, Status::Success);
    assert_eq!(out.files["uploads/empty.txt"], Vec::<u8>::new());
}

#[test]
fn empty_body_is_a_success() {
    let out = drive(true, "uploads", vec![]);
    assert_eq!(out.status, Status::Success);
    assert!(out.files.is_empty());
}

#[test]
fn unauthenticated_request_never_reads_the_body() {
    let out = drive(false, "uploads", vec![FieldSim::ok(Some("a.txt"), &[b"secret"])]);
    assert_eq!(out.status, Status::Unauthorized);
    assert!(out.files.is_empty());
    assert_eq!(out.poll_field_count, 0);
    assert_eq!(out.fields_reached, 0);
}

#[test]
fn malformed_single_part_yields_bad_request_and_no_file() {
    let out = drive(true, "uploads", vec![FieldSim::malformed()]);
    assert_eq!(out.status, Status::BadRequest);
    assert!(out.files.is_empty());
}

#[test]
fn malformed_first_part_stops_the_whole_request() {
    let out = drive(
        true,
        "uploads",
        vec![FieldSim::malformed(), FieldSim::ok(Some("late.txt"), &[b"x"])],
    );
    assert_eq!(out.status, Status::BadRequest);
    assert!(out.files.is_empty());
    assert_eq!(out.fields_reached, 1);
}

#[test]
fn body_error_yields_bad_request() {
    let (mut session, action) = Session::new(true, "uploads".to_string());
    assert!(matches!(action, Action::PollField));
    let a = session.step(Event::BodyFailed);
    assert!(matches!(a, Action::Respond(Status::BadRequest)));
    assert!(session.is_done());
}

#[test]
fn missing_filename_opens_a_generated_name() {
    let out = drive(true, "uploads", vec![FieldSim::ok(None, &[b"x"])]);
    assert_eq!(out.status, Status::Success);
    assert_eq!(out.files.len(), 1);
    let path = out.files.keys().next().unwrap();
    let name = path.strip_prefix("uploads/").unwrap();
    assert_eq!(name.len(), 36);
    assert!(!name.contains('/'));
    assert_eq!(out.files[path], b"x".to_vec());
}

#[test]
fn open_failure_abandons_only_that_field() {
    let mut failing = FieldSim::ok(Some("first.txt"), &[b"abc"]);
    failing.open_ok = false;
    let out = drive(
        true,
        "uploads",
        vec![failing, FieldSim::ok(Some("second.txt"), &[b"def"])],
    );
    assert_eq!(out.status, Status::Success);
    assert_eq!(out.files.len(), 1);
    assert_eq!(out.files["uploads/second.txt"], b"def".to_vec());
}

#[test]
fn all_fields_failing_reports_storage_failure() {
    let mut failing = FieldSim::ok(Some("only.txt"), &[b"abc"]);
    failing.open_ok = false;
    let out = drive(true, "uploads", vec![failing]);
    assert_eq!(out.status, Status::StorageFailure);
    assert!(out.files.is_empty());
}

#[test]
fn write_failure_leaves_partial_file_and_continues() {
    let mut failing = FieldSim::ok(Some("partial.bin"), &[b"one", b"two", b"three"]);
    failing.writes_before_failure = 1;
    let out = drive(
        true,
        "uploads",
        vec![failing, FieldSim::ok(Some("whole.bin"), &[b"ok"])],
    );
    assert_eq!(out.status, Status::Success);
    assert_eq!(out.files["uploads/partial.bin"], b"one".to_vec());
    assert_eq!(out.files["uploads/whole.bin"], b"ok".to_vec());
}

#[test]
fn interleaved_sessions_write_both_files_correctly() {
    let root = "shared".to_string();
    let (mut s1, a1) = Session::new(true, root.clone());
    let (mut s2, a2) = Session::new(true, root);
    assert!(matches!(a1, Action::PollField));
    assert!(matches!(a2, Action::PollField));
    let mut files: HashMap<String, Vec<u8>> = HashMap::new();

    // Two requests advance turn by turn; each carries one field of two
    // chunks under a different name.
    let mut path1 = String::new();
    let mut path2 = String::new();
    let a = s1.step(Event::FieldAvailable { has_disposition: true, filename: Some("one.txt".to_string()) });
    if let Action::Open(p) = a {
        files.insert(p.clone(), Vec::new());
        path1 = p;
    } else {
        panic!("expected an open action");
    }
    let b = s2.step(Event::FieldAvailable { has_disposition: true, filename: Some("two.txt".to_string()) });
    if let Action::Open(p) = b {
        files.insert(p.clone(), Vec::new());
        path2 = p;
    } else {
        panic!("expected an open action");
    }
    assert!(matches!(s1.step(Event::OpenResult(true)), Action::PollChunk));
    assert!(matches!(s2.step(Event::OpenResult(true)), Action::PollChunk));
    let a = s1.step(Event::ChunkAvailable(b"fir".to_vec()));
    if let Action::Write(bytes) = a {
        files.get_mut(&path1).unwrap().extend(bytes);
    } else {
        panic!("expected a write action");
    }
    let b = s2.step(Event::ChunkAvailable(b"sec".to_vec()));
    if let Action::Write(bytes) = b {
        files.get_mut(&path2).unwrap().extend(bytes);
    } else {
        panic!("expected a write action");
    }
    assert!(matches!(s2.step(Event::WriteResult(true)), Action::PollChunk));
    assert!(matches!(s1.step(Event::WriteResult(true)), Action::PollChunk));
    let b = s2.step(Event::ChunkAvailable(b"ond".to_vec()));
    if let Action::Write(bytes) = b {
        files.get_mut(&path2).unwrap().extend(bytes);
    } else {
        panic!("expected a write action");
    }
    let a = s1.step(Event::ChunkAvailable(b"st".to_vec()));
    if let Action::Write(bytes) = a {
        files.get_mut(&path1).unwrap().extend(bytes);
    } else {
        panic!("expected a write action");
    }
    assert!(matches!(s1.step(Event::WriteResult(true)), Action::PollChunk));
    assert!(matches!(s2.step(Event::WriteResult(true)), Action::PollChunk));
    assert!(matches!(s1.step(Event::FieldExhausted), Action::Close));
    assert!(matches!(s2.step(Event::FieldExhausted), Action::Close));
    assert!(matches!(s1.step(Event::Closed), Action::PollField));
    assert!(matches!(s2.step(Event::Closed), Action::PollField));
    assert!(matches!(s1.step(Event::BodyExhausted), Action::Respond(Status::Success)));
    assert!(matches!(s2.step(Event::BodyExhausted), Action::Respond(Status::Success)));

    assert_eq!(files["shared/one.txt"], b"first".to_vec());
    assert_eq!(files["shared/two.txt"], b"second".to_vec());
}

#[test]
fn transport_error_mid_field_closes_and_ends() {
    let (mut session, _a) = Session::new(true, "uploads".to_string());
    let _open = session.step(Event::FieldAvailable {
        has_disposition: true,
        filename: Some("cut.bin".to_string()),
    });
    assert!(matches!(session.step(Event::OpenResult(true)), Action::PollChunk));
    let a = session.step(Event::ChunkAvailable(b"start".to_vec()));
    assert!(matches!(a, Action::Write(_)));
    assert!(matches!(session.step(Event::WriteResult(true)), Action::PollChunk));
    // The client disconnects: the handle is released before anything else.
    assert!(matches!(session.step(Event::ChunkFailed), Action::Close));
    assert!(matches!(session.step(Event::Closed), Action::PollField));
    // No further part arrives and none completed, so the request fails.
    let a = session.step(Event::BodyExhausted);
    assert!(matches!(a, Action::Respond(Status::StorageFailure)));
}

#[test]
fn upload_form_requires_authentication() {
    assert_eq!(upload(false), Err(Status::Unauthorized));
    let page = upload(true).expect("an authenticated caller gets the form");
    assert!(page.contains("<form"));
    assert!(page.contains("multipart/form-data"));
}
