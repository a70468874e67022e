use xrpals_lps::naming::{converted_path, raw_path};
use xrpals_lps::point::{Coordinate, Point};
use xrpals_lps::points_map::PointsMap;
use xrpals_lps::upload::{
    Command, Event, LoadError, OutOfTurn, Outcome, Phase, UploadError, UploadSession,
};

const STAMP: &str = "20240229235959";

fn part(name: &str) -> Event {
    Event::Part { name: name.to_string() }
}

fn chunk(data: &[u8]) -> Event {
    Event::Chunk { data: data.to_vec() }
}

fn some_points() -> PointsMap {
    let mut map = PointsMap::new();
    for key in [2u32, 1] {
        let text = key.to_string();
        map.insert(
            key,
            Point::new(
                Coordinate::from_text(&text).unwrap(),
                Coordinate::from_text("0.5").unwrap(),
                Coordinate::from_text("-1").unwrap(),
            ),
        );
    }
    map
}

/// A session that has received a part named `file` with this body.
fn received(body: &[u8]) -> UploadSession {
    let mut session = UploadSession::new();
    assert_eq!(session.step_at(part("file"), STAMP), Ok(Command::NextChunk));
    assert_eq!(session.step_at(chunk(body), STAMP), Ok(Command::NextChunk));
    session
}

#[test]
fn raw_path_is_under_uploads() {
    assert_eq!(raw_path(STAMP), "./uploads/20240229235959.yaml");
    assert_eq!(raw_path(""), "./uploads/.yaml");
}

#[test]
fn converted_path_stands_beside_the_raw_path() {
    assert_eq!(converted_path(STAMP), "./uploads/20240229235959.xrpals.yaml");
}

#[test]
fn new_session_awaits_the_first_part() {
    assert_eq!(UploadSession::new().phase(), Phase::AwaitingPart);
}

#[test]
fn body_of_file_part_is_stored_verbatim() {
    let mut session = UploadSession::new();
    assert_eq!(session.step_at(part("file"), STAMP), Ok(Command::NextChunk));
    assert_eq!(session.phase(), Phase::Receiving);
    assert_eq!(session.step_at(chunk(b"1:\n  x: 1\n"), STAMP), Ok(Command::NextChunk));
    assert_eq!(session.step_at(chunk(b""), STAMP), Ok(Command::NextChunk));
    assert_eq!(session.step_at(chunk(&[0, 255, 10, 13]), STAMP), Ok(Command::NextChunk));
    let command = session.step_at(Event::EndOfPart, STAMP);
    let mut body = b"1:\n  x: 1\n".to_vec();
    body.extend_from_slice(&[0, 255, 10, 13]);
    assert_eq!(
        command,
        Ok(Command::Write { path: "./uploads/20240229235959.yaml".to_string(), contents: body })
    );
    assert_eq!(session.phase(), Phase::StoringRaw);
}

#[test]
fn empty_body_is_stored_as_an_empty_file() {
    let mut session = UploadSession::new();
    session.step_at(part("file"), STAMP).unwrap();
    assert_eq!(
        session.step_at(Event::EndOfPart, STAMP),
        Ok(Command::Write { path: raw_path(STAMP), contents: Vec::new() })
    );
}

#[test]
fn form_without_file_part_succeeds_and_writes_nothing() {
    let mut session = UploadSession::new();
    for name in ["", "File", "file ", "files", "upload", "FILE"] {
        assert_eq!(session.step_at(part(name), STAMP), Ok(Command::NextPart));
        assert_eq!(session.phase(), Phase::AwaitingPart);
    }
    assert_eq!(
        session.step_at(Event::NoMoreParts, STAMP),
        Ok(Command::Reply { outcome: Outcome::Success })
    );
    assert_eq!(session.phase(), Phase::Finished);
}

#[test]
fn empty_form_succeeds() {
    let mut session = UploadSession::new();
    assert_eq!(
        session.step_at(Event::NoMoreParts, STAMP),
        Ok(Command::Reply { outcome: Outcome::Success })
    );
}

#[test]
fn raw_file_is_read_back_and_converted() {
    let mut session = received(b"whatever");
    session.step_at(Event::EndOfPart, STAMP).unwrap();
    assert_eq!(
        session.step_at(Event::Written, "20990101000000"),
        Ok(Command::Load { path: raw_path(STAMP) })
    );
    assert_eq!(session.phase(), Phase::Loading);
    let command = session.step_at(Event::Loaded { points: some_points() }, "20990101000000");
    assert_eq!(
        command,
        Ok(Command::Write {
            path: "./uploads/20240229235959.xrpals.yaml".to_string(),
            contents: b"1: {x: 1, y: 0.5, z: -1}\n2: {x: 2, y: 0.5, z: -1}\n".to_vec(),
        })
    );
    assert_eq!(session.phase(), Phase::StoringConverted);
    assert_eq!(session.step_at(Event::Written, STAMP), Ok(Command::NextPart));
    assert_eq!(session.phase(), Phase::AwaitingPart);
    assert_eq!(
        session.step_at(Event::NoMoreParts, STAMP),
        Ok(Command::Reply { outcome: Outcome::Success })
    );
}

#[test]
fn broken_body_rejects_the_request() {
    let mut session = received(b"half a bo");
    assert_eq!(
        session.step_at(Event::ReadFailed, STAMP),
        Ok(Command::Reply { outcome: Outcome::Rejected(UploadError::Read) })
    );
    assert_eq!(session.phase(), Phase::Finished);
}

#[test]
fn unwritten_raw_file_rejects_the_request() {
    let mut session = received(b"body");
    session.step_at(Event::EndOfPart, STAMP).unwrap();
    assert_eq!(
        session.step_at(Event::WriteFailed, STAMP),
        Ok(Command::Reply { outcome: Outcome::Rejected(UploadError::Write) })
    );
    assert_eq!(session.phase(), Phase::Finished);
}

#[test]
fn unparsed_raw_file_still_succeeds_without_a_converted_copy() {
    for cause in [LoadError::Parse, LoadError::Read] {
        let mut session = received(b"1:\n  a: 1\n  b: 2\n  c: 3\n");
        session.step_at(Event::EndOfPart, STAMP).unwrap();
        session.step_at(Event::Written, STAMP).unwrap();
        assert_eq!(session.step_at(Event::LoadFailed { cause }, STAMP), Ok(Command::NextPart));
        assert_eq!(session.phase(), Phase::AwaitingPart);
        assert_eq!(
            session.step_at(Event::NoMoreParts, STAMP),
            Ok(Command::Reply { outcome: Outcome::Success })
        );
    }
}

#[test]
fn unwritten_converted_copy_still_succeeds() {
    let mut session = received(b"body");
    session.step_at(Event::EndOfPart, STAMP).unwrap();
    session.step_at(Event::Written, STAMP).unwrap();
    session.step_at(Event::Loaded { points: some_points() }, STAMP).unwrap();
    assert_eq!(session.step_at(Event::WriteFailed, STAMP), Ok(Command::NextPart));
    assert_eq!(
        session.step_at(Event::NoMoreParts, STAMP),
        Ok(Command::Reply { outcome: Outcome::Success })
    );
}

#[test]
fn each_file_part_is_stored() {
    let mut session = UploadSession::new();
    let mut written = Vec::new();
    for (body, stamp) in [(&b"first"[..], "20240101000000"), (&b"second"[..], "20240101000001")] {
        session.step_at(part("file"), stamp).unwrap();
        session.step_at(chunk(body), stamp).unwrap();
        written.push(session.step_at(Event::EndOfPart, stamp).unwrap());
        session.step_at(Event::Written, stamp).unwrap();
        session.step_at(Event::LoadFailed { cause: LoadError::Parse }, stamp).unwrap();
    }
    assert_eq!(
        written,
        vec![
            Command::Write {
                path: "./uploads/20240101000000.yaml".to_string(),
                contents: b"first".to_vec(),
            },
            Command::Write {
                path: "./uploads/20240101000001.yaml".to_string(),
                contents: b"second".to_vec(),
            },
        ]
    );
}

#[test]
fn second_body_does_not_hold_the_first() {
    let mut session = received(b"first");
    session.step_at(Event::EndOfPart, STAMP).unwrap();
    session.step_at(Event::Written, STAMP).unwrap();
    session.step_at(Event::LoadFailed { cause: LoadError::Read }, STAMP).unwrap();
    session.step_at(part("file"), STAMP).unwrap();
    session.step_at(chunk(b"second"), STAMP).unwrap();
    assert_eq!(
        session.step_at(Event::EndOfPart, STAMP),
        Ok(Command::Write { path: raw_path(STAMP), contents: b"second".to_vec() })
    );
}

#[test]
fn uploads_in_the_same_second_take_the_same_names() {
    let mut first = received(b"first");
    let mut second = received(b"second");
    let first_raw = first.step_at(Event::EndOfPart, STAMP).unwrap();
    let second_raw = second.step_at(Event::EndOfPart, STAMP).unwrap();
    match (first_raw, second_raw) {
        (
            Command::Write { path: a, contents: first_body },
            Command::Write { path: b, contents: second_body },
        ) => {
            assert_eq!(a, b);
            assert_eq!(first_body, b"first".to_vec());
            assert_eq!(second_body, b"second".to_vec());
        }
        _ => panic!("both uploads are to be written"),
    }
    first.step_at(Event::Written, STAMP).unwrap();
    second.step_at(Event::Written, STAMP).unwrap();
    let first_copy = first.step_at(Event::Loaded { points: some_points() }, STAMP).unwrap();
    let second_copy = second.step_at(Event::Loaded { points: PointsMap::new() }, STAMP).unwrap();
    match (first_copy, second_copy) {
        (Command::Write { path: a, .. }, Command::Write { path: b, contents }) => {
            assert_eq!(a, b);
            assert_eq!(contents, Vec::<u8>::new());
        }
        _ => panic!("both copies are to be written"),
    }
}

#[test]
fn uploads_in_different_seconds_take_different_names() {
    assert_ne!(raw_path("20240229235958"), raw_path("20240229235959"));
    assert_ne!(converted_path("20240229235958"), converted_path("20240229235959"));
    assert_ne!(raw_path(STAMP), converted_path(STAMP));
}

#[test]
fn event_out_of_turn_leaves_the_session_as_it_was() {
    let mut session = UploadSession::new();
    assert_eq!(session.step_at(chunk(b"x"), STAMP), Err(OutOfTurn));
    assert_eq!(session.step_at(Event::EndOfPart, STAMP), Err(OutOfTurn));
    assert_eq!(session.step_at(Event::Written, STAMP), Err(OutOfTurn));
    assert_eq!(session.phase(), Phase::AwaitingPart);
    session.step_at(part("file"), STAMP).unwrap();
    session.step_at(chunk(b"kept"), STAMP).unwrap();
    assert_eq!(session.step_at(part("file"), STAMP), Err(OutOfTurn));
    assert_eq!(session.step_at(Event::NoMoreParts, STAMP), Err(OutOfTurn));
    assert_eq!(
        session.step_at(Event::Loaded { points: some_points() }, STAMP),
        Err(OutOfTurn)
    );
    assert_eq!(session.phase(), Phase::Receiving);
    assert_eq!(
        session.step_at(Event::EndOfPart, STAMP),
        Ok(Command::Write { path: raw_path(STAMP), contents: b"kept".to_vec() })
    );
}

#[test]
fn finished_session_takes_no_event() {
    let mut session = UploadSession::new();
    session.step_at(Event::NoMoreParts, STAMP).unwrap();
    assert_eq!(session.step_at(part("file"), STAMP), Err(OutOfTurn));
    assert_eq!(session.step_at(Event::NoMoreParts, STAMP), Err(OutOfTurn));
    assert_eq!(session.step(Event::EndOfPart), Err(OutOfTurn));
    assert_eq!(session.phase(), Phase::Finished);
}

#[test]
fn step_names_the_files_by_the_clock() {
    let mut session = UploadSession::new();
    assert_eq!(session.step(part("other")), Ok(Command::NextPart));
    assert_eq!(session.step(part("file")), Ok(Command::NextChunk));
    assert_eq!(session.step(chunk(b"a: ")), Ok(Command::NextChunk));
    assert_eq!(session.step(chunk(b"b")), Ok(Command::NextChunk));
    let (path, contents) = match session.step(Event::EndOfPart) {
        Ok(Command::Write { path, contents }) => (path, contents),
        other => panic!("the raw file is to be written, not {:?}", other),
    };
    assert_eq!(contents, b"a: b".to_vec());
    let stamp = path.strip_prefix("./uploads/").unwrap().strip_suffix(".yaml").unwrap();
    assert_eq!(stamp.len(), 14);
    assert!(stamp.bytes().all(|b| b.is_ascii_digit()));
    assert!(stamp >= "20240101000000");
    assert_eq!(session.step(Event::Written), Ok(Command::Load { path: path.clone() }));
    match session.step(Event::Loaded { points: some_points() }) {
        Ok(Command::Write { path: copy, .. }) => {
            assert_eq!(copy, format!("./uploads/{}.xrpals.yaml", stamp));
        }
        other => panic!("the converted copy is to be written, not {:?}", other),
    }
    assert_eq!(session.step(Event::Written), Ok(Command::NextPart));
    assert_eq!(session.step(Event::NoMoreParts), Ok(Command::Reply { outcome: Outcome::Success }));
}
