use nimbus_server::dtp::{Content, ContentType, Message, SubTitile, Title};
use nimbus_server::session::{
    bare_ok, data_message, error_message, render_listing, size_message, unbox_message, Action,
    Event, SessionError, SessionState,
};

fn name_request(title: Title, name: &[u8]) -> Message {
    Message::new(
        title,
        SubTitile::Success,
        ContentType::FileName,
        vec![Content::Text(name.to_vec())],
    )
}

#[test]
fn download_exchange() {
    let file = b"five!".to_vec();
    let s = SessionState::start();

    let (s, a) = s.step(Event::MsgReceived(name_request(Title::GetRequest, b"a.txt")));
    assert_eq!(a, Action::CheckExists(b"a.txt".to_vec()));

    let (s, a) = s.step(Event::ExistsResult(true));
    assert_eq!(a, Action::QuerySize(b"a.txt".to_vec()));

    let (s, a) = s.step(Event::SizeResult(file.len() as u64));
    assert_eq!(a, Action::Send(size_message(Title::GetRequest, 5)));

    let (s, a) = s.step(Event::SendDone);
    assert_eq!(a, Action::Receive);

    let ack = bare_ok(Title::GetRequest);
    let (s, a) = s.step(Event::MsgReceived(ack));
    assert_eq!(a, Action::LoadFile(b"a.txt".to_vec()));

    let (s, a) = s.step(Event::FileLoaded(file.clone()));
    assert_eq!(a, Action::Send(data_message(Title::GetRequest, file)));

    let (s, a) = s.step(Event::SendDone);
    assert_eq!(a, Action::Finish);
    assert_eq!(s, SessionState::Done);
}

#[test]
fn download_missing_file() {
    let s = SessionState::start();
    let (s, a) = s.step(Event::MsgReceived(name_request(Title::GetRequest, b"gone.txt")));
    assert_eq!(a, Action::CheckExists(b"gone.txt".to_vec()));

    let (s, a) = s.step(Event::ExistsResult(false));
    assert_eq!(
        a,
        Action::Send(error_message(Title::GetRequest, b"File didnt exist!".to_vec()))
    );

    let (s, a) = s.step(Event::SendDone);
    assert_eq!(a, Action::Abort);
    assert_eq!(s, SessionState::Failed(SessionError::FileMissing));
}

#[test]
fn upload_exchange() {
    let payload = vec![9u8; 1000];
    let s = SessionState::start();

    let (s, a) = s.step(Event::MsgReceived(name_request(Title::SendRequest, b"b.bin")));
    assert_eq!(a, Action::Send(bare_ok(Title::SendRequest)));

    let (s, a) = s.step(Event::SendDone);
    assert_eq!(a, Action::Receive);

    let data_msg = Message::new(
        Title::SendRequest,
        SubTitile::Success,
        ContentType::FileData,
        vec![Content::Binary(payload.clone())],
    );
    let (s, a) = s.step(Event::MsgReceived(data_msg));
    assert_eq!(a, Action::StoreFile(b"b.bin".to_vec(), payload));

    let (s, a) = s.step(Event::WriteDone);
    assert_eq!(a, Action::Send(bare_ok(Title::SendRequest)));

    let (s, a) = s.step(Event::SendDone);
    assert_eq!(a, Action::Finish);
    assert_eq!(s, SessionState::Done);
}

#[test]
fn list_exchange() {
    let s = SessionState::start();
    let request = Message::new(
        Title::FileListRequest,
        SubTitile::Success,
        ContentType::NoContent,
        vec![],
    );
    let (s, a) = s.step(Event::MsgReceived(request));
    assert_eq!(a, Action::ListFiles);

    let names = vec![b"b.txt".to_vec(), b"a.txt".to_vec()];
    let (s, a) = s.step(Event::ListingResult(names));
    assert_eq!(
        a,
        Action::Send(data_message(Title::FileListRequest, b"a.txt\nb.txt".to_vec()))
    );

    let (s, a) = s.step(Event::SendDone);
    assert_eq!(a, Action::Finish);
    assert_eq!(s, SessionState::Done);
}

#[test]
fn remove_existing_file() {
    let s = SessionState::start();
    let (s, a) = s.step(Event::MsgReceived(name_request(Title::RemoveRequest, b"old.log")));
    assert_eq!(a, Action::DeleteFile(b"old.log".to_vec()));

    let (s, a) = s.step(Event::RemoveDone);
    assert_eq!(a, Action::Send(bare_ok(Title::RemoveRequest)));

    let (s, a) = s.step(Event::SendDone);
    assert_eq!(a, Action::Finish);
    assert_eq!(s, SessionState::Done);
}

#[test]
fn remove_missing_file_fails_connection() {
    let s = SessionState::start();
    let (s, a) = s.step(Event::MsgReceived(name_request(Title::RemoveRequest, b"gone")));
    assert_eq!(a, Action::DeleteFile(b"gone".to_vec()));

    let (s, a) = s.step(Event::RemoveError(b"no such file".to_vec()));
    assert_eq!(
        a,
        Action::Send(error_message(Title::RemoveRequest, b"no such file".to_vec()))
    );

    let (s, a) = s.step(Event::SendDone);
    assert_eq!(a, Action::Abort);
    assert_eq!(
        s,
        SessionState::Failed(SessionError::RemoveRejected(b"no such file".to_vec()))
    );
}

#[test]
fn download_rejects_wrong_ack() {
    let s = SessionState::start();
    let (s, _) = s.step(Event::MsgReceived(name_request(Title::GetRequest, b"a.txt")));
    let (s, _) = s.step(Event::ExistsResult(true));
    let (s, _) = s.step(Event::SizeResult(1));
    let (s, _) = s.step(Event::SendDone);
    let wrong_title_ack = bare_ok(Title::SendRequest);
    let (s, a) = s.step(Event::MsgReceived(wrong_title_ack));
    assert_eq!(a, Action::Abort);
    assert_eq!(s, SessionState::Failed(SessionError::WrongTitle));
}

#[test]
fn peer_failure_report_short_circuits() {
    let s = SessionState::start();
    let refusal = Message::new(
        Title::GetRequest,
        SubTitile::Failure,
        ContentType::ErrMessage,
        vec![Content::Text(b"client gave up".to_vec())],
    );
    let (s, a) = s.step(Event::MsgReceived(refusal));
    assert_eq!(a, Action::Abort);
    assert_eq!(
        s,
        SessionState::Failed(SessionError::PeerReported(b"client gave up".to_vec()))
    );
}

#[test]
fn opening_request_with_wrong_content_type() {
    let s = SessionState::start();
    let request = Message::new(
        Title::GetRequest,
        SubTitile::Success,
        ContentType::NoContent,
        vec![],
    );
    let (s, a) = s.step(Event::MsgReceived(request));
    assert_eq!(a, Action::Abort);
    assert_eq!(s, SessionState::Failed(SessionError::WrongContentType));
}

#[test]
fn opening_request_with_wrong_content_variant() {
    let s = SessionState::start();
    let request = Message::new(
        Title::GetRequest,
        SubTitile::Success,
        ContentType::FileName,
        vec![Content::Number(7)],
    );
    let (s, a) = s.step(Event::MsgReceived(request));
    assert_eq!(a, Action::Abort);
    assert_eq!(s, SessionState::Failed(SessionError::WrongContentVariant));
}

#[test]
fn unexpected_event_fails_exchange() {
    let s = SessionState::start();
    let (s, a) = s.step(Event::SendDone);
    assert_eq!(a, Action::Abort);
    assert_eq!(s, SessionState::Failed(SessionError::UnexpectedEvent));
}

#[test]
fn terminal_states_absorb_events() {
    let s = SessionState::Done;
    let (s, a) = s.step(Event::SendDone);
    assert_eq!(a, Action::Finish);
    assert_eq!(s, SessionState::Done);
}

#[test]
fn unbox_checks_title_outcome_and_content_type() {
    let ok = Message::new(
        Title::GetRequest,
        SubTitile::Success,
        ContentType::FileName,
        vec![Content::Text(b"x".to_vec())],
    );
    assert_eq!(
        unbox_message(ok, Title::GetRequest, ContentType::FileName),
        Ok(vec![Content::Text(b"x".to_vec())])
    );

    let wrong_title = bare_ok(Title::SendRequest);
    assert_eq!(
        unbox_message(wrong_title, Title::GetRequest, ContentType::NoContent),
        Err(SessionError::WrongTitle)
    );

    let wrong_ct = bare_ok(Title::GetRequest);
    assert_eq!(
        unbox_message(wrong_ct, Title::GetRequest, ContentType::FileName),
        Err(SessionError::WrongContentType)
    );

    let bare_failure = Message::new(
        Title::GetRequest,
        SubTitile::Failure,
        ContentType::NoContent,
        vec![],
    );
    assert_eq!(
        unbox_message(bare_failure, Title::GetRequest, ContentType::NoContent),
        Err(SessionError::PeerReportedUnreadable)
    );
}

#[test]
fn render_listing_sorts_lexicographically() {
    let names = vec![b"zebra".to_vec(), b"alpha".to_vec(), b"mango".to_vec()];
    assert_eq!(render_listing(names), b"alpha\nmango\nzebra".to_vec());
}

#[test]
fn render_listing_ignores_arrival_order() {
    let once = render_listing(vec![b"b".to_vec(), b"a".to_vec(), b"c".to_vec()]);
    let twice = render_listing(vec![b"c".to_vec(), b"b".to_vec(), b"a".to_vec()]);
    assert_eq!(once, twice);
    assert_eq!(once, b"a\nb\nc".to_vec());
}

#[test]
fn render_listing_edge_cases() {
    assert_eq!(render_listing(vec![]), Vec::<u8>::new());
    assert_eq!(render_listing(vec![b"only".to_vec()]), b"only".to_vec());
    let equal = render_listing(vec![b"dup".to_vec(), b"dup".to_vec()]);
    assert_eq!(equal, b"dup\ndup".to_vec());
}
