use xteink_x4_os::sync::{
    credentials, http_response_head, is_save_request, is_upload_post, kosync_account,
    pulled_record, push_accepted, query_start, push_pull, server_position, session_step, split_host_port,
    PersistedAppState, SessionAction, SessionInput, SessionState, SyncBookInfo, SyncCommand,
    SyncError,
};

#[test]
fn credentials_need_both_parts() {
    assert_eq!(credentials(Some("home"), Some("secret")), Some(("home", "secret")));
    assert_eq!(credentials(Some("home"), None), None);
    assert_eq!(credentials(None, Some("secret")), None);
    assert_eq!(kosync_account(Some("h"), Some("u"), Some("p")), Some(("h", "u", "p")));
    assert_eq!(kosync_account(Some("h"), None, Some("p")), None);
}

#[test]
fn host_and_port() {
    assert_eq!(split_host_port("sync.example.org"), ("sync.example.org", 80));
    assert_eq!(split_host_port("sync.example.org:7200"), ("sync.example.org", 7200));
    assert_eq!(split_host_port("10.0.0.2:+81"), ("10.0.0.2", 81));
    assert_eq!(split_host_port("h:abc"), ("h", 80));
    assert_eq!(split_host_port("h:70000"), ("h", 80));
    assert_eq!(split_host_port("h:65535"), ("h", 65535));
    assert_eq!(split_host_port("h:"), ("h", 80));
    assert_eq!(split_host_port("h:+"), ("h", 80));
    assert_eq!(split_host_port("h:1:2"), ("h", 80));
    assert_eq!(split_host_port(":8080"), ("", 8080));
}

#[test]
fn server_position_by_status() {
    assert_eq!(server_position(200, Some(420)), Ok(Some(420)));
    assert_eq!(server_position(200, None), Ok(None));
    assert_eq!(server_position(404, Some(1)), Ok(None));
    assert_eq!(server_position(502, None), Ok(None));
    assert_eq!(server_position(401, None), Err(SyncError::Protocol));
    assert_eq!(server_position(500, None), Err(SyncError::Protocol));
}

#[test]
fn furthest_reader_wins() {
    assert_eq!(push_pull(Some(600), 400), (false, true));
    assert_eq!(push_pull(Some(300), 400), (true, false));
    assert_eq!(push_pull(Some(400), 400), (false, false));
    assert_eq!(push_pull(None, 0), (true, false));
    assert!(push_accepted(200));
    assert!(push_accepted(202));
    assert!(!push_accepted(204));
}

fn book(page_count: u32, chapter_pages: Vec<u16>) -> SyncBookInfo {
    SyncBookInfo {
        document_md5: [0; 16],
        percent_permille: 0,
        doc_fragment_1based: 1,
        page_count,
        chapter_count: chapter_pages.len() as u8,
        chapter_pages,
        persisted: PersistedAppState { book_id: 5, chapter: 9, screen: 99 },
    }
}

#[test]
fn pulled_position_maps_to_screen_and_chapter() {
    let b = book(100, vec![0, 10, 50, 80]);
    assert_eq!(pulled_record(&b, 500), PersistedAppState { book_id: 5, chapter: 1, screen: 49 });
    assert_eq!(pulled_record(&b, 510), PersistedAppState { book_id: 5, chapter: 2, screen: 50 });
    assert_eq!(pulled_record(&b, 0), PersistedAppState { book_id: 5, chapter: 0, screen: 0 });
    assert_eq!(pulled_record(&b, 1000), PersistedAppState { book_id: 5, chapter: 3, screen: 99 });
    assert_eq!(pulled_record(&b, 101), PersistedAppState { book_id: 5, chapter: 1, screen: 10 });
    let unordered = book(100, vec![0, 90, 20]);
    assert_eq!(pulled_record(&unordered, 500).chapter, 0);
    let empty = book(0, vec![]);
    assert_eq!(pulled_record(&empty, 700), PersistedAppState { book_id: 5, chapter: 0, screen: 0 });
}

#[test]
fn response_head_frames_the_body() {
    let head = http_response_head("200 OK", 1234);
    assert_eq!(
        head,
        b"HTTP/1.1 200 OK\r\ncontent-type: text/html\r\ncontent-length: 1234\r\nconnection: close\r\n\r\n".to_vec()
    );
    let head = http_response_head("507 Insufficient Storage", 0);
    assert!(head.ends_with(b"content-length: 0\r\nconnection: close\r\n\r\n"));
}

#[test]
fn upload_requests_are_recognised() {
    let req = b"POST /upload?name=a.epub HTTP/1.1\r\n";
    assert!(is_upload_post(req, 4, 19));
    assert!(!is_upload_post(b"GET / HTTP/1.1", 3, 1));
    assert!(!is_upload_post(b"POST /index HTTP/1.1", 4, 6));
    assert!(!is_upload_post(b"POST /up", 4, 3));
    assert!(!is_upload_post(b"POS", 4, 0));
    assert!(is_save_request("POST", "/save"));
    assert!(!is_save_request("GET", "/save"));
    assert!(!is_save_request("POST", "/saved"));
}

#[test]
fn session_course() {
    let exit = SessionInput::Command(SyncCommand::Exit);
    let start = SessionInput::Command(SyncCommand::Start);
    assert_eq!(session_step(SessionState::Parked, exit), (SessionState::Parked, SessionAction::Nothing));
    assert_eq!(session_step(SessionState::Parked, start), (SessionState::Attempting, SessionAction::BeginSession));
    assert_eq!(session_step(SessionState::Attempting, SessionInput::AttemptEnded(false)), (SessionState::AwaitingRetry, SessionAction::Nothing));
    assert_eq!(session_step(SessionState::AwaitingRetry, start), (SessionState::Attempting, SessionAction::Attempt));
    assert_eq!(session_step(SessionState::Attempting, SessionInput::AttemptEnded(true)), (SessionState::Serving, SessionAction::Serve));
    assert_eq!(session_step(SessionState::Serving, start), (SessionState::Serving, SessionAction::Nothing));
    assert_eq!(session_step(SessionState::Serving, exit), (SessionState::Serving, SessionAction::Reset));
    assert_eq!(session_step(SessionState::AwaitingRetry, exit), (SessionState::AwaitingRetry, SessionAction::Reset));
}

#[test]
fn pulled_positions_that_wrap_land_on_the_last_page() {
    let book = |pages: u32| SyncBookInfo {
        document_md5: [0; 16],
        percent_permille: 0,
        doc_fragment_1based: 1,
        page_count: pages,
        chapter_count: 0,
        chapter_pages: Vec::new(),
        persisted: PersistedAppState { book_id: 9, chapter: 0, screen: 0 },
    };
    assert_eq!(pulled_record(&book(2_147_483_648), 2000).screen, 2_147_483_647);
    assert_eq!(pulled_record(&book(4_194_304_000), 1024).screen, 4_194_303_999);
    assert_eq!(pulled_record(&book(2_147_483_648), 1999).screen, 2_147_483_647);
}

#[test]
fn query_starts_after_the_first_question_mark() {
    assert_eq!(query_start(b"/upload?name=a.epub"), Some(8));
    assert_eq!(query_start(b"/upload"), None);
    assert_eq!(query_start(b"?"), Some(1));
    assert_eq!(query_start(b"/a?b?c"), Some(3));
    assert_eq!(query_start(b""), None);
}
