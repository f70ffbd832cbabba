use downloader::{Action, DownloadError, Event, Response, Status, Transfer};

fn chunk(len: usize, fill: u8) -> Vec<u8> {
    vec![fill; len]
}

/// Feeds `chunks` to a new transfer and returns it with the positions
/// shown and the bytes handed over for writing.
fn stream(total: Option<u64>, chunks: &[Vec<u8>]) -> (Transfer, Vec<u64>, Vec<u8>) {
    let mut transfer = Transfer::new("http://host/file", "file", total);
    let mut shown = Vec::new();
    let mut written = Vec::new();
    for bytes in chunks {
        match transfer.step(Event::Chunk(bytes.clone())) {
            Action::Write { bytes, position } => {
                written.extend_from_slice(&bytes);
                shown.push(position);
            }
            other => panic!("a chunk was answered with {:?}", other),
        }
    }
    (transfer, shown, written)
}

#[test]
fn chunks_adding_up_to_the_total() {
    let chunks = vec![chunk(300, 1), chunk(300, 2), chunk(300, 3), chunk(100, 4)];
    let (mut transfer, shown, written) = stream(Some(1000), &chunks);
    assert_eq!(shown, vec![300, 600, 900, 1000]);
    assert_eq!(written.len(), 1000);
    assert_eq!(transfer.position(), 1000);
    assert_eq!(transfer.status(), Status::Streaming);
    let last = transfer.step(Event::StreamEnded);
    assert_eq!(
        last,
        Action::Finish { message: "Downloaded http://host/file to file".to_string() }
    );
    assert_eq!(transfer.status(), Status::Finished);
    assert_eq!(transfer.position(), 1000);
}

#[test]
fn one_chunk_larger_than_the_total() {
    let mut transfer = Transfer::new("http://host/file", "file", Some(100));
    let body = chunk(150, 9);
    let action = transfer.step(Event::Chunk(body.clone()));
    assert_eq!(action, Action::Write { bytes: body, position: 100 });
    assert_eq!(transfer.position(), 100);
    assert_eq!(
        transfer.step(Event::StreamEnded),
        Action::Finish { message: "Downloaded http://host/file to file".to_string() }
    );
}

#[test]
fn positions_never_fall_nor_pass_the_total() {
    let sizes = [0usize, 1, 7, 64, 0, 500, 3, 1024, 1, 1];
    let chunks: Vec<Vec<u8>> = sizes.iter().map(|&n| chunk(n, 0)).collect();
    for total in [0u64, 1, 8, 72, 600, 1600, 1601, 5000] {
        let (transfer, shown, written) = stream(Some(total), &chunks);
        assert_eq!(shown.len(), chunks.len());
        let mut sum: u64 = 0;
        let mut before: u64 = 0;
        for (size, &position) in sizes.iter().zip(&shown) {
            sum += *size as u64;
            assert_eq!(position, sum.min(total));
            assert!(before <= position);
            assert!(position <= total);
            before = position;
        }
        assert_eq!(transfer.position(), before);
        assert_eq!(transfer.total(), Some(total));
        assert_eq!(written.len(), 1601);
    }
}

#[test]
fn positions_without_a_total_are_sums() {
    let chunks = vec![chunk(10, 0), chunk(0, 0), chunk(990, 0), chunk(1, 0)];
    let (transfer, shown, _) = stream(None, &chunks);
    assert_eq!(shown, vec![10, 10, 1000, 1001]);
    assert_eq!(transfer.total(), None);
    assert_eq!(transfer.position(), 1001);
}

#[test]
fn bytes_keep_their_order_whatever_the_partition() {
    let body: Vec<u8> = (0..1000u32).map(|i| (i * 7 % 251) as u8).collect();
    let partitions: [&[usize]; 5] =
        [&[1000], &[1; 1000], &[300, 300, 300, 100], &[0, 999, 0, 1, 0], &[512, 488]];
    for sizes in partitions {
        let mut chunks = Vec::new();
        let mut at = 0;
        for &n in sizes {
            chunks.push(body[at..at + n].to_vec());
            at += n;
        }
        assert_eq!(at, body.len());
        for total in [None, Some(1000), Some(10)] {
            let (_, _, written) = stream(total, &chunks);
            assert_eq!(written, body);
        }
    }
}

#[test]
fn stream_failure_keeps_what_was_written() {
    let chunks = vec![chunk(300, 1), chunk(300, 2)];
    let (mut transfer, shown, written) = stream(Some(1000), &chunks);
    assert_eq!(shown, vec![300, 600]);
    assert_eq!(transfer.step(Event::StreamFailed), Action::Abort { error: DownloadError::Stream });
    assert_eq!(transfer.status(), Status::Failed(DownloadError::Stream));
    assert_eq!(transfer.position(), 600);
    let mut expected = chunk(300, 1);
    expected.extend(chunk(300, 2));
    assert_eq!(written, expected);
}

#[test]
fn stream_failure_before_any_chunk() {
    let mut transfer = Transfer::new("u", "p", Some(5));
    assert_eq!(transfer.step(Event::StreamFailed), Action::Abort { error: DownloadError::Stream });
    assert_eq!(transfer.position(), 0);
}

#[test]
fn write_failure_gives_the_io_error() {
    let (mut transfer, _, _) = stream(Some(1000), &[chunk(300, 1)]);
    assert_eq!(transfer.step(Event::IoFailed), Action::Abort { error: DownloadError::Io });
    assert_eq!(transfer.status(), Status::Failed(DownloadError::Io));
}

#[test]
fn creation_failure_gives_the_io_error() {
    let mut transfer = Transfer::new("u", "/no/such/dir/p", None);
    assert_eq!(transfer.step(Event::IoFailed), Action::Abort { error: DownloadError::Io });
    assert_eq!(transfer.status(), Status::Failed(DownloadError::Io));
}

#[test]
fn empty_body_finishes_at_once() {
    let mut transfer = Transfer::new("http://host/empty", "empty", Some(0));
    assert_eq!(
        transfer.step(Event::StreamEnded),
        Action::Finish { message: "Downloaded http://host/empty to empty".to_string() }
    );
    assert_eq!(transfer.position(), 0);
}

#[test]
fn body_shorter_than_the_total_still_finishes() {
    let (mut transfer, shown, _) = stream(Some(1000), &[chunk(400, 0)]);
    assert_eq!(shown, vec![400]);
    assert!(matches!(transfer.step(Event::StreamEnded), Action::Finish { .. }));
    assert_eq!(transfer.position(), 400);
    assert_eq!(transfer.status(), Status::Finished);
}

#[test]
fn a_finished_transfer_stays_finished() {
    let (mut transfer, _, _) = stream(Some(10), &[chunk(10, 0)]);
    let end = transfer.step(Event::StreamEnded);
    let events = [
        Event::Chunk(chunk(5, 1)),
        Event::StreamFailed,
        Event::IoFailed,
        Event::StreamEnded,
    ];
    for event in events {
        assert_eq!(transfer.step(event), end);
        assert_eq!(transfer.status(), Status::Finished);
        assert_eq!(transfer.position(), 10);
    }
}

#[test]
fn a_failed_transfer_stays_failed() {
    let (mut transfer, _, _) = stream(Some(10), &[chunk(4, 0)]);
    let end = transfer.step(Event::StreamFailed);
    let events = [
        Event::Chunk(chunk(5, 1)),
        Event::IoFailed,
        Event::StreamEnded,
        Event::StreamFailed,
    ];
    for event in events {
        assert_eq!(transfer.step(event), end);
        assert_eq!(transfer.status(), Status::Failed(DownloadError::Stream));
        assert_eq!(transfer.position(), 4);
    }
}

#[test]
fn a_new_transfer_is_streaming_from_zero() {
    let transfer = Transfer::new("u", "p", Some(77));
    assert_eq!(transfer.position(), 0);
    assert_eq!(transfer.total(), Some(77));
    assert_eq!(transfer.status(), Status::Streaming);
}

#[test]
fn a_failed_request_gives_the_request_error() {
    match Transfer::begin("http://host/file", "file", Response::Failed) {
        Err(error) => assert_eq!(error, DownloadError::Request),
        Ok(_) => panic!("a failed request began a transfer"),
    }
}

#[test]
fn an_answered_request_begins_the_transfer() {
    let response = Response::Headers { total: Some(1000) };
    let (mut transfer, setup) = match Transfer::begin("http://host/file", "file", response) {
        Ok(begun) => begun,
        Err(error) => panic!("an answered request gave {:?}", error),
    };
    assert_eq!(transfer.total(), Some(1000));
    assert_eq!(transfer.position(), 0);
    assert_eq!(transfer.status(), Status::Streaming);
    assert_eq!(setup.length, Some(1000));
    assert_eq!(setup.message, "  http://host/file");
    assert_eq!(
        transfer.step(Event::StreamEnded),
        Action::Finish { message: "Downloaded http://host/file to file".to_string() }
    );
}

#[test]
fn headers_without_a_length_begin_the_transfer() {
    let response = Response::Headers { total: None };
    let (mut transfer, setup) = match Transfer::begin("u", "p", response) {
        Ok(begun) => begun,
        Err(error) => panic!("headers without a length gave {:?}", error),
    };
    assert_eq!(transfer.total(), None);
    assert_eq!(setup.length, None);
    assert_eq!(
        transfer.step(Event::Chunk(chunk(3, 0))),
        Action::Write { bytes: chunk(3, 0), position: 3 }
    );
}
