//! Messages between the agent and the init process.
use kata_fc::sync::{
    read_async, read_sync, write_async, write_sync, PipeEvent, PipeStep, ReadCount, Received,
    Side, SyncError, SyncReader, WriteCount, SYNC_DATA, SYNC_FAILED, SYNC_SUCCESS,
};

#[test]
fn child_rejects_parent_error_and_short_header() {
    for bytes in [SYNC_FAILED.to_be_bytes().to_vec(), vec![0, 0]] {
        assert!(read_sync(&bytes).is_err());
    }
}

#[test]
fn parent_data_and_acknowledgements_reach_child() {
    for (kind, payload) in [(SYNC_DATA, "setup data"), (SYNC_SUCCESS, "")] {
        let bytes = write_async(kind, payload.as_bytes()).unwrap();
        assert_eq!(read_sync(&bytes).unwrap(), payload.as_bytes());
    }
    assert!(write_async(SYNC_FAILED, b"unsupported").is_err());
}

#[test]
fn child_errors_still_reach_parent() {
    // More than one error-read chunk, with EOF terminating the last chunk.
    let error = "child setup failed ".repeat(10);
    let bytes = write_sync(SYNC_FAILED, error.as_bytes());
    let err = read_async(&bytes).unwrap_err();
    assert_eq!(err.message(0), error);
}

#[test]
fn child_data_reaches_parent() {
    let bytes = write_sync(SYNC_DATA, &[0, 0, 0, 42]);
    assert_eq!(bytes, vec![0, 0, 0, 3, 0, 0, 0, 4, 0, 0, 0, 42]);
    assert_eq!(read_async(&bytes).unwrap(), vec![0, 0, 0, 42]);
    let ack = write_sync(SYNC_SUCCESS, &[]);
    assert_eq!(read_async(&ack).unwrap(), Vec::<u8>::new());
}

#[test]
fn failures_that_are_no_text_are_told_apart() {
    let bytes = write_sync(SYNC_FAILED, &[255, 254]);
    assert!(matches!(read_async(&bytes), Err(SyncError::NotText)));
    assert!(matches!(
        read_async(&99i32.to_be_bytes()),
        Err(SyncError::Unexpected)
    ));
    assert!(matches!(
        read_async(&[0, 0]),
        Err(SyncError::ShortHeader { got: 2 })
    ));
    let short = [0, 0, 0, 3, 0, 0, 0, 9, 1];
    assert!(matches!(
        read_sync(&short),
        Err(SyncError::Short { expected: 9, got: 1 })
    ));
}

#[test]
fn pieces_of_a_pipe_are_put_together() {
    let mut read = ReadCount::new(3);
    assert_eq!(read.step(PipeEvent::Interrupted), PipeStep::Again);
    assert_eq!(read.step(PipeEvent::Read(vec![1])), PipeStep::Again);
    assert_eq!(read.step(PipeEvent::Read(vec![2, 3])), PipeStep::Stop);
    assert_eq!(read.exact().unwrap(), vec![1, 2, 3]);
    let mut ended = ReadCount::new(3);
    assert_eq!(ended.step(PipeEvent::Read(vec![])), PipeStep::Stop);
    assert!(ended.exact().is_err());
    let mut write = WriteCount::new(vec![1, 2, 3]);
    assert_eq!(write.step(PipeEvent::Wrote(2)), PipeStep::Again);
    assert_eq!(write.step(PipeEvent::Wrote(1)), PipeStep::Stop);
    let mut failed = WriteCount::new(vec![1]);
    assert_eq!(failed.step(PipeEvent::Failed(32)), PipeStep::Fail(32));
}

#[test]
fn a_reader_asks_for_what_it_needs() {
    let mut reader = SyncReader::new(Side::Child);
    assert_eq!(reader.want(), 4);
    assert!(matches!(
        reader.feed(SYNC_DATA.to_be_bytes().to_vec()),
        Received::More
    ));
    assert_eq!(reader.want(), 4);
    assert!(matches!(reader.feed(vec![0, 0, 0, 2]), Received::More));
    assert_eq!(reader.want(), 2);
    match reader.feed(vec![7, 8]) {
        Received::Data(d) => assert_eq!(d, vec![7, 8]),
        other => panic!("unexpected {:?}", other),
    }
}
