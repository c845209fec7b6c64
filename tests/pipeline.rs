use s3_disk_cache::{declared_length, CacheEntry, CacheStore, ServeError, TeeAction, TeeEvent, TeePhase, TeePipeline};

/// Drives a pipeline with a simulated remote stream: `chunks` chunks, then the
/// end or a failure; `write_fails_at` and `client_leaves_at` pick the chunk on
/// which the file write fails or the client goes away. Returns the actions
/// taken and the number of chunks forwarded and written.
fn drive(
    chunks: usize,
    stream_fails: bool,
    write_fails_at: Option<usize>,
    client_leaves_at: Option<usize>,
) -> (Vec<TeeAction>, usize, usize) {
    let mut p = TeePipeline::new();
    let mut actions = Vec::new();
    let mut read = 0;
    let mut written = 0;
    let mut forwarded = 0;
    let mut action = TeeAction::ReadNext;
    loop {
        let event = match action {
            TeeAction::ReadNext => {
                if read < chunks {
                    read += 1;
                    TeeEvent::Chunk
                } else if stream_fails {
                    TeeEvent::StreamFailed
                } else {
                    TeeEvent::StreamEnded
                }
            }
            TeeAction::WriteChunk => {
                if write_fails_at == Some(read) {
                    TeeEvent::WriteFailed
                } else {
                    written += 1;
                    TeeEvent::WriteOk
                }
            }
            TeeAction::ForwardChunk => {
                if client_leaves_at == Some(read) {
                    TeeEvent::ForwardFailed
                } else {
                    forwarded += 1;
                    TeeEvent::ForwardOk
                }
            }
            TeeAction::CloseFile => TeeEvent::CloseOk,
            TeeAction::Register | TeeAction::Abort | TeeAction::Done => break,
        };
        action = p.step(event);
        actions.push(action);
    }
    assert!(p.is_finished());
    (actions, written, forwarded)
}

#[test]
fn clean_stream_is_written_forwarded_and_registered() {
    let (actions, written, forwarded) = drive(3, false, None, None);
    assert_eq!(written, 3);
    assert_eq!(forwarded, 3);
    assert_eq!(actions.last(), Some(&TeeAction::Register));
    assert_eq!(actions.iter().filter(|a| **a == TeeAction::Register).count(), 1);
}

#[test]
fn each_chunk_is_written_before_it_is_forwarded() {
    let (actions, _, _) = drive(2, false, None, None);
    assert_eq!(
        actions,
        vec![
            TeeAction::WriteChunk,
            TeeAction::ForwardChunk,
            TeeAction::ReadNext,
            TeeAction::WriteChunk,
            TeeAction::ForwardChunk,
            TeeAction::ReadNext,
            TeeAction::CloseFile,
            TeeAction::Register,
        ]
    );
}

#[test]
fn stream_failure_after_some_bytes_registers_nothing() {
    let (actions, written, _) = drive(2, true, None, None);
    assert_eq!(written, 2);
    assert_eq!(actions.last(), Some(&TeeAction::Abort));
    assert!(!actions.contains(&TeeAction::Register));
}

#[test]
fn failed_stream_leaves_no_entry_in_store() {
    let mut store = CacheStore::new(4);
    let (actions, _, _) = drive(1, true, None, None);
    if actions.contains(&TeeAction::Register) {
        store.insert("k".to_string(), CacheEntry::new("/c/k".to_string(), "image/png".to_string()));
    }
    assert!(store.lookup("k").is_none());
}

#[test]
fn write_failure_aborts_without_forwarding_the_chunk() {
    let (actions, written, forwarded) = drive(3, false, Some(2), None);
    assert_eq!(written, 1);
    assert_eq!(forwarded, 1);
    assert_eq!(actions.last(), Some(&TeeAction::Abort));
    assert!(!actions.contains(&TeeAction::Register));
}

#[test]
fn client_leaving_does_not_stop_the_copy() {
    let (actions, written, forwarded) = drive(4, false, None, Some(2));
    assert_eq!(written, 4);
    assert_eq!(forwarded, 1);
    assert_eq!(actions.last(), Some(&TeeAction::Register));
}

#[test]
fn close_failure_aborts() {
    let mut p = TeePipeline::new();
    assert_eq!(p.step(TeeEvent::StreamEnded), TeeAction::CloseFile);
    assert_eq!(p.step(TeeEvent::CloseFailed), TeeAction::Abort);
    assert_eq!(p.phase, TeePhase::Aborted);
    assert_eq!(p.step(TeeEvent::CloseOk), TeeAction::Done);
}

#[test]
fn unexpected_event_aborts() {
    let mut p = TeePipeline::new();
    assert_eq!(p.step(TeeEvent::WriteOk), TeeAction::Abort);
    assert!(p.is_finished());
}

#[test]
fn finished_pipeline_ignores_events() {
    let mut p = TeePipeline::new();
    p.step(TeeEvent::StreamEnded);
    assert_eq!(p.step(TeeEvent::CloseOk), TeeAction::Register);
    assert_eq!(p.phase, TeePhase::Complete);
    assert_eq!(p.step(TeeEvent::StreamFailed), TeeAction::Done);
    assert_eq!(p.phase, TeePhase::Complete);
}

/// One request through the store: served from the store, or fetched through
/// a clean pipeline and registered. Counts the fetches.
fn request(store: &mut CacheStore, key: &str, fetches: &mut usize) -> CacheEntry {
    if let Some(e) = store.lookup(key) {
        return e;
    }
    *fetches += 1;
    let (actions, _, _) = drive(2, false, None, None);
    assert_eq!(actions.last(), Some(&TeeAction::Register));
    let e = CacheEntry::new(format!("/c/{}", key), "image/png".to_string());
    store.insert(key.to_string(), CacheEntry::new(e.path.clone(), e.content_type.clone()));
    e
}

#[test]
fn fetch_once_then_hit() {
    let mut store = CacheStore::new(2);
    let mut fetches = 0;
    let first = request(&mut store, "k", &mut fetches);
    assert_eq!(fetches, 1);
    assert!(store.contains("k"));
    let second = request(&mut store, "k", &mut fetches);
    assert_eq!(fetches, 1);
    assert_eq!(first.path, second.path);
}

#[test]
fn status_codes_of_errors() {
    assert_eq!(ServeError::KeyFormat.status_code(), 400);
    assert_eq!(ServeError::NotFound.status_code(), 404);
    assert_eq!(ServeError::Upstream.status_code(), 404);
    assert_eq!(ServeError::DiskIo.status_code(), 500);
}

#[test]
fn declared_length_is_kept_when_known() {
    assert_eq!(declared_length(Some(1234)), Some(1234));
    assert_eq!(declared_length(Some(0)), Some(0));
    assert_eq!(declared_length(None), None);
    assert_eq!(declared_length(Some(-1)), None);
}
