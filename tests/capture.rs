use escpos_viewer::capture::{
    accept_action, job_source_label, AcceptAction, AcceptOutcome, JobReader, ReadAction, ReadEvent,
};

fn feed(reader: &mut JobReader, events: Vec<ReadEvent>) -> Vec<Vec<u8>> {
    let mut jobs = Vec::new();
    for ev in events {
        if let ReadAction::Emit(job) = reader.on_event(ev) {
            assert_eq!(job.source, "peer");
            jobs.push(job.bytes);
        }
    }
    jobs
}

#[test]
fn closed_connection_yields_one_job_with_all_bytes() {
    let mut reader = JobReader::new("peer".to_string());
    let jobs = feed(
        &mut reader,
        vec![ReadEvent::Data(b"AB".to_vec()), ReadEvent::Data(b"C".to_vec()), ReadEvent::Closed],
    );
    assert_eq!(jobs, vec![b"ABC".to_vec()]);
    assert!(reader.is_finished());
}

#[test]
fn silent_connection_yields_one_job_then_nothing() {
    let mut reader = JobReader::new("peer".to_string());
    let jobs = feed(
        &mut reader,
        vec![
            ReadEvent::Data(b"XY".to_vec()),
            ReadEvent::TimedOut,
            ReadEvent::Data(b"Z".to_vec()),
            ReadEvent::Closed,
        ],
    );
    assert_eq!(jobs, vec![b"XY".to_vec()]);
}

#[test]
fn failed_read_flushes_received_bytes() {
    let mut reader = JobReader::new("peer".to_string());
    let jobs = feed(&mut reader, vec![ReadEvent::Data(vec![1, 2]), ReadEvent::Failed]);
    assert_eq!(jobs, vec![vec![1, 2]]);
}

#[test]
fn empty_connection_yields_no_job() {
    let mut reader = JobReader::new("peer".to_string());
    let jobs = feed(&mut reader, vec![ReadEvent::Data(Vec::new()), ReadEvent::Closed]);
    assert!(jobs.is_empty());
    assert!(reader.is_finished());
}

#[test]
fn job_label_names_peer_and_listener() {
    assert_eq!(job_source_label("127.0.0.1:5000", "127.0.0.1:9100"), "127.0.0.1:5000 -> 127.0.0.1:9100");
}

#[test]
fn accept_loop_decisions() {
    assert_eq!(accept_action(true, AcceptOutcome::Connection), AcceptAction::Exit);
    assert_eq!(accept_action(false, AcceptOutcome::Connection), AcceptAction::Serve);
    assert_eq!(accept_action(false, AcceptOutcome::WouldBlock), AcceptAction::Sleep);
    assert_eq!(accept_action(false, AcceptOutcome::Failed), AcceptAction::Exit);
}
