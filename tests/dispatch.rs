use espipe::{Document, ElasticsearchOutput, OutputError, BATCH_SIZE};

fn doc(i: usize) -> Document {
    Document::Other(i.to_string())
}

fn output() -> ElasticsearchOutput {
    ElasticsearchOutput::try_new(Some("localhost".to_string()), "/logs".to_string()).unwrap()
}

#[test]
fn twelve_thousand_documents_make_three_batches() {
    let mut out = output();
    let mut batches = Vec::new();
    for i in 0..12_000 {
        if let Some(b) = out.send(doc(i)) {
            batches.push(b);
        }
    }
    assert_eq!(batches.len(), 2);
    assert_eq!(out.pending_count(), 2_000);
    batches.push(out.flush().unwrap());
    let sizes: Vec<usize> = batches.iter().map(|b| b.documents.len()).collect();
    assert_eq!(sizes, vec![5_000, 5_000, 2_000]);
    let tasks: Vec<usize> = batches.iter().map(|b| b.task).collect();
    assert_eq!(tasks, vec![0, 1, 2]);
    assert_eq!(batches[1].documents[0], doc(5_000));
    assert_eq!(batches[2].documents[1_999], doc(11_999));
    assert!(out.flush().is_none());
    assert!(out.complete(2, 1_500));
    assert!(out.complete(0, 5_000));
    assert!(out.complete(1, 4_000));
    assert_eq!(out.confirmed(), 10_500);
    assert!(out.confirmed() <= 12_000);
}

#[test]
fn batch_size_is_five_thousand() {
    assert_eq!(BATCH_SIZE, 5_000);
    let mut out = output();
    for i in 0..4_999 {
        assert!(out.send(doc(i)).is_none());
    }
    let b = out.send(doc(4_999)).unwrap();
    assert_eq!(b.documents.len(), 5_000);
    assert_eq!(b.documents[0], doc(0));
    assert_eq!(out.pending_count(), 0);
}

#[test]
fn flush_of_empty_queue_hands_out_nothing() {
    let mut out = output();
    assert!(out.flush().is_none());
    assert_eq!(out.task_count(), 0);
    assert_eq!(out.confirmed(), 0);
}

#[test]
fn partial_batch_goes_out_at_flush() {
    let mut out = output();
    for i in 0..3 {
        assert!(out.send(doc(i)).is_none());
    }
    let b = out.flush().unwrap();
    assert_eq!(b.task, 0);
    assert_eq!(b.documents, vec![doc(0), doc(1), doc(2)]);
    assert_eq!(out.task_count(), 1);
}

#[test]
fn impossible_reports_are_refused() {
    let mut out = output();
    out.send(doc(0));
    out.send(doc(1));
    let b = out.flush().unwrap();
    assert!(!out.complete(b.task + 1, 0));
    assert!(!out.complete(b.task, 3));
    assert!(out.complete(b.task, 2));
    assert!(!out.complete(b.task, 1));
    assert_eq!(out.confirmed(), 2);
}

#[test]
fn failed_tasks_contribute_nothing() {
    let mut out = output();
    out.send(doc(0));
    let b = out.flush().unwrap();
    assert!(out.complete(b.task, 0));
    assert_eq!(out.confirmed(), 0);
}

#[test]
fn address_without_host_is_refused() {
    let err = match ElasticsearchOutput::try_new(None, "/logs".to_string()) {
        Ok(_) => panic!("an address without a host must be refused"),
        Err(e) => e,
    };
    assert_eq!(err, OutputError::MissingHost);
    assert_eq!(err.message(), "Url missing host_str");
}

#[test]
fn name_is_host_and_index_without_leading_slashes() {
    assert_eq!(output().name(), "localhost:logs");
    let out = ElasticsearchOutput::try_new(Some("es.local".to_string()), "//a/b".to_string()).unwrap();
    assert_eq!(out.name(), "es.local:a/b");
    let out = ElasticsearchOutput::try_new(Some("h".to_string()), String::new()).unwrap();
    assert_eq!(out.name(), "h:");
}
