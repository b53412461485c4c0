use iroh_willow::form::{
    AddProgressItem, AuthForm, BlobStatus, EntryForm, ImportMode, PayloadForm, SubmitAction,
    SubmitEvent, SubmitState, SubmitStep, SubspaceForm, TimestampForm,
};
use iroh_willow::proto::data_model::{Path, PayloadDigest};
use iroh_willow::proto::keys::{NamespaceId, UserId};

fn hash(byte: u8) -> PayloadDigest {
    PayloadDigest { bytes: [byte; 32] }
}

// Hands the answers to the state until the payload is submitted.
fn run(mut state: SubmitState, events: Vec<SubmitEvent>) -> Option<Result<(PayloadDigest, u64), String>> {
    for event in events {
        match state.next(event) {
            SubmitStep::Continue(next) => state = next,
            SubmitStep::Done(result) => return Some(result),
        }
    }
    None
}

#[test]
fn payloads_that_are_there_are_submitted_by_hash() {
    for (form, length) in [
        (PayloadForm::Hash(hash(1)), 70),
        // The given length is not checked.
        (PayloadForm::HashUnchecked(hash(1), 7), 7),
    ] {
        let (state, action) = form.submit();
        assert!(matches!(action, SubmitAction::QueryStatus(h) if h == hash(1)));
        let status = SubmitEvent::Status(Ok(BlobStatus::Complete { size: 70 }));
        assert_eq!(run(state, vec![status]), Some(Ok((hash(1), length))));
    }
}

#[test]
fn payloads_that_are_not_there_are_not_submitted_by_hash() {
    let answers = || {
        vec![
            (Ok(BlobStatus::NotFound), "hash not found"),
            (Ok(BlobStatus::Partial), "hash found but not complete"),
            (Err("io".to_owned()), "io"),
        ]
    };
    for (status, text) in answers() {
        let (state, _) = PayloadForm::Hash(hash(1)).submit();
        let result = run(state, vec![SubmitEvent::Status(status)]);
        assert_eq!(result, Some(Err(text.to_owned())));
    }
    for (status, text) in answers() {
        let (state, _) = PayloadForm::HashUnchecked(hash(1), 7).submit();
        let result = run(state, vec![SubmitEvent::Status(status)]);
        assert_eq!(result, Some(Err(text.to_owned())));
    }
}

#[test]
fn bytes_are_submitted_with_their_length() {
    let (state, action) = PayloadForm::Bytes(b"hello".to_vec()).submit();
    assert!(matches!(action, SubmitAction::AddBytes(bytes) if bytes == b"hello"));
    assert_eq!(run(state, vec![SubmitEvent::Added(Ok(hash(2)))]), Some(Ok((hash(2), 5))));
    let (state, _) = PayloadForm::Bytes(vec![]).submit();
    let result = run(state, vec![SubmitEvent::Added(Err("full".to_owned()))]);
    assert_eq!(result, Some(Err("full".to_owned())));
}

#[test]
fn imports_take_the_last_size() {
    let (state, action) =
        PayloadForm::File("data.bin".to_owned(), ImportMode::Copy).submit();
    assert!(matches!(action, SubmitAction::AddFile(path, ImportMode::Copy) if path == "data.bin"));
    let events = vec![
        SubmitEvent::Progress(AddProgressItem::Size(9)),
        SubmitEvent::Progress(AddProgressItem::Other),
        SubmitEvent::Progress(AddProgressItem::Size(10)),
        SubmitEvent::Progress(AddProgressItem::Done(hash(3))),
        SubmitEvent::Progress(AddProgressItem::Size(11)),
    ];
    assert_eq!(run(state, events), Some(Ok((hash(3), 10))));

    let (state, action) = PayloadForm::Stream.submit();
    assert!(matches!(action, SubmitAction::AddStream));
    let events = vec![SubmitEvent::Progress(AddProgressItem::Done(hash(3)))];
    assert_eq!(run(state, events), Some(Err("size not reported".to_owned())));

    let (state, action) = PayloadForm::Reader.submit();
    assert!(matches!(action, SubmitAction::AddReader));
    let events = vec![SubmitEvent::Progress(AddProgressItem::Size(1)), SubmitEvent::End];
    assert_eq!(run(state, events), Some(Err("import did not complete".to_owned())));

    let (state, _) = PayloadForm::Stream.submit();
    let events = vec![SubmitEvent::Progress(AddProgressItem::Error("gone".to_owned()))];
    assert_eq!(run(state, events), Some(Err("gone".to_owned())));

    // What was not asked for changes nothing.
    let (state, _) = PayloadForm::Stream.submit();
    let events = vec![
        SubmitEvent::Status(Ok(BlobStatus::NotFound)),
        SubmitEvent::Added(Ok(hash(1))),
    ];
    assert_eq!(run(state, events), None);
}

#[test]
fn entries_are_of_their_writer_by_default() {
    let namespace = NamespaceId::from([1; 32]);
    let path = Path::from_bytes(&[b"a"]).unwrap();
    let form = EntryForm::new_bytes(namespace, path, b"hi".to_vec());
    assert!(matches!(form.subspace_id, SubspaceForm::User));
    assert!(matches!(form.timestamp, TimestampForm::Now));
    assert!(matches!(&form.payload, PayloadForm::Bytes(bytes) if bytes == b"hi"));
    assert_eq!(form.namespace_id, namespace);

    let user = UserId::from([2; 32]);
    let form = form.subspace(user);
    assert!(matches!(form.subspace_id, SubspaceForm::Exact(id) if id == user));
    assert_eq!(form.path.component(0), b"a");
    assert_eq!(AuthForm::Any(user).user_id(), user);
    assert!(matches!(SubspaceForm::default(), SubspaceForm::User));
    assert!(matches!(TimestampForm::default(), TimestampForm::Now));
}
