//! Entries and payloads that are yet to be made, with parts that are filled in.

use vstd::prelude::*;

use crate::proto::data_model::{Entry, Path, PayloadDigest, SubspaceId, Timestamp};
use crate::proto::keys::{NamespaceId, UserId};
use crate::proto::meadowcap::WriteCapability;

verus! {

/// The hash of a blob.
pub type Hash = PayloadDigest;

/// How a file gets into the storage.
#[derive(Clone, Copy, Debug, PartialEq, Eq, Structural)]
pub enum ImportMode {
    /// Its bytes are copied.
    Copy,
    /// The file is referred to, where that is possible.
    TryReference,
}

/// Where the data of a payload come from.
#[derive(Debug)]
pub enum PayloadForm {
    /// They are in the storage, with this hash. Where they are not, submitting fails.
    Hash(Hash),
    /// They are in the storage, with this hash, and have this length, which is not checked.
    /// Where they are not there, submitting fails.
    HashUnchecked(Hash, u64),
    /// They are these bytes.
    Bytes(Vec<u8>),
    /// They are in the file with this path.
    File(String, ImportMode),
    /// They come from a stream.
    Stream,
    /// They come from a reader.
    Reader,
}

// ---------------------------------------------------------------------------
// Submitting payloads
// ---------------------------------------------------------------------------

/// What the storage is asked for.
#[derive(Debug)]
pub enum SubmitAction {
    /// The status of the blob with this hash.
    QueryStatus(Hash),
    /// To add these bytes.
    AddBytes(Vec<u8>),
    /// To add the file with this path.
    AddFile(String, ImportMode),
    /// To add what the stream gives.
    AddStream,
    /// To add what the reader gives.
    AddReader,
}

/// The status of a blob.
#[derive(Clone, Copy, Debug, PartialEq, Eq, Structural)]
pub enum BlobStatus {
    NotFound,
    Partial,
    Complete { size: u64 },
}

/// A report of the storage while it adds data.
#[derive(Debug)]
pub enum AddProgressItem {
    /// The data have this many bytes.
    Size(u64),
    /// The data have been added, and have this hash.
    Done(Hash),
    /// Adding the data failed.
    Error(String),
    /// Any other report.
    Other,
}

/// What the storage answers.
#[derive(Debug)]
pub enum SubmitEvent {
    /// The status of a blob, or an error.
    Status(Result<BlobStatus, String>),
    /// The hash of bytes that were added, or an error.
    Added(Result<Hash, String>),
    /// A report while it adds data.
    Progress(AddProgressItem),
    /// There are no further reports.
    End,
}

/// What is known while a payload is submitted.
#[derive(Clone, Copy, Debug)]
pub enum SubmitState {
    /// The status of the blob with this hash is asked for; `given_length` is
    /// its length, if that is given.
    Status { hash: Hash, given_length: Option<u64> },
    /// This many bytes are being added.
    Bytes { length: u64 },
    /// Data are being added, and this many, if that is known.
    Import { size: Option<u64> },
}

/// What comes of an answer of the storage.
#[derive(Debug)]
pub enum SubmitStep {
    /// Wait for the next answer.
    Continue(SubmitState),
    /// The hash and the length of the payload, or the text of an error.
    Done(Result<(Hash, u64), String>),
}

pub enum SubmitStepView {
    Continue(SubmitState),
    Done(Result<(Hash, u64), Seq<char>>),
}

impl View for SubmitStep {
    type V = SubmitStepView;

    open spec fn view(&self) -> SubmitStepView {
        match self {
            SubmitStep::Continue(state) => SubmitStepView::Continue(*state),
            SubmitStep::Done(Ok(done)) => SubmitStepView::Done(Ok(*done)),
            SubmitStep::Done(Err(text)) => SubmitStepView::Done(Err(text@)),
        }
    }
}

/// What comes of the status of a blob: it has to be complete.
pub open spec fn status_outcome(
    hash: Hash,
    length: Option<u64>,
    status: Result<BlobStatus, String>,
) -> Result<(Hash, u64), Seq<char>> {
    match status {
        Err(text) => Err(text@),
        Ok(BlobStatus::NotFound) => Err("hash not found"@),
        Ok(BlobStatus::Partial) => Err("hash found but not complete"@),
        Ok(BlobStatus::Complete { size }) => match length {
            Some(length) => Ok((hash, length)),
            None => Ok((hash, size)),
        },
    }
}

/// What comes of a report while data are added, of which the storage has reported `size`.
pub open spec fn progress_outcome(size: Option<u64>, item: AddProgressItem) -> SubmitStepView {
    match item {
        AddProgressItem::Size(s) => SubmitStepView::Continue(
            SubmitState::Import { size: Some(s) },
        ),
        AddProgressItem::Done(hash) => SubmitStepView::Done(
            match size {
                Some(s) => Ok((hash, s)),
                None => Err("size not reported"@),
            },
        ),
        AddProgressItem::Error(text) => SubmitStepView::Done(Err(text@)),
        AddProgressItem::Other => SubmitStepView::Continue(SubmitState::Import { size }),
    }
}

/// What comes of an answer of the storage. One that was not asked for changes nothing.
pub open spec fn submit_outcome(state: SubmitState, event: SubmitEvent) -> SubmitStepView {
    match (state, event) {
        (SubmitState::Status { hash, given_length }, SubmitEvent::Status(status)) => SubmitStepView::Done(
            status_outcome(hash, given_length, status),
        ),
        (SubmitState::Bytes { length }, SubmitEvent::Added(Ok(hash))) => SubmitStepView::Done(
            Ok((hash, length)),
        ),
        (SubmitState::Bytes { .. }, SubmitEvent::Added(Err(text))) => SubmitStepView::Done(
            Err(text@),
        ),
        (SubmitState::Import { size }, SubmitEvent::Progress(item)) => progress_outcome(size, item),
        (SubmitState::Import { .. }, SubmitEvent::End) => SubmitStepView::Done(
            Err("import did not complete"@),
        ),
        _ => SubmitStepView::Continue(state),
    }
}

impl PayloadForm {
    /// Starts submitting the payload: what the storage is asked for, and what is known.
    pub fn submit(self) -> (r: (SubmitState, SubmitAction))
        ensures
            match self {
                PayloadForm::Hash(hash) => r == (
                    SubmitState::Status { hash, given_length: None },
                    SubmitAction::QueryStatus(hash),
                ),
                PayloadForm::HashUnchecked(hash, length) => r == (
                    SubmitState::Status { hash, given_length: Some(length) },
                    SubmitAction::QueryStatus(hash),
                ),
                PayloadForm::Bytes(bytes) => r == (
                    SubmitState::Bytes { length: bytes@.len() as u64 },
                    SubmitAction::AddBytes(bytes),
                ),
                PayloadForm::File(path, mode) => r == (
                    SubmitState::Import { size: None },
                    SubmitAction::AddFile(path, mode),
                ),
                PayloadForm::Stream => r == (
                    SubmitState::Import { size: None },
                    SubmitAction::AddStream,
                ),
                PayloadForm::Reader => r == (
                    SubmitState::Import { size: None },
                    SubmitAction::AddReader,
                ),
            },
    {
        match self {
            PayloadForm::Hash(hash) => (
                SubmitState::Status { hash, given_length: None },
                SubmitAction::QueryStatus(hash),
            ),
            PayloadForm::HashUnchecked(hash, length) => (
                SubmitState::Status { hash, given_length: Some(length) },
                SubmitAction::QueryStatus(hash),
            ),
            PayloadForm::Bytes(bytes) => {
                let length: u64 = bytes.len() as u64;
                (SubmitState::Bytes { length }, SubmitAction::AddBytes(bytes))
            },
            PayloadForm::File(path, mode) => (
                SubmitState::Import { size: None },
                SubmitAction::AddFile(path, mode),
            ),
            PayloadForm::Stream => (SubmitState::Import { size: None }, SubmitAction::AddStream),
            PayloadForm::Reader => (SubmitState::Import { size: None }, SubmitAction::AddReader),
        }
    }
}

impl SubmitState {
    /// Goes on submitting the payload with an answer of the storage.
    pub fn next(self, event: SubmitEvent) -> (r: SubmitStep)
        ensures
            r@ == submit_outcome(self, event),
    {
        match (self, event) {
            (SubmitState::Status { hash, given_length }, SubmitEvent::Status(status)) => match status {
                Err(text) => SubmitStep::Done(Err(text)),
                Ok(BlobStatus::NotFound) => SubmitStep::Done(Err("hash not found".to_owned())),
                Ok(BlobStatus::Partial) => {
                    SubmitStep::Done(Err("hash found but not complete".to_owned()))
                },
                Ok(BlobStatus::Complete { size }) => match given_length {
                    Some(length) => SubmitStep::Done(Ok((hash, length))),
                    None => SubmitStep::Done(Ok((hash, size))),
                },
            },
            (SubmitState::Bytes { length }, SubmitEvent::Added(added)) => match added {
                Ok(hash) => SubmitStep::Done(Ok((hash, length))),
                Err(text) => SubmitStep::Done(Err(text)),
            },
            (SubmitState::Import { size }, SubmitEvent::Progress(item)) => match item {
                AddProgressItem::Size(s) => {
                    SubmitStep::Continue(SubmitState::Import { size: Some(s) })
                },
                AddProgressItem::Done(hash) => match size {
                    Some(s) => SubmitStep::Done(Ok((hash, s))),
                    None => SubmitStep::Done(Err("size not reported".to_owned())),
                },
                AddProgressItem::Error(text) => SubmitStep::Done(Err(text)),
                AddProgressItem::Other => SubmitStep::Continue(SubmitState::Import { size }),
            },
            (SubmitState::Import { .. }, SubmitEvent::End) => {
                SubmitStep::Done(Err("import did not complete".to_owned()))
            },
            (state, _) => SubmitStep::Continue(state),
        }
    }
}

/// What comes of answers of the storage, taken in order until the payload is submitted.
pub open spec fn submit_run(state: SubmitState, events: Seq<SubmitEvent>) -> SubmitStepView
    decreases events.len(),
{
    if events.len() == 0 {
        SubmitStepView::Continue(state)
    } else {
        match submit_outcome(state, events[0]) {
            SubmitStepView::Continue(next) => submit_run(next, events.drop_first()),
            done => done,
        }
    }
}

/// The size that was reported last, where `size` was reported before.
pub open spec fn last_size(size: Option<u64>, items: Seq<AddProgressItem>) -> Option<u64>
    decreases items.len(),
{
    if items.len() == 0 {
        size
    } else {
        match items.last() {
            AddProgressItem::Size(s) => Some(s),
            _ => last_size(size, items.drop_last()),
        }
    }
}

/// The events of these reports.
pub open spec fn reports(items: Seq<AddProgressItem>) -> Seq<SubmitEvent> {
    items.map_values(|item: AddProgressItem| SubmitEvent::Progress(item))
}

/// Data of which the storage reports that they have been added have the hash that it reports
/// then and the size that it reported last before; without a size that is an error. Reports
/// after that make no difference.
pub proof fn law_import_takes_last_size(
    size: Option<u64>,
    items: Seq<AddProgressItem>,
    hash: Hash,
    rest: Seq<SubmitEvent>,
)
    requires
        forall|i: int|
            0 <= i < items.len() ==> (#[trigger] items[i]) is Size || items[i] is Other,
    ensures
        submit_run(
            SubmitState::Import { size },
            reports(items).push(SubmitEvent::Progress(AddProgressItem::Done(hash))) + rest,
        ) == SubmitStepView::Done(
            match last_size(size, items) {
                Some(s) => Ok((hash, s)),
                None => Err("size not reported"@),
            },
        ),
    decreases items.len(),
{
    let done = SubmitEvent::Progress(AddProgressItem::Done(hash));
    let events = reports(items).push(done) + rest;
    if items.len() == 0 {
        assert(events[0] == done);
    } else {
        let tail = items.drop_first();
        let next = match items[0] {
            AddProgressItem::Size(s) => Some(s),
            _ => size,
        };
        assert forall|i: int| 0 <= i < tail.len() implies (#[trigger] tail[i]) is Size
            || tail[i] is Other by {
            assert(tail[i] == items[i + 1]);
        }
        law_import_takes_last_size(next, tail, hash, rest);
        assert(events[0] == SubmitEvent::Progress(items[0]));
        assert(events.drop_first() =~= reports(tail).push(done) + rest);
        lemma_last_size(size, items);
    }
}

proof fn lemma_last_size(size: Option<u64>, items: Seq<AddProgressItem>)
    requires
        items.len() > 0,
    ensures
        last_size(size, items) == last_size(
            match items[0] {
                AddProgressItem::Size(s) => Some(s),
                _ => size,
            },
            items.drop_first(),
        ),
    decreases items.len(),
{
    if items.len() == 1 {
        reveal_with_fuel(last_size, 2);
        assert(items.drop_first() =~= Seq::empty());
        assert(items.drop_last() =~= Seq::empty());
    } else {
        lemma_last_size(size, items.drop_last());
        assert(items.drop_first().last() == items.last());
        assert(items.drop_first().drop_last() =~= items.drop_last().drop_first());
        assert(items.drop_last()[0] == items[0]);
    }
}

/// Data whose reports end without saying that they have been added are not submitted.
pub proof fn law_import_must_complete(size: Option<u64>, items: Seq<AddProgressItem>)
    requires
        forall|i: int|
            0 <= i < items.len() ==> (#[trigger] items[i]) is Size || items[i] is Other,
    ensures
        submit_run(SubmitState::Import { size }, reports(items).push(SubmitEvent::End))
            == SubmitStepView::Done(Err("import did not complete"@)),
    decreases items.len(),
{
    let events = reports(items).push(SubmitEvent::End);
    if items.len() == 0 {
        assert(events[0] == SubmitEvent::End);
    } else {
        let tail = items.drop_first();
        assert forall|i: int| 0 <= i < tail.len() implies (#[trigger] tail[i]) is Size
            || tail[i] is Other by {
            assert(tail[i] == items[i + 1]);
        }
        let next = match items[0] {
            AddProgressItem::Size(s) => Some(s),
            _ => size,
        };
        law_import_must_complete(next, tail);
        assert(events[0] == SubmitEvent::Progress(items[0]));
        assert(events.drop_first() =~= reports(tail).push(SubmitEvent::End));
    }
}

/// A payload that is named by its hash is submitted exactly where the storage has all of it:
/// under that hash, and with the length that was given or else the one that the storage tells.
/// Where the storage fails, its text is the error.
pub proof fn law_payload_must_be_complete(
    hash: Hash,
    given_length: Option<u64>,
    status: Result<BlobStatus, String>,
)
    ensures
        ({
            let step = submit_outcome(
                SubmitState::Status { hash, given_length },
                SubmitEvent::Status(status),
            );
            &&& step is Done
            &&& step->Done_0 is Ok <==> status is Ok && status->Ok_0 is Complete
            &&& step->Done_0 is Ok ==> step->Done_0->Ok_0.0 == hash
            &&& step->Done_0 is Ok && given_length is Some ==> step->Done_0->Ok_0.1
                == given_length->0
            &&& step->Done_0 is Ok && given_length is None ==> step->Done_0->Ok_0.1
                == status->Ok_0->size
            &&& status is Err ==> step->Done_0->Err_0 == status->Err_0@
            &&& status == Ok::<BlobStatus, String>(BlobStatus::NotFound) ==> step->Done_0->Err_0
                == "hash not found"@
            &&& status == Ok::<BlobStatus, String>(BlobStatus::Partial) ==> step->Done_0->Err_0
                == "hash found but not complete"@
        }),
{
}

/// Bytes that the storage has added are submitted under the hash that it tells, with their
/// length; where adding them fails, its text is the error.
pub proof fn law_added_bytes_are_submitted(length: u64, added: Result<Hash, String>)
    ensures
        ({
            let step = submit_outcome(SubmitState::Bytes { length }, SubmitEvent::Added(added));
            &&& step is Done
            &&& step->Done_0 is Ok <==> added is Ok
            &&& added is Ok ==> step->Done_0->Ok_0 == (added->Ok_0, length)
            &&& added is Err ==> step->Done_0->Err_0 == added->Err_0@
        }),
{
}

/// Adding data fails with the text that the storage reports, whatever it reported before.
pub proof fn law_import_fails_with_the_reported_error(
    size: Option<u64>,
    items: Seq<AddProgressItem>,
    text: String,
    rest: Seq<SubmitEvent>,
)
    requires
        forall|i: int|
            0 <= i < items.len() ==> (#[trigger] items[i]) is Size || items[i] is Other,
    ensures
        submit_run(
            SubmitState::Import { size },
            reports(items).push(SubmitEvent::Progress(AddProgressItem::Error(text))) + rest,
        ) == SubmitStepView::Done(Err(text@)),
    decreases items.len(),
{
    let failed = SubmitEvent::Progress(AddProgressItem::Error(text));
    let events = reports(items).push(failed) + rest;
    if items.len() == 0 {
        assert(events[0] == failed);
    } else {
        let tail = items.drop_first();
        let next = match items[0] {
            AddProgressItem::Size(s) => Some(s),
            _ => size,
        };
        assert forall|i: int| 0 <= i < tail.len() implies (#[trigger] tail[i]) is Size
            || tail[i] is Other by {
            assert(tail[i] == items[i + 1]);
        }
        law_import_fails_with_the_reported_error(next, tail, text, rest);
        assert(events[0] == SubmitEvent::Progress(items[0]));
        assert(events.drop_first() =~= reports(tail).push(failed) + rest);
    }
}

/// An answer that was not asked for changes nothing: only a status answers a question for one,
/// only a hash of added bytes answers bytes, and only reports and their end answer an import.
pub proof fn law_unasked_answers_change_nothing(state: SubmitState, event: SubmitEvent)
    requires
        state is Status ==> event !is Status,
        state is Bytes ==> event !is Added,
        state is Import ==> event !is Progress && event !is End,
    ensures
        submit_outcome(state, event) == SubmitStepView::Continue(state),
{
}

/// The storage is asked for what the form says: for the status of the hash that it names, or to
/// add the bytes, the file, the stream or the reader that it holds.
pub proof fn law_what_is_asked_for_a_form(form: PayloadForm, r: (SubmitState, SubmitAction))
    requires
        call_ensures(PayloadForm::submit, (form,), r),
    ensures
        form matches PayloadForm::Hash(hash) ==> r.1 == SubmitAction::QueryStatus(hash) && r.0
            == (SubmitState::Status { hash, given_length: None }),
        form matches PayloadForm::HashUnchecked(hash, length) ==> r.1 == SubmitAction::QueryStatus(
            hash,
        ) && r.0 == (SubmitState::Status { hash, given_length: Some(length) }),
        form matches PayloadForm::Bytes(bytes) ==> r.1 == SubmitAction::AddBytes(bytes) && r.0
            == (SubmitState::Bytes { length: bytes@.len() as u64 }),
        form matches PayloadForm::File(path, mode) ==> r.1 == SubmitAction::AddFile(path, mode),
        form is Stream ==> r.1 is AddStream,
        form is Reader ==> r.1 is AddReader,
        form is File || form is Stream || form is Reader ==> r.0 == (SubmitState::Import {
            size: None,
        }),
{
}

// ---------------------------------------------------------------------------
// Forms of entries
// ---------------------------------------------------------------------------

/// An entry, or the form of one.
#[derive(Debug)]
pub enum EntryOrForm {
    Entry(Entry),
    Form(EntryForm),
}

/// An entry that is yet to be made.
#[derive(Debug)]
pub struct EntryForm {
    pub namespace_id: NamespaceId,
    pub subspace_id: SubspaceForm,
    pub path: Path,
    pub timestamp: TimestampForm,
    pub payload: PayloadForm,
}

impl EntryForm {
    /// An entry in the subspace of whoever writes it, at the time it is written, with these
    /// bytes as payload.
    pub fn new_bytes(namespace_id: NamespaceId, path: Path, payload: Vec<u8>) -> (r: Self)
        ensures
            r == (EntryForm {
                namespace_id,
                subspace_id: SubspaceForm::User,
                path,
                timestamp: TimestampForm::Now,
                payload: PayloadForm::Bytes(payload),
            }),
    {
        EntryForm {
            namespace_id,
            subspace_id: SubspaceForm::User,
            path,
            timestamp: TimestampForm::Now,
            payload: PayloadForm::Bytes(payload),
        }
    }

    /// The form with this subspace.
    pub fn subspace(self, subspace: SubspaceId) -> (r: Self)
        ensures
            r == (EntryForm { subspace_id: SubspaceForm::Exact(subspace), ..self }),
    {
        EntryForm {
            namespace_id: self.namespace_id,
            subspace_id: SubspaceForm::Exact(subspace),
            path: self.path,
            timestamp: self.timestamp,
            payload: self.payload,
        }
    }
}

/// With which capability an entry is written.
#[derive(Debug)]
pub enum AuthForm {
    /// Any of this user that covers the entry.
    Any(UserId),
    /// This one.
    Exact(WriteCapability),
}

impl AuthForm {
    /// The user whose capability it is.
    pub fn user_id(&self) -> (r: UserId)
        ensures
            r == match self {
                AuthForm::Any(user) => *user,
                AuthForm::Exact(cap) => cap@.receiver(),
            },
    {
        match self {
            AuthForm::Any(user) => *user,
            AuthForm::Exact(cap) => cap.receiver(),
        }
    }
}

/// In which subspace an entry is written.
#[derive(Clone, Copy, Debug)]
pub enum SubspaceForm {
    /// That of the user who writes it.
    User,
    /// This one.
    Exact(SubspaceId),
}

impl Default for SubspaceForm {
    fn default() -> (r: Self)
        ensures
            r is User,
    {
        SubspaceForm::User
    }
}

/// At which time an entry is written.
#[derive(Clone, Copy, Debug)]
pub enum TimestampForm {
    /// By now.
    Now,
    /// At this time.
    Exact(Timestamp),
}

impl Default for TimestampForm {
    fn default() -> (r: Self)
        ensures
            r is Now,
    {
        TimestampForm::Now
    }
}

} // verus!
