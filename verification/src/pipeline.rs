//! The per-request upload state machine.
//!
//! One [`Session`] models one HTTP upload request. The session itself never
//! touches the network or the disk: it is driven by an unverified loop that
//! performs each [`Action`] the session asks for (read the next multipart
//! field, open a destination file off the request path, read the next chunk,
//! append it, release the file, or answer the request) and hands the outcome
//! back as the matching [`Event`]. The contracts pin down the whole
//! protocol: the authorization gate short-circuits before the body is
//! touched, a field without a content-disposition header ends the request
//! with a client error before anything is written for it, within one field
//! the chunks are appended strictly in arrival order with the next chunk
//! polled only after the previous write finished, a failed field is
//! abandoned without stopping the fields after it, and every destination
//! lies under the upload root.

use vstd::prelude::*;
use vstd::string::StringExecFns;
use crate::filename::{
    safe_component, sanitized_of, uuid_name, joined_path, lexically_inside, resolve_filename,
    destination_path, lemma_joined_path_inside_root,
};

verus! {

/// The response category of one upload request.
#[derive(Clone, Copy, PartialEq, Eq, Structural, Debug)]
pub enum Status {
    /// Everything the request asked for was done (or nothing was asked).
    Success,
    /// The body does not conform to the multipart protocol.
    BadRequest,
    /// The caller is not authenticated.
    Unauthorized,
    /// Every field of the request failed against the filesystem.
    StorageFailure,
}

/// One observation handed to the session by its driver: what the multipart
/// reader or the blocking write offload came back with.
#[derive(Debug)]
pub enum Event {
    /// The reader found the next field: whether it carried a
    /// content-disposition header, and the filename declared there, if any.
    FieldAvailable { has_disposition: bool, filename: Option<String> },
    /// The body ended; there is no further field.
    BodyExhausted,
    /// Reading the next field failed: malformed body or broken transport.
    BodyFailed,
    /// Whether opening the destination file succeeded.
    OpenResult(bool),
    /// The next chunk of the current field's byte stream.
    ChunkAvailable(Vec<u8>),
    /// The current field's byte stream ended.
    FieldExhausted,
    /// Reading the next chunk failed: broken transport.
    ChunkFailed,
    /// Whether appending the last chunk to the destination succeeded.
    WriteResult(bool),
    /// The destination file was released.
    Closed,
}

/// What the session asks its driver to do next. Exactly one action is
/// outstanding at any time and the driver answers it with the matching
/// event, except for `Respond`, which ends the request.
#[derive(Debug)]
pub enum Action {
    /// Read the next field of the multipart body.
    PollField,
    /// Create or truncate the file at this path, off the request path.
    Open(String),
    /// Read the next chunk of the current field.
    PollChunk,
    /// Append these bytes to the open destination, off the request path.
    Write(Vec<u8>),
    /// Release the open destination, whatever came of the writes before.
    Close,
    /// Answer the request; the session is finished.
    Respond(Status),
}

/// The model of one destination file: the name it was opened under, the
/// chunks accepted for it in arrival order, the bytes written through it,
/// and whether its field's stream was drained to the end.
pub struct FileRecord {
    pub name: Seq<char>,
    pub chunks: Seq<Seq<u8>>,
    pub bytes: Seq<u8>,
    pub complete: bool,
}

/// The concatenation of a field's chunks, in arrival order.
pub open spec fn concat_chunks(chunks: Seq<Seq<u8>>) -> Seq<u8>
    decreases chunks.len(),
{
    if chunks.len() == 0 {
        Seq::empty()
    } else {
        concat_chunks(chunks.drop_last()) + chunks.last()
    }
}

/// Accepting one more chunk appends exactly its bytes to the concatenation.
pub proof fn lemma_concat_chunks_push(chunks: Seq<Seq<u8>>, c: Seq<u8>)
    ensures
        concat_chunks(chunks.push(c)) == concat_chunks(chunks) + c,
{
    assert(chunks.push(c).drop_last() =~= chunks);
    assert(chunks.push(c).last() == c);
}

/// The control state of a session, as the contracts speak of it.
pub enum StateModel {
    /// Between fields: the driver is reading the next part boundary.
    AwaitingField,
    /// A destination is being opened under this resolved name.
    Opening { name: Seq<char> },
    /// The driver is reading the next chunk of the current field.
    AwaitingChunk,
    /// The last chunk is being appended to the destination.
    Writing,
    /// The destination is being released.
    Closing,
    /// The response has been issued; nothing further happens.
    Done,
}

/// The model of a session: its control state, the upload root, whether any
/// field was started and whether any ran to completion, and the log of
/// destination files opened so far (the last one is the current field's).
pub struct SessionModel {
    pub state: StateModel,
    pub root: Seq<char>,
    pub any_field_started: bool,
    pub any_field_completed: bool,
    pub files: Seq<FileRecord>,
}

impl SessionModel {
    /// The session invariant: every destination was opened under a safe
    /// name, holds exactly the concatenation of its chunks in arrival
    /// order, and the bookkeeping flags agree with the file log.
    pub open spec fn wf(self) -> bool {
        &&& forall|i: int|
            0 <= i < self.files.len() ==> safe_component((#[trigger] self.files[i]).name)
        &&& forall|i: int|
            0 <= i < self.files.len() ==> (#[trigger] self.files[i]).bytes == concat_chunks(
                self.files[i].chunks,
            )
        &&& (self.any_field_completed <==> exists|i: int|
            0 <= i < self.files.len() && (#[trigger] self.files[i]).complete)
        &&& (self.files.len() > 0 ==> self.any_field_started)
        &&& (self.state matches StateModel::Opening { name } ==> safe_component(name)
            && self.any_field_started)
        &&& ((self.state is AwaitingChunk || self.state is Writing || self.state is Closing)
            ==> self.files.len() > 0)
    }
}

/// A transition that leaves the file log and both flags alone preserves the
/// invariant, provided the new control state's own demands are met.
proof fn lemma_wf_unchanged(pre: SessionModel, post: SessionModel)
    requires
        pre.wf(),
        post.files == pre.files,
        pre.any_field_started ==> post.any_field_started,
        post.any_field_completed == pre.any_field_completed,
        post.state matches StateModel::Opening { name } ==> safe_component(name)
            && post.any_field_started,
        (post.state is AwaitingChunk || post.state is Writing || post.state is Closing)
            ==> post.files.len() > 0,
    ensures
        post.wf(),
{
}

/// Opening a destination appends a fresh, empty, incomplete record under a
/// safe name; the invariant carries over to the longer log.
proof fn lemma_wf_open(pre: SessionModel, post: SessionModel, name: Seq<char>)
    requires
        pre.wf(),
        safe_component(name),
        post.files == pre.files.push(
            FileRecord { name, chunks: Seq::empty(), bytes: Seq::empty(), complete: false },
        ),
        post.any_field_started,
        post.any_field_completed == pre.any_field_completed,
        !(post.state matches StateModel::Opening { .. }),
    ensures
        post.wf(),
{
    let oldf = pre.files;
    let newf = post.files;
    let record = FileRecord { name, chunks: Seq::empty(), bytes: Seq::empty(), complete: false };
    assert(concat_chunks(Seq::<Seq<u8>>::empty()) == Seq::<u8>::empty());
    assert forall|i: int| 0 <= i < newf.len() implies safe_component((#[trigger] newf[i]).name)
        && newf[i].bytes == concat_chunks(newf[i].chunks) by {
        if i < oldf.len() {
            assert(newf[i] == oldf[i]);
            assert(safe_component(oldf[i].name));
            assert(oldf[i].bytes == concat_chunks(oldf[i].chunks));
        } else {
            assert(newf[i] == record);
        }
    }
    assert(post.any_field_completed <==> exists|i: int|
        0 <= i < newf.len() && (#[trigger] newf[i]).complete) by {
        if post.any_field_completed {
            let w = choose|i: int| 0 <= i < oldf.len() && (#[trigger] oldf[i]).complete;
            assert(newf[w] == oldf[w]);
            assert(newf[w].complete);
        }
        if exists|i: int| 0 <= i < newf.len() && (#[trigger] newf[i]).complete {
            let w = choose|i: int| 0 <= i < newf.len() && (#[trigger] newf[i]).complete;
            if w < oldf.len() {
                assert(oldf[w] == newf[w]);
                assert(oldf[w].complete);
            } else {
                assert(newf[w] == record);
                assert(false);
            }
        }
    }
}

/// Appending one chunk to the current (last) record preserves the
/// invariant: the record's bytes stay the concatenation of its chunks.
proof fn lemma_wf_append_chunk(pre: SessionModel, post: SessionModel, c: Seq<u8>)
    requires
        pre.wf(),
        pre.files.len() > 0,
        post.files == pre.files.update(
            pre.files.len() - 1,
            FileRecord {
                name: pre.files.last().name,
                chunks: pre.files.last().chunks.push(c),
                bytes: pre.files.last().bytes + c,
                complete: pre.files.last().complete,
            },
        ),
        post.any_field_started == pre.any_field_started,
        post.any_field_completed == pre.any_field_completed,
        !(post.state matches StateModel::Opening { .. }),
    ensures
        post.wf(),
{
    let oldf = pre.files;
    let newf = post.files;
    let last: int = oldf.len() - 1;
    lemma_concat_chunks_push(oldf.last().chunks, c);
    assert(oldf[last].bytes == concat_chunks(oldf[last].chunks));
    assert forall|i: int| 0 <= i < newf.len() implies safe_component((#[trigger] newf[i]).name)
        && newf[i].bytes == concat_chunks(newf[i].chunks) && newf[i].complete
        == oldf[i].complete by {
        if i != last {
            assert(newf[i] == oldf[i]);
        }
        assert(safe_component(oldf[i].name));
        assert(oldf[i].bytes == concat_chunks(oldf[i].chunks));
    }
    assert(post.any_field_completed <==> exists|i: int|
        0 <= i < newf.len() && (#[trigger] newf[i]).complete) by {
        if post.any_field_completed {
            let w = choose|i: int| 0 <= i < oldf.len() && (#[trigger] oldf[i]).complete;
            assert(newf[w].complete);
        }
        if exists|i: int| 0 <= i < newf.len() && (#[trigger] newf[i]).complete {
            let w = choose|i: int| 0 <= i < newf.len() && (#[trigger] newf[i]).complete;
            assert(oldf[w].complete);
        }
    }
}

/// Marking the current (last) record complete preserves the invariant and
/// justifies the completion flag.
proof fn lemma_wf_complete_last(pre: SessionModel, post: SessionModel)
    requires
        pre.wf(),
        pre.files.len() > 0,
        post.files == pre.files.update(
            pre.files.len() - 1,
            FileRecord {
                name: pre.files.last().name,
                chunks: pre.files.last().chunks,
                bytes: pre.files.last().bytes,
                complete: true,
            },
        ),
        post.any_field_started == pre.any_field_started,
        post.any_field_completed,
        !(post.state matches StateModel::Opening { .. }),
    ensures
        post.wf(),
{
    let oldf = pre.files;
    let newf = post.files;
    let last: int = oldf.len() - 1;
    assert forall|i: int| 0 <= i < newf.len() implies safe_component((#[trigger] newf[i]).name)
        && newf[i].bytes == concat_chunks(newf[i].chunks) by {
        if i != last {
            assert(newf[i] == oldf[i]);
        }
        assert(safe_component(oldf[i].name));
        assert(oldf[i].bytes == concat_chunks(oldf[i].chunks));
    }
    assert(newf[last].complete);
}

/// The response issued once the body is exhausted: success, unless at least
/// one field was started and none ran to completion.
pub open spec fn final_status(any_field_started: bool, any_field_completed: bool) -> Status {
    if !any_field_started || any_field_completed {
        Status::Success
    } else {
        Status::StorageFailure
    }
}

#[derive(Clone, Copy)]
enum State {
    AwaitingField,
    Opening { name: Ghost<Seq<char>> },
    AwaitingChunk,
    Writing,
    Closing,
    Done,
}

impl State {
    spec fn model(self) -> StateModel {
        match self {
            State::AwaitingField => StateModel::AwaitingField,
            State::Opening { name } => StateModel::Opening { name: name@ },
            State::AwaitingChunk => StateModel::AwaitingChunk,
            State::Writing => StateModel::Writing,
            State::Closing => StateModel::Closing,
            State::Done => StateModel::Done,
        }
    }
}

/// One upload request in progress.
pub struct Session {
    state: State,
    root: String,
    any_field_started: bool,
    any_field_completed: bool,
    files: Ghost<Seq<FileRecord>>,
}

impl View for Session {
    type V = SessionModel;

    closed spec fn view(&self) -> SessionModel {
        SessionModel {
            state: self.state.model(),
            root: self.root@,
            any_field_started: self.any_field_started,
            any_field_completed: self.any_field_completed,
            files: self.files@,
        }
    }
}

impl Session {
    /// Which event answers the currently outstanding action.
    pub open spec fn accepts(self, event: Event) -> bool {
        match self@.state {
            StateModel::AwaitingField => event matches Event::FieldAvailable { .. } || event
                is BodyExhausted || event is BodyFailed,
            StateModel::Opening { .. } => event matches Event::OpenResult(_),
            StateModel::AwaitingChunk => event matches Event::ChunkAvailable(_) || event
                is FieldExhausted || event is ChunkFailed,
            StateModel::Writing => event matches Event::WriteResult(_),
            StateModel::Closing => event is Closed,
            StateModel::Done => false,
        }
    }

    /// Runtime form of [`Session::accepts`], for unverified drivers that
    /// must check the protocol before calling [`Session::step`].
    pub fn accepts_event(&self, event: &Event) -> (r: bool)
        ensures
            r == self.accepts(*event),
    {
        match (&self.state, event) {
            (State::AwaitingField, Event::FieldAvailable { .. }) => true,
            (State::AwaitingField, Event::BodyExhausted) => true,
            (State::AwaitingField, Event::BodyFailed) => true,
            (State::Opening { .. }, Event::OpenResult(_)) => true,
            (State::AwaitingChunk, Event::ChunkAvailable(_)) => true,
            (State::AwaitingChunk, Event::FieldExhausted) => true,
            (State::AwaitingChunk, Event::ChunkFailed) => true,
            (State::Writing, Event::WriteResult(_)) => true,
            (State::Closing, Event::Closed) => true,
            _ => false,
        }
    }

    /// Whether the session has issued its response and the request is over.
    pub fn is_done(&self) -> (r: bool)
        ensures
            r == (self@.state is Done),
    {
        match self.state {
            State::Done => true,
            _ => false,
        }
    }

    /// Begin one upload request against the given upload root directory.
    ///
    /// An unauthenticated caller is answered with an authorization error at
    /// once: the session is already finished, no file was opened, and no
    /// action that reads the body is ever issued (a finished session
    /// accepts no further event). An authenticated caller's body is read
    /// field by field.
    pub fn new(authenticated: bool, root: String) -> (r: (Session, Action))
        ensures
            r.0@.wf(),
            r.0@.root == root@,
            r.0@.files.len() == 0,
            !r.0@.any_field_started && !r.0@.any_field_completed,
            !authenticated ==> r.0@.state is Done && r.1 == Action::Respond(Status::Unauthorized),
            authenticated ==> r.0@.state is AwaitingField && r.1 == Action::PollField,
    {
        if authenticated {
            let s = Session {
                state: State::AwaitingField,
                root,
                any_field_started: false,
                any_field_completed: false,
                files: Ghost(Seq::empty()),
            };
            (s, Action::PollField)
        } else {
            let s = Session {
                state: State::Done,
                root,
                any_field_started: false,
                any_field_completed: false,
                files: Ghost(Seq::empty()),
            };
            (s, Action::Respond(Status::Unauthorized))
        }
    }

    /// Advance the session by one observation and obtain the next action.
    ///
    /// Each transition is pinned below. In particular: a field without a
    /// content-disposition header ends the whole request with a client
    /// error before anything is written for it; a field's declared filename
    /// is resolved exactly as [`resolve_filename`] does and opened under
    /// the root; chunks are appended in exactly the order they arrive, and
    /// the next chunk is polled only after the previous write finished; a
    /// field whose open, write or transport fails is abandoned (its partial
    /// file stays on disk) and the request goes on with the next field; the
    /// final response is [`final_status`] of the bookkeeping flags.
    pub fn step(&mut self, event: Event) -> (action: Action)
        requires
            old(self)@.wf(),
            old(self).accepts(event),
        ensures
            final(self)@.wf(),
            final(self)@.root == old(self)@.root,
            event matches Event::FieldAvailable { has_disposition: false, .. } ==> (final(self)@.state is Done && action == Action::Respond(Status::BadRequest) && final(self)@.files
                == old(self)@.files && final(self)@.any_field_started == old(self)@.any_field_started && final(self)@.any_field_completed == old(self)@.any_field_completed),
            event matches Event::FieldAvailable { has_disposition: true, filename } ==> (final(self)@.state matches StateModel::Opening { name } && safe_component(name) && (
            action matches Action::Open(p) && p@ == joined_path(old(self)@.root, name)) && (
            filename is None ==> uuid_name(name)) && (filename matches Some(f) ==> ((sanitized_of(
                f@,
            ).len() > 0 ==> name == sanitized_of(f@)) && (sanitized_of(f@).len() == 0
                ==> uuid_name(name)))) && final(self)@.files == old(self)@.files && final(self)@.any_field_started && final(self)@.any_field_completed == old(self)@.any_field_completed),
            event is BodyExhausted ==> (final(self)@.state is Done && action == Action::Respond(
                final_status(old(self)@.any_field_started, old(self)@.any_field_completed),
            ) && final(self)@.files == old(self)@.files),
            event is BodyFailed ==> (final(self)@.state is Done && action == Action::Respond(
                Status::BadRequest,
            ) && final(self)@.files == old(self)@.files),
            event matches Event::OpenResult(ok) ==> (old(self)@.state matches StateModel::Opening { name } && (ok ==> final(self)@.state
                is AwaitingChunk && action is PollChunk && final(self)@.files == old(self)@.files.push(
                FileRecord { name, chunks: Seq::empty(), bytes: Seq::empty(), complete: false },
            )) && (!ok ==> final(self)@.state is AwaitingField && action is PollField && final(self)@.files == old(self)@.files) && final(self)@.any_field_started == old(self)@.any_field_started && final(self)@.any_field_completed == old(self)@.any_field_completed),
            event matches Event::ChunkAvailable(c) ==> (final(self)@.state is Writing && (
            action matches Action::Write(d) && d@ == c@) && final(self)@.files.len() == old(self)@.files.len() && final(self)@.files.last().name == old(self)@.files.last().name
                && final(self)@.files.last().chunks == old(self)@.files.last().chunks.push(c@)
                && final(self)@.files.last().bytes == old(self)@.files.last().bytes + c@ && final(self)@.files.last().complete == old(self)@.files.last().complete && (forall|i: int|
                0 <= i < final(self)@.files.len() - 1 ==> #[trigger] final(self)@.files[i] == old(self)@.files[i]) && final(self)@.any_field_started == old(self)@.any_field_started
                && final(self)@.any_field_completed == old(self)@.any_field_completed),
            event is FieldExhausted ==> (final(self)@.state is Closing && action is Close && final(self)@.files.len() == old(self)@.files.len() && final(self)@.files.last().name == old(self)@.files.last().name && final(self)@.files.last().chunks == old(self)@.files.last().chunks && final(self)@.files.last().bytes == old(self)@.files.last().bytes && final(self)@.files.last().complete && (forall|i: int|
                0 <= i < final(self)@.files.len() - 1 ==> #[trigger] final(self)@.files[i] == old(self)@.files[i]) && final(self)@.any_field_started == old(self)@.any_field_started
                && final(self)@.any_field_completed),
            event is ChunkFailed ==> (final(self)@.state is Closing && action is Close && final(self)@.files == old(self)@.files && final(self)@.any_field_started == old(self)@.any_field_started && final(self)@.any_field_completed == old(self)@.any_field_completed),
            event matches Event::WriteResult(ok) ==> ((ok ==> final(self)@.state is AwaitingChunk
                && action is PollChunk) && (!ok ==> final(self)@.state is Closing && action
                is Close) && final(self)@.files == old(self)@.files && final(self)@.any_field_started == old(self)@.any_field_started && final(self)@.any_field_completed == old(self)@.any_field_completed),
            event is Closed ==> (final(self)@.state is AwaitingField && action is PollField
                && final(self)@.files == old(self)@.files && final(self)@.any_field_started == old(self)@.any_field_started && final(self)@.any_field_completed == old(self)@.any_field_completed),
    {
        let st = self.state;
        // Bring the invariant of the entry state into scope once for all arms.
        proof {
            assert(old(self)@.wf());
        }
        match st {
            State::AwaitingField => match event {
                Event::FieldAvailable { has_disposition, filename } => {
                    if !has_disposition {
                        self.state = State::Done;
                        proof {
                            lemma_wf_unchanged(old(self)@, self@);
                        }
                        Action::Respond(Status::BadRequest)
                    } else {
                        let name = match &filename {
                            None => resolve_filename(None),
                            Some(f) => resolve_filename(Some(f.as_str())),
                        };
                        let path = destination_path(self.root.as_str(), name.as_str());
                        self.any_field_started = true;
                        self.state = State::Opening { name: Ghost(name@) };
                        proof {
                            lemma_wf_unchanged(old(self)@, self@);
                        }
                        Action::Open(path)
                    }
                },
                Event::BodyExhausted => {
                    self.state = State::Done;
                    proof {
                        lemma_wf_unchanged(old(self)@, self@);
                    }
                    if !self.any_field_started || self.any_field_completed {
                        Action::Respond(Status::Success)
                    } else {
                        Action::Respond(Status::StorageFailure)
                    }
                },
                Event::BodyFailed => {
                    self.state = State::Done;
                    proof {
                        lemma_wf_unchanged(old(self)@, self@);
                    }
                    Action::Respond(Status::BadRequest)
                },
                _ => unreached(),
            },
            State::Opening { name } => match event {
                Event::OpenResult(ok) => {
                    if ok {
                        let ghost record = FileRecord {
                            name: name@,
                            chunks: Seq::empty(),
                            bytes: Seq::empty(),
                            complete: false,
                        };
                        self.files = Ghost(self.files@.push(record));
                        self.state = State::AwaitingChunk;
                        proof {
                            lemma_wf_open(old(self)@, self@, name@);
                        }
                        Action::PollChunk
                    } else {
                        self.state = State::AwaitingField;
                        proof {
                            lemma_wf_unchanged(old(self)@, self@);
                        }
                        Action::PollField
                    }
                },
                _ => unreached(),
            },
            State::AwaitingChunk => match event {
                Event::ChunkAvailable(c) => {
                    let ghost last: int = self.files@.len() - 1;
                    let ghost r = self.files@.last();
                    let ghost r2 = FileRecord {
                        name: r.name,
                        chunks: r.chunks.push(c@),
                        bytes: r.bytes + c@,
                        complete: r.complete,
                    };
                    self.files = Ghost(self.files@.update(last, r2));
                    self.state = State::Writing;
                    proof {
                        lemma_wf_append_chunk(old(self)@, self@, c@);
                    }
                    Action::Write(c)
                },
                Event::FieldExhausted => {
                    let ghost last: int = self.files@.len() - 1;
                    let ghost r = self.files@.last();
                    let ghost r2 = FileRecord {
                        name: r.name,
                        chunks: r.chunks,
                        bytes: r.bytes,
                        complete: true,
                    };
                    self.files = Ghost(self.files@.update(last, r2));
                    self.any_field_completed = true;
                    self.state = State::Closing;
                    proof {
                        lemma_wf_complete_last(old(self)@, self@);
                    }
                    Action::Close
                },
                Event::ChunkFailed => {
                    self.state = State::Closing;
                    proof {
                        lemma_wf_unchanged(old(self)@, self@);
                    }
                    Action::Close
                },
                _ => unreached(),
            },
            State::Writing => match event {
                Event::WriteResult(ok) => {
                    if ok {
                        self.state = State::AwaitingChunk;
                        proof {
                            lemma_wf_unchanged(old(self)@, self@);
                        }
                        Action::PollChunk
                    } else {
                        self.state = State::Closing;
                        proof {
                            lemma_wf_unchanged(old(self)@, self@);
                        }
                        Action::Close
                    }
                },
                _ => unreached(),
            },
            State::Closing => match event {
                Event::Closed => {
                    self.state = State::AwaitingField;
                    proof {
                        lemma_wf_unchanged(old(self)@, self@);
                    }
                    Action::PollField
                },
                _ => unreached(),
            },
            State::Done => unreached(),
        }
    }
}

/// Chunks are never reordered, dropped or duplicated within one field:
/// every destination a session has opened holds exactly the concatenation
/// of the chunks accepted for it, in arrival order.
pub proof fn lemma_file_bytes_are_chunk_concatenation(s: Session, i: int)
    requires
        s@.wf(),
        0 <= i < s@.files.len(),
    ensures
        s@.files[i].bytes == concat_chunks(s@.files[i].chunks),
{
}

/// Every destination a session opens lies lexically inside its upload
/// root: the resolved component is safe, and joining it under the root
/// keeps the root as an unchanged prefix with a single separator.
pub proof fn lemma_destinations_inside_root(s: Session, i: int)
    requires
        s@.wf(),
        0 <= i < s@.files.len(),
    ensures
        safe_component(s@.files[i].name),
        lexically_inside(s@.root, joined_path(s@.root, s@.files[i].name)),
{
    lemma_joined_path_inside_root(s@.root, s@.files[i].name);
}

/// The text of the upload form page served to an authenticated caller.
pub open spec fn upload_form_text() -> Seq<char> {
    "<html><head><title>Upload File</title></head><body><form target=\"/upload\" method=\"post\" enctype=\"multipart/form-data\"><input type=\"file\" multiple name=\"file\"/><button type=\"submit\">Submit</button></form></body></html>"@
}

/// The upload form route: an authenticated caller receives the fixed HTML
/// upload form, an unauthenticated caller is turned away with an
/// authorization error and receives nothing else.
pub fn upload(authenticated: bool) -> (r: Result<String, Status>)
    ensures
        authenticated <==> r is Ok,
        !authenticated ==> r == Result::<String, Status>::Err(Status::Unauthorized),
        r matches Ok(h) ==> h@ == upload_form_text(),
{
    if authenticated {
        Ok(
            String::from_str(
                "<html><head><title>Upload File</title></head><body><form target=\"/upload\" method=\"post\" enctype=\"multipart/form-data\"><input type=\"file\" multiple name=\"file\"/><button type=\"submit\">Submit</button></form></body></html>",
            ),
        )
    } else {
        Err(Status::Unauthorized)
    }
}

} // verus!
