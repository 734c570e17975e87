//! The direct writer: for each chunk in turn, open its file, stage the chunk
//! in the aligned buffer, write the padded buffer, cut the file back to the
//! chunk's true length, close.
//!
//! The writer performs none of these file operations. It says which one is
//! due ([`Action`]), the caller performs it and reports the outcome
//! ([`Event`]), and the writer decides what follows. Chunks never overlap: the
//! next file is opened only after the last one was closed, and any failure
//! ends the run.

use crate::buffer::{staged_image, AlignedBuffer};
use crate::descriptor::{chunk_grid_index, ArrayDescriptor};
use crate::key::{chunk_data_key, fspath_text, key_to_fspath, resolve};
use crate::page::{lemma_padded_len_within_capacity, padded_len, valid_page_size};
use vstd::prelude::*;

verus! {

/// Why a run of the writer ended early.
#[derive(Clone, Copy, Debug, PartialEq, Eq, Structural)]
pub enum WriteError {
    /// The array path or the chunk key was refused, so the chunk has no file.
    KeyRefused,
    /// The chunk's file or its parent directories could not be made or
    /// opened for direct I/O.
    IoOpen,
    /// The write failed or wrote less than the whole buffer.
    IoWrite,
    /// The file's length could not be set.
    Truncate,
    /// The caller reported something other than the outcome of the action
    /// that was due.
    UnexpectedEvent,
}

/// Why no writer could be set up.
#[derive(Clone, Copy, Debug, PartialEq, Eq, Structural)]
pub enum SetupError {
    /// The source is not as long as the array that the descriptor describes.
    SourceLength,
    /// The buffer cannot take a chunk.
    BufferTooSmall,
}

/// Where the writer stands.
#[derive(Clone, Copy, Debug, PartialEq, Eq, Structural)]
pub enum Phase {
    /// Nothing has been asked for yet.
    Ready,
    /// The current chunk's file is to be opened.
    Opening,
    /// The staged buffer is to be written.
    Writing,
    /// The file is to be cut back to the chunk's length.
    Trimming,
    /// The file is to be closed.
    Closing,
    /// Every chunk has been written.
    Finished,
    /// The run has ended with this error.
    Failed(WriteError),
}

/// What the caller reports.
#[derive(Clone, Copy, Debug, PartialEq, Eq, Structural)]
pub enum Event {
    /// The run begins.
    Start,
    /// The file is open for direct writing, empty.
    Opened,
    /// The file could not be opened.
    OpenFailed,
    /// A write of `count` bytes went through.
    Written { count: usize },
    /// The write failed.
    WriteFailed,
    /// The file's length was set.
    Truncated,
    /// The file's length could not be set.
    TruncateFailed,
    /// The file was closed.
    Closed,
}

/// What the writer asks the caller to do next.
#[derive(Debug)]
pub enum Action {
    /// Make the missing parent directories of `path`, then create or empty
    /// the file there and open it for direct writing.
    Open { path: String },
    /// Write the staged buffer, `len` bytes, in one write.
    Write { len: usize },
    /// Set the file's length to `length`.
    Truncate { length: u64 },
    /// Close the file.
    Close,
    /// Nothing: every chunk has been written.
    Done,
    /// Nothing: the run has failed.
    Abort(WriteError),
}

/// An [`Action`] as contracts see it.
pub enum ActionView {
    Open { path: Seq<char> },
    Write { len: nat },
    Truncate { length: nat },
    Close,
    Done,
    Abort(WriteError),
}

impl View for Action {
    type V = ActionView;

    open spec fn view(&self) -> ActionView {
        match self {
            Action::Open { path } => ActionView::Open { path: path@ },
            Action::Write { len } => ActionView::Write { len: *len as nat },
            Action::Truncate { length } => ActionView::Truncate { length: *length as nat },
            Action::Close => ActionView::Close,
            Action::Done => ActionView::Done,
            Action::Abort(error) => ActionView::Abort(*error),
        }
    }
}

/// What a run is set up with and never changes.
pub struct WriterConfig {
    pub descriptor: ArrayDescriptor,
    pub store_root: Seq<char>,
    pub array_path: Seq<char>,
    pub page_size: nat,
    pub data: Seq<u8>,
}

/// What changes from step to step.
pub struct WriterState {
    pub phase: Phase,
    /// The number of the chunk in progress; the number of chunks once all
    /// are written.
    pub chunk: nat,
    /// What the buffer holds.
    pub staged: Seq<u8>,
}

impl WriterConfig {
    /// The configuration is one a writer can run on.
    pub open spec fn wf(self) -> bool {
        &&& self.descriptor.wf()
        &&& valid_page_size(self.page_size)
        &&& self.data.len() == self.descriptor.spec_total_bytes()
    }

    /// The path of the file of chunk `chunk`, or `None` where it has no key.
    pub open spec fn chunk_path(self, chunk: nat) -> Option<Seq<char>> {
        match chunk_data_key(self.array_path, chunk_grid_index(chunk as u64)) {
            Some(key) => Some(fspath_text(self.store_root, key)),
            None => None,
        }
    }

    /// The bytes of chunk `chunk`.
    pub open spec fn chunk_bytes(self, chunk: nat) -> Seq<u8> {
        self.descriptor.chunk_of(self.data, chunk)
    }

    /// The run has failed with `error`.
    pub open spec fn fail(self, state: WriterState, error: WriteError) -> (WriterState, ActionView) {
        (
            WriterState { phase: Phase::Failed(error), chunk: state.chunk, staged: state.staged },
            ActionView::Abort(error),
        )
    }

    /// Turning to chunk `chunk`: done where there is none, else its file is
    /// to be opened, unless it has no key.
    pub open spec fn turn_to(self, state: WriterState, chunk: nat) -> (WriterState, ActionView) {
        if chunk >= self.descriptor.spec_chunk_count() {
            (
                WriterState { phase: Phase::Finished, chunk: chunk, staged: state.staged },
                ActionView::Done,
            )
        } else {
            match self.chunk_path(chunk) {
                Some(path) => (
                    WriterState { phase: Phase::Opening, chunk: chunk, staged: state.staged },
                    ActionView::Open { path },
                ),
                None => self.fail(
                    WriterState { phase: state.phase, chunk: chunk, staged: state.staged },
                    WriteError::KeyRefused,
                ),
            }
        }
    }

    /// The writer's rule: the state and the action that follow `event` in
    /// `state`.
    pub open spec fn transition(self, state: WriterState, event: Event) -> (
        WriterState,
        ActionView,
    ) {
        match (state.phase, event) {
            (Phase::Finished, _) => (state, ActionView::Done),
            (Phase::Failed(error), _) => (state, ActionView::Abort(error)),
            (Phase::Ready, Event::Start) => self.turn_to(state, 0),
            (Phase::Opening, Event::Opened) => {
                let staged = staged_image(self.chunk_bytes(state.chunk), self.page_size);
                (
                    WriterState { phase: Phase::Writing, chunk: state.chunk, staged },
                    ActionView::Write { len: staged.len() },
                )
            },
            (Phase::Opening, Event::OpenFailed) => self.fail(state, WriteError::IoOpen),
            (Phase::Writing, Event::Written { count }) => {
                if count == state.staged.len() {
                    (
                        WriterState {
                            phase: Phase::Trimming,
                            chunk: state.chunk,
                            staged: state.staged,
                        },
                        ActionView::Truncate { length: self.descriptor.spec_logical_length() },
                    )
                } else {
                    self.fail(state, WriteError::IoWrite)
                }
            },
            (Phase::Writing, Event::WriteFailed) => self.fail(state, WriteError::IoWrite),
            (Phase::Trimming, Event::Truncated) => (
                WriterState { phase: Phase::Closing, chunk: state.chunk, staged: state.staged },
                ActionView::Close,
            ),
            (Phase::Trimming, Event::TruncateFailed) => self.fail(state, WriteError::Truncate),
            (Phase::Closing, Event::Closed) => self.turn_to(state, state.chunk + 1),
            _ => self.fail(state, WriteError::UnexpectedEvent),
        }
    }
}

/// The direct writer of one array into one store.
pub struct DirectWriter<'a> {
    descriptor: ArrayDescriptor,
    store_root: String,
    array_path: String,
    data: &'a [u8],
    buffer: AlignedBuffer,
    phase: Phase,
    chunk: u64,
}

impl<'a> DirectWriter<'a> {
    /// What the writer was set up with.
    pub closed spec fn config(&self) -> WriterConfig {
        WriterConfig {
            descriptor: self.descriptor,
            store_root: self.store_root@,
            array_path: self.array_path@,
            page_size: self.buffer.spec_page_size(),
            data: self.data@,
        }
    }

    /// Where the writer stands.
    pub closed spec fn state(&self) -> WriterState {
        WriterState { phase: self.phase, chunk: self.chunk as nat, staged: self.buffer@ }
    }

    /// The writer's invariant: a valid configuration, a buffer that takes a
    /// chunk, and a chunk number that fits the phase.
    pub closed spec fn wf(&self) -> bool {
        &&& self.config().wf()
        &&& self.buffer.wf()
        &&& self.descriptor.spec_logical_length() <= self.buffer.spec_capacity()
        &&& self.chunk <= self.descriptor.spec_chunk_count()
        &&& self.phase == Phase::Ready ==> self.chunk == 0
        &&& (self.phase == Phase::Opening || self.phase == Phase::Writing || self.phase
            == Phase::Trimming || self.phase == Phase::Closing) ==> self.chunk
            < self.descriptor.spec_chunk_count()
        &&& self.phase == Phase::Finished ==> self.chunk == self.descriptor.spec_chunk_count()
    }

    /// The staging buffer is where it was allocated: see
    /// [`AlignedBuffer::in_place`].
    pub closed spec fn in_place(&self) -> bool {
        self.buffer.in_place()
    }

    /// What [`DirectWriter::wf`] says, for callers that cannot see inside.
    pub proof fn lemma_wf(&self)
        requires
            self.wf(),
        ensures
            self.config().wf(),
            padded_len(self.config().descriptor.spec_logical_length(), self.config().page_size)
                <= usize::MAX,
            self.state().chunk <= self.config().descriptor.spec_chunk_count(),
            self.state().phase == Phase::Ready ==> self.state().chunk == 0,
            (self.state().phase == Phase::Opening || self.state().phase == Phase::Writing
                || self.state().phase == Phase::Trimming || self.state().phase == Phase::Closing)
                ==> self.state().chunk < self.config().descriptor.spec_chunk_count(),
            self.state().phase == Phase::Finished ==> self.state().chunk
                == self.config().descriptor.spec_chunk_count(),
    {
        self.buffer.lemma_wf();
        lemma_padded_len_within_capacity(
            self.descriptor.spec_logical_length(),
            self.buffer.spec_page_size(),
            self.buffer.spec_capacity(),
        );
    }

    /// Sets a writer up: `data` are the array's bytes, `buffer` the staging
    /// buffer, which the writer keeps for the whole run.
    pub fn new(
        descriptor: ArrayDescriptor,
        store_root: &str,
        array_path: &str,
        data: &'a [u8],
        buffer: AlignedBuffer,
    ) -> (made: Result<DirectWriter<'a>, SetupError>)
        requires
            descriptor.wf(),
            buffer.wf(),
        ensures
            match made {
                Ok(writer) => {
                    &&& data@.len() == descriptor.spec_total_bytes()
                    &&& descriptor.spec_logical_length() <= buffer.spec_capacity()
                    &&& writer.wf()
                    &&& writer.config() == (WriterConfig {
                        descriptor,
                        store_root: store_root@,
                        array_path: array_path@,
                        page_size: buffer.spec_page_size(),
                        data: data@,
                    })
                    &&& writer.state() == (WriterState {
                        phase: Phase::Ready,
                        chunk: 0,
                        staged: buffer@,
                    })
                    &&& writer.in_place() == buffer.in_place()
                },
                Err(SetupError::SourceLength) => data@.len() != descriptor.spec_total_bytes(),
                Err(SetupError::BufferTooSmall) => {
                    &&& data@.len() == descriptor.spec_total_bytes()
                    &&& descriptor.spec_logical_length() > buffer.spec_capacity()
                },
            },
    {
        proof {
            buffer.lemma_wf();
        }
        if data.len() != descriptor.total_bytes() {
            return Err(SetupError::SourceLength);
        }
        if descriptor.logical_length() > buffer.capacity() {
            return Err(SetupError::BufferTooSmall);
        }
        Ok(
            DirectWriter {
                descriptor,
                store_root: String::from_str(store_root),
                array_path: String::from_str(array_path),
                data,
                buffer,
                phase: Phase::Ready,
                chunk: 0,
            },
        )
    }

    /// Where the writer stands.
    pub fn phase(&self) -> (phase: Phase)
        ensures
            phase == self.state().phase,
    {
        self.phase
    }

    /// The number of the chunk in progress.
    pub fn chunk(&self) -> (chunk: u64)
        ensures
            chunk == self.state().chunk,
    {
        self.chunk
    }

    /// The staged bytes, to be handed to the write.
    pub fn staged(&self) -> (bytes: &[u8])
        ensures
            bytes@ == self.state().staged,
    {
        self.buffer.as_slice()
    }

    /// The staging buffer.
    pub fn buffer(&self) -> (buffer: &AlignedBuffer)
        ensures
            buffer@ == self.state().staged,
            buffer.spec_page_size() == self.config().page_size,
            buffer.in_place() == self.in_place(),
            self.wf() ==> buffer.wf(),
    {
        &self.buffer
    }

    /// The array's descriptor.
    pub fn descriptor(&self) -> (descriptor: &ArrayDescriptor)
        ensures
            *descriptor == self.config().descriptor,
    {
        &self.descriptor
    }

    fn fail(&mut self, error: WriteError) -> (action: Action)
        requires
            old(self).wf(),
        ensures
            final(self).wf(),
            final(self).config() == old(self).config(),
            old(self).in_place() ==> final(self).in_place(),
            (final(self).state(), action@) == old(self).config().fail(old(self).state(), error),
    {
        self.phase = Phase::Failed(error);
        Action::Abort(error)
    }

    fn turn_to(&mut self, chunk: u64) -> (action: Action)
        requires
            old(self).wf(),
            chunk <= old(self).config().descriptor.spec_chunk_count(),
        ensures
            final(self).wf(),
            final(self).config() == old(self).config(),
            old(self).in_place() ==> final(self).in_place(),
            (final(self).state(), action@) == old(self).config().turn_to(
                old(self).state(),
                chunk as nat,
            ),
    {
        self.chunk = chunk;
        if chunk >= self.descriptor.chunk_count() {
            self.phase = Phase::Finished;
            return Action::Done;
        }
        let indices = self.descriptor.chunk_indices(chunk);
        match resolve(self.array_path.as_str(), indices.as_slice()) {
            Some(key) => {
                self.phase = Phase::Opening;
                Action::Open { path: key_to_fspath(self.store_root.as_str(), key.as_str()) }
            },
            None => {
                self.phase = Phase::Failed(WriteError::KeyRefused);
                Action::Abort(WriteError::KeyRefused)
            },
        }
    }

    /// Takes the outcome of the action that was due and gives the next one,
    /// as [`WriterConfig::transition`] says.
    pub fn step(&mut self, event: Event) -> (action: Action)
        requires
            old(self).wf(),
        ensures
            final(self).wf(),
            final(self).config() == old(self).config(),
            old(self).in_place() ==> final(self).in_place(),
            (final(self).state(), action@) == old(self).config().transition(
                old(self).state(),
                event,
            ),
    {
        match (self.phase, event) {
            (Phase::Finished, _) => Action::Done,
            (Phase::Failed(error), _) => Action::Abort(error),
            (Phase::Ready, Event::Start) => self.turn_to(0),
            (Phase::Opening, Event::Opened) => {
                let chunk = self.descriptor.chunk_bytes(self.data, self.chunk);
                let staged = self.buffer.stage(chunk);
                assert(staged is Ok);
                proof {
                    self.buffer.lemma_wf();
                }
                self.phase = Phase::Writing;
                Action::Write { len: self.buffer.len() }
            },
            (Phase::Opening, Event::OpenFailed) => self.fail(WriteError::IoOpen),
            (Phase::Writing, Event::Written { count }) => {
                if count == self.buffer.len() {
                    proof {
                        self.descriptor.lemma_wf();
                    }
                    self.phase = Phase::Trimming;
                    Action::Truncate { length: self.descriptor.logical_length() as u64 }
                } else {
                    self.fail(WriteError::IoWrite)
                }
            },
            (Phase::Writing, Event::WriteFailed) => self.fail(WriteError::IoWrite),
            (Phase::Trimming, Event::Truncated) => {
                self.phase = Phase::Closing;
                Action::Close
            },
            (Phase::Trimming, Event::TruncateFailed) => self.fail(WriteError::Truncate),
            (Phase::Closing, Event::Closed) => {
                proof {
                    self.descriptor.lemma_wf();
                }
                let next: u64 = self.chunk + 1;
                self.turn_to(next)
            },
            _ => self.fail(WriteError::UnexpectedEvent),
        }
    }
}

} // verus!
