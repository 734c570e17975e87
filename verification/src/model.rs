//! What the writer's actions leave in a chunk's file, told over a model of
//! the file: opening empties it, a write appends the staged bytes, setting
//! the length cuts it off or fills it up with zero bytes. A store is modelled
//! as its files by path.
//!
//! The model has no part in the executable code. It serves to state that
//! the padding which direct I/O forces never reaches the finished file, and
//! that a run in which every action goes through stores every chunk.

use crate::buffer::{staged_image, zeros};
use crate::page::{lemma_padding_below_page, padded_len, padding_len};
use crate::writer::{ActionView, Event, Phase, WriteError, WriterConfig, WriterState};
use vstd::prelude::*;

verus! {

/// The file after its length was set to `length`.
pub open spec fn file_with_len(file: Seq<u8>, length: nat) -> Seq<u8> {
    if length <= file.len() {
        file.take(length as int)
    } else {
        file + zeros((length - file.len()) as nat)
    }
}

/// The file after `action` was performed with `staged` in the buffer.
pub open spec fn file_after(file: Seq<u8>, action: ActionView, staged: Seq<u8>) -> Seq<u8> {
    match action {
        ActionView::Open { path } => Seq::empty(),
        ActionView::Write { len } => file + staged.take(len as int),
        ActionView::Truncate { length } => file_with_len(file, length),
        ActionView::Close => file,
        ActionView::Done => file,
        ActionView::Abort(error) => file,
    }
}

/// The file that the direct path leaves for a chunk: emptied, the staged
/// image written, the length set to the chunk's.
pub open spec fn direct_file(chunk: Seq<u8>, page: nat) -> Seq<u8> {
    file_with_len(Seq::<u8>::empty() + staged_image(chunk, page), chunk.len())
}

/// The file that a plain write of the chunk's bytes leaves: emptied, the
/// chunk written.
pub open spec fn plain_file(chunk: Seq<u8>) -> Seq<u8> {
    Seq::<u8>::empty() + chunk
}

/// The staged image is a whole number of pages, less than one page longer
/// than the chunk, and begins with the chunk's bytes. A chunk that already is
/// a whole number of pages is staged as it is, with no page added.
pub proof fn lemma_staged_image(chunk: Seq<u8>, page: nat)
    requires
        page > 0,
    ensures
        staged_image(chunk, page).len() == padded_len(chunk.len(), page),
        staged_image(chunk, page).len() % page == 0,
        staged_image(chunk, page).len() < chunk.len() + page,
        staged_image(chunk, page).take(chunk.len() as int) == chunk,
        chunk.len() % page == 0 ==> staged_image(chunk, page) == chunk,
{
    lemma_padding_below_page(chunk.len(), page);
    assert(staged_image(chunk, page).take(chunk.len() as int) =~= chunk);
    if chunk.len() % page == 0 {
        assert(staged_image(chunk, page) =~= chunk);
    }
}

/// Write, then trim: the file that the direct path leaves holds the chunk's
/// bytes and nothing else, so its length is the chunk's length whatever the
/// page size.
pub proof fn lemma_direct_file_is_chunk(chunk: Seq<u8>, page: nat)
    requires
        page > 0,
    ensures
        direct_file(chunk, page) == chunk,
        direct_file(chunk, page).len() == chunk.len(),
{
    lemma_staged_image(chunk, page);
    assert(Seq::<u8>::empty() + staged_image(chunk, page) =~= staged_image(chunk, page));
}

/// The direct path under any two page sizes, and a plain write of the
/// chunk's bytes, all leave the same file.
pub proof fn lemma_writers_agree(chunk: Seq<u8>, page: nat, other_page: nat)
    requires
        page > 0,
        other_page > 0,
    ensures
        direct_file(chunk, page) == plain_file(chunk),
        direct_file(chunk, page) == direct_file(chunk, other_page),
{
    lemma_direct_file_is_chunk(chunk, page);
    lemma_direct_file_is_chunk(chunk, other_page);
    assert(plain_file(chunk) =~= chunk);
}

/// One chunk's turn, when every operation succeeds. From the state in which
/// the chunk's file is to be opened, the events `Opened`, `Written` with the
/// staged length, and `Truncated` bring the actions `Write` of the padded
/// length, `Truncate` to the logical length, and `Close`, in this order.
/// Performed on the chunk's file, whatever it held before, they leave the
/// chunk's bytes in it: a whole number of pages is written, and the file ends
/// up exactly as long as the chunk.
pub proof fn lemma_chunk_turn(
    config: WriterConfig,
    chunk: nat,
    path: Seq<char>,
    staged_before: Seq<u8>,
    file_before: Seq<u8>,
)
    requires
        config.wf(),
        chunk < config.descriptor.spec_chunk_count(),
        padded_len(config.descriptor.spec_logical_length(), config.page_size) <= usize::MAX,
    ensures
        ({
            let length = config.descriptor.spec_logical_length();
            let opening = WriterState { phase: Phase::Opening, chunk, staged: staged_before };
            let opened = file_after(file_before, ActionView::Open { path }, staged_before);
            let (writing, write) = config.transition(opening, Event::Opened);
            let written = file_after(opened, write, writing.staged);
            let (trimming, trim) = config.transition(
                writing,
                Event::Written { count: writing.staged.len() as usize },
            );
            let trimmed = file_after(written, trim, trimming.staged);
            let (closing, close) = config.transition(trimming, Event::Truncated);
            let closed = file_after(trimmed, close, closing.staged);
            &&& write == ActionView::Write { len: padded_len(length, config.page_size) }
            &&& written.len() == padded_len(length, config.page_size)
            &&& written.len() % config.page_size == 0
            &&& length % config.page_size == 0 ==> written.len() == length
            &&& trim == ActionView::Truncate { length }
            &&& close == ActionView::Close
            &&& closing.phase == Phase::Closing
            &&& closing.chunk == chunk
            &&& closed == config.chunk_bytes(chunk)
            &&& closed.len() == length
        }),
{
    let length = config.descriptor.spec_logical_length();
    let bytes = config.chunk_bytes(chunk);
    crate::page::lemma_page_size_positive(config.page_size);
    config.descriptor.lemma_wf();
    config.descriptor.lemma_chunks_tile_array(config.data, chunk, 0);
    lemma_staged_image(bytes, config.page_size);
    lemma_direct_file_is_chunk(bytes, config.page_size);
    let image = staged_image(bytes, config.page_size);
    assert(image.take(image.len() as int) =~= image);
}

/// Chunks are taken in increasing order, one at a time: once chunk `chunk`
/// was closed, the writer turns to chunk `chunk + 1` and asks for its file to
/// be opened, or is done where `chunk` was the last one.
pub proof fn lemma_chunks_in_order(config: WriterConfig, chunk: nat, staged: Seq<u8>)
    requires
        config.wf(),
        chunk < config.descriptor.spec_chunk_count(),
    ensures
        ({
            let closing = WriterState { phase: Phase::Closing, chunk, staged };
            let (next, action) = config.transition(closing, Event::Closed);
            &&& next.chunk == chunk + 1
            &&& next.staged == staged
            &&& if chunk + 1 == config.descriptor.spec_chunk_count() {
                next.phase == Phase::Finished && action == ActionView::Done
            } else {
                match config.chunk_path(chunk + 1) {
                    Some(path) => next.phase == Phase::Opening && action == (ActionView::Open {
                        path,
                    }),
                    None => next.phase == Phase::Failed(WriteError::KeyRefused) && action
                        == ActionView::Abort(WriteError::KeyRefused),
                }
            }
        }),
{
}

/// Every failure ends the run: a failed open, a failed or short write and a
/// failed truncation each bring `Abort`, and from then on every event brings
/// the same `Abort` and changes nothing. A finished run stays finished.
pub proof fn lemma_failure_is_final(config: WriterConfig, state: WriterState, event: Event)
    ensures
        state.phase == Phase::Opening && event == Event::OpenFailed ==> config.transition(
            state,
            event,
        ).1 == ActionView::Abort(WriteError::IoOpen),
        state.phase == Phase::Writing && (event == Event::WriteFailed || (event matches Event::Written {
            count,
        } && count != state.staged.len())) ==> config.transition(state, event).1
            == ActionView::Abort(WriteError::IoWrite),
        state.phase == Phase::Trimming && event == Event::TruncateFailed ==> config.transition(
            state,
            event,
        ).1 == ActionView::Abort(WriteError::Truncate),
        config.transition(state, event).1 matches ActionView::Abort(error) ==> config.transition(
            state,
            event,
        ).0.phase == Phase::Failed(error),
        state.phase matches Phase::Failed(error) ==> config.transition(state, event) == (
            state,
            ActionView::Abort(error),
        ),
        state.phase == Phase::Finished ==> config.transition(state, event) == (
            state,
            ActionView::Done,
        ),
{
}

/// A store as far as the writer's actions touch it: what each file holds, by
/// path, and which file is open.
pub struct StoreModel {
    pub files: Map<Seq<char>, Seq<u8>>,
    pub open: Option<Seq<char>>,
}

/// The store after `action` was performed with `staged` in the buffer:
/// opening makes the file at the path empty and the open one, a write and a
/// truncation change the open file as [`file_after`] says, closing leaves no
/// file open.
pub open spec fn store_after(store: StoreModel, action: ActionView, staged: Seq<u8>) -> StoreModel {
    match action {
        ActionView::Open { path } => StoreModel {
            files: store.files.insert(path, Seq::empty()),
            open: Some(path),
        },
        ActionView::Write { len } => match store.open {
            Some(path) => StoreModel {
                files: store.files.insert(path, file_after(store.files[path], action, staged)),
                open: store.open,
            },
            None => store,
        },
        ActionView::Truncate { length } => match store.open {
            Some(path) => StoreModel {
                files: store.files.insert(path, file_after(store.files[path], action, staged)),
                open: store.open,
            },
            None => store,
        },
        ActionView::Close => StoreModel { files: store.files, open: None },
        ActionView::Done => store,
        ActionView::Abort(error) => store,
    }
}

/// What a caller reports when `action` went through in full.
pub open spec fn success_of(action: ActionView) -> Event {
    match action {
        ActionView::Open { path } => Event::Opened,
        ActionView::Write { len } => Event::Written { count: len as usize },
        ActionView::Truncate { length } => Event::Truncated,
        ActionView::Close => Event::Closed,
        ActionView::Done => Event::Closed,
        ActionView::Abort(error) => Event::Closed,
    }
}

/// `steps` steps of the writer with a caller for whom every action goes
/// through: the state, the store and the event that is reported next.
pub open spec fn run(
    config: WriterConfig,
    state: WriterState,
    store: StoreModel,
    event: Event,
    steps: nat,
) -> (WriterState, StoreModel, Event)
    decreases steps,
{
    if steps == 0 {
        (state, store, event)
    } else {
        let (next, action) = config.transition(state, event);
        run(
            config,
            next,
            store_after(store, action, next.staged),
            success_of(action),
            (steps - 1) as nat,
        )
    }
}

/// The files after the first `chunks` chunks were stored, each at its path
/// and in order.
pub open spec fn files_with_chunks(
    config: WriterConfig,
    files: Map<Seq<char>, Seq<u8>>,
    chunks: nat,
) -> Map<Seq<char>, Seq<u8>>
    decreases chunks,
{
    if chunks == 0 {
        files
    } else {
        let chunk = (chunks - 1) as nat;
        files_with_chunks(config, files, chunk).insert(
            config.chunk_path(chunk).unwrap(),
            config.chunk_bytes(chunk),
        )
    }
}

/// A run can be cut in two: first `first` steps, then `then` steps from
/// where those ended.
pub proof fn lemma_run_in_two(
    config: WriterConfig,
    state: WriterState,
    store: StoreModel,
    event: Event,
    first: nat,
    then: nat,
)
    ensures
        run(config, state, store, event, first + then) == ({
            let (mid_state, mid_store, mid_event) = run(config, state, store, event, first);
            run(config, mid_state, mid_store, mid_event, then)
        }),
    decreases first,
{
    if first > 0 {
        let (next, action) = config.transition(state, event);
        lemma_run_in_two(
            config,
            next,
            store_after(store, action, next.staged),
            success_of(action),
            (first - 1) as nat,
            then,
        );
        assert((first + then - 1) as nat == (first - 1) as nat + then);
    }
}

/// One chunk's turn in a run: four steps from the point where the writer
/// turns to chunk `chunk` (at the start for the first chunk, on `Closed` of
/// the chunk before for the others) store the chunk's bytes at the chunk's
/// path, touch no other file, and end with the file closed.
pub proof fn lemma_turn_stores_chunk(
    config: WriterConfig,
    chunk: nat,
    state: WriterState,
    files: Map<Seq<char>, Seq<u8>>,
    event: Event,
)
    requires
        config.wf(),
        padded_len(config.descriptor.spec_logical_length(), config.page_size) <= usize::MAX,
        chunk < config.descriptor.spec_chunk_count(),
        config.chunk_path(chunk) is Some,
        (state.phase == Phase::Ready && chunk == 0 && event == Event::Start) || (state.phase
            == Phase::Closing && state.chunk + 1 == chunk && event == Event::Closed),
    ensures
        ({
            let (closing, stored, next_event) = run(
                config,
                state,
                StoreModel { files, open: None },
                event,
                4,
            );
            &&& closing.phase == Phase::Closing
            &&& closing.chunk == chunk
            &&& next_event == Event::Closed
            &&& stored.open is None
            &&& stored.files == files.insert(
                config.chunk_path(chunk).unwrap(),
                config.chunk_bytes(chunk),
            )
        }),
{
    let path = config.chunk_path(chunk).unwrap();
    let bytes = config.chunk_bytes(chunk);
    let image = staged_image(bytes, config.page_size);
    crate::page::lemma_page_size_positive(config.page_size);
    config.descriptor.lemma_wf();
    config.descriptor.lemma_chunks_tile_array(config.data, chunk, 0);
    lemma_staged_image(bytes, config.page_size);
    lemma_direct_file_is_chunk(bytes, config.page_size);
    assert(image.take(image.len() as int) =~= image);

    let store = StoreModel { files, open: None };
    let (opening, open) = config.transition(state, event);
    assert(open == ActionView::Open { path });
    let opened = store_after(store, open, opening.staged);
    let (writing, write) = config.transition(opening, success_of(open));
    assert(write == ActionView::Write { len: image.len() });
    let written = store_after(opened, write, writing.staged);
    assert(written.files[path] == Seq::<u8>::empty() + image);
    let (trimming, trim) = config.transition(writing, success_of(write));
    assert(trim == ActionView::Truncate { length: bytes.len() });
    let trimmed = store_after(written, trim, trimming.staged);
    assert(trimmed.files[path] == bytes);
    let (closing, close) = config.transition(trimming, success_of(trim));
    assert(close == ActionView::Close);
    let closed = store_after(trimmed, close, closing.staged);
    assert(closed.files =~= files.insert(path, bytes));
    assert(run(config, state, store, event, 4) == (closing, closed, success_of(close))) by {
        reveal_with_fuel(run, 5);
    }
}

/// The run up to the point where `chunks` chunks were stored: all of them
/// lie at their paths, in the order of their numbers, and no file is open.
pub proof fn lemma_run_stores_chunks(
    config: WriterConfig,
    staged: Seq<u8>,
    files: Map<Seq<char>, Seq<u8>>,
    chunks: nat,
)
    requires
        config.wf(),
        padded_len(config.descriptor.spec_logical_length(), config.page_size) <= usize::MAX,
        chunks <= config.descriptor.spec_chunk_count(),
        forall|chunk: nat|
            chunk < config.descriptor.spec_chunk_count() ==> (#[trigger] config.chunk_path(chunk))
                is Some,
    ensures
        ({
            let ready = WriterState { phase: Phase::Ready, chunk: 0, staged };
            let (state, stored, event) = run(
                config,
                ready,
                StoreModel { files, open: None },
                Event::Start,
                4 * chunks,
            );
            &&& stored.open is None
            &&& stored.files == files_with_chunks(config, files, chunks)
            &&& if chunks == 0 {
                state == ready && event == Event::Start
            } else {
                state.phase == Phase::Closing && state.chunk + 1 == chunks && event
                    == Event::Closed
            }
        }),
    decreases chunks,
{
    let ready = WriterState { phase: Phase::Ready, chunk: 0, staged };
    let store = StoreModel { files, open: None };
    if chunks > 0 {
        let before = (chunks - 1) as nat;
        lemma_run_stores_chunks(config, staged, files, before);
        lemma_run_in_two(config, ready, store, Event::Start, 4 * before, 4);
        let (state, stored, event) = run(config, ready, store, Event::Start, 4 * before);
        assert(config.chunk_path(before) is Some);
        lemma_turn_stores_chunk(config, before, state, stored.files, event);
        assert(stored == StoreModel { files: stored.files, open: None });
        assert(4 * before + 4 == 4 * chunks);
    }
}

/// A whole run. Where every chunk has a path and every action goes through,
/// the writer is finished after four steps for each chunk and one more; by
/// then every chunk was stored at its path, in the order of the chunks'
/// numbers, and no file is left open.
pub proof fn lemma_run_to_the_end(
    config: WriterConfig,
    staged: Seq<u8>,
    files: Map<Seq<char>, Seq<u8>>,
)
    requires
        config.wf(),
        padded_len(config.descriptor.spec_logical_length(), config.page_size) <= usize::MAX,
        forall|chunk: nat|
            chunk < config.descriptor.spec_chunk_count() ==> (#[trigger] config.chunk_path(chunk))
                is Some,
    ensures
        ({
            let chunks = config.descriptor.spec_chunk_count();
            let ready = WriterState { phase: Phase::Ready, chunk: 0, staged };
            let (state, stored, event) = run(
                config,
                ready,
                StoreModel { files, open: None },
                Event::Start,
                4 * chunks + 1,
            );
            &&& state.phase == Phase::Finished
            &&& state.chunk == chunks
            &&& stored.open is None
            &&& stored.files == files_with_chunks(config, files, chunks)
        }),
{
    let chunks = config.descriptor.spec_chunk_count();
    let ready = WriterState { phase: Phase::Ready, chunk: 0, staged };
    let store = StoreModel { files, open: None };
    config.descriptor.lemma_wf();
    lemma_run_stores_chunks(config, staged, files, chunks);
    lemma_run_in_two(config, ready, store, Event::Start, 4 * chunks, 1);
    let (state, stored, event) = run(config, ready, store, Event::Start, 4 * chunks);
    assert(run(config, state, stored, event, 1) == ({
        let (next, action) = config.transition(state, event);
        (next, store_after(stored, action, next.staged), success_of(action))
    })) by {
        reveal_with_fuel(run, 2);
    }
}

/// Where no two chunks share a path, each chunk's file holds exactly the
/// chunk's bytes once the chunks were stored, so it is as long as the chunk
/// whatever the page size.
pub proof fn lemma_stored_chunk_is_exact(
    config: WriterConfig,
    files: Map<Seq<char>, Seq<u8>>,
    chunks: nat,
    chunk: nat,
)
    requires
        config.wf(),
        chunk < chunks <= config.descriptor.spec_chunk_count(),
        forall|one: nat, other: nat|
            one < other < config.descriptor.spec_chunk_count() ==> #[trigger] config.chunk_path(one)
                != #[trigger] config.chunk_path(other),
        forall|chunk: nat|
            chunk < config.descriptor.spec_chunk_count() ==> (#[trigger] config.chunk_path(chunk))
                is Some,
    ensures
        files_with_chunks(config, files, chunks).dom().contains(
            config.chunk_path(chunk).unwrap(),
        ),
        files_with_chunks(config, files, chunks)[config.chunk_path(chunk).unwrap()]
            == config.chunk_bytes(chunk),
        files_with_chunks(config, files, chunks)[config.chunk_path(chunk).unwrap()].len()
            == config.descriptor.spec_logical_length(),
    decreases chunks,
{
    config.descriptor.lemma_wf();
    config.descriptor.lemma_chunks_tile_array(config.data, chunk, 0);
    let last = (chunks - 1) as nat;
    if chunk < last {
        lemma_stored_chunk_is_exact(config, files, last, chunk);
        assert(config.chunk_path(chunk) != config.chunk_path(last));
        assert(config.chunk_path(chunk) is Some);
        assert(config.chunk_path(last) is Some);
    }
}

} // verus!
