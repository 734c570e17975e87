use std::collections::BTreeMap;
use zarr_dio::buffer::AlignedBuffer;
use zarr_dio::descriptor::ArrayDescriptor;
use zarr_dio::writer::{Action, DirectWriter, Event, Phase, SetupError, WriteError};

fn names() -> Vec<String> {
    vec!["i".to_string(), "Ky".to_string(), "Kx".to_string()]
}

fn small_array() -> ArrayDescriptor {
    ArrayDescriptor::new([64, 8, 8], [4, 8, 8], 2, vec![7, 0], names()).unwrap()
}

fn small_array_bytes() -> Vec<u8> {
    (0..8192u32).map(|i| (i * 7 % 253) as u8).collect()
}

/// What a run left behind: the files by path, and the length of every write.
struct RunResult {
    files: BTreeMap<String, Vec<u8>>,
    writes: Vec<usize>,
    opened: Vec<String>,
}

fn run_to_the_end(writer: &mut DirectWriter, page: usize) -> RunResult {
    let mut result = RunResult { files: BTreeMap::new(), writes: Vec::new(), opened: Vec::new() };
    let mut current: Option<String> = None;
    let mut event = Event::Start;
    loop {
        match writer.step(event) {
            Action::Open { path } => {
                assert!(current.is_none());
                result.files.insert(path.clone(), Vec::new());
                result.opened.push(path.clone());
                current = Some(path);
                event = Event::Opened;
            }
            Action::Write { len } => {
                let staged = writer.staged();
                assert_eq!(staged.len(), len);
                assert_eq!(len % page, 0);
                assert_eq!(staged.as_ptr() as usize % page, 0);
                assert!(writer.buffer().is_page_aligned());
                let path = current.as_ref().unwrap();
                result.files.get_mut(path).unwrap().extend_from_slice(staged);
                result.writes.push(len);
                event = Event::Written { count: len };
            }
            Action::Truncate { length } => {
                let path = current.as_ref().unwrap();
                result.files.get_mut(path).unwrap().resize(length as usize, 0);
                event = Event::Truncated;
            }
            Action::Close => {
                assert!(current.take().is_some());
                event = Event::Closed;
            }
            Action::Done => {
                assert!(current.is_none());
                return result;
            }
            Action::Abort(error) => panic!("the run failed: {:?}", error),
        }
    }
}

fn open_first_chunk<'a>(data: &'a [u8], page: usize) -> DirectWriter<'a> {
    let buffer = AlignedBuffer::allocate(512, page).unwrap();
    let mut writer =
        DirectWriter::new(small_array(), "/store", "/direct", data, buffer).unwrap();
    assert!(matches!(writer.step(Event::Start), Action::Open { .. }));
    writer
}

#[test]
fn sixteen_chunks_of_512_bytes_are_written_as_one_page_each() {
    let data = small_array_bytes();
    let buffer = AlignedBuffer::allocate(512, 4096).unwrap();
    let mut writer =
        DirectWriter::new(small_array(), "/store", "/direct", &data, buffer).unwrap();
    let result = run_to_the_end(&mut writer, 4096);
    assert_eq!(result.files.len(), 16);
    assert_eq!(result.writes, vec![4096; 16]);
    for index in 0..16usize {
        let file = &result.files[&format!("/store/direct/c/{}/0/0", index)];
        assert_eq!(file.len(), 512);
        assert_eq!(&file[..], &data[index * 512..(index + 1) * 512]);
    }
    assert_eq!(writer.phase(), Phase::Finished);
    assert_eq!(writer.chunk(), 16);
}

#[test]
fn file_length_is_the_chunk_length_whatever_the_page_size() {
    let data = small_array_bytes();
    for page in [4096usize, 16384] {
        let buffer = AlignedBuffer::allocate(512, page).unwrap();
        let mut writer =
            DirectWriter::new(small_array(), "/store", "/direct", &data, buffer).unwrap();
        let result = run_to_the_end(&mut writer, page);
        assert_eq!(result.writes, vec![page; 16]);
        assert_eq!(result.files.len(), 16);
        for file in result.files.values() {
            assert_eq!(file.len(), 512);
        }
    }
}

#[test]
fn every_chunk_reads_back_as_the_source_slice() {
    let descriptor = small_array();
    let data = small_array_bytes();
    let buffer = AlignedBuffer::allocate(512, 4096).unwrap();
    let mut writer =
        DirectWriter::new(small_array(), "/store/", "/a/b", &data, buffer).unwrap();
    let result = run_to_the_end(&mut writer, 4096);
    for index in 0..16u64 {
        let file = &result.files[&format!("/store/a/b/c/{}/0/0", index)];
        assert_eq!(&file[..], descriptor.chunk_bytes(&data, index));
    }
}

#[test]
fn chunks_are_opened_in_increasing_order() {
    let data = small_array_bytes();
    let buffer = AlignedBuffer::allocate(512, 4096).unwrap();
    let mut writer =
        DirectWriter::new(small_array(), "/store", "/direct", &data, buffer).unwrap();
    let result = run_to_the_end(&mut writer, 4096);
    let expected: Vec<String> =
        (0..16).map(|index| format!("/store/direct/c/{}/0/0", index)).collect();
    assert_eq!(result.opened, expected);
}

#[test]
fn chunk_of_whole_pages_is_written_without_an_extra_page() {
    let descriptor = ArrayDescriptor::new([8, 64, 32], [2, 64, 32], 2, vec![7, 0], names()).unwrap();
    assert_eq!(descriptor.logical_length(), 8192);
    let data: Vec<u8> = (0..32768u32).map(|i| (i % 241) as u8).collect();
    let buffer = AlignedBuffer::allocate(8192, 4096).unwrap();
    assert_eq!(buffer.capacity(), 8192);
    let mut writer = DirectWriter::new(descriptor, "/store", "/direct", &data, buffer).unwrap();
    let result = run_to_the_end(&mut writer, 4096);
    assert_eq!(result.writes, vec![8192; 4]);
    for (index, file) in result.files.values().enumerate() {
        assert_eq!(&file[..], &data[index * 8192..(index + 1) * 8192]);
    }
}

#[test]
fn steps_follow_open_write_trim_close() {
    let data = small_array_bytes();
    let buffer = AlignedBuffer::allocate(512, 4096).unwrap();
    let mut writer =
        DirectWriter::new(small_array(), "/store", "/direct", &data, buffer).unwrap();
    assert_eq!(writer.phase(), Phase::Ready);
    assert_eq!(writer.chunk(), 0);
    match writer.step(Event::Start) {
        Action::Open { path } => assert_eq!(path, "/store/direct/c/0/0/0"),
        other => panic!("{:?}", other),
    }
    assert_eq!(writer.phase(), Phase::Opening);
    assert!(matches!(writer.step(Event::Opened), Action::Write { len: 4096 }));
    assert_eq!(writer.phase(), Phase::Writing);
    assert_eq!(&writer.staged()[..512], &data[..512]);
    assert_eq!(&writer.staged()[512..], &[0u8; 3584][..]);
    assert!(matches!(writer.step(Event::Written { count: 4096 }), Action::Truncate { length: 512 }));
    assert_eq!(writer.phase(), Phase::Trimming);
    assert!(matches!(writer.step(Event::Truncated), Action::Close));
    assert_eq!(writer.phase(), Phase::Closing);
    match writer.step(Event::Closed) {
        Action::Open { path } => assert_eq!(path, "/store/direct/c/1/0/0"),
        other => panic!("{:?}", other),
    }
    assert_eq!(writer.chunk(), 1);
    assert_eq!(writer.descriptor().chunk_count(), 16);
}

#[test]
fn failed_open_ends_the_run() {
    let data = small_array_bytes();
    let mut writer = open_first_chunk(&data, 4096);
    assert!(matches!(writer.step(Event::OpenFailed), Action::Abort(WriteError::IoOpen)));
    assert_eq!(writer.phase(), Phase::Failed(WriteError::IoOpen));
    assert!(matches!(writer.step(Event::Opened), Action::Abort(WriteError::IoOpen)));
    assert!(matches!(writer.step(Event::Start), Action::Abort(WriteError::IoOpen)));
}

#[test]
fn failed_write_ends_the_run() {
    let data = small_array_bytes();
    let mut writer = open_first_chunk(&data, 4096);
    writer.step(Event::Opened);
    assert!(matches!(writer.step(Event::WriteFailed), Action::Abort(WriteError::IoWrite)));
    assert_eq!(writer.phase(), Phase::Failed(WriteError::IoWrite));
}

#[test]
fn short_write_ends_the_run() {
    let data = small_array_bytes();
    for count in [0usize, 512, 4095, 4097] {
        let mut writer = open_first_chunk(&data, 4096);
        writer.step(Event::Opened);
        assert!(matches!(
            writer.step(Event::Written { count }),
            Action::Abort(WriteError::IoWrite)
        ));
        assert!(matches!(writer.step(Event::Truncated), Action::Abort(WriteError::IoWrite)));
    }
}

#[test]
fn failed_truncate_ends_the_run() {
    let data = small_array_bytes();
    let mut writer = open_first_chunk(&data, 4096);
    writer.step(Event::Opened);
    writer.step(Event::Written { count: 4096 });
    assert!(matches!(writer.step(Event::TruncateFailed), Action::Abort(WriteError::Truncate)));
    assert_eq!(writer.phase(), Phase::Failed(WriteError::Truncate));
    assert_eq!(writer.chunk(), 0);
}

#[test]
fn event_out_of_order_ends_the_run() {
    let data = small_array_bytes();
    let buffer = AlignedBuffer::allocate(512, 4096).unwrap();
    let mut writer =
        DirectWriter::new(small_array(), "/store", "/direct", &data, buffer).unwrap();
    assert!(matches!(writer.step(Event::Opened), Action::Abort(WriteError::UnexpectedEvent)));
    let mut writer = open_first_chunk(&data, 4096);
    assert!(matches!(writer.step(Event::Closed), Action::Abort(WriteError::UnexpectedEvent)));
    let mut writer = open_first_chunk(&data, 4096);
    writer.step(Event::Opened);
    assert!(matches!(writer.step(Event::Truncated), Action::Abort(WriteError::UnexpectedEvent)));
    let mut writer = open_first_chunk(&data, 4096);
    writer.step(Event::Opened);
    writer.step(Event::Written { count: 4096 });
    assert!(matches!(
        writer.step(Event::Written { count: 4096 }),
        Action::Abort(WriteError::UnexpectedEvent)
    ));
}

#[test]
fn refused_array_path_ends_the_run_before_any_file() {
    let data = small_array_bytes();
    for array_path in ["direct", "/direct/", "/a//b", ""] {
        let buffer = AlignedBuffer::allocate(512, 4096).unwrap();
        let mut writer =
            DirectWriter::new(small_array(), "/store", array_path, &data, buffer).unwrap();
        assert!(matches!(writer.step(Event::Start), Action::Abort(WriteError::KeyRefused)));
        assert_eq!(writer.phase(), Phase::Failed(WriteError::KeyRefused));
    }
}

#[test]
fn finished_run_stays_finished() {
    let data = small_array_bytes();
    let buffer = AlignedBuffer::allocate(512, 4096).unwrap();
    let mut writer =
        DirectWriter::new(small_array(), "/store", "/direct", &data, buffer).unwrap();
    run_to_the_end(&mut writer, 4096);
    assert!(matches!(writer.step(Event::Start), Action::Done));
    assert!(matches!(writer.step(Event::Closed), Action::Done));
    assert_eq!(writer.phase(), Phase::Finished);
}

#[test]
fn source_of_another_length_is_refused() {
    let data = vec![0u8; 8191];
    let buffer = AlignedBuffer::allocate(512, 4096).unwrap();
    assert_eq!(
        DirectWriter::new(small_array(), "/store", "/direct", &data, buffer).err(),
        Some(SetupError::SourceLength)
    );
}

#[test]
fn buffer_below_the_chunk_length_is_refused() {
    let data = small_array_bytes();
    let buffer = AlignedBuffer::allocate(256, 256).unwrap();
    assert_eq!(
        DirectWriter::new(small_array(), "/store", "/direct", &data, buffer).err(),
        Some(SetupError::BufferTooSmall)
    );
}
