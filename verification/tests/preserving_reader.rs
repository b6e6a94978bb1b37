use seekable_reader::Error;
use seekable_reader::FailingSource;
use seekable_reader::PreservingReader;
use seekable_reader::SeekFrom;
use seekable_reader::VecSource;

fn read_all_single(reader: &mut PreservingReader<VecSource>) -> Vec<u8> {
    let mut dest: Vec<u8> = Vec::new();
    loop {
        let b = reader.read(1).unwrap();
        if b.is_empty() {
            break;
        }
        dest.push(b[0]);
    }
    dest
}

#[test]
fn readthrough_1byte_reserve() {
    let source = vec![1, 2, 3, 4, 5];
    let mut reader = PreservingReader::new(VecSource::new(source.clone()), 1);
    let dest = read_all_single(&mut reader);
    assert_eq!(dest, source);
}

#[test]
fn readthrough_2byte_reserve() {
    let source = vec![1, 2, 3, 4, 5];
    let mut reader = PreservingReader::new(VecSource::new(source.clone()), 2);
    let dest = read_all_single(&mut reader);
    assert_eq!(dest, source);
}

#[test]
fn readall_5byte() {
    let source = vec![1, 2, 3, 4, 5];
    let mut reader = PreservingReader::new(VecSource::new(source), 5);
    reader.read(5).unwrap();
    assert_eq!(reader.older_buffer_len(), 5);
    assert_eq!(reader.current_buffer_len(), 0);
}

#[test]
fn seek_small_reserve() {
    let source = vec![1, 2, 3, 4, 5];
    let mut reader = PreservingReader::new(VecSource::new(source), 1);
    let mut dest: Vec<u8> = Vec::new();
    dest.push(reader.read(1).unwrap()[0]);
    reader.seek_backwards(1).unwrap();
    dest.push(reader.read(1).unwrap()[0]);
    reader.seek_forwards(1).unwrap();
    dest.push(reader.read(1).unwrap()[0]);
    assert_eq!(dest, [1, 1, 3]);
}

#[test]
fn seek_2bytes_reserve() {
    let source = vec![1, 2, 3, 4, 5];
    let mut reader = PreservingReader::new(VecSource::new(source), 2);
    let mut dest: Vec<u8> = Vec::new();
    dest.push(reader.read(1).unwrap()[0]);
    dest.push(reader.read(1).unwrap()[0]);
    reader.seek_backwards(2).unwrap();
    dest.push(reader.read(1).unwrap()[0]);
    reader.seek_forwards(2).unwrap();
    dest.push(reader.read(1).unwrap()[0]);
    reader.seek_backwards(1).unwrap();
    dest.push(reader.read(1).unwrap()[0]);
    assert_eq!(dest, [1, 2, 1, 4, 4]);
}

#[test]
fn bigger_test() {
    let source: Vec<u8> = (0..1536).map(|n| (n % 256) as u8).collect();
    let mut reader = PreservingReader::new(VecSource::new(source.clone()), 1024);
    let buffer = reader.read(1536).unwrap();
    assert_eq!(source.len(), buffer.len());
    assert_eq!(source, buffer);
    reader.seek(SeekFrom::Start(0)).unwrap();
    let buffer = reader.read(1536).unwrap();
    assert_eq!(source, buffer);
    reader.seek(SeekFrom::Current(-1024)).unwrap();
    reader.seek(SeekFrom::Current(-512)).unwrap();
    let buffer = reader.read(1536).unwrap();
    assert_eq!(source, buffer);
    reader.seek(SeekFrom::End(-1536)).unwrap();
    let buffer = reader.read(1536).unwrap();
    assert_eq!(source, buffer);
}

#[test]
fn out_of_range_seek_fails_and_changes_nothing() {
    let source = vec![1, 2, 3, 4, 5];
    let mut reader = PreservingReader::new(VecSource::new(source), 2);
    assert_eq!(reader.read(2).unwrap(), [1, 2]);
    let buffered = reader.buffered_size();
    assert_eq!(buffered, 2);
    let err = reader.seek_backwards(buffered + 1).unwrap_err();
    assert_eq!(err, Error::OutOfBufferRange);
    // Everything still stands: a known-good read works as if nothing happened.
    assert_eq!(reader.get_stream_position(), 2);
    assert_eq!(reader.buffered_size(), 2);
    assert_eq!(reader.read(1).unwrap(), [3]);
}

#[test]
fn source_failure_is_propagated() {
    let mut reader = PreservingReader::new(FailingSource, 4);
    assert_eq!(reader.read(1).unwrap_err(), Error::SourceIo);
    // Seeking forward past the (empty) cache needs the source, so it fails too.
    assert_eq!(reader.seek_forwards(1).unwrap_err(), Error::SourceIo);
    // Seeking within the cache does not touch the source.
    assert_eq!(reader.seek_backwards(0).unwrap(), 0);
    assert_eq!(reader.bytes_consumed_from_source(), 0);
}

#[test]
fn zero_keep_size_is_rejected() {
    let err = match PreservingReader::try_new(VecSource::new(vec![1, 2, 3]), 0) {
        Ok(_) => panic!("a zero keep_size must be rejected"),
        Err(e) => e,
    };
    assert_eq!(err, Error::InvalidConfiguration);
    // A window too large to address is just as unusable.
    let err = match PreservingReader::try_new(VecSource::new(vec![1, 2, 3]), usize::MAX) {
        Ok(_) => panic!("an unaddressable keep_size must be rejected"),
        Err(e) => e,
    };
    assert_eq!(err, Error::InvalidConfiguration);
    let mut reader = PreservingReader::try_new(VecSource::new(vec![1, 2, 3]), 1).unwrap();
    assert_eq!(reader.read(1).unwrap(), [1]);
}

#[test]
fn source_bytes_are_never_refetched() {
    let source = vec![7, 8, 9, 10, 11];
    let mut reader = PreservingReader::new(VecSource::new(source), 2);
    assert_eq!(reader.bytes_consumed_from_source(), 0);
    assert_eq!(reader.read(2).unwrap(), [7, 8]);
    assert_eq!(reader.bytes_consumed_from_source(), 2);
    reader.seek_backwards(2).unwrap();
    // Re-reading cached bytes pulls nothing new from the source.
    assert_eq!(reader.read(2).unwrap(), [7, 8]);
    assert_eq!(reader.bytes_consumed_from_source(), 2);
    assert_eq!(reader.read(1).unwrap(), [9]);
    assert_eq!(reader.bytes_consumed_from_source(), 3);
}

#[test]
fn window_overrun_keeps_newest_bytes() {
    let source = vec![10, 11, 12, 13, 14, 15, 16, 17, 18, 19];
    let mut reader = PreservingReader::new(VecSource::new(source), 2);
    assert_eq!(reader.read(1).unwrap(), [10]);
    // One chunk larger than the whole window: only the newest two bytes stay.
    assert_eq!(reader.read(7).unwrap(), [11, 12, 13, 14, 15, 16, 17]);
    assert_eq!(reader.get_stream_position(), 8);
    assert_eq!(reader.bytes_consumed_from_source(), 8);
    assert_eq!(reader.buffered_size(), 2);
    assert_eq!(reader.seek_backwards(3).unwrap_err(), Error::OutOfBufferRange);
    assert_eq!(reader.seek_backwards(2).unwrap(), 6);
    assert_eq!(reader.read(2).unwrap(), [16, 17]);
    assert_eq!(reader.read(2).unwrap(), [18, 19]);
    assert_eq!(reader.read(1).unwrap(), []);
}

#[test]
fn front_buffer_is_topped_up_before_retirement() {
    let source = vec![0, 1, 2, 3, 4, 5, 6, 7];
    let mut reader = PreservingReader::new(VecSource::new(source), 3);
    assert_eq!(reader.read(1).unwrap(), [0]);
    // The next chunk overflows the front buffer without overrunning the
    // window: the front is filled to three bytes and retired whole.
    assert_eq!(reader.read(3).unwrap(), [1, 2, 3]);
    assert_eq!(reader.older_buffer_len(), 3);
    assert_eq!(reader.current_buffer_len(), 1);
    assert_eq!(reader.buffered_size(), 4);
    assert_eq!(reader.seek_backwards(4).unwrap(), 0);
    assert_eq!(reader.read(4).unwrap(), [0, 1, 2, 3]);
}

#[test]
fn reading_past_the_end_returns_what_there_is() {
    let source = vec![1, 2, 3];
    let mut reader = PreservingReader::new(VecSource::new(source.clone()), 2);
    assert_eq!(reader.read(10).unwrap(), source);
    assert_eq!(reader.read(1).unwrap(), []);
    assert_eq!(reader.read(0).unwrap(), []);
    assert_eq!(reader.get_stream_position(), 3);
}

#[test]
fn empty_source_reads_nothing() {
    let mut reader = PreservingReader::new(VecSource::new(Vec::new()), 3);
    assert_eq!(reader.read(4).unwrap(), []);
    assert_eq!(reader.get_stream_position(), 0);
    assert_eq!(reader.bytes_consumed_from_source(), 0);
    assert_eq!(reader.buffered_size(), 0);
}

#[test]
fn forward_seek_past_the_end_stops_at_the_end() {
    let source = vec![1, 2, 3, 4, 5];
    let mut reader = PreservingReader::new(VecSource::new(source), 2);
    // The source gives out before the target: the cursor lands where it
    // stopped, as the returned position reports.
    assert_eq!(reader.seek(SeekFrom::Start(100)).unwrap(), 5);
    assert_eq!(reader.bytes_consumed_from_source(), 5);
    assert_eq!(reader.read(1).unwrap(), []);
    // The discarded bytes entered the cache on the way.
    assert_eq!(reader.seek_backwards(2).unwrap(), 3);
    assert_eq!(reader.read(2).unwrap(), [4, 5]);
}

#[test]
fn absolute_and_relative_seeks_agree() {
    let source: Vec<u8> = (0u8..20).collect();
    let mut reader = PreservingReader::new(VecSource::new(source), 8);
    // An absolute target past everything read so far discards on the way.
    assert_eq!(reader.seek(SeekFrom::Start(5)).unwrap(), 5);
    assert_eq!(reader.bytes_consumed_from_source(), 5);
    assert_eq!(reader.read(1).unwrap(), [5]);
    assert_eq!(reader.seek(SeekFrom::Current(-4)).unwrap(), 2);
    assert_eq!(reader.read(1).unwrap(), [2]);
    // "From the end" means from the current position here.
    assert_eq!(reader.seek(SeekFrom::End(-3)).unwrap(), 0);
    assert_eq!(reader.read(1).unwrap(), [0]);
    // A target before anything ever retained is out of range.
    assert_eq!(
        reader.seek(SeekFrom::End(-2)).unwrap_err(),
        Error::OutOfBufferRange
    );
    assert_eq!(reader.seek(SeekFrom::Start(4)).unwrap(), 4);
    assert_eq!(reader.read(1).unwrap(), [4]);
}
