use range_reader::{RangeOutput, RangedReader, RangedStreamer, ReadPoll, SeekFrom};

const LENGTH: usize = 100;

fn stream(from: usize, to: usize) -> Vec<u8> {
    (from..to).map(|x| (x * 7 % 251) as u8).collect()
}

// serves the stream, and pads with `pad` what is asked past its end
fn serve(pad: u8) -> impl Fn(u64, usize) -> Result<Vec<u8>, String> {
    move |start: u64, length: usize| {
        Ok((start as usize..start as usize + length)
            .map(|x| if x < LENGTH { (x * 7 % 251) as u8 } else { pad })
            .collect())
    }
}

fn read_all(min_chunk: usize, pad: u8, sizes: &[usize]) -> Vec<u8> {
    let mut reader = RangedReader::with_min_chunk_size(LENGTH, min_chunk, serve(pad));
    let mut result = vec![];
    for size in sizes {
        let mut to = vec![0; *size];
        assert_eq!(reader.read(&mut to), Ok(*size));
        result.extend_from_slice(&to);
    }
    result
}

#[test]
fn reads_deliver_the_prefix_however_they_are_cut() {
    let cuts: [&[usize]; 7] = [
        &[100],
        &[1; 100],
        &[50, 50],
        &[3, 0, 30, 1, 66],
        &[99, 1],
        &[0, 0, 0],
        &[10, 20, 30, 40],
    ];
    for sizes in cuts {
        let total: usize = sizes.iter().sum();
        for min_chunk in [0, 1, 2, 7, 10, 64, 100, 1000] {
            assert_eq!(read_all(min_chunk, 0, sizes), stream(0, total));
            assert_eq!(read_all(min_chunk, 0xFF, sizes), stream(0, total));
        }
    }
}

#[test]
fn seek_then_read_is_read_from_scratch_without_the_start() {
    for min_chunk in [0, 3, 10, 100] {
        let mut reader = RangedReader::with_min_chunk_size(LENGTH, min_chunk, serve(0));
        // leave the reader somewhere else first
        let mut to = vec![0; 13];
        reader.read(&mut to).unwrap();
        for (position, length) in [(0, 100), (0, 0), (10, 20), (99, 1), (100, 0), (37, 5)] {
            assert_eq!(reader.seek(SeekFrom::Start(position as u64)), Ok(position as u64));
            let mut sought = vec![0; length];
            assert_eq!(reader.read(&mut sought), Ok(length));

            let scratch = read_all(min_chunk, 0, &[position + length]);
            assert_eq!(sought, &scratch[position..]);
            assert_eq!(sought, stream(position, position + length));
        }
    }
}

#[derive(Clone, Copy)]
enum Op {
    Read(usize),
    Seek(SeekFrom),
}

fn run(min_chunk: usize, pad: u8, ops: &[Op]) -> (Vec<u8>, Vec<(u64, usize)>) {
    let calls = std::rc::Rc::new(std::cell::RefCell::new(vec![]));
    let noted = calls.clone();
    let fetch = serve(pad);
    let mut reader = RangedReader::with_min_chunk_size(LENGTH, min_chunk, move |start, length| {
        noted.borrow_mut().push((start, length));
        fetch(start, length)
    });
    let mut result = vec![];
    for op in ops {
        match *op {
            Op::Read(size) => {
                let mut to = vec![0; size];
                assert_eq!(reader.read(&mut to), Ok(size));
                result.extend_from_slice(&to);
            }
            Op::Seek(pos) => {
                let _ = reader.seek(pos);
            }
        }
    }
    let calls = calls.borrow().clone();
    (result, calls)
}

#[test]
fn minimum_chunk_changes_the_fetches_and_not_the_bytes() {
    let ops = [
        Op::Read(5),
        Op::Read(5),
        Op::Seek(SeekFrom::Current(-3)),
        Op::Read(10),
        Op::Seek(SeekFrom::End(-20)),
        Op::Read(20),
        Op::Seek(SeekFrom::Current(-200)),
        Op::Seek(SeekFrom::Start(40)),
        Op::Read(1),
        Op::Read(0),
        Op::Read(30),
    ];
    let mut expected = stream(0, 10);
    expected.extend(stream(7, 17));
    expected.extend(stream(80, 100));
    expected.extend(stream(40, 71));

    let (bytes, small) = run(1, 0, &ops);
    assert_eq!(bytes, expected);
    let (bytes, large) = run(64, 0xFF, &ops);
    assert_eq!(bytes, expected);
    assert_ne!(small, large);
    assert_eq!(small[0], (0, 5));
    assert_eq!(large[0], (0, 64));
    for min_chunk in [0, 2, 9, 10, 11, 100] {
        assert_eq!(run(min_chunk, 1, &ops).0, expected);
    }
}

#[test]
fn repeated_seek_changes_nothing_more() {
    let mut reader = RangedReader::with_min_chunk_size(LENGTH, 10, serve(0));
    let mut to = vec![0; 5];
    reader.read(&mut to).unwrap();
    for pos in [SeekFrom::Start(30), SeekFrom::End(-30), SeekFrom::Current(0)] {
        let first = reader.seek(pos).unwrap();
        let position = reader.position();
        assert_eq!(reader.seek(pos), Ok(first));
        assert_eq!(reader.position(), position);
        assert_eq!(first, position);
    }
    reader.read(&mut to).unwrap();
    assert_eq!(to, stream(70, 75));
}

#[test]
fn streamer_delivers_what_the_blocking_reader_delivers() {
    let sizes = [5, 5, 0, 12, 1, 30, 7];
    for min_chunk in [0, 4, 10, 100] {
        let fetch = serve(0);
        let mut streamer = RangedStreamer::new(LENGTH, min_chunk);
        let calls = std::rc::Rc::new(std::cell::RefCell::new(vec![]));
        let noted = calls.clone();
        let mut reader =
            RangedReader::with_min_chunk_size(LENGTH, min_chunk, move |start, length| {
                noted.borrow_mut().push((start, length));
                serve(0)(start, length)
            });
        let mut requests = vec![];
        for size in sizes {
            let mut blocking = vec![0; size];
            reader.read(&mut blocking).unwrap();

            let mut polled = vec![0; size];
            loop {
                match streamer.poll_read(&mut polled).unwrap() {
                    ReadPoll::Ready(read) => {
                        assert_eq!(read, size);
                        break;
                    }
                    ReadPoll::Pending(request) => {
                        requests.push((request.start, request.length));
                        let data = fetch(request.start, request.length).unwrap();
                        let response = RangeOutput {
                            start: request.start,
                            data,
                        };
                        streamer.read_more::<String>(Ok(response)).unwrap();
                    }
                }
            }
            assert_eq!(polled, blocking);
            assert_eq!(streamer.position(), reader.position());
        }
        // the same ranges were asked for, in the same order
        assert_eq!(requests, *calls.borrow());
    }
}
