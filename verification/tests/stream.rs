use range_reader::{
    Phase, RangeError, RangeOutput, RangeRequest, RangedStreamer, ReadError, ReadPoll, SeekFrom,
};

// answers a request with `(x % 255) for x in start..start+length`
fn mock_range(request: RangeRequest) -> RangeOutput {
    let data = (request.start..request.start + request.length as u64)
        .map(|x| (x % 255) as u8)
        .collect();
    RangeOutput {
        start: request.start,
        data,
    }
}

fn get_mock_range(min_size: usize) -> RangedStreamer {
    let length = 100;
    RangedStreamer::new(length, min_size)
}

// drives one read to its end, answering each request from the mock
fn read(reader: &mut RangedStreamer, buf: &mut [u8]) -> Result<usize, ReadError<String>> {
    loop {
        match reader.poll_read(buf).map_err(ReadError::Range)? {
            ReadPoll::Ready(read) => return Ok(read),
            ReadPoll::Pending(request) => reader.read_more(Ok(mock_range(request)))?,
        }
    }
}

fn read_exact(reader: &mut RangedStreamer, buf: &mut [u8]) -> Result<(), ReadError<String>> {
    let read = read(reader, buf)?;
    assert_eq!(read, buf.len());
    Ok(())
}

// performs `calls` calls of length `call_size` and checks that they return the expected result.
fn test(calls: usize, call_size: usize, min_size: usize) {
    let mut reader = get_mock_range(min_size);

    let mut to = vec![0; call_size];
    let mut result = vec![];
    for i in 0..calls {
        let _ = read(&mut reader, &mut to);
        result.extend_from_slice(&to);
        assert_eq!(
            result,
            (0..(i + 1) * call_size)
                .map(|x| x as u8)
                .collect::<Vec<_>>()
        );
    }
}

#[test]
fn stream_basics() {
    test(10, 5, 10);
    test(5, 20, 10);
    test(10, 7, 10);
}

// tests that multiple `seek`s followed by `read` are correct
#[test]
fn seek_inside() {
    let mut reader = get_mock_range(100);

    for seek in 0u8..99 {
        let length = 100 - seek;
        let mut result = vec![0; length as usize];
        reader.poll_seek(SeekFrom::Start(seek as u64)).unwrap();
        read_exact(&mut reader, &mut result).unwrap();
        assert_eq!(result, (seek..100).collect::<Vec<_>>());
    }
}

// tests that `seek` followed by `read` is correct
#[test]
fn seek_new() {
    for seek in 0u8..99 {
        let mut reader = get_mock_range(100);
        let length = 100 - seek;
        let mut result = vec![0; length as usize];
        reader.poll_seek(SeekFrom::Start(seek as u64)).unwrap();
        read_exact(&mut reader, &mut result).unwrap();
        assert_eq!(result, (seek..100).collect::<Vec<_>>());
    }
}

// tests that reading incomplete overlapping regions work as expected
#[test]
fn seek_split() {
    let mut reader = get_mock_range(2);
    let length = 20;
    let mut result = vec![0; length as usize];
    read_exact(&mut reader, &mut result).unwrap();
    assert_eq!(result, (0..length).collect::<Vec<_>>());

    reader.poll_seek(SeekFrom::Start(10)).unwrap();
    let mut result = vec![0; length as usize];
    read_exact(&mut reader, &mut result).unwrap();
    assert_eq!(result, (10..10 + length).collect::<Vec<_>>());
}

#[test]
fn poll_names_one_request_and_waits_for_it() {
    let mut reader = get_mock_range(10);
    assert_eq!(reader.outstanding(), None);
    let mut to = vec![0xAA; 7];
    let request = RangeRequest {
        start: 0,
        length: 10,
    };
    assert_eq!(reader.poll_read(&mut to), Ok(ReadPoll::Pending(request)));
    assert_eq!(reader.outstanding(), Some(request));
    // polling again, even for another size, makes no second request
    assert_eq!(reader.poll_read(&mut to), Ok(ReadPoll::Pending(request)));
    let mut other = vec![0; 50];
    assert_eq!(reader.poll_read(&mut other), Ok(ReadPoll::Pending(request)));
    // nothing was delivered and nothing moved while waiting
    assert_eq!(to, vec![0xAA; 7]);
    assert_eq!(reader.position(), 0);

    assert_eq!(reader.read_more::<String>(Ok(mock_range(request))), Ok(()));
    assert_eq!(reader.outstanding(), None);
    assert_eq!(reader.poll_read(&mut to), Ok(ReadPoll::Ready(7)));
    assert_eq!(to, vec![0, 1, 2, 3, 4, 5, 6]);
    assert_eq!(reader.position(), 7);

    // 3 bytes are left: max(7 delivered, 7 read, 10) - 3 more are asked for
    let next = RangeRequest {
        start: 10,
        length: 7,
    };
    assert_eq!(reader.poll_read(&mut to), Ok(ReadPoll::Pending(next)));
}

#[test]
fn refill_of_exactly_the_read_is_served() {
    let mut reader = get_mock_range(4);
    let mut to = vec![0; 10];
    let request = RangeRequest {
        start: 0,
        length: 10,
    };
    assert_eq!(reader.poll_read(&mut to), Ok(ReadPoll::Pending(request)));
    reader.read_more::<String>(Ok(mock_range(request))).unwrap();
    // the window holds exactly the 10 bytes of the read: it is served
    assert_eq!(reader.poll_read(&mut to), Ok(ReadPoll::Ready(10)));
    assert_eq!(to, (0..10).collect::<Vec<u8>>());
    // a read that finds the window empty asks again
    let mut none = vec![];
    assert_eq!(
        reader.poll_read(&mut none),
        Ok(ReadPoll::Pending(RangeRequest {
            start: 10,
            length: 10
        }))
    );
}

#[test]
fn larger_read_after_refill_asks_again() {
    let mut reader = get_mock_range(4);
    let mut to = vec![0; 6];
    let request = RangeRequest {
        start: 0,
        length: 6,
    };
    assert_eq!(reader.poll_read(&mut to), Ok(ReadPoll::Pending(request)));
    reader.read_more::<String>(Ok(mock_range(request))).unwrap();
    let mut more = vec![0xAA; 9];
    let next = RangeRequest {
        start: 6,
        length: 3,
    };
    assert_eq!(reader.poll_read(&mut more), Ok(ReadPoll::Pending(next)));
    assert_eq!(more, vec![0xAA; 9]);
    reader.read_more::<String>(Ok(mock_range(next))).unwrap();
    assert_eq!(reader.poll_read(&mut more), Ok(ReadPoll::Ready(9)));
    assert_eq!(more, (0..9).collect::<Vec<u8>>());
}

#[test]
fn response_for_another_start_fails_the_read() {
    let mut reader = get_mock_range(10);
    let mut to = vec![0xAA; 5];
    let request = RangeRequest {
        start: 0,
        length: 10,
    };
    assert_eq!(reader.poll_read(&mut to), Ok(ReadPoll::Pending(request)));
    let elsewhere = mock_range(RangeRequest {
        start: 1,
        length: 10,
    });
    assert_eq!(
        reader.read_more::<String>(Ok(elsewhere)),
        Err(ReadError::Range(RangeError::StartMismatch))
    );
    // no byte of that response is ever delivered
    assert_eq!(reader.position(), 0);
    assert_eq!(reader.outstanding(), None);
    assert_eq!(reader.poll_read(&mut to), Ok(ReadPoll::Pending(request)));
    assert_eq!(to, vec![0xAA; 5]);
    reader.read_more::<String>(Ok(mock_range(request))).unwrap();
    assert_eq!(reader.poll_read(&mut to), Ok(ReadPoll::Ready(5)));
    assert_eq!(to, vec![0, 1, 2, 3, 4]);
}

#[test]
fn response_of_another_length_fails_the_read() {
    let mut reader = get_mock_range(10);
    let mut to = vec![0xAA; 5];
    let request = RangeRequest {
        start: 0,
        length: 10,
    };
    for length in [0, 5, 9, 11] {
        assert_eq!(reader.poll_read(&mut to), Ok(ReadPoll::Pending(request)));
        let response = mock_range(RangeRequest { start: 0, length });
        assert_eq!(
            reader.read_more::<String>(Ok(response)),
            Err(ReadError::Range(RangeError::LengthMismatch))
        );
        assert_eq!(reader.position(), 0);
    }
    // the start is looked at before the length
    assert_eq!(reader.poll_read(&mut to), Ok(ReadPoll::Pending(request)));
    let response = mock_range(RangeRequest {
        start: 3,
        length: 2,
    });
    assert_eq!(
        reader.read_more::<String>(Ok(response)),
        Err(ReadError::Range(RangeError::StartMismatch))
    );
    assert_eq!(to, vec![0xAA; 5]);
}

#[test]
fn failed_fetch_fails_the_read_with_its_error() {
    let mut reader = get_mock_range(10);
    let mut to = vec![0xAA; 5];
    let request = RangeRequest {
        start: 0,
        length: 10,
    };
    assert_eq!(reader.poll_read(&mut to), Ok(ReadPoll::Pending(request)));
    assert_eq!(
        reader.read_more(Err("connection reset".to_string())),
        Err(ReadError::Fetch("connection reset".to_string()))
    );
    assert_eq!(reader.outstanding(), None);
    assert_eq!(reader.position(), 0);
    // the read can be tried again
    assert_eq!(read(&mut reader, &mut to), Ok(5));
    assert_eq!(to, vec![0, 1, 2, 3, 4]);
}

#[test]
fn response_without_request_is_refused() {
    let mut reader = get_mock_range(10);
    let request = RangeRequest {
        start: 0,
        length: 10,
    };
    let response = mock_range(request);
    assert_eq!(
        reader.read_more::<String>(Ok(mock_range(request))),
        Err(ReadError::Range(RangeError::Unsolicited))
    );
    assert_eq!(
        reader.read_more(Err("late".to_string())),
        Err(ReadError::Range(RangeError::Unsolicited))
    );
    let mut to = vec![0; 5];
    read(&mut reader, &mut to).unwrap();
    // the window was refilled and served: nothing is outstanding
    assert_eq!(
        reader.read_more::<String>(Ok(response)),
        Err(ReadError::Range(RangeError::Unsolicited))
    );
    assert_eq!(reader.position(), 5);
}

#[test]
fn seek_gives_up_the_outstanding_request() {
    let mut reader = get_mock_range(10);
    let mut to = vec![0; 5];
    let request = RangeRequest {
        start: 0,
        length: 10,
    };
    assert_eq!(reader.poll_read(&mut to), Ok(ReadPoll::Pending(request)));
    assert_eq!(reader.poll_seek(SeekFrom::Start(40)), Ok(40));
    assert_eq!(reader.outstanding(), None);
    // the response to the abandoned request finds nobody waiting
    assert_eq!(
        reader.read_more::<String>(Ok(mock_range(request))),
        Err(ReadError::Range(RangeError::Unsolicited))
    );
    read(&mut reader, &mut to).unwrap();
    assert_eq!(to, vec![40, 41, 42, 43, 44]);
}

#[test]
fn refused_seek_keeps_the_outstanding_request() {
    let mut reader = get_mock_range(10);
    let mut to = vec![0; 5];
    let request = RangeRequest {
        start: 0,
        length: 10,
    };
    assert_eq!(reader.poll_read(&mut to), Ok(ReadPoll::Pending(request)));
    assert_eq!(
        reader.poll_seek(SeekFrom::Current(-1)),
        Err(RangeError::OutOfRange)
    );
    assert_eq!(
        reader.poll_seek(SeekFrom::End(-101)),
        Err(RangeError::OutOfRange)
    );
    assert_eq!(reader.outstanding(), Some(request));
    reader.read_more::<String>(Ok(mock_range(request))).unwrap();
    assert_eq!(reader.poll_read(&mut to), Ok(ReadPoll::Ready(5)));
}

#[test]
fn streamer_seek_targets() {
    let mut reader = get_mock_range(10);
    let mut to = vec![0; 4];
    assert_eq!(reader.poll_seek(SeekFrom::End(-10)), Ok(90));
    read(&mut reader, &mut to).unwrap();
    assert_eq!(to, vec![90, 91, 92, 93]);
    assert_eq!(reader.poll_seek(SeekFrom::Current(-4)), Ok(90));
    assert_eq!(reader.poll_seek(SeekFrom::Current(-4)), Ok(86));
    assert_eq!(reader.poll_seek(SeekFrom::Start(7)), Ok(7));
    assert_eq!(reader.poll_seek(SeekFrom::Start(7)), Ok(7));
    read(&mut reader, &mut to).unwrap();
    assert_eq!(to, vec![7, 8, 9, 10]);
}

#[test]
fn streamer_read_past_u64_is_refused() {
    let mut reader = get_mock_range(10);
    reader.poll_seek(SeekFrom::Start(u64::MAX - 9)).unwrap();
    let mut to = vec![0; 4];
    assert_eq!(reader.poll_read(&mut to), Err(RangeError::OutOfRange));
    assert_eq!(reader.outstanding(), None);
    // one byte less fits: the range ends at u64::MAX
    reader.poll_seek(SeekFrom::Start(u64::MAX - 10)).unwrap();
    assert_eq!(
        reader.poll_read(&mut to),
        Ok(ReadPoll::Pending(RangeRequest {
            start: u64::MAX - 10,
            length: 10
        }))
    );
}

#[test]
fn phases_are_plain_values() {
    let request = RangeRequest {
        start: 3,
        length: 4,
    };
    assert_ne!(Phase::Idle, Phase::Refilled);
    assert_eq!(Phase::InFlight(request), Phase::InFlight(request));
    assert_ne!(ReadPoll::Ready(4), ReadPoll::Pending(request));
}
