use librados::buffer::{INITIAL_BUF_SIZE, MAX_BUF_SIZE};
use librados::errors::Error;
use librados::native::{Op, Reply, Step};
use librados::object::Object;
use librados::rados::Rados;

fn ok() -> Reply {
    Reply::default()
}

fn handle(value: u64) -> Reply {
    Reply { values: vec![value], ..Reply::default() }
}

fn refused(code: i32, message: &str) -> Reply {
    Reply { code, message: message.as_bytes().to_vec(), ..Reply::default() }
}

fn resolved(code: i32) -> Reply {
    Reply { code, ..Reply::default() }
}

fn overflow() -> Reply {
    refused(-34, "Numerical result out of range")
}

fn object() -> Object {
    Object::new(&Rados { ptr: 1 }, "pool", "obj")
}

#[test]
fn an_object_keeps_its_name() {
    assert_eq!(object().name(), "obj");
    assert_eq!(Object::new(&Rados { ptr: 1 }, "pool", "").name(), "");
}

#[test]
fn read_into_an_empty_buffer_makes_no_call() {
    assert!(matches!(object().read(0, &mut [], &[]), Step::Done(Ok(0))));
    assert!(matches!(object().read(99, &mut [], &[refused(-1, "x")]), Step::Done(Ok(0))));
    let unnameable = Object::new(&Rados { ptr: 1 }, "po\0ol", "ob\0j");
    assert!(matches!(unnameable.read(0, &mut [], &[]), Step::Done(Ok(0))));
}

#[test]
fn read_fills_the_start_of_the_buffer_once_it_has_ended_well() {
    let obj = object();
    let mut buf = *b"........";
    let answer = Reply { code: 5, data: b"test1".to_vec(), ..Reply::default() };
    let replies = [handle(10), handle(20), ok(), answer];
    for upto in 0..4 {
        assert!(matches!(obj.read(0, &mut buf, &replies[..upto]), Step::Call(_)));
        assert_eq!(&buf, b"........");
    }
    assert!(matches!(obj.read(0, &mut buf, &replies), Step::Done(Ok(5))));
    assert_eq!(&buf, b"test1...");
    // no more is taken over than the backend says it has read
    let mut buf = *b"........";
    let answer = Reply { code: 2, data: b"test1".to_vec(), ..Reply::default() };
    assert!(matches!(
        obj.read(0, &mut buf, &[handle(10), handle(20), ok(), answer]),
        Step::Done(Ok(2))
    ));
    assert_eq!(&buf, b"te......");
    // nor more than there is room for, or than the backend handed over
    let mut buf = *b"...";
    let answer = Reply { code: 5, data: b"test1".to_vec(), ..Reply::default() };
    assert!(matches!(
        obj.read(0, &mut buf, &[handle(10), handle(20), ok(), answer]),
        Step::Done(Ok(5))
    ));
    assert_eq!(&buf, b"tes");
    let mut buf = *b"........";
    let answer = Reply { code: 5, data: b"te".to_vec(), ..Reply::default() };
    assert!(matches!(
        obj.read(0, &mut buf, &[handle(10), handle(20), ok(), answer]),
        Step::Done(Ok(5))
    ));
    assert_eq!(&buf, b"te......");
    // a read that fails leaves the buffer alone
    let mut buf = *b"........";
    let failed = Reply { code: -5, data: b"test1".to_vec(), ..Reply::default() };
    assert!(matches!(
        obj.read(0, &mut buf, &[handle(10), handle(20), ok(), failed]),
        Step::Done(Err(_))
    ));
    assert_eq!(&buf, b"........");
}

#[test]
fn read_goes_through_context_token_submission_and_wait() {
    let obj = object();
    match obj.read(16, &mut [0u8; 8], &[]) {
        Step::Call(call) => {
            assert_eq!(call.op, Op::OpenContext);
            assert_eq!(call.handle, 1);
            assert_eq!(call.key, b"pool\0");
        }
        other => panic!("unexpected: {:?}", other),
    }
    match obj.read(16, &mut [0u8; 8], &[handle(10)]) {
        Step::Call(call) => assert_eq!(call.op, Op::CreateCompletion),
        other => panic!("unexpected: {:?}", other),
    }
    match obj.read(16, &mut [0u8; 8], &[handle(10), handle(20)]) {
        Step::Call(call) => {
            assert_eq!(call.op, Op::Read);
            assert_eq!(call.handle, 10);
            assert_eq!(call.completion, 20);
            assert_eq!(call.key, b"obj\0");
            assert_eq!(call.size, 8);
            assert_eq!(call.offset, 16);
            assert!(call.data.is_empty());
            assert!(call.name.is_empty());
        }
        other => panic!("unexpected: {:?}", other),
    }
    match obj.read(16, &mut [0u8; 8], &[handle(10), handle(20), ok()]) {
        Step::Call(call) => {
            assert_eq!(call.op, Op::Await);
            assert_eq!(call.completion, 20);
        }
        other => panic!("unexpected: {:?}", other),
    }
    assert!(matches!(
        obj.read(16, &mut [0u8; 8], &[handle(10), handle(20), ok(), resolved(5)]),
        Step::Done(Ok(5))
    ));
    assert!(matches!(
        obj.read(16, &mut [0u8; 8], &[handle(10), handle(20), ok(), resolved(0)]),
        Step::Done(Ok(0))
    ));
}

#[test]
fn a_refusal_at_any_stage_is_the_result() {
    let obj = object();
    let no = refused(-5, "Input/output error");
    let transcripts = [
        vec![no.clone()],
        vec![handle(10), no.clone()],
        vec![handle(10), handle(20), no.clone()],
        vec![handle(10), handle(20), ok(), no.clone()],
    ];
    for replies in &transcripts {
        for step in [
            obj.read(0, &mut [0u8; 8], replies),
            obj.write(0, b"data", replies),
            obj.write_full(b"data", replies),
            obj.append(b"data", replies),
        ] {
            match step {
                Step::Done(Err(Error::RadosError((code, message)))) => {
                    assert_eq!(code, -5);
                    assert_eq!(message, "Input/output error");
                }
                other => panic!("unexpected: {:?}", other),
            }
        }
        assert!(matches!(obj.stat(replies), Step::Done(Err(Error::RadosError((-5, _))))));
        assert!(matches!(
            obj.set_xattr("user.a", b"v", replies),
            Step::Done(Err(Error::RadosError((-5, _))))
        ));
        assert!(matches!(
            obj.get_xattr("user.a", replies),
            Step::Done(Err(Error::RadosError((-5, _))))
        ));
        assert!(matches!(obj.get_xattrs(replies), Step::Done(Err(Error::RadosError((-5, _))))));
    }
    assert!(matches!(obj.truncate(3, &[no.clone()]), Step::Done(Err(Error::RadosError((-5, _))))));
    assert!(matches!(
        obj.truncate(3, &[handle(10), no.clone()]),
        Step::Done(Err(Error::RadosError((-5, _))))
    ));
}

#[test]
fn a_submission_that_is_refused_is_never_awaited() {
    let obj = object();
    let replies = [handle(10), handle(20), refused(-22, "Invalid argument"), resolved(5)];
    assert!(matches!(obj.read(0, &mut [0u8; 8], &replies), Step::Done(Err(Error::RadosError((-22, _))))));
}

#[test]
fn names_with_a_zero_byte_are_refused_where_they_are_needed() {
    let bad_pool = Object::new(&Rados { ptr: 1 }, "po\0ol", "ob\0j");
    assert!(matches!(bad_pool.read(0, &mut [0u8; 8], &[]), Step::Done(Err(Error::NulError(2)))));
    assert!(matches!(bad_pool.truncate(0, &[]), Step::Done(Err(Error::NulError(2)))));

    let bad_name = Object::new(&Rados { ptr: 1 }, "pool", "ob\0j");
    // the context and the token come first
    assert!(matches!(bad_name.read(0, &mut [0u8; 8], &[]), Step::Call(_)));
    assert!(matches!(bad_name.read(0, &mut [0u8; 8], &[handle(10)]), Step::Call(_)));
    assert!(matches!(
        bad_name.read(0, &mut [0u8; 8], &[handle(10), handle(20)]),
        Step::Done(Err(Error::IoError(2)))
    ));
    assert!(matches!(
        bad_name.write_full(b"x", &[handle(10), handle(20)]),
        Step::Done(Err(Error::IoError(2)))
    ));
    // where no token is needed first, the name is looked at after the context
    assert!(matches!(bad_name.truncate(0, &[handle(10)]), Step::Done(Err(Error::IoError(2)))));
    assert!(matches!(
        bad_name.get_xattr("user.a", &[handle(10)]),
        Step::Done(Err(Error::IoError(2)))
    ));
    assert!(matches!(
        object().get_xattr("us\0er", &[handle(10)]),
        Step::Done(Err(Error::IoError(2)))
    ));
    assert!(matches!(
        object().set_xattr("\0", b"v", &[handle(10)]),
        Step::Done(Err(Error::IoError(0)))
    ));
    assert!(matches!(bad_name.get_xattrs(&[handle(10)]), Step::Done(Err(Error::IoError(2)))));
}

#[test]
fn writes_hand_over_the_bytes_and_report_their_number() {
    let obj = object();
    let start = [handle(10), handle(20)];
    match obj.write(7, b"abc", &start) {
        Step::Call(call) => {
            assert_eq!(call.op, Op::Write);
            assert_eq!(call.data, b"abc");
            assert_eq!(call.offset, 7);
        }
        other => panic!("unexpected: {:?}", other),
    }
    match obj.write_full(b"abcd", &start) {
        Step::Call(call) => {
            assert_eq!(call.op, Op::WriteFull);
            assert_eq!(call.data, b"abcd");
            assert_eq!(call.offset, 0);
        }
        other => panic!("unexpected: {:?}", other),
    }
    match obj.append(b"ab", &start) {
        Step::Call(call) => {
            assert_eq!(call.op, Op::Append);
            assert_eq!(call.data, b"ab");
        }
        other => panic!("unexpected: {:?}", other),
    }
    // whatever number the backend resolves with, what is reported is the
    // number of bytes written
    for code in [0, 1, 77] {
        let done = [handle(10), handle(20), ok(), resolved(code)];
        assert!(matches!(obj.write(7, b"abc", &done), Step::Done(Ok(3))));
        assert!(matches!(obj.write(7, b"", &done), Step::Done(Ok(0))));
        assert!(matches!(obj.append(b"ab", &done), Step::Done(Ok(2))));
        assert!(matches!(obj.write_full(b"abcd", &done), Step::Done(Ok(4))));
        assert!(matches!(obj.write_full(b"", &done), Step::Done(Ok(0))));
    }
}

#[test]
fn stat_reads_size_and_time_off_the_resolved_query() {
    let obj = object();
    let answer = Reply { values: vec![4096, 1700000000, 999], ..Reply::default() };
    match obj.stat(&[handle(10), handle(20), ok(), answer]) {
        Step::Done(Ok(stat)) => {
            assert_eq!(stat.size, 4096);
            assert_eq!(stat.mtime, (1700000000, 999));
        }
        other => panic!("unexpected: {:?}", other),
    }
    match obj.stat(&[handle(10), handle(20), ok(), ok()]) {
        Step::Done(Ok(stat)) => {
            assert_eq!(stat.size, 0);
            assert_eq!(stat.mtime, (0, 0));
        }
        other => panic!("unexpected: {:?}", other),
    }
}

#[test]
fn truncate_is_one_call() {
    let obj = object();
    match obj.truncate(123, &[handle(10)]) {
        Step::Call(call) => {
            assert_eq!(call.op, Op::Truncate);
            assert_eq!(call.handle, 10);
            assert_eq!(call.key, b"obj\0");
            assert_eq!(call.offset, 123);
        }
        other => panic!("unexpected: {:?}", other),
    }
    assert!(matches!(obj.truncate(123, &[handle(10), ok()]), Step::Done(Ok(()))));
}

#[test]
fn get_xattr_starts_with_the_first_capacity_and_a_fresh_token() {
    let obj = object();
    assert_eq!(INITIAL_BUF_SIZE, 64);
    match obj.get_xattr("user.a", &[handle(10)]) {
        Step::Call(call) => assert_eq!(call.op, Op::CreateCompletion),
        other => panic!("unexpected: {:?}", other),
    }
    match obj.get_xattr("user.a", &[handle(10), handle(20)]) {
        Step::Call(call) => {
            assert_eq!(call.op, Op::GetXattr);
            assert_eq!(call.handle, 10);
            assert_eq!(call.completion, 20);
            assert_eq!(call.key, b"obj\0");
            assert_eq!(call.name, b"user.a\0");
            assert_eq!(call.size, 64);
        }
        other => panic!("unexpected: {:?}", other),
    }
    match obj.get_xattr("user.a", &[handle(10), handle(20), ok()]) {
        Step::Call(call) => {
            assert_eq!(call.op, Op::Await);
            assert_eq!(call.completion, 20);
        }
        other => panic!("unexpected: {:?}", other),
    }
}

#[test]
fn get_xattr_cuts_the_buffer_to_the_reported_length() {
    let obj = object();
    let mut buffer = b"value".to_vec();
    buffer.resize(64, 0xAA);
    let answer = Reply { code: 5, data: buffer, ..Reply::default() };
    match obj.get_xattr("user.a", &[handle(10), handle(20), ok(), answer]) {
        Step::Done(Ok(value)) => assert_eq!(value, b"value"),
        other => panic!("unexpected: {:?}", other),
    }
    let empty = Reply { code: 0, data: vec![0xAA; 64], ..Reply::default() };
    match obj.get_xattr("user.a", &[handle(10), handle(20), ok(), empty]) {
        Step::Done(Ok(value)) => assert!(value.is_empty()),
        other => panic!("unexpected: {:?}", other),
    }
}

#[test]
fn get_xattr_doubles_the_capacity_on_overflow() {
    let obj = object();
    let mut replies = vec![handle(10)];
    let mut expected = 64usize;
    for round in 0..4u64 {
        replies.push(handle(20 + round));
        match obj.get_xattr("user.a", &replies) {
            Step::Call(call) => {
                assert_eq!(call.op, Op::GetXattr);
                assert_eq!(call.completion, 20 + round);
                assert_eq!(call.size, expected);
            }
            other => panic!("unexpected: {:?}", other),
        }
        replies.push(ok());
        replies.push(overflow());
        match obj.get_xattr("user.a", &replies) {
            Step::Call(call) => assert_eq!(call.op, Op::CreateCompletion),
            other => panic!("unexpected: {:?}", other),
        }
        expected *= 2;
    }
    assert_eq!(expected, 1024);
}

#[test]
fn get_xattr_gives_up_at_the_largest_capacity() {
    let obj = object();
    let mut replies = vec![handle(10)];
    let mut capacity = INITIAL_BUF_SIZE;
    let mut attempts = 0;
    loop {
        replies.push(handle(20));
        match obj.get_xattr("user.a", &replies) {
            Step::Call(call) => assert_eq!(call.size, capacity),
            other => panic!("unexpected: {:?}", other),
        }
        replies.push(ok());
        replies.push(overflow());
        attempts += 1;
        match obj.get_xattr("user.a", &replies) {
            Step::Call(call) => {
                assert_eq!(call.op, Op::CreateCompletion);
                capacity *= 2;
            }
            Step::Done(Err(Error::OtherError(message))) => {
                assert_eq!(message, "attribute value too large");
                break;
            }
            other => panic!("unexpected: {:?}", other),
        }
    }
    assert_eq!(capacity, MAX_BUF_SIZE);
    assert_eq!(attempts, 21);
}

#[test]
fn get_xattr_tells_overflow_by_the_code_not_by_the_text() {
    let obj = object();
    let garbled = Reply { code: -34, message: vec![0xff], ..Reply::default() };
    let replies = [handle(10), handle(20), ok(), garbled, handle(21)];
    match obj.get_xattr("user.a", &replies[..4]) {
        Step::Call(call) => assert_eq!(call.op, Op::CreateCompletion),
        other => panic!("unexpected: {:?}", other),
    }
    match obj.get_xattr("user.a", &replies) {
        Step::Call(call) => {
            assert_eq!(call.op, Op::GetXattr);
            assert_eq!(call.size, 128);
        }
        other => panic!("unexpected: {:?}", other),
    }
    let misnamed = Reply {
        code: -2,
        message: b"Numerical result out of range".to_vec(),
        ..Reply::default()
    };
    assert!(matches!(
        obj.get_xattr("user.a", &[handle(10), handle(20), ok(), misnamed]),
        Step::Done(Err(Error::RadosError((-2, _))))
    ));
}

#[test]
fn get_xattr_does_not_retry_other_errors() {
    let obj = object();
    let replies = [handle(10), handle(20), ok(), refused(-61, "No data available")];
    match obj.get_xattr("user.a", &replies) {
        Step::Done(Err(Error::RadosError((code, message)))) => {
            assert_eq!(code, -61);
            assert_eq!(message, "No data available");
        }
        other => panic!("unexpected: {:?}", other),
    }
    // an error whose text cannot be read keeps its code
    let garbled = Reply { code: -61, message: vec![0xff], ..Reply::default() };
    match obj.get_xattr("user.a", &[handle(10), handle(20), ok(), garbled]) {
        Step::Done(Err(Error::RadosError((code, message)))) => {
            assert_eq!(code, -61);
            assert_eq!(message, "\u{fffd}");
        }
        other => panic!("unexpected: {:?}", other),
    }
    // a submission that overflows is an error, not a reason to grow
    assert!(matches!(
        obj.get_xattr("user.a", &[handle(10), handle(20), overflow()]),
        Step::Done(Err(Error::RadosError((-34, _))))
    ));
}

#[test]
fn set_xattr_hands_over_name_and_value() {
    let obj = object();
    match obj.set_xattr("user.a", b"value", &[handle(10), handle(20)]) {
        Step::Call(call) => {
            assert_eq!(call.op, Op::SetXattr);
            assert_eq!(call.handle, 10);
            assert_eq!(call.completion, 20);
            assert_eq!(call.key, b"obj\0");
            assert_eq!(call.name, b"user.a\0");
            assert_eq!(call.data, b"value");
        }
        other => panic!("unexpected: {:?}", other),
    }
    assert!(matches!(
        obj.set_xattr("user.a", b"value", &[handle(10), handle(20), ok(), ok()]),
        Step::Done(Ok(()))
    ));
}

#[test]
fn get_xattrs_opens_the_iterator_and_drains_it() {
    let obj = object();
    match obj.get_xattrs(&[handle(10), handle(20)]) {
        Step::Call(call) => {
            assert_eq!(call.op, Op::GetXattrs);
            assert_eq!(call.key, b"obj\0");
        }
        other => panic!("unexpected: {:?}", other),
    }
    let mut replies = vec![handle(10), handle(20), ok(), handle(30)];
    match obj.get_xattrs(&replies) {
        Step::Call(call) => {
            assert_eq!(call.op, Op::XattrsNext);
            assert_eq!(call.handle, 30);
        }
        other => panic!("unexpected: {:?}", other),
    }
    replies.push(Reply { name: b"user.a".to_vec(), data: b"1".to_vec(), ..Reply::default() });
    assert!(matches!(obj.get_xattrs(&replies), Step::Call(_)));
    replies.push(ok());
    match obj.get_xattrs(&replies) {
        Step::Done(Ok(xattrs)) => {
            assert_eq!(xattrs.iter(), &vec![("user.a".to_string(), b"1".to_vec())]);
        }
        other => panic!("unexpected: {:?}", other),
    }
    // without an iterator there is nothing to drain
    match obj.get_xattrs(&[handle(10), handle(20), ok(), ok()]) {
        Step::Done(Ok(xattrs)) => assert!(xattrs.iter().is_empty()),
        other => panic!("unexpected: {:?}", other),
    }
}
