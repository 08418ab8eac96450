use librados::errors::Error;
use librados::native::{Op, Reply, Step};
use librados::xattr::{RadosXattrsIter, Xattrs};

fn attr(name: &[u8], data: &[u8]) -> Reply {
    Reply { name: name.to_vec(), data: data.to_vec(), ..Reply::default() }
}

fn end() -> Reply {
    Reply::default()
}

fn drained(replies: &[Reply]) -> Vec<(String, Vec<u8>)> {
    match Xattrs::from_iter(&RadosXattrsIter::new(5), replies) {
        Step::Done(Ok(xattrs)) => xattrs.iter().clone(),
        other => panic!("unexpected: {:?}", other),
    }
}

#[test]
fn no_iterator_means_no_attributes_and_no_call() {
    match Xattrs::from_iter(&RadosXattrsIter::new(0), &[]) {
        Step::Done(Ok(xattrs)) => assert!(xattrs.iter().is_empty()),
        other => panic!("unexpected: {:?}", other),
    }
    assert!(RadosXattrsIter::new(0).release().is_none());
}

#[test]
fn the_iterator_is_advanced_until_it_hands_out_nothing() {
    let iter = RadosXattrsIter::new(5);
    match Xattrs::from_iter(&iter, &[]) {
        Step::Call(call) => {
            assert_eq!(call.op, Op::XattrsNext);
            assert_eq!(call.handle, 5);
        }
        other => panic!("unexpected: {:?}", other),
    }
    assert!(matches!(Xattrs::from_iter(&iter, &[attr(b"a", b"1")]), Step::Call(_)));
    assert!(drained(&[end()]).is_empty());
    assert_eq!(
        drained(&[attr(b"user.a", b"1"), attr(b"user.b", b"22"), end()]),
        vec![("user.a".to_string(), b"1".to_vec()), ("user.b".to_string(), b"22".to_vec())]
    );
    // what follows the end is not looked at
    assert_eq!(
        drained(&[attr(b"user.a", b"1"), end(), attr(b"user.b", b"22")]),
        vec![("user.a".to_string(), b"1".to_vec())]
    );
    // a reply without a name is the end, whatever else it carries
    assert!(drained(&[attr(b"", b"22"), attr(b"user.b", b"22")]).is_empty());
}

#[test]
fn an_attribute_with_an_empty_value_is_an_attribute() {
    assert_eq!(
        drained(&[attr(b"a", b"1"), attr(b"b", b""), attr(b"c", b"3"), end()]),
        vec![
            ("a".to_string(), b"1".to_vec()),
            ("b".to_string(), Vec::new()),
            ("c".to_string(), b"3".to_vec())
        ]
    );
    assert_eq!(drained(&[attr(b"only", b""), end()]), vec![("only".to_string(), Vec::new())]);
    // the drain goes on until it is shown the end
    assert!(matches!(
        Xattrs::from_iter(&RadosXattrsIter::new(5), &[attr(b"a", b""), attr(b"b", b"")]),
        Step::Call(_)
    ));
    // a later empty value replaces an earlier value
    assert_eq!(
        drained(&[attr(b"a", b"1"), attr(b"a", b""), end()]),
        vec![("a".to_string(), Vec::new())]
    );
}

#[test]
fn a_later_attribute_replaces_an_earlier_one_of_the_same_name() {
    let entries = drained(&[
        attr(b"a", b"1"),
        attr(b"b", b"2"),
        attr(b"a", b"3"),
        attr(b"c", b"4"),
        attr(b"b", b"5"),
        end(),
    ]);
    assert_eq!(
        entries,
        vec![
            ("a".to_string(), b"3".to_vec()),
            ("b".to_string(), b"5".to_vec()),
            ("c".to_string(), b"4".to_vec())
        ]
    );
}

#[test]
fn a_refusal_in_the_middle_ends_the_drain() {
    let no = Reply { code: -5, message: b"Input/output error".to_vec(), ..Reply::default() };
    match Xattrs::from_iter(&RadosXattrsIter::new(5), &[attr(b"a", b"1"), no, end()]) {
        Step::Done(Err(Error::RadosError((code, message)))) => {
            assert_eq!(code, -5);
            assert_eq!(message, "Input/output error");
        }
        other => panic!("unexpected: {:?}", other),
    }
}

#[test]
fn a_name_that_is_not_text_is_a_decoding_error() {
    let replies = [attr(b"a", b"1"), attr(&[b'u', 0xc3, 0x28], b"2"), end()];
    match Xattrs::from_iter(&RadosXattrsIter::new(5), &replies) {
        Step::Done(Err(Error::Utf8Error((at, bytes)))) => {
            assert_eq!(at, 1);
            assert_eq!(bytes, vec![b'u', 0xc3, 0x28]);
        }
        other => panic!("unexpected: {:?}", other),
    }
    // a name that breaks off in the middle of a character
    match Xattrs::from_iter(&RadosXattrsIter::new(5), &[attr(&[b'a', 0xe2, 0x82], b"2")]) {
        Step::Done(Err(Error::Utf8Error((at, bytes)))) => {
            assert_eq!(at, 1);
            assert_eq!(bytes, vec![b'a', 0xe2, 0x82]);
        }
        other => panic!("unexpected: {:?}", other),
    }
}

#[test]
fn the_iterator_is_given_back_by_its_handle() {
    let call = RadosXattrsIter::new(5).release().unwrap();
    assert_eq!(call.op, Op::XattrsEnd);
    assert_eq!(call.handle, 5);
}
