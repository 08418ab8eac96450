use librados::errors::Error;
use librados::io::{aio_callback, AioCompletion, IoCtx, Poll, WakerCell};
use librados::native::{Op, Reply, Step};
use librados::rados::Rados;

fn token() -> AioCompletion {
    AioCompletion { ptr: 20 }
}

#[test]
fn a_context_is_opened_by_pool_name() {
    let rados = Rados { ptr: 3 };
    match IoCtx::new(&rados, "rbd", &[]) {
        Step::Call(call) => {
            assert_eq!(call.op, Op::OpenContext);
            assert_eq!(call.handle, 3);
            assert_eq!(call.key, b"rbd\0");
        }
        other => panic!("unexpected: {:?}", other),
    }
    match IoCtx::new(&rados, "rbd", &[Reply { values: vec![11], ..Reply::default() }]) {
        Step::Done(Ok(ctx)) => {
            assert_eq!(ctx.ptr, 11);
            assert_eq!(ctx.release().op, Op::DestroyContext);
            assert_eq!(ctx.release().handle, 11);
        }
        other => panic!("unexpected: {:?}", other),
    }
    assert!(matches!(IoCtx::new(&rados, "r\0bd", &[]), Step::Done(Err(Error::NulError(1)))));
    assert_eq!(rados.release().op, Op::Shutdown);
    assert_eq!(rados.release().handle, 3);
}

#[test]
fn a_token_that_cannot_be_allocated_is_a_construction_error() {
    match AioCompletion::new(&[]) {
        Step::Call(call) => assert_eq!(call.op, Op::CreateCompletion),
        other => panic!("unexpected: {:?}", other),
    }
    let no = Reply { code: -12, message: b"Cannot allocate memory".to_vec(), ..Reply::default() };
    match AioCompletion::new(&[no]) {
        Step::Done(Err(Error::RadosError((code, message)))) => {
            assert_eq!(code, -12);
            assert_eq!(message, "Cannot allocate memory");
        }
        other => panic!("unexpected: {:?}", other),
    }
    match AioCompletion::new(&[Reply { values: vec![20], ..Reply::default() }]) {
        Step::Done(Ok(comp)) => assert_eq!(comp.ptr, 20),
        other => panic!("unexpected: {:?}", other),
    }
}

#[test]
fn the_return_value_is_a_count_or_an_error() {
    let done = |code: i32| Reply { code, message: b"Input/output error".to_vec(), ..Reply::default() };
    assert!(matches!(AioCompletion::get_return_value(&done(0)), Ok(0)));
    assert!(matches!(AioCompletion::get_return_value(&done(4096)), Ok(4096)));
    assert!(matches!(
        AioCompletion::get_return_value(&done(-5)),
        Err(Error::RadosError((-5, _)))
    ));
}

#[test]
fn a_poll_of_a_finished_operation_is_ready_and_installs_nothing() {
    let mut cell: WakerCell<u32> = WakerCell::new();
    let (poll, wake) = token().poll(&mut cell, Some(5), 1);
    assert!(matches!(poll, Poll::Ready(5)));
    assert_eq!(wake, None);
    assert_eq!(aio_callback(&mut cell), None);
}

#[test]
fn a_poll_of_a_running_operation_installs_the_continuation() {
    let mut cell: WakerCell<u32> = WakerCell::new();
    let (poll, wake) = token().poll(&mut cell, None::<i32>, 1);
    assert!(matches!(poll, Poll::Pending));
    assert_eq!(wake, None);
    // the callback takes it, once
    assert_eq!(aio_callback(&mut cell), Some(1));
    assert_eq!(aio_callback(&mut cell), None);
    // woken, the task polls again and sees the result
    let (poll, wake) = token().poll(&mut cell, Some(0), 2);
    assert!(matches!(poll, Poll::Ready(0)));
    assert_eq!(wake, None);
}

#[test]
fn a_second_poll_supersedes_and_wakes_the_first_continuation() {
    let mut cell: WakerCell<u32> = WakerCell::new();
    assert_eq!(token().set_waker(&mut cell, 1), None);
    assert_eq!(token().set_waker(&mut cell, 2), Some(1));
    let (poll, wake) = token().poll(&mut cell, None::<i32>, 3);
    assert!(matches!(poll, Poll::Pending));
    assert_eq!(wake, Some(2));
    assert_eq!(aio_callback(&mut cell), Some(3));
}

#[test]
fn every_continuation_is_handed_on_once_in_each_order_of_events() {
    // the callback fires before, between and after three polls
    for fire_at in 0..4 {
        let mut cell: WakerCell<u32> = WakerCell::new();
        let mut woken: Vec<u32> = Vec::new();
        let mut installed: Vec<u32> = Vec::new();
        let mut fired = false;
        let mut results = 0;
        for step in 0..4u32 {
            if step == fire_at {
                fired = true;
                woken.extend(aio_callback(&mut cell));
            }
            if results == 0 && step < 3 {
                let finished = if fired { Some(7) } else { None };
                let (poll, wake) = token().poll(&mut cell, finished, step);
                woken.extend(wake);
                match poll {
                    Poll::Ready(value) => {
                        assert_eq!(value, 7);
                        results += 1;
                    }
                    Poll::Pending => installed.push(step),
                }
            }
        }
        assert_eq!(woken, installed, "callback at {}", fire_at);
        assert_eq!(results, if fire_at < 3 { 1 } else { 0 });
        assert_eq!(aio_callback(&mut cell), None);
    }
}

#[test]
fn a_poll_on_an_answer_that_the_callback_has_overtaken_is_woken_at_once() {
    let mut cell: WakerCell<u32> = WakerCell::new();
    // the task was told "not complete"; the operation finishes and the
    // callback runs before the task installs its continuation
    assert_eq!(aio_callback(&mut cell), None);
    assert!(cell.has_fired());
    let (poll, wake) = token().poll(&mut cell, None::<i32>, 1);
    assert!(matches!(poll, Poll::Pending));
    // the continuation comes straight back to be invoked, and the cell stays empty
    assert_eq!(wake, Some(1));
    assert_eq!(aio_callback(&mut cell), None);
    // woken, the task polls again and is told of the completion
    let (poll, wake) = token().poll(&mut cell, Some(9), 2);
    assert!(matches!(poll, Poll::Ready(9)));
    assert_eq!(wake, None);
}

#[test]
fn no_wake_is_lost_whenever_the_callback_overtakes_the_answer() {
    // the callback runs before, between and after three polls, each of
    // which acts on the answer "not complete"
    for fire_at in 0..4 {
        let mut cell: WakerCell<u32> = WakerCell::new();
        let mut woken: Vec<u32> = Vec::new();
        for step in 0..4u32 {
            if step == fire_at {
                woken.extend(aio_callback(&mut cell));
            }
            if step < 3 {
                let (poll, wake) = token().poll(&mut cell, None::<i32>, step);
                assert!(matches!(poll, Poll::Pending));
                woken.extend(wake);
            }
        }
        assert_eq!(woken, vec![0, 1, 2], "callback at {}", fire_at);
    }
}

#[test]
fn letting_go_drops_the_continuation_and_a_late_callback_finds_nothing() {
    let mut cell: WakerCell<u32> = WakerCell::new();
    let (poll, _) = token().poll(&mut cell, None::<i32>, 1);
    assert!(matches!(poll, Poll::Pending));
    let call = token().release(&mut cell);
    assert_eq!(call.op, Op::ReleaseCompletion);
    assert_eq!(call.completion, 20);
    assert!(!cell.has_fired());
    assert_eq!(aio_callback(&mut cell), None);
    assert!(cell.has_fired());
    // letting go after the callback leaves the mark where it is
    token().release(&mut cell);
    assert!(cell.has_fired());
}

#[test]
fn the_cell_hands_each_continuation_on_once() {
    let mut cell: WakerCell<&str> = WakerCell::new();
    assert!(!cell.has_fired());
    assert_eq!(token().set_waker(&mut cell, "a"), None);
    assert_eq!(token().set_waker(&mut cell, "b"), Some("a"));
    assert_eq!(aio_callback(&mut cell), Some("b"));
    assert_eq!(aio_callback(&mut cell), None);
    assert_eq!(token().set_waker(&mut cell, "c"), Some("c"));
    assert_eq!(aio_callback(&mut cell), None);
}

#[test]
fn submission_then_wait() {
    let comp = token();
    let call = librados::native::Call::on(Op::Remove, 10).with_completion(20);
    assert!(matches!(comp.submit(call.clone(), &[]), Step::Call(c) if c.op == Op::Remove));
    let ok = Reply::default();
    match comp.submit(call.clone(), &[ok.clone()]) {
        Step::Call(c) => {
            assert_eq!(c.op, Op::Await);
            assert_eq!(c.completion, 20);
        }
        other => panic!("unexpected: {:?}", other),
    }
    let answer = Reply { code: -2, values: vec![1], ..Reply::default() };
    match comp.submit(call, &[ok, answer]) {
        Step::Done(Ok(reply)) => {
            assert_eq!(reply.code, -2);
            assert_eq!(reply.value(0), 1);
            assert_eq!(reply.value(1), 0);
        }
        other => panic!("unexpected: {:?}", other),
    }
}
