use librados::cluster::{parse_pool_names, Cluster, POOL_LIST_SIZE};
use librados::errors::Error;
use librados::native::{Op, Reply, Step};

fn ok() -> Reply {
    Reply::default()
}

fn ok_with(values: Vec<u64>) -> Reply {
    Reply { values, ..Reply::default() }
}

fn refused(code: i32, message: &str) -> Reply {
    Reply { code, message: message.as_bytes().to_vec(), ..Reply::default() }
}

fn listing(code: i32, data: &[u8]) -> Reply {
    Reply { code, data: data.to_vec(), ..Reply::default() }
}

fn cluster() -> Cluster {
    match Cluster::new("", "ceph", "client.admin", &[ok_with(vec![77]), ok()]) {
        Step::Done(Ok(cluster)) => cluster,
        other => panic!("unexpected: {:?}", other),
    }
}

fn names(step: Step<Vec<librados::pool::Pool>>) -> Vec<String> {
    match step {
        Step::Done(Ok(pools)) => pools.iter().map(|p| p.name().to_string()).collect(),
        other => panic!("unexpected: {:?}", other),
    }
}

#[test]
fn pool_names_end_at_the_first_empty_name() {
    assert_eq!(
        parse_pool_names(b"a\0b\0c\0\0"),
        vec![b"a".to_vec(), b"b".to_vec(), b"c".to_vec()]
    );
}

#[test]
fn pool_names_at_the_edges() {
    assert_eq!(parse_pool_names(b""), Vec::<Vec<u8>>::new());
    assert_eq!(parse_pool_names(b"\0"), Vec::<Vec<u8>>::new());
    assert_eq!(parse_pool_names(b"\0a\0"), Vec::<Vec<u8>>::new());
    assert_eq!(parse_pool_names(b"rbd\0"), vec![b"rbd".to_vec()]);
    assert_eq!(parse_pool_names(b"rbd"), vec![b"rbd".to_vec()]);
    assert_eq!(parse_pool_names(b"a\0bc"), vec![b"a".to_vec(), b"bc".to_vec()]);
    assert_eq!(parse_pool_names(b"a\0\0b\0"), vec![b"a".to_vec()]);
    assert_eq!(parse_pool_names(b"a\0b\0c\0"), vec![b"a".to_vec(), b"b".to_vec(), b"c".to_vec()]);
}

#[test]
fn bring_up_creates_configures_and_connects() {
    let step = Cluster::new("test/ceph.conf", "ceph", "client.admin", &[]);
    match step {
        Step::Call(call) => {
            assert_eq!(call.op, Op::Create);
            assert_eq!(call.key, b"ceph\0");
            assert_eq!(call.name, b"client.admin\0");
        }
        other => panic!("unexpected: {:?}", other),
    }
    match Cluster::new("test/ceph.conf", "ceph", "client.admin", &[ok_with(vec![9])]) {
        Step::Call(call) => {
            assert_eq!(call.op, Op::ReadConfig);
            assert_eq!(call.handle, 9);
            assert_eq!(call.key, b"test/ceph.conf\0");
        }
        other => panic!("unexpected: {:?}", other),
    }
    match Cluster::new("test/ceph.conf", "ceph", "client.admin", &[ok_with(vec![9]), ok()]) {
        Step::Call(call) => {
            assert_eq!(call.op, Op::Connect);
            assert_eq!(call.handle, 9);
        }
        other => panic!("unexpected: {:?}", other),
    }
    match Cluster::new("test/ceph.conf", "ceph", "client.admin", &[ok_with(vec![9]), ok(), ok()]) {
        Step::Done(Ok(cluster)) => assert_eq!(cluster.rados().ptr, 9),
        other => panic!("unexpected: {:?}", other),
    }
}

#[test]
fn bring_up_without_a_configuration_file_skips_reading_it() {
    match Cluster::new("", "ceph", "client.admin", &[ok_with(vec![9])]) {
        Step::Call(call) => assert_eq!(call.op, Op::Connect),
        other => panic!("unexpected: {:?}", other),
    }
}

#[test]
fn a_refused_configuration_file_shuts_the_handle_down() {
    let no = refused(-2, "No such file or directory");
    match Cluster::new("missing.conf", "ceph", "client.admin", &[ok_with(vec![9]), no.clone()]) {
        Step::Call(call) => {
            assert_eq!(call.op, Op::Shutdown);
            assert_eq!(call.handle, 9);
        }
        other => panic!("unexpected: {:?}", other),
    }
    match Cluster::new("missing.conf", "ceph", "client.admin", &[ok_with(vec![9]), no, ok()]) {
        Step::Done(Err(Error::RadosError((code, message)))) => {
            assert_eq!(code, -2);
            assert_eq!(message, "No such file or directory");
        }
        other => panic!("unexpected: {:?}", other),
    }
}

#[test]
fn bring_up_ends_at_the_first_refusal() {
    let no = refused(-13, "Permission denied");
    for replies in [
        vec![no.clone()],
        vec![ok_with(vec![9]), no.clone(), ok()],
        vec![ok_with(vec![9]), ok(), no.clone()],
    ] {
        match Cluster::new("test/ceph.conf", "ceph", "client.admin", &replies) {
            Step::Done(Err(Error::RadosError((code, message)))) => {
                assert_eq!(code, -13);
                assert_eq!(message, "Permission denied");
            }
            other => panic!("unexpected: {:?}", other),
        }
    }
}

#[test]
fn bring_up_refuses_names_with_a_zero_byte() {
    assert!(matches!(
        Cluster::new("conf", "ce\0ph", "us\0er", &[]),
        Step::Done(Err(Error::NulError(2)))
    ));
    assert!(matches!(
        Cluster::new("conf", "ceph", "u\0ser", &[]),
        Step::Done(Err(Error::NulError(1)))
    ));
    assert!(matches!(Cluster::new("co\0nf", "ceph", "user", &[]), Step::Call(_)));
    assert!(matches!(
        Cluster::new("co\0nf", "ceph", "user", &[ok_with(vec![9])]),
        Step::Done(Err(Error::NulError(2)))
    ));
}

#[test]
fn pool_lookup_asks_by_name_on_the_cluster_handle() {
    let cluster = cluster();
    match cluster.pool_lookup("rbd", &[]) {
        Step::Call(call) => {
            assert_eq!(call.op, Op::PoolLookup);
            assert_eq!(call.handle, 77);
            assert_eq!(call.key, b"rbd\0");
        }
        other => panic!("unexpected: {:?}", other),
    }
    match cluster.pool_lookup("rbd", &[ok()]) {
        Step::Done(Ok(pool)) => assert_eq!(pool.name(), "rbd"),
        other => panic!("unexpected: {:?}", other),
    }
    assert!(matches!(cluster.pool_lookup("r\0bd", &[]), Step::Done(Err(Error::NulError(1)))));
    assert!(matches!(cluster.pool_create("\0", &[]), Step::Done(Err(Error::NulError(0)))));
    assert!(matches!(cluster.pool_delete("ab\0", &[]), Step::Done(Err(Error::NulError(2)))));
}

#[test]
fn pool_create_looks_the_pool_up_afterwards() {
    let cluster = cluster();
    match cluster.pool_create("rbd", &[]) {
        Step::Call(call) => assert_eq!(call.op, Op::PoolCreate),
        other => panic!("unexpected: {:?}", other),
    }
    match cluster.pool_create("rbd", &[ok()]) {
        Step::Call(call) => assert_eq!(call.op, Op::PoolLookup),
        other => panic!("unexpected: {:?}", other),
    }
    match cluster.pool_create("rbd", &[ok(), refused(-2, "No such file or directory")]) {
        Step::Done(Err(Error::RadosError((code, _)))) => assert_eq!(code, -2),
        other => panic!("unexpected: {:?}", other),
    }
    match cluster.pool_create("rbd", &[ok(), ok()]) {
        Step::Done(Ok(pool)) => assert_eq!(pool.name(), "rbd"),
        other => panic!("unexpected: {:?}", other),
    }
}

#[test]
fn pool_list_parses_the_listing() {
    let cluster = cluster();
    match cluster.pool_list(&[]) {
        Step::Call(call) => {
            assert_eq!(call.op, Op::PoolList);
            assert_eq!(call.handle, 77);
            assert_eq!(call.size, POOL_LIST_SIZE);
            assert_eq!(call.size, 500);
        }
        other => panic!("unexpected: {:?}", other),
    }
    assert_eq!(names(cluster.pool_list(&[listing(7, b"a\0b\0c\0\0")])), vec!["a", "b", "c"]);
    assert_eq!(names(cluster.pool_list(&[listing(0, b"")])), Vec::<String>::new());
}

#[test]
fn pool_list_reads_no_further_than_the_reported_length() {
    let cluster = cluster();
    assert_eq!(names(cluster.pool_list(&[listing(4, b"a\0b\0c\0\0")])), vec!["a", "b"]);
    assert_eq!(names(cluster.pool_list(&[listing(3, b"a\0bcd\0")])), vec!["a", "b"]);
    assert_eq!(names(cluster.pool_list(&[listing(500, b"a\0b\0")])), vec!["a", "b"]);
}

#[test]
fn pool_list_retries_once_with_the_reported_size() {
    let cluster = cluster();
    match cluster.pool_list(&[listing(501, b"")]) {
        Step::Call(call) => {
            assert_eq!(call.op, Op::PoolList);
            assert_eq!(call.size, 501);
        }
        other => panic!("unexpected: {:?}", other),
    }
    assert_eq!(
        names(cluster.pool_list(&[listing(2000, b""), listing(6, b"xy\0z\0\0")])),
        vec!["xy", "z"]
    );
    // a listing that has grown again is not asked for a third time
    assert_eq!(
        names(cluster.pool_list(&[listing(2000, b""), listing(3000, b"xy\0z\0\0")])),
        vec!["xy", "z"]
    );
    match cluster.pool_list(&[listing(2000, b""), refused(-5, "Input/output error")]) {
        Step::Done(Err(Error::RadosError((code, _)))) => assert_eq!(code, -5),
        other => panic!("unexpected: {:?}", other),
    }
    match cluster.pool_list(&[refused(-5, "Input/output error")]) {
        Step::Done(Err(Error::RadosError((code, _)))) => assert_eq!(code, -5),
        other => panic!("unexpected: {:?}", other),
    }
}

#[test]
fn pool_names_that_are_not_text_are_read_leniently() {
    let cluster = cluster();
    assert_eq!(
        names(cluster.pool_list(&[listing(6, &[b'a', 0xff, b'b', 0, b'c', 0])])),
        vec!["a\u{fffd}b", "c"]
    );
}
