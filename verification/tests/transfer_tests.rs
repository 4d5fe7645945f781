use empede::error::MpdError;
use empede::transfer::{BinaryTransfer, TransferStep, TRANSFER_CAP};

#[test]
fn transfer_reassembles_chunks_in_order() {
    // Three fixed-size chunks followed by the zero-length terminal
    // chunk reassemble to the exact concatenation, byte for byte.
    let c1: Vec<u8> = vec![1u8; 1024];
    let c2: Vec<u8> = vec![2u8; 1024];
    let c3: Vec<u8> = vec![3u8; 1024];
    let mut expect = Vec::new();
    expect.extend_from_slice(&c1);
    expect.extend_from_slice(&c2);
    expect.extend_from_slice(&c3);

    let mut t = BinaryTransfer::new();
    assert_eq!(t.offset(), 0);
    assert!(matches!(t.feed(Some(c1)), TransferStep::Again { offset: 1024 }));
    assert_eq!(t.offset(), 1024);
    assert!(matches!(t.feed(Some(c2)), TransferStep::Again { offset: 2048 }));
    assert!(matches!(t.feed(Some(c3)), TransferStep::Again { offset: 3072 }));
    let step = t.feed(Some(Vec::new()));
    assert!(matches!(step, TransferStep::Done));
    let data = match t.conclude(step) {
        Ok(d) => d,
        Err(_) => panic!("a terminated transfer must yield its payload"),
    };
    assert_eq!(data, expect);
}

#[test]
fn transfer_feed_all_concatenates() {
    let chunks = vec![vec![9u8, 8u8], vec![7u8], vec![6u8, 5u8, 4u8]];
    let mut t = BinaryTransfer::new();
    assert!(t.feed_all(chunks));
    assert!(matches!(t.feed(Some(Vec::new())), TransferStep::Done));
    assert_eq!(t.finish(), vec![9u8, 8u8, 7u8, 6u8, 5u8, 4u8]);
}

#[test]
fn transfer_without_payload_is_missing() {
    let mut t = BinaryTransfer::new();
    let step = t.feed(None);
    assert!(matches!(step, TransferStep::Missing));
    assert!(matches!(t.conclude(step), Err(MpdError::NotFound)));
}

#[test]
fn transfer_over_the_cap_aborts() {
    let mut t = BinaryTransfer::new();
    // A chunk longer than the whole cap can never be appended.
    let step = t.feed(Some(vec![0u8; TRANSFER_CAP + 1]));
    assert!(matches!(step, TransferStep::Aborted));
    assert_eq!(t.offset(), 0);
    assert!(matches!(t.conclude(step), Err(MpdError::Protocol)));
}

#[test]
fn transfer_empty_first_chunk_completes_empty() {
    // A server can report completion at once; the payload is then the
    // empty byte string, distinct from a missing payload.
    let mut t = BinaryTransfer::new();
    let step = t.feed(Some(Vec::new()));
    assert!(matches!(step, TransferStep::Done));
    match t.conclude(step) {
        Ok(d) => assert!(d.is_empty()),
        Err(_) => panic!("a completed transfer is not an error"),
    }
}
