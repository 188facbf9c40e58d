use ethernet_driver::tx::{TxConfig, TxDevice};

fn ring_of(depth: usize) -> TxDevice {
    TxDevice::new(TxConfig {
        number_of_descriptors: depth,
    })
}

#[test]
fn fresh_ring_is_all_software_owned() {
    let tx = ring_of(4);
    assert!(tx.descriptor_available());
    assert_eq!(tx.next_descriptor, 0);
    assert_eq!(tx.pending_packets(), 0);
    for i in 0..4 {
        let d = tx.descriptor_at(i);
        assert!(!d.own);
        assert_eq!(d.end_of_ring, i == 3);
        assert!(!tx.has_buffer(i));
    }
}

#[test]
fn wraparound_blocks_until_completion() {
    let mut tx = ring_of(4);
    for k in 0..4u8 {
        assert!(tx.descriptor_available());
        tx.insert(vec![k; 3]);
    }
    assert_eq!(tx.next_descriptor, 0);
    assert_eq!(tx.pending_packets(), 4);
    // the fifth insert would block here: slot 0 is still hardware-owned
    assert!(!tx.descriptor_available());
    // a simulated completion frees slot 0
    tx.dma_complete(0);
    assert!(tx.descriptor_available());
    tx.insert(vec![9; 3]);
    // the cursor is back at 1 (mod 4)
    assert_eq!(tx.next_descriptor, 1);
    assert!(tx.descriptor_at(0).own);
}

#[test]
fn cleanup_is_idempotent() {
    let mut tx = ring_of(4);
    tx.insert(vec![1, 2, 3]);
    tx.insert(vec![4, 5, 6]);
    assert_eq!(tx.pending_packets(), 2);
    tx.dma_complete(0);
    tx.dma_complete(1);
    // the first pass frees both completed buffers
    tx.cleanup();
    assert_eq!(tx.pending_packets(), 0);
    assert!(!tx.has_buffer(0) && !tx.has_buffer(1));
    // the second pass, with no new completions in between, frees nothing
    tx.cleanup();
    assert_eq!(tx.pending_packets(), 0);
}

#[test]
fn insert_runs_a_cleanup_pass() {
    let mut tx = ring_of(4);
    tx.insert(vec![1]);
    assert!(tx.has_buffer(0));
    tx.dma_complete(0);
    // the buffer of the completed slot is released by the next insert
    tx.insert(vec![2]);
    assert!(!tx.has_buffer(0));
    assert!(tx.has_buffer(1));
    assert_eq!(tx.pending_packets(), 1);
}

#[test]
fn front_of_queue_is_descriptor_zero() {
    let tx = ring_of(4);
    let first = tx.front_of_queue().read();
    assert_eq!(first, tx.descriptor_at(0));
    assert!(!first.end_of_ring);
}

#[test]
fn default_transmit_config() {
    let config = TxConfig::default();
    assert_eq!(config.number_of_descriptors, 64);
    let tx = TxDevice::new(config);
    assert!(tx.descriptor_at(63).end_of_ring);
}
