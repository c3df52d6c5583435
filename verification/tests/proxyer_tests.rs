use hbproxy::entity::ProxyLimit;
use hbproxy::proxyer::{Proxyer, ProxyerCfg, PumpDir, RateGate, PROXY_BUF_SIZE_MAX,
    READ_CHUNK_SIZE};

fn plain() -> Proxyer {
    Proxyer::new(ProxyerCfg { ids: "edge1:80".to_string(), limit: None })
}

#[test]
fn pump_round_trip_in_order() {
    let mut p = plain();
    // Bytes written into the front come out of the back side, byte for
    // byte and in order, whatever the chunking.
    p.read1(b"GET".to_vec());
    p.read1(b" /".to_vec());
    p.read1(b"\r\n".to_vec());
    let mut out: Vec<u8> = Vec::new();
    while let Some(chunk) = p.write2() {
        out.extend_from_slice(&chunk);
    }
    assert_eq!(out, b"GET /\r\n".to_vec());
    // And the reverse direction independently.
    p.read2(b"HTTP/1.1 200 OK".to_vec());
    let (chunk, pause) = p.write1();
    assert_eq!(chunk, Some(b"HTTP/1.1 200 OK".to_vec()));
    assert!(!pause);
    assert_eq!(p.write1().0, None);
}

#[test]
fn pump_drains_after_half_close() {
    let mut d = PumpDir::new();
    d.push_chunk(b"tail".to_vec());
    d.end_read();
    // Reading ended, but the buffered bytes are still owed.
    assert!(!d.writer_done());
    assert_eq!(d.pull_chunk(), Some(b"tail".to_vec()));
    assert!(d.writer_done());
    assert_eq!(d.pull_chunk(), None);
}

#[test]
fn pump_backpressure_mark() {
    let mut d = PumpDir::new();
    let chunk = vec![7u8; READ_CHUNK_SIZE];
    let mut pushed = 0;
    while d.can_accept() {
        d.push_chunk(chunk.clone());
        pushed += READ_CHUNK_SIZE;
    }
    // The reader stops within one chunk of the high-water mark.
    assert!(pushed > PROXY_BUF_SIZE_MAX);
    assert!(pushed <= PROXY_BUF_SIZE_MAX + READ_CHUNK_SIZE);
}

#[test]
fn rate_gate_window() {
    // 100 KB/s gives a 10240-byte budget per 100 ms window.
    let mut g = RateGate::new(100);
    assert_eq!(g.budget, 100 * 1024 / 10);
    assert!(!g.note(10000));
    // The chunk that reaches the budget pauses the reader and the next
    // window starts at zero.
    assert!(g.note(240));
    assert_eq!(g.count, 0);
    assert!(!g.note(1));
    // Within one window the counted bytes stay under budget + chunk.
    assert!(g.count + READ_CHUNK_SIZE < g.budget + READ_CHUNK_SIZE);
    // A zero limit never pauses.
    let mut free = RateGate::new(0);
    assert!(!free.note(10240));
    assert!(!free.note(10240));
}

#[test]
fn limited_relay_gates_both_sides() {
    let mut p = Proxyer::new(ProxyerCfg {
        ids: "edge1:80".to_string(),
        limit: Some(ProxyLimit { up: 1, down: 1 }),
    });
    // Budget: 1 KB/s -> 102 bytes per window.
    let pause = p.read1(vec![1u8; 102]);
    assert!(pause);
    let pause = p.read1(vec![1u8; 10]);
    assert!(!pause);
    p.read2(vec![2u8; 102]);
    let (chunk, pause) = p.write1();
    assert_eq!(chunk.unwrap().len(), 102);
    assert!(pause);
}
