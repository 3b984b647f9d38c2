use detour::detour::{fragmentate, is_hello, Detour, DetourState, WriteOutcome, WriteStep};

/// The 20-byte record from the concrete splitting scenario: a declared
/// payload length of 15 and fifteen 0x41 payload bytes.
fn record20() -> Vec<u8> {
    let mut b = vec![0x16, 0x03, 0x01, 0x00, 0x0F];
    for _ in 0..15 {
        b.push(0x41);
    }
    b
}

/// A 20-byte buffer the write path detects as a ClientHello: its first
/// payload byte is the handshake type 0x01.
fn hello20() -> Vec<u8> {
    let mut b = vec![0x16, 0x03, 0x01, 0x00, 0x0F, 0x01];
    for _ in 0..14 {
        b.push(0x41);
    }
    b
}

/// First fragment of `hello20`: seven payload bytes.
fn expected_f1() -> Vec<u8> {
    let mut f = vec![0x16, 0x03, 0x01, 0x00, 0x07, 0x01];
    for _ in 0..6 {
        f.push(0x41);
    }
    f
}

/// Second fragment of `hello20`: the remaining eight payload bytes.
fn expected_f2() -> Vec<u8> {
    let mut f = vec![0x16, 0x03, 0x01, 0x00, 0x08];
    for _ in 0..8 {
        f.push(0x41);
    }
    f
}

#[test]
fn detects_client_hello() {
    assert!(is_hello(&[0x16, 0x03, 0x01, 0x00, 0x02, 0x01]));
    assert!(!is_hello(&[]));
    assert!(!is_hello(&[0x16, 0x03, 0x01, 0x00, 0x02]));
    assert!(!is_hello(&[0x17, 0x03, 0x01, 0x00, 0x02, 0x01]));
    assert!(!is_hello(&[0x16, 0x03, 0x01, 0x00, 0x02, 0x02]));
}

#[test]
fn bisection_concrete_values() {
    let b = record20();
    let plan = fragmentate(&b);
    assert_eq!(plan.len(), 2);
    let mut f1 = vec![0x16, 0x03, 0x01, 0x00, 0x07];
    for _ in 0..7 {
        f1.push(0x41);
    }
    let mut f2 = vec![0x16, 0x03, 0x01, 0x00, 0x08];
    for _ in 0..8 {
        f2.push(0x41);
    }
    assert_eq!(plan[0], f1);
    assert_eq!(plan[0].len(), 12);
    assert_eq!(plan[1], f2);
    assert_eq!(plan[1].len(), 13);
    assert_eq!(plan[0].len() + plan[1].len(), 25);
}

#[test]
fn fragments_are_valid_records() {
    // An uneven, larger record: payload of 101 bytes, values 0..100.
    let mut b = vec![0x16, 0x03, 0x03, 0x00, 0x65, 0x01];
    for i in 1..101u8 {
        b.push(i);
    }
    let plan = fragmentate(&b);
    assert_eq!(plan.len(), 2);
    let f1 = &plan[0];
    let f2 = &plan[1];
    // Headers copy content type and version from the original.
    assert_eq!(&f1[0..3], &b[0..3]);
    assert_eq!(&f2[0..3], &b[0..3]);
    // Length fields match each fragment's own payload.
    let l1 = ((f1[3] as usize) << 8) | f1[4] as usize;
    let l2 = ((f2[3] as usize) << 8) | f2[4] as usize;
    assert_eq!(l1, f1.len() - 5);
    assert_eq!(l2, f2.len() - 5);
    // The payloads concatenate back to the original payload.
    let mut payload = f1[5..].to_vec();
    payload.extend_from_slice(&f2[5..]);
    assert_eq!(payload, b[5..].to_vec());
    assert_eq!(payload.len(), b.len() - 5);
}

#[test]
fn small_hello_passes_unmodified() {
    // 11 bytes: too small to bisect, kept as one degenerate fragment.
    let b = vec![0x16, 0x03, 0x01, 0x00, 0x06, 0x01, 0x02, 0x03, 0x04, 0x05, 0x06];
    let plan = fragmentate(&b);
    assert_eq!(plan.len(), 1);
    assert_eq!(plan[0], b);
    // 12 bytes: the smallest record that is bisected.
    let b = vec![0x16, 0x03, 0x01, 0x00, 0x07, 0x01, 0x02, 0x03, 0x04, 0x05, 0x06, 0x07];
    let plan = fragmentate(&b);
    assert_eq!(plan.len(), 2);
    assert_eq!(plan[0].len(), 5 + 3);
    assert_eq!(plan[1].len(), 5 + 4);
}

#[test]
fn passthrough_for_ordinary_writes() {
    let mut d = Detour::new(());
    let b = vec![0x17, 0x03, 0x03, 0x00, 0x01, 0x42];
    match d.write_begin(&b) {
        WriteStep::Forward => {}
        _ => panic!("an ordinary record must be forwarded unchanged"),
    }
    assert!(matches!(d.state, DetourState::Normal));
}

#[test]
fn interception_reports_not_ready_first() {
    let mut d = Detour::new(());
    let b = hello20();
    match d.write_begin(&b) {
        WriteStep::Captured => {}
        _ => panic!("the first ClientHello write must suspend without writing"),
    }
    assert!(matches!(d.state, DetourState::Sending { .. }));
}

/// Drive a full fragmented write where the raw stream accepts everything it
/// is offered, recording what it receives; the caller must be told exactly
/// the original length was consumed.
#[test]
fn consumed_is_original_length() {
    let b = hello20();
    let mut d = Detour::new(());
    let mut host: Vec<u8> = Vec::new();
    assert!(matches!(d.write_begin(&b), WriteStep::Captured));
    let consumed = loop {
        let chunk = match d.write_begin(&b) {
            WriteStep::Chunk(c) => c,
            _ => panic!("while sending, every write call continues the replay"),
        };
        host.extend_from_slice(&chunk);
        match d.write_advance(chunk.len()) {
            WriteOutcome::Pending => {}
            WriteOutcome::Done(n) => break n,
        }
    };
    assert_eq!(consumed, 20);
    assert_ne!(consumed, 25);
    let mut wire = expected_f1();
    wire.extend_from_slice(&expected_f2());
    assert_eq!(host, wire);
}

/// The raw stream accepts at most 3 bytes per write: the machine must keep
/// re-issuing the remainder of the same fragment before advancing, and the
/// bytes received must still reassemble to the two fragments in order.
#[test]
fn partial_writes_resume_same_fragment() {
    let b = hello20();
    let mut d = Detour::new(());
    let mut host: Vec<u8> = Vec::new();
    assert!(matches!(d.write_begin(&b), WriteStep::Captured));
    let consumed = loop {
        let chunk = match d.write_begin(&b) {
            WriteStep::Chunk(c) => c,
            _ => panic!("while sending, every write call continues the replay"),
        };
        let n = chunk.len().min(3);
        host.extend_from_slice(&chunk[..n]);
        match d.write_advance(n) {
            WriteOutcome::Pending => {}
            WriteOutcome::Done(n) => break n,
        }
    };
    assert_eq!(consumed, 20);
    let mut wire = expected_f1();
    wire.extend_from_slice(&expected_f2());
    assert_eq!(host, wire);
}

/// An error from the raw stream mid-fragment resets the machine to Normal:
/// a sentinel write afterwards behaves as fresh pass-through, and a fresh
/// ClientHello is intercepted anew rather than resuming stale fragments.
#[test]
fn error_resets_to_normal() {
    let b = hello20();
    let mut d = Detour::new(());
    assert!(matches!(d.write_begin(&b), WriteStep::Captured));
    let chunk = match d.write_begin(&b) {
        WriteStep::Chunk(c) => c,
        _ => panic!("expected the first fragment"),
    };
    // The raw stream takes two bytes, then fails.
    assert!(matches!(d.write_advance(2), WriteOutcome::Pending));
    d.write_error();
    assert!(matches!(d.state, DetourState::Normal));
    // Sentinel: an ordinary write is forwarded, not treated as a resumption.
    let sentinel = vec![0x17, 0x03, 0x03, 0x00, 0x01, 0x42];
    assert!(matches!(d.write_begin(&sentinel), WriteStep::Forward));
    // A new ClientHello starts a fresh interception from the first fragment.
    assert!(matches!(d.write_begin(&b), WriteStep::Captured));
    let fresh = match d.write_begin(&b) {
        WriteStep::Chunk(c) => c,
        _ => panic!("expected a fresh first fragment"),
    };
    assert_eq!(fresh, expected_f1());
    assert_eq!(&chunk, &fresh);
}

/// The end-to-end scenario: the ClientHello is presented in two separate
/// polling passes ("pending" first, then ready), and the mock host receives
/// the first fragment immediately followed by the second, with no
/// interleaving even though an unrelated write is attempted in between.
#[test]
fn two_pass_interception_keeps_order() {
    let b = hello20();
    let mut d = Detour::new(());
    let mut host: Vec<u8> = Vec::new();

    // Pass 1: intercepted, nothing written yet.
    assert!(matches!(d.write_begin(&b), WriteStep::Captured));
    assert!(host.is_empty());

    // Pass 2: the same buffer is presented again; the replay proceeds.
    let c1 = match d.write_begin(&b) {
        WriteStep::Chunk(c) => c,
        _ => panic!("expected the first fragment"),
    };
    host.extend_from_slice(&c1);
    assert!(matches!(d.write_advance(c1.len()), WriteOutcome::Pending));

    // A concurrently issued unrelated write cannot interleave: the machine
    // keeps replaying the captured plan.
    let unrelated = vec![0x17, 0x03, 0x03, 0x00, 0x01, 0x42];
    let c2 = match d.write_begin(&unrelated) {
        WriteStep::Chunk(c) => c,
        _ => panic!("a write during the replay must continue the replay"),
    };
    host.extend_from_slice(&c2);
    assert!(matches!(d.write_advance(c2.len()), WriteOutcome::Done(20)));

    let mut wire = expected_f1();
    wire.extend_from_slice(&expected_f2());
    assert_eq!(host, wire);
    assert!(matches!(d.state, DetourState::Normal));
}

/// The fragment cursor walks the plan in order and reports when fragments
/// remain.
#[test]
fn fragment_cursor_walks_plan() {
    let b = hello20();
    let mut frag = detour::detour::Fragment::from_whole(&b);
    assert_eq!(frag.data().unwrap(), &expected_f1());
    assert!(frag.next());
    assert_eq!(frag.data().unwrap(), &expected_f2());
    assert!(!frag.next());
    assert!(frag.data().is_none());
}
