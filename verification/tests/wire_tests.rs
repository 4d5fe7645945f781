use empede::wire::{request_frame, WireLog};

#[test]
fn request_frame_is_the_line_and_a_newline() {
    assert_eq!(request_frame("status"), b"status\n".to_vec());
    assert_eq!(request_frame("add \"a b.mp3\""), b"add \"a b.mp3\"\n".to_vec());
}

#[test]
fn two_frames_first_order_never_interleave() {
    // Two callers' frames reach the daemon as one frame in full
    // followed by the other in full.
    let a = request_frame("status");
    let b = request_frame("playlistinfo");
    let mut log = WireLog::new();
    log.send_frame(&a);
    log.send_frame(&b);
    let mut expect = a.clone();
    expect.extend_from_slice(&b);
    assert_eq!(log.bytes(), &expect);
}

#[test]
fn two_frames_other_order_never_interleave() {
    let a = request_frame("status");
    let b = request_frame("playlistinfo");
    let mut log = WireLog::new();
    log.send_frame(&b);
    log.send_frame(&a);
    let mut expect = b.clone();
    expect.extend_from_slice(&a);
    assert_eq!(log.bytes(), &expect);
}

#[test]
fn frame_series_lands_in_lock_order() {
    let frames = vec![
        request_frame("clear"),
        request_frame("add \"a.mp3\""),
        request_frame("play"),
    ];
    let mut log = WireLog::new();
    log.send_frames(&frames);
    assert_eq!(log.bytes(), &b"clear\nadd \"a.mp3\"\nplay\n".to_vec());
}
