use omogenexec::frame::{decode_frame, encode_frame, CommandFrame, FrameError};

fn frame(exec: &str, args: &[&str]) -> CommandFrame {
    CommandFrame {
        executable: exec.as_bytes().to_vec(),
        args: args.iter().map(|a| a.as_bytes().to_vec()).collect(),
    }
}

#[test]
fn round_trip_simple() {
    let f = frame("/bin/true", &["ignored"]);
    let enc = encode_frame(&f);
    let mut expected: Vec<u8> = vec![2];
    expected.extend_from_slice(b"/bin/true\0ignored\0");
    assert_eq!(enc, expected);
    let (g, used) = decode_frame(&enc).expect("an encoded frame must decode");
    assert_eq!(used, enc.len());
    assert_eq!(g.executable, b"/bin/true".to_vec());
    assert_eq!(g.args, vec![b"ignored".to_vec()]);
}

#[test]
fn round_trip_no_args() {
    let f = frame("/bin/sleep", &[]);
    let enc = encode_frame(&f);
    assert_eq!(enc[0], 1);
    let (g, used) = decode_frame(&enc).expect("an encoded frame must decode");
    assert_eq!(used, enc.len());
    assert_eq!(g.executable, b"/bin/sleep".to_vec());
    assert!(g.args.is_empty());
}

#[test]
fn round_trip_many_args() {
    let f = frame("/bin/sh", &["-c", "exit 7", "", "x y z"]);
    let enc = encode_frame(&f);
    let (g, used) = decode_frame(&enc).expect("an encoded frame must decode");
    assert_eq!(used, enc.len());
    assert_eq!(g.executable, b"/bin/sh".to_vec());
    assert_eq!(
        g.args,
        vec![
            b"-c".to_vec(),
            b"exit 7".to_vec(),
            b"".to_vec(),
            b"x y z".to_vec()
        ]
    );
}

#[test]
fn clean_exit_frame_bytes() {
    // The exact wire form: count byte 2, then two NUL-terminated tokens.
    let mut wire: Vec<u8> = vec![2];
    wire.extend_from_slice(b"/bin/true\0ignored\0");
    let (g, used) = decode_frame(&wire).expect("the wire frame must decode");
    assert_eq!(used, wire.len());
    assert_eq!(g.executable, b"/bin/true".to_vec());
    assert_eq!(g.args, vec![b"ignored".to_vec()]);
}

#[test]
fn two_frames_back_to_back() {
    let f1 = frame("/bin/true", &[]);
    let f2 = frame("/bin/sh", &["-c", "exit 7"]);
    let mut wire = encode_frame(&f1);
    wire.extend(encode_frame(&f2));
    let (g1, used1) = decode_frame(&wire).expect("first frame must decode");
    assert_eq!(g1.executable, b"/bin/true".to_vec());
    let (g2, used2) = decode_frame(&wire[used1..]).expect("second frame must decode");
    assert_eq!(used1 + used2, wire.len());
    assert_eq!(g2.executable, b"/bin/sh".to_vec());
    assert_eq!(g2.args, vec![b"-c".to_vec(), b"exit 7".to_vec()]);
}

#[test]
fn zero_count_rejected() {
    let wire: Vec<u8> = vec![0, b'x', 0];
    match decode_frame(&wire) {
        Err(FrameError::ZeroCount) => {}
        _ => panic!("a zero count byte must be rejected"),
    }
}

#[test]
fn empty_buffer_incomplete() {
    let wire: Vec<u8> = vec![];
    match decode_frame(&wire) {
        Err(FrameError::Incomplete) => {}
        _ => panic!("an empty buffer holds no frame yet"),
    }
}

#[test]
fn truncated_frame_incomplete() {
    let f = frame("/bin/true", &["ignored"]);
    let enc = encode_frame(&f);
    for cut in 0..enc.len() {
        match decode_frame(&enc[..cut]) {
            Err(FrameError::Incomplete) => {}
            _ => panic!("a truncated frame must ask for more input"),
        }
    }
}

#[test]
fn decode_ignores_trailing_bytes() {
    let f = frame("/bin/true", &[]);
    let mut wire = encode_frame(&f);
    let frame_len = wire.len();
    wire.extend_from_slice(b"\x02next\0frame\0");
    let (g, used) = decode_frame(&wire).expect("the first frame must decode");
    assert_eq!(used, frame_len);
    assert_eq!(g.executable, b"/bin/true".to_vec());
}

#[test]
fn empty_executable_token_round_trips() {
    let f = frame("", &[]);
    let enc = encode_frame(&f);
    assert_eq!(enc, vec![1, 0]);
    let (g, used) = decode_frame(&enc).expect("an empty token still frames");
    assert_eq!(used, 2);
    assert!(g.executable.is_empty());
}
