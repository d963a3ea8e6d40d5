use robot_link::frame::{decode, encode, FrameFault, RobotState, FRAME_LEN, HEADER, TAIL};

fn sample() -> RobotState {
    RobotState {
        joint_1: 10,
        joint_2: 20,
        joint_3: 30,
        joint_4: 40,
        joint_5: 50,
        joint_6: 60,
        digital_input_1: false,
        digital_input_2: false,
        digital_input_3: false,
        digital_output_1: true,
        digital_output_2: false,
        digital_output_3: true,
        robot_speed: 99,
    }
}

const SAMPLE_FRAME: [u8; 15] = [253, 10, 20, 30, 40, 50, 60, 0, 0, 0, 1, 0, 1, 99, 254];

#[test]
fn encode_sample_state() {
    assert_eq!(encode(&sample()), SAMPLE_FRAME.to_vec());
}

#[test]
fn decode_sample_frame() {
    assert_eq!(decode(&SAMPLE_FRAME), Ok(sample()));
}

#[test]
fn decode_short_input_is_wrong_length() {
    assert_eq!(decode(&[1, 2, 3]), Err(FrameFault::WrongLength));
}

#[test]
fn decode_bad_header() {
    let mut bytes = SAMPLE_FRAME;
    bytes[0] = 252;
    assert_eq!(decode(&bytes), Err(FrameFault::BadHeader));
}

#[test]
fn decode_bad_tail() {
    let mut bytes = SAMPLE_FRAME;
    bytes[14] = 0;
    assert_eq!(decode(&bytes), Err(FrameFault::BadTail));
}

#[test]
fn decode_header_checked_before_tail() {
    let mut bytes = SAMPLE_FRAME;
    bytes[0] = 0;
    bytes[14] = 0;
    assert_eq!(decode(&bytes), Err(FrameFault::BadHeader));
}

#[test]
fn decode_every_other_length_is_wrong_length() {
    for len in [0usize, 1, 14, 16, 30] {
        let bytes = vec![HEADER; len];
        assert_eq!(decode(&bytes), Err(FrameFault::WrongLength), "length {}", len);
    }
}

#[test]
fn decode_nonzero_flag_bytes_are_true() {
    let bytes = [253, 0, 255, 1, 2, 3, 4, 7, 0, 200, 0, 2, 0, 255, 254];
    let s = decode(&bytes).unwrap();
    assert_eq!(s.joint_1, 0);
    assert_eq!(s.joint_2, 255);
    assert!(s.digital_input_1);
    assert!(!s.digital_input_2);
    assert!(s.digital_input_3);
    assert!(!s.digital_output_1);
    assert!(s.digital_output_2);
    assert!(!s.digital_output_3);
    assert_eq!(s.robot_speed, 255);
}

#[test]
fn encode_then_decode_gives_state_back() {
    let states = [
        sample(),
        RobotState {
            joint_1: 0,
            joint_2: 255,
            joint_3: 253,
            joint_4: 254,
            joint_5: 1,
            joint_6: 128,
            digital_input_1: true,
            digital_input_2: true,
            digital_input_3: true,
            digital_output_1: false,
            digital_output_2: true,
            digital_output_3: false,
            robot_speed: 0,
        },
    ];
    for s in states {
        let bytes = encode(&s);
        assert_eq!(bytes.len(), FRAME_LEN);
        assert_eq!(bytes[0], HEADER);
        assert_eq!(bytes[14], TAIL);
        assert_eq!(decode(&bytes), Ok(s));
    }
}
