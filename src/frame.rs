//! The wire frame: a `RobotState` laid out as fifteen bytes between a header
//! and a tail marker.

use vstd::prelude::*;

verus! {

/// First byte of every frame.
pub const HEADER: u8 = 253;

/// Last byte of every frame.
pub const TAIL: u8 = 254;

/// Exact length of a frame in bytes.
pub const FRAME_LEN: usize = 15;

/// One snapshot of the controller: six joints, three digital inputs, three
/// digital outputs and a speed.
#[derive(Clone, Copy, Debug, PartialEq, Eq, Structural)]
pub struct RobotState {
    pub joint_1: u8,
    pub joint_2: u8,
    pub joint_3: u8,
    pub joint_4: u8,
    pub joint_5: u8,
    pub joint_6: u8,
    pub digital_input_1: bool,
    pub digital_input_2: bool,
    pub digital_input_3: bool,
    pub digital_output_1: bool,
    pub digital_output_2: bool,
    pub digital_output_3: bool,
    pub robot_speed: u8,
}

/// Why a sequence of bytes is not a frame.
#[derive(Clone, Copy, Debug, PartialEq, Eq, Structural)]
pub enum FrameFault {
    WrongLength,
    BadHeader,
    BadTail,
}

/// The byte that carries a flag on the wire.
pub open spec fn flag_byte(b: bool) -> u8 {
    if b { 1 } else { 0 }
}

/// The frame that carries `s`.
pub open spec fn encode_spec(s: RobotState) -> Seq<u8> {
    seq![
        HEADER,
        s.joint_1,
        s.joint_2,
        s.joint_3,
        s.joint_4,
        s.joint_5,
        s.joint_6,
        flag_byte(s.digital_input_1),
        flag_byte(s.digital_input_2),
        flag_byte(s.digital_input_3),
        flag_byte(s.digital_output_1),
        flag_byte(s.digital_output_2),
        flag_byte(s.digital_output_3),
        s.robot_speed,
        TAIL,
    ]
}

/// The state read off the payload positions of `b`; a flag is set iff its
/// byte is non-zero.
pub open spec fn state_of(b: Seq<u8>) -> RobotState {
    RobotState {
        joint_1: b[1],
        joint_2: b[2],
        joint_3: b[3],
        joint_4: b[4],
        joint_5: b[5],
        joint_6: b[6],
        digital_input_1: b[7] != 0,
        digital_input_2: b[8] != 0,
        digital_input_3: b[9] != 0,
        digital_output_1: b[10] != 0,
        digital_output_2: b[11] != 0,
        digital_output_3: b[12] != 0,
        robot_speed: b[13],
    }
}

/// What decoding `b` gives: length first, then header, then tail.
pub open spec fn decode_spec(b: Seq<u8>) -> Result<RobotState, FrameFault> {
    if b.len() != FRAME_LEN {
        Err(FrameFault::WrongLength)
    } else if b[0] != HEADER {
        Err(FrameFault::BadHeader)
    } else if b[14] != TAIL {
        Err(FrameFault::BadTail)
    } else {
        Ok(state_of(b))
    }
}

fn flag_to_byte(b: bool) -> (r: u8)
    ensures
        r == flag_byte(b),
{
    if b {
        1
    } else {
        0
    }
}

/// Lays `state` out as a frame.
pub fn encode(state: &RobotState) -> (r: Vec<u8>)
    ensures
        r@ == encode_spec(*state),
{
    let r = vec![
        HEADER,
        state.joint_1,
        state.joint_2,
        state.joint_3,
        state.joint_4,
        state.joint_5,
        state.joint_6,
        flag_to_byte(state.digital_input_1),
        flag_to_byte(state.digital_input_2),
        flag_to_byte(state.digital_input_3),
        flag_to_byte(state.digital_output_1),
        flag_to_byte(state.digital_output_2),
        flag_to_byte(state.digital_output_3),
        state.robot_speed,
        TAIL,
    ];
    assert(r@ =~= encode_spec(*state));
    r
}

/// Reads a state back from a frame, or says why `bytes` is not one.
pub fn decode(bytes: &[u8]) -> (r: Result<RobotState, FrameFault>)
    ensures
        r == decode_spec(bytes@),
{
    if bytes.len() != FRAME_LEN {
        return Err(FrameFault::WrongLength);
    }
    if bytes[0] != HEADER {
        return Err(FrameFault::BadHeader);
    }
    if bytes[14] != TAIL {
        return Err(FrameFault::BadTail);
    }
    Ok(RobotState {
        joint_1: bytes[1],
        joint_2: bytes[2],
        joint_3: bytes[3],
        joint_4: bytes[4],
        joint_5: bytes[5],
        joint_6: bytes[6],
        digital_input_1: bytes[7] != 0,
        digital_input_2: bytes[8] != 0,
        digital_input_3: bytes[9] != 0,
        digital_output_1: bytes[10] != 0,
        digital_output_2: bytes[11] != 0,
        digital_output_3: bytes[12] != 0,
        robot_speed: bytes[13],
    })
}

/// Decoding the frame of any state gives that state back.
pub proof fn lemma_round_trip(s: RobotState)
    ensures
        decode_spec(encode_spec(s)) == Ok::<RobotState, FrameFault>(s),
{
    let e = encode_spec(s);
    assert(e.len() == FRAME_LEN);
    assert(state_of(e) == s);
}

/// Any byte sequence whose length is not that of a frame is refused for its
/// length.
pub proof fn lemma_wrong_length(b: Seq<u8>)
    requires
        b.len() != FRAME_LEN,
    ensures
        decode_spec(b) == Err::<RobotState, FrameFault>(FrameFault::WrongLength),
{
}

/// Fifteen bytes that do not start with the header are refused for the
/// header; fifteen that do, but do not end with the tail, for the tail.
pub proof fn lemma_markers(b: Seq<u8>)
    requires
        b.len() == FRAME_LEN,
    ensures
        b[0] != HEADER ==> decode_spec(b) == Err::<RobotState, FrameFault>(FrameFault::BadHeader),
        b[0] == HEADER && b[14] != TAIL ==> decode_spec(b) == Err::<RobotState, FrameFault>(
            FrameFault::BadTail,
        ),
{
}

} // verus!
