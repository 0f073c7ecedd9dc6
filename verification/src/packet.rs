//! Binary encoding of robot commands for the serial radio link.
//!
//! Each robot occupies five bytes:
//! * byte 0: id (3 bits) | dribbler (3 bits) | kick (1 bit) | callback (1 bit, always 0)
//! * bytes 1..=3: sign bit | seven low bits of |v| for vx, vy and the angular velocity
//! * byte 4: bits 7..8 of |vx| (2 bits) | of |vy| (2 bits) | of |angular| (4 bits)
//!
//! Velocities are clamped to `[-511, 511]` before encoding.
use std::collections::HashMap;
use vstd::prelude::*;
use vstd::std_specs::hash::*;

verus! {

broadcast use vstd::std_specs::hash::group_hash_axioms;

/// The command fields the radio packet carries for one robot.
///
/// Velocities are in hundredths of a metre (or radian) per second, already
/// truncated toward zero from the floating-point command; `dribbler` is the
/// dribbler speed truncated toward zero.
#[derive(Clone, Copy, Debug, PartialEq, Eq)]
pub struct PacketCommand {
    pub vx: i32,
    pub vy: i32,
    pub angular: i32,
    pub dribbler: i32,
    pub kick_x: bool,
}

/// Largest velocity magnitude that fits the 9-bit encoding.
pub const MAX_ENCODED_VELOCITY: i32 = 511;

/// Bytes used per robot in a packet.
pub const BYTES_PER_ROBOT: usize = 5;

/// `v` clamped to `[-511, 511]`.
pub open spec fn clamp_velocity(v: int) -> int {
    if v < -511 { -511 } else if v > 511 { 511 } else { v }
}

pub open spec fn abs_int(v: int) -> int {
    if v < 0 { -v } else { v }
}

/// The three low bits of `x` (two's complement).
pub open spec fn low_bits3(x: i32) -> int {
    (x & 7i32) as int
}

/// Byte 0: id in bits 5..7, dribbler in bits 2..4, kick in bit 1, callback bit 0 clear.
pub open spec fn header_byte(id: i32, dribbler: i32, kick: bool) -> int {
    low_bits3(id) * 32 + low_bits3(dribbler) * 4 + (if kick { 2int } else { 0int })
}

/// A sign bit followed by the seven low bits of the magnitude of a clamped velocity.
pub open spec fn sign_magnitude_byte(v: int) -> int {
    (if v < 0 { 128int } else { 0int }) + abs_int(v) % 128
}

/// Byte 4: the high bits of the three clamped velocity magnitudes.
pub open spec fn high_bits_byte(vx: int, vy: int, vth: int) -> int {
    (abs_int(vx) / 128) * 64 + (abs_int(vy) / 128) * 16 + abs_int(vth) / 128
}

/// The five bytes that encode `cmd` for robot `id`.
pub open spec fn robot_bytes(id: i32, cmd: PacketCommand) -> Seq<u8> {
    let vx = clamp_velocity(cmd.vx as int);
    let vy = clamp_velocity(cmd.vy as int);
    let vth = clamp_velocity(cmd.angular as int);
    seq![
        header_byte(id, cmd.dribbler, cmd.kick_x) as u8,
        sign_magnitude_byte(vx) as u8,
        sign_magnitude_byte(vy) as u8,
        sign_magnitude_byte(vth) as u8,
        high_bits_byte(vx, vy, vth) as u8,
    ]
}

/// The slot of robot `id`: its encoded command, or five zero bytes when the
/// map holds no command for it.
pub open spec fn slot_bytes(commands: Map<i32, PacketCommand>, id: i32) -> Seq<u8> {
    if commands.contains_key(id) {
        robot_bytes(id, commands[id])
    } else {
        seq![0u8, 0u8, 0u8, 0u8, 0u8]
    }
}

/// The packet for robots `0..n`: their slots, in id order.
pub open spec fn packet_bytes(commands: Map<i32, PacketCommand>, n: nat) -> Seq<u8>
    decreases n,
{
    if n == 0 {
        Seq::empty()
    } else {
        packet_bytes(commands, (n - 1) as nat) + slot_bytes(commands, (n - 1) as i32)
    }
}

/// `v` clamped to `[-511, 511]`.
fn clamp_velocity_i32(v: i32) -> (r: i32)
    ensures
        r as int == clamp_velocity(v as int),
{
    if v < -MAX_ENCODED_VELOCITY {
        -MAX_ENCODED_VELOCITY
    } else if v > MAX_ENCODED_VELOCITY {
        MAX_ENCODED_VELOCITY
    } else {
        v
    }
}

/// The velocity a receiver reads back from a sign-and-magnitude byte and the
/// two high magnitude bits.
pub open spec fn decode_velocity(sign_magnitude: int, high: int) -> int {
    let m = high * 128 + sign_magnitude % 128;
    if sign_magnitude >= 128 { -m } else { m }
}

/// A receiver decoding the five bytes of a robot recovers the three low bits
/// of the id and of the dribbler speed, the kick flag, a clear callback bit,
/// and each velocity clamped to `[-511, 511]`.
pub proof fn lemma_robot_bytes_decode(id: i32, cmd: PacketCommand)
    ensures
        ({
            let b = robot_bytes(id, cmd);
            &&& b.len() == 5
            &&& b[0] / 32 == low_bits3(id)
            &&& (b[0] / 4) % 8 == low_bits3(cmd.dribbler)
            &&& ((b[0] / 2) % 2 == 1) == cmd.kick_x
            &&& b[0] % 2 == 0
            &&& decode_velocity(b[1] as int, b[4] as int / 64) == clamp_velocity(cmd.vx as int)
            &&& decode_velocity(b[2] as int, (b[4] as int / 16) % 4) == clamp_velocity(cmd.vy as int)
            &&& decode_velocity(b[3] as int, b[4] as int % 16) == clamp_velocity(cmd.angular as int)
        }),
{
    let d = cmd.dribbler;
    assert(0 <= id & 7i32 <= 7 && 0 <= d & 7i32 <= 7) by (bit_vector);
    let vx = clamp_velocity(cmd.vx as int);
    let vy = clamp_velocity(cmd.vy as int);
    let vth = clamp_velocity(cmd.angular as int);
    let b4 = high_bits_byte(vx, vy, vth);
    assert(b4 / 64 == abs_int(vx) / 128);
    assert((b4 / 16) % 4 == abs_int(vy) / 128);
    assert(b4 % 16 == abs_int(vth) / 128);
}

/// |v| as an unsigned integer.
fn unsigned_abs(v: i32) -> (r: u32)
    ensures
        r as int == abs_int(v as int),
{
    if v < 0 {
        (-(v as i64)) as u32
    } else {
        v as u32
    }
}

/// The sign-and-magnitude byte of a clamped velocity.
fn sign_magnitude(v: i32) -> (b: u8)
    requires
        -511 <= v <= 511,
    ensures
        b as int == sign_magnitude_byte(v as int),
{
    let m = unsigned_abs(v);
    let sign: u8 = if v < 0 { 1u8 } else { 0u8 };
    let b = (sign << 7) | (m as u8 & 0x7F);
    assert(b == sign * 128 + m % 128) by (bit_vector)
        requires
            b == (sign << 7u8) | (m as u8 & 0x7Fu8),
            sign <= 1,
            m <= 511,
    ;
    b
}

/// Encodes one robot's command into its five bytes.
fn encode_robot(id: i32, cmd: &PacketCommand) -> (bytes: [u8; 5])
    ensures
        bytes@ == robot_bytes(id, *cmd),
{
    let vx = clamp_velocity_i32(cmd.vx);
    let vy = clamp_velocity_i32(cmd.vy);
    let vth = clamp_velocity_i32(cmd.angular);
    let dribb = cmd.dribbler;
    let kick: i32 = if cmd.kick_x { 1 } else { 0 };
    let callback: i32 = 0;

    let id8 = #[verifier::truncate] (id as u8);
    let dribb8 = #[verifier::truncate] (dribb as u8);
    let kick8 = kick as u8;
    let callback8 = callback as u8;
    let b0 = ((id8 & 0x07) << 5) | ((dribb8 & 0x07) << 2) | ((kick8 & 0x01) << 1) | (callback8
        & 0x01);
    assert(id8 & 7u8 == (id & 7i32) as u8) by (bit_vector)
        requires
            id8 == id as u8,
    ;
    assert(dribb8 & 7u8 == (dribb & 7i32) as u8) by (bit_vector)
        requires
            dribb8 == dribb as u8,
    ;
    assert(0 <= id & 7i32 <= 7 && 0 <= dribb & 7i32 <= 7) by (bit_vector);
    assert(b0 == (id8 & 7) * 32 + (dribb8 & 7) * 4 + kick8 * 2) by (bit_vector)
        requires
            b0 == ((id8 & 0x07u8) << 5u8) | ((dribb8 & 0x07u8) << 2u8) | ((kick8 & 0x01u8) << 1u8)
                | (callback8 & 0x01u8),
            kick8 <= 1,
            callback8 == 0,
    ;

    let b1 = sign_magnitude(vx);
    let b2 = sign_magnitude(vy);
    let b3 = sign_magnitude(vth);

    let mx = unsigned_abs(vx);
    let my = unsigned_abs(vy);
    let mt = unsigned_abs(vth);
    let hx = #[verifier::truncate] ((mx >> 7) as u8);
    let hy = #[verifier::truncate] ((my >> 7) as u8);
    let ht = #[verifier::truncate] ((mt >> 7) as u8);
    let b4 = ((hx & 0x03) << 6) | ((hy & 0x03) << 4) | (ht & 0x0F);
    assert(b4 == (mx / 128) * 64 + (my / 128) * 16 + mt / 128) by (bit_vector)
        requires
            hx == (mx >> 7u32) as u8,
            hy == (my >> 7u32) as u8,
            ht == (mt >> 7u32) as u8,
            b4 == ((hx & 0x03u8) << 6u8) | ((hy & 0x03u8) << 4u8) | (ht & 0x0Fu8),
            mx <= 511,
            my <= 511,
            mt <= 511,
    ;

    assert(b0 as int == header_byte(id, dribb, cmd.kick_x));
    let bytes = [b0, b1, b2, b3, b4];
    assert(bytes@ =~= robot_bytes(id, *cmd));
    bytes
}

/// Serializes the commands of robots `0..num_robots` into one packet of
/// five bytes per robot; robots without a command get five zero bytes.
pub fn serialize(command_map: &HashMap<i32, PacketCommand>, num_robots: usize) -> (packet: Vec<u8>)
    requires
        num_robots <= i32::MAX,
    ensures
        packet@ == packet_bytes(command_map@, num_robots as nat),
        packet@.len() == 5 * num_robots,
{
    let mut packet: Vec<u8> = Vec::new();
    let n = num_robots as i32;
    let mut id: i32 = 0;
    while id < n
        invariant
            0 <= id <= n,
            n == num_robots,
            packet@ == packet_bytes(command_map@, id as nat),
            packet@.len() == 5 * id,
        decreases n - id,
    {
        let bytes: [u8; 5] = match command_map.get(&id) {
            Some(cmd) => encode_robot(id, cmd),
            None => [0u8; 5],
        };
        assert(bytes@ == slot_bytes(command_map@, id));
        let ghost before = packet@;
        let mut j: usize = 0;
        while j < 5
            invariant
                0 <= j <= 5,
                packet@ == before + bytes@.take(j as int),
            decreases 5 - j,
        {
            packet.push(bytes[j]);
            assert(bytes@.take(j + 1) =~= bytes@.take(j as int).push(bytes@[j as int]));
            j += 1;
        }
        assert(bytes@.take(5) =~= bytes@);
        id += 1;
    }
    packet
}

} // verus!
