//! Frames of the Livox LiDAR protocol, read from the bytes of a datagram.
//!
//! All multi-byte fields are little-endian on the wire.

use vstd::prelude::*;
use vstd::string::StringExecFns;
use crate::clock::CuDuration;
use crate::outside::int_to_string;
use crate::text::int_text;

verus! {

/// The most points that a frame of data type 2 carries.
pub const MAX_POINTS_TYPE2: usize = 96;

/// The bytes of the header of a point cloud frame.
pub const LIDAR_HEADER_SIZE: usize = 18;

/// The bytes of one point of data type 2.
pub const POINT_TYPE2_SIZE: usize = 14;

/// The bytes of a point cloud frame of data type 2.
pub const DATA_FRAME_TYPE2_SIZE: usize = 1362;

/// The bytes of a command frame with one byte of payload.
pub const COMMAND_FRAME_SIZE: usize = 13;

/// The 16-bit word whose little-endian bytes start at `at`.
pub open spec fn le_u16(data: Seq<u8>, at: int) -> int {
    data[at] + 256 * data[at + 1]
}

/// The 32-bit word whose little-endian bytes start at `at`.
pub open spec fn le_u32(data: Seq<u8>, at: int) -> int {
    data[at] + 256 * data[at + 1] + 65536 * data[at + 2] + 16777216 * data[at + 3]
}

/// The 64-bit word whose little-endian bytes start at `at`.
pub open spec fn le_u64(data: Seq<u8>, at: int) -> int {
    le_u32(data, at) + 4294967296 * le_u32(data, at + 4)
}

/// Reads the little-endian 16-bit word at `at` in host order.
pub fn u16_endianness(data: &[u8], at: usize) -> (r: u16)
    requires
        at + 2 <= data@.len(),
    ensures
        r == le_u16(data@, at as int),
{
    data[at] as u16 + 256 * (data[at + 1] as u16)
}

/// Reads the little-endian 32-bit word at `at` in host order.
pub fn u32_endianness(data: &[u8], at: usize) -> (r: u32)
    requires
        at + 4 <= data@.len(),
    ensures
        r == le_u32(data@, at as int),
{
    data[at] as u32 + 256 * (data[at + 1] as u32) + 65536 * (data[at + 2] as u32) + 16777216 * (
    data[at + 3] as u32)
}

/// Reads the little-endian signed 32-bit word at `at` in host order.
pub fn i32_endianness(data: &[u8], at: usize) -> (r: i32)
    requires
        at + 4 <= data@.len(),
    ensures
        r == le_u32(data@, at as int) as u32 as i32,
{
    #[verifier::truncate]
    (u32_endianness(data, at) as i32)
}

/// Reads the little-endian 64-bit word at `at` in host order.
pub fn u64_endianness(data: &[u8], at: usize) -> (r: u64)
    requires
        at + 8 <= data@.len(),
    ensures
        r == le_u64(data@, at as int),
{
    let len = data.len();
    assert(at + 8 <= len);
    u32_endianness(data, at) as u64 + 4294967296 * (u32_endianness(data, at + 4) as u64)
}

/// What is wrong with a frame.
#[derive(Debug)]
pub enum LivoxError {
    /// The bytes are no frame of the expected kind.
    InvalidFrame(String),
    /// The frame's timestamp cannot be used.
    InvalidTimestamp(String),
}

/// The text of a [`LivoxError`].
pub open spec fn livox_error_text(e: LivoxError) -> Seq<char> {
    match e {
        LivoxError::InvalidFrame(msg) => "Invalid frame: "@ + msg@,
        LivoxError::InvalidTimestamp(msg) => "Invalid timestamp: "@ + msg@,
    }
}

impl LivoxError {
    /// The error as a sentence.
    pub fn message(&self) -> (s: String)
        ensures
            s@ == livox_error_text(*self),
    {
        match self {
            LivoxError::InvalidFrame(msg) => {
                let mut s = String::from_str("Invalid frame: ");
                s.append(msg.as_str());
                s
            },
            LivoxError::InvalidTimestamp(msg) => {
                let mut s = String::from_str("Invalid timestamp: ");
                s.append(msg.as_str());
                s
            },
        }
    }
}

/// The upper-case character of one hexadecimal digit.
pub open spec fn hex_char(d: int) -> char
    recommends
        0 <= d < 16,
{
    if d == 0 {
        '0'
    } else if d == 1 {
        '1'
    } else if d == 2 {
        '2'
    } else if d == 3 {
        '3'
    } else if d == 4 {
        '4'
    } else if d == 5 {
        '5'
    } else if d == 6 {
        '6'
    } else if d == 7 {
        '7'
    } else if d == 8 {
        '8'
    } else if d == 9 {
        '9'
    } else if d == 10 {
        'A'
    } else if d == 11 {
        'B'
    } else if d == 12 {
        'C'
    } else if d == 13 {
        'D'
    } else if d == 14 {
        'E'
    } else {
        'F'
    }
}

/// A byte in upper-case hexadecimal, at least two characters wide: a single
/// digit stands after a space.
pub open spec fn hex2_text(b: u8) -> Seq<char> {
    if b < 16 {
        seq![' ', hex_char(b as int)]
    } else {
        seq![hex_char(b as int / 16), hex_char(b as int % 16)]
    }
}

/// One hexadecimal digit in upper case.
fn hex_digit(d: u8) -> (s: &'static str)
    requires
        d < 16,
    ensures
        s@ == seq![hex_char(d as int)],
{
    proof {
        reveal_strlit("0");
        reveal_strlit("1");
        reveal_strlit("2");
        reveal_strlit("3");
        reveal_strlit("4");
        reveal_strlit("5");
        reveal_strlit("6");
        reveal_strlit("7");
        reveal_strlit("8");
        reveal_strlit("9");
        reveal_strlit("A");
        reveal_strlit("B");
        reveal_strlit("C");
        reveal_strlit("D");
        reveal_strlit("E");
        reveal_strlit("F");
    }
    let s = if d == 0 {
        "0"
    } else if d == 1 {
        "1"
    } else if d == 2 {
        "2"
    } else if d == 3 {
        "3"
    } else if d == 4 {
        "4"
    } else if d == 5 {
        "5"
    } else if d == 6 {
        "6"
    } else if d == 7 {
        "7"
    } else if d == 8 {
        "8"
    } else if d == 9 {
        "9"
    } else if d == 10 {
        "A"
    } else if d == 11 {
        "B"
    } else if d == 12 {
        "C"
    } else if d == 13 {
        "D"
    } else if d == 14 {
        "E"
    } else {
        "F"
    };
    assert(s@ =~= seq![hex_char(d as int)]);
    s
}

/// Writes a byte in upper-case hexadecimal, at least two characters wide.
pub fn hex2(b: u8) -> (s: String)
    ensures
        s@ == hex2_text(b),
{
    proof {
        reveal_strlit(" ");
    }
    let mut s = if b < 16 {
        String::from_str(" ")
    } else {
        String::from_str(hex_digit(b / 16))
    };
    s.append(hex_digit(b % 16));
    assert(s@ =~= hex2_text(b));
    s
}

/// The header of a command frame.
#[derive(Debug, Clone, Copy, PartialEq, Eq, Structural)]
pub struct CommandHeader {
    /// Start of frame.
    pub sof: u8,
    /// Protocol version.
    pub version: u8,
    /// Frame length.
    pub length: u16,
    /// Command type.
    pub cmd_type: u8,
    /// Frame sequence number.
    pub seq_num: u8,
    /// Frame header checksum.
    pub crc_16: u16,
}

/// The header that `data` holds in its first eight bytes.
pub open spec fn command_header_of(data: Seq<u8>) -> CommandHeader {
    CommandHeader {
        sof: data[0],
        version: data[1],
        length: le_u16(data, 2) as u16,
        cmd_type: data[4],
        seq_num: data[5],
        crc_16: le_u16(data, 6) as u16,
    }
}

/// The text that describes a command header.
pub open spec fn command_header_text(h: CommandHeader) -> Seq<char> {
    "Magic: "@ + hex2_text(h.sof) + hex2_text(h.version) + "Frame: length "@ + int_text(
        h.length as int,
    ) + ", cmd_type"@ + hex2_text(h.cmd_type)
}

impl CommandHeader {
    /// A line that describes the header.
    pub fn debug_string(&self) -> (s: String)
        ensures
            s@ == command_header_text(*self),
    {
        let mut s = String::from_str("Magic: ");
        s.append(hex2(self.sof).as_str());
        s.append(hex2(self.version).as_str());
        s.append("Frame: length ");
        s.append(int_to_string(self.length as i128).as_str());
        s.append(", cmd_type");
        s.append(hex2(self.cmd_type).as_str());
        s
    }
}

/// A command frame with one byte of payload.
#[derive(Debug, Clone, Copy, PartialEq, Eq, Structural)]
pub struct CommandFrame {
    pub header: CommandHeader,
    pub date: u8,
    pub crc_32: u32,
}

/// The command frame that `data` holds in its first thirteen bytes.
pub open spec fn command_frame_of(data: Seq<u8>) -> CommandFrame {
    CommandFrame {
        header: command_header_of(data),
        date: data[8],
        crc_32: le_u32(data, 9) as u32,
    }
}

impl CommandFrame {
    /// Reads a command frame from exactly thirteen bytes.
    pub fn from_bytes(data: &[u8]) -> (r: Option<CommandFrame>)
        ensures
            r == if data@.len() == COMMAND_FRAME_SIZE {
                Some(command_frame_of(data@))
            } else {
                None
            },
    {
        if data.len() != COMMAND_FRAME_SIZE {
            return None;
        }
        Some(
            CommandFrame {
                header: CommandHeader {
                    sof: data[0],
                    version: data[1],
                    length: u16_endianness(data, 2),
                    cmd_type: data[4],
                    seq_num: data[5],
                    crc_16: u16_endianness(data, 6),
                },
                date: data[8],
                crc_32: u32_endianness(data, 9),
            },
        )
    }
}

/// The header of a point cloud frame.
#[derive(Debug, Clone, Copy, PartialEq, Eq, Structural)]
pub struct LidarHeader {
    pub version: u8,
    pub slot_id: u8,
    pub lidar_id: u8,
    pub reserved: u8,
    pub status_code: u32,
    pub timestamp_type: u8,
    pub data_type: u8,
    pub timestamp: u64,
}

/// The header that `data` holds in its first eighteen bytes.
pub open spec fn lidar_header_of(data: Seq<u8>) -> LidarHeader {
    LidarHeader {
        version: data[0],
        slot_id: data[1],
        lidar_id: data[2],
        reserved: data[3],
        status_code: le_u32(data, 4) as u32,
        timestamp_type: data[8],
        data_type: data[9],
        timestamp: le_u64(data, 10) as u64,
    }
}

/// The text that describes the header of a point cloud frame.
pub open spec fn lidar_header_text(h: LidarHeader) -> Seq<char> {
    "Version: "@ + hex2_text(h.version) + " slot_id: "@ + hex2_text(h.slot_id) + " lidar_id: "@
        + hex2_text(h.lidar_id) + " Status: "@ + int_text(h.status_code as int) + ", ts_type"@
        + hex2_text(h.timestamp_type) + ", data_type"@ + hex2_text(h.data_type) + ", timestamp"@
        + int_text(h.timestamp as int)
}

impl LidarHeader {
    /// The frame's timestamp as a span of nanoseconds.
    pub fn timestamp(&self) -> (r: CuDuration)
        ensures
            r == CuDuration(self.timestamp),
    {
        CuDuration(self.timestamp)
    }

    /// A line that describes the header.
    pub fn debug_string(&self) -> (s: String)
        ensures
            s@ == lidar_header_text(*self),
    {
        let mut s = String::from_str("Version: ");
        s.append(hex2(self.version).as_str());
        s.append(" slot_id: ");
        s.append(hex2(self.slot_id).as_str());
        s.append(" lidar_id: ");
        s.append(hex2(self.lidar_id).as_str());
        s.append(" Status: ");
        s.append(int_to_string(self.status_code as i128).as_str());
        s.append(", ts_type");
        s.append(hex2(self.timestamp_type).as_str());
        s.append(", data_type");
        s.append(hex2(self.data_type).as_str());
        s.append(", timestamp");
        s.append(int_to_string(self.timestamp as i128).as_str());
        s
    }
}

/// One point of data type 2: cartesian coordinates in millimetres.
#[derive(Debug, Clone, Copy, PartialEq, Eq, Structural)]
pub struct PointType2 {
    pub x: i32,
    pub y: i32,
    pub z: i32,
    pub reflectivity: u8,
    pub tag: u8,
}

/// The point whose fourteen bytes start at `at`.
pub open spec fn point_of(data: Seq<u8>, at: int) -> PointType2 {
    PointType2 {
        x: le_u32(data, at) as u32 as i32,
        y: le_u32(data, at + 4) as u32 as i32,
        z: le_u32(data, at + 8) as u32 as i32,
        reflectivity: data[at + 12],
        tag: data[at + 13],
    }
}

/// The text that describes a point.
pub open spec fn point_text(p: PointType2) -> Seq<char> {
    "Point: ("@ + int_text(p.x as int) + ", "@ + int_text(p.y as int) + ", "@ + int_text(
        p.z as int,
    ) + ") reflectivity "@ + hex2_text(p.reflectivity) + " tag  "@ + hex2_text(p.tag)
}

impl PointType2 {
    /// The X coordinate in millimetres.
    pub fn x(&self) -> (mm: i32)
        ensures
            mm == self.x,
    {
        self.x
    }

    /// The Y coordinate in millimetres.
    pub fn y(&self) -> (mm: i32)
        ensures
            mm == self.y,
    {
        self.y
    }

    /// The Z coordinate in millimetres.
    pub fn z(&self) -> (mm: i32)
        ensures
            mm == self.z,
    {
        self.z
    }

    /// Checks the point against the ranges of its fields. Every point
    /// passes: no range is set for the coordinates.
    pub fn check_invariants(&self) -> (r: Result<(), LivoxError>)
        ensures
            r is Ok,
    {
        Ok(())
    }

    /// A line that describes the point.
    pub fn debug_string(&self) -> (s: String)
        ensures
            s@ == point_text(*self),
    {
        let mut s = String::from_str("Point: (");
        s.append(int_to_string(self.x as i128).as_str());
        s.append(", ");
        s.append(int_to_string(self.y as i128).as_str());
        s.append(", ");
        s.append(int_to_string(self.z as i128).as_str());
        s.append(") reflectivity ");
        s.append(hex2(self.reflectivity).as_str());
        s.append(" tag  ");
        s.append(hex2(self.tag).as_str());
        s
    }
}

/// A point cloud frame of data type 2: a header and ninety-six points.
#[derive(Debug)]
pub struct LidarFrame {
    pub header: LidarHeader,
    pub points: Vec<PointType2>,
}

/// The mathematical content of a [`LidarFrame`].
pub struct LidarFrameModel {
    pub header: LidarHeader,
    pub points: Seq<PointType2>,
}

impl View for LidarFrame {
    type V = LidarFrameModel;

    open spec fn view(&self) -> LidarFrameModel {
        LidarFrameModel { header: self.header, points: self.points@ }
    }
}

impl Clone for LidarFrame {
    fn clone(&self) -> (r: Self)
        ensures
            r@ == self@,
    {
        let points = self.points.clone();
        assert(points@ =~= self.points@);
        LidarFrame { header: self.header, points }
    }
}

/// The frame that `data` holds in its 1362 bytes.
pub open spec fn lidar_frame_of(data: Seq<u8>) -> LidarFrameModel {
    LidarFrameModel {
        header: lidar_header_of(data),
        points: Seq::new(
            MAX_POINTS_TYPE2 as nat,
            |i: int| point_of(data, LIDAR_HEADER_SIZE + POINT_TYPE2_SIZE * i),
        ),
    }
}

/// Why `data` is no point cloud frame of data type 2, or `None` where it is
/// one. The checks come in this order: version, length, data type.
pub open spec fn frame_fault(data: Seq<u8>) -> Option<Seq<char>> {
    if data.len() > 0 && data[0] != 0x05 {
        Some("Not a Livox SDK protocol V1 frame: "@ + hex2_text(data[0]))
    } else if data.len() < DATA_FRAME_TYPE2_SIZE {
        Some(
            "Frame too short: "@ + int_text(data.len() as int) + " < "@ + int_text(
                DATA_FRAME_TYPE2_SIZE as int,
            ),
        )
    } else if data.len() > DATA_FRAME_TYPE2_SIZE {
        Some(
            "Frame too long: "@ + int_text(data.len() as int) + " > "@ + int_text(
                DATA_FRAME_TYPE2_SIZE as int,
            ),
        )
    } else if data[9] != 0x02 {
        Some("Point Cloud Data Type 2 expected, received : "@ + hex2_text(data[9]))
    } else {
        None
    }
}

/// Reads a point cloud frame of data type 2 from the bytes of a datagram.
pub fn parse_frame(data: &[u8]) -> (r: Result<LidarFrame, LivoxError>)
    ensures
        match r {
            Ok(frame) => frame_fault(data@) is None && frame@ == lidar_frame_of(data@),
            Err(LivoxError::InvalidFrame(msg)) => frame_fault(data@) == Some(msg@),
            Err(LivoxError::InvalidTimestamp(_)) => false,
        },
{
    if data.len() > 0 && data[0] != 0x05 {
        let mut msg = String::from_str("Not a Livox SDK protocol V1 frame: ");
        msg.append(hex2(data[0]).as_str());
        return Err(LivoxError::InvalidFrame(msg));
    }
    if data.len() < DATA_FRAME_TYPE2_SIZE {
        let mut msg = String::from_str("Frame too short: ");
        msg.append(int_to_string(data.len() as i128).as_str());
        msg.append(" < ");
        msg.append(int_to_string(DATA_FRAME_TYPE2_SIZE as i128).as_str());
        return Err(LivoxError::InvalidFrame(msg));
    }
    if data.len() > DATA_FRAME_TYPE2_SIZE {
        let mut msg = String::from_str("Frame too long: ");
        msg.append(int_to_string(data.len() as i128).as_str());
        msg.append(" > ");
        msg.append(int_to_string(DATA_FRAME_TYPE2_SIZE as i128).as_str());
        return Err(LivoxError::InvalidFrame(msg));
    }
    let header = LidarHeader {
        version: data[0],
        slot_id: data[1],
        lidar_id: data[2],
        reserved: data[3],
        status_code: u32_endianness(data, 4),
        timestamp_type: data[8],
        data_type: data[9],
        timestamp: u64_endianness(data, 10),
    };
    if header.data_type != 0x02 {
        let mut msg = String::from_str("Point Cloud Data Type 2 expected, received : ");
        msg.append(hex2(header.data_type).as_str());
        return Err(LivoxError::InvalidFrame(msg));
    }
    let mut points: Vec<PointType2> = Vec::new();
    let mut i: usize = 0;
    while i < MAX_POINTS_TYPE2
        invariant
            i <= MAX_POINTS_TYPE2,
            data@.len() == DATA_FRAME_TYPE2_SIZE,
            points@.len() == i,
            forall|j: int|
                0 <= j < i ==> points@[j] == point_of(
                    data@,
                    LIDAR_HEADER_SIZE + POINT_TYPE2_SIZE * j,
                ),
        decreases MAX_POINTS_TYPE2 - i,
    {
        let at = LIDAR_HEADER_SIZE + POINT_TYPE2_SIZE * i;
        points.push(
            PointType2 {
                x: i32_endianness(data, at),
                y: i32_endianness(data, at + 4),
                z: i32_endianness(data, at + 8),
                reflectivity: data[at + 12],
                tag: data[at + 13],
            },
        );
        i = i + 1;
    }
    let frame = LidarFrame { header, points };
    assert(frame@.points =~= lidar_frame_of(data@).points);
    Ok(frame)
}

} // verus!
