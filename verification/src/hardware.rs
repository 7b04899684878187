//! Hardware panel geometry, memory-size tokens and the AppleSMC message codec.
use crate::text::{chars_of, parse_u64_range, parse_u64_spec};
use vstd::prelude::*;

verus! {

/// A terminal size in cells.
#[derive(Clone, Copy, Debug, PartialEq, Eq, Structural)]
pub struct Size {
    pub width: u16,
    pub height: u16,
}

impl Size {
    pub fn new(width: u16, height: u16) -> (s: Size)
        ensures
            s.width == width,
            s.height == height,
    {
        Size { width, height }
    }
}

/// A rectangle of terminal cells.
#[derive(Clone, Copy, Debug, PartialEq, Eq, Structural)]
pub struct Rect {
    pub x: u16,
    pub y: u16,
    pub width: u16,
    pub height: u16,
}

impl Rect {
    pub fn new(x: u16, y: u16, width: u16, height: u16) -> (r: Rect)
        ensures
            r == (Rect { x, y, width, height }),
    {
        Rect { x, y, width, height }
    }
}

/// Width of the hardware panel, in cells.
pub const PANEL_WIDTH: u16 = 29;

/// The hardware panel only appears when the terminal is at least this wide.
pub const MIN_PANEL_TERMINAL_WIDTH: u16 = 110;

/// The hardware panel only appears when the terminal is at least this tall.
pub const MIN_PANEL_TERMINAL_HEIGHT: u16 = 16;

/// Where the hardware panel goes: a full-height column at the right edge,
/// or nowhere when the terminal is too small to keep the chat usable.
pub fn panel_area(size: Size) -> (r: Option<Rect>)
    ensures
        r == (if size.width >= MIN_PANEL_TERMINAL_WIDTH && size.height
            >= MIN_PANEL_TERMINAL_HEIGHT {
            Some(
                Rect {
                    x: (size.width - PANEL_WIDTH) as u16,
                    y: 0,
                    width: PANEL_WIDTH,
                    height: size.height,
                },
            )
        } else {
            None
        }),
{
    if size.width >= MIN_PANEL_TERMINAL_WIDTH && size.height >= MIN_PANEL_TERMINAL_HEIGHT {
        Some(Rect::new(size.width - PANEL_WIDTH, 0, PANEL_WIDTH, size.height))
    } else {
        None
    }
}

/// The panel never covers the chat columns: it ends exactly at the right edge
/// and leaves at least `MIN_PANEL_TERMINAL_WIDTH - PANEL_WIDTH` columns to its left.
pub proof fn lemma_panel_keeps_chat_width(size: Size)
    ensures
        panel_area_spec(size) matches Some(r) ==> r.x + r.width == size.width && r.x
            >= MIN_PANEL_TERMINAL_WIDTH - PANEL_WIDTH && r.height == size.height,
        size.width < MIN_PANEL_TERMINAL_WIDTH ==> panel_area_spec(size) is None,
{
}

pub open spec fn panel_area_spec(size: Size) -> Option<Rect> {
    if size.width >= MIN_PANEL_TERMINAL_WIDTH && size.height >= MIN_PANEL_TERMINAL_HEIGHT {
        Some(
            Rect {
                x: (size.width - PANEL_WIDTH) as u16,
                y: 0,
                width: PANEL_WIDTH,
                height: size.height,
            },
        )
    } else {
        None
    }
}

/// The multiplier of a `top` memory-size suffix.
pub open spec fn memory_scale(c: char) -> Option<u64> {
    if c == 'G' {
        Some(1_073_741_824)
    } else if c == 'M' {
        Some(1_048_576)
    } else if c == 'K' {
        Some(1024)
    } else if c == 'B' {
        Some(1)
    } else {
        None
    }
}

/// A `top` memory token such as `31G` or `2795M`, in bytes.
pub open spec fn memory_size_spec(s: Seq<char>) -> Option<u64> {
    if s.len() == 0 {
        None
    } else {
        match parse_u64_spec(s.drop_last()) {
            None => None,
            Some(value) => match memory_scale(s.last()) {
                None => None,
                Some(scale) => if value * scale <= u64::MAX {
                    Some((value * scale) as u64)
                } else {
                    None
                },
            },
        }
    }
}

/// Parses a `top` memory token such as `31G` into bytes; `None` when the number
/// is malformed, the suffix is unknown or the product does not fit in a `u64`.
pub fn memory_size(text: &str) -> (r: Option<u64>)
    requires
        text@.len() == 0 || (text@.last() as u32) < 0x80,
    ensures
        r == memory_size_spec(text@),
{
    let chars = chars_of(text);
    let n = chars.len();
    if n == 0 {
        return None;
    }
    let suffix = chars[n - 1];
    assert(chars@.subrange(0, n - 1) =~= text@.drop_last());
    let value = match parse_u64_range(&chars, 0, n - 1) {
        Some(v) => v,
        None => return None,
    };
    let scale: u64 = if suffix == 'G' {
        1_073_741_824
    } else if suffix == 'M' {
        1_048_576
    } else if suffix == 'K' {
        1024
    } else if suffix == 'B' {
        1
    } else {
        return None;
    };
    value.checked_mul(scale)
}

/// The panel is shown only in a terminal at least 110 columns wide and 16
/// rows high, as a 29-column strip along its right edge, full height.
pub proof fn lemma_panel_is_right_strip(size: Size)
    ensures
        panel_area_spec(size) is Some <==> size.width >= 110 && size.height >= 16,
        panel_area_spec(size) matches Some(r) ==> r.width == 29 && r.x + r.width == size.width && r.y
            == 0 && r.height == size.height,
{
}

/// `top` memory tokens are counted in binary units: `G` is 2^30 bytes, `M`
/// 2^20, `K` 2^10 and `B` one byte; any other suffix is refused, and so is a
/// size that does not fit in a `u64`.
pub proof fn lemma_memory_units(s: Seq<char>, v: u64)
    requires
        s.len() > 0,
        parse_u64_spec(s.drop_last()) == Some(v),
    ensures
        s.last() == 'G' ==> memory_size_spec(s) == (if v * 1_073_741_824 <= u64::MAX {
            Some((v * 1_073_741_824) as u64)
        } else {
            None
        }),
        s.last() == 'M' ==> memory_size_spec(s) == (if v * 1_048_576 <= u64::MAX {
            Some((v * 1_048_576) as u64)
        } else {
            None
        }),
        s.last() == 'K' ==> memory_size_spec(s) == (if v * 1024 <= u64::MAX {
            Some((v * 1024) as u64)
        } else {
            None
        }),
        s.last() == 'B' ==> memory_size_spec(s) == Some(v),
        s.last() != 'G' && s.last() != 'M' && s.last() != 'K' && s.last() != 'B' ==> memory_size_spec(s)
            is None,
{
    assert(v * 1 == v);
}

/// Which die a temperature sensor belongs to.
#[derive(Clone, Copy, Debug, PartialEq, Eq, Structural)]
pub enum Group {
    Cpu,
    Gpu,
}

pub open spec fn key_is(key: Seq<u8>, a: u8, b: u8, c: u8, d: u8) -> bool {
    key[0] == a && key[1] == b && key[2] == c && key[3] == d
}

/// The die of an SMC temperature key: CPU and GPU die sensors are classified,
/// battery, memory and every other sensor are not.
pub open spec fn group_spec(key: Seq<u8>) -> Option<Group> {
    if key[0] == ('T' as u8) && (key[1] == ('p' as u8) || key[1] == ('e' as u8)) {
        Some(Group::Cpu)
    } else if key[0] == ('T' as u8) && key[1] == ('f' as u8) && (key[2] == ('0' as u8) || key[2] == ('4' as u8)) {
        Some(Group::Cpu)
    } else if key[0] == ('T' as u8) && key[1] == ('g' as u8) {
        Some(Group::Gpu)
    } else if key[0] == ('T' as u8) && key[1] == ('f' as u8) && (key[2] == ('1' as u8) || key[2] == ('2' as u8)) {
        Some(Group::Gpu)
    } else if key_is(key, ('T' as u8), ('C' as u8), ('0' as u8), ('D' as u8)) || key_is(key, ('T' as u8), ('C' as u8), ('0' as u8), ('E' as u8)) || key_is(
        key,
        ('T' as u8),
        ('C' as u8),
        ('0' as u8),
        ('F' as u8),
    ) || key_is(key, ('T' as u8), ('C' as u8), ('A' as u8), ('D' as u8)) {
        Some(Group::Cpu)
    } else if key_is(key, ('T' as u8), ('G' as u8), ('0' as u8), ('D' as u8)) || key_is(key, ('T' as u8), ('G' as u8), ('D' as u8), ('D' as u8)) {
        Some(Group::Gpu)
    } else {
        None
    }
}

pub fn group(key: [u8; 4]) -> (g: Option<Group>)
    ensures
        g == group_spec(key@),
{
    let a = key[0];
    let b = key[1];
    let c = key[2];
    let d = key[3];
    if a == ('T' as u8) && (b == ('p' as u8) || b == ('e' as u8)) {
        Some(Group::Cpu)
    } else if a == ('T' as u8) && b == ('f' as u8) && (c == ('0' as u8) || c == ('4' as u8)) {
        Some(Group::Cpu)
    } else if a == ('T' as u8) && b == ('g' as u8) {
        Some(Group::Gpu)
    } else if a == ('T' as u8) && b == ('f' as u8) && (c == ('1' as u8) || c == ('2' as u8)) {
        Some(Group::Gpu)
    } else if a == ('T' as u8) && b == ('C' as u8) && ((c == ('0' as u8) && (d == ('D' as u8) || d == ('E' as u8) || d == ('F' as u8))) || (c
        == ('A' as u8) && d == ('D' as u8))) {
        Some(Group::Cpu)
    } else if a == ('T' as u8) && b == ('G' as u8) && ((c == ('0' as u8) && d == ('D' as u8)) || (c == ('D' as u8) && d == ('D' as u8))) {
        Some(Group::Gpu)
    } else {
        None
    }
}

/// The four bytes of a key written as its characters.
pub open spec fn key4(a: char, b: char, c: char, d: char) -> Seq<u8> {
    seq![a as u8, b as u8, c as u8, d as u8]
}

/// The die sensors: `Tp**`, `Te**`, `Tf0*`, `Tf4*`, `TC0D`, `TC0E`, `TC0F` and
/// `TCAD` are CPU dies; `Tg**`, `Tf1*`, `Tf2*`, `TG0D` and `TGDD` are GPU dies;
/// every other key, such as a battery or memory sensor, is in neither group.
pub proof fn lemma_die_sensor_keys(key: Seq<u8>)
    requires
        key.len() == 4,
    ensures
        key == key4('T', 'C', '0', 'D') ==> group_spec(key) == Some(Group::Cpu),
        key == key4('T', 'C', '0', 'E') ==> group_spec(key) == Some(Group::Cpu),
        key == key4('T', 'C', '0', 'F') ==> group_spec(key) == Some(Group::Cpu),
        key == key4('T', 'C', 'A', 'D') ==> group_spec(key) == Some(Group::Cpu),
        key[0] == 'T' as u8 && (key[1] == 'p' as u8 || key[1] == 'e' as u8) ==> group_spec(key)
            == Some(Group::Cpu),
        key[0] == 'T' as u8 && key[1] == 'f' as u8 && (key[2] == '0' as u8 || key[2] == '4' as u8)
            ==> group_spec(key) == Some(Group::Cpu),
        key[0] == 'T' as u8 && key[1] == 'g' as u8 ==> group_spec(key) == Some(Group::Gpu),
        key[0] == 'T' as u8 && key[1] == 'f' as u8 && (key[2] == '1' as u8 || key[2] == '2' as u8)
            ==> group_spec(key) == Some(Group::Gpu),
        key == key4('T', 'G', '0', 'D') ==> group_spec(key) == Some(Group::Gpu),
        key == key4('T', 'G', 'D', 'D') ==> group_spec(key) == Some(Group::Gpu),
        group_spec(key) is Some ==> key[0] == 'T' as u8 && (key[1] == 'p' as u8 || key[1] == 'e' as u8
            || key[1] == 'g' as u8 || (key[1] == 'f' as u8 && (key[2] == '0' as u8 || key[2] == '1' as u8
            || key[2] == '2' as u8 || key[2] == '4' as u8)) || key == key4('T', 'C', '0', 'D') || key
            == key4('T', 'C', '0', 'E') || key == key4('T', 'C', '0', 'F') || key == key4('T', 'C', 'A', 'D')
            || key == key4('T', 'G', '0', 'D') || key == key4('T', 'G', 'D', 'D')),
{
    if key[0] == 'T' as u8 && key[1] == 'C' as u8 || key[0] == 'T' as u8 && key[1] == 'G' as u8 {
        if key_is(key, 'T' as u8, 'C' as u8, '0' as u8, 'D' as u8) {
            assert(key =~= key4('T', 'C', '0', 'D'));
        }
        if key_is(key, 'T' as u8, 'C' as u8, '0' as u8, 'E' as u8) {
            assert(key =~= key4('T', 'C', '0', 'E'));
        }
        if key_is(key, 'T' as u8, 'C' as u8, '0' as u8, 'F' as u8) {
            assert(key =~= key4('T', 'C', '0', 'F'));
        }
        if key_is(key, 'T' as u8, 'C' as u8, 'A' as u8, 'D' as u8) {
            assert(key =~= key4('T', 'C', 'A', 'D'));
        }
        if key_is(key, 'T' as u8, 'G' as u8, '0' as u8, 'D' as u8) {
            assert(key =~= key4('T', 'G', '0', 'D'));
        }
        if key_is(key, 'T' as u8, 'G' as u8, 'D' as u8, 'D' as u8) {
            assert(key =~= key4('T', 'G', 'D', 'D'));
        }
    }
}

/// Length of an SMC user-client message.
pub const SMC_MESSAGE_LEN: usize = 80;

/// SMC command: read bytes of a key.
pub const SMC_READ_BYTES: u8 = 5;

/// SMC command: read the key at an index.
pub const SMC_READ_INDEX: u8 = 8;

/// SMC command: read the metadata of a key.
pub const SMC_READ_KEY_INFO: u8 = 9;

/// The four bytes of a `u32` in the given byte order, from its big-endian bytes.
pub open spec fn ordered(be: Seq<u8>, little: bool) -> Seq<u8> {
    if little {
        seq![be[3], be[2], be[1], be[0]]
    } else {
        seq![be[0], be[1], be[2], be[3]]
    }
}

/// The value of four bytes read as a `u32` in the given byte order.
pub open spec fn word_value(b: Seq<u8>, little: bool) -> nat {
    if little {
        (b[0] + 256 * b[1] + 65536 * b[2] + 16777216 * b[3]) as nat
    } else {
        (b[3] + 256 * b[2] + 65536 * b[1] + 16777216 * b[0]) as nat
    }
}

/// The big-endian bytes of a `u32` value.
pub open spec fn be_bytes(v: u32) -> Seq<u8> {
    seq![
        (v / 16777216) as u8,
        ((v / 65536) % 256) as u8,
        ((v / 256) % 256) as u8,
        (v % 256) as u8,
    ]
}

/// A request of the given command with the key word at offset 0, the `u32`
/// given by `word28` at offset 28 and `index` at offset 44, all in native
/// byte order; every other byte is zero.
pub open spec fn request_spec(
    key: Seq<u8>,
    word28: Seq<u8>,
    index: Seq<u8>,
    command: u8,
    little: bool,
) -> Seq<u8> {
    Seq::new(
        80,
        |i: int|
            if 0 <= i < 4 {
                ordered(key, little)[i]
            } else if 28 <= i < 32 {
                ordered(word28, little)[i - 28]
            } else if 44 <= i < 48 {
                ordered(index, little)[i - 44]
            } else if i == 42 {
                command
            } else {
                0u8
            },
    )
}

fn request(key: [u8; 4], word28: u32, index: u32, command: u8, little: bool) -> (m: Vec<u8>)
    ensures
        m@ == request_spec(key@, be_bytes(word28), be_bytes(index), command, little),
{
    let kb = order_bytes(key, little);
    let wb = order_bytes(to_be_bytes(word28), little);
    let ib = order_bytes(to_be_bytes(index), little);
    let mut m: Vec<u8> = Vec::new();
    let mut i: usize = 0;
    while i < 80
        invariant
            i <= 80,
            kb@ == ordered(key@, little),
            wb@ == ordered(be_bytes(word28), little),
            ib@ == ordered(be_bytes(index), little),
            m@.len() == i,
            forall|j: int|
                0 <= j < i ==> m@[j] == request_spec(
                    key@,
                    be_bytes(word28),
                    be_bytes(index),
                    command,
                    little,
                )[j],
        decreases 80 - i,
    {
        let b = if i < 4 {
            kb[i]
        } else if 28 <= i && i < 32 {
            wb[i - 28]
        } else if 44 <= i && i < 48 {
            ib[i - 44]
        } else if i == 42 {
            command
        } else {
            0u8
        };
        m.push(b);
        i = i + 1;
    }
    assert(m@ =~= request_spec(key@, be_bytes(word28), be_bytes(index), command, little));
    m
}

fn to_be_bytes(v: u32) -> (b: [u8; 4])
    ensures
        b@ == be_bytes(v),
{
    let b = [(v / 16777216) as u8, ((v / 65536) % 256) as u8, ((v / 256) % 256) as u8, (v % 256) as u8];
    assert(b@ =~= be_bytes(v));
    b
}

fn order_bytes(be: [u8; 4], little: bool) -> (b: [u8; 4])
    ensures
        b@ == ordered(be@, little),
{
    let b = if little {
        [be[3], be[2], be[1], be[0]]
    } else {
        [be[0], be[1], be[2], be[3]]
    };
    assert(b@ =~= ordered(be@, little));
    b
}

/// The request for the metadata of `key` (type and data size).
pub fn info_request(key: [u8; 4], little: bool) -> (m: Vec<u8>)
    ensures
        m@ == request_spec(key@, be_bytes(0), be_bytes(0), SMC_READ_KEY_INFO, little),
{
    request(key, 0, 0, SMC_READ_KEY_INFO, little)
}

/// The request for `size` data bytes of `key`; the size is sent as a `u32`.
pub fn read_request(key: [u8; 4], size: usize, little: bool) -> (m: Vec<u8>)
    ensures
        m@ == request_spec(key@, be_bytes(size as u32), be_bytes(0), SMC_READ_BYTES, little),
{
    request(key, size as u32, 0, SMC_READ_BYTES, little)
}

/// The request for the key stored at `index`.
pub fn index_request(index: u32, little: bool) -> (m: Vec<u8>)
    ensures
        m@ == request_spec(seq![0u8, 0u8, 0u8, 0u8], be_bytes(0), be_bytes(index), SMC_READ_INDEX, little),
{
    let zero: [u8; 4] = [0u8, 0u8, 0u8, 0u8];
    assert(zero@ =~= seq![0u8, 0u8, 0u8, 0u8]);
    request(zero, 0, index, SMC_READ_INDEX, little)
}

/// Every request the codec builds is a read: its command byte (offset 42) is
/// one of the three read commands, so no SMC value is ever written.
pub proof fn lemma_requests_only_read(key: [u8; 4], size: usize, index: u32, little: bool)
    ensures
        request_spec(key@, be_bytes(0), be_bytes(0), SMC_READ_KEY_INFO, little)[42]
            == SMC_READ_KEY_INFO,
        request_spec(key@, be_bytes(size as u32), be_bytes(0), SMC_READ_BYTES, little)[42]
            == SMC_READ_BYTES,
        request_spec(seq![0u8, 0u8, 0u8, 0u8], be_bytes(0), be_bytes(index), SMC_READ_INDEX, little)[42]
            == SMC_READ_INDEX,
        request_spec(key@, be_bytes(size as u32), be_bytes(0), SMC_READ_BYTES, little).len() == SMC_MESSAGE_LEN,
{
}

/// Whether a reply of the driver may be used: the call succeeded, filled the
/// whole message and the SMC result byte (offset 40) reports success.
pub fn reply_accepted(status: i32, size: usize, result: u8) -> (b: bool)
    ensures
        b == (status == 0 && size == SMC_MESSAGE_LEN && result == 0),
{
    status == 0 && size == SMC_MESSAGE_LEN && result == 0
}

fn word_at(reply: &[u8], at: usize, little: bool) -> (v: u32)
    requires
        at + 4 <= reply@.len(),
    ensures
        v as nat == word_value(reply@.subrange(at as int, at + 4), little),
{
    let b0 = reply[at] as u32;
    let b1 = reply[at + 1] as u32;
    let b2 = reply[at + 2] as u32;
    let b3 = reply[at + 3] as u32;
    if little {
        b0 + 256 * b1 + 65536 * b2 + 16777216 * b3
    } else {
        b3 + 256 * b2 + 65536 * b1 + 16777216 * b0
    }
}

/// The bytes of a reply word in native order, turned to big-endian order.
pub open spec fn word_be(b: Seq<u8>, little: bool) -> Seq<u8> {
    if little {
        seq![b[3], b[2], b[1], b[0]]
    } else {
        seq![b[0], b[1], b[2], b[3]]
    }
}

/// The metadata in a key-info reply: the data size (offset 28) and the type
/// code (offset 32), accepted only for sizes up to 32 bytes.
pub open spec fn info_reply_spec(reply: Seq<u8>, little: bool) -> Option<(Seq<u8>, nat)> {
    let size = word_value(reply.subrange(28, 32), little);
    if size <= 32 {
        Some((word_be(reply.subrange(32, 36), little), size))
    } else {
        None
    }
}

pub fn parse_info_reply(reply: &[u8], little: bool) -> (r: Option<([u8; 4], usize)>)
    requires
        reply@.len() == SMC_MESSAGE_LEN,
    ensures
        match info_reply_spec(reply@, little) {
            None => r is None,
            Some((kind, size)) => r matches Some((k, s)) && k@ == kind && s == size,
        },
{
    let size = word_at(reply, 28, little);
    let kind = if little {
        [reply[35], reply[34], reply[33], reply[32]]
    } else {
        [reply[32], reply[33], reply[34], reply[35]]
    };
    assert(kind@ =~= word_be(reply@.subrange(32, 36), little));
    if size <= 32 {
        Some((kind, size as usize))
    } else {
        None
    }
}

/// The key in a read-key-at-index reply (offset 0, native order), as it is spelled.
pub fn key_from_index_reply(reply: &[u8], little: bool) -> (k: [u8; 4])
    requires
        reply@.len() == SMC_MESSAGE_LEN,
    ensures
        k@ == word_be(reply@.subrange(0, 4), little),
{
    let k = if little {
        [reply[3], reply[2], reply[1], reply[0]]
    } else {
        [reply[0], reply[1], reply[2], reply[3]]
    };
    assert(k@ =~= word_be(reply@.subrange(0, 4), little));
    k
}

/// Discovery is bounded in case the driver returns corrupt metadata.
pub const MAX_SMC_KEYS: u32 = 16_384;

/// The metadata of `#KEY` must describe a 4-byte `ui32` before the key is read.
pub open spec fn key_count_info(kind: Seq<u8>, size: nat) -> bool {
    kind == seq![('u' as u8), ('i' as u8), ('3' as u8), ('2' as u8)] && size == 4
}

pub fn key_count_info_valid(kind: [u8; 4], size: usize) -> (b: bool)
    ensures
        b == key_count_info(kind@, size as nat),
{
    let ui32 = kind[0] == ('u' as u8) && kind[1] == ('i' as u8) && kind[2] == ('3' as u8) && kind[3] == ('2' as u8);
    assert(ui32 <==> kind@ == seq![('u' as u8), ('i' as u8), ('3' as u8), ('2' as u8)]) by {
        if kind@ == seq![('u' as u8), ('i' as u8), ('3' as u8), ('2' as u8)] {
            assert(kind@[0] == ('u' as u8) && kind@[1] == ('i' as u8) && kind@[2] == ('3' as u8) && kind@[3] == ('2' as u8));
        }
        if ui32 {
            assert(kind@ =~= seq![('u' as u8), ('i' as u8), ('3' as u8), ('2' as u8)]);
        }
    }
    ui32 && size == 4
}

/// The number of SMC keys, from the metadata of `#KEY` and the reply that read it:
/// the key must be a 4-byte `ui32`, its big-endian value (offset 48) at most `MAX_SMC_KEYS`.
pub fn key_count(kind: [u8; 4], size: usize, reply: &[u8]) -> (r: Option<u32>)
    requires
        reply@.len() == SMC_MESSAGE_LEN,
    ensures
        r == (if key_count_info(kind@, size as nat) && word_value(reply@.subrange(48, 52), false)
            <= MAX_SMC_KEYS {
            Some(word_value(reply@.subrange(48, 52), false) as u32)
        } else {
            None
        }),
{
    if !key_count_info_valid(kind, size) {
        return None;
    }
    let count = word_at(reply, 48, false);
    if count > MAX_SMC_KEYS {
        None
    } else {
        Some(count)
    }
}

/// Sensors are read only when their encoding is one the decoder knows:
/// a 4-byte `flt ` or a 2-byte `sp78`.
pub open spec fn sensor_encoding_known(kind: Seq<u8>, size: nat) -> bool {
    (kind == seq![('f' as u8), ('l' as u8), ('t' as u8), (' ' as u8)] && size == 4) || (kind == seq![('s' as u8), ('p' as u8), ('7' as u8), ('8' as u8)]
        && size == 2)
}

pub fn sensor_encoding_supported(kind: [u8; 4], size: usize) -> (b: bool)
    ensures
        b == sensor_encoding_known(kind@, size as nat),
{
    let flt = kind[0] == ('f' as u8) && kind[1] == ('l' as u8) && kind[2] == ('t' as u8) && kind[3] == (' ' as u8);
    let sp78 = kind[0] == ('s' as u8) && kind[1] == ('p' as u8) && kind[2] == ('7' as u8) && kind[3] == ('8' as u8);
    assert(flt <==> kind@ == seq![('f' as u8), ('l' as u8), ('t' as u8), (' ' as u8)]) by {
        if kind@ == seq![('f' as u8), ('l' as u8), ('t' as u8), (' ' as u8)] {
            assert(kind@[0] == ('f' as u8));
        }
        if flt {
            assert(kind@ =~= seq![('f' as u8), ('l' as u8), ('t' as u8), (' ' as u8)]);
        }
    }
    assert(sp78 <==> kind@ == seq![('s' as u8), ('p' as u8), ('7' as u8), ('8' as u8)]) by {
        if kind@ == seq![('s' as u8), ('p' as u8), ('7' as u8), ('8' as u8)] {
            assert(kind@[0] == ('s' as u8));
        }
        if sp78 {
            assert(kind@ =~= seq![('s' as u8), ('p' as u8), ('7' as u8), ('8' as u8)]);
        }
    }
    (flt && size == 4) || (sp78 && size == 2)
}

/// The group a discovered key is sampled under: the key must name a CPU or GPU
/// die sensor and its metadata must be an encoding the decoder knows.
pub fn sensor_for(key: [u8; 4], info: Option<([u8; 4], usize)>) -> (r: Option<Group>)
    ensures
        r == (match info {
            Some((kind, size)) => if sensor_encoding_known(kind@, size as nat) {
                group_spec(key@)
            } else {
                None
            },
            None => None,
        }),
{
    match info {
        None => None,
        Some((kind, size)) => if sensor_encoding_supported(kind, size) {
            group(key)
        } else {
            None
        },
    }
}


/// A signed 7.8 fixed-point reading, as its raw big-endian value, when it lies
/// between 10 and 125 degrees: inactive sensors report zero or low sentinels.
pub open spec fn sp78_reading_spec(data: Seq<u8>) -> Option<i16> {
    if data.len() != 2 {
        None
    } else {
        let raw = data[0] * 256 + data[1];
        if 2560 <= raw <= 32000 {
            Some(raw as i16)
        } else {
            None
        }
    }
}

/// An `sp78` reading is the big-endian value of its two bytes in 256ths of
/// a degree, and it is kept exactly when it lies between 10 and 125 degrees.
pub proof fn lemma_sp78_plausible_range(data: Seq<u8>)
    ensures
        sp78_reading_spec(data) is Some <==> data.len() == 2 && 10 * 256 <= data[0] * 256 + data[1]
            <= 125 * 256,
        sp78_reading_spec(data) matches Some(r) ==> r == data[0] * 256 + data[1],
{
}

/// The raw value of an `sp78` reading in the plausible range; its temperature
/// is that value divided by 256.
pub fn sp78_reading(data: &[u8]) -> (r: Option<i16>)
    ensures
        r == sp78_reading_spec(data@),
{
    if data.len() != 2 {
        return None;
    }
    let raw: u16 = (data[0] as u16) * 256 + data[1] as u16;
    if 2560 <= raw && raw <= 32000 {
        Some(raw as i16)
    } else {
        None
    }
}

/// The hardware panel is shown unless `EVO_CODEX_HARDWARE_PANEL` is `0`.
pub fn panel_enabled(setting: Option<String>) -> (b: bool)
    ensures
        b == !(setting matches Some(v) && v@ == "0"@),
{
    match setting {
        Some(v) => {
            let zero = "0".to_owned();
            !(v == zero)
        },
        None => true,
    }
}

} // verus!
