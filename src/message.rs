//! Encoding of one harmonic level as a manufacturer-exclusive control message.

use syxpack::{Manufacturer, Message, SystemExclusiveData};
use vstd::prelude::*;

use crate::level::HARMONIC_COUNT;

verus! {

/// Start of a manufacturer-exclusive message.
pub const INITIATOR: u8 = 0xf0;

/// End of a manufacturer-exclusive message.
pub const TERMINATOR: u8 = 0xf7;

/// The instrument maker's standard one-byte identifier.
pub const MANUFACTURER_ID: u8 = 0x40;

/// Function number of a parameter change.
pub const FUNCTION_NUMBER: u8 = 0x10;

/// Synth group byte.
pub const SYNTH_GROUP: u8 = 0x00;

/// Machine number of the instrument.
pub const MACHINE_NUMBER: u8 = 0x0a;

/// Selects the additive-wave parameters of a single tone.
pub const ADD_WAVE_PARAMETER: u8 = 0x02;

/// Added to the group number to form the group byte.
pub const GROUP_BASE: u8 = 0x40;

/// The low byte of `x`.
pub open spec fn low_byte(x: u32) -> u8 {
    (x % 256) as u8
}

/// The unframed message: manufacturer, channel, function, synth group, machine,
/// parameter kind, `0x40 + group`, source, harmonic, two zero bytes and the level.
pub open spec fn payload_spec(harmonic_num: u32, channel: u8, level: u8, group_num: u32, source_num: u32) -> Seq<u8> {
    seq![
        MANUFACTURER_ID,
        channel,
        FUNCTION_NUMBER,
        SYNTH_GROUP,
        MACHINE_NUMBER,
        ADD_WAVE_PARAMETER,
        ((GROUP_BASE + low_byte(group_num)) % 256) as u8,
        low_byte(source_num),
        low_byte(harmonic_num),
        0u8,
        0u8,
        level,
    ]
}

/// `payload` between the start and end bytes.
pub open spec fn framed(payload: Seq<u8>) -> Seq<u8> {
    seq![INITIATOR] + payload + seq![TERMINATOR]
}

/// `bytes` without its first and last byte.
pub open spec fn unframed(bytes: Seq<u8>) -> Seq<u8> {
    bytes.subrange(1, bytes.len() - 1)
}

/// Relies on syxpack's `Message::to_bytes` for a manufacturer-specific message with
/// a standard one-byte manufacturer: the initiator, the manufacturer byte, the
/// payload and the terminator.
#[verifier::external_body]
fn manufacturer_message_bytes(manufacturer_id: u8, payload: Vec<u8>) -> (r: Vec<u8>)
    ensures
        r@ == seq![INITIATOR, manufacturer_id] + payload@ + seq![TERMINATOR],
{
    let message = Message::ManufacturerSpecific {
        manufacturer: Manufacturer::Standard(manufacturer_id),
        payload,
    };
    message.to_bytes()
}

/// The unframed message that sets one harmonic's level.
pub fn make_harmonic_payload(harmonic_num: u32, channel: u8, level: u8, group_num: u32, source_num: u32) -> (r: Vec<u8>)
    ensures
        r@ == payload_spec(harmonic_num, channel, level, group_num, source_num),
{
    let mut bytes: Vec<u8> = Vec::new();
    bytes.push(MANUFACTURER_ID);
    bytes.append(&mut make_parameter_bytes(harmonic_num, channel, level, group_num, source_num));
    bytes
}

/// The bytes that follow the manufacturer identifier.
fn make_parameter_bytes(harmonic_num: u32, channel: u8, level: u8, group_num: u32, source_num: u32) -> (r: Vec<u8>)
    ensures
        seq![MANUFACTURER_ID] + r@ == payload_spec(harmonic_num, channel, level, group_num, source_num),
{
    let group_byte = ((GROUP_BASE as u32 + group_num % 256) % 256) as u8;
    let r = vec![
        channel,
        FUNCTION_NUMBER,
        SYNTH_GROUP,
        MACHINE_NUMBER,
        ADD_WAVE_PARAMETER,
        group_byte,
        (source_num % 256) as u8,
        (harmonic_num % 256) as u8,
        0,
        0,
        level,
    ];
    assert(seq![MANUFACTURER_ID] + r@ =~= payload_spec(harmonic_num, channel, level, group_num, source_num));
    r
}

/// The complete manufacturer-exclusive message, start and end bytes included,
/// that sets one harmonic's level.
pub fn make_harmonic_sysex(harmonic_num: u32, channel: u8, level: u8, group_num: u32, source_num: u32) -> (r: Vec<u8>)
    ensures
        r@ == framed(payload_spec(harmonic_num, channel, level, group_num, source_num)),
{
    let data = make_parameter_bytes(harmonic_num, channel, level, group_num, source_num);
    let r = manufacturer_message_bytes(MANUFACTURER_ID, data);
    assert(r@ =~= framed(payload_spec(harmonic_num, channel, level, group_num, source_num)));
    r
}

/// Removes the start and end bytes of a message.
pub fn strip_framing(bytes: &Vec<u8>) -> (r: Vec<u8>)
    requires
        bytes@.len() >= 2,
    ensures
        r@ == unframed(bytes@),
{
    let mut r: Vec<u8> = Vec::new();
    let mut i: usize = 1;
    while i < bytes.len() - 1
        invariant
            2 <= bytes@.len(),
            1 <= i <= bytes@.len() - 1,
            r@ == bytes@.subrange(1, i as int),
        decreases bytes@.len() - 1 - i,
    {
        r.push(bytes[i]);
        i = i + 1;
        assert(r@ =~= bytes@.subrange(1, i as int));
    }
    r
}

/// The unframed messages for a whole level table, harmonic 0 first.
pub fn make_sysex_messages(levels: &Vec<u8>, channel: u8, group_num: u32, source_num: u32) -> (r: Vec<Vec<u8>>)
    requires
        levels@.len() == HARMONIC_COUNT,
    ensures
        r@.len() == HARMONIC_COUNT,
        forall|i: int|
            0 <= i < HARMONIC_COUNT ==> #[trigger] r@[i]@ == payload_spec(
                i as u32,
                channel,
                levels@[i],
                group_num,
                source_num,
            ),
{
    let mut r: Vec<Vec<u8>> = Vec::new();
    let mut i: usize = 0;
    while i < HARMONIC_COUNT
        invariant
            levels@.len() == HARMONIC_COUNT,
            i <= HARMONIC_COUNT,
            r@.len() == i,
            forall|k: int|
                0 <= k < i ==> #[trigger] r@[k]@ == payload_spec(
                    k as u32,
                    channel,
                    levels@[k],
                    group_num,
                    source_num,
                ),
        decreases HARMONIC_COUNT - i,
    {
        let message = make_harmonic_sysex(i as u32, channel, levels[i], group_num, source_num);
        let bytes = strip_framing(&message);
        proof {
            lemma_unframe_sysex(i as u32, channel, levels@[i as int], group_num, source_num);
        }
        r.push(bytes);
        i = i + 1;
    }
    r
}

/// Taking the start and end bytes off a framed message gives back exactly the
/// unframed message, for every harmonic.
pub proof fn lemma_unframe_sysex(harmonic_num: u32, channel: u8, level: u8, group_num: u32, source_num: u32)
    requires
        harmonic_num < HARMONIC_COUNT,
    ensures
        unframed(framed(payload_spec(harmonic_num, channel, level, group_num, source_num)))
            == payload_spec(harmonic_num, channel, level, group_num, source_num),
{
    let p = payload_spec(harmonic_num, channel, level, group_num, source_num);
    assert(unframed(framed(p)) =~= p);
}

} // verus!
