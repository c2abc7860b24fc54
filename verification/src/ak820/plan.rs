//! What to send the AK820, as a sequence of transport steps: each packet
//! is written as a Feature report, control packets are followed by a
//! read-back handshake, and every packet by a short pause for the device
//! to process it. The front end performs the steps.

use vstd::prelude::*;
use crate::capability::{Direction, LightingMode, RgbColor};
use crate::ak820::protocol::{
    control_packet, mode_data_packet, spec_control_packet, spec_mode_data_packet, CMD_FINISH, CMD_MODE, CMD_START,
    CONTROL_REPORT_ID, MAX_BRIGHTNESS,
};

verus! {

/// How long to wait after each packet, in milliseconds.
pub const INTER_PACKET_DELAY_MILLIS: u64 = 10;
/// How long to wait after a whole configuration transaction, in
/// milliseconds.
pub const POST_TRANSACTION_DELAY_MILLIS: u64 = 100;

/// One thing to do on the vendor transport.
#[derive(Debug, Clone, PartialEq, Eq)]
pub enum Step {
    /// Send a Feature report: `report_id`, then the payload `data`.
    SetFeature {
        /// The report ID (the packet's first byte).
        report_id: u8,
        /// The rest of the packet.
        data: Vec<u8>,
    },
    /// Request a 64-byte Feature report by `report_id` and ignore both
    /// its contents and whether the request failed.
    DiscardFeature {
        /// The report ID to request.
        report_id: u8,
    },
    /// Wait this many milliseconds.
    Pause {
        /// How long to wait.
        millis: u64,
    },
}

/// A [`Step`] as a value: the payload as a sequence.
pub enum StepView {
    /// Send a Feature report with this ID and payload.
    SetFeature(u8, Seq<u8>),
    /// Request and discard a Feature report with this ID.
    DiscardFeature(u8),
    /// Wait this many milliseconds.
    Pause(u64),
}

impl Step {
    /// This step as a value.
    pub open spec fn view(self) -> StepView {
        match self {
            Step::SetFeature { report_id, data } => StepView::SetFeature(report_id, data@),
            Step::DiscardFeature { report_id } => StepView::DiscardFeature(report_id),
            Step::Pause { millis } => StepView::Pause(millis),
        }
    }
}

/// A sequence of steps as values.
pub open spec fn steps_view(steps: Seq<Step>) -> Seq<StepView> {
    steps.map_values(|s: Step| s.view())
}

/// Sending one packet: write it as a Feature report (byte 0 as the report
/// ID), read back a control packet's report ID as a handshake (never a
/// data packet's, whose ID is a mode value), then pause.
pub open spec fn spec_send(packet: Seq<u8>) -> Seq<StepView> {
    seq![StepView::SetFeature(packet[0], packet.skip(1))]
        + (if packet[0] == CONTROL_REPORT_ID { seq![StepView::DiscardFeature(CONTROL_REPORT_ID)] } else { seq![] })
        + seq![StepView::Pause(INTER_PACKET_DELAY_MILLIS)]
}

/// Setting a solid color: `START`, `START_MODE`, a `Breath` data packet
/// at speed 0 and full brightness (which shows a static color on this
/// hardware), `FINISH`, then a longer pause.
pub open spec fn spec_set_color_plan(color: RgbColor) -> Seq<StepView> {
    spec_send(spec_control_packet(CMD_START, 0x01))
        + spec_send(spec_control_packet(CMD_MODE, 0x01))
        + spec_send(spec_mode_data_packet(LightingMode::Breath, color.r, color.g, color.b, false, MAX_BRIGHTNESS, 0, Direction::Left))
        + spec_send(spec_control_packet(CMD_FINISH, 0x01))
        + seq![StepView::Pause(POST_TRANSACTION_DELAY_MILLIS)]
}

/// Appends the steps that send `packet` to `steps`.
pub fn push_send(steps: &mut Vec<Step>, packet: &[u8; 64])
    ensures
        steps_view(final(steps)@) == steps_view(old(steps)@) + spec_send(packet@),
{
    let report_id = packet[0];
    let mut data: Vec<u8> = Vec::new();
    let mut i: usize = 1;
    while i < 64
        invariant
            1 <= i <= 64,
            packet@.len() == 64,
            data@ == packet@.subrange(1, i as int),
        decreases 64 - i,
    {
        data.push(packet[i]);
        proof {
            assert(packet@.subrange(1, i as int).push(packet@[i as int]) =~= packet@.subrange(1, i + 1));
        }
        i = i + 1;
    }
    assert(data@ =~= packet@.skip(1));
    let ghost before = steps@;
    steps.push(Step::SetFeature { report_id, data });
    if report_id == CONTROL_REPORT_ID {
        steps.push(Step::DiscardFeature { report_id: CONTROL_REPORT_ID });
    }
    steps.push(Step::Pause { millis: INTER_PACKET_DELAY_MILLIS });
    assert(steps_view(steps@) =~= steps_view(before) + spec_send(packet@));
}

/// The steps that set the device to a solid `color`.
pub fn set_color_plan(color: RgbColor) -> (r: Vec<Step>)
    ensures
        steps_view(r@) == spec_set_color_plan(color),
{
    let mut steps: Vec<Step> = Vec::new();
    assert(steps_view(steps@) =~= Seq::<StepView>::empty());
    push_send(&mut steps, &control_packet(CMD_START, 0x01));
    push_send(&mut steps, &control_packet(CMD_MODE, 0x01));
    push_send(
        &mut steps,
        &mode_data_packet(LightingMode::Breath, color.r, color.g, color.b, false, MAX_BRIGHTNESS, 0, Direction::Left),
    );
    push_send(&mut steps, &control_packet(CMD_FINISH, 0x01));
    let ghost before = steps@;
    steps.push(Step::Pause { millis: POST_TRANSACTION_DELAY_MILLIS });
    assert(steps_view(steps@) =~= steps_view(before) + seq![StepView::Pause(POST_TRANSACTION_DELAY_MILLIS)]);
    assert(steps_view(steps@) =~= spec_set_color_plan(color));
    steps
}

/// Whatever the color, setting it is one transaction: `START` and
/// `START_MODE` with their handshakes, one data packet (no handshake)
/// carrying the color's channels in its first three payload bytes, no
/// rainbow, full brightness, speed 0 and direction `Left`, `FINISH`
/// with its handshake, then the long pause.
pub proof fn law_set_color_is_one_transaction(color: RgbColor)
    ensures
        ({
            let plan = spec_set_color_plan(color);
            &&& plan.len() == 12
            &&& plan[0] matches StepView::SetFeature(id, d) && id == CONTROL_REPORT_ID && d[0] == CMD_START
            &&& plan[1] == StepView::DiscardFeature(CONTROL_REPORT_ID)
            &&& plan[3] matches StepView::SetFeature(id, d) && id == CONTROL_REPORT_ID && d[0] == CMD_MODE
            &&& plan[4] == StepView::DiscardFeature(CONTROL_REPORT_ID)
            &&& plan[6] matches StepView::SetFeature(id, d) && id == LightingMode::Breath.spec_opcode()
                && d[0] == color.r && d[1] == color.g && d[2] == color.b
                && d[7] == 0 && d[8] == MAX_BRIGHTNESS && d[9] == 0 && d[10] == Direction::Left.spec_value()
            &&& plan[7] == StepView::Pause(INTER_PACKET_DELAY_MILLIS)
            &&& plan[8] matches StepView::SetFeature(id, d) && id == CONTROL_REPORT_ID && d[0] == CMD_FINISH
            &&& plan[9] == StepView::DiscardFeature(CONTROL_REPORT_ID)
            &&& plan[11] == StepView::Pause(POST_TRANSACTION_DELAY_MILLIS)
        }),
{
    let start = spec_control_packet(CMD_START, 0x01);
    let mode = spec_control_packet(CMD_MODE, 0x01);
    let data = spec_mode_data_packet(LightingMode::Breath, color.r, color.g, color.b, false, MAX_BRIGHTNESS, 0, Direction::Left);
    let finish = spec_control_packet(CMD_FINISH, 0x01);
    assert(start[0] == CONTROL_REPORT_ID && mode[0] == CONTROL_REPORT_ID && finish[0] == CONTROL_REPORT_ID);
    assert(data[0] == 7);
    assert(spec_send(start).len() == 3);
    assert(spec_send(mode).len() == 3);
    assert(spec_send(data).len() == 2);
    assert(spec_send(finish).len() == 3);
    assert(start.skip(1)[0] == CMD_START);
    assert(mode.skip(1)[0] == CMD_MODE);
    assert(finish.skip(1)[0] == CMD_FINISH);
    assert(data.skip(1)[0] == color.r && data.skip(1)[1] == color.g && data.skip(1)[2] == color.b);
    assert(data.skip(1)[7] == 0 && data.skip(1)[8] == MAX_BRIGHTNESS && data.skip(1)[9] == 0);
    assert(data.skip(1)[10] == Direction::Left.spec_value());
}

} // verus!
