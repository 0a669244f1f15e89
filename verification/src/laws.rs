//! The library's laws, proved over the drivers' transition functions:
//! quiescence after disable, alarm-scheduling discipline, the encoder's
//! reflection in the digit bitmaps, side-effect-free probing, counter
//! independence between applications, and the edge profile of a frame.

use vstd::prelude::*;

use crate::encoder::encode;
use crate::hello::{
    bumps_for, counter_of, hello_command, hello_run, hello_step, initial_hello, is_bump_for,
    HelloEvent, HelloView,
};
use crate::sevenseg::{
    bit_ops, data_op, frame_ops, initial_seg, is_enable, next_fire, seg_command, seg_disable,
    seg_run, seg_step, select_mask, shift_ops, shift_ops_upto, scan_ops, scan_ops_upto, SegEvent,
    SegView,
};
use crate::hal::{PinId, PinOp};
use crate::ReturnCode;

verus! {

// --- The display stays quiet after a disable -------------------------

/// While the display and its alarm are disabled, entries other than the
/// enable command drive no pin edge and leave both disabled.
pub proof fn lemma_quiescent_while_disabled(s: SegView, evs: Seq<SegEvent>)
    requires
        !s.enabled,
        !s.alarm.enabled,
        forall|i: int| 0 <= i < evs.len() ==> !is_enable(evs[i]),
    ensures
        seg_run(s, evs).pins == s.pins,
        !seg_run(s, evs).enabled,
        !seg_run(s, evs).alarm.enabled,
    decreases evs.len(),
{
    if evs.len() > 0 {
        let t = seg_step(s, evs[0]);
        assert(!is_enable(evs[0]));
        assert(t.pins == s.pins && !t.enabled && !t.alarm.enabled);
        assert(forall|i: int|
            0 <= i < evs.drop_first().len() ==> !is_enable(#[trigger] evs.drop_first()[i]));
        lemma_quiescent_while_disabled(t, evs.drop_first());
    }
}

/// After any disable, and until the next enable command, the alarm is
/// disabled and no further pin edge is driven.
pub proof fn lemma_disable_quiescent(s: SegView, evs: Seq<SegEvent>)
    requires
        forall|i: int| 0 <= i < evs.len() ==> !is_enable(evs[i]),
    ensures
        seg_run(seg_disable(s), evs).pins == seg_disable(s).pins,
        !seg_run(seg_disable(s), evs).enabled,
        !seg_run(seg_disable(s), evs).alarm.enabled,
{
    lemma_quiescent_while_disabled(seg_disable(s), evs);
}

// --- Alarm scheduling discipline --------------------------------------

/// The display and its alarm agree: the alarm is enabled exactly while
/// the display is enabled, and exactly then one firing is pending.
pub open spec fn alarm_consistent(s: SegView) -> bool {
    &&& s.alarm.enabled == s.enabled
    &&& (s.enabled <==> s.alarm.pending is Some)
}

/// A fresh display is consistent: disabled, nothing pending.
pub proof fn lemma_alarm_consistent_init(now: u32, freq: u32)
    ensures
        alarm_consistent(initial_seg(now, freq)),
{
}

/// Every single driver entry preserves the consistency of display and
/// alarm.
pub proof fn lemma_alarm_consistent_step(s: SegView, ev: SegEvent)
    requires
        alarm_consistent(s),
    ensures
        alarm_consistent(seg_step(s, ev)),
{
}

/// From enable until disable there is exactly one pending firing: the
/// consistency holds after any sequence of driver entries.
pub proof fn lemma_alarm_consistent_run(s: SegView, evs: Seq<SegEvent>)
    requires
        alarm_consistent(s),
    ensures
        alarm_consistent(seg_run(s, evs)),
    decreases evs.len(),
{
    if evs.len() > 0 {
        lemma_alarm_consistent_step(s, evs[0]);
        lemma_alarm_consistent_run(seg_step(s, evs[0]), evs.drop_first());
    }
}

/// Every scheduling reads the clock first: a driver entry either leaves
/// the pending firing alone, cancels it, or sets it to exactly the tick
/// read at that entry plus one refresh period (wrapping).
pub proof fn lemma_schedule_discipline(s: SegView, ev: SegEvent)
    ensures
        ({
            let p = seg_step(s, ev).alarm.pending;
            p == s.alarm.pending || p is None || p == Some(next_fire(s.alarm))
        }),
{
}

// --- The encoder reaches the digit bitmaps ----------------------------

/// Set-value followed immediately by enable leaves exactly the encoder's
/// output for that value in the digit bitmaps.
pub proof fn lemma_set_then_enable(s: SegView, data1: usize)
    ensures
        seg_command(seg_command(s, 3, data1).0, 1, 0).0.digits == encode((data1 % 0x10000) as u16),
{
}

// --- Probe is side-effect-free ----------------------------------------

/// Probe (command 0) changes nothing on either driver and succeeds.
pub proof fn lemma_probe_no_effect(s: SegView, h: HelloView, data1: usize, app: usize)
    ensures
        seg_command(s, 0, data1) == (s, ReturnCode::Success),
        hello_command(h, 0, app) == (h, ReturnCode::Success),
{
}

// --- Per-application counters are independent -------------------------

/// An entry that is not a counting command from `app` leaves `app`'s
/// counter unchanged.
pub proof fn lemma_counter_independent(s: HelloView, ev: HelloEvent, app: usize)
    requires
        !is_bump_for(ev, app),
    ensures
        counter_of(hello_step(s, ev).counters, app) == counter_of(s.counters, app),
{
}

/// Under any interleaving of entries, an application's counter grows by
/// exactly the number of its own counting commands; with the per-step
/// returned value this makes each application see 1, 2, 3, … on its own
/// calls, whatever other applications do in between.
pub proof fn lemma_counter_counts(s: HelloView, evs: Seq<HelloEvent>, app: usize)
    requires
        counter_of(s.counters, app) + bumps_for(evs, app) <= usize::MAX,
    ensures
        counter_of(hello_run(s, evs).counters, app) == counter_of(s.counters, app) + bumps_for(
            evs,
            app,
        ),
    decreases evs.len(),
{
    if evs.len() > 0 {
        let t = hello_step(s, evs[0]);
        if is_bump_for(evs[0], app) {
            assert(counter_of(t.counters, app) == counter_of(s.counters, app) + 1);
        } else {
            lemma_counter_independent(s, evs[0], app);
        }
        lemma_counter_counts(t, evs.drop_first(), app);
    }
}

/// From a fresh driver, after any interleaving `evs`, one more counting
/// command from `app` returns one more than the number of counting
/// commands `app` has made so far.
pub proof fn lemma_bump_return_value(evs: Seq<HelloEvent>, app: usize, command_num: usize)
    requires
        command_num == 2 || command_num == 3,
        bumps_for(evs, app) < usize::MAX,
    ensures
        hello_command(hello_run(initial_hello(), evs), command_num, app).1
            == (ReturnCode::SuccessWithValue { value: (bumps_for(evs, app) + 1) as usize }),
{
    lemma_counter_counts(initial_hello(), evs, app);
}

// --- The edge profile of one frame ------------------------------------

/// How many times the edge `op` occurs in the trace `s`.
pub open spec fn count_op(s: Seq<PinOp>, op: PinOp) -> nat
    decreases s.len(),
{
    if s.len() == 0 {
        0
    } else {
        count_op(s.drop_last(), op) + (if s.last() == op {
            1nat
        } else {
            0nat
        })
    }
}

/// Whether an edge drives the DATA line.
pub open spec fn is_data_op(op: PinOp) -> bool {
    op == PinOp::High(PinId::Data) || op == PinOp::Low(PinId::Data)
}

/// DATA is stable before every CLOCK rising edge: each one is
/// immediately preceded by the edge that set the data line.
pub open spec fn clock_rises_follow_data(s: Seq<PinOp>) -> bool {
    forall|i: int|
        0 <= i < s.len() && #[trigger] s[i] == PinOp::High(PinId::Clock) ==> 1 <= i && is_data_op(
            s[i - 1],
        )
}

proof fn lemma_count_op_concat(a: Seq<PinOp>, b: Seq<PinOp>, op: PinOp)
    ensures
        count_op(a + b, op) == count_op(a, op) + count_op(b, op),
    decreases b.len(),
{
    if b.len() == 0 {
        assert(a + b =~= a);
    } else {
        assert((a + b).drop_last() =~= a + b.drop_last());
        assert((a + b).last() == b.last());
        lemma_count_op_concat(a, b.drop_last(), op);
    }
}

proof fn lemma_follow_data_concat(a: Seq<PinOp>, b: Seq<PinOp>)
    requires
        clock_rises_follow_data(a),
        clock_rises_follow_data(b),
        b.len() > 0 ==> b[0] != PinOp::High(PinId::Clock),
    ensures
        clock_rises_follow_data(a + b),
{
    let c = a + b;
    assert forall|i: int|
        0 <= i < c.len() && #[trigger] c[i] == PinOp::High(PinId::Clock) implies 1 <= i
        && is_data_op(c[i - 1]) by {
        if i < a.len() {
            assert(c[i] == a[i]);
            assert(c[i - 1] == a[i - 1]);
        } else {
            let j = i - a.len();
            assert(c[i] == b[j]);
            assert(j >= 1);
            assert(c[i - 1] == b[j - 1]);
        }
    }
}

proof fn lemma_bit_ops_profile(v: u8, i: u8)
    ensures
        bit_ops(v, i).len() == 3,
        count_op(bit_ops(v, i), PinOp::High(PinId::Clock)) == 1,
        count_op(bit_ops(v, i), PinOp::Low(PinId::Latch)) == 0,
        count_op(bit_ops(v, i), PinOp::High(PinId::Latch)) == 0,
        clock_rises_follow_data(bit_ops(v, i)),
        is_data_op(bit_ops(v, i)[0]),
        bit_ops(v, i)[0] != PinOp::High(PinId::Clock),
{
    reveal_with_fuel(count_op, 5);
    let s = bit_ops(v, i);
    assert(s.drop_last() =~= seq![data_op(v, i), PinOp::High(PinId::Clock)]);
    assert(s.drop_last().drop_last() =~= seq![data_op(v, i)]);
    assert(s.drop_last().drop_last().drop_last() =~= Seq::<PinOp>::empty());
}

proof fn lemma_shift_ops_upto_profile(v: u8, k: nat)
    requires
        k <= 8,
    ensures
        shift_ops_upto(v, k).len() == 3 * k,
        count_op(shift_ops_upto(v, k), PinOp::High(PinId::Clock)) == k,
        count_op(shift_ops_upto(v, k), PinOp::Low(PinId::Latch)) == 0,
        count_op(shift_ops_upto(v, k), PinOp::High(PinId::Latch)) == 0,
        clock_rises_follow_data(shift_ops_upto(v, k)),
        k > 0 ==> is_data_op(shift_ops_upto(v, k)[0]) && shift_ops_upto(v, k)[0]
            != PinOp::High(PinId::Clock),
    decreases k,
{
    if k > 0 {
        let a = shift_ops_upto(v, (k - 1) as nat);
        let b = bit_ops(v, (8 - k) as u8);
        lemma_shift_ops_upto_profile(v, (k - 1) as nat);
        lemma_bit_ops_profile(v, (8 - k) as u8);
        lemma_count_op_concat(a, b, PinOp::High(PinId::Clock));
        lemma_count_op_concat(a, b, PinOp::Low(PinId::Latch));
        lemma_count_op_concat(a, b, PinOp::High(PinId::Latch));
        lemma_follow_data_concat(a, b);
        if k == 1 {
            assert((a + b)[0] == b[0]);
        } else {
            assert((a + b)[0] == a[0]);
        }
    }
}

/// Every frame drives exactly 16 CLOCK rising edges, DATA set
/// immediately before each, framed by one LATCH falling edge at the
/// start and one LATCH rising edge at the end — and no other LATCH edge.
pub proof fn lemma_frame_edge_profile(seg: u8, sel: u8)
    ensures
        frame_ops(seg, sel).len() == 50,
        frame_ops(seg, sel)[0] == PinOp::Low(PinId::Latch),
        frame_ops(seg, sel)[49] == PinOp::High(PinId::Latch),
        count_op(frame_ops(seg, sel), PinOp::High(PinId::Clock)) == 16,
        count_op(frame_ops(seg, sel), PinOp::Low(PinId::Latch)) == 1,
        count_op(frame_ops(seg, sel), PinOp::High(PinId::Latch)) == 1,
        clock_rises_follow_data(frame_ops(seg, sel)),
{
    reveal_with_fuel(count_op, 3);
    let lo = seq![PinOp::Low(PinId::Latch)];
    let hi = seq![PinOp::High(PinId::Latch)];
    let s1 = shift_ops(seg);
    let s2 = shift_ops(sel);
    lemma_shift_ops_upto_profile(seg, 8);
    lemma_shift_ops_upto_profile(sel, 8);
    assert(lo.drop_last() =~= Seq::<PinOp>::empty());
    assert(hi.drop_last() =~= Seq::<PinOp>::empty());
    assert(count_op(lo, PinOp::High(PinId::Clock)) == 0);
    assert(count_op(lo, PinOp::Low(PinId::Latch)) == 1);
    assert(count_op(lo, PinOp::High(PinId::Latch)) == 0);
    assert(count_op(hi, PinOp::High(PinId::Clock)) == 0);
    assert(count_op(hi, PinOp::Low(PinId::Latch)) == 0);
    assert(count_op(hi, PinOp::High(PinId::Latch)) == 1);
    lemma_count_op_concat(lo, s1, PinOp::High(PinId::Clock));
    lemma_count_op_concat(lo, s1, PinOp::Low(PinId::Latch));
    lemma_count_op_concat(lo, s1, PinOp::High(PinId::Latch));
    lemma_count_op_concat(lo + s1, s2, PinOp::High(PinId::Clock));
    lemma_count_op_concat(lo + s1, s2, PinOp::Low(PinId::Latch));
    lemma_count_op_concat(lo + s1, s2, PinOp::High(PinId::Latch));
    lemma_count_op_concat(lo + s1 + s2, hi, PinOp::High(PinId::Clock));
    lemma_count_op_concat(lo + s1 + s2, hi, PinOp::Low(PinId::Latch));
    lemma_count_op_concat(lo + s1 + s2, hi, PinOp::High(PinId::Latch));
    assert(clock_rises_follow_data(lo));
    assert(clock_rises_follow_data(hi));
    lemma_follow_data_concat(lo, s1);
    lemma_follow_data_concat(lo + s1, s2);
    lemma_follow_data_concat(lo + s1 + s2, hi);
    assert(frame_ops(seg, sel) == lo + s1 + s2 + hi);
    assert((lo + s1 + s2 + hi)[0] == lo[0]);
    assert((lo + s1 + s2 + hi)[49] == hi[0]);
}

/// One refresh drives exactly four LATCH pulses (one frame per digit
/// position) and 64 CLOCK rising edges, each with DATA set immediately
/// before it.
pub proof fn lemma_scan_edge_profile(digits: Seq<u8>)
    ensures
        scan_ops(digits).len() == 200,
        count_op(scan_ops(digits), PinOp::Low(PinId::Latch)) == 4,
        count_op(scan_ops(digits), PinOp::High(PinId::Latch)) == 4,
        count_op(scan_ops(digits), PinOp::High(PinId::Clock)) == 64,
        clock_rises_follow_data(scan_ops(digits)),
{
    lemma_scan_ops_upto_profile(digits, 4);
}

proof fn lemma_scan_ops_upto_profile(digits: Seq<u8>, k: nat)
    requires
        k <= 4,
    ensures
        scan_ops_upto(digits, k).len() == 50 * k,
        count_op(scan_ops_upto(digits, k), PinOp::Low(PinId::Latch)) == k,
        count_op(scan_ops_upto(digits, k), PinOp::High(PinId::Latch)) == k,
        count_op(scan_ops_upto(digits, k), PinOp::High(PinId::Clock)) == 16 * k,
        clock_rises_follow_data(scan_ops_upto(digits, k)),
    decreases k,
{
    if k > 0 {
        let a = scan_ops_upto(digits, (k - 1) as nat);
        let b = frame_ops(digits[k - 1], select_mask(k - 1));
        lemma_scan_ops_upto_profile(digits, (k - 1) as nat);
        lemma_frame_edge_profile(digits[k - 1], select_mask(k - 1));
        lemma_count_op_concat(a, b, PinOp::Low(PinId::Latch));
        lemma_count_op_concat(a, b, PinOp::High(PinId::Latch));
        lemma_count_op_concat(a, b, PinOp::High(PinId::Clock));
        lemma_follow_data_concat(a, b);
    }
}

} // verus!
