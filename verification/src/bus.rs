//! The observable model of the command/data bus.
//!
//! The driver owns one byte-level serial link and two digital output
//! lines: the data/command select line (low for a command byte, high for
//! a data byte) and the chip enable line (driven low around every byte
//! transfer).  A [`BusEvent`] records one elementary action on these
//! wires, and every driver operation is specified by the exact sequence
//! of events it appends to the driver's trace.

use vstd::prelude::*;

verus! {

/// One elementary action of the driver on its bus collaborators.
pub enum BusEvent {
    /// The data/command select line was driven low (command follows).
    DcxLow,
    /// The data/command select line was driven high (data follows).
    DcxHigh,
    /// The chip enable line was driven low (transfer begins).
    CsxLow,
    /// The chip enable line was driven high (transfer ends).
    CsxHigh,
    /// One byte was written on the serial link.
    Byte(u8),
    /// The delay capability was invoked for this many milliseconds.
    Pause(u16),
}

/// The most significant byte of a 16-bit word, sent first on the wire.
pub open spec fn hi_byte(w: u16) -> u8 {
    (w >> 8) as u8
}

/// The least significant byte of a 16-bit word, sent second on the wire.
pub open spec fn lo_byte(w: u16) -> u8 {
    (w & 0xFF) as u8
}

/// The framing of one command byte: select command, enable the chip,
/// transfer the opcode, disable the chip.
pub open spec fn cmd_frame(op: u8) -> Seq<BusEvent> {
    seq![
        BusEvent::DcxLow,
        BusEvent::CsxLow,
        BusEvent::Byte(op),
        BusEvent::CsxHigh,
    ]
}

/// The framing of one data byte: select data, enable the chip, transfer
/// the byte, disable the chip.
pub open spec fn data_frame(b: u8) -> Seq<BusEvent> {
    seq![
        BusEvent::DcxHigh,
        BusEvent::CsxLow,
        BusEvent::Byte(b),
        BusEvent::CsxHigh,
    ]
}

/// The framing of one 16-bit data word: select data, enable the chip,
/// transfer the two bytes most-significant first, disable the chip.
pub open spec fn word_frame(w: u16) -> Seq<BusEvent> {
    seq![
        BusEvent::DcxHigh,
        BusEvent::CsxLow,
        BusEvent::Byte(hi_byte(w)),
        BusEvent::Byte(lo_byte(w)),
        BusEvent::CsxHigh,
    ]
}

/// The bytes that a trace of events places on the serial link, in order.
pub open spec fn serial_of(events: Seq<BusEvent>) -> Seq<u8>
    decreases events.len(),
{
    if events.len() == 0 {
        Seq::empty()
    } else {
        let rest = serial_of(events.drop_first());
        match events[0] {
            BusEvent::Byte(b) => seq![b] + rest,
            _ => rest,
        }
    }
}

/// The levels that a trace of events drives on the data/command select
/// line, in order (true is high).
pub open spec fn dcx_of(events: Seq<BusEvent>) -> Seq<bool>
    decreases events.len(),
{
    if events.len() == 0 {
        Seq::empty()
    } else {
        let rest = dcx_of(events.drop_first());
        match events[0] {
            BusEvent::DcxHigh => seq![true] + rest,
            BusEvent::DcxLow => seq![false] + rest,
            _ => rest,
        }
    }
}

/// The levels that a trace of events drives on the chip enable line, in
/// order (true is high).
pub open spec fn csx_of(events: Seq<BusEvent>) -> Seq<bool>
    decreases events.len(),
{
    if events.len() == 0 {
        Seq::empty()
    } else {
        let rest = csx_of(events.drop_first());
        match events[0] {
            BusEvent::CsxHigh => seq![true] + rest,
            BusEvent::CsxLow => seq![false] + rest,
            _ => rest,
        }
    }
}

/// Each wire projection distributes over concatenation of traces.
pub proof fn lemma_proj_add(a: Seq<BusEvent>, b: Seq<BusEvent>)
    ensures
        serial_of(a + b) == serial_of(a) + serial_of(b),
        dcx_of(a + b) == dcx_of(a) + dcx_of(b),
        csx_of(a + b) == csx_of(a) + csx_of(b),
    decreases a.len(),
{
    if a.len() == 0 {
        assert(a + b =~= b);
        Seq::<u8>::add_empty_left(serial_of(a), serial_of(b));
        Seq::<bool>::add_empty_left(dcx_of(a), dcx_of(b));
        Seq::<bool>::add_empty_left(csx_of(a), csx_of(b));
    } else {
        let adf = a.drop_first();
        assert((a + b).len() > 0);
        assert((a + b)[0] == a[0]);
        assert((a + b).drop_first() =~= adf + b);
        lemma_proj_add(adf, b);
        match a[0] {
            BusEvent::Byte(v) => {
                vstd::seq_lib::lemma_concat_associative(seq![v], serial_of(adf), serial_of(b));
            },
            BusEvent::DcxHigh => {
                vstd::seq_lib::lemma_concat_associative(seq![true], dcx_of(adf), dcx_of(b));
            },
            BusEvent::DcxLow => {
                vstd::seq_lib::lemma_concat_associative(seq![false], dcx_of(adf), dcx_of(b));
            },
            BusEvent::CsxHigh => {
                vstd::seq_lib::lemma_concat_associative(seq![true], csx_of(adf), csx_of(b));
            },
            BusEvent::CsxLow => {
                vstd::seq_lib::lemma_concat_associative(seq![false], csx_of(adf), csx_of(b));
            },
            BusEvent::Pause(_) => {
            },
        }
    }
}

/// The wire traffic of one command frame: the opcode byte, a low level
/// on the select line, and one enable bracket.
pub proof fn lemma_cmd_frame_proj(op: u8)
    ensures
        serial_of(cmd_frame(op)) == seq![op],
        dcx_of(cmd_frame(op)) == seq![false],
        csx_of(cmd_frame(op)) == seq![false, true],
{
    let s1 = seq![BusEvent::CsxLow, BusEvent::Byte(op), BusEvent::CsxHigh];
    let s2 = seq![BusEvent::Byte(op), BusEvent::CsxHigh];
    let s3 = seq![BusEvent::CsxHigh];
    let s4 = Seq::<BusEvent>::empty();
    assert(cmd_frame(op).drop_first() =~= s1);
    assert(s1.drop_first() =~= s2);
    assert(s2.drop_first() =~= s3);
    assert(s3.drop_first() =~= s4);
    assert(serial_of(s4) =~= Seq::<u8>::empty());
    assert(serial_of(s3) =~= Seq::<u8>::empty());
    assert(serial_of(s2) =~= seq![op]);
    assert(serial_of(s1) =~= seq![op]);
    assert(serial_of(cmd_frame(op)) =~= seq![op]);
    assert(dcx_of(s4) =~= Seq::<bool>::empty());
    assert(dcx_of(s3) =~= Seq::<bool>::empty());
    assert(dcx_of(s2) =~= Seq::<bool>::empty());
    assert(dcx_of(s1) =~= Seq::<bool>::empty());
    assert(dcx_of(cmd_frame(op)) =~= seq![false]);
    assert(csx_of(s4) =~= Seq::<bool>::empty());
    assert(csx_of(s3) =~= seq![true]);
    assert(csx_of(s2) =~= seq![true]);
    assert(csx_of(s1) =~= seq![false, true]);
    assert(csx_of(cmd_frame(op)) =~= seq![false, true]);
}

/// The wire traffic of one data frame: the data byte, a high level on
/// the select line, and one enable bracket.
pub proof fn lemma_data_frame_proj(b: u8)
    ensures
        serial_of(data_frame(b)) == seq![b],
        dcx_of(data_frame(b)) == seq![true],
        csx_of(data_frame(b)) == seq![false, true],
{
    let s1 = seq![BusEvent::CsxLow, BusEvent::Byte(b), BusEvent::CsxHigh];
    let s2 = seq![BusEvent::Byte(b), BusEvent::CsxHigh];
    let s3 = seq![BusEvent::CsxHigh];
    let s4 = Seq::<BusEvent>::empty();
    assert(data_frame(b).drop_first() =~= s1);
    assert(s1.drop_first() =~= s2);
    assert(s2.drop_first() =~= s3);
    assert(s3.drop_first() =~= s4);
    assert(serial_of(s4) =~= Seq::<u8>::empty());
    assert(serial_of(s3) =~= Seq::<u8>::empty());
    assert(serial_of(s2) =~= seq![b]);
    assert(serial_of(s1) =~= seq![b]);
    assert(serial_of(data_frame(b)) =~= seq![b]);
    assert(dcx_of(s4) =~= Seq::<bool>::empty());
    assert(dcx_of(s3) =~= Seq::<bool>::empty());
    assert(dcx_of(s2) =~= Seq::<bool>::empty());
    assert(dcx_of(s1) =~= Seq::<bool>::empty());
    assert(dcx_of(data_frame(b)) =~= seq![true]);
    assert(csx_of(s4) =~= Seq::<bool>::empty());
    assert(csx_of(s3) =~= seq![true]);
    assert(csx_of(s2) =~= seq![true]);
    assert(csx_of(s1) =~= seq![false, true]);
    assert(csx_of(data_frame(b)) =~= seq![false, true]);
}

/// The wire traffic of one word frame: the two bytes most-significant
/// first, a high level on the select line, and one enable bracket.
pub proof fn lemma_word_frame_proj(w: u16)
    ensures
        serial_of(word_frame(w)) == seq![hi_byte(w), lo_byte(w)],
        dcx_of(word_frame(w)) == seq![true],
        csx_of(word_frame(w)) == seq![false, true],
{
    let s1 = seq![
        BusEvent::CsxLow,
        BusEvent::Byte(hi_byte(w)),
        BusEvent::Byte(lo_byte(w)),
        BusEvent::CsxHigh,
    ];
    let s2 = seq![BusEvent::Byte(hi_byte(w)), BusEvent::Byte(lo_byte(w)), BusEvent::CsxHigh];
    let s3 = seq![BusEvent::Byte(lo_byte(w)), BusEvent::CsxHigh];
    let s4 = seq![BusEvent::CsxHigh];
    let s5 = Seq::<BusEvent>::empty();
    assert(word_frame(w).drop_first() =~= s1);
    assert(s1.drop_first() =~= s2);
    assert(s2.drop_first() =~= s3);
    assert(s3.drop_first() =~= s4);
    assert(s4.drop_first() =~= s5);
    assert(serial_of(s5) =~= Seq::<u8>::empty());
    assert(serial_of(s4) =~= Seq::<u8>::empty());
    assert(serial_of(s3) =~= seq![lo_byte(w)]);
    assert(serial_of(s2) =~= seq![hi_byte(w), lo_byte(w)]);
    assert(serial_of(s1) =~= seq![hi_byte(w), lo_byte(w)]);
    assert(serial_of(word_frame(w)) =~= seq![hi_byte(w), lo_byte(w)]);
    assert(dcx_of(s5) =~= Seq::<bool>::empty());
    assert(dcx_of(s4) =~= Seq::<bool>::empty());
    assert(dcx_of(s3) =~= Seq::<bool>::empty());
    assert(dcx_of(s2) =~= Seq::<bool>::empty());
    assert(dcx_of(s1) =~= Seq::<bool>::empty());
    assert(dcx_of(word_frame(w)) =~= seq![true]);
    assert(csx_of(s5) =~= Seq::<bool>::empty());
    assert(csx_of(s4) =~= seq![true]);
    assert(csx_of(s3) =~= seq![true]);
    assert(csx_of(s2) =~= seq![true]);
    assert(csx_of(s1) =~= seq![false, true]);
    assert(csx_of(word_frame(w)) =~= seq![false, true]);
}

/// The chip-enable assert and the delay marker touch one wire at most:
/// a lone enable-low event drives only the enable line, and a pause
/// drives no wire at all.
pub proof fn lemma_marker_proj(ms: u16)
    ensures
        serial_of(seq![BusEvent::CsxLow]) == Seq::<u8>::empty(),
        dcx_of(seq![BusEvent::CsxLow]) == Seq::<bool>::empty(),
        csx_of(seq![BusEvent::CsxLow]) == seq![false],
        serial_of(seq![BusEvent::Pause(ms)]) == Seq::<u8>::empty(),
        dcx_of(seq![BusEvent::Pause(ms)]) == Seq::<bool>::empty(),
        csx_of(seq![BusEvent::Pause(ms)]) == Seq::<bool>::empty(),
{
    let s0 = Seq::<BusEvent>::empty();
    assert(seq![BusEvent::CsxLow].drop_first() =~= s0);
    assert(seq![BusEvent::Pause(ms)].drop_first() =~= s0);
    assert(serial_of(s0) =~= Seq::<u8>::empty());
    assert(dcx_of(s0) =~= Seq::<bool>::empty());
    assert(csx_of(s0) =~= Seq::<bool>::empty());
    assert(serial_of(seq![BusEvent::CsxLow]) =~= Seq::<u8>::empty());
    assert(dcx_of(seq![BusEvent::CsxLow]) =~= Seq::<bool>::empty());
    assert(csx_of(seq![BusEvent::CsxLow]) =~= seq![false]);
    assert(serial_of(seq![BusEvent::Pause(ms)]) =~= Seq::<u8>::empty());
    assert(dcx_of(seq![BusEvent::Pause(ms)]) =~= Seq::<bool>::empty());
    assert(csx_of(seq![BusEvent::Pause(ms)]) =~= Seq::<bool>::empty());
}

/// `n` consecutive pixel words of the same color.
pub open spec fn pixel_run(color: u16, n: nat) -> Seq<BusEvent>
    decreases n,
{
    if n == 0 {
        Seq::empty()
    } else {
        pixel_run(color, (n - 1) as nat) + word_frame(color)
    }
}

/// Every word frame occupies five events, so a run of `n` pixel words
/// occupies exactly `5 * n` events, and each successive group of five is
/// the frame of the same color word.
pub proof fn lemma_pixel_run_shape(color: u16, n: nat)
    ensures
        pixel_run(color, n).len() == 5 * n,
        forall|k: int|
            0 <= k < n ==> #[trigger] pixel_run(color, n).subrange(5 * k, 5 * k + 5)
                == word_frame(color),
    decreases n,
{
    if n > 0 {
        lemma_pixel_run_shape(color, (n - 1) as nat);
        let prev = pixel_run(color, (n - 1) as nat);
        let whole = pixel_run(color, n);
        assert forall|k: int| 0 <= k < n implies #[trigger] whole.subrange(5 * k, 5 * k + 5)
            == word_frame(color) by {
            if k < n - 1 {
                assert(prev.subrange(5 * k, 5 * k + 5) == word_frame(color));
                assert(whole.subrange(5 * k, 5 * k + 5) =~= prev.subrange(5 * k, 5 * k + 5));
            } else {
                assert(whole.subrange(5 * k, 5 * k + 5) =~= word_frame(color));
            }
        }
    }
}

} // verus!
