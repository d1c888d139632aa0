use vstd::prelude::*;

use crate::events::ControlEvent;

verus! {

/// What a raw MIDI control change asks the channel to do. Values that the
/// channel turns into floating-point parameters are carried as the integers
/// they are computed from.
#[derive(Debug, Clone, Copy, PartialEq, Eq, Structural)]
pub enum ControlAction {
    /// Nothing to do beyond the registered-parameter bookkeeping.
    Nothing,
    /// CC 0: select the bank.
    SetBank(u8),
    /// RPN 0 (pitch bend range): `semitones` + `cents` / 100 semitones.
    PitchBendSensitivity { semitones: u8, cents: u8 },
    /// RPN 1 (fine tuning): the 14-bit value `msb * 64 + lsb`; the tuning in
    /// cents is `(value - 4096) / 4096 * 100`.
    FineTune(u16),
    /// RPN 2 (coarse tuning): the tuning in semitones.
    CoarseTune(i16),
    /// CC 7: volume target `value / 128`.
    Volume(u8),
    /// CC 8 and CC 10: pan target `value / 128` (0 = left, 0.5 = center).
    Pan(u8),
    /// CC 11: expression target `value / 128`.
    Expression(u8),
    /// CC 64: the damper (sustain pedal) is held or lifted.
    Damper(bool),
    /// CC 71: the filter resonance, `Some(value)` for values above 64 (a gain
    /// of `(value - 64) / 2.4` dB over the Butterworth Q), or `None`.
    Resonance(Option<u8>),
    /// CC 72: release time multiplier.
    ReleaseTime(u8),
    /// CC 73: attack time multiplier.
    AttackTime(u8),
    /// CC 74: cutoff frequency, `Some(key)` with the frequency of MIDI key
    /// `key` (values below 64, offset by 64), or `None` (filter off).
    Cutoff(Option<u8>),
    /// CC 120 with value 0: all sounds off.
    AllNotesKilled,
    /// CC 121 with value 0: reset all controllers.
    ResetControl,
    /// CC 123 with value 0: all notes off.
    AllNotesOff,
    /// A control event whose value is a floating-point number, passed on
    /// unchanged to the floating-point side of the channel.
    Floating(ControlEvent),
}

/// The registered-parameter (RPN) state of a channel: the selected
/// parameter and the data bytes received for pitch bend range and fine tuning.
#[derive(Debug, Clone, Copy, PartialEq, Eq, Structural)]
pub struct ControlEventData {
    pub selected_lsb: i8,
    pub selected_msb: i8,
    pub pitch_bend_sensitivity_lsb: u8,
    pub pitch_bend_sensitivity_msb: u8,
    pub fine_tune_lsb: u8,
    pub fine_tune_msb: u8,
}

/// The value of a data byte read as a signed byte (the selected parameter
/// numbers are stored that way).
pub open spec fn as_i8(value: u8) -> i8 {
    if value < 128 {
        value as i8
    } else {
        (value as int - 256) as i8
    }
}

/// The damper state for a CC 64 value: held for 64 to 127.
pub open spec fn damper_for(value: u8) -> bool {
    64 <= value <= 127
}

/// The state and action that a raw control change (`controller`, `value`)
/// leads to from state `d`.
pub open spec fn raw_control(d: ControlEventData, controller: u8, value: u8) -> (ControlEventData, ControlAction) {
    if controller == 0x00 {
        (d, ControlAction::SetBank(value))
    } else if controller == 0x64 {
        (ControlEventData { selected_lsb: as_i8(value), ..d }, ControlAction::Nothing)
    } else if controller == 0x65 {
        (ControlEventData { selected_msb: as_i8(value), ..d }, ControlAction::Nothing)
    } else if controller == 0x06 || controller == 0x26 {
        if d.selected_msb == 0 && d.selected_lsb == 0 {
            let d2 = if controller == 0x06 {
                ControlEventData { pitch_bend_sensitivity_msb: value, ..d }
            } else {
                ControlEventData { pitch_bend_sensitivity_lsb: value, ..d }
            };
            (
                d2,
                ControlAction::PitchBendSensitivity {
                    semitones: d2.pitch_bend_sensitivity_msb,
                    cents: d2.pitch_bend_sensitivity_lsb,
                },
            )
        } else if d.selected_msb == 0 && d.selected_lsb == 1 {
            let d2 = if controller == 0x06 {
                ControlEventData { fine_tune_msb: value, ..d }
            } else {
                ControlEventData { fine_tune_lsb: value, ..d }
            };
            (d2, ControlAction::FineTune((d2.fine_tune_msb * 64 + d2.fine_tune_lsb) as u16))
        } else if d.selected_msb == 0 && d.selected_lsb == 2 && controller == 0x06 {
            (d, ControlAction::CoarseTune((value - 64) as i16))
        } else {
            (d, ControlAction::Nothing)
        }
    } else if controller == 0x07 {
        (d, ControlAction::Volume(value))
    } else if controller == 0x0A || controller == 0x08 {
        (d, ControlAction::Pan(value))
    } else if controller == 0x0B {
        (d, ControlAction::Expression(value))
    } else if controller == 0x40 {
        (d, ControlAction::Damper(damper_for(value)))
    } else if controller == 0x47 {
        (d, ControlAction::Resonance(if value > 64 { Some(value) } else { None }))
    } else if controller == 0x48 {
        (d, ControlAction::ReleaseTime(value))
    } else if controller == 0x49 {
        (d, ControlAction::AttackTime(value))
    } else if controller == 0x4A {
        (d, ControlAction::Cutoff(if value < 64 { Some((value + 64) as u8) } else { None }))
    } else if controller == 0x78 && value == 0 {
        (d, ControlAction::AllNotesKilled)
    } else if controller == 0x79 && value == 0 {
        (d, ControlAction::ResetControl)
    } else if controller == 0x7B && value == 0 {
        (d, ControlAction::AllNotesOff)
    } else {
        (d, ControlAction::Nothing)
    }
}

impl ControlEventData {
    /// The state after a controller reset: no parameter selected, a pitch
    /// bend range of 2 semitones, no fine tuning data.
    pub open spec fn spec_defaults() -> ControlEventData {
        ControlEventData {
            selected_lsb: -1i8,
            selected_msb: -1i8,
            pitch_bend_sensitivity_lsb: 0,
            pitch_bend_sensitivity_msb: 2,
            fine_tune_lsb: 0,
            fine_tune_msb: 0,
        }
    }

    /// The default registered-parameter state.
    pub fn new_defaults() -> (r: Self)
        ensures
            r == Self::spec_defaults(),
    {
        ControlEventData {
            selected_lsb: -1,
            selected_msb: -1,
            pitch_bend_sensitivity_lsb: 0,
            pitch_bend_sensitivity_msb: 2,
            fine_tune_lsb: 0,
            fine_tune_msb: 0,
        }
    }

    /// Processes a raw MIDI control change: updates the registered-parameter
    /// state and returns what the channel has to do.
    pub fn process_raw(&mut self, controller: u8, value: u8) -> (r: ControlAction)
        ensures
            (*final(self), r) == raw_control(*old(self), controller, value),
            controller == 0x06 && old(self).selected_msb == 0 && old(self).selected_lsb == 2 ==> (r matches ControlAction::CoarseTune(
                t,
            ) && t as int == value as int - 64),
    {
        match controller {
            0x00 => ControlAction::SetBank(value),
            0x64 => {
                self.selected_lsb = byte_as_i8(value);
                ControlAction::Nothing
            },
            0x65 => {
                self.selected_msb = byte_as_i8(value);
                ControlAction::Nothing
            },
            0x06 | 0x26 => {
                let lsb = self.selected_lsb;
                let msb = self.selected_msb;
                if msb == 0 {
                    match lsb {
                        0 => {
                            if controller == 0x06 {
                                self.pitch_bend_sensitivity_msb = value;
                            } else {
                                self.pitch_bend_sensitivity_lsb = value;
                            }
                            ControlAction::PitchBendSensitivity {
                                semitones: self.pitch_bend_sensitivity_msb,
                                cents: self.pitch_bend_sensitivity_lsb,
                            }
                        },
                        1 => {
                            if controller == 0x06 {
                                self.fine_tune_msb = value;
                            } else {
                                self.fine_tune_lsb = value;
                            }
                            let val: u16 = (self.fine_tune_msb as u16) * 64 + self.fine_tune_lsb as u16;
                            ControlAction::FineTune(val)
                        },
                        2 => {
                            if controller == 0x06 {
                                ControlAction::CoarseTune(value as i16 - 64)
                            } else {
                                ControlAction::Nothing
                            }
                        },
                        _ => ControlAction::Nothing,
                    }
                } else {
                    ControlAction::Nothing
                }
            },
            0x07 => ControlAction::Volume(value),
            0x0A | 0x08 => ControlAction::Pan(value),
            0x0B => ControlAction::Expression(value),
            0x40 => {
                let damper = match value {
                    0..=63 => false,
                    64..=127 => true,
                    _ => false,
                };
                ControlAction::Damper(damper)
            },
            0x47 => {
                if value > 64 {
                    ControlAction::Resonance(Some(value))
                } else {
                    ControlAction::Resonance(None)
                }
            },
            0x48 => ControlAction::ReleaseTime(value),
            0x49 => ControlAction::AttackTime(value),
            0x4A => {
                if value < 64 {
                    ControlAction::Cutoff(Some(value + 64))
                } else {
                    ControlAction::Cutoff(None)
                }
            },
            0x78 => {
                if value == 0 {
                    ControlAction::AllNotesKilled
                } else {
                    ControlAction::Nothing
                }
            },
            0x79 => {
                if value == 0 {
                    ControlAction::ResetControl
                } else {
                    ControlAction::Nothing
                }
            },
            0x7B => {
                if value == 0 {
                    ControlAction::AllNotesOff
                } else {
                    ControlAction::Nothing
                }
            },
            _ => ControlAction::Nothing,
        }
    }
}

/// A data byte read as a signed byte.
fn byte_as_i8(value: u8) -> (r: i8)
    ensures
        r == as_i8(value),
{
    if value < 128 {
        value as i8
    } else {
        (value as i16 - 256) as i8
    }
}


/// Coarse tuning by registered parameter (0, 2): whatever the state before,
/// selecting the parameter (CC 101 = 0, CC 100 = 2) and sending the data
/// entry MSB (CC 6) with value `v` tunes by `v - 64` semitones, down for a
/// value below 64 and up above it; two data entries differ in tuning by
/// the difference of their values.
pub proof fn lemma_coarse_tune_entry(d: ControlEventData, v: u8, w: u8)
    ensures
        ({
            let d1 = raw_control(raw_control(d, 0x65, 0).0, 0x64, 2).0;
            let a = raw_control(d1, 0x06, v).1;
            let b = raw_control(d1, 0x06, w).1;
            &&& a matches ControlAction::CoarseTune(t) && t as int == v as int - 64
            &&& a matches ControlAction::CoarseTune(t) && b matches ControlAction::CoarseTune(u) && u - t == w - v
            &&& raw_control(d1, 0x06, v).0 == d1
        }),
{
    let d1 = raw_control(raw_control(d, 0x65, 0).0, 0x64, 2).0;
    assert(as_i8(0) == 0i8 && as_i8(2) == 2i8);
    assert(d1.selected_msb == 0 && d1.selected_lsb == 2);
}

/// The other registered parameters and the plain controllers: with
/// parameter (0, 0) selected, the data entry MSB (CC 6) sets the pitch
/// bend range's semitones and the LSB (CC 38) its cents, keeping the other
/// part; with (0, 1) selected they set the fine tuning's high and low
/// parts, read as `high * 64 + low`. Volume (CC 7), pan (CC 10 or 8) and
/// expression (CC 11) pass their value on; the damper (CC 64) is held for
/// 64 and above and lifted below.
pub proof fn lemma_control_entries(d: ControlEventData, v: u8)
    ensures
        d.selected_msb == 0 && d.selected_lsb == 0 ==> raw_control(d, 0x06, v).1 == (
        ControlAction::PitchBendSensitivity { semitones: v, cents: d.pitch_bend_sensitivity_lsb }),
        d.selected_msb == 0 && d.selected_lsb == 0 ==> raw_control(d, 0x26, v).1 == (
        ControlAction::PitchBendSensitivity { semitones: d.pitch_bend_sensitivity_msb, cents: v }),
        d.selected_msb == 0 && d.selected_lsb == 1 ==> (raw_control(d, 0x06, v).1 matches ControlAction::FineTune(f)
            && f as int == v as int * 64 + d.fine_tune_lsb as int),
        d.selected_msb == 0 && d.selected_lsb == 1 ==> (raw_control(d, 0x26, v).1 matches ControlAction::FineTune(f)
            && f as int == d.fine_tune_msb as int * 64 + v as int),
        raw_control(d, 0x07, v) == (d, ControlAction::Volume(v)),
        raw_control(d, 0x0A, v) == (d, ControlAction::Pan(v)),
        raw_control(d, 0x08, v) == (d, ControlAction::Pan(v)),
        raw_control(d, 0x0B, v) == (d, ControlAction::Expression(v)),
        raw_control(d, 0x40, v) == (d, ControlAction::Damper(64 <= v && v <= 127)),
        raw_control(d, 0x00, v) == (d, ControlAction::SetBank(v)),
{
}
} // verus!
