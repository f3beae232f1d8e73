//! The quick-roll window: one button per preset tray.

use rand::rngs::ThreadRng;
use vstd::prelude::*;

use crate::dice::{ints, DiceView, DicesState, DICE_NUM};
use crate::history::RecordManager;
use crate::roll::lemma_in_range_rollable;
use crate::sound::{PlayRequest, SoundPlayer};

verus! {

/// The trays that can be rolled with one click.
#[derive(Clone, Copy, Debug, PartialEq, Eq)]
pub enum Preset {
    OneD4,
    ThreeD4,
    OneD6,
    ThreeD6,
    OneD100,
}

/// What the user did in the quick-roll window.
#[derive(Clone, Copy, Debug, PartialEq, Eq)]
pub enum QuickEvent {
    /// Closed the window.
    Close,
    /// Pressed a preset's button, with or without asking for the sound.
    Press { preset: Preset, sound: bool },
}

/// The counts of a preset's tray for the five kinds with faces.
pub open spec fn preset_counts(preset: Preset) -> Seq<int> {
    match preset {
        Preset::OneD4 => seq![1, 0, 0, 0, 0],
        Preset::ThreeD4 => seq![3, 0, 0, 0, 0],
        Preset::OneD6 => seq![0, 1, 0, 0, 0],
        Preset::ThreeD6 => seq![0, 3, 0, 0, 0],
        Preset::OneD100 => seq![0, 0, 0, 0, 1],
    }
}

/// `head` followed by zeros up to length `len`.
pub open spec fn zero_padded(head: Seq<int>, len: nat) -> Seq<int> {
    Seq::new(
        len,
        |i: int|
            if i < head.len() {
                head[i]
            } else {
                0
            },
    )
}

/// The tray of a preset, among `len` kinds.
pub open spec fn preset_dice(preset: Preset, len: nat) -> DiceView {
    DiceView { counts: zero_padded(preset_counts(preset), len), modifier: 0 }
}

/// The quick-roll window.
pub struct QuickRoll<const N: usize> {
    pub is_show: bool,
}

impl Preset {
    /// The text on the preset's button.
    pub fn label(&self) -> (text: &'static str)
        ensures
            text@ == match *self {
                Preset::OneD4 => "1D4"@,
                Preset::ThreeD4 => "3D4"@,
                Preset::OneD6 => "1D6"@,
                Preset::ThreeD6 => "3D6"@,
                Preset::OneD100 => "1D100"@,
            },
    {
        match self {
            Preset::OneD4 => "1D4",
            Preset::ThreeD4 => "3D4",
            Preset::OneD6 => "1D6",
            Preset::ThreeD6 => "3D6",
            Preset::OneD100 => "1D100",
        }
    }
}

impl<const N: usize> QuickRoll<N> {
    /// The window, showing.
    pub fn new() -> (quick: QuickRoll<N>)
        ensures
            quick.is_show,
    {
        QuickRoll { is_show: true }
    }

    /// The first five counts of `ori`, followed by zeros.
    pub fn array_n(ori: &[i32]) -> (trans: [i32; N])
        requires
            N >= DICE_NUM,
            ori.len() >= DICE_NUM,
        ensures
            ints(trans@) == zero_padded(ints(ori@).take(DICE_NUM as int), N as nat),
    {
        let mut trans: [i32; N] = [0; N];
        trans[0] = ori[0];
        trans[1] = ori[1];
        trans[2] = ori[2];
        trans[3] = ori[3];
        trans[4] = ori[4];
        assert(ints(trans@) =~= zero_padded(ints(ori@).take(DICE_NUM as int), N as nat));
        trans
    }

    /// The tray with the first five counts of `ori` and no modifier.
    pub fn gen_state(ori: &[i32]) -> (state: DicesState<N>)
        requires
            N >= DICE_NUM,
            ori.len() >= DICE_NUM,
        ensures
            state@.counts == zero_padded(ints(ori@).take(DICE_NUM as int), N as nat),
            state@.modifier == 0,
    {
        DicesState::new(QuickRoll::<N>::array_n(ori), 0)
    }

    /// The tray of `preset`.
    pub fn state_of(preset: Preset) -> (state: DicesState<N>)
        requires
            N >= DICE_NUM,
        ensures
            state@ == preset_dice(preset, N as nat),
            state@.rollable(),
    {
        let state = match preset {
            Preset::OneD4 => QuickRoll::<N>::gen_state(&[1, 0, 0, 0, 0]),
            Preset::ThreeD4 => QuickRoll::<N>::gen_state(&[3, 0, 0, 0, 0]),
            Preset::OneD6 => QuickRoll::<N>::gen_state(&[0, 1, 0, 0, 0]),
            Preset::ThreeD6 => QuickRoll::<N>::gen_state(&[0, 3, 0, 0, 0]),
            Preset::OneD100 => QuickRoll::<N>::gen_state(&[0, 0, 0, 0, 1]),
        };
        proof {
            assert(state@.counts =~= zero_padded(preset_counts(preset), N as nat));
            assert(state@.counts[0] != 0 || state@.counts[1] != 0 || state@.counts[4] != 0);
            lemma_in_range_rollable(state@);
        }
        state
    }

    /// Applies what the user did in the quick-roll window. A press rolls the
    /// preset's tray and adds the record to the history; a press that asks
    /// for the sound also returns a clip to play, if the player has one.
    pub fn update(
        &mut self,
        records: &mut RecordManager<N>,
        player: &SoundPlayer,
        rd: &mut ThreadRng,
        event: QuickEvent,
    ) -> (request: Option<PlayRequest>)
        requires
            N >= DICE_NUM,
            old(records)@.wf(),
        ensures
            final(records)@.wf(),
            final(records)@.open_details() == old(records)@.open_details(),
            match event {
                QuickEvent::Close => {
                    &&& !final(self).is_show
                    &&& final(records)@ == old(records)@
                    &&& request.is_none()
                },
                QuickEvent::Press { preset, sound } => {
                    &&& final(self).is_show == old(self).is_show
                    &&& old(records)@.gained_roll(final(records)@, preset_dice(preset, N as nat))
                    &&& request.is_some() <==> sound && player@.has_output && player@.clips > 0
                    &&& request matches Some(r) ==> r.clip < player@.clips && r.volume
                        == player@.volume
                },
            },
    {
        match event {
            QuickEvent::Close => {
                self.is_show = false;
                None
            },
            QuickEvent::Press { preset, sound } => {
                let request = if sound {
                    player.play(rd)
                } else {
                    None
                };
                let state = QuickRoll::<N>::state_of(preset);
                records.add_record(state.roll(rd));
                request
            },
        }
    }
}

} // verus!
