//! The dice feature as a whole: the tray, the history, the quick-roll
//! window and the sound player, driven by what the user does.

use rand::rngs::ThreadRng;
use vstd::prelude::*;

use crate::dice::{clamped, DiceView, DicesState, COUNT_MAX, DICE_NUM};
use crate::history::{
    lemma_added_keeps_details, lemma_cleared_keeps_details, lemma_cleared_to_last_keeps_details,
    lemma_pruned_keeps_details, ManagerView, RecordManager,
};
use crate::quick::{preset_dice, QuickEvent, QuickRoll};
use crate::roll::lemma_in_range_rollable;
use crate::sound::{device_failure, AudioEvent, PlayRequest, SoundPlayer, SoundView, VOLUME_MAX};

verus! {

/// An edit in the panel where the tray is set out.
#[derive(Clone, Copy, Debug, PartialEq, Eq)]
pub enum PanelEdit {
    /// Pressed the reset button.
    Reset,
    /// Dragged the count of a kind to a value.
    Count { kind: usize, value: i32 },
    /// Dragged the modifier to a value.
    Constant(i32),
}

/// One thing the user did, or one thing that happened on the user's behalf.
#[derive(Clone, Debug)]
pub enum Intent {
    /// Something in the quick-roll window.
    Quick(QuickEvent),
    /// Something in the audio settings window.
    Audio(AudioEvent),
    /// The output device was opened anew; `Some` carries the failure.
    DeviceReset(Option<String>),
    /// A clip could not be played, for the given reason.
    PlayFailed(String),
    /// Closed the warning window.
    CloseWarning,
    /// An edit in the tray panel.
    Panel(PanelEdit),
    /// Pressed the roll button, with or without asking for the sound.
    Roll { sound: bool },
    /// Asked for every detail window to be closed.
    CloseAllDetails,
    /// Asked for the quick-roll window.
    ShowQuickRoll,
    /// Asked for the audio settings window.
    ShowAudioConfig,
    /// Ticked or cleared the detail box of a line of the table.
    ToggleDetail { index: usize, show: bool },
    /// Closed a detached detail window.
    Dismiss { index: usize },
    /// Clicked the clear button.
    Clear { clicked: bool, double_clicked: bool },
    /// The frame is drawn: dismissed windows can go.
    EndFrame,
}

/// What is left for the caller to do after an intent is applied.
#[derive(Clone, Copy, Debug, PartialEq, Eq)]
pub enum Action {
    /// Nothing.
    Idle,
    /// Play a clip.
    Play(PlayRequest),
    /// Open the output device anew and report back with `Intent::DeviceReset`.
    ResetDevice,
}

/// What the feature holds.
pub struct FeatureView {
    pub dice: DiceView,
    pub records: ManagerView,
    pub quick_open: bool,
    pub sound: SoundView,
}

impl FeatureView {
    /// The tray has a count for each die kind and is in the setters' range,
    /// and the table is within its capacity.
    pub open spec fn wf(self) -> bool {
        &&& self.dice.counts.len() == DICE_NUM
        &&& self.dice.in_range()
        &&& self.records.wf()
    }

    /// After an edit in the tray panel.
    pub open spec fn edited(self, edit: PanelEdit) -> FeatureView {
        match edit {
            PanelEdit::Reset => FeatureView {
                dice: DiceView { counts: Seq::new(self.dice.counts.len(), |k: int| 0), modifier: 0 },
                ..self
            },
            PanelEdit::Count { kind, value } => if kind < self.dice.counts.len() {
                FeatureView {
                    dice: DiceView {
                        counts: self.dice.counts.update(
                            kind as int,
                            clamped(value as int, 0, COUNT_MAX as int),
                        ),
                        modifier: self.dice.modifier,
                    },
                    ..self
                }
            } else {
                self
            },
            PanelEdit::Constant(value) => FeatureView {
                dice: DiceView {
                    counts: self.dice.counts,
                    modifier: clamped(value as int, 0, COUNT_MAX as int),
                },
                ..self
            },
        }
    }

    /// The action that goes with a roll: the sound if it was asked for and
    /// there is one to play.
    pub open spec fn sound_for_roll(self, sound: bool, action: Action) -> bool {
        if sound && self.sound.has_output && self.sound.clips > 0 {
            action matches Action::Play(r) && r.clip < self.sound.clips && r.volume
                == self.sound.volume
        } else {
            action == Action::Idle
        }
    }

    /// Whether applying `intent` can lead from this state to `after` with
    /// `action` left to do. Every intent but a roll has one outcome; a roll
    /// adds the record of some roll of its tray.
    pub open spec fn steps_to(self, intent: Intent, after: FeatureView, action: Action) -> bool {
        match intent {
            Intent::Quick(QuickEvent::Close) => {
                &&& after == (FeatureView { quick_open: false, ..self })
                &&& action == Action::Idle
            },
            Intent::Quick(QuickEvent::Press { preset, sound }) => {
                &&& after == (FeatureView { records: after.records, ..self })
                &&& self.records.gained_roll(
                    after.records,
                    preset_dice(preset, self.dice.counts.len()),
                )
                &&& self.sound_for_roll(sound, action)
            },
            Intent::Roll { sound } => if self.dice.is_valid() {
                &&& after == (FeatureView { records: after.records, ..self })
                &&& self.records.gained_roll(after.records, self.dice)
                &&& self.sound_for_roll(sound, action)
            } else {
                &&& after == self
                &&& action == Action::Idle
            },
            Intent::Audio(event) => {
                &&& after == (FeatureView {
                    sound: match event {
                        AudioEvent::Close => SoundView {
                            control_open: false,
                            ..self.sound
                        },
                        AudioEvent::Volume(v) => SoundView {
                            volume: clamped(v as int, 0, VOLUME_MAX as int),
                            ..self.sound
                        },
                        AudioEvent::ShowWarning => SoundView {
                            warning_open: true,
                            ..self.sound
                        },
                        AudioEvent::ResetDevice => self.sound,
                    },
                    ..self
                })
                &&& action == if event == AudioEvent::ResetDevice {
                    Action::ResetDevice
                } else {
                    Action::Idle
                }
            },
            Intent::DeviceReset(outcome) => {
                &&& after == (FeatureView {
                    sound: match outcome {
                        Some(reason) => SoundView {
                            has_output: false,
                            messages: seq![device_failure(reason@)],
                            warning_open: true,
                            ..self.sound
                        },
                        None => SoundView { has_output: true, ..self.sound },
                    },
                    ..self
                })
                &&& action == Action::Idle
            },
            Intent::PlayFailed(reason) => {
                &&& after == (FeatureView {
                    sound: SoundView {
                        messages: self.sound.messages.push(device_failure(reason@)),
                        warning_open: true,
                        ..self.sound
                    },
                    ..self
                })
                &&& action == Action::Idle
            },
            Intent::CloseWarning => {
                &&& after == (FeatureView {
                    sound: SoundView { warning_open: false, ..self.sound },
                    ..self
                })
                &&& action == Action::Idle
            },
            Intent::Panel(edit) => {
                &&& after == self.edited(edit)
                &&& action == Action::Idle
            },
            Intent::CloseAllDetails => {
                &&& after == (FeatureView {
                    records: self.records.closed_details(),
                    ..self
                })
                &&& action == Action::Idle
            },
            Intent::ShowQuickRoll => {
                &&& after == (FeatureView { quick_open: true, ..self })
                &&& action == Action::Idle
            },
            Intent::ShowAudioConfig => {
                &&& after == (FeatureView {
                    sound: SoundView { control_open: true, ..self.sound },
                    ..self
                })
                &&& action == Action::Idle
            },
            Intent::ToggleDetail { index, show } => {
                &&& after == (FeatureView {
                    records: if index < self.records.history.len() {
                        self.records.toggled(index as int, show)
                    } else {
                        self.records
                    },
                    ..self
                })
                &&& action == Action::Idle
            },
            Intent::Dismiss { index } => {
                &&& after == (FeatureView {
                    records: if index < self.records.windows.len() {
                        self.records.dismissed(index as int)
                    } else {
                        self.records
                    },
                    ..self
                })
                &&& action == Action::Idle
            },
            Intent::Clear { clicked, double_clicked } => {
                &&& after == (FeatureView {
                    records: self.records.updated(clicked, double_clicked),
                    ..self
                })
                &&& action == Action::Idle
            },
            Intent::EndFrame => {
                &&& after == (FeatureView {
                    records: self.records.pruned(),
                    ..self
                })
                &&& action == Action::Idle
            },
        }
    }
}

/// Whether an intent is the user closing detail windows or ticking their
/// boxes.
pub open spec fn touches_details(intent: Intent) -> bool {
    intent is ToggleDetail || intent is Dismiss || intent is CloseAllDetails
}

/// A detail window stays open, on the same record, until the user closes
/// it: no roll, no eviction, no clearing of the table and no end of a frame
/// changes which records the open detail windows show.
pub proof fn lemma_details_stay_open(
    before: FeatureView,
    intent: Intent,
    after: FeatureView,
    action: Action,
)
    requires
        before.wf(),
        before.steps_to(intent, after, action),
        !touches_details(intent),
    ensures
        after.records.open_details() == before.records.open_details(),
{
    match intent {
        Intent::Quick(QuickEvent::Press { preset, sound }) => {
            lemma_added_keeps_details(before.records, after.records.history.last().record);
        },
        Intent::Roll { sound } => {
            if before.dice.is_valid() {
                lemma_added_keeps_details(before.records, after.records.history.last().record);
            }
        },
        Intent::Clear { clicked, double_clicked } => {
            lemma_cleared_to_last_keeps_details(before.records);
            if clicked {
                lemma_cleared_keeps_details(before.records.cleared_to_last());
            } else {
                lemma_cleared_keeps_details(before.records);
            }
        },
        Intent::EndFrame => {
            lemma_pruned_keeps_details(before.records);
        },
        _ => {},
    }
}

/// The table never outgrows its capacity and the tray never leaves the
/// setters' range, whatever the user does.
pub proof fn lemma_step_keeps_wf(
    before: FeatureView,
    intent: Intent,
    after: FeatureView,
    action: Action,
)
    requires
        before.wf(),
        before.steps_to(intent, after, action),
    ensures
        after.wf(),
{
    match intent {
        Intent::Quick(QuickEvent::Press { preset, sound }) => {
            lemma_added_keeps_details(before.records, after.records.history.last().record);
        },
        Intent::Roll { sound } => {
            if before.dice.is_valid() {
                lemma_added_keeps_details(before.records, after.records.history.last().record);
            }
        },
        Intent::Panel(edit) => {
            match edit {
                PanelEdit::Count { kind, value } => {
                    if kind < before.dice.counts.len() {
                        assert forall|k: int| 0 <= k < after.dice.counts.len() implies 0
                            <= #[trigger] after.dice.counts[k] <= COUNT_MAX by {
                            if k != kind {
                                assert(after.dice.counts[k] == before.dice.counts[k]);
                            }
                        }
                    }
                },
                _ => {},
            }
        },
        _ => {},
    }
}

/// The dice feature. Its view leaves the random source out: nothing is
/// known of what the source will draw.
pub struct DiceFeature<const N: usize> {
    state: DicesState<N>,
    records: RecordManager<N>,
    quick_roll: QuickRoll<N>,
    player: SoundPlayer,
    rd: ThreadRng,
}

impl<const N: usize> View for DiceFeature<N> {
    type V = FeatureView;

    closed spec fn view(&self) -> FeatureView {
        FeatureView {
            dice: self.state@,
            records: self.records@,
            quick_open: self.quick_roll.is_show,
            sound: self.player@,
        }
    }
}

impl<const N: usize> DiceFeature<N> {
    /// The feature at start-up: an empty tray and an empty history, the
    /// quick-roll window showing, and the sound player as given.
    pub fn new(player: SoundPlayer) -> (feature: DiceFeature<N>)
        requires
            N == DICE_NUM,
        ensures
            feature@.wf(),
            feature@.dice.is_blank(),
            feature@.records.history.len() == 0,
            feature@.records.windows.len() == 0,
            feature@.quick_open,
            feature@.sound == player@,
    {
        DiceFeature {
            state: DicesState::new([0; N], 0),
            records: RecordManager::new(),
            quick_roll: QuickRoll::new(),
            player,
            rd: rand::thread_rng(),
        }
    }

    /// Applies an edit in the tray panel.
    pub fn show_select_panel(&mut self, edit: PanelEdit)
        requires
            old(self)@.wf(),
        ensures
            final(self)@ == old(self)@.edited(edit),
            final(self)@.wf(),
    {
        match edit {
            PanelEdit::Reset => {
                self.state.reset();
                assert(self@.dice.counts =~= Seq::new(old(self)@.dice.counts.len(), |k: int| 0int));
            },
            PanelEdit::Count { kind, value } => {
                if kind < N {
                    self.state.set_count(kind, value);
                }
            },
            PanelEdit::Constant(value) => {
                self.state.set_constant(value);
            },
        }
    }

    /// Applies one intent and says what is left for the caller to do.
    pub fn update(&mut self, intent: Intent) -> (action: Action)
        requires
            old(self)@.wf(),
        ensures
            final(self)@.wf(),
            old(self)@.steps_to(intent, final(self)@, action),
    {
        match intent {
            Intent::Quick(event) => {
                let request = self.quick_roll.update(
                    &mut self.records,
                    &self.player,
                    &mut self.rd,
                    event,
                );
                match request {
                    Some(r) => Action::Play(r),
                    None => Action::Idle,
                }
            },
            Intent::Roll { sound } => {
                if self.state.valid() {
                    proof {
                        lemma_in_range_rollable(self.state@);
                    }
                    let request = if sound {
                        self.player.play(&mut self.rd)
                    } else {
                        None
                    };
                    self.records.add_record(self.state.roll(&mut self.rd));
                    match request {
                        Some(r) => Action::Play(r),
                        None => Action::Idle,
                    }
                } else {
                    Action::Idle
                }
            },
            Intent::Audio(event) => {
                if self.player.show_audio_control_window(event) {
                    Action::ResetDevice
                } else {
                    Action::Idle
                }
            },
            Intent::DeviceReset(outcome) => {
                self.player.reset_output_device(outcome);
                Action::Idle
            },
            Intent::PlayFailed(reason) => {
                self.player.play_failed(reason.as_str());
                Action::Idle
            },
            Intent::CloseWarning => {
                self.player.close_err_window();
                Action::Idle
            },
            Intent::Panel(edit) => {
                self.show_select_panel(edit);
                Action::Idle
            },
            Intent::CloseAllDetails => {
                self.records.close_all_details();
                Action::Idle
            },
            Intent::ShowQuickRoll => {
                self.quick_roll.is_show = true;
                Action::Idle
            },
            Intent::ShowAudioConfig => {
                self.player.open_control_window();
                Action::Idle
            },
            Intent::ToggleDetail { index, show } => {
                self.records.toggle_detail(index, show);
                Action::Idle
            },
            Intent::Dismiss { index } => {
                self.records.dismiss(index);
                Action::Idle
            },
            Intent::Clear { clicked, double_clicked } => {
                self.records.update(clicked, double_clicked);
                Action::Idle
            },
            Intent::EndFrame => {
                self.records.prune();
                Action::Idle
            },
        }
    }

    /// The tray.
    pub fn state(&self) -> (state: &DicesState<N>)
        ensures
            state@ == self@.dice,
    {
        &self.state
    }

    /// The history and the detached windows.
    pub fn records(&self) -> (records: &RecordManager<N>)
        ensures
            records@ == self@.records,
    {
        &self.records
    }

    /// The quick-roll window.
    pub fn quick_roll(&self) -> (quick: &QuickRoll<N>)
        ensures
            quick.is_show == self@.quick_open,
    {
        &self.quick_roll
    }

    /// The sound player.
    pub fn player(&self) -> (player: &SoundPlayer)
        ensures
            player@ == self@.sound,
    {
        &self.player
    }
}

/// The dice feature with a slot for each die kind that has faces.
pub struct DiceWrapper {
    dice_feature: DiceFeature<DICE_NUM>,
}

impl View for DiceWrapper {
    type V = FeatureView;

    closed spec fn view(&self) -> FeatureView {
        self.dice_feature@
    }
}

impl DiceWrapper {
    /// The feature at start-up, with the sound player as given.
    pub fn new(player: SoundPlayer) -> (wrapper: DiceWrapper)
        ensures
            wrapper@.wf(),
            wrapper@.dice.is_blank(),
            wrapper@.records.history.len() == 0,
            wrapper@.records.windows.len() == 0,
            wrapper@.quick_open,
            wrapper@.sound == player@,
    {
        DiceWrapper { dice_feature: DiceFeature::new(player) }
    }

    /// The feature itself, to draw it.
    pub fn feature(&self) -> (feature: &DiceFeature<DICE_NUM>)
        ensures
            feature@ == self@,
    {
        &self.dice_feature
    }

    /// Applies one intent to the feature and hands on what it leaves to do.
    pub fn update(&mut self, intent: Intent) -> (action: Action)
        requires
            old(self)@.wf(),
        ensures
            final(self)@.wf(),
            old(self)@.steps_to(intent, final(self)@, action),
    {
        self.dice_feature.update(intent)
    }
}

} // verus!
