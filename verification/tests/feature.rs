use dice_roller::application::Application;
use dice_roller::feature::{Action, DiceFeature, DiceWrapper, Intent, PanelEdit};
use dice_roller::quick::{Preset, QuickEvent, QuickRoll};
use dice_roller::sound::{AudioEvent, LoadStatus, SoundFile, SoundPlayer};

fn player_with(clips: usize) -> SoundPlayer {
    let files = (0..clips)
        .map(|i| SoundFile { name: format!("{}.wav", i), status: LoadStatus::Loaded })
        .collect();
    SoundPlayer::new(None, files)
}

fn feature() -> DiceFeature<5> {
    DiceFeature::new(player_with(3))
}

fn set_tray(feature: &mut DiceFeature<5>, counts: [i32; 5], modifier: i32) {
    for (kind, value) in counts.iter().enumerate() {
        feature.update(Intent::Panel(PanelEdit::Count { kind, value: *value }));
    }
    feature.update(Intent::Panel(PanelEdit::Constant(modifier)));
}

#[test]
fn a_new_feature_is_blank() {
    let feature = feature();
    assert_eq!(feature.state().dice_num, [0; 5]);
    assert_eq!(feature.state().constant, 0);
    assert_eq!(feature.records().len(), 0);
    assert_eq!(feature.records().window_count(), 0);
    assert!(feature.quick_roll().is_show);
    assert_eq!(feature.player().clips(), 3);
}

#[test]
fn panel_edits_set_the_tray() {
    let mut feature = feature();
    assert_eq!(
        feature.update(Intent::Panel(PanelEdit::Count { kind: 1, value: 2 })),
        Action::Idle
    );
    feature.update(Intent::Panel(PanelEdit::Count { kind: 4, value: 500 }));
    feature.update(Intent::Panel(PanelEdit::Count { kind: 0, value: -2 }));
    feature.update(Intent::Panel(PanelEdit::Count { kind: 5, value: 9 }));
    feature.update(Intent::Panel(PanelEdit::Constant(1)));
    assert_eq!(feature.state().dice_num, [0, 2, 0, 0, 100]);
    assert_eq!(feature.state().constant, 1);
    feature.show_select_panel(PanelEdit::Constant(-3));
    assert_eq!(feature.state().constant, 0);
    feature.update(Intent::Panel(PanelEdit::Reset));
    assert_eq!(feature.state().dice_num, [0; 5]);
    assert_eq!(feature.state().constant, 0);
}

#[test]
fn rolling_a_blank_tray_does_nothing() {
    let mut feature = feature();
    assert_eq!(feature.update(Intent::Roll { sound: true }), Action::Idle);
    assert_eq!(feature.update(Intent::Roll { sound: false }), Action::Idle);
    feature.update(Intent::Panel(PanelEdit::Constant(5)));
    assert_eq!(feature.update(Intent::Roll { sound: true }), Action::Idle);
    assert_eq!(feature.records().len(), 0);
}

#[test]
fn a_roll_adds_a_record_of_the_tray() {
    let mut feature = feature();
    set_tray(&mut feature, [0, 2, 0, 0, 0], 1);
    assert_eq!(feature.update(Intent::Roll { sound: false }), Action::Idle);
    assert_eq!(feature.records().len(), 1);
    let line = feature.records().line(0);
    assert!(!line.is_detail_show);
    assert_eq!(line.record.description(), "2D6 + 1");
    assert_eq!(line.record.outcomes(1).len(), 2);
    let sum: i32 = line.record.outcomes(1).iter().sum();
    assert_eq!(line.record.total(), sum + 1);
    assert_eq!(feature.state().dice_num, [0, 2, 0, 0, 0]);
}

#[test]
fn a_roll_with_sound_asks_for_a_clip() {
    let mut feature = feature();
    set_tray(&mut feature, [1, 0, 0, 0, 0], 0);
    feature.update(Intent::Audio(AudioEvent::Volume(70)));
    match feature.update(Intent::Roll { sound: true }) {
        Action::Play(request) => {
            assert!(request.clip < 3);
            assert_eq!(request.volume, 70);
        }
        other => panic!("expected a clip to play, got {:?}", other),
    }
    assert_eq!(feature.records().len(), 1);
}

#[test]
fn a_roll_with_sound_but_no_clips_is_silent() {
    let mut feature = DiceFeature::<5>::new(player_with(0));
    set_tray(&mut feature, [1, 0, 0, 0, 0], 0);
    assert_eq!(feature.update(Intent::Roll { sound: true }), Action::Idle);
    assert_eq!(feature.records().len(), 1);
}

#[test]
fn the_largest_tray_can_be_rolled() {
    let mut feature = feature();
    set_tray(&mut feature, [1000; 5], 1000);
    assert_eq!(feature.state().dice_num, [100; 5]);
    feature.update(Intent::Roll { sound: false });
    let record = &feature.records().line(0).record;
    assert!(600 <= record.total() && record.total() <= 14_300);
    assert_eq!(record.description(), "100D4 + 100D6 + 100D12 + 100D20 + 100D100 + 100");
}

#[test]
fn quick_presets_roll_their_own_tray() {
    let cases = [
        (Preset::OneD4, "1D4", 0, 1, 4),
        (Preset::ThreeD4, "3D4", 0, 3, 12),
        (Preset::OneD6, "1D6", 1, 1, 6),
        (Preset::ThreeD6, "3D6", 1, 3, 18),
        (Preset::OneD100, "1D100", 4, 1, 100),
    ];
    let mut feature = feature();
    set_tray(&mut feature, [0, 0, 5, 0, 0], 9);
    for (i, (preset, text, kind, least, most)) in cases.iter().enumerate() {
        assert_eq!(preset.label(), *text);
        let action = feature.update(Intent::Quick(QuickEvent::Press {
            preset: *preset,
            sound: false,
        }));
        assert_eq!(action, Action::Idle);
        assert_eq!(feature.records().len(), i + 1);
        let record = &feature.records().line(i).record;
        assert_eq!(record.description(), *text);
        assert_eq!(record.outcomes(*kind).len(), *least as usize);
        assert!(*least <= record.total() && record.total() <= *most);
    }
    assert_eq!(feature.state().dice_num, [0, 0, 5, 0, 0]);
    assert_eq!(feature.state().constant, 9);
}

#[test]
fn a_quick_press_with_sound_asks_for_a_clip() {
    let mut feature = feature();
    let action =
        feature.update(Intent::Quick(QuickEvent::Press { preset: Preset::OneD6, sound: true }));
    assert!(matches!(action, Action::Play(request) if request.clip < 3 && request.volume == 50));
    assert_eq!(feature.records().len(), 1);
}

#[test]
fn the_quick_roll_window_closes_and_comes_back() {
    let mut feature = feature();
    assert_eq!(feature.update(Intent::Quick(QuickEvent::Close)), Action::Idle);
    assert!(!feature.quick_roll().is_show);
    assert_eq!(feature.records().len(), 0);
    feature.update(Intent::ShowQuickRoll);
    assert!(feature.quick_roll().is_show);
}

#[test]
fn preset_states() {
    assert_eq!(QuickRoll::<5>::state_of(Preset::OneD4).dice_num, [1, 0, 0, 0, 0]);
    assert_eq!(QuickRoll::<5>::state_of(Preset::ThreeD4).dice_num, [3, 0, 0, 0, 0]);
    assert_eq!(QuickRoll::<5>::state_of(Preset::OneD6).dice_num, [0, 1, 0, 0, 0]);
    assert_eq!(QuickRoll::<5>::state_of(Preset::ThreeD6).dice_num, [0, 3, 0, 0, 0]);
    assert_eq!(QuickRoll::<5>::state_of(Preset::OneD100).dice_num, [0, 0, 0, 0, 1]);
    assert_eq!(QuickRoll::<5>::state_of(Preset::OneD100).constant, 0);
    assert_eq!(QuickRoll::<7>::state_of(Preset::ThreeD6).dice_num, [0, 3, 0, 0, 0, 0, 0]);
}

#[test]
fn array_n_takes_five_counts_and_pads_with_zeros() {
    assert_eq!(QuickRoll::<5>::array_n(&[1, 2, 3, 4, 5]), [1, 2, 3, 4, 5]);
    assert_eq!(QuickRoll::<5>::array_n(&[1, 2, 3, 4, 5, 6, 7]), [1, 2, 3, 4, 5]);
    assert_eq!(QuickRoll::<8>::array_n(&[9, 8, 7, 6, 5, 4]), [9, 8, 7, 6, 5, 0, 0, 0]);
    let state = QuickRoll::<6>::gen_state(&[0, 0, 2, 0, 0]);
    assert_eq!(state.dice_num, [0, 0, 2, 0, 0, 0]);
    assert_eq!(state.constant, 0);
    assert!(QuickRoll::<5>::new().is_show);
}

#[test]
fn audio_intents_reach_the_player() {
    let mut feature = feature();
    assert_eq!(feature.update(Intent::Audio(AudioEvent::Close)), Action::Idle);
    assert!(!feature.player().is_control_window_show);
    assert_eq!(feature.update(Intent::ShowAudioConfig), Action::Idle);
    assert!(feature.player().is_control_window_show);
    assert_eq!(feature.update(Intent::Audio(AudioEvent::ShowWarning)), Action::Idle);
    assert!(feature.player().show_err_window().is_some());
    assert_eq!(feature.update(Intent::CloseWarning), Action::Idle);
    assert!(feature.player().show_err_window().is_none());
    assert_eq!(feature.update(Intent::Audio(AudioEvent::ResetDevice)), Action::ResetDevice);
    assert_eq!(feature.update(Intent::DeviceReset(Some("gone".to_string()))), Action::Idle);
    assert!(!feature.player().has_output());
    assert_eq!(
        feature.player().messages(),
        &vec!["Fail to initialize output device for: gone"]
    );
    feature.update(Intent::DeviceReset(None));
    assert!(feature.player().has_output());
    feature.update(Intent::PlayFailed("glitch".to_string()));
    assert_eq!(feature.player().messages().len(), 2);
    assert_eq!(
        feature.player().messages()[1],
        "Fail to initialize output device for: glitch"
    );
}

#[test]
fn history_intents_reach_the_manager() {
    let mut feature = feature();
    for _ in 0..4 {
        feature.update(Intent::Quick(QuickEvent::Press { preset: Preset::OneD4, sound: false }));
    }
    feature.update(Intent::ToggleDetail { index: 0, show: true });
    feature.update(Intent::ToggleDetail { index: 2, show: true });
    feature.update(Intent::ToggleDetail { index: 9, show: true });
    assert!(feature.records().line(0).is_detail_show);
    assert!(!feature.records().line(1).is_detail_show);
    feature.update(Intent::Clear { clicked: true, double_clicked: false });
    assert_eq!(feature.records().len(), 1);
    assert_eq!(feature.records().window_count(), 2);
    feature.update(Intent::Dismiss { index: 0 });
    assert!(!feature.records().window(0).should_open);
    assert!(feature.records().window(1).should_open);
    feature.update(Intent::EndFrame);
    assert_eq!(feature.records().window_count(), 1);
    feature.update(Intent::ToggleDetail { index: 0, show: true });
    feature.update(Intent::CloseAllDetails);
    assert_eq!(feature.records().window_count(), 0);
    assert!(!feature.records().line(0).is_detail_show);
    feature.update(Intent::Clear { clicked: true, double_clicked: true });
    assert_eq!(feature.records().len(), 0);
}

#[test]
fn the_wrapper_hands_intents_on() {
    let mut wrapper = DiceWrapper::new(player_with(1));
    assert_eq!(wrapper.feature().records().len(), 0);
    wrapper.update(Intent::Panel(PanelEdit::Count { kind: 3, value: 1 }));
    let action = wrapper.update(Intent::Roll { sound: true });
    assert!(matches!(action, Action::Play(request) if request.clip == 0));
    assert_eq!(wrapper.feature().records().len(), 1);
    assert_eq!(wrapper.feature().records().line(0).record.description(), "1D20");
}

#[test]
fn the_application_keeps_its_title() {
    let mut app = Application::new("Dice", player_with(0));
    assert_eq!(app.name(), "Dice");
    assert_eq!(
        app.wrapper().feature().player().messages(),
        &vec!["No sound is found!"]
    );
    app.update(Intent::Quick(QuickEvent::Press { preset: Preset::ThreeD6, sound: true }));
    assert_eq!(app.name(), "Dice");
    assert_eq!(app.wrapper().feature().records().len(), 1);
    let record = &app.wrapper().feature().records().line(0).record;
    assert!(3 <= record.total() && record.total() <= 18);
}
