use dice_roller::sound::{
    AudioEvent, LoadStatus, PlayRequest, SoundFile, SoundPlayer, VOLUME_DEFAULT, VOLUME_MAX,
};

fn file(name: &str, status: LoadStatus) -> SoundFile {
    SoundFile { name: name.to_string(), status }
}

fn loaded(count: usize) -> Vec<SoundFile> {
    (0..count).map(|i| file(&format!("clip{}.wav", i), LoadStatus::Loaded)).collect()
}

#[test]
fn a_player_with_device_and_clips_has_nothing_to_report() {
    let player = SoundPlayer::new(None, loaded(3));
    assert!(player.has_output());
    assert_eq!(player.clips(), 3);
    assert!(player.messages().is_empty());
    assert!(player.show_err_window().is_none());
    assert_eq!(player.volume(), VOLUME_DEFAULT);
    assert_eq!(player.volume(), 50);
    assert!(player.is_control_window_show);
}

#[test]
fn a_missing_device_is_reported_first() {
    let player = SoundPlayer::new(Some("no device".to_string()), loaded(1));
    assert!(!player.has_output());
    assert_eq!(player.clips(), 1);
    assert_eq!(player.messages(), &vec!["Fail to initialize output device for: no device"]);
    assert!(player.show_err_window().is_some());
}

#[test]
fn files_that_fail_are_reported_in_directory_order() {
    let files = vec![
        file("a.wav", LoadStatus::Loaded),
        file("b.txt", LoadStatus::Undecodable),
        file("c.wav", LoadStatus::Unreadable),
        file("d.ogg", LoadStatus::Loaded),
        file("e.bin", LoadStatus::Undecodable),
    ];
    let player = SoundPlayer::new(None, files);
    assert_eq!(player.clips(), 2);
    assert_eq!(
        player.messages(),
        &vec!["Fail to decode: b.txt", "Fail to read: c.wav", "Fail to decode: e.bin"]
    );
    assert_eq!(player.show_err_window().unwrap(), player.messages());
}

#[test]
fn files_set_aside_are_neither_loaded_nor_reported() {
    let files = vec![
        file("!readme.txt", LoadStatus::Undecodable),
        file("!hidden.wav", LoadStatus::Loaded),
        file("!gone", LoadStatus::Unreadable),
        file("roll.wav", LoadStatus::Loaded),
        file("not!aside.wav", LoadStatus::Loaded),
    ];
    let player = SoundPlayer::new(None, files);
    assert_eq!(player.clips(), 2);
    assert!(player.messages().is_empty());
}

#[test]
fn is_set_aside_looks_at_the_first_character() {
    assert!(SoundPlayer::is_set_aside("!"));
    assert!(SoundPlayer::is_set_aside("!a.wav"));
    assert!(!SoundPlayer::is_set_aside(""));
    assert!(!SoundPlayer::is_set_aside("a!.wav"));
    assert!(!SoundPlayer::is_set_aside(" !a.wav"));
    assert!(!SoundPlayer::is_set_aside("é!"));
}

#[test]
fn an_empty_directory_is_reported() {
    let player = SoundPlayer::new(None, vec![]);
    assert_eq!(player.clips(), 0);
    assert_eq!(player.messages(), &vec!["No sound is found!"]);
    assert!(player.show_err_window().is_some());
}

#[test]
fn everything_that_went_wrong_is_reported() {
    let files = vec![file("x.wav", LoadStatus::Unreadable), file("!y.wav", LoadStatus::Loaded)];
    let player = SoundPlayer::new(Some("busy".to_string()), files);
    assert_eq!(
        player.messages(),
        &vec![
            "Fail to initialize output device for: busy",
            "Fail to read: x.wav",
            "No sound is found!"
        ]
    );
    assert!(!player.has_output());
    assert_eq!(player.clips(), 0);
}

#[test]
fn play_picks_a_loaded_clip_at_the_current_volume() {
    let mut rd = rand::thread_rng();
    let mut player = SoundPlayer::new(None, loaded(7));
    player.show_audio_control_window(AudioEvent::Volume(80));
    for _ in 0..200 {
        let request = player.play(&mut rd).unwrap();
        assert!(request.clip < 7);
        assert_eq!(request.volume, 80);
    }
}

#[test]
fn play_picks_among_all_clips() {
    let mut rd = rand::thread_rng();
    let player = SoundPlayer::new(None, loaded(50));
    let picks: Vec<usize> = (0..200).map(|_| player.play(&mut rd).unwrap().clip).collect();
    assert!(picks.iter().any(|clip| *clip != 0));
    assert!(picks.iter().any(|clip| *clip != picks[0]));
    assert!(picks.iter().all(|clip| *clip < 50));
}

#[test]
fn play_of_the_only_clip() {
    let mut rd = rand::thread_rng();
    let player = SoundPlayer::new(None, loaded(1));
    assert_eq!(player.play(&mut rd), Some(PlayRequest { clip: 0, volume: 50 }));
}

#[test]
fn play_without_device_or_clips_is_silent() {
    let mut rd = rand::thread_rng();
    assert_eq!(SoundPlayer::new(Some("none".to_string()), loaded(3)).play(&mut rd), None);
    assert_eq!(SoundPlayer::new(None, vec![]).play(&mut rd), None);
    assert_eq!(SoundPlayer::new(Some("none".to_string()), vec![]).play(&mut rd), None);
}

#[test]
fn a_failed_reset_replaces_the_messages() {
    let mut player = SoundPlayer::new(None, vec![file("a", LoadStatus::Undecodable)]);
    player.close_err_window();
    assert_eq!(player.messages().len(), 2);
    player.reset_output_device(Some("unplugged".to_string()));
    assert!(!player.has_output());
    assert_eq!(player.messages(), &vec!["Fail to initialize output device for: unplugged"]);
    assert!(player.show_err_window().is_some());
}

#[test]
fn a_successful_reset_brings_the_device_back() {
    let mut player = SoundPlayer::new(Some("busy".to_string()), loaded(2));
    player.reset_output_device(None);
    assert!(player.has_output());
    assert_eq!(player.messages(), &vec!["Fail to initialize output device for: busy"]);
    assert_eq!(player.clips(), 2);
    let mut rd = rand::thread_rng();
    assert!(player.play(&mut rd).is_some());
}

#[test]
fn a_failed_play_is_added_to_the_messages() {
    let mut player = SoundPlayer::new(None, loaded(1));
    player.play_failed("stream closed");
    assert_eq!(player.messages(), &vec!["Fail to initialize output device for: stream closed"]);
    assert!(player.show_err_window().is_some());
    player.add_err_message("second".to_string());
    assert_eq!(player.messages().len(), 2);
    assert_eq!(player.messages()[1], "second");
    assert!(player.has_output());
}

#[test]
fn volume_is_held_to_its_range() {
    let mut player = SoundPlayer::new(None, loaded(1));
    assert!(!player.show_audio_control_window(AudioEvent::Volume(0)));
    assert_eq!(player.volume(), 0);
    player.show_audio_control_window(AudioEvent::Volume(-5));
    assert_eq!(player.volume(), 0);
    player.show_audio_control_window(AudioEvent::Volume(100));
    assert_eq!(player.volume(), VOLUME_MAX);
    player.show_audio_control_window(AudioEvent::Volume(101));
    assert_eq!(player.volume(), 100);
    player.show_audio_control_window(AudioEvent::Volume(37));
    assert_eq!(player.volume(), 37);
}

#[test]
fn audio_window_events() {
    let mut player = SoundPlayer::new(None, loaded(1));
    assert!(!player.show_audio_control_window(AudioEvent::Close));
    assert!(!player.is_control_window_show);
    player.open_control_window();
    assert!(player.is_control_window_show);
    assert!(player.show_err_window().is_none());
    assert!(!player.show_audio_control_window(AudioEvent::ShowWarning));
    assert_eq!(player.show_err_window().unwrap().len(), 0);
    player.close_err_window();
    assert!(player.show_err_window().is_none());
    assert!(player.show_audio_control_window(AudioEvent::ResetDevice));
    assert!(player.has_output());
    assert_eq!(player.volume(), 50);
}
