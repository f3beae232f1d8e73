//! The sound player's bookkeeping: which clips there are to choose from,
//! what went wrong while getting them, and what the audio windows show. The
//! device and the clips themselves stay with whoever plays them.

use rand::rngs::ThreadRng;
use vstd::prelude::*;
use vstd::string::*;

use crate::dice::clamped;
use crate::random::draw_below;

verus! {

/// Loudest volume setting.
pub const VOLUME_MAX: i32 = 100;

/// Volume setting of a new player.
pub const VOLUME_DEFAULT: i32 = 50;

/// What became of one file of the sound directory.
#[derive(Clone, Copy, Debug, PartialEq, Eq)]
pub enum LoadStatus {
    /// The file was read and decoded; its clip can be played.
    Loaded,
    /// The file could not be opened.
    Unreadable,
    /// The file was opened but is no sound that can be decoded.
    Undecodable,
}

/// One file of the sound directory, with what became of it.
pub struct SoundFile {
    pub name: String,
    pub status: LoadStatus,
}

/// What is known of one file of the sound directory.
pub struct SoundFileView {
    pub name: Seq<char>,
    pub status: LoadStatus,
}

impl View for SoundFile {
    type V = SoundFileView;

    open spec fn view(&self) -> SoundFileView {
        SoundFileView { name: self.name@, status: self.status }
    }
}

/// The views of the files of a directory.
pub open spec fn file_views(files: Seq<SoundFile>) -> Seq<SoundFileView> {
    files.map_values(|f: SoundFile| f@)
}

/// A file whose name starts with `!` is set aside: it is neither loaded nor
/// reported.
pub open spec fn set_aside(name: Seq<char>) -> bool {
    name.len() > 0 && name[0] == '!'
}

/// The message for a device that could not be opened.
pub open spec fn device_failure(reason: Seq<char>) -> Seq<char> {
    "Fail to initialize output device for: "@ + reason
}

/// The message for a file that could not be decoded.
pub open spec fn decode_failure(name: Seq<char>) -> Seq<char> {
    "Fail to decode: "@ + name
}

/// The message for a file that could not be opened.
pub open spec fn read_failure(name: Seq<char>) -> Seq<char> {
    "Fail to read: "@ + name
}

/// The message for a directory without a single playable clip.
pub open spec fn nothing_found() -> Seq<char> {
    "No sound is found!"@
}

/// The messages for the files that failed to load, in directory order.
pub open spec fn load_failures(files: Seq<SoundFileView>) -> Seq<Seq<char>>
    decreases files.len(),
{
    if files.len() == 0 {
        Seq::empty()
    } else {
        let file = files.last();
        let earlier = load_failures(files.drop_last());
        if set_aside(file.name) {
            earlier
        } else {
            match file.status {
                LoadStatus::Loaded => earlier,
                LoadStatus::Unreadable => earlier.push(read_failure(file.name)),
                LoadStatus::Undecodable => earlier.push(decode_failure(file.name)),
            }
        }
    }
}

/// The number of clips that loaded.
pub open spec fn clips_loaded(files: Seq<SoundFileView>) -> nat
    decreases files.len(),
{
    if files.len() == 0 {
        0
    } else {
        let file = files.last();
        let earlier = clips_loaded(files.drop_last());
        if !set_aside(file.name) && file.status == LoadStatus::Loaded {
            earlier + 1
        } else {
            earlier
        }
    }
}

/// Every message a new player starts with: the device's failure if it has
/// one, the files that failed to load, and a last one if no clip loaded.
pub open spec fn startup_messages(
    device_error: Option<Seq<char>>,
    files: Seq<SoundFileView>,
) -> Seq<Seq<char>> {
    let device = match device_error {
        Some(reason) => seq![device_failure(reason)],
        None => Seq::empty(),
    };
    let found = if clips_loaded(files) == 0 {
        seq![nothing_found()]
    } else {
        Seq::empty()
    };
    device + load_failures(files) + found
}

/// What the player holds.
pub struct SoundView {
    /// Whether an output device is at hand.
    pub has_output: bool,
    /// Number of clips to choose from.
    pub clips: nat,
    /// The diagnostics gathered so far, oldest first.
    pub messages: Seq<Seq<char>>,
    /// The volume setting, from 0 to `VOLUME_MAX`.
    pub volume: int,
    /// Whether the audio settings window shows.
    pub control_open: bool,
    /// Whether the warning window shows.
    pub warning_open: bool,
}

/// A clip to play and the volume setting to play it at.
#[derive(Clone, Copy, Debug, PartialEq, Eq)]
pub struct PlayRequest {
    pub clip: usize,
    pub volume: i32,
}

/// What the user did in the audio settings window.
#[derive(Clone, Copy, Debug, PartialEq, Eq)]
pub enum AudioEvent {
    /// Closed the window.
    Close,
    /// Moved the volume slider.
    Volume(i32),
    /// Asked to see the warnings.
    ShowWarning,
    /// Asked for the output device to be opened anew.
    ResetDevice,
}

/// The texts of a list of messages.
pub open spec fn message_texts(messages: Seq<String>) -> Seq<Seq<char>> {
    messages.map_values(|m: String| m@)
}

/// The sound player's bookkeeping.
pub struct SoundPlayer {
    has_output: bool,
    clips: usize,
    error_message: Vec<String>,
    volume: i32,
    pub is_control_window_show: bool,
    is_error_window_show: bool,
}

impl View for SoundPlayer {
    type V = SoundView;

    closed spec fn view(&self) -> SoundView {
        SoundView {
            has_output: self.has_output,
            clips: self.clips as nat,
            messages: message_texts(self.error_message@),
            volume: self.volume as int,
            control_open: self.is_control_window_show,
            warning_open: self.is_error_window_show,
        }
    }
}

/// `prefix` followed by `rest`.
fn prefixed(prefix: &str, rest: &str) -> (text: String)
    ensures
        text@ == prefix@ + rest@,
{
    let mut text = String::new();
    text.append(prefix);
    text.append(rest);
    assert(text@ =~= prefix@ + rest@);
    text
}

impl SoundPlayer {
    /// Whether a file of this name is set aside.
    pub fn is_set_aside(name: &str) -> (b: bool)
        ensures
            b == set_aside(name@),
    {
        name.unicode_len() > 0 && name.get_char(0) == '!'
    }

    /// The player for a device that opened or failed with `device_error`,
    /// and a sound directory whose files fared as `files` says, in directory
    /// order. The clips are numbered from zero in the order they loaded.
    pub fn new(device_error: Option<String>, files: Vec<SoundFile>) -> (player: SoundPlayer)
        ensures
            player@.has_output == device_error.is_none(),
            player@.clips == clips_loaded(file_views(files@)),
            player@.messages == startup_messages(
                match device_error {
                    Some(reason) => Some(reason@),
                    None => None,
                },
                file_views(files@),
            ),
            player@.volume == VOLUME_DEFAULT,
            player@.control_open,
            player@.warning_open == (player@.messages.len() > 0),
    {
        let mut error_message: Vec<String> = Vec::new();
        let has_output = match &device_error {
            Some(reason) => {
                error_message.push(
                    prefixed("Fail to initialize output device for: ", reason.as_str()),
                );
                false
            },
            None => true,
        };
        let ghost device = message_texts(error_message@);
        let ghost all = file_views(files@);
        let mut clips: usize = 0;
        let mut i: usize = 0;
        proof {
            assert(all.take(0) =~= Seq::<SoundFileView>::empty());
            assert(device + load_failures(all.take(0)) =~= device);
        }
        while i < files.len()
            invariant
                i <= files.len(),
                all == file_views(files@),
                clips == clips_loaded(all.take(i as int)),
                clips <= i,
                message_texts(error_message@) == device + load_failures(all.take(i as int)),
            decreases files.len() - i,
        {
            let file = &files[i];
            let ghost before = error_message@;
            proof {
                assert(all.take(i + 1).drop_last() =~= all.take(i as int));
                assert(all.take(i + 1).last() == file@);
            }
            if !SoundPlayer::is_set_aside(file.name.as_str()) {
                match file.status {
                    LoadStatus::Loaded => {
                        clips += 1;
                    },
                    LoadStatus::Unreadable => {
                        let message = prefixed("Fail to read: ", file.name.as_str());
                        error_message.push(message);
                        assert(message_texts(error_message@) =~= message_texts(before).push(
                            read_failure(file@.name),
                        ));
                    },
                    LoadStatus::Undecodable => {
                        let message = prefixed("Fail to decode: ", file.name.as_str());
                        error_message.push(message);
                        assert(message_texts(error_message@) =~= message_texts(before).push(
                            decode_failure(file@.name),
                        ));
                    },
                }
            }
            assert(message_texts(error_message@) =~= device + load_failures(all.take(i + 1)));
            i += 1;
        }
        assert(all.take(files.len() as int) =~= all);
        if clips == 0 {
            let ghost before = error_message@;
            error_message.push(String::from_str("No sound is found!"));
            assert(message_texts(error_message@) =~= message_texts(before).push(nothing_found()));
        }
        let is_error_window_show = error_message.len() > 0;
        assert(message_texts(error_message@) =~= startup_messages(
            match device_error {
                Some(reason) => Some(reason@),
                None => None,
            },
            all,
        ));
        SoundPlayer {
            has_output,
            clips,
            error_message,
            volume: VOLUME_DEFAULT,
            is_control_window_show: true,
            is_error_window_show,
        }
    }

    /// Takes note of a new attempt to open the output device. After a
    /// failure the earlier messages make way for the failure's, and the
    /// warning window shows.
    pub fn reset_output_device(&mut self, device_error: Option<String>)
        ensures
            final(self)@ == match device_error {
                Some(reason) => SoundView {
                    has_output: false,
                    messages: seq![device_failure(reason@)],
                    warning_open: true,
                    ..old(self)@
                },
                None => SoundView { has_output: true, ..old(self)@ },
            },
    {
        match device_error {
            Some(reason) => {
                self.error_message.clear();
                self.has_output = false;
                self.add_err_message(
                    prefixed("Fail to initialize output device for: ", reason.as_str()),
                );
                assert(self@.messages =~= seq![device_failure(reason@)]);
            },
            None => {
                self.has_output = true;
            },
        }
    }

    /// Adds a diagnostic and shows the warning window.
    pub fn add_err_message(&mut self, msg: String)
        ensures
            final(self)@ == (SoundView {
                messages: old(self)@.messages.push(msg@),
                warning_open: true,
                ..old(self)@
            }),
    {
        let ghost before = self.error_message@;
        self.error_message.push(msg);
        self.is_error_window_show = true;
        assert(message_texts(self.error_message@) =~= message_texts(before).push(msg@));
    }

    /// Takes note that a clip could not be played, for the given reason.
    pub fn play_failed(&mut self, reason: &str)
        ensures
            final(self)@ == (SoundView {
                messages: old(self)@.messages.push(device_failure(reason@)),
                warning_open: true,
                ..old(self)@
            }),
    {
        self.add_err_message(prefixed("Fail to initialize output device for: ", reason));
    }

    /// Chooses the clip to play for a roll: one of the loaded clips, at the
    /// current volume setting. Without an output device or without clips
    /// there is nothing to play.
    pub fn play(&self, rd: &mut ThreadRng) -> (request: Option<PlayRequest>)
        ensures
            request.is_some() <==> self@.has_output && self@.clips > 0,
            request matches Some(r) ==> r.clip < self@.clips && r.volume == self@.volume,
    {
        if self.has_output && self.clips > 0 {
            let clip: usize = draw_below(rd, 0, self.clips);
            Some(PlayRequest { clip, volume: self.volume })
        } else {
            None
        }
    }

    /// Applies what the user did in the audio settings window. Returns
    /// whether the output device is to be opened anew; the outcome of that
    /// attempt then goes to `reset_output_device`.
    pub fn show_audio_control_window(&mut self, event: AudioEvent) -> (reset: bool)
        ensures
            reset == (event == AudioEvent::ResetDevice),
            final(self)@ == match event {
                AudioEvent::Close => SoundView { control_open: false, ..old(self)@ },
                AudioEvent::Volume(v) => SoundView {
                    volume: clamped(v as int, 0, VOLUME_MAX as int),
                    ..old(self)@
                },
                AudioEvent::ShowWarning => SoundView { warning_open: true, ..old(self)@ },
                AudioEvent::ResetDevice => old(self)@,
            },
    {
        match event {
            AudioEvent::Close => {
                self.is_control_window_show = false;
                false
            },
            AudioEvent::Volume(v) => {
                self.volume = if v < 0 {
                    0
                } else if v > VOLUME_MAX {
                    VOLUME_MAX
                } else {
                    v
                };
                false
            },
            AudioEvent::ShowWarning => {
                self.is_error_window_show = true;
                false
            },
            AudioEvent::ResetDevice => true,
        }
    }

    /// The messages of the warning window, or `None` while it is closed.
    pub fn show_err_window(&self) -> (lines: Option<&Vec<String>>)
        ensures
            lines.is_some() <==> self@.warning_open,
            lines matches Some(messages) ==> message_texts(messages@) == self@.messages,
    {
        if self.is_error_window_show {
            Some(&self.error_message)
        } else {
            None
        }
    }

    /// Closes the warning window. The messages are kept.
    pub fn close_err_window(&mut self)
        ensures
            final(self)@ == (SoundView { warning_open: false, ..old(self)@ }),
    {
        self.is_error_window_show = false;
    }

    /// Shows the audio settings window.
    pub fn open_control_window(&mut self)
        ensures
            final(self)@ == (SoundView { control_open: true, ..old(self)@ }),
    {
        self.is_control_window_show = true;
    }

    /// The volume setting.
    pub fn volume(&self) -> (v: i32)
        ensures
            v == self@.volume,
    {
        self.volume
    }

    /// The number of clips to choose from.
    pub fn clips(&self) -> (n: usize)
        ensures
            n == self@.clips,
    {
        self.clips
    }

    /// Whether an output device is at hand.
    pub fn has_output(&self) -> (b: bool)
        ensures
            b == self@.has_output,
    {
        self.has_output
    }

    /// The diagnostics gathered so far, oldest first.
    pub fn messages(&self) -> (messages: &Vec<String>)
        ensures
            message_texts(messages@) == self@.messages,
    {
        &self.error_message
    }
}

} // verus!
