//! The channels of the audio player: which sound plays on which channel.
//! The sounds themselves belong to the program around the library, which
//! starts and stops them as the functions here tell it.

use vstd::prelude::*;
use crate::text::{chars_of, has_at, holds_at, same_str};

verus! {

/// The number of channels.
pub const CHANNELS: usize = 48;

/// What `play_on_channel` asks for.
#[derive(Debug, PartialEq, Clone)]
pub enum ChannelPlay {
    /// Nothing: the sound is not loaded.
    UnknownSound,
    /// Nothing: there is no such channel.
    UnknownChannel,
    /// Start the sound, after stopping the sound `stop` that had the channel.
    Start { stop: Option<String> },
}

/// The channels and the names of the loaded sounds.
#[derive(Debug, PartialEq, Clone)]
pub struct AudioManager {
    sounds: Vec<String>,
    channels: Vec<String>,
}

/// Whether one of `names` is `name`.
pub open spec fn names_hold(names: Seq<Seq<char>>, name: Seq<char>) -> bool {
    exists|i: int| 0 <= i < names.len() && names[i] == name
}

/// The first channel from `from` on whose name is not the name of a loaded sound.
pub open spec fn free_channel(channels: Seq<Seq<char>>, sounds: Seq<Seq<char>>, from: int) -> Option<
    int,
>
    decreases channels.len() - from,
{
    if from < 0 || from >= channels.len() {
        None
    } else if !names_hold(sounds, channels[from]) {
        Some(from)
    } else {
        free_channel(channels, sounds, from + 1)
    }
}

/// The names on the channels from `from` on that are names of loaded sounds.
pub open spec fn playing_from(channels: Seq<Seq<char>>, sounds: Seq<Seq<char>>, from: int) -> Seq<
    Seq<char>,
>
    decreases channels.len() - from,
{
    if from < 0 || from >= channels.len() {
        Seq::empty()
    } else if names_hold(sounds, channels[from]) {
        seq![channels[from]] + playing_from(channels, sounds, from + 1)
    } else {
        playing_from(channels, sounds, from + 1)
    }
}

/// The channels with every name of a loaded sound taken off.
pub open spec fn silenced(channels: Seq<Seq<char>>, sounds: Seq<Seq<char>>) -> Seq<Seq<char>> {
    Seq::new(
        channels.len(),
        |i: int|
            if names_hold(sounds, channels[i]) {
                Seq::<char>::empty()
            } else {
                channels[i]
            },
    )
}

/// Whether `text` holds `word` somewhere.
pub open spec fn holds_somewhere(text: Seq<char>, word: Seq<char>) -> bool {
    exists|at: int| holds_at(text, at, word)
}

impl AudioManager {
    /// The names of the loaded sounds.
    pub closed spec fn sounds(&self) -> Seq<Seq<char>> {
        Seq::new(self.sounds.len() as nat, |i: int| self.sounds[i]@)
    }

    /// The name of the sound on each channel; the empty name on a channel without one.
    pub closed spec fn channels(&self) -> Seq<Seq<char>> {
        Seq::new(self.channels.len() as nat, |i: int| self.channels[i]@)
    }

    /// Whether a sound of this name is loaded.
    pub open spec fn knows(&self, id: Seq<char>) -> bool {
        names_hold(self.sounds(), id)
    }

    /// A player with no sound loaded and nothing on its channels.
    pub fn new() -> (r: Self)
        ensures
            r.sounds() == Seq::<Seq<char>>::empty(),
            r.channels() == Seq::new(CHANNELS as nat, |i: int| Seq::<char>::empty()),
    {
        let mut channels: Vec<String> = Vec::new();
        let mut i: usize = 0;
        while i < CHANNELS
            invariant
                i <= CHANNELS,
                channels.len() == i,
                forall|k: int| 0 <= k < i ==> (#[trigger] channels[k])@ == Seq::<char>::empty(),
            decreases CHANNELS - i,
        {
            channels.push(String::new());
            i += 1;
        }
        let r = AudioManager { sounds: Vec::new(), channels };
        assert(r.sounds() =~= Seq::<Seq<char>>::empty());
        assert(r.channels() =~= Seq::new(CHANNELS as nat, |i: int| Seq::<char>::empty()));
        r
    }

    /// Whether a sound of this name is loaded.
    pub fn is_loaded(&self, id: &str) -> (r: bool)
        ensures
            r == self.knows(id@),
    {
        let mut i: usize = 0;
        while i < self.sounds.len()
            invariant
                i <= self.sounds.len(),
                forall|k: int| 0 <= k < i ==> (#[trigger] self.sounds()[k]) != id@,
            decreases self.sounds.len() - i,
        {
            if same_str(self.sounds[i].as_str(), id) {
                assert(self.sounds()[i as int] == id@);
                return true;
            }
            i += 1;
        }
        false
    }

    /// Takes note of a sound that is about to be loaded from `file_path`
    /// under the name `id`, and says whether to load it: a file with `.wav`
    /// in its path is not loaded.
    pub fn load_audio(&mut self, id: &str, file_path: &str) -> (load: bool)
        ensures
            load == !holds_somewhere(file_path@, ".wav"@),
            final(self).channels() == old(self).channels(),
            load ==> final(self).sounds() == old(self).sounds().push(id@),
            !load ==> final(self).sounds() == old(self).sounds(),
    {
        let path = chars_of(file_path);
        let wav = chars_of(".wav");
        let mut at: usize = 0;
        while at < path.len()
            invariant
                path@ == file_path@,
                wav@ == ".wav"@,
                forall|k: int| 0 <= k < at ==> !holds_at(path@, k, wav@),
            decreases path.len() - at,
        {
            if has_at(&path, at, &wav) {
                return false;
            }
            at += 1;
        }
        proof {
            reveal_strlit(".wav");
            assert forall|k: int| !holds_at(path@, k, wav@) by {
                if k >= path.len() {
                    assert(k + wav@.len() > path@.len());
                }
            }
        }
        self.sounds.push(String::from_str(id));
        assert(self.sounds() =~= old(self).sounds().push(id@));
        assert(self.channels() =~= old(self).channels());
        true
    }

    /// The first channel without a loaded sound on it.
    pub fn get_available_channel(&self) -> (r: Option<usize>)
        ensures
            match r {
                Some(c) => free_channel(self.channels(), self.sounds(), 0) == Some(c as int) && c
                    < self.channels().len(),
                None => free_channel(self.channels(), self.sounds(), 0) is None,
            },
    {
        let mut i: usize = 0;
        while i < self.channels.len()
            invariant
                i <= self.channels.len(),
                free_channel(self.channels(), self.sounds(), i as int) == free_channel(
                    self.channels(),
                    self.sounds(),
                    0,
                ),
            decreases self.channels.len() - i,
        {
            assert(self.channels()[i as int] == self.channels[i as int]@);
            if !self.is_loaded(self.channels[i].as_str()) {
                return Some(i);
            }
            i += 1;
        }
        None
    }

    /// Gives a loaded sound the first channel that has none, and says which
    /// channel that is, for the sound to be started. An unknown sound gets no
    /// channel, nor any sound when every channel is taken.
    pub fn play(&mut self, id: &str, loop_audio: bool) -> (channel: Option<usize>)
        ensures
            final(self).sounds() == old(self).sounds(),
            match channel {
                Some(c) => old(self).knows(id@) && free_channel(
                    old(self).channels(),
                    old(self).sounds(),
                    0,
                ) == Some(c as int) && final(self).channels() == old(self).channels().update(
                    c as int,
                    id@,
                ),
                None => (!old(self).knows(id@) || free_channel(
                    old(self).channels(),
                    old(self).sounds(),
                    0,
                ) is None) && final(self).channels() == old(self).channels(),
            },
    {
        if !self.is_loaded(id) {
            return None;
        }
        match self.get_available_channel() {
            Some(channel) => {
                self.channels.set(channel, String::from_str(id));
                assert(self.channels() =~= old(self).channels().update(channel as int, id@));
                assert(self.sounds() =~= old(self).sounds());
                Some(channel)
            },
            None => None,
        }
    }

    /// Gives a loaded sound the channel `channel_idx`, and says what to do:
    /// start the sound, after stopping the loaded sound that had the channel.
    pub fn play_on_channel(&mut self, id: &str, loop_audio: bool, channel_idx: usize) -> (r:
        ChannelPlay)
        ensures
            final(self).sounds() == old(self).sounds(),
            !old(self).knows(id@) ==> r == ChannelPlay::UnknownSound && final(self).channels()
                == old(self).channels(),
            old(self).knows(id@) && channel_idx >= old(self).channels().len() ==> r
                == ChannelPlay::UnknownChannel && final(self).channels() == old(self).channels(),
            old(self).knows(id@) && channel_idx < old(self).channels().len() ==> final(self).channels() == old(self).channels().update(channel_idx as int, id@) && (match r {
                ChannelPlay::Start { stop: Some(name) } => name@ == old(self).channels()[channel_idx as int]
                    && old(self).knows(name@),
                ChannelPlay::Start { stop: None } => !old(self).knows(
                    old(self).channels()[channel_idx as int],
                ),
                _ => false,
            }),
    {
        if !self.is_loaded(id) {
            return ChannelPlay::UnknownSound;
        }
        if channel_idx >= self.channels.len() {
            return ChannelPlay::UnknownChannel;
        }
        assert(self.channels()[channel_idx as int] == self.channels[channel_idx as int]@);
        let stop = if self.is_loaded(self.channels[channel_idx].as_str()) {
            Some(self.channels[channel_idx].clone())
        } else {
            None
        };
        self.channels.set(channel_idx, String::from_str(id));
        assert(self.channels() =~= old(self).channels().update(channel_idx as int, id@));
        assert(self.sounds() =~= old(self).sounds());
        ChannelPlay::Start { stop }
    }

    /// Whether there is a sound of this name to stop.
    pub fn stop(&self, id: &str) -> (r: bool)
        ensures
            r == self.knows(id@),
    {
        self.is_loaded(id)
    }

    /// Takes the loaded sound off the channel `index` and names it, for the
    /// sound to be stopped.
    pub fn stop_channel(&mut self, index: usize) -> (stopped: Option<String>)
        ensures
            final(self).sounds() == old(self).sounds(),
            match stopped {
                Some(name) => index < old(self).channels().len() && name@ == old(self).channels()[index as int] && old(self).knows(name@) && final(self).channels()
                    == old(self).channels().update(index as int, Seq::<char>::empty()),
                None => (index >= old(self).channels().len() || !old(self).knows(
                    old(self).channels()[index as int],
                )) && final(self).channels() == old(self).channels(),
            },
    {
        if index >= self.channels.len() {
            return None;
        }
        assert(self.channels()[index as int] == self.channels[index as int]@);
        if !self.is_loaded(self.channels[index].as_str()) {
            return None;
        }
        let mut name = String::new();
        core::mem::swap(&mut name, &mut self.channels[index]);
        assert(self.channels() =~= old(self).channels().update(index as int, Seq::<char>::empty()));
        assert(self.sounds() =~= old(self).sounds());
        Some(name)
    }

    /// Takes every loaded sound off its channel and names them, channel
    /// after channel, for the sounds to be stopped.
    pub fn kill_all(&mut self) -> (stopped: Vec<String>)
        ensures
            final(self).sounds() == old(self).sounds(),
            final(self).channels() == silenced(old(self).channels(), old(self).sounds()),
            crate::text::texts(stopped@) == playing_from(
                old(self).channels(),
                old(self).sounds(),
                0,
            ),
    {
        let mut stopped: Vec<String> = Vec::new();
        let ghost channels = self.channels();
        let ghost sounds = self.sounds();
        let mut i: usize = self.channels.len();
        assert(crate::text::texts(stopped@) =~= playing_from(channels, sounds, i as int));
        while i > 0
            invariant
                i <= self.channels.len(),
                self.channels.len() == channels.len(),
                self.sounds() == sounds,
                forall|k: int| 0 <= k < i ==> (#[trigger] self.channels()[k]) == channels[k],
                forall|k: int|
                    i <= k < channels.len() ==> (#[trigger] self.channels()[k]) == silenced(
                        channels,
                        sounds,
                    )[k],
                crate::text::texts(stopped@) == playing_from(channels, sounds, i as int),
            decreases i,
        {
            i -= 1;
            let ghost before = crate::text::texts(stopped@);
            let ghost was = self.channels();
            assert(self.channels()[i as int] == self.channels[i as int]@);
            if self.is_loaded(self.channels[i].as_str()) {
                let mut name = String::new();
                core::mem::swap(&mut name, &mut self.channels[i]);
                stopped.insert(0, name);
                assert(crate::text::texts(stopped@) =~= seq![channels[i as int]] + before);
                assert(self.channels() =~= was.update(i as int, Seq::<char>::empty()));
            }
            assert(self.sounds() =~= sounds);
        }
        assert(self.channels() =~= silenced(channels, sounds));
        stopped
    }

    /// The name of the loaded sound on a channel, for its volume to be set.
    pub fn sound_on_channel(&self, channel_idx: usize) -> (r: Option<&str>)
        ensures
            match r {
                Some(name) => channel_idx < self.channels().len() && name@
                    == self.channels()[channel_idx as int] && self.knows(name@),
                None => channel_idx >= self.channels().len() || !self.knows(
                    self.channels()[channel_idx as int],
                ),
            },
    {
        if channel_idx >= self.channels.len() {
            return None;
        }
        assert(self.channels()[channel_idx as int] == self.channels[channel_idx as int]@);
        if self.is_loaded(self.channels[channel_idx].as_str()) {
            Some(self.channels[channel_idx].as_str())
        } else {
            None
        }
    }
}

} // verus!
