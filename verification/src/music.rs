//! Background music: which notes a song plays on a given frame.
use vstd::prelude::*;

verus! {

/// A song: an eight-note scale walked by two voices at their own paces.
pub struct Song {
    pub name: &'static str,
    pub scale: [u16; 8],
    pub f1_pitchchange_timer: u8,
    pub f2_pitchchange_timer: u8,
    pub measure_length: u8,
    pub f1_note_duration: u8,
    pub f2_note_duration: u8,
    pub time_signature: (u8, u8),
}

/// The sound channel flag of the first pulse voice.
pub const TONE_PULSE1: u32 = 0;

/// The sound channel flag of the second pulse voice.
pub const TONE_PULSE2: u32 = 1;

/// The volume of every note of the background music.
pub const BGM_VOLUME: u32 = 20;

/// A note to hand to the sound hardware.
pub struct ToneCommand {
    pub frequency: u32,
    pub duration: u32,
    pub volume: u32,
    pub flags: u32,
}

/// A song can be played: no pace or bar length is zero.
pub open spec fn song_playable(song: &Song) -> bool {
    &&& song.f1_pitchchange_timer > 0
    &&& song.f2_pitchchange_timer > 0
    &&& song.time_signature.0 * song.measure_length > 0
    &&& song.time_signature.1 * song.measure_length > 0
}

/// Whether a song can be played (see `song_playable`).
pub fn song_is_playable(song: &Song) -> (r: bool)
    ensures
        r == song_playable(song),
{
    let a = song.time_signature.0;
    let b = song.time_signature.1;
    let m = song.measure_length;
    assert((a * m > 0) == (a > 0 && m > 0)) by (nonlinear_arith);
    assert((b * m > 0) == (b > 0 && m > 0)) by (nonlinear_arith);
    song.f1_pitchchange_timer > 0 && song.f2_pitchchange_timer > 0 && song.measure_length > 0
        && song.time_signature.0 > 0 && song.time_signature.1 > 0
}

/// The scale degree that voice 1 is on at `timer`.
pub open spec fn voice1_degree(timer: u32, song: &Song) -> int {
    (timer as int / (song.f1_pitchchange_timer as int)) % 8
}

/// The scale degree that voice 2 is on at `timer`.
pub open spec fn voice2_degree(timer: u32, song: &Song) -> int {
    (timer as int / (song.f2_pitchchange_timer as int)) % 8
}

/// Voice 1 sounds at the start of each of its bars; voice 2 sounds at the
/// start of each of its bars, unless it is within one degree of voice 1.
pub open spec fn bgm_spec(timer: u32, song: &Song) -> (Option<ToneCommand>, Option<ToneCommand>) {
    let f1 = voice1_degree(timer, song);
    let f2 = voice2_degree(timer, song);
    let num: int = song.time_signature.0 * song.measure_length;
    let den: int = song.time_signature.1 * song.measure_length;
    let gap: int = if f2 >= f1 { f2 - f1 } else { f1 - f2 };
    (
        if (timer as int) % num == 0 {
            Some(ToneCommand {
                frequency: song.scale[f1] as u32,
                duration: song.f1_note_duration as u32,
                volume: BGM_VOLUME,
                flags: TONE_PULSE1,
            })
        } else {
            None
        },
        if (timer as int) % den == 0 && gap > 1 {
            Some(ToneCommand {
                frequency: song.scale[f2] as u32,
                duration: song.f2_note_duration as u32,
                volume: BGM_VOLUME,
                flags: TONE_PULSE2,
            })
        } else {
            None
        },
    )
}

/// The notes that the background music plays at frame `timer`, for voice 1
/// and voice 2.
pub fn play_bgm(timer: u32, song: &Song) -> (tones: (Option<ToneCommand>, Option<ToneCommand>))
    requires
        song_playable(song),
    ensures
        tones == bgm_spec(timer, song),
{
    let freq1: usize = (timer as usize / song.f1_pitchchange_timer as usize) % 8;
    let freq2: usize = (timer as usize / song.f2_pitchchange_timer as usize) % 8;

    assert(song.time_signature.0 as u32 * song.measure_length as u32 <= 255 * 255) by (nonlinear_arith)
        requires song.time_signature.0 <= 255, song.measure_length <= 255;
    assert(song.time_signature.1 as u32 * song.measure_length as u32 <= 255 * 255) by (nonlinear_arith)
        requires song.time_signature.1 <= 255, song.measure_length <= 255;
    let time_signature_numerator: u32 = song.time_signature.0 as u32 * song.measure_length as u32;
    let time_signature_denominator: u32 = song.time_signature.1 as u32 * song.measure_length as u32;
    let first = if timer % time_signature_numerator == 0 {
        Some(
            ToneCommand {
                frequency: song.scale[freq1] as u32,
                duration: song.f1_note_duration as u32,
                volume: BGM_VOLUME,
                flags: TONE_PULSE1,
            },
        )
    } else {
        None
    };
    let gap: usize = if freq2 >= freq1 {
        freq2 - freq1
    } else {
        freq1 - freq2
    };
    let second = if timer % time_signature_denominator == 0 && gap > 1 {
        Some(
            ToneCommand {
                frequency: song.scale[freq2] as u32,
                duration: song.f2_note_duration as u32,
                volume: BGM_VOLUME,
                flags: TONE_PULSE2,
            },
        )
    } else {
        None
    };
    (first, second)
}

} // verus!
