use crate::columns::FullDataEnum;
use crate::text::{chars_eq_range, chars_of};
use vstd::prelude::*;
use vstd::string::*;

verus! {

/// The game mode of a beatmap.
#[allow(non_camel_case_types)]
#[derive(Clone, Copy, Debug, Hash, PartialEq, Eq, Structural)]
pub enum GameMode_Serialized {
    /// osu!standard
    Osu,
    /// osu!taiko
    Taiko,
    /// osu!catch
    Catch,
    /// osu!mania
    Mania,
}

impl Default for GameMode_Serialized {
    fn default() -> (r: Self)
        ensures
            r == GameMode_Serialized::Osu,
    {
        GameMode_Serialized::Osu
    }
}

/// The type of curve of a slider.
#[allow(non_camel_case_types)]
#[derive(Clone, Copy, Debug, PartialEq, Eq, Structural)]
pub enum PathType_Serialized {
    Catmull,
    Bezier,
    Linear,
    PerfectCurve,
}

/// Whether beatmaps of this mode are analysed and written to the results table: only
/// osu!standard ones are.
pub fn is_analyzed_mode(mode: GameMode_Serialized) -> (r: bool)
    ensures
        r == (mode == GameMode_Serialized::Osu),
{
    match mode {
        GameMode_Serialized::Osu => true,
        _ => false,
    }
}

/// Whether stored statistics must be computed again: the options changed, and with them
/// the stream or the jump distance.
pub fn needs_stats_update(options_equal: bool, jump_distance_same: bool, stream_distance_same: bool) -> (r: bool)
    ensures
        r == (!options_equal && (!jump_distance_same || !stream_distance_same)),
{
    !options_equal && (!jump_distance_same || !stream_distance_same)
}

/// The songs folder to search: the short-hand `69` stands for `D:\osu\Songs`; any other
/// text is taken as it is.
pub fn resolve_songs_path(path: &str) -> (r: String)
    ensures
        path@ == "69"@ ==> r@ == "D:\\osu\\Songs"@,
        path@ != "69"@ ==> r@ == path@,
{
    let cs = chars_of(path);
    let short = chars_of("69");
    assert(cs@.subrange(0, cs@.len() as int) =~= cs@);
    if chars_eq_range(&cs, 0, cs.len(), &short) {
        String::from_str("D:\\osu\\Songs")
    } else {
        String::from_str(path)
    }
}

/// Beatmaps processed per second, over at least one second.
pub fn beatmaps_per_second(count: usize, seconds: u64) -> (r: u64)
    ensures
        r as int == count as int / if seconds == 0 {
            1int
        } else {
            seconds as int
        },
{
    let secs: u64 = if seconds == 0 {
        1
    } else {
        seconds
    };
    (count as u64) / secs
}

/// Rendering a column of a beatmap's full results as text.
pub trait FullDataTrait {
    fn get_string(&self, field: &FullDataEnum) -> String;
}

/// Rendering a column of a beatmap's stored results as text.
pub trait SavableFullDataTrait {
    fn get_string(&self, field: &FullDataEnum) -> String;
}

} // verus!
