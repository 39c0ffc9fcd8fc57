//! Run configuration: which mirror to use, how the local collection is named,
//! how many concurrent downloads to allow, and where the game keeps its songs
//! and its collection file. Reading the configuration file and the machine's
//! registry is the caller's; deriving values from what was read happens here.

use vstd::prelude::*;

use crate::mirrors::MirrorType;
use crate::text::replace_all;
use crate::text::replaced;

verus! {

/// What the user chose: mirror, name template, concurrency bound.
pub struct UserConfig {
    pub mirror_type: MirrorType,
    pub collection_name_format: String,
    pub concurrent_downloads: usize,
}

/// Which remote collection to fetch.
pub struct CollectorConfig {
    pub id: i32,
}

/// Where the game keeps its songs directory and its collection file.
pub struct OsuConfig {
    pub songs_path: String,
    pub collection_path: String,
}

impl Default for OsuConfig {
    /// Paths not discovered yet.
    fn default() -> (r: OsuConfig)
        ensures
            r.songs_path@ == Seq::<char>::empty(),
            r.collection_path@ == Seq::<char>::empty(),
    {
        OsuConfig { songs_path: String::new(), collection_path: String::new() }
    }
}

/// The whole run configuration.
pub struct Config {
    pub user: UserConfig,
    pub collector: CollectorConfig,
    pub osu: OsuConfig,
}

/// Command-line arguments.
pub struct Args {
    /// Run a speed test against all mirrors instead of downloading.
    pub speedtest: bool,
}

/// The songs directory under the game's install directory.
pub fn songs_path_for(osu_path: &str) -> (r: String)
    ensures
        r@ == osu_path@ + "\\Songs"@,
{
    let mut r = String::from_str(osu_path);
    r.append("\\Songs");
    r
}

/// The collection file under the game's install directory.
pub fn collection_path_for(osu_path: &str) -> (r: String)
    ensures
        r@ == osu_path@ + "\\collection.db"@,
{
    let mut r = String::from_str(osu_path);
    r.append("\\collection.db");
    r
}

/// Where the first space ends the leading token (the token's length).
pub open spec fn first_space(s: Seq<char>) -> int
    decreases s.len(),
{
    if s.len() == 0 {
        0
    } else if s[0] == ' ' {
        0
    } else {
        1 + first_space(s.skip(1))
    }
}

proof fn lemma_first_space_at(s: Seq<char>, i: int)
    requires
        0 <= i <= s.len(),
        forall|k: int| 0 <= k < i ==> s[k] != ' ',
        i == s.len() || s[i] == ' ',
    ensures
        first_space(s) == i,
    decreases i,
{
    if i == 0 {
    } else {
        assert(s[0] != ' ');
        let sub = s.skip(1);
        assert forall|k: int| 0 <= k < i - 1 implies sub[k] != ' ' by {
            assert(sub[k] == s[k + 1]);
        }
        if i < s.len() {
            assert(sub[i - 1] == s[i]);
        }
        lemma_first_space_at(sub, i - 1);
    }
}

/// The game's install directory, read out of the shell launch command the
/// registry records for the game's file association: the command's first
/// token, with the quoting and the executable's file name removed.
pub fn game_path_from_launch_command(value: &str) -> (r: String)
    ensures
        r@ == replaced(
            replaced(value@.subrange(0, first_space(value@)), "\""@, ""@),
            "\\osu!.exe"@,
            ""@,
        ),
{
    let len = value.unicode_len();
    let mut i: usize = 0;
    while i < len
        invariant
            len == value@.len(),
            i <= len,
            forall|k: int| 0 <= k < i ==> value@[k] != ' ',
        ensures
            len == value@.len(),
            i <= len,
            forall|k: int| 0 <= k < i ==> value@[k] != ' ',
            i == len || value@[i as int] == ' ',
        decreases len - i,
    {
        if value.get_char(i) == ' ' {
            break ;
        }
        i = i + 1;
    }
    proof {
        lemma_first_space_at(value@, i as int);
    }
    let token = value.substring_char(0, i);
    let unquoted = replace_all(token, "\"", "");
    replace_all(unquoted.as_str(), "\\osu!.exe", "")
}

} // verus!
