//! `preset save`'s reading of its flags, and where a named preset's file
//! lives.

use vstd::prelude::*;
use vstd::string::*;
use crate::capability::{LightingEffect, LightingMode, Direction, SleepTime};
use crate::preset::Preset;
use crate::cli::actions::{build_effect, effect_failure, spec_build_effect, Failure};
use crate::cli::rgb::spec_parse_hex_color;
use crate::text::{str_equal, texts};

verus! {

/// Reads `preset save`'s flags into a preset: the lighting flags only
/// when a mode is given (and then they must all parse), the sleep preset
/// only when given (and then it must name a preset), and at least one of
/// the two must be given.
pub fn preset_from_args(
    mode: Option<&str>,
    color: &str,
    brightness: u8,
    speed: u8,
    direction: &str,
    sleep: Option<&str>,
) -> (r: Result<Preset, Failure>)
    ensures
        match mode {
            Some(m) => spec_build_effect(m@, color@, brightness, speed, direction@) is None
                ==> (r matches Err(f) && effect_failure(m@, color@, direction@, f)),
            None => true,
        },
        match (mode, sleep) {
            (Some(m), _) if spec_build_effect(m@, color@, brightness, speed, direction@) is None => true,
            (_, Some(s)) if SleepTime::spec_from_name(s@) is None =>
                r matches Err(Failure::UnknownSleepPreset { text }) && text@ == s@,
            (None, None) => r matches Err(Failure::NothingToSave),
            _ => r == Ok::<Preset, Failure>(Preset {
                lighting: match mode {
                    Some(m) => spec_build_effect(m@, color@, brightness, speed, direction@),
                    None => None,
                },
                sleep_time: match sleep {
                    Some(s) => SleepTime::spec_from_name(s@),
                    None => None,
                },
            }),
        },
{
    let lighting = match mode {
        Some(m) => match build_effect(m, color, brightness, speed, direction) {
            Ok(effect) => Some(effect),
            Err(f) => return Err(f),
        },
        None => None,
    };
    let sleep_time = match sleep {
        Some(s) => match SleepTime::from_name(s) {
            Some(t) => Some(t),
            None => return Err(Failure::UnknownSleepPreset { text: s.to_owned() }),
        },
        None => None,
    };
    if lighting.is_none() && sleep_time.is_none() {
        return Err(Failure::NothingToSave);
    }
    Ok(Preset { lighting, sleep_time })
}

/// `dir` joined with `file` the way paths join: an absolute `file`
/// replaces `dir`; otherwise a `/` separates them unless `dir` is empty
/// or already ends in one.
pub open spec fn joined_path(dir: Seq<char>, file: Seq<char>) -> Seq<char> {
    if file.len() > 0 && file[0] == '/' {
        file
    } else if dir.len() == 0 || dir.last() == '/' {
        dir + file
    } else {
        dir + seq!['/'] + file
    }
}

/// The file a preset named `name` is saved in: `<name>.json` inside
/// `presets_dir`.
pub fn preset_path(presets_dir: &str, name: &str) -> (r: String)
    ensures
        r@ == joined_path(presets_dir@, name@ + ".json"@),
{
    let mut file = String::from_str(name);
    file.append(".json");
    let ghost file_chars = file@;
    let n = file.as_str().unicode_len();
    if n > 0 && file.as_str().get_char(0) == '/' {
        return file;
    }
    let d = presets_dir.unicode_len();
    let mut path = String::from_str(presets_dir);
    if d > 0 && presets_dir.get_char(d - 1) != '/' {
        path.append("/");
        proof {
            reveal_strlit("/");
        }
    }
    path.append(file.as_str());
    path
}

/// The index of the last `.` in `name`, or `-1` when it has none.
pub open spec fn last_dot(name: Seq<char>) -> int
    decreases name.len(),
{
    if name.len() == 0 {
        -1
    } else if name.last() == '.' {
        name.len() - 1
    } else {
        last_dot(name.drop_last())
    }
}

/// The preset a file named `name` holds: the name without its
/// extension, when that extension is `json`. As paths read extensions, a
/// name whose only `.` is its first character has none.
pub open spec fn json_stem(name: Seq<char>) -> Option<Seq<char>> {
    let p = last_dot(name);
    if p > 0 && name.skip(p + 1) == seq!['j', 's', 'o', 'n'] {
        Some(name.take(p))
    } else {
        None
    }
}

/// The presets held by files named `names`, in the order of the names.
pub open spec fn json_stems(names: Seq<Seq<char>>) -> Seq<Seq<char>>
    decreases names.len(),
{
    if names.len() == 0 {
        Seq::empty()
    } else {
        let rest = json_stems(names.drop_last());
        match json_stem(names.last()) {
            Some(stem) => rest.push(stem),
            None => rest,
        }
    }
}

/// `a` sorts no later than `b`: compared character by character by code
/// point, a prefix first.
pub open spec fn text_le(a: Seq<char>, b: Seq<char>) -> bool
    decreases a.len(),
{
    if a.len() == 0 {
        true
    } else if b.len() == 0 {
        false
    } else if a[0] != b[0] {
        (a[0] as int) < (b[0] as int)
    } else {
        text_le(a.drop_first(), b.drop_first())
    }
}

/// Every text sorts no later than those after it.
pub open spec fn sorted_texts(s: Seq<Seq<char>>) -> bool {
    forall|i: int, j: int| 0 <= i < j < s.len() ==> text_le(#[trigger] s[i], #[trigger] s[j])
}

/// Any two texts are ordered one way or the other.
pub proof fn lemma_text_le_total(a: Seq<char>, b: Seq<char>)
    ensures
        text_le(a, b) || text_le(b, a),
    decreases a.len(),
{
    if a.len() > 0 && b.len() > 0 && a[0] == b[0] {
        lemma_text_le_total(a.drop_first(), b.drop_first());
    }
}

/// The order on texts is transitive.
pub proof fn lemma_text_le_transitive(a: Seq<char>, b: Seq<char>, c: Seq<char>)
    requires
        text_le(a, b),
        text_le(b, c),
    ensures
        text_le(a, c),
    decreases a.len(),
{
    if a.len() > 0 && b.len() > 0 && c.len() > 0 && a[0] == b[0] && b[0] == c[0] {
        lemma_text_le_transitive(a.drop_first(), b.drop_first(), c.drop_first());
    }
}

/// `last_dot` is the position of the last `.`.
proof fn lemma_last_dot(name: Seq<char>)
    ensures
        -1 <= last_dot(name) < name.len(),
        last_dot(name) >= 0 ==> name[last_dot(name)] == '.',
        forall|i: int| last_dot(name) < i < name.len() ==> name[i] != '.',
    decreases name.len(),
{
    if name.len() > 0 && name.last() != '.' {
        lemma_last_dot(name.drop_last());
        assert forall|i: int| last_dot(name) < i < name.len() implies name[i] != '.' by {
            if i < name.len() - 1 {
                assert(name[i] == name.drop_last()[i]);
            }
        }
    }
}

/// The position of the last `.` in `name`, if it has one.
fn last_dot_index(name: &str) -> (r: Option<usize>)
    ensures
        match r {
            Some(p) => p == last_dot(name@),
            None => last_dot(name@) == -1,
        },
{
    proof {
        lemma_last_dot(name@);
    }
    let n = name.unicode_len();
    let mut i: usize = n;
    while i > 0
        invariant
            i <= n,
            n == name@.len(),
            forall|k: int| i <= k < n ==> name@[k] != '.',
        decreases i,
    {
        if name.get_char(i - 1) == '.' {
            proof {
                lemma_last_dot(name@);
                let p = last_dot(name@);
                if p > i - 1 {
                    assert(name@[p] != '.');
                } else if p < i - 1 {
                    assert(name@[i - 1] != '.');
                }
            }
            return Some(i - 1);
        }
        i = i - 1;
    }
    proof {
        lemma_last_dot(name@);
        let p = last_dot(name@);
        if p >= 0 {
            assert(name@[p] != '.');
        }
    }
    None
}

/// The preset a file named `name` holds, if its extension is `json`.
fn json_stem_of(name: &str) -> (r: Option<String>)
    ensures
        match r {
            Some(stem) => json_stem(name@) == Some(stem@),
            None => json_stem(name@) is None,
        },
{
    let n = name.unicode_len();
    proof {
        lemma_last_dot(name@);
    }
    match last_dot_index(name) {
        Some(p) => {
            if p == 0 {
                return None;
            }
            let extension = name.substring_char(p + 1, n);
            assert(extension@ =~= name@.skip(p + 1));
            proof {
                reveal_strlit("json");
            }
            if str_equal(extension, "json") {
                let stem = name.substring_char(0, p);
                assert(stem@ =~= name@.take(p as int));
                assert(name@.skip(p + 1) =~= seq!['j', 's', 'o', 'n']);
                Some(stem.to_owned())
            } else {
                assert("json"@ =~= seq!['j', 's', 'o', 'n']);
                None
            }
        },
        None => None,
    }
}

/// Whether `a` sorts no later than `b`.
fn text_le_exec(a: &str, b: &str) -> (r: bool)
    ensures
        r == text_le(a@, b@),
{
    let n = a.unicode_len();
    let m = b.unicode_len();
    let mut i: usize = 0;
    proof {
        assert(a@.skip(0) =~= a@);
        assert(b@.skip(0) =~= b@);
    }
    while i < n && i < m
        invariant
            n == a@.len(),
            m == b@.len(),
            i <= n,
            i <= m,
            text_le(a@, b@) == text_le(a@.skip(i as int), b@.skip(i as int)),
        decreases n - i,
    {
        let c = a.get_char(i);
        let d = b.get_char(i);
        if c != d {
            return (c as u32) < (d as u32);
        }
        proof {
            assert(a@.skip(i as int).drop_first() =~= a@.skip(i + 1));
            assert(b@.skip(i as int).drop_first() =~= b@.skip(i + 1));
        }
        i = i + 1;
    }
    i == n
}

/// The presets saved under a directory holding files named
/// `file_names`: each `<name>.json` gives `name`; other files are
/// ignored. The names come sorted.
pub fn preset_names(file_names: &Vec<String>) -> (r: Vec<String>)
    ensures
        sorted_texts(texts(r@)),
        texts(r@).to_multiset() == json_stems(texts(file_names@)).to_multiset(),
{
    broadcast use vstd::seq_lib::group_to_multiset_ensures;
    let mut names: Vec<String> = Vec::new();
    let mut k: usize = 0;
    proof {
        assert(texts(file_names@).take(0) =~= Seq::<Seq<char>>::empty());
        assert(texts(names@) =~= Seq::<Seq<char>>::empty());
    }
    while k < file_names.len()
        invariant
            k <= file_names@.len(),
            sorted_texts(texts(names@)),
            texts(names@).to_multiset() == json_stems(texts(file_names@).take(k as int)).to_multiset(),
        decreases file_names@.len() - k,
    {
        proof {
            assert(texts(file_names@).take(k + 1).drop_last() =~= texts(file_names@).take(k as int));
            assert(texts(file_names@).take(k + 1).last() == file_names@[k as int]@);
        }
        let ghost seen = json_stems(texts(file_names@).take(k as int));
        let ghost seen_next = json_stems(texts(file_names@).take(k + 1));
        match json_stem_of(file_names[k].as_str()) {
            Some(stem) => {
                assert(seen_next == seen.push(stem@));
                let mut p: usize = 0;
                while p < names.len() && text_le_exec(names[p].as_str(), stem.as_str())
                    invariant
                        p <= names@.len(),
                        forall|i: int| 0 <= i < p ==> text_le(#[trigger] names@[i]@, stem@),
                    decreases names@.len() - p,
                {
                    p = p + 1;
                }
                let ghost before = texts(names@);
                let ghost x = stem@;
                names.insert(p, stem);
                proof {
                    assert(texts(names@) =~= before.insert(p as int, x));
                    if p < before.len() {
                        lemma_text_le_total(before[p as int], x);
                    }
                    assert forall|i: int, j: int| 0 <= i < j < texts(names@).len() implies text_le(
                        #[trigger] texts(names@)[i],
                        #[trigger] texts(names@)[j],
                    ) by {
                        let t = texts(names@);
                        if j < p {
                            assert(t[i] == before[i] && t[j] == before[j]);
                        } else if j == p {
                            assert(t[i] == before[i] && t[j] == x);
                            assert(before[i] == names@[i]@);
                        } else if i < p {
                            assert(t[i] == before[i] && t[j] == before[j - 1]);
                        } else if i == p {
                            assert(t[i] == x && t[j] == before[j - 1]);
                            if j - 1 > p {
                                assert(text_le(before[p as int], before[j - 1]));
                                lemma_text_le_transitive(x, before[p as int], before[j - 1]);
                            }
                        } else {
                            assert(t[i] == before[i - 1] && t[j] == before[j - 1]);
                        }
                    }
                    vstd::seq_lib::to_multiset_insert(before, p as int, x);
                    vstd::seq_lib::to_multiset_build(seen, x);
                }
            },
            None => {
                assert(seen_next == seen);
            },
        }
        k = k + 1;
    }
    proof {
        assert(texts(file_names@).take(file_names@.len() as int) =~= texts(file_names@));
    }
    names
}

/// What `preset` was asked to do.
#[derive(Debug, Clone, PartialEq, Eq)]
pub enum Action {
    /// Save a preset; at least one of the lighting or sleep-timer flags
    /// must be given.
    Save {
        /// The preset's name.
        name: String,
        /// Lighting mode name; omitted, the preset leaves lighting alone.
        mode: Option<String>,
        /// `RRGGBB` color, used together with `mode`.
        color: String,
        /// Brightness, device-specific range.
        brightness: u8,
        /// Animation speed, device-specific range.
        speed: u8,
        /// Direction name.
        direction: String,
        /// Sleep-timer preset name; omitted, the preset leaves the timer
        /// alone.
        sleep: Option<String>,
    },
    /// Apply a saved preset.
    Apply {
        /// The preset's name.
        name: String,
    },
    /// List every saved preset name.
    List,
}

/// `preset`'s arguments.
#[derive(Debug, Clone, PartialEq, Eq)]
pub struct Args {
    /// Which device to target, as `VID:PID` hex; needed only when more
    /// than one supported device is detected. Ignored by `list`.
    pub device: Option<String>,
    /// What to do.
    pub action: Action,
}

} // verus!
