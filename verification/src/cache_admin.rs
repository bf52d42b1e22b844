//! Housekeeping of the shared cache: the keys an NPC's entries live under,
//! what an invalidation event clears, and the counters read from the
//! cache server's statistics.

use vstd::prelude::*;
use crate::api_checks::ApiError;
use crate::llm_flow::{decimal_value, parse_u64};
use crate::text::{chars_of, join2, join3, lowercase, to_lowercase, same_text, seq_starts_with, split_chars, split_on, string_of, starts_with};

verus! {

/// The key of an NPC's cached state.
pub fn state_key(agent_id: &str) -> (k: String)
    ensures
        k@ == "npc:state:"@ + agent_id@,
{
    join2("npc:state:", agent_id)
}

/// The key of an NPC's cached emotions.
pub fn emotions_key(agent_id: &str) -> (k: String)
    ensures
        k@ == "npc:emotions:"@ + agent_id@,
{
    join2("npc:emotions:", agent_id)
}

/// The key of an NPC's cached position.
pub fn position_key(agent_id: &str) -> (k: String)
    ensures
        k@ == "npc:position:"@ + agent_id@,
{
    join2("npc:position:", agent_id)
}

/// The pattern of the keys of an NPC's cached chat replies.
pub fn chat_pattern(agent_id: &str) -> (p: String)
    ensures
        p@ == "chat:"@ + agent_id@ + ":*"@,
{
    join3("chat:", agent_id, ":*")
}

/// Every key of an NPC's cached state: state, emotions and position.
pub fn npc_state_keys(agent_id: &str) -> (keys: Vec<String>)
    ensures
        keys@.len() == 3,
        keys@[0]@ == "npc:state:"@ + agent_id@,
        keys@[1]@ == "npc:emotions:"@ + agent_id@,
        keys@[2]@ == "npc:position:"@ + agent_id@,
{
    let mut keys: Vec<String> = Vec::new();
    keys.push(state_key(agent_id));
    keys.push(emotions_key(agent_id));
    keys.push(position_key(agent_id));
    keys
}

/// What an invalidation event clears.
#[derive(Debug, Clone, Copy, PartialEq, Eq, Structural)]
pub enum Invalidation {
    /// The emotions and state, and every cached chat reply.
    Emotional,
    /// The position and state.
    Position,
    /// Every state key, and every cached chat reply.
    Everything,
}

/// How old, in seconds either way, an invalidation event may be.
pub const MAX_EVENT_AGE_SECS: i64 = 300;

/// What an event type asks to clear.
pub open spec fn invalidation_for(event: Seq<char>) -> Option<Invalidation> {
    if event == "emotional_update"@ {
        Some(Invalidation::Emotional)
    } else if event == "position_update"@ {
        Some(Invalidation::Position)
    } else if event == "personality_change"@ {
        Some(Invalidation::Everything)
    } else {
        None
    }
}

/// Whether an event stamped `timestamp` is too old or too far ahead at `now`.
pub open spec fn is_stale(now: i64, timestamp: i64) -> bool {
    now - timestamp > MAX_EVENT_AGE_SECS || timestamp - now > MAX_EVENT_AGE_SECS
}

/// What an invalidation event clears: refused as stale when its stamp is
/// more than five minutes from `now`, and refused when its type is none of
/// the known ones.
pub fn plan_invalidation(event_type: &str, now: i64, timestamp: i64) -> (r: Result<Invalidation, ApiError>)
    requires
        i64::MIN < now - timestamp <= i64::MAX,
    ensures
        is_stale(now, timestamp) ==> (r matches Err(ApiError::BadRequest(m)) && m@ == "Stale invalidation request"@),
        !is_stale(now, timestamp) ==> match invalidation_for(event_type@) {
            Some(i) => r == Ok::<Invalidation, ApiError>(i),
            None => r matches Err(ApiError::BadRequest(m)) && m@ == "Unknown event type: "@ + event_type@,
        },
{
    let age = now - timestamp;
    if age > MAX_EVENT_AGE_SECS || age < -MAX_EVENT_AGE_SECS {
        return Err(ApiError::BadRequest("Stale invalidation request".to_string()));
    }
    if same_text(event_type, "emotional_update") {
        Ok(Invalidation::Emotional)
    } else if same_text(event_type, "position_update") {
        Ok(Invalidation::Position)
    } else if same_text(event_type, "personality_change") {
        Ok(Invalidation::Everything)
    } else {
        Err(ApiError::BadRequest(join2("Unknown event type: ", event_type)))
    }
}

/// A line without the carriage return that ends it, if one does.
pub open spec fn strip_cr(p: Seq<char>) -> Seq<char> {
    if p.len() > 0 && p.last() == '\r' {
        p.drop_last()
    } else {
        p
    }
}

/// The lines of `s` as `str::lines` gives them: the pieces between line
/// feeds, each that a line feed ends without a carriage return before it,
/// and no last piece when `s` is empty or ends with a line feed.
pub open spec fn text_lines(s: Seq<char>) -> Seq<Seq<char>> {
    let parts = split_on(s, '\n');
    let n = parts.len() as int;
    let ended = Seq::new((n - 1) as nat, |i: int| strip_cr(parts[i]));
    if parts[n - 1].len() == 0 {
        ended
    } else {
        ended.push(parts[n - 1])
    }
}

/// The first of `lines`, from `from` on, that starts with `p`.
pub open spec fn first_with_prefix(lines: Seq<Seq<char>>, p: Seq<char>, from: int) -> Option<int>
    decreases lines.len() - from,
{
    if from < 0 || from >= lines.len() {
        None
    } else if seq_starts_with(lines[from], p) {
        Some(from)
    } else {
        first_with_prefix(lines, p, from + 1)
    }
}

/// The counter that a statistics report gives on its first line starting
/// with `field`: the number between the first and the second colon of that
/// line, or 0 when there is no such line or no such number.
pub open spec fn info_counter_of(info: Seq<char>, field: Seq<char>) -> u64 {
    let lines = text_lines(info);
    match first_with_prefix(lines, field, 0) {
        Some(i) => {
            let parts = split_on(lines[i], ':');
            if parts.len() > 1 {
                match decimal_value(parts[1]) {
                    Some(v) => v as u64,
                    None => 0,
                }
            } else {
                0
            }
        },
        None => 0,
    }
}

/// The lines of `s` (see `text_lines`).
fn lines_of(s: &[char]) -> (lines: Vec<Vec<char>>)
    ensures
        lines@.len() == text_lines(s@).len(),
        forall|i: int| 0 <= i < lines@.len() ==> #[trigger] lines@[i]@ == text_lines(s@)[i],
{
    let parts = split_chars(s, '\n');
    let ghost sp = split_on(s@, '\n');
    proof {
        assert(sp.len() >= 1);
    }
    let n = parts.len();
    let mut lines: Vec<Vec<char>> = Vec::new();
    let mut i: usize = 0;
    while i + 1 < n
        invariant
            n == parts@.len() == sp.len(),
            n >= 1,
            forall|j: int| 0 <= j < n ==> #[trigger] parts@[j]@ == sp[j],
            i + 1 <= n,
            lines@.len() == i,
            forall|j: int| 0 <= j < i ==> #[trigger] lines@[j]@ == strip_cr(sp[j]),
        decreases n - i,
    {
        let p = &parts[i];
        let line = if p.len() > 0 && p[p.len() - 1] == '\r' {
            crate::text::slice_chars(p, 0, p.len() - 1)
        } else {
            crate::text::slice_chars(p, 0, p.len())
        };
        proof {
            assert(parts@[i as int]@ == sp[i as int]);
            if p@.len() > 0 && p@.last() == '\r' {
                assert(line@ =~= p@.drop_last());
            } else {
                assert(line@ =~= p@);
            }
        }
        lines.push(line);
        i = i + 1;
    }
    let last = &parts[n - 1];
    if last.len() > 0 {
        lines.push(crate::text::slice_chars(last, 0, last.len()));
        proof {
            assert(parts@[n - 1]@ == sp[n - 1]);
        }
    }
    proof {
        let t = text_lines(s@);
        assert(parts@[n - 1]@ == sp[n - 1]);
        assert forall|j: int| 0 <= j < lines@.len() implies #[trigger] lines@[j]@ == t[j] by {
            if j < n - 1 {
            } else {
                assert(lines@[j]@ =~= sp[n - 1]);
            }
        }
    }
    lines
}

/// The counter a statistics report gives for `field` (see `info_counter_of`).
pub fn info_counter(info: &str, field: &str) -> (v: u64)
    ensures
        v == info_counter_of(info@, field@),
{
    let c = chars_of(info);
    let f = chars_of(field);
    let lines = lines_of(&c);
    let ghost ls = text_lines(info@);
    let mut i: usize = 0;
    while i < lines.len()
        invariant
            lines@.len() == ls.len(),
            forall|j: int| 0 <= j < lines@.len() ==> #[trigger] lines@[j]@ == ls[j],
            c@ == info@,
            f@ == field@,
            ls == text_lines(info@),
            i <= lines@.len(),
            first_with_prefix(ls, field@, 0) == first_with_prefix(ls, field@, i as int),
        decreases lines.len() - i,
    {
        assert(lines@[i as int]@ == ls[i as int]);
        if starts_with(&lines[i], &f) {
            let parts = split_chars(&lines[i], ':');
            if parts.len() > 1 {
                let t = string_of(&parts[1], 0, parts[1].len());
                proof {
                    assert(parts@[1]@ == split_on(ls[i as int], ':')[1]);
                    assert(t@ =~= parts@[1]@);
                }
                return match parse_u64(t.as_str()) {
                    Some(v) => v,
                    None => 0,
                };
            }
            return 0;
        }
        i = i + 1;
    }
    0
}

/// The cache hits and misses a statistics report counts.
pub fn keyspace_counts(info: &str) -> (r: (u64, u64))
    ensures
        r.0 == info_counter_of(info@, "keyspace_hits:"@),
        r.1 == info_counter_of(info@, "keyspace_misses:"@),
{
    (info_counter(info, "keyspace_hits:"), info_counter(info, "keyspace_misses:"))
}

/// The key under which a scene keeps one of its positions, found by a
/// name or alias of it in any case.
pub fn scene_name_key(scene_id: &str, name: &str) -> (k: String)
    ensures
        k@ == "scene:"@ + scene_id@ + ":name:"@ + lowercase(name@),
{
    let lower = to_lowercase(name);
    let head = join3("scene:", scene_id, ":name:");
    join2(head.as_str(), lower.as_str())
}

/// The key of all of a scene's positions.
pub fn scene_positions_key(scene_id: &str) -> (k: String)
    ensures
        k@ == "scene:"@ + scene_id@ + ":positions"@,
{
    join3("scene:", scene_id, ":positions")
}

/// The key of a scene's description.
pub fn scene_meta_key(scene_id: &str) -> (k: String)
    ensures
        k@ == "scene:"@ + scene_id@ + ":meta"@,
{
    join3("scene:", scene_id, ":meta")
}

/// The pattern of every key of a scene.
pub fn scene_pattern(scene_id: &str) -> (p: String)
    ensures
        p@ == "scene:"@ + scene_id@ + ":*"@,
{
    join3("scene:", scene_id, ":*")
}

/// The error for a scene that is not registered.
pub fn missing_scene(scene_id: &str) -> (e: ApiError)
    ensures
        e matches ApiError::NotFound(m) && m@ == "Scene '"@ + scene_id@ + "' not found"@,
{
    ApiError::NotFound(join3("Scene '", scene_id, "' not found"))
}

/// The keys under which a scene keeps a position: one for its name and one
/// for each alias, in that order.
pub fn scene_position_keys(scene_id: &str, name: &str, aliases: &Vec<String>) -> (keys: Vec<String>)
    ensures
        keys@.len() == aliases@.len() + 1,
        keys@[0]@ == "scene:"@ + scene_id@ + ":name:"@ + lowercase(name@),
        forall|i: int| 0 <= i < aliases@.len() ==>
            #[trigger] keys@[i + 1]@ == "scene:"@ + scene_id@ + ":name:"@ + lowercase(aliases@[i]@),
{
    let mut keys: Vec<String> = Vec::new();
    keys.push(scene_name_key(scene_id, name));
    let mut i: usize = 0;
    while i < aliases.len()
        invariant
            i <= aliases@.len(),
            keys@.len() == i + 1,
            keys@[0]@ == "scene:"@ + scene_id@ + ":name:"@ + lowercase(name@),
            forall|j: int| 0 <= j < i ==>
                #[trigger] keys@[j + 1]@ == "scene:"@ + scene_id@ + ":name:"@ + lowercase(aliases@[j]@),
        decreases aliases.len() - i,
    {
        keys.push(scene_name_key(scene_id, aliases[i].as_str()));
        i = i + 1;
    }
    keys
}

/// The scene a word target is looked up in: the NPC's own, or `default`.
pub fn target_scene(scene_id: Option<&str>) -> (s: String)
    ensures
        s@ == match scene_id {
            Some(x) => x@,
            None => "default"@,
        },
{
    match scene_id {
        Some(x) => x.to_string(),
        None => "default".to_string(),
    }
}

/// The error for a word that names no position of a scene.
pub fn missing_position(name: &str, scene_id: &str) -> (e: ApiError)
    ensures
        e matches ApiError::NotFound(m) && m@ == "Position '"@ + name@ + "' not found in scene '"@ + scene_id@ + "'"@,
{
    let head = join3("Position '", name, "' not found in scene '");
    ApiError::NotFound(join3(head.as_str(), scene_id, "'"))
}

} // verus!
