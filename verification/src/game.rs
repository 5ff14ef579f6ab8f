//! The game layer built on the custom channel.
//!
//! The runtime never reads custom-channel payloads; this layer gives them
//! their meaning. The host side (`GameState`) turns each decoded game
//! command into a state change and the events owed for it; the guest side
//! (`GameClient`) is the library a plugin links to mint request ids, queue
//! commands, and collect the events the host sent back.

use vstd::prelude::*;
use crate::game_codec::{
    spec_game_event_bytes, wf_game_event, EnemyType, GameCommand, GameCommandV, GameEvent,
    GameEventV, ItemType,
};

verus! {

// ---------------------------------------------------------------------------
// Association lists keyed by id
// ---------------------------------------------------------------------------

/// The value recorded for `id`, if any; a later record wins.
pub open spec fn spec_assoc_lookup<T>(s: Seq<(u64, T)>, id: u64) -> Option<T>
    decreases s.len(),
{
    if s.len() == 0 {
        None
    } else if s.last().0 == id {
        Some(s.last().1)
    } else {
        spec_assoc_lookup(s.drop_last(), id)
    }
}

/// The entries that survive removing `id`.
pub open spec fn spec_assoc_remove<T>(s: Seq<(u64, T)>, id: u64) -> Seq<(u64, T)>
    decreases s.len(),
{
    if s.len() == 0 {
        Seq::empty()
    } else if s.last().0 == id {
        spec_assoc_remove(s.drop_last(), id)
    } else {
        spec_assoc_remove(s.drop_last(), id).push(s.last())
    }
}

pub open spec fn assoc_unique_ids<T>(s: Seq<(u64, T)>) -> bool {
    forall|j: int, k: int| 0 <= j < k < s.len() ==> (#[trigger] s[j]).0 != (#[trigger] s[k]).0
}

pub open spec fn assoc_ids_below<T>(s: Seq<(u64, T)>, next: u64) -> bool {
    forall|j: int| 0 <= j < s.len() ==> 1 <= (#[trigger] s[j]).0 < next
}

pub proof fn lemma_assoc_lookup_absent<T>(s: Seq<(u64, T)>, id: u64)
    requires
        forall|j: int| 0 <= j < s.len() ==> (#[trigger] s[j]).0 != id,
    ensures
        spec_assoc_lookup(s, id) is None,
    decreases s.len(),
{
    if s.len() > 0 {
        assert(s.last() == s[s.len() - 1]);
        lemma_assoc_lookup_absent(s.drop_last(), id);
    }
}

/// What removing an id does to every lookup, and to the list's shape.
pub proof fn lemma_assoc_remove_props<T>(s: Seq<(u64, T)>, id: u64, next: u64)
    requires
        assoc_unique_ids(s),
        assoc_ids_below(s, next),
    ensures
        assoc_unique_ids(spec_assoc_remove(s, id)),
        assoc_ids_below(spec_assoc_remove(s, id), next),
        spec_assoc_lookup(spec_assoc_remove(s, id), id) is None,
        forall|o: u64|
            o != id ==> spec_assoc_lookup(spec_assoc_remove(s, id), o) == spec_assoc_lookup(s, o),
        spec_assoc_remove(s, id).len() == s.len() - (
        if spec_assoc_lookup(s, id) is Some {
            1int
        } else {
            0int
        }),
        forall|k: int|
            0 <= k < spec_assoc_remove(s, id).len() ==> s.contains(#[trigger] spec_assoc_remove(
                s,
                id,
            )[k]),
    decreases s.len(),
{
    let out = spec_assoc_remove(s, id);
    if s.len() == 0 {
    } else {
        let d = s.drop_last();
        assert(s.last() == s[s.len() - 1]);
        assert(forall|j: int| 0 <= j < d.len() ==> d[j] == s[j]);
        lemma_assoc_remove_props(d, id, next);
        let dout = spec_assoc_remove(d, id);
        assert(forall|k: int| 0 <= k < dout.len() ==> d.contains(#[trigger] dout[k]));
        if s.last().0 == id {
            assert(forall|j: int| 0 <= j < d.len() ==> (#[trigger] d[j]).0 != id);
            lemma_assoc_lookup_absent(d, id);
            assert(out == dout);
            assert forall|k: int| 0 <= k < out.len() implies s.contains(#[trigger] out[k]) by {
                let j = choose|j: int| 0 <= j < d.len() && d[j] == out[k];
                assert(s[j] == out[k]);
            }
            assert forall|o: u64| o != id implies spec_assoc_lookup(out, o) == spec_assoc_lookup(
                s,
                o,
            ) by {
                assert(spec_assoc_lookup(spec_assoc_remove(d, id), o) == spec_assoc_lookup(d, o));
                assert(spec_assoc_lookup(s, o) == spec_assoc_lookup(d, o));
            }
        } else {
            assert(out == dout.push(s.last()));
            assert(out.last() == s.last());
            assert(out.drop_last() =~= dout);
            assert forall|k: int| 0 <= k < out.len() implies s.contains(#[trigger] out[k]) by {
                if k < out.len() - 1 {
                    assert(out[k] == dout[k]);
                    let j = choose|j: int| 0 <= j < d.len() && d[j] == dout[k];
                    assert(s[j] == out[k]);
                } else {
                    assert(out[k] == s[s.len() - 1]);
                }
            }
            assert(assoc_unique_ids(out)) by {
                assert forall|j: int, k: int| 0 <= j < k < out.len() implies (
                #[trigger] out[j]).0 != (#[trigger] out[k]).0 by {
                    if k == out.len() - 1 {
                        let jj = choose|jj: int| 0 <= jj < d.len() && d[jj] == out[j];
                        assert(s[jj] == out[j]);
                        assert(s[jj].0 != s[s.len() - 1].0);
                    }
                }
            }
            assert forall|o: u64| o != id implies spec_assoc_lookup(out, o) == spec_assoc_lookup(
                s,
                o,
            ) by {
                if s.last().0 != o {
                    assert(spec_assoc_lookup(spec_assoc_remove(d, id), o) == spec_assoc_lookup(
                        d,
                        o,
                    ));
                    assert(spec_assoc_lookup(out, o) == spec_assoc_lookup(dout, o));
                    assert(spec_assoc_lookup(s, o) == spec_assoc_lookup(d, o));
                }
            }
            assert(spec_assoc_lookup(out, id) is None) by {
                assert(spec_assoc_lookup(spec_assoc_remove(d, id), id) is None);
            }
        }
    }
}

// ---------------------------------------------------------------------------
// Wave trigger names
// ---------------------------------------------------------------------------

/// The numeric value of a digit string, most significant first.
pub open spec fn spec_digits_val(s: Seq<char>) -> int
    decreases s.len(),
{
    if s.len() == 0 {
        0
    } else {
        spec_digits_val(s.drop_last()) * 10 + (s.last() as int - '0' as int)
    }
}

pub open spec fn spec_all_digits(s: Seq<char>) -> bool {
    forall|i: int| 0 <= i < s.len() ==> '0' <= #[trigger] s[i] <= '9'
}

/// What `"…".parse::<u32>()` accepts: an optional leading `+`, then one or
/// more digits, with a value that fits.
pub open spec fn spec_parse_u32(s: Seq<char>) -> Option<u32> {
    let t = if s.len() > 0 && s[0] == '+' {
        s.drop_first()
    } else {
        s
    };
    if t.len() > 0 && spec_all_digits(t) && spec_digits_val(t) <= u32::MAX {
        Some(spec_digits_val(t) as u32)
    } else {
        None
    }
}

/// A longer digit prefix never has a smaller value.
proof fn lemma_digits_val_monotone(s: Seq<char>, k: int)
    requires
        0 <= k <= s.len(),
        spec_all_digits(s),
        forall|i: int| 0 <= i < s.len() ==> spec_digits_val(s.take(i)) >= 0,
    ensures
        spec_digits_val(s.take(k)) <= spec_digits_val(s),
    decreases s.len() - k,
{
    if k < s.len() {
        lemma_digits_val_monotone(s, k + 1);
        assert(s.take(k + 1).drop_last() =~= s.take(k));
        assert(s.take(k + 1).last() == s[k]);
        assert(spec_digits_val(s.take(k + 1)) == spec_digits_val(s.take(k)) * 10 + (s[k] as int
            - '0' as int));
        assert(spec_digits_val(s.take(k)) >= 0);
        assert(spec_digits_val(s.take(k)) * 10 >= spec_digits_val(s.take(k))) by (nonlinear_arith)
            requires
                spec_digits_val(s.take(k)) >= 0,
        ;
    } else {
        assert(s.take(k) =~= s);
    }
}

/// Digit strings have non-negative values.
proof fn lemma_digits_val_nonneg(s: Seq<char>)
    requires
        spec_all_digits(s),
    ensures
        spec_digits_val(s) >= 0,
    decreases s.len(),
{
    if s.len() > 0 {
        assert(s.drop_last() =~= s.take(s.len() - 1));
        assert forall|i: int| 0 <= i < s.drop_last().len() implies '0'
            <= #[trigger] s.drop_last()[i] <= '9' by {
            assert(s.drop_last()[i] == s[i]);
        }
        lemma_digits_val_nonneg(s.drop_last());
        assert(spec_digits_val(s) == spec_digits_val(s.drop_last()) * 10 + (s.last() as int
            - '0' as int));
        assert(spec_digits_val(s.drop_last()) * 10 >= 0) by (nonlinear_arith)
            requires
                spec_digits_val(s.drop_last()) >= 0,
        ;
    }
}

/// Parses a decimal `u32` exactly as the standard parser does.
pub fn parse_u32_str(s: &str) -> (r: Option<u32>)
    ensures
        r == spec_parse_u32(s@),
{
    let n = s.unicode_len();
    let start: usize = if n > 0 && s.get_char(0) == '+' {
        1
    } else {
        0
    };
    let ghost t = if s@.len() > 0 && s@[0] == '+' {
        s@.drop_first()
    } else {
        s@
    };
    proof {
        assert(t =~= s@.subrange(start as int, n as int));
    }
    if n == start {
        return None;
    }
    let mut acc: u64 = 0;
    let mut j: usize = start;
    while j < n
        invariant
            start <= j <= n,
            n == s@.len(),
            (s@.len() > 0 && s@[0] == '+') ==> start == 1,
            !(s@.len() > 0 && s@[0] == '+') ==> start == 0,
            t == s@.subrange(start as int, n as int),
            t == (if s@.len() > 0 && s@[0] == '+' {
                s@.drop_first()
            } else {
                s@
            }),
            t.len() > 0,
            spec_all_digits(t.take(j - start)),
            acc == spec_digits_val(t.take(j - start)),
            acc <= u32::MAX,
        decreases n - j,
    {
        let c = s.get_char(j);
        let cu = c as u32;
        if !(48 <= cu && cu <= 57) {
            proof {
                assert(t[j - start] == c);
                assert('0' as int == 48 && '9' as int == 57);
                assert(!('0' <= t[j - start] && t[j - start] <= '9'));
                assert(!spec_all_digits(t));
            }
            return None;
        }
        let d: u64 = (cu - 48) as u64;
        proof {
            assert(t.take(j + 1 - start).drop_last() =~= t.take(j - start));
            assert(t.take(j + 1 - start).last() == t[j - start]);
            assert(t[j - start] == s@[j as int]);
            assert(d == t[j - start] as int - '0' as int);
        }
        let next_acc: u64 = acc * 10 + d;
        proof {
            assert(spec_digits_val(t.take(j + 1 - start)) == next_acc);
            assert(spec_all_digits(t.take(j + 1 - start))) by {
                assert forall|m: int| 0 <= m < j + 1 - start implies '0' <= #[trigger] t.take(
                    j + 1 - start,
                )[m] <= '9' by {
                    if m < j - start {
                        assert(t.take(j + 1 - start)[m] == t.take(j - start)[m]);
                    } else {
                        assert(t.take(j + 1 - start)[m] == t[j - start]);
                    }
                }
            }
        }
        if next_acc > u32::MAX as u64 {
            proof {
                if spec_all_digits(t) {
                    assert forall|i: int| 0 <= i < t.len() implies spec_digits_val(
                        #[trigger] t.take(i),
                    ) >= 0 by {
                        assert forall|m: int| 0 <= m < t.take(i).len() implies '0'
                            <= #[trigger] t.take(i)[m] <= '9' by {
                            assert(t.take(i)[m] == t[m]);
                        }
                        lemma_digits_val_nonneg(t.take(i));
                    }
                    lemma_digits_val_monotone(t, j + 1 - start);
                    assert(spec_digits_val(t) >= next_acc);
                }
            }
            return None;
        }
        acc = next_acc;
        j = j + 1;
    }
    proof {
        assert(t.take(n - start) =~= t);
    }
    Some(acc as u32)
}

/// Whether `s` begins with `p`.
pub fn str_starts_with(s: &str, p: &str) -> (r: bool)
    ensures
        r == (s@.len() >= p@.len() && s@.take(p@.len() as int) == p@),
{
    let ns = s.unicode_len();
    let np = p.unicode_len();
    if ns < np {
        proof {
            assert(!(s@.len() >= p@.len()));
        }
        return false;
    }
    let mut j: usize = 0;
    while j < np
        invariant
            j <= np,
            np == p@.len(),
            ns == s@.len(),
            np <= ns,
            forall|k: int| 0 <= k < j ==> s@[k] == p@[k],
        decreases np - j,
    {
        if s.get_char(j) != p.get_char(j) {
            proof {
                assert(s@.take(np as int)[j as int] != p@[j as int]);
            }
            return false;
        }
        j = j + 1;
    }
    proof {
        assert(s@.take(np as int) =~= p@);
    }
    true
}

/// Whether `s` ends with `p`.
pub fn str_ends_with(s: &str, p: &str) -> (r: bool)
    ensures
        r == (s@.len() >= p@.len() && s@.skip(s@.len() - p@.len()) == p@),
{
    let ns = s.unicode_len();
    let np = p.unicode_len();
    if ns < np {
        proof {
            assert(!(s@.len() >= p@.len()));
        }
        return false;
    }
    let off = ns - np;
    let mut j: usize = 0;
    while j < np
        invariant
            j <= np,
            np == p@.len(),
            ns == s@.len(),
            np <= ns,
            off == ns - np,
            forall|k: int| 0 <= k < j ==> s@[off + k] == p@[k],
        decreases np - j,
    {
        if s.get_char(off + j) != p.get_char(j) {
            proof {
                assert(s@.skip(off as int)[j as int] != p@[j as int]);
            }
            return false;
        }
        j = j + 1;
    }
    proof {
        assert(s@.skip(off as int) =~= p@);
    }
    true
}

/// Full health for each enemy kind.
pub open spec fn spec_enemy_max_health(t: EnemyType) -> u32 {
    match t {
        EnemyType::Slime => 20,
        EnemyType::Skeleton => 50,
        EnemyType::Dragon => 200,
    }
}

/// Full health for each enemy kind: a slime is fragile, a dragon is not.
pub fn get_enemy_max_health(enemy_type: &EnemyType) -> (h: u32)
    ensures
        h == spec_enemy_max_health(*enemy_type),
{
    match enemy_type {
        EnemyType::Slime => 20,
        EnemyType::Skeleton => 50,
        EnemyType::Dragon => 200,
    }
}

/// Whether a trigger name has the shape `wave_…<suffix>`.
pub open spec fn spec_wave_framed(s: Seq<char>, suffix: Seq<char>) -> bool {
    &&& s.len() >= 5 + suffix.len()
    &&& s.take(5) == "wave_"@
    &&& s.skip(s.len() - suffix.len()) == suffix
}

/// The characters between the `wave_` prefix and the suffix.
pub open spec fn spec_wave_middle(s: Seq<char>, suffix: Seq<char>) -> Seq<char> {
    s.subrange(5, s.len() - suffix.len())
}

// ---------------------------------------------------------------------------
// The host-side game state
// ---------------------------------------------------------------------------

/// One live enemy: its host entity, its kind, and its remaining health.
#[derive(Clone, Copy, Debug, PartialEq, Eq, Structural)]
pub struct EnemyRecord {
    pub entity: u64,
    pub enemy_type: EnemyType,
    pub health: u32,
}

/// What one game command asks the host shell to do.
#[derive(Debug, PartialEq)]
pub enum GameStep {
    /// Spawn the enemy's body in the world, then hand the entity to
    /// `on_enemy_spawned`.
    SpawnEnemy {
        plugin_id: u64,
        request_id: u64,
        enemy_type: EnemyType,
        x_bits: u32,
        y_bits: u32,
        z_bits: u32,
    },
    /// Queue a recursive despawn of the enemy's entity and broadcast the
    /// death to every plugin.
    DespawnEnemy { host_entity: u64, event: GameEvent },
    /// Spawn the item's body in the world, then hand the result to
    /// `on_item_spawned`.
    SpawnItem {
        plugin_id: u64,
        request_id: u64,
        item_type: ItemType,
        x_bits: u32,
        y_bits: u32,
        z_bits: u32,
    },
    /// Broadcast this event to every plugin.
    Broadcast { event: GameEvent },
    /// The command named an unknown id, or a wave trigger with an
    /// unreadable number: nothing to do.
    Ignore,
}

/// The host application's game state, driven by the commands the plugins
/// push over the custom channel.
pub struct GameState {
    enemies: Vec<(u64, EnemyRecord)>,
    items: Vec<u64>,
    player_health: u32,
    player_max_health: u32,
    player_score: u64,
    next_enemy_id: u64,
    next_item_id: u64,
}

impl GameState {
    pub closed spec fn enemies_v(&self) -> Seq<(u64, EnemyRecord)> {
        self.enemies@
    }

    pub closed spec fn items_v(&self) -> Seq<u64> {
        self.items@
    }

    pub closed spec fn spec_player_health(&self) -> u32 {
        self.player_health
    }

    pub closed spec fn spec_player_max_health(&self) -> u32 {
        self.player_max_health
    }

    pub closed spec fn spec_player_score(&self) -> u64 {
        self.player_score
    }

    pub closed spec fn spec_next_enemy_id(&self) -> u64 {
        self.next_enemy_id
    }

    pub closed spec fn spec_next_item_id(&self) -> u64 {
        self.next_item_id
    }

    /// Well-formedness: enemy ids are unique, positive and below the
    /// allocation cursor, and health never exceeds the maximum.
    pub open spec fn inv(&self) -> bool {
        &&& assoc_unique_ids(self.enemies_v())
        &&& assoc_ids_below(self.enemies_v(), self.spec_next_enemy_id())
        &&& self.spec_next_enemy_id() >= 1
        &&& self.spec_next_item_id() >= 1
        &&& self.spec_player_health() <= self.spec_player_max_health()
    }

    /// A fresh game: full health, no score, no enemies, no items.
    pub fn new() -> (g: GameState)
        ensures
            g.inv(),
            g.enemies_v() == Seq::<(u64, EnemyRecord)>::empty(),
            g.items_v() == Seq::<u64>::empty(),
            g.spec_player_health() == 100,
            g.spec_player_max_health() == 100,
            g.spec_player_score() == 0,
            g.spec_next_enemy_id() == 1,
            g.spec_next_item_id() == 1,
    {
        GameState {
            enemies: Vec::new(),
            items: Vec::new(),
            player_health: 100,
            player_max_health: 100,
            player_score: 0,
            next_enemy_id: 1,
            next_item_id: 1,
        }
    }

    pub fn enemy_count(&self) -> (n: usize)
        ensures
            n == self.enemies_v().len(),
    {
        self.enemies.len()
    }
}

impl Default for GameState {
    /// The same fresh game as `new`.
    fn default() -> (g: GameState)
        ensures
            g.inv(),
            g.enemies_v() == Seq::<(u64, EnemyRecord)>::empty(),
            g.items_v() == Seq::<u64>::empty(),
            g.spec_player_health() == 100,
            g.spec_player_max_health() == 100,
            g.spec_player_score() == 0,
            g.spec_next_enemy_id() == 1,
            g.spec_next_item_id() == 1,
    {
        GameState::new()
    }
}

impl GameState {

    /// The record behind a live enemy id.
    pub fn enemy(&self, id: u64) -> (r: Option<EnemyRecord>)
        ensures
            r == spec_assoc_lookup(self.enemies_v(), id),
    {
        proof {
            assert(self.enemies@.take(self.enemies@.len() as int) =~= self.enemies@);
        }
        let mut j: usize = self.enemies.len();
        while j > 0
            invariant
                j <= self.enemies@.len(),
                spec_assoc_lookup(self.enemies@, id) == spec_assoc_lookup(
                    self.enemies@.take(j as int),
                    id,
                ),
            decreases j,
        {
            j = j - 1;
            proof {
                assert(self.enemies@.take(j + 1 as int).last() == self.enemies@[j as int]);
                assert(self.enemies@.take(j + 1 as int).drop_last() =~= self.enemies@.take(
                    j as int,
                ));
            }
            if self.enemies[j].0 == id {
                return Some(self.enemies[j].1);
            }
        }
        proof {
            assert(self.enemies@.take(0) =~= Seq::<(u64, EnemyRecord)>::empty());
        }
        None
    }

    pub fn player_health(&self) -> (h: u32)
        ensures
            h == self.spec_player_health(),
    {
        self.player_health
    }

    pub fn player_max_health(&self) -> (h: u32)
        ensures
            h == self.spec_player_max_health(),
    {
        self.player_max_health
    }

    pub fn player_score(&self) -> (s: u64)
        ensures
            s == self.spec_player_score(),
    {
        self.player_score
    }

    /// The next enemy id the game will assign.
    pub fn next_enemy_id(&self) -> (id: u64)
        ensures
            id == self.spec_next_enemy_id(),
    {
        self.next_enemy_id
    }

    /// The next item id the game will assign.
    pub fn next_item_id(&self) -> (id: u64)
        ensures
            id == self.spec_next_item_id(),
    {
        self.next_item_id
    }

    /// Removes the enemy with this id, keeping every other record.
    fn remove_enemy(&mut self, id: u64)
        requires
            old(self).inv(),
        ensures
            final(self).inv(),
            final(self).enemies_v() == spec_assoc_remove(old(self).enemies_v(), id),
            final(self).items_v() == old(self).items_v(),
            final(self).spec_player_health() == old(self).spec_player_health(),
            final(self).spec_player_max_health() == old(self).spec_player_max_health(),
            final(self).spec_player_score() == old(self).spec_player_score(),
            final(self).spec_next_enemy_id() == old(self).spec_next_enemy_id(),
            final(self).spec_next_item_id() == old(self).spec_next_item_id(),
    {
        let ghost sv = self.enemies@;
        let mut kept: Vec<(u64, EnemyRecord)> = Vec::new();
        let mut j: usize = 0;
        while j < self.enemies.len()
            invariant
                j <= self.enemies@.len(),
                sv == self.enemies@,
                kept@ == spec_assoc_remove(sv.take(j as int), id),
            decreases self.enemies@.len() - j,
        {
            let (eid, rec) = self.enemies[j];
            proof {
                assert(sv.take(j + 1 as int).last() == sv[j as int]);
                assert(sv.take(j + 1 as int).drop_last() =~= sv.take(j as int));
            }
            if eid != id {
                kept.push((eid, rec));
            }
            j = j + 1;
        }
        proof {
            assert(sv.take(sv.len() as int) =~= sv);
        }
        self.enemies = kept;
        proof {
            lemma_assoc_remove_props(sv, id, self.next_enemy_id);
        }
    }

    /// Turns one decoded game command into a state change and the step the
    /// host shell owes for it. This is the whole of the game-command
    /// policy, wave-name parsing included.
    pub fn process_game_command(&mut self, plugin_id: u64, cmd: GameCommand) -> (step: GameStep)
        requires
            old(self).inv(),
        ensures
            final(self).inv(),
            final(self).spec_player_max_health() == old(self).spec_player_max_health(),
            final(self).spec_next_enemy_id() == old(self).spec_next_enemy_id(),
            final(self).spec_next_item_id() == old(self).spec_next_item_id(),
            final(self).items_v() == old(self).items_v(),
            cmd@ matches GameCommandV::SpawnEnemy {
                enemy_type,
                x_bits,
                y_bits,
                z_bits,
                request_id,
            } ==> Self::unchanged(old(self), final(self)) && (step matches GameStep::SpawnEnemy {
                plugin_id: p,
                request_id: r,
                enemy_type: t,
                x_bits: x,
                y_bits: y,
                z_bits: z,
            } && p == plugin_id && r == request_id && t == enemy_type && x == x_bits && y == y_bits
                && z == z_bits),
            cmd@ matches GameCommandV::DespawnEnemy { enemy_id } ==> (match spec_assoc_lookup(
                old(self).enemies_v(),
                enemy_id,
            ) {
                Some(rec) => final(self).enemies_v() == spec_assoc_remove(
                    old(self).enemies_v(),
                    enemy_id,
                ) && final(self).spec_player_health() == old(self).spec_player_health() && final(self).spec_player_score() == old(self).spec_player_score() && (
                step matches GameStep::DespawnEnemy { host_entity, event } && host_entity
                    == rec.entity && event@ == (GameEventV::EnemyDied {
                    enemy_id,
                    enemy_type: rec.enemy_type,
                })),
                None => Self::unchanged(old(self), final(self)) && step matches GameStep::Ignore,
            }),
            cmd@ matches GameCommandV::DamageEnemy { enemy_id, damage } ==> (
            match spec_assoc_lookup(old(self).enemies_v(), enemy_id) {
                Some(rec) => ({
                    let nh = if damage > rec.health {
                        0u32
                    } else {
                        (rec.health - damage) as u32
                    };
                    &&& final(self).enemies_v() == spec_assoc_remove(
                        old(self).enemies_v(),
                        enemy_id,
                    ).push(
                        (
                            enemy_id,
                            EnemyRecord {
                                entity: rec.entity,
                                enemy_type: rec.enemy_type,
                                health: nh,
                            },
                        ),
                    )
                    &&& final(self).spec_player_health() == old(self).spec_player_health()
                    &&& final(self).spec_player_score() == old(self).spec_player_score()
                    &&& (step matches GameStep::Broadcast { event } && event@ == (
                    GameEventV::EnemyDamaged { enemy_id, remaining_health: nh }))
                }),
                None => Self::unchanged(old(self), final(self)) && step matches GameStep::Ignore,
            }),
            cmd@ matches GameCommandV::SpawnItem {
                item_type,
                x_bits,
                y_bits,
                z_bits,
                request_id,
            } ==> Self::unchanged(old(self), final(self)) && (step matches GameStep::SpawnItem {
                plugin_id: p,
                request_id: r,
                item_type: t,
                x_bits: x,
                y_bits: y,
                z_bits: z,
            } && p == plugin_id && r == request_id && t == item_type && x == x_bits && y == y_bits
                && z == z_bits),
            cmd@ matches GameCommandV::GivePlayerItem { item_type } ==> Self::unchanged(
                old(self),
                final(self),
            ) && (step matches GameStep::Broadcast { event } && event@ == (
            GameEventV::ItemCollected { item_id: 0, item_type })),
            cmd@ matches GameCommandV::SetPlayerHealth { health } ==> ({
                let nh = if health < old(self).spec_player_max_health() {
                    health
                } else {
                    old(self).spec_player_max_health()
                };
                &&& final(self).enemies_v() == old(self).enemies_v()
                &&& final(self).spec_player_health() == nh
                &&& final(self).spec_player_score() == old(self).spec_player_score()
                &&& (step matches GameStep::Broadcast { event } && event@ == (
                GameEventV::PlayerHealthChanged {
                    health: nh,
                    max_health: old(self).spec_player_max_health(),
                }))
            }),
            cmd@ matches GameCommandV::SetPlayerScore { score } ==> final(self).enemies_v() == old(self).enemies_v() && final(self).spec_player_health() == old(self).spec_player_health()
                && final(self).spec_player_score() == score && (
            step matches GameStep::Broadcast { event } && event@ == (
            GameEventV::PlayerScoreChanged { score })),
            cmd@ matches GameCommandV::TriggerGameEvent { event_name } ==> Self::unchanged(
                old(self),
                final(self),
            ) && (if spec_wave_framed(event_name, "_start"@) {
                match spec_parse_u32(spec_wave_middle(event_name, "_start"@)) {
                    Some(n) => step matches GameStep::Broadcast { event } && event@ == (
                    GameEventV::WaveStarted { wave_number: n }),
                    None => step matches GameStep::Ignore,
                }
            } else if spec_wave_framed(event_name, "_complete"@) {
                match spec_parse_u32(spec_wave_middle(event_name, "_complete"@)) {
                    Some(n) => step matches GameStep::Broadcast { event } && event@ == (
                    GameEventV::WaveCompleted { wave_number: n }),
                    None => step matches GameStep::Ignore,
                }
            } else {
                step matches GameStep::Broadcast { event } && event@ == (
                GameEventV::GameEventTriggered { event_name })
            }),
    {
        match cmd {
            GameCommand::SpawnEnemy { enemy_type, x_bits, y_bits, z_bits, request_id } => {
                GameStep::SpawnEnemy { plugin_id, request_id, enemy_type, x_bits, y_bits, z_bits }
            },
            GameCommand::DespawnEnemy { enemy_id } => {
                match self.enemy(enemy_id) {
                    Some(rec) => {
                        self.remove_enemy(enemy_id);
                        GameStep::DespawnEnemy {
                            host_entity: rec.entity,
                            event: GameEvent::EnemyDied { enemy_id, enemy_type: rec.enemy_type },
                        }
                    },
                    None => GameStep::Ignore,
                }
            },
            GameCommand::DamageEnemy { enemy_id, damage } => {
                match self.enemy(enemy_id) {
                    Some(rec) => {
                        let nh = if damage > rec.health {
                            0
                        } else {
                            rec.health - damage
                        };
                        self.remove_enemy(enemy_id);
                        self.enemies.push(
                            (
                                enemy_id,
                                EnemyRecord {
                                    entity: rec.entity,
                                    enemy_type: rec.enemy_type,
                                    health: nh,
                                },
                            ),
                        );
                        proof {
                            let t = self.enemies@;
                            let dv = spec_assoc_remove(old(self).enemies_v(), enemy_id);
                            assert(t.drop_last() =~= dv);
                            lemma_assoc_remove_props(
                                old(self).enemies_v(),
                                enemy_id,
                                self.next_enemy_id,
                            );
                            assert forall|a: int, b: int| 0 <= a < b < t.len() implies (
                            #[trigger] t[a]).0 != (#[trigger] t[b]).0 by {
                                if b == t.len() - 1 {
                                    assert(t[a] == dv[a]);
                                    if dv[a].0 == enemy_id {
                                        assert(spec_assoc_lookup(dv, enemy_id) is None);
                                        lemma_assoc_lookup_at(dv, a);
                                    }
                                }
                            }
                            assert(1 <= enemy_id < self.next_enemy_id) by {
                                lemma_assoc_lookup_present(old(self).enemies_v(), enemy_id);
                                let j = choose|j: int|
                                    0 <= j < old(self).enemies_v().len() && (
                                    #[trigger] old(self).enemies_v()[j]).0 == enemy_id;
                                assert(1 <= old(self).enemies_v()[j].0 < self.next_enemy_id);
                            }
                        }
                        GameStep::Broadcast {
                            event: GameEvent::EnemyDamaged { enemy_id, remaining_health: nh },
                        }
                    },
                    None => GameStep::Ignore,
                }
            },
            GameCommand::SpawnItem { item_type, x_bits, y_bits, z_bits, request_id } => {
                GameStep::SpawnItem { plugin_id, request_id, item_type, x_bits, y_bits, z_bits }
            },
            GameCommand::GivePlayerItem { item_type } => {
                GameStep::Broadcast { event: GameEvent::ItemCollected { item_id: 0, item_type } }
            },
            GameCommand::SetPlayerHealth { health } => {
                let nh = if health < self.player_max_health {
                    health
                } else {
                    self.player_max_health
                };
                self.player_health = nh;
                GameStep::Broadcast {
                    event: GameEvent::PlayerHealthChanged {
                        health: nh,
                        max_health: self.player_max_health,
                    },
                }
            },
            GameCommand::SetPlayerScore { score } => {
                self.player_score = score;
                GameStep::Broadcast { event: GameEvent::PlayerScoreChanged { score } }
            },
            GameCommand::TriggerGameEvent { event_name } => {
                proof {
                    reveal_strlit("wave_");
                    reveal_strlit("_start");
                    reveal_strlit("_complete");
                }
                let n = event_name.unicode_len();
                if str_starts_with(event_name.as_str(), "wave_") && n >= 11 && str_ends_with(
                    event_name.as_str(),
                    "_start",
                ) {
                    let middle = event_name.as_str().substring_char(5, n - 6);
                    proof {
                        assert(middle@ =~= spec_wave_middle(event_name@, "_start"@));
                    }
                    match parse_u32_str(middle) {
                        Some(wave_number) => GameStep::Broadcast {
                            event: GameEvent::WaveStarted { wave_number },
                        },
                        None => GameStep::Ignore,
                    }
                } else if str_starts_with(event_name.as_str(), "wave_") && n >= 14
                    && str_ends_with(event_name.as_str(), "_complete") {
                    let middle = event_name.as_str().substring_char(5, n - 9);
                    proof {
                        assert(middle@ =~= spec_wave_middle(event_name@, "_complete"@));
                    }
                    match parse_u32_str(middle) {
                        Some(wave_number) => GameStep::Broadcast {
                            event: GameEvent::WaveCompleted { wave_number },
                        },
                        None => GameStep::Ignore,
                    }
                } else {
                    GameStep::Broadcast { event: GameEvent::GameEventTriggered { event_name } }
                }
            },
        }
    }

    /// Nothing observable changed.
    pub open spec fn unchanged(a: &GameState, b: &GameState) -> bool {
        &&& a.enemies_v() == b.enemies_v()
        &&& a.items_v() == b.items_v()
        &&& a.spec_player_health() == b.spec_player_health()
        &&& a.spec_player_max_health() == b.spec_player_max_health()
        &&& a.spec_player_score() == b.spec_player_score()
        &&& a.spec_next_enemy_id() == b.spec_next_enemy_id()
        &&& a.spec_next_item_id() == b.spec_next_item_id()
    }

    /// Records the enemy the world just spawned: a fresh monotonic id, the
    /// kind's full health, and the reply the requesting plugin is owed.
    pub fn on_enemy_spawned(
        &mut self,
        plugin_id: u64,
        request_id: u64,
        enemy_type: EnemyType,
        host_entity: u64,
    ) -> (out: (u64, GameEvent))
        requires
            old(self).inv(),
            old(self).spec_next_enemy_id() < u64::MAX,
        ensures
            final(self).inv(),
            out.0 == old(self).spec_next_enemy_id(),
            final(self).enemies_v() == old(self).enemies_v().push(
                (
                    out.0,
                    EnemyRecord {
                        entity: host_entity,
                        enemy_type,
                        health: spec_enemy_max_health(enemy_type),
                    },
                ),
            ),
            final(self).spec_next_enemy_id() == old(self).spec_next_enemy_id() + 1,
            out.1@ == (GameEventV::EnemySpawned { request_id, enemy_id: out.0, enemy_type }),
            final(self).items_v() == old(self).items_v(),
            final(self).spec_player_health() == old(self).spec_player_health(),
            final(self).spec_player_max_health() == old(self).spec_player_max_health(),
            final(self).spec_player_score() == old(self).spec_player_score(),
            final(self).spec_next_item_id() == old(self).spec_next_item_id(),
    {
        let enemy_id = self.next_enemy_id;
        let health = get_enemy_max_health(&enemy_type);
        self.enemies.push((enemy_id, EnemyRecord { entity: host_entity, enemy_type, health }));
        self.next_enemy_id = self.next_enemy_id + 1;
        proof {
            let t = self.enemies@;
            let sv = old(self).enemies_v();
            assert(forall|j: int| 0 <= j < sv.len() ==> t[j] == sv[j]);
            assert forall|a: int, b: int| 0 <= a < b < t.len() implies (#[trigger] t[a]).0 != (
            #[trigger] t[b]).0 by {
                if b == t.len() - 1 {
                    assert(t[a] == sv[a]);
                    assert(1 <= sv[a].0 < enemy_id);
                }
            }
            assert forall|a: int| 0 <= a < t.len() implies 1 <= (#[trigger] t[a]).0
                < self.next_enemy_id by {
                if a < t.len() - 1 {
                    assert(t[a] == sv[a]);
                }
            }
        }
        (enemy_id, GameEvent::EnemySpawned { request_id, enemy_id, enemy_type })
    }

    /// Records the item the world just spawned and builds the reply the
    /// requesting plugin is owed.
    pub fn on_item_spawned(&mut self, plugin_id: u64, request_id: u64, item_type: ItemType) -> (out: (
        u64,
        GameEvent,
    ))
        requires
            old(self).inv(),
            old(self).spec_next_item_id() < u64::MAX,
        ensures
            final(self).inv(),
            out.0 == old(self).spec_next_item_id(),
            final(self).items_v() == old(self).items_v().push(out.0),
            final(self).spec_next_item_id() == old(self).spec_next_item_id() + 1,
            out.1@ == (GameEventV::ItemSpawned { request_id, item_id: out.0, item_type }),
            final(self).enemies_v() == old(self).enemies_v(),
            final(self).spec_player_health() == old(self).spec_player_health(),
            final(self).spec_player_max_health() == old(self).spec_player_max_health(),
            final(self).spec_player_score() == old(self).spec_player_score(),
            final(self).spec_next_enemy_id() == old(self).spec_next_enemy_id(),
    {
        let item_id = self.next_item_id;
        self.items.push(item_id);
        self.next_item_id = self.next_item_id + 1;
        (item_id, GameEvent::ItemSpawned { request_id, item_id, item_type })
    }
}

// ---------------------------------------------------------------------------
// The guest-side game client
// ---------------------------------------------------------------------------

/// The model of a command list.
pub open spec fn game_commands_view(s: Seq<GameCommand>) -> Seq<GameCommandV> {
    s.map_values(|c: GameCommand| c@)
}

/// The model of an event list.
pub open spec fn game_events_view(s: Seq<GameEvent>) -> Seq<GameEventV> {
    s.map_values(|e: GameEvent| e@)
}

/// The library a plugin links against the custom channel: it mints request
/// ids, queues outgoing game commands for the host import to send, and
/// collects the events the host delivered.
pub struct GameClient {
    next_request_id: u64,
    outbox: Vec<GameCommand>,
    inbox: Vec<GameEvent>,
}

impl GameClient {
    pub closed spec fn outbox_v(&self) -> Seq<GameCommandV> {
        game_commands_view(self.outbox@)
    }

    pub closed spec fn inbox_v(&self) -> Seq<GameEventV> {
        game_events_view(self.inbox@)
    }

    pub closed spec fn spec_next_request_id(&self) -> u64 {
        self.next_request_id
    }

    /// Everything except the outbox is unchanged, and the outbox only
    /// grew by the given commands.
    pub open spec fn queued(a: &GameClient, b: &GameClient, cs: Seq<GameCommandV>) -> bool {
        &&& b.outbox_v() == a.outbox_v() + cs
        &&& b.inbox_v() == a.inbox_v()
        &&& b.spec_next_request_id() == a.spec_next_request_id()
    }

    pub fn new() -> (c: GameClient)
        ensures
            c.outbox_v() =~= Seq::<GameCommandV>::empty(),
            c.inbox_v() =~= Seq::<GameEventV>::empty(),
            c.spec_next_request_id() == 1,
    {
        GameClient { next_request_id: 1, outbox: Vec::new(), inbox: Vec::new() }
    }

    /// The next request id this client will mint.
    pub fn next_request_id(&self) -> (id: u64)
        ensures
            id == self.spec_next_request_id(),
    {
        self.next_request_id
    }

    /// Mints the next correlation token; each is handed out once.
    pub fn next_game_request_id(&mut self) -> (id: u64)
        requires
            old(self).spec_next_request_id() < u64::MAX,
        ensures
            id == old(self).spec_next_request_id(),
            final(self).spec_next_request_id() == old(self).spec_next_request_id() + 1,
            final(self).outbox_v() == old(self).outbox_v(),
            final(self).inbox_v() == old(self).inbox_v(),
    {
        let id = self.next_request_id;
        self.next_request_id = self.next_request_id + 1;
        id
    }

    /// Queues one command for the host.
    pub fn send_game_command(&mut self, command: GameCommand)
        ensures
            Self::queued(old(self), final(self), seq![command@]),
    {
        let ghost cv = command@;
        self.outbox.push(command);
        proof {
            assert(final(self).outbox_v() =~= old(self).outbox_v() + seq![cv]);
        }
    }

    /// Asks the host to spawn an enemy; returns the request id the reply
    /// will echo.
    pub fn spawn_enemy(
        &mut self,
        enemy_type: EnemyType,
        x_bits: u32,
        y_bits: u32,
        z_bits: u32,
    ) -> (id: u64)
        requires
            old(self).spec_next_request_id() < u64::MAX,
        ensures
            id == old(self).spec_next_request_id(),
            final(self).spec_next_request_id() == old(self).spec_next_request_id() + 1,
            final(self).outbox_v() == old(self).outbox_v().push(
                GameCommandV::SpawnEnemy { enemy_type, x_bits, y_bits, z_bits, request_id: id },
            ),
            final(self).inbox_v() == old(self).inbox_v(),
    {
        let request_id = self.next_game_request_id();
        self.send_game_command(
            GameCommand::SpawnEnemy { enemy_type, x_bits, y_bits, z_bits, request_id },
        );
        proof {
            assert(final(self).outbox_v() =~= old(self).outbox_v().push(
                GameCommandV::SpawnEnemy {
                    enemy_type,
                    x_bits,
                    y_bits,
                    z_bits,
                    request_id: old(self).spec_next_request_id(),
                },
            ));
        }
        request_id
    }

    pub fn spawn_slime(&mut self, x_bits: u32, y_bits: u32, z_bits: u32) -> (id: u64)
        requires
            old(self).spec_next_request_id() < u64::MAX,
        ensures
            id == old(self).spec_next_request_id(),
            final(self).spec_next_request_id() == old(self).spec_next_request_id() + 1,
            final(self).outbox_v() == old(self).outbox_v().push(
                GameCommandV::SpawnEnemy {
                    enemy_type: EnemyType::Slime,
                    x_bits,
                    y_bits,
                    z_bits,
                    request_id: id,
                },
            ),
            final(self).inbox_v() == old(self).inbox_v(),
    {
        self.spawn_enemy(EnemyType::Slime, x_bits, y_bits, z_bits)
    }

    pub fn spawn_skeleton(&mut self, x_bits: u32, y_bits: u32, z_bits: u32) -> (id: u64)
        requires
            old(self).spec_next_request_id() < u64::MAX,
        ensures
            id == old(self).spec_next_request_id(),
            final(self).spec_next_request_id() == old(self).spec_next_request_id() + 1,
            final(self).outbox_v() == old(self).outbox_v().push(
                GameCommandV::SpawnEnemy {
                    enemy_type: EnemyType::Skeleton,
                    x_bits,
                    y_bits,
                    z_bits,
                    request_id: id,
                },
            ),
            final(self).inbox_v() == old(self).inbox_v(),
    {
        self.spawn_enemy(EnemyType::Skeleton, x_bits, y_bits, z_bits)
    }

    pub fn spawn_dragon(&mut self, x_bits: u32, y_bits: u32, z_bits: u32) -> (id: u64)
        requires
            old(self).spec_next_request_id() < u64::MAX,
        ensures
            id == old(self).spec_next_request_id(),
            final(self).spec_next_request_id() == old(self).spec_next_request_id() + 1,
            final(self).outbox_v() == old(self).outbox_v().push(
                GameCommandV::SpawnEnemy {
                    enemy_type: EnemyType::Dragon,
                    x_bits,
                    y_bits,
                    z_bits,
                    request_id: id,
                },
            ),
            final(self).inbox_v() == old(self).inbox_v(),
    {
        self.spawn_enemy(EnemyType::Dragon, x_bits, y_bits, z_bits)
    }

    pub fn despawn_enemy(&mut self, enemy_id: u64)
        ensures
            Self::queued(old(self), final(self), seq![GameCommandV::DespawnEnemy { enemy_id }]),
    {
        self.send_game_command(GameCommand::DespawnEnemy { enemy_id });
    }

    pub fn damage_enemy(&mut self, enemy_id: u64, damage: u32)
        ensures
            Self::queued(
                old(self),
                final(self),
                seq![GameCommandV::DamageEnemy { enemy_id, damage }],
            ),
    {
        self.send_game_command(GameCommand::DamageEnemy { enemy_id, damage });
    }

    /// Asks the host to spawn an item; returns the request id the reply
    /// will echo.
    pub fn spawn_item(
        &mut self,
        item_type: ItemType,
        x_bits: u32,
        y_bits: u32,
        z_bits: u32,
    ) -> (id: u64)
        requires
            old(self).spec_next_request_id() < u64::MAX,
        ensures
            id == old(self).spec_next_request_id(),
            final(self).spec_next_request_id() == old(self).spec_next_request_id() + 1,
            final(self).outbox_v() == old(self).outbox_v().push(
                GameCommandV::SpawnItem { item_type, x_bits, y_bits, z_bits, request_id: id },
            ),
            final(self).inbox_v() == old(self).inbox_v(),
    {
        let request_id = self.next_game_request_id();
        self.send_game_command(
            GameCommand::SpawnItem { item_type, x_bits, y_bits, z_bits, request_id },
        );
        proof {
            assert(final(self).outbox_v() =~= old(self).outbox_v().push(
                GameCommandV::SpawnItem {
                    item_type,
                    x_bits,
                    y_bits,
                    z_bits,
                    request_id: old(self).spec_next_request_id(),
                },
            ));
        }
        request_id
    }

    pub fn spawn_health_potion(&mut self, x_bits: u32, y_bits: u32, z_bits: u32) -> (id: u64)
        requires
            old(self).spec_next_request_id() < u64::MAX,
        ensures
            id == old(self).spec_next_request_id(),
            final(self).spec_next_request_id() == old(self).spec_next_request_id() + 1,
            final(self).outbox_v() == old(self).outbox_v().push(
                GameCommandV::SpawnItem {
                    item_type: ItemType::HealthPotion,
                    x_bits,
                    y_bits,
                    z_bits,
                    request_id: id,
                },
            ),
            final(self).inbox_v() == old(self).inbox_v(),
    {
        self.spawn_item(ItemType::HealthPotion, x_bits, y_bits, z_bits)
    }

    pub fn spawn_sword(&mut self, x_bits: u32, y_bits: u32, z_bits: u32) -> (id: u64)
        requires
            old(self).spec_next_request_id() < u64::MAX,
        ensures
            id == old(self).spec_next_request_id(),
            final(self).spec_next_request_id() == old(self).spec_next_request_id() + 1,
            final(self).outbox_v() == old(self).outbox_v().push(
                GameCommandV::SpawnItem {
                    item_type: ItemType::Sword,
                    x_bits,
                    y_bits,
                    z_bits,
                    request_id: id,
                },
            ),
            final(self).inbox_v() == old(self).inbox_v(),
    {
        self.spawn_item(ItemType::Sword, x_bits, y_bits, z_bits)
    }

    pub fn give_player_item(&mut self, item_type: ItemType)
        ensures
            Self::queued(old(self), final(self), seq![GameCommandV::GivePlayerItem { item_type }]),
    {
        self.send_game_command(GameCommand::GivePlayerItem { item_type });
    }

    pub fn set_player_health(&mut self, health: u32)
        ensures
            Self::queued(old(self), final(self), seq![GameCommandV::SetPlayerHealth { health }]),
    {
        self.send_game_command(GameCommand::SetPlayerHealth { health });
    }

    pub fn set_player_score(&mut self, score: u64)
        ensures
            Self::queued(old(self), final(self), seq![GameCommandV::SetPlayerScore { score }]),
    {
        self.send_game_command(GameCommand::SetPlayerScore { score });
    }

    pub fn trigger_game_event(&mut self, event_name: &str)
        ensures
            Self::queued(
                old(self),
                final(self),
                seq![GameCommandV::TriggerGameEvent { event_name: event_name@ }],
            ),
    {
        self.send_game_command(
            GameCommand::TriggerGameEvent { event_name: String::from_str(event_name) },
        );
    }

    /// Receives one serialized event from the host: a buffer that encodes
    /// a well-formed event lands in the inbox, anything else is dropped.
    pub fn game_plugin_receive_event(&mut self, bytes: &Vec<u8>)
        ensures
            final(self).outbox_v() == old(self).outbox_v(),
            final(self).spec_next_request_id() == old(self).spec_next_request_id(),
            forall|m: GameEventV|
                wf_game_event(m) && bytes@ == #[trigger] spec_game_event_bytes(m) ==> final(self).inbox_v() == old(self).inbox_v().push(m),
            final(self).inbox_v() == old(self).inbox_v() || (exists|m: GameEventV|
                wf_game_event(m) && bytes@ == #[trigger] spec_game_event_bytes(m) && final(self).inbox_v() == old(self).inbox_v().push(m)),
    {
        match GameEvent::from_bytes(bytes) {
            Some(event) => {
                let ghost ev = event@;
                self.inbox.push(event);
                proof {
                    assert(final(self).inbox_v() =~= old(self).inbox_v().push(ev));
                }
            },
            None => {},
        }
    }

    /// Hands out every received event, in arrival order, and empties the
    /// inbox.
    pub fn drain_game_events(&mut self) -> (out: Vec<GameEvent>)
        ensures
            game_events_view(out@) == old(self).inbox_v(),
            final(self).inbox_v() =~= Seq::<GameEventV>::empty(),
            final(self).outbox_v() == old(self).outbox_v(),
            final(self).spec_next_request_id() == old(self).spec_next_request_id(),
    {
        let mut out: Vec<GameEvent> = Vec::new();
        core::mem::swap(&mut out, &mut self.inbox);
        out
    }

    /// Hands out every queued command, in emission order, and empties the
    /// outbox; the host import sends each across the boundary.
    pub fn drain_game_commands(&mut self) -> (out: Vec<GameCommand>)
        ensures
            game_commands_view(out@) == old(self).outbox_v(),
            final(self).outbox_v() =~= Seq::<GameCommandV>::empty(),
            final(self).inbox_v() == old(self).inbox_v(),
            final(self).spec_next_request_id() == old(self).spec_next_request_id(),
    {
        let mut out: Vec<GameCommand> = Vec::new();
        core::mem::swap(&mut out, &mut self.outbox);
        out
    }
}

/// A hit names an entry of the list (with unique ids, the entry).
pub proof fn lemma_assoc_lookup_present<T>(s: Seq<(u64, T)>, id: u64)
    requires
        spec_assoc_lookup(s, id) is Some,
    ensures
        exists|j: int| 0 <= j < s.len() && (#[trigger] s[j]).0 == id,
    decreases s.len(),
{
    if s.len() > 0 {
        if s.last().0 == id {
            assert(s[s.len() - 1].0 == id);
        } else {
            lemma_assoc_lookup_present(s.drop_last(), id);
            let j = choose|j: int| 0 <= j < s.drop_last().len() && (#[trigger] s.drop_last()[j]).0
                == id;
            assert(s[j].0 == id);
        }
    }
}

/// The entry at any index resolves, when ids are unique, to itself.
pub proof fn lemma_assoc_lookup_at<T>(s: Seq<(u64, T)>, j: int)
    requires
        assoc_unique_ids(s),
        0 <= j < s.len(),
    ensures
        spec_assoc_lookup(s, s[j].0) == Some(s[j].1),
    decreases s.len(),
{
    if j == s.len() - 1 {
        assert(s.last() == s[j]);
    } else {
        assert(s.last() == s[s.len() - 1]);
        assert(s[j].0 != s[s.len() - 1].0);
        assert(s.drop_last()[j] == s[j]);
        lemma_assoc_lookup_at(s.drop_last(), j);
    }
}

} // verus!
