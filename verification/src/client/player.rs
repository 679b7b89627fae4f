use vstd::prelude::*;

verus! {

/// Health points that a player has when it joins.
pub const INITIAL_HEALTH: u32 = 3;

/// A connected player as the server records it.
#[derive(Debug, PartialEq, Eq)]
pub struct Player {
    pub name: String,
    /// The socket address (`ip:port`) the player sends from.
    pub address: String,
    pub health: u32,
    pub ready: bool,
    /// The spawn point given to the player, if one was free.
    pub spawn: Option<usize>,
}

/// Mathematical model of a player.
pub struct PlayerView {
    pub name: Seq<char>,
    pub address: Seq<char>,
    pub health: u32,
    pub ready: bool,
    pub spawn: Option<usize>,
}

impl View for Player {
    type V = PlayerView;

    open spec fn view(&self) -> PlayerView {
        PlayerView {
            name: self.name@,
            address: self.address@,
            health: self.health,
            ready: self.ready,
            spawn: self.spawn,
        }
    }
}

impl Player {
    /// A copy of this player.
    pub fn copy(&self) -> (p: Player)
        ensures
            p@ == self@,
    {
        Player {
            name: self.name.clone(),
            address: self.address.clone(),
            health: self.health,
            ready: self.ready,
            spawn: self.spawn,
        }
    }
}

/// Whether some entry of `ps` carries `name`.
pub open spec fn has_name(ps: Seq<PlayerView>, name: Seq<char>) -> bool {
    exists|i: int| 0 <= i < ps.len() && (#[trigger] ps[i]).name == name
}

/// No two entries of `ps` carry the same name.
pub open spec fn distinct_names(ps: Seq<PlayerView>) -> bool {
    forall|i: int, j: int|
        0 <= i < ps.len() && 0 <= j < ps.len() && i != j ==> (#[trigger] ps[i]).name != (
        #[trigger] ps[j]).name
}

/// Every entry of `ps` is ready.
pub open spec fn all_ready(ps: Seq<PlayerView>) -> bool {
    forall|i: int| 0 <= i < ps.len() ==> (#[trigger] ps[i]).ready
}

/// The connected players, in the order in which they joined; names are unique.
#[derive(Debug, PartialEq, Eq)]
pub struct Players {
    entries: Vec<Player>,
}

impl View for Players {
    type V = Seq<PlayerView>;

    closed spec fn view(&self) -> Seq<PlayerView> {
        self.entries@.map_values(|p: Player| p@)
    }
}

impl Players {
    /// The registry's invariant: no name occurs twice.
    pub open spec fn wf(&self) -> bool {
        distinct_names(self@)
    }

    /// An empty registry.
    pub fn new() -> (ps: Players)
        ensures
            ps.wf(),
            ps@ == Seq::<PlayerView>::empty(),
    {
        let ps = Players { entries: Vec::new() };
        assert(ps@ =~= Seq::<PlayerView>::empty());
        ps
    }

    /// Number of connected players.
    pub fn len(&self) -> (n: usize)
        ensures
            n == self@.len(),
    {
        self.entries.len()
    }

    /// The player at position `i`.
    pub fn get(&self, i: usize) -> (p: &Player)
        requires
            i < self@.len(),
        ensures
            p@ == self@[i as int],
    {
        &self.entries[i]
    }

    /// Position of the player called `name`, if it is connected.
    pub fn find(&self, name: &str) -> (r: Option<usize>)
        ensures
            match r {
                Some(i) => i < self@.len() && self@[i as int].name == name@,
                None => !has_name(self@, name@),
            },
    {
        let key = name.to_owned();
        let mut i: usize = 0;
        while i < self.entries.len()
            invariant
                key@ == name@,
                i <= self.entries@.len(),
                forall|k: int| 0 <= k < i ==> (#[trigger] self@[k]).name != name@,
            decreases self.entries@.len() - i,
        {
            if self.entries[i].name == key {
                return Some(i);
            }
            i += 1;
        }
        None
    }

    /// Whether every connected player is ready.
    pub fn all_ready(&self) -> (b: bool)
        ensures
            b == all_ready(self@),
    {
        let mut i: usize = 0;
        while i < self.entries.len()
            invariant
                i <= self.entries@.len(),
                forall|k: int| 0 <= k < i ==> (#[trigger] self@[k]).ready,
            decreases self.entries@.len() - i,
        {
            if !self.entries[i].ready {
                assert(!self@[i as int].ready);
                return false;
            }
            i += 1;
        }
        true
    }

    /// Replaces the health of the player at position `i`.
    pub fn set_health(&mut self, i: usize, health: u32)
        requires
            old(self).wf(),
            i < old(self)@.len(),
        ensures
            final(self).wf(),
            final(self)@ == old(self)@.update(
                i as int,
                PlayerView { health, ..old(self)@[i as int] },
            ),
    {
        let mut p = self.entries.remove(i);
        p.health = health;
        self.entries.insert(i, p);
        assert(self@ =~= old(self)@.update(i as int, PlayerView { health, ..old(self)@[i as int] }));
    }

    /// Marks the player at position `i` as ready.
    pub fn set_ready(&mut self, i: usize)
        requires
            old(self).wf(),
            i < old(self)@.len(),
        ensures
            final(self).wf(),
            final(self)@ == old(self)@.update(
                i as int,
                PlayerView { ready: true, ..old(self)@[i as int] },
            ),
    {
        let mut p = self.entries.remove(i);
        p.ready = true;
        self.entries.insert(i, p);
        assert(self@ =~= old(self)@.update(i as int, PlayerView { ready: true, ..old(self)@[i as int] }));
    }
}

/// Records a player that joined from `address` with the given spawn point.
/// A name that is already connected leaves the registry as it was; the
/// result tells whether the player was added.
pub fn add_player(players: &mut Players, name: String, address: String, spawn: Option<usize>) -> (added:
    bool)
    requires
        old(players).wf(),
    ensures
        final(players).wf(),
        added == !has_name(old(players)@, name@),
        added ==> final(players)@ == old(players)@.push(
            PlayerView {
                name: name@,
                address: address@,
                health: INITIAL_HEALTH,
                ready: false,
                spawn,
            },
        ),
        !added ==> final(players)@ == old(players)@,
{
    match players.find(name.as_str()) {
        Some(_) => false,
        None => {
            let p = Player { name, address, health: INITIAL_HEALTH, ready: false, spawn };
            players.entries.push(p);
            assert(players@ =~= old(players)@.push(p@));
            true
        },
    }
}

/// Removes the player called `name` and gives it back; a name that is not
/// connected leaves the registry as it was.
pub fn remove_player(players: &mut Players, name: &str) -> (r: Option<Player>)
    requires
        old(players).wf(),
    ensures
        final(players).wf(),
        r is None <==> !has_name(old(players)@, name@),
        r is None ==> final(players)@ == old(players)@,
        match r {
            Some(p) => exists|i: int|
                0 <= i < old(players)@.len() && old(players)@[i] == p@ && p@.name == name@
                    && final(players)@ == old(players)@.remove(i),
            None => true,
        },
{
    match players.find(name) {
        Some(i) => {
            let p = players.entries.remove(i);
            assert(players@ =~= old(players)@.remove(i as int));
            Some(p)
        },
        None => None,
    }
}

/// A player after a hit: one health point less, unless it has none left.
pub open spec fn hit(p: PlayerView) -> PlayerView {
    if p.health > 0 {
        PlayerView { health: (p.health - 1) as u32, ..p }
    } else {
        p
    }
}

/// The names of the players that a hit kills: those with exactly one point left.
pub open spec fn killed_by_hit(ps: Seq<PlayerView>) -> Seq<Seq<char>>
    decreases ps.len(),
{
    if ps.len() == 0 {
        seq![]
    } else if ps.last().health == 1 {
        killed_by_hit(ps.drop_last()).push(ps.last().name)
    } else {
        killed_by_hit(ps.drop_last())
    }
}

/// The number of players that a hit reaches: those with health left.
pub open spec fn reached_by_hit(ps: Seq<PlayerView>) -> nat
    decreases ps.len(),
{
    if ps.len() == 0 {
        0
    } else {
        reached_by_hit(ps.drop_last()) + if ps.last().health > 0 { 1nat } else { 0nat }
    }
}

/// The test shot: every player with health left loses one point. The result
/// is the number of players hit and the names of those left with none, in
/// registry order.
pub fn simulation_tir(players: &mut Players) -> (r: (usize, Vec<String>))
    requires
        old(players).wf(),
    ensures
        final(players).wf(),
        final(players)@ == old(players)@.map_values(|p: PlayerView| hit(p)),
        r.0 == reached_by_hit(old(players)@),
        r.1@.map_values(|n: String| n@) == killed_by_hit(old(players)@),
{
    let mut hits: usize = 0;
    let mut died: Vec<String> = Vec::new();
    let mut i: usize = 0;
    let n = players.len();
    while i < n
        invariant
            n == old(players)@.len(),
            i <= n,
            players.wf(),
            players@.len() == n,
            forall|k: int| 0 <= k < i ==> players@[k] == hit(#[trigger] old(players)@[k]),
            forall|k: int| i <= k < n ==> players@[k] == old(players)@[k],
            hits == reached_by_hit(old(players)@.take(i as int)),
            hits <= i,
            died@.map_values(|s: String| s@) == killed_by_hit(old(players)@.take(i as int)),
        decreases n - i,
    {
        proof {
            assert(old(players)@.take(i + 1).drop_last() =~= old(players)@.take(i as int));
            assert(old(players)@.take(i + 1).last() == old(players)@[i as int]);
        }
        let h = players.get(i).health;
        if h > 0 {
            if h == 1 {
                let name = players.get(i).name.clone();
                let ghost before = died@;
                died.push(name);
                assert(died@.map_values(|s: String| s@) =~= before.map_values(|s: String| s@).push(name@));
            }
            players.set_health(i, h - 1);
            hits += 1;
        }
        i += 1;
    }
    assert(old(players)@.take(n as int) =~= old(players)@);
    assert(players@ =~= old(players)@.map_values(|p: PlayerView| hit(p)));
    (hits, died)
}

} // verus!
