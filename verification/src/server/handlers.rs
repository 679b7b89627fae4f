use vstd::prelude::*;
use rand::Rng;
use crate::utils::decimal::{decimal_text, digit_char};
use crate::client::player::{all_ready, has_name, distinct_names, add_player, remove_player, Player, PlayerView, Players, INITIAL_HEALTH};
use crate::common::constant::PlayerCount;
use crate::common::protocol::{ContentView, GameMessage, GameMessageView, MessageContent, MessageType};
use crate::server::udp::{broadcast_message, broadcast_spec, opt_str_view, outgoing_views, Outgoing, OutgoingView, Reply, ReplyView};

verus! {

/// Number of spawn points of the map.
pub const SPAWN_COUNT: usize = 10;

/// The key under which spawn point `i` is known: the decimal writing of `i + 1`.
pub open spec fn spawn_key(i: int) -> Seq<char> {
    decimal_text((i + 1) as nat)
}

/// The spawn point that `key` names, if any.
pub open spec fn spawn_index_of(key: Seq<char>) -> Option<int> {
    if exists|i: int| 0 <= i < SPAWN_COUNT && spawn_key(i) == key {
        Some(choose|i: int| 0 <= i < SPAWN_COUNT && spawn_key(i) == key)
    } else {
        None
    }
}

proof fn lemma_spawn_keys()
    ensures
        forall|i: int| 0 <= i < 9 ==> spawn_key(i) == seq![digit_char((i + 1) as nat)],
        spawn_key(9) == seq!['1', '0'],
{
    reveal_with_fuel(decimal_text, 2);
    assert(decimal_text(1) == seq![digit_char(1)]);
    assert(digit_char(1) == '1');
    assert(digit_char(0) == '0');
    assert(spawn_key(9) =~= seq!['1', '0']);
}

proof fn lemma_spawn_index_unique(key: Seq<char>, i: int)
    requires
        0 <= i < SPAWN_COUNT,
        spawn_key(i) == key,
    ensures
        spawn_index_of(key) == Some(i),
{
    lemma_spawn_keys();
    let j = choose|j: int| 0 <= j < SPAWN_COUNT && spawn_key(j) == key;
    if j != i {
        if i < 9 && j < 9 {
            assert(spawn_key(i)[0] == spawn_key(j)[0]);
        } else if i < 9 {
            assert(spawn_key(i).len() != spawn_key(j).len());
        } else {
            assert(spawn_key(i).len() != spawn_key(j).len());
        }
    }
}

/// The spawn point that `key` names: `"1"` to `"10"` name points 0 to 9.
pub fn spawn_index(key: &str) -> (r: Option<usize>)
    ensures
        match r {
            Some(i) => i < SPAWN_COUNT && spawn_index_of(key@) == Some(i as int),
            None => spawn_index_of(key@) is None,
        },
{
    proof {
        lemma_spawn_keys();
    }
    let n = key.unicode_len();
    if n == 1 {
        let c = key.get_char(0);
        if '1' <= c && c <= '9' {
            let i = (c as u32 - 49) as usize;
            proof {
                assert(key@ =~= seq![c]);
                assert(spawn_key(i as int) == seq![digit_char((i + 1) as nat)]);
                lemma_spawn_index_unique(key@, i as int);
            }
            return Some(i);
        }
        proof {
            assert(forall|j: int| 0 <= j < 9 ==> spawn_key(j)[0] != key@[0]);
            assert(forall|j: int| 0 <= j < SPAWN_COUNT ==> spawn_key(j) != key@);
        }
        None
    } else if n == 2 {
        let c0 = key.get_char(0);
        let c1 = key.get_char(1);
        if c0 == '1' && c1 == '0' {
            proof {
                assert(key@ =~= seq!['1', '0']);
                lemma_spawn_index_unique(key@, 9);
            }
            return Some(9);
        }
        proof {
            assert(forall|j: int| 0 <= j < 9 ==> spawn_key(j).len() != key@.len());
            assert(spawn_key(9) != key@) by {
                if spawn_key(9) == key@ {
                    assert(key@[0] == '1');
                }
            }
        }
        None
    } else {
        proof {
            assert(forall|j: int| 0 <= j < SPAWN_COUNT ==> spawn_key(j).len() != key@.len());
        }
        None
    }
}

/// Indices of the free points of `occ`, in increasing order.
pub open spec fn free_slots(occ: Seq<bool>) -> Seq<int>
    decreases occ.len(),
{
    if occ.len() == 0 {
        seq![]
    } else if !occ.last() {
        free_slots(occ.drop_last()).push(occ.len() - 1)
    } else {
        free_slots(occ.drop_last())
    }
}

proof fn lemma_free_slots(occ: Seq<bool>)
    ensures
        forall|k: int|
            0 <= k < free_slots(occ).len() ==> 0 <= #[trigger] free_slots(occ)[k] < occ.len()
                && !occ[free_slots(occ)[k]],
        forall|i: int| 0 <= i < occ.len() && !occ[i] ==> free_slots(occ).contains(i),
    decreases occ.len(),
{
    if occ.len() > 0 {
        let prev = occ.drop_last();
        lemma_free_slots(prev);
        assert forall|i: int| 0 <= i < occ.len() && !occ[i] implies free_slots(occ).contains(i) by {
            if i < occ.len() - 1 {
                assert(prev[i] == occ[i]);
                let k = choose|k: int| 0 <= k < free_slots(prev).len() && free_slots(prev)[k] == i;
                assert(free_slots(occ)[k] == i);
            } else {
                assert(free_slots(occ).last() == i);
            }
        }
        assert forall|k: int| 0 <= k < free_slots(occ).len() implies 0 <= #[trigger] free_slots(
            occ,
        )[k] < occ.len() && !occ[free_slots(occ)[k]] by {
            if k < free_slots(prev).len() {
                assert(free_slots(occ)[k] == free_slots(prev)[k]);
                assert(prev[free_slots(prev)[k]] == occ[free_slots(prev)[k]]);
            }
        }
    }
}

/// The spawn points of the map and whether each is taken.
pub struct SpawnPoints {
    occupied: Vec<bool>,
}

impl View for SpawnPoints {
    type V = Seq<bool>;

    closed spec fn view(&self) -> Seq<bool> {
        self.occupied@
    }
}

impl SpawnPoints {
    /// The invariant: one flag per spawn point.
    pub open spec fn wf(&self) -> bool {
        self@.len() == SPAWN_COUNT
    }

    /// All spawn points, none taken.
    pub fn new() -> (s: SpawnPoints)
        ensures
            s.wf(),
            forall|i: int| 0 <= i < SPAWN_COUNT ==> !(#[trigger] s@[i]),
    {
        let mut occupied: Vec<bool> = Vec::new();
        let mut i: usize = 0;
        while i < SPAWN_COUNT
            invariant
                i <= SPAWN_COUNT,
                occupied@.len() == i,
                forall|k: int| 0 <= k < i ==> !(#[trigger] occupied@[k]),
            decreases SPAWN_COUNT - i,
        {
            occupied.push(false);
            i += 1;
        }
        SpawnPoints { occupied }
    }

    /// Whether spawn point `i` is taken.
    pub fn is_occupied(&self, i: usize) -> (b: bool)
        requires
            i < self@.len(),
        ensures
            b == self@[i as int],
    {
        self.occupied[i]
    }

    /// The free spawn points, in increasing order.
    pub fn free_points(&self) -> (v: Vec<usize>)
        ensures
            v@.len() == free_slots(self@).len(),
            forall|k: int| 0 <= k < v@.len() ==> v@[k] as int == #[trigger] free_slots(self@)[k],
    {
        let mut v: Vec<usize> = Vec::new();
        let mut i: usize = 0;
        while i < self.occupied.len()
            invariant
                i <= self@.len(),
                v@.len() == free_slots(self@.take(i as int)).len(),
                forall|k: int|
                    0 <= k < v@.len() ==> v@[k] as int == #[trigger] free_slots(
                        self@.take(i as int),
                    )[k],
            decreases self@.len() - i,
        {
            proof {
                assert(self@.take(i + 1).drop_last() =~= self@.take(i as int));
            }
            if !self.occupied[i] {
                v.push(i);
            }
            i += 1;
        }
        assert(self@.take(self@.len() as int) =~= self@);
        v
    }
}

/// Sets the taken flag of the spawn point that `key` names to `value`; a key
/// that names no spawn point changes nothing.
pub fn set_is_occupied(spawns: &mut SpawnPoints, key: &str, value: bool)
    requires
        old(spawns).wf(),
    ensures
        final(spawns).wf(),
        match spawn_index_of(key@) {
            Some(i) => final(spawns)@ == old(spawns)@.update(i, value),
            None => final(spawns)@ == old(spawns)@,
        },
{
    if let Some(i) = spawn_index(key) {
        spawns.occupied.set(i, value);
    }
}

/// Takes the free spawn point at position `draw` (modulo their number) among
/// the free points in increasing order; `None`, with nothing changed, when
/// every point is taken.
pub fn choose_place_with_draw(spawns: &mut SpawnPoints, draw: usize) -> (r: Option<usize>)
    requires
        old(spawns).wf(),
    ensures
        final(spawns).wf(),
        free_slots(old(spawns)@).len() == 0 ==> r is None && final(spawns)@ == old(spawns)@,
        free_slots(old(spawns)@).len() > 0 ==> r == Some(
            free_slots(old(spawns)@)[draw as int % free_slots(old(spawns)@).len() as int] as usize,
        ) && final(spawns)@ == old(spawns)@.update(r->0 as int, true),
{
    let free = spawns.free_points();
    if free.len() == 0 {
        return None;
    }
    proof {
        lemma_free_slots(spawns@);
    }
    let k = draw % free.len();
    let slot = free[k];
    assert(free_slots(spawns@)[k as int] == slot);
    spawns.occupied.set(slot, true);
    Some(slot)
}

/// Calls `rand::Rng::gen_range(0..n)` on `rand::thread_rng()`: a number
/// drawn at random below `n`. Which number comes rests on chance, so the
/// contract says only that it is below `n`. `gen_range` panics on an empty
/// range, which `requires` rules out; `thread_rng` also panics when the
/// operating system gives it no seed, which no `requires` can rule out.
#[verifier::external_body]
fn random_below(n: usize) -> (r: usize)
    requires
        n > 0,
    ensures
        r < n,
{
    rand::thread_rng().gen_range(0..n)
}

/// Takes a free spawn point drawn uniformly at random among the free ones;
/// `None`, with nothing changed, when every point is taken.
pub fn choose_place(spawns: &mut SpawnPoints) -> (r: Option<usize>)
    requires
        old(spawns).wf(),
    ensures
        final(spawns).wf(),
        r is None <==> forall|i: int| 0 <= i < SPAWN_COUNT ==> old(spawns)@[i],
        r is None ==> final(spawns)@ == old(spawns)@,
        match r {
            Some(s) => s < SPAWN_COUNT && !old(spawns)@[s as int] && final(spawns)@ == old(
                spawns,
            )@.update(s as int, true),
            None => true,
        },
{
    proof {
        lemma_free_slots(spawns@);
    }
    let free = spawns.free_points();
    let draw = if free.len() == 0 { 0 } else { random_below(free.len()) };
    let r = choose_place_with_draw(spawns, draw);
    proof {
        if free.len() > 0 {
            let s = free_slots(old(spawns)@)[draw as int % free_slots(old(spawns)@).len() as int];
            assert(free_slots(old(spawns)@).contains(s));
        } else {
            assert forall|i: int| 0 <= i < SPAWN_COUNT implies old(spawns)@[i] by {
                if !old(spawns)@[i] {
                    assert(free_slots(old(spawns)@).contains(i));
                }
            }
        }
    }
    r
}

/// Text of the message that asks the players to wait.
pub open spec fn wait_text() -> Seq<char> {
    "Please wait for other players..."@
}

/// Text of the message that starts the game.
pub open spec fn start_text() -> Seq<char> {
    "start"@
}

/// Status line that tells the others that `name` left.
pub open spec fn left_text(name: Seq<char>) -> Seq<char> {
    name + " has disconnected."@
}

/// The player that joins as `name` from `address` at `spawn`.
pub open spec fn joining_player(name: Seq<char>, address: Seq<char>, spawn: Option<usize>) -> PlayerView {
    PlayerView { name, address, health: INITIAL_HEALTH, ready: false, spawn }
}

/// The registry after `name` tried to join: unchanged when the name is taken.
pub open spec fn joined(
    ps: Seq<PlayerView>,
    name: Seq<char>,
    address: Seq<char>,
    spawn: Option<usize>,
) -> Seq<PlayerView> {
    if has_name(ps, name) {
        ps
    } else {
        ps.push(joining_player(name, address, spawn))
    }
}

/// Position of the player called `name`.
pub open spec fn index_of(ps: Seq<PlayerView>, name: Seq<char>) -> int {
    choose|i: int| 0 <= i < ps.len() && ps[i].name == name
}

/// The registry after the player at `i` said it is ready.
pub open spec fn marked_ready(ps: Seq<PlayerView>, i: int) -> Seq<PlayerView> {
    ps.update(i, PlayerView { ready: true, ..ps[i] })
}

/// Whether the game starts: every player is ready and as many are connected
/// as the game expects.
pub open spec fn game_starts(ps: Seq<PlayerView>, min_players: usize) -> bool {
    all_ready(ps) && ps.len() == min_players
}

proof fn lemma_index_of(ps: Seq<PlayerView>, i: int)
    requires
        distinct_names(ps),
        0 <= i < ps.len(),
    ensures
        index_of(ps, ps[i].name) == i,
{
    let j = index_of(ps, ps[i].name);
    assert(0 <= j < ps.len() && ps[j].name == ps[i].name);
}

/// Announces to every player that `player_name` joined.
pub fn send_new_connection_message(players: &Players, player_name: &str) -> (out: Vec<Outgoing>)
    ensures
        outgoing_views(out@) == broadcast_spec(players@, ReplyView::NewConnection { name: player_name@ }, None, true),
{
    broadcast_message(players, &Reply::NewConnection { name: player_name.to_owned() }, None, true)
}

/// Asks every player to wait for the others.
pub fn send_wait_for_players_message(players: &Players) -> (out: Vec<Outgoing>)
    ensures
        outgoing_views(out@) == broadcast_spec(players@, ReplyView::WaitForPlayers { msg: wait_text() }, None, true),
{
    broadcast_message(
        players,
        &Reply::WaitForPlayers { msg: String::from_str("Please wait for other players...") },
        None,
        true,
    )
}

/// Sends the position of `player_name`, with the sequence number of the
/// action that moved it, to every player.
pub fn broadcast_game_update(players: &Players, player_name: &str, sequence_number: u32) -> (out: Vec<Outgoing>)
    ensures
        outgoing_views(out@) == broadcast_spec(
            players@,
            ReplyView::PositionUpdate { player: player_name@, sequence_number },
            None,
            true,
        ),
{
    broadcast_message(
        players,
        &Reply::PositionUpdate { player: player_name.to_owned(), sequence_number },
        None,
        true,
    )
}

/// Sends a received `GameUpdate` on to every player, sender and body unchanged.
pub fn handle_game_update(players: &Players) -> (out: Vec<Outgoing>)
    ensures
        outgoing_views(out@) == broadcast_spec(players@, ReplyView::Relay, None, true),
{
    broadcast_message(players, &Reply::Relay, None, true)
}

/// Handles a `NewConnection` from `sender` at `src` that was given the spawn
/// point `spawn`: records the player unless its name is taken, then announces
/// the name to every player and asks every player to wait.
pub fn handle_new_connection(players: &mut Players, sender: &str, src: &str, spawn: Option<usize>) -> (out: Vec<Outgoing>)
    requires
        old(players).wf(),
    ensures
        final(players).wf(),
        final(players)@ == joined(old(players)@, sender@, src@, spawn),
        outgoing_views(out@) == broadcast_spec(
            final(players)@,
            ReplyView::NewConnection { name: sender@ },
            None,
            true,
        ) + broadcast_spec(final(players)@, ReplyView::WaitForPlayers { msg: wait_text() }, None, true),
{
    add_player(players, sender.to_owned(), src.to_owned(), spawn);
    let mut out = send_new_connection_message(players, sender);
    let mut wait = send_wait_for_players_message(players);
    let ghost a = out@;
    let ghost b = wait@;
    out.append(&mut wait);
    assert(outgoing_views(out@) =~= outgoing_views(a) + outgoing_views(b));
    out
}

/// Handles a ready `PlayerAction` from the player at `i`: marks it ready and,
/// when every player is ready and as many are connected as expected, tells
/// every player that the game starts.
pub fn handle_ready_state(players: &mut Players, i: usize, player_count: &PlayerCount) -> (out: Vec<Outgoing>)
    requires
        old(players).wf(),
        i < old(players)@.len(),
    ensures
        final(players).wf(),
        final(players)@ == marked_ready(old(players)@, i as int),
        game_starts(final(players)@, player_count.spec_min_players()) ==> outgoing_views(out@)
            == broadcast_spec(final(players)@, ReplyView::StartGame { msg: start_text() }, None, true),
        !game_starts(final(players)@, player_count.spec_min_players()) ==> out@.len() == 0,
{
    players.set_ready(i);
    if players.all_ready() && players.len() == player_count.get_min_players() {
        broadcast_message(players, &Reply::StartGame { msg: String::from_str("start") }, None, true)
    } else {
        Vec::new()
    }
}

/// What the server does with one message: the replies to send, and whether
/// the sender's movement is to be updated from the action it sent (before the
/// replies are written).
#[derive(Debug, PartialEq, Eq)]
pub struct ServerStep {
    pub move_sender: bool,
    /// Whether this message started the game.
    pub game_started: bool,
    pub outgoing: Vec<Outgoing>,
}

/// Whether `after`, `moved` and `out` are what a `PlayerAction` message `m`
/// does to the registry `before`: from a connected player, a ready action
/// marks it ready and, when the game then starts, tells every player; any
/// other action moves the player and sends its position to every player.
/// From an unknown sender, or with another body, nothing happens.
pub open spec fn player_action_done(
    before: Seq<PlayerView>,
    after: Seq<PlayerView>,
    m: GameMessageView,
    min_players: usize,
    moved: bool,
    started: bool,
    out: Seq<OutgoingView>,
) -> bool {
    match m.content {
        ContentView::PlayerAction { ready, sequence_number } => {
            if !has_name(before, m.sender) {
                after == before && !moved && !started && out.len() == 0
            } else if ready {
                let marked = marked_ready(before, index_of(before, m.sender));
                &&& after == marked
                &&& !moved
                &&& started == game_starts(marked, min_players)
                &&& game_starts(marked, min_players) ==> out == broadcast_spec(
                    marked,
                    ReplyView::StartGame { msg: start_text() },
                    None,
                    true,
                )
                &&& !game_starts(marked, min_players) ==> out.len() == 0
            } else {
                &&& after == before
                &&& moved
                &&& !started
                &&& out == broadcast_spec(
                    before,
                    ReplyView::PositionUpdate { player: m.sender, sequence_number },
                    None,
                    true,
                )
            }
        },
        _ => after == before && !moved && !started && out.len() == 0,
    }
}

/// Handles a `PlayerAction` from a connected player: a ready action goes to
/// [`handle_ready_state`]; any other moves the player and sends its position
/// to every player. From an unknown sender, or with another body, nothing happens.
pub fn handle_player_action(players: &mut Players, message: &GameMessage, player_count: &PlayerCount) -> (step: ServerStep)
    requires
        old(players).wf(),
    ensures
        final(players).wf(),
        player_action_done(old(players)@, final(players)@, message@, player_count.spec_min_players(), step.move_sender, step.game_started, outgoing_views(step.outgoing@)),
{
    match &message.content {
        MessageContent::PlayerAction { ready, sequence_number } => {
            match players.find(message.sender.as_str()) {
                None => ServerStep { move_sender: false, game_started: false, outgoing: Vec::new() },
                Some(i) => {
                    proof {
                        lemma_index_of(players@, i as int);
                    }
                    if *ready {
                        let out = handle_ready_state(players, i, player_count);
                        let started = players.all_ready() && players.len() == player_count.get_min_players();
                        ServerStep { move_sender: false, game_started: started, outgoing: out }
                    } else {
                        let out = broadcast_game_update(players, message.sender.as_str(), *sequence_number);
                        ServerStep { move_sender: true, game_started: false, outgoing: out }
                    }
                },
            }
        },
        _ => ServerStep { move_sender: false, game_started: false, outgoing: Vec::new() },
    }
}

/// Handles a `Disconnect` from `sender` received from `src`: removes the
/// player, sends it its own message back, and tells the others that it left
/// (every player whose name differs from `src`). From an unknown sender
/// nothing happens.
pub fn handle_disconnect(players: &mut Players, sender: &str, src: &str) -> (out: Vec<Outgoing>)
    requires
        old(players).wf(),
    ensures
        final(players).wf(),
        !has_name(old(players)@, sender@) ==> final(players)@ == old(players)@ && out@.len() == 0,
        has_name(old(players)@, sender@) ==> {
            let i = index_of(old(players)@, sender@);
            &&& final(players)@ == old(players)@.remove(i)
            &&& outgoing_views(out@) == seq![OutgoingView { address: old(players)@[i].address, reply: ReplyView::Echo }]
                + broadcast_spec(
                final(players)@,
                ReplyView::ServerInfo { server_status: left_text(sender@) },
                Some(src@),
                false,
            )
        },
{
    let mut status = String::from_str(sender);
    status.append(" has disconnected.");
    match remove_player(players, sender) {
        None => Vec::new(),
        Some(p) => {
            proof {
                let i = choose|i: int|
                    0 <= i < old(players)@.len() && old(players)@[i] == p@ && p@.name == sender@
                        && players@ == old(players)@.remove(i);
                lemma_index_of(old(players)@, i);
            }
            let mut out: Vec<Outgoing> = Vec::new();
            out.push(Outgoing { address: p.address, reply: Reply::Echo });
            let mut rest = broadcast_message(
                players,
                &Reply::ServerInfo { server_status: status },
                Some(src),
                false,
            );
            let ghost a = out@;
            let ghost b = rest@;
            out.append(&mut rest);
            assert(outgoing_views(out@) =~= outgoing_views(a) + outgoing_views(b));
            out
        },
    }
}

/// Every spawn point held by a connected player is marked taken, and no two
/// connected players hold the same point.
pub open spec fn spawns_consistent(ps: Seq<PlayerView>, occ: Seq<bool>) -> bool {
    &&& forall|i: int|
        0 <= i < ps.len() && (#[trigger] ps[i]).spawn is Some ==> ps[i].spawn->0 < occ.len()
            && occ[ps[i].spawn->0 as int]
    &&& forall|i: int, j: int|
        0 <= i < ps.len() && 0 <= j < ps.len() && i != j && (#[trigger] ps[i]).spawn is Some
            ==> ps[i].spawn != (#[trigger] ps[j]).spawn
}

/// Joining keeps the names distinct and records the name.
pub proof fn law_join_keeps_names_distinct(
    ps: Seq<PlayerView>,
    name: Seq<char>,
    address: Seq<char>,
    spawn: Option<usize>,
)
    requires
        distinct_names(ps),
    ensures
        distinct_names(joined(ps, name, address, spawn)),
        has_name(joined(ps, name, address, spawn), name),
{
    let after = joined(ps, name, address, spawn);
    if !has_name(ps, name) {
        assert(after[ps.len() as int].name == name);
    }
}

/// A newcomer is recorded last, with 3 health points, not ready, at the spawn
/// point it was given, and the players already there stay as they were; a
/// name already taken changes nothing.
pub proof fn law_newcomer_starts_fresh(
    ps: Seq<PlayerView>,
    name: Seq<char>,
    address: Seq<char>,
    spawn: Option<usize>,
)
    ensures
        !has_name(ps, name) ==> {
            &&& joined(ps, name, address, spawn).len() == ps.len() + 1
            &&& joined(ps, name, address, spawn)[ps.len() as int] == (PlayerView {
                name,
                address,
                health: 3,
                ready: false,
                spawn,
            })
            &&& forall|k: int| 0 <= k < ps.len() ==> #[trigger] joined(ps, name, address, spawn)[k] == ps[k]
        },
        has_name(ps, name) ==> joined(ps, name, address, spawn) == ps,
{
}

/// A player that joins and then leaves leaves the registry as it found it.
pub proof fn law_leave_undoes_join(
    ps: Seq<PlayerView>,
    name: Seq<char>,
    address: Seq<char>,
    spawn: Option<usize>,
)
    requires
        distinct_names(ps),
        !has_name(ps, name),
    ensures
        joined(ps, name, address, spawn).remove(
            index_of(joined(ps, name, address, spawn), name),
        ) == ps,
{
    let after = joined(ps, name, address, spawn);
    law_join_keeps_names_distinct(ps, name, address, spawn);
    lemma_index_of(after, ps.len() as int);
    assert(after.remove(ps.len() as int) =~= ps);
}

/// The game starts on the ready of player `i` exactly when every other player
/// was ready already and as many players are connected as the game expects.
pub proof fn law_game_starts_when_last_is_ready(ps: Seq<PlayerView>, i: int, min_players: usize)
    requires
        0 <= i < ps.len(),
    ensures
        game_starts(marked_ready(ps, i), min_players) <==> (forall|j: int|
            0 <= j < ps.len() && j != i ==> (#[trigger] ps[j]).ready) && ps.len() == min_players,
{
    let after = marked_ready(ps, i);
    if forall|j: int| 0 <= j < ps.len() && j != i ==> (#[trigger] ps[j]).ready {
        assert forall|j: int| 0 <= j < after.len() implies (#[trigger] after[j]).ready by {
            if j != i {
                assert(after[j] == ps[j]);
            }
        }
    }
    if all_ready(after) {
        assert forall|j: int| 0 <= j < ps.len() && j != i implies (#[trigger] ps[j]).ready by {
            assert(after[j] == ps[j]);
        }
    }
}

/// Every spawn point that can be named by its key is reached by that key:
/// the key of point `i` names point `i`, so setting a flag through the key
/// of a point, then reading that point, gives the flag back.
pub proof fn law_spawn_key_names_its_point(i: int)
    requires
        0 <= i < SPAWN_COUNT,
    ensures
        spawn_index_of(spawn_key(i)) == Some(i),
{
    lemma_spawn_index_unique(spawn_key(i), i);
}

/// The server's registry of players and of taken spawn points.
pub struct ServerState {
    pub players: Players,
    pub spawns: SpawnPoints,
    /// Whether the game has started; from then on new connections are refused.
    pub started: bool,
}

impl ServerState {
    /// Both parts hold their invariants.
    pub open spec fn wf(&self) -> bool {
        self.players.wf() && self.spawns.wf()
    }

    /// No two connected players share a spawn point, and every point that a
    /// player holds is marked taken.
    pub open spec fn spawns_consistent(&self) -> bool {
        spawns_consistent(self.players@, self.spawns@)
    }

    /// No player, every spawn point free.
    pub fn new() -> (s: ServerState)
        ensures
            s.wf(),
            s.players@ == Seq::<PlayerView>::empty(),
            forall|i: int| 0 <= i < SPAWN_COUNT ==> !(#[trigger] s.spawns@[i]),
            s.spawns_consistent(),
            !s.started,
    {
        ServerState { players: Players::new(), spawns: SpawnPoints::new(), started: false }
    }
}

/// Handles one message received from `src`, according to its kind:
/// `NewConnection` draws a spawn point and joins (see [`handle_new_connection`]),
/// unless the game has started, in which case it is refused: nothing is
/// recorded and nothing is sent;
/// `PlayerAction` goes to [`handle_player_action`], `GameUpdate` is sent on to
/// every player, `Disconnect` goes to [`handle_disconnect`]; other kinds change
/// nothing and send nothing. Once the game has started, no message makes the
/// registry grow.
pub fn handle_message(
    state: &mut ServerState,
    message: &GameMessage,
    src: &str,
    player_count: &PlayerCount,
) -> (step: ServerStep)
    requires
        old(state).wf(),
    ensures
        final(state).wf(),
        old(state).spawns_consistent() ==> final(state).spawns_consistent(),
        message.message_type != MessageType::NewConnection ==> final(state).spawns@ == old(state).spawns@,
        message.message_type != MessageType::PlayerAction ==> !step.game_started,
        final(state).started == (old(state).started || step.game_started),
        old(state).started ==> final(state).players@.len() <= old(state).players@.len(),
        match message.message_type {
            MessageType::NewConnection => if old(state).started {
                &&& final(state).players@ == old(state).players@
                &&& final(state).spawns@ == old(state).spawns@
                &&& !step.move_sender
                &&& step.outgoing@.len() == 0
            } else {
                &&& exists|spawn: Option<usize>| {
                    &&& match spawn {
                        Some(s) => s < SPAWN_COUNT && !old(state).spawns@[s as int]
                            && final(state).spawns@ == old(state).spawns@.update(s as int, true),
                        None => (forall|i: int| 0 <= i < SPAWN_COUNT ==> old(state).spawns@[i])
                            && final(state).spawns@ == old(state).spawns@,
                    }
                    &&& final(state).players@ == joined(old(state).players@, message@.sender, src@, spawn)
                }
                &&& !step.move_sender
                &&& outgoing_views(step.outgoing@) == broadcast_spec(
                    final(state).players@,
                    ReplyView::NewConnection { name: message@.sender },
                    None,
                    true,
                ) + broadcast_spec(final(state).players@, ReplyView::WaitForPlayers { msg: wait_text() }, None, true)
            },
            MessageType::GameUpdate => {
                &&& final(state).players@ == old(state).players@
                &&& !step.move_sender
                &&& outgoing_views(step.outgoing@) == broadcast_spec(old(state).players@, ReplyView::Relay, None, true)
            },
            MessageType::PlayerAction => player_action_done(
                old(state).players@,
                final(state).players@,
                message@,
                player_count.spec_min_players(),
                step.move_sender,
                step.game_started,
                outgoing_views(step.outgoing@),
            ),
            MessageType::Disconnect => {
                &&& !step.move_sender
                &&& !has_name(old(state).players@, message@.sender) ==> final(state).players@ == old(state).players@
                    && step.outgoing@.len() == 0
                &&& has_name(old(state).players@, message@.sender) ==> {
                    let i = index_of(old(state).players@, message@.sender);
                    &&& final(state).players@ == old(state).players@.remove(i)
                    &&& outgoing_views(step.outgoing@) == seq![OutgoingView { address: old(state).players@[i].address, reply: ReplyView::Echo }]
                        + broadcast_spec(
                        final(state).players@,
                        ReplyView::ServerInfo { server_status: left_text(message@.sender) },
                        Some(src@),
                        false,
                    )
                }
            },
            _ => final(state).players@ == old(state).players@ && !step.move_sender && step.outgoing@.len() == 0,
        },
{
    match message.message_type {
        MessageType::NewConnection => {
            if state.started {
                return ServerStep { move_sender: false, game_started: false, outgoing: Vec::new() };
            }
            let spawn = choose_place(&mut state.spawns);
            let out = handle_new_connection(&mut state.players, message.sender.as_str(), src, spawn);
            ServerStep { move_sender: false, game_started: false, outgoing: out }
        },
        MessageType::PlayerAction => {
            let step = handle_player_action(&mut state.players, message, player_count);
            if step.game_started {
                state.started = true;
            }
            step
        },
        MessageType::GameUpdate => {
            let out = handle_game_update(&state.players);
            ServerStep { move_sender: false, game_started: false, outgoing: out }
        },
        MessageType::Disconnect => {
            let out = handle_disconnect(&mut state.players, message.sender.as_str(), src);
            ServerStep { move_sender: false, game_started: false, outgoing: out }
        },
        _ => ServerStep { move_sender: false, game_started: false, outgoing: Vec::new() },
    }
}

} // verus!
