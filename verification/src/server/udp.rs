use vstd::prelude::*;
use crate::client::player::{distinct_names, has_name, Player, PlayerView, Players};
use crate::common::constant::{PlayerCount, DEFAULT_MIN_PLAYERS};
use crate::utils::decimal::{decimal_text, law_parse_reads_decimal_text, parse_unsigned, parse_unsigned_u64};
use crate::utils::utils::{is_trim_of, trim_text};

verus! {

/// What the server sends to one player. Each reply becomes a message whose
/// sender is `"server"` unless said otherwise.
#[derive(Debug, PartialEq, Eq)]
pub enum Reply {
    /// `NewConnection` announcing that `name` joined.
    NewConnection { name: String },
    /// `WaitForPlayers` with text `msg` and the registry as it stands after the step.
    WaitForPlayers { msg: String },
    /// `StartGame` with text `msg` and the registry as it stands after the step.
    StartGame { msg: String },
    /// `GameUpdate` in the name of `player`, carrying that player's position
    /// and the given sequence number.
    PositionUpdate { player: String, sequence_number: u32 },
    /// The received message sent on as a `GameUpdate`, with its sender and body unchanged.
    Relay,
    /// The received message sent back unchanged.
    Echo,
    /// `ServerInfo` carrying `server_status`.
    ServerInfo { server_status: String },
}

/// Mathematical model of a reply.
pub enum ReplyView {
    NewConnection { name: Seq<char> },
    WaitForPlayers { msg: Seq<char> },
    StartGame { msg: Seq<char> },
    PositionUpdate { player: Seq<char>, sequence_number: u32 },
    Relay,
    Echo,
    ServerInfo { server_status: Seq<char> },
}

impl View for Reply {
    type V = ReplyView;

    open spec fn view(&self) -> ReplyView {
        match self {
            Reply::NewConnection { name } => ReplyView::NewConnection { name: name@ },
            Reply::WaitForPlayers { msg } => ReplyView::WaitForPlayers { msg: msg@ },
            Reply::StartGame { msg } => ReplyView::StartGame { msg: msg@ },
            Reply::PositionUpdate { player, sequence_number } => ReplyView::PositionUpdate {
                player: player@,
                sequence_number: *sequence_number,
            },
            Reply::Relay => ReplyView::Relay,
            Reply::Echo => ReplyView::Echo,
            Reply::ServerInfo { server_status } => ReplyView::ServerInfo {
                server_status: server_status@,
            },
        }
    }
}

impl Reply {
    /// A copy of this reply.
    pub fn copy(&self) -> (r: Reply)
        ensures
            r@ == self@,
    {
        match self {
            Reply::NewConnection { name } => Reply::NewConnection { name: name.clone() },
            Reply::WaitForPlayers { msg } => Reply::WaitForPlayers { msg: msg.clone() },
            Reply::StartGame { msg } => Reply::StartGame { msg: msg.clone() },
            Reply::PositionUpdate { player, sequence_number } => Reply::PositionUpdate {
                player: player.clone(),
                sequence_number: *sequence_number,
            },
            Reply::Relay => Reply::Relay,
            Reply::Echo => Reply::Echo,
            Reply::ServerInfo { server_status } => Reply::ServerInfo {
                server_status: server_status.clone(),
            },
        }
    }
}

/// A reply and the socket address it goes to.
#[derive(Debug, PartialEq, Eq)]
pub struct Outgoing {
    pub address: String,
    pub reply: Reply,
}

/// Mathematical model of an outgoing reply.
pub struct OutgoingView {
    pub address: Seq<char>,
    pub reply: ReplyView,
}

impl View for Outgoing {
    type V = OutgoingView;

    open spec fn view(&self) -> OutgoingView {
        OutgoingView { address: self.address@, reply: self.reply@ }
    }
}

/// The models of a list of outgoing replies.
pub open spec fn outgoing_views(v: Seq<Outgoing>) -> Seq<OutgoingView> {
    v.map_values(|o: Outgoing| o@)
}

/// Whether a broadcast reaches `p`: always when `everyone` holds, otherwise
/// unless `p` carries the excluded name.
pub open spec fn reaches(p: PlayerView, exclude: Option<Seq<char>>, everyone: bool) -> bool {
    everyone || match exclude {
        None => true,
        Some(n) => n != p.name,
    }
}

/// The replies of a broadcast of `reply` over `ps`, in registry order.
pub open spec fn broadcast_spec(
    ps: Seq<PlayerView>,
    reply: ReplyView,
    exclude: Option<Seq<char>>,
    everyone: bool,
) -> Seq<OutgoingView>
    decreases ps.len(),
{
    if ps.len() == 0 {
        seq![]
    } else {
        let rest = broadcast_spec(ps.drop_last(), reply, exclude, everyone);
        if reaches(ps.last(), exclude, everyone) {
            rest.push(OutgoingView { address: ps.last().address, reply })
        } else {
            rest
        }
    }
}

/// The view of an optional excluded name.
pub open spec fn opt_str_view(o: Option<&str>) -> Option<Seq<char>> {
    match o {
        Some(s) => Some(s@),
        None => None,
    }
}

/// Sends `message` to every connected player, or, when `is_broadcast` is
/// false, to every player whose name differs from `exclude_name`.
pub fn broadcast_message(
    players: &Players,
    message: &Reply,
    exclude_name: Option<&str>,
    is_broadcast: bool,
) -> (out: Vec<Outgoing>)
    ensures
        outgoing_views(out@) == broadcast_spec(
            players@,
            message@,
            opt_str_view(exclude_name),
            is_broadcast,
        ),
{
    let key: Option<String> = match exclude_name {
        Some(n) => Some(n.to_owned()),
        None => None,
    };
    let mut out: Vec<Outgoing> = Vec::new();
    let mut i: usize = 0;
    let n = players.len();
    while i < n
        invariant
            n == players@.len(),
            i <= n,
            match key {
                Some(k) => exclude_name is Some && k@ == exclude_name->0@,
                None => exclude_name is None,
            },
            outgoing_views(out@) == broadcast_spec(
                players@.take(i as int),
                message@,
                opt_str_view(exclude_name),
                is_broadcast,
            ),
        decreases n - i,
    {
        let p: &Player = players.get(i);
        let goes = is_broadcast || match &key {
            None => true,
            Some(k) => !(*k == p.name),
        };
        proof {
            assert(players@.take(i + 1).drop_last() =~= players@.take(i as int));
            assert(players@.take(i + 1).last() == players@[i as int]);
        }
        if goes {
            let o = Outgoing { address: p.address.clone(), reply: message.copy() };
            let ghost before = out@;
            let ghost ov = o@;
            out.push(o);
            proof {
                assert(outgoing_views(out@) =~= outgoing_views(before).push(ov));
            }
        }
        i += 1;
    }
    assert(players@.take(n as int) =~= players@);
    out
}

/// A broadcast to everyone sends the reply once to every connected player,
/// in registry order.
pub proof fn law_broadcast_reaches_every_player(
    ps: Seq<PlayerView>,
    reply: ReplyView,
    exclude: Option<Seq<char>>,
)
    ensures
        broadcast_spec(ps, reply, exclude, true) == ps.map_values(
            |p: PlayerView| OutgoingView { address: p.address, reply },
        ),
    decreases ps.len(),
{
    if ps.len() > 0 {
        law_broadcast_reaches_every_player(ps.drop_last(), reply, exclude);
        assert(ps.map_values(|p: PlayerView| OutgoingView { address: p.address, reply })
            =~= ps.drop_last().map_values(|p: PlayerView| OutgoingView { address: p.address, reply })
            .push(OutgoingView { address: ps.last().address, reply }));
    } else {
        assert(ps.map_values(|p: PlayerView| OutgoingView { address: p.address, reply }) =~= seq![]);
    }
}

/// A broadcast that excludes a name skips exactly the player of that name,
/// if one is connected, and reaches every other player.
pub proof fn law_exclusion_skips_one_player(ps: Seq<PlayerView>, reply: ReplyView, name: Seq<char>)
    requires
        distinct_names(ps),
    ensures
        broadcast_spec(ps, reply, Some(name), false).len() + (if has_name(ps, name) {
            1int
        } else {
            0int
        }) == ps.len(),
    decreases ps.len(),
{
    if ps.len() > 0 {
        let prev = ps.drop_last();
        assert(distinct_names(prev)) by {
            assert forall|i: int, j: int|
                0 <= i < prev.len() && 0 <= j < prev.len() && i != j implies (#[trigger] prev[i]).name
                != (#[trigger] prev[j]).name by {
                assert(prev[i] == ps[i] && prev[j] == ps[j]);
            }
        }
        law_exclusion_skips_one_player(prev, reply, name);
        if ps.last().name == name {
            assert(has_name(ps, name));
            assert(!has_name(prev, name)) by {
                if has_name(prev, name) {
                    let k = choose|k: int| 0 <= k < prev.len() && (#[trigger] prev[k]).name == name;
                    assert(ps[k].name == ps[ps.len() - 1].name);
                }
            }
        } else {
            if has_name(ps, name) {
                let k = choose|k: int| 0 <= k < ps.len() && (#[trigger] ps[k]).name == name;
                assert(prev[k].name == name);
            }
            if has_name(prev, name) {
                let k = choose|k: int| 0 <= k < prev.len() && (#[trigger] prev[k]).name == name;
                assert(ps[k].name == name);
            }
        }
    }
}

/// The side this process plays.
#[derive(PartialEq, Eq, Structural, Clone, Copy, Debug)]
pub enum SocketRole {
    Server,
    Client,
    /// The choice named neither side; nothing is started.
    Invalid,
}

/// Decides which side to run from the menu choice: 1 runs the server, 2 the
/// client, anything else (or no readable choice) nothing.
pub fn run_socket(choice: Option<u32>) -> (role: SocketRole)
    ensures
        role == match choice {
            Some(1) => SocketRole::Server,
            Some(2) => SocketRole::Client,
            _ => SocketRole::Invalid,
        },
{
    match choice {
        Some(1) => SocketRole::Server,
        Some(2) => SocketRole::Client,
        _ => SocketRole::Invalid,
    }
}

/// The number of players that a trimmed answer asks for: the number it
/// writes when that is at least [`DEFAULT_MIN_PLAYERS`], otherwise the default.
pub open spec fn min_players_for(answer: Seq<char>) -> usize {
    match parse_unsigned(answer, usize::MAX as nat) {
        Some(n) => if n >= DEFAULT_MIN_PLAYERS {
            n as usize
        } else {
            DEFAULT_MIN_PLAYERS
        },
        None => DEFAULT_MIN_PLAYERS,
    }
}

/// The count follows the answer: an answer that writes a number `n` of at
/// least 2 (and that fits in a `usize`) asks for exactly `n` players; a
/// smaller number asks for 2; and no answer ever asks for fewer than 2.
pub proof fn law_min_players_reads_the_number(n: nat, t: Seq<char>)
    ensures
        2 <= n <= usize::MAX ==> min_players_for(decimal_text(n)) == n,
        n < 2 ==> min_players_for(decimal_text(n)) == 2,
        min_players_for(t) >= 2,
{
    if n <= usize::MAX {
        law_parse_reads_decimal_text(n, usize::MAX as nat);
    } else {
        law_parse_reads_decimal_text(n, n);
    }
}

/// Reads the number of players the server waits for from the line the user
/// typed, white space around it ignored; an unreadable answer or one below
/// [`DEFAULT_MIN_PLAYERS`] gives the default.
pub fn get_min_players_from_user(input: &str) -> (count: PlayerCount)
    ensures
        exists|t: Seq<char>|
            is_trim_of(t, input@) && count.spec_min_players() == min_players_for(t),
{
    let t = trim_text(input);
    let n = match parse_unsigned_u64(t.as_str(), usize::MAX as u64) {
        Some(v) => if v >= DEFAULT_MIN_PLAYERS as u64 {
            v as usize
        } else {
            DEFAULT_MIN_PLAYERS
        },
        None => DEFAULT_MIN_PLAYERS,
    };
    let count = PlayerCount::new(n);
    assert(is_trim_of(t@, input@) && count.spec_min_players() == min_players_for(t@));
    count
}

} // verus!
