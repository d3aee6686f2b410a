//! The player directory: who is connected, by UUID and by peer address.

use vstd::prelude::*;

use crate::text_map::TextMap;

verus! {

/// The players that are connected: the record of each player under the text
/// of its UUID, and the UUID text of the player of each connection under
/// the text of its peer address.
pub struct PlayerDirectory<P> {
    players: TextMap<P>,
    connections: TextMap<String>,
}

impl<P> PlayerDirectory<P> {
    /// The players, by UUID.
    pub closed spec fn players(&self) -> Map<Seq<char>, P> {
        self.players@
    }

    /// The UUIDs of the players of the connections, by peer address.
    pub closed spec fn connections(&self) -> Map<Seq<char>, Seq<char>> {
        self.connections@.map_values(|uuid: String| uuid@)
    }

    /// The records of the players, in the order in which their UUIDs were
    /// first entered.
    pub closed spec fn roster(&self) -> Seq<P> {
        self.players.values()
    }

    /// A directory without players.
    pub fn new() -> (d: Self)
        ensures
            d.players() == Map::<Seq<char>, P>::empty(),
            d.connections() == Map::<Seq<char>, Seq<char>>::empty(),
    {
        let d = PlayerDirectory { players: TextMap::new(), connections: TextMap::new() };
        assert(d.connections() =~= Map::<Seq<char>, Seq<char>>::empty());
        d
    }

    /// Enters a player under its UUID and notes the UUID under the peer
    /// address. A player with the same UUID and a note under the same
    /// address are replaced, so an address never has two entries.
    pub fn add_player(&mut self, uuid: &str, player: P, connection_addr: &str)
        ensures
            final(self).players() == old(self).players().insert(uuid@, player),
            final(self).connections() == old(self).connections().insert(
                connection_addr@,
                uuid@,
            ),
    {
        self.players.insert(uuid, player);
        self.connections.insert(connection_addr, uuid.to_string());
        assert(self.connections() =~= old(self).connections().insert(connection_addr@, uuid@));
    }

    /// Removes the note under a peer address and the player whose UUID it
    /// holds, and returns that player. Without a note nothing changes.
    pub fn remove_player(&mut self, connection_addr: &str) -> (r: Option<P>)
        ensures
            final(self).connections() == old(self).connections().remove(connection_addr@),
            !old(self).connections().contains_key(connection_addr@) ==> r is None && final(self).players() == old(self).players(),
            old(self).connections().contains_key(connection_addr@) ==> {
                let uuid = old(self).connections()[connection_addr@];
                &&& final(self).players() == old(self).players().remove(uuid)
                &&& match r {
                    Some(player) => old(self).players().contains_key(uuid) && player == old(self).players()[uuid],
                    None => !old(self).players().contains_key(uuid),
                }
            },
    {
        let removed = self.connections.remove(connection_addr);
        assert(self.connections() =~= old(self).connections().remove(connection_addr@));
        match removed {
            Some(uuid) => self.players.remove(uuid.as_str()),
            None => None,
        }
    }

    /// The player with the given UUID.
    pub fn get_player(&self, uuid: &str) -> (r: Option<&P>)
        ensures
            match r {
                Some(player) => self.players().contains_key(uuid@) && *player == self.players()[uuid@],
                None => !self.players().contains_key(uuid@),
            },
    {
        self.players.get(uuid)
    }

    /// The player of the connection with the given peer address.
    pub fn get_player_by_addr(&self, addr: &str) -> (r: Option<&P>)
        ensures
            match r {
                Some(player) => self.connections().contains_key(addr@) && self.players().contains_key(
                    self.connections()[addr@],
                ) && *player == self.players()[self.connections()[addr@]],
                None => !self.connections().contains_key(addr@) || !self.players().contains_key(
                    self.connections()[addr@],
                ),
            },
    {
        match self.connections.get(addr) {
            Some(uuid) => self.players.get(uuid.as_str()),
            None => None,
        }
    }

    /// Replaces the record of a player, or enters it if there is none.
    pub fn update_player(&mut self, uuid: &str, player: P)
        ensures
            final(self).players() == old(self).players().insert(uuid@, player),
            final(self).connections() == old(self).connections(),
    {
        self.players.insert(uuid, player);
    }

    /// The number of players.
    pub fn player_count(&self) -> (n: usize)
        ensures
            n == self.players().dom().len(),
            self.players().dom().finite(),
    {
        self.players.len()
    }

    /// The records of all players, in the order in which their UUIDs were
    /// first entered.
    pub fn get_all_players(&self) -> (all: Vec<&P>)
        ensures
            all@.len() == self.players().dom().len(),
            all@.len() == self.roster().len(),
            forall|i: int| 0 <= i < all@.len() ==> *#[trigger] all@[i] == self.roster()[i],
    {
        let count = self.players.len();
        let mut all: Vec<&P> = Vec::new();
        let mut i: usize = 0;
        while i < count
            invariant
                i <= count,
                count == self.players.values().len(),
                all@.len() == i,
                forall|j: int| 0 <= j < i ==> *#[trigger] all@[j] == self.players.values()[j],
            decreases count - i,
        {
            if let Some(player) = self.players.value_at(i) {
                all.push(player);
            }
            i = i + 1;
        }
        all
    }
}

/// A peer address has at most one entry: entering a second player under it
/// leaves one note, that of the second player.
pub proof fn lemma_one_entry_per_address(
    connections: Map<Seq<char>, Seq<char>>,
    addr: Seq<char>,
    first: Seq<char>,
    second: Seq<char>,
)
    ensures
        connections.insert(addr, first).insert(addr, second) == connections.insert(addr, second),
        connections.insert(addr, second)[addr] == second,
        connections.insert(addr, second).remove(addr) == connections.remove(addr),
{
    assert(connections.insert(addr, first).insert(addr, second) =~= connections.insert(
        addr,
        second,
    ));
    assert(connections.insert(addr, second).remove(addr) =~= connections.remove(addr));
}

} // verus!
