//! The bookkeeping of a server: the state of each network client, the players of each
//! world kept at stable indices, and the saved data of players who left.

use vstd::prelude::*;
use std::collections::HashMap;

verus! {

broadcast use vstd::std_specs::hash::group_hash_axioms;

/// The only protocol version that clients may log in with.
pub const PROTOCOL_VERSION: i32 = 14;

/// The state of a network client.
#[derive(Clone, Copy, Debug, PartialEq, Eq, Structural)]
pub enum ClientState {
    /// Connected, not yet playing.
    Handshaking,
    /// Playing in a world, as one of its players.
    Playing { world_index: usize, player_index: usize },
}

/// Why a login is refused, if it is: a client must speak the one protocol version.
pub fn login_refusal(protocol_version: i32) -> (r: Option<String>)
    ensures
        r is None <==> protocol_version == PROTOCOL_VERSION,
        r matches Some(reason) ==> reason@ == "Protocol version mismatch!"@,
{
    if protocol_version != PROTOCOL_VERSION {
        Some("Protocol version mismatch!".to_owned())
    } else {
        None
    }
}

/// The dimension code that the login reply carries: 0 for the overworld, -1 for the
/// nether.
pub fn dimension_code(dimension: crate::world::Dimension) -> (r: i8)
    ensures
        r == (if dimension == crate::world::Dimension::Overworld { 0i8 } else { -1i8 }),
{
    match dimension {
        crate::world::Dimension::Overworld => 0,
        crate::world::Dimension::Nether => -1,
    }
}

/// Whether a login must be told that it rains: where the weather is not clear.
pub fn needs_rain_notification(weather: crate::world::Weather) -> (r: bool)
    ensures
        r == (weather != crate::world::Weather::Clear),
{
    match weather {
        crate::world::Weather::Clear => false,
        _ => true,
    }
}

/// The index of the first world with the given name.
pub fn find_world(names: &Vec<String>, name: &String) -> (r: Option<usize>)
    ensures
        r matches Some(i) ==> i < names@.len() && names@[i as int]@ == name@ && forall|j: int| 0 <= j < i ==> (#[trigger] names@[j])@ != name@,
        r is None ==> forall|j: int| 0 <= j < names@.len() ==> (#[trigger] names@[j])@ != name@,
{
    let mut i: usize = 0;
    while i < names.len()
        invariant
            i <= names@.len(),
            forall|j: int| 0 <= j < i ==> (#[trigger] names@[j])@ != name@,
        decreases names@.len() - i,
    {
        if names[i] == *name {
            return Some(i);
        }
        i = i + 1;
    }
    None
}

/// A player who left a world, and the player moved into its slot, if any.
#[derive(Clone, Copy, Debug, PartialEq, Eq, Structural)]
pub struct Departure {
    pub world_index: usize,
    pub player_index: usize,
    /// The client of the last player of the world, moved into the freed slot.
    pub swapped: Option<u64>,
}

/// The clients of a server, by id, and the players of each world, by client id.
pub struct Sessions {
    clients: HashMap<u64, ClientState>,
    players: Vec<Vec<u64>>,
}

impl Sessions {
    /// The state of each known client.
    pub closed spec fn clients(&self) -> Map<u64, ClientState> {
        self.clients@
    }

    /// The players of each world, by client id, in slot order.
    pub closed spec fn players(&self) -> Seq<Seq<u64>> {
        Seq::new(self.players@.len(), |w: int| self.players@[w]@)
    }

    /// A playing client's state names its slot, and each slot's client names it back.
    pub open spec fn wf(&self) -> bool {
        &&& forall|c: u64| #[trigger] self.clients().contains_key(c) ==> (self.clients()[c] matches ClientState::Playing { world_index: w, player_index: p } ==> w < self.players().len() && p < self.players()[w as int].len() && self.players()[w as int][p as int] == c)
        &&& forall|w: int, p: int| 0 <= w < self.players().len() && 0 <= p < self.players()[w].len()
            ==> self.clients().contains_key(#[trigger] self.players()[w][p]) && self.clients()[self.players()[w][p]] == (ClientState::Playing { world_index: w as usize, player_index: p as usize })
    }

    /// No client and no world.
    pub fn new() -> (r: Sessions)
        ensures
            r.wf(),
            r.clients().is_empty(),
            r.players().len() == 0,
    {
        let r = Sessions { clients: HashMap::new(), players: Vec::new() };
        assert(r.players() =~= Seq::<Seq<u64>>::empty());
        r
    }

    /// Add a world with no player; its index is the number of worlds before it.
    pub fn register_world(&mut self) -> (r: usize)
        requires
            old(self).wf(),
        ensures
            final(self).wf(),
            r == old(self).players().len(),
            final(self).players() == old(self).players().push(Seq::empty()),
            final(self).clients() == old(self).clients(),
    {
        let r = self.players.len();
        self.players.push(Vec::new());
        assert(self.players() =~= old(self).players().push(Seq::empty()));
        r
    }

    /// The state of a client, if it is known.
    pub fn state(&self, client: u64) -> (r: Option<ClientState>)
        ensures
            r == (if self.clients().contains_key(client) { Some(self.clients()[client]) } else { None }),
    {
        match self.clients.get(&client) {
            Some(s) => Some(*s),
            None => None,
        }
    }

    /// A client was accepted: it starts handshaking. A known client keeps its state.
    pub fn accept(&mut self, client: u64) -> (r: bool)
        requires
            old(self).wf(),
        ensures
            final(self).wf(),
            r == !old(self).clients().contains_key(client),
            final(self).clients() == (if r { old(self).clients().insert(client, ClientState::Handshaking) } else { old(self).clients() }),
            final(self).players() == old(self).players(),
    {
        if self.clients.contains_key(&client) {
            return false;
        }
        self.clients.insert(client, ClientState::Handshaking);
        true
    }

    /// A handshaking client joins a world as its last player; its slot is returned.
    pub fn join(&mut self, client: u64, world_index: usize) -> (r: usize)
        requires
            old(self).wf(),
            old(self).clients().contains_key(client),
            old(self).clients()[client] == ClientState::Handshaking,
            world_index < old(self).players().len(),
        ensures
            final(self).wf(),
            r == old(self).players()[world_index as int].len(),
            final(self).clients() == old(self).clients().insert(client, ClientState::Playing { world_index, player_index: r }),
            final(self).players() == old(self).players().update(world_index as int, old(self).players()[world_index as int].push(client)),
    {
        let r = self.players[world_index].len();
        self.players[world_index].push(client);
        self.clients.insert(client, ClientState::Playing { world_index, player_index: r });
        proof {
            assert(self.players() =~= old(self).players().update(world_index as int, old(self).players()[world_index as int].push(client)));
            assert forall|w: int, p: int| 0 <= w < self.players().len() && 0 <= p < self.players()[w].len()
                implies self.clients().contains_key(#[trigger] self.players()[w][p]) && self.clients()[self.players()[w][p]] == (ClientState::Playing { world_index: w as usize, player_index: p as usize }) by {
                if !(w == world_index && p == r) {
                    assert(old(self).players()[w][p] == self.players()[w][p]);
                    assert(old(self).clients()[old(self).players()[w][p]] == (ClientState::Playing { world_index: w as usize, player_index: p as usize }));
                }
            }
            assert forall|c: u64| #[trigger] self.clients().contains_key(c) implies (self.clients()[c] matches ClientState::Playing { world_index: w, player_index: p } ==> w < self.players().len() && p < self.players()[w as int].len() && self.players()[w as int][p as int] == c) by {
                if c != client {
                    assert(old(self).clients().contains_key(c));
                }
            }
        }
        r
    }

    /// A client was lost: it is forgotten, and where it was playing its slot is taken by
    /// the last player of its world, whose state follows.
    pub fn lose(&mut self, client: u64) -> (r: Option<Departure>)
        requires
            old(self).wf(),
        ensures
            final(self).wf(),
            !final(self).clients().contains_key(client),
            r is Some <==> (old(self).clients().contains_key(client) && old(self).clients()[client] is Playing),
            r is None ==> final(self).players() == old(self).players(),
            r is None ==> final(self).clients() == old(self).clients().remove(client),
            r matches Some(d) ==> final(self).clients() == (match d.swapped {
                Some(moved) => old(self).clients().remove(client).insert(moved, ClientState::Playing { world_index: d.world_index, player_index: d.player_index }),
                None => old(self).clients().remove(client),
            }),
            r matches Some(d) ==> ({
                let before = old(self).players()[d.world_index as int];
                let last = before.len() - 1;
                &&& old(self).clients()[client] == (ClientState::Playing { world_index: d.world_index, player_index: d.player_index })
                &&& final(self).players() == old(self).players().update(d.world_index as int,
                    before.update(d.player_index as int, before[last]).take(last))
                &&& d.swapped == (if d.player_index < last { Some(before[last]) } else { None })
            }),
    {
        let state = match self.clients.remove(&client) {
            Some(s) => s,
            None => {
                assert(self.clients@ =~= old(self).clients@.remove(client));
                return None;
            },
        };
        match state {
            ClientState::Handshaking => {
                proof {
                    assert forall|c: u64| #[trigger] self.clients().contains_key(c) implies (self.clients()[c] matches ClientState::Playing { world_index: w, player_index: p } ==> w < self.players().len() && p < self.players()[w as int].len() && self.players()[w as int][p as int] == c) by {
                        assert(old(self).clients().contains_key(c));
                    }
                    assert forall|w: int, p: int| 0 <= w < self.players().len() && 0 <= p < self.players()[w].len()
                        implies self.clients().contains_key(#[trigger] self.players()[w][p]) && self.clients()[self.players()[w][p]] == (ClientState::Playing { world_index: w as usize, player_index: p as usize }) by {
                        assert(old(self).clients().contains_key(old(self).players()[w][p]));
                    }
                }
                None
            },
            ClientState::Playing { world_index, player_index } => {
                let ghost before = old(self).players()[world_index as int];
                let world_count = self.players.len();
                let slot_count = self.players[world_index].len();
                assert(old(self).clients().contains_key(client));
                assert(old(self).clients()[client] == (ClientState::Playing { world_index, player_index }));
                self.players[world_index].swap_remove(player_index);
                let mut swapped: Option<u64> = None;
                if player_index < self.players[world_index].len() {
                    let moved = self.players[world_index][player_index];
                    self.clients.insert(moved, ClientState::Playing { world_index, player_index });
                    swapped = Some(moved);
                }
                proof {
                    let last = before.len() - 1;
                    assert(self.players() =~= old(self).players().update(world_index as int,
                        before.update(player_index as int, before[last]).take(last)));
                    assert forall|w: int, p: int| 0 <= w < self.players().len() && 0 <= p < self.players()[w].len()
                        implies self.clients().contains_key(#[trigger] self.players()[w][p]) && self.clients()[self.players()[w][p]] == (ClientState::Playing { world_index: w as usize, player_index: p as usize }) by {
                        if w == world_index && p == player_index {
                            assert(self.players()[w][p] == before[last]);
                            assert(swapped == Some(before[last]));
                        } else {
                            assert(self.players()[w][p] == old(self).players()[w][p]);
                            assert(old(self).clients().contains_key(old(self).players()[w][p]));
                            assert(old(self).clients()[old(self).players()[w][p]] == (ClientState::Playing { world_index: w as usize, player_index: p as usize }));
                            if old(self).players()[w][p] == client {
                                assert(w < world_count);
                                assert(w != world_index ==> w as usize != world_index);
                                assert(w == world_index ==> p < slot_count);
                                assert(w as usize == world_index && p as usize == player_index);
                                assert(false);
                            }
                            if w == world_index && swapped is Some {
                                assert(p != last);
                                assert(old(self).players()[w][p] != before[last]);
                            }
                        }
                    }
                    assert forall|c: u64| #[trigger] self.clients().contains_key(c) implies (self.clients()[c] matches ClientState::Playing { world_index: w, player_index: p } ==> w < self.players().len() && p < self.players()[w as int].len() && self.players()[w as int][p as int] == c) by {
                        if Some(c) != swapped {
                            assert(old(self).clients().contains_key(c));
                            match old(self).clients()[c] {
                                ClientState::Playing { world_index: w, player_index: p } => {
                                    if w == world_index && p as int == last {
                                        assert(old(self).players()[w as int][last] == c);
                                        assert(player_index as int == last || swapped == Some(c));
                                    }
                                },
                                _ => {},
                            }
                        }
                    }
                }
                Some(Departure { world_index, player_index, swapped })
            },
        }
    }
}

/// Saved records of players, by unique username.
pub struct OfflineStore<T> {
    names: Vec<String>,
    records: Vec<T>,
}

impl<T> OfflineStore<T> {
    /// The usernames, in order of first save.
    pub closed spec fn names(&self) -> Seq<Seq<char>> {
        Seq::new(self.names@.len(), |i: int| self.names@[i]@)
    }

    /// The records, one for each username.
    pub closed spec fn records(&self) -> Seq<T> {
        self.records@
    }

    /// One record for each username, and no username twice.
    pub open spec fn wf(&self) -> bool {
        &&& self.names().len() == self.records().len()
        &&& forall|i: int, j: int| 0 <= i < j < self.names().len() ==> #[trigger] self.names()[i] != #[trigger] self.names()[j]
    }

    /// An empty store.
    pub fn new() -> (r: OfflineStore<T>)
        ensures
            r.wf(),
            r.names().len() == 0,
    {
        let r = OfflineStore { names: Vec::new(), records: Vec::new() };
        assert(r.names() =~= Seq::<Seq<char>>::empty());
        r
    }

    /// The slot of a username, if it has a record.
    pub fn find(&self, username: &String) -> (r: Option<usize>)
        requires
            self.wf(),
        ensures
            r matches Some(i) ==> i < self.names().len() && self.names()[i as int] == username@,
            r is None ==> forall|j: int| 0 <= j < self.names().len() ==> #[trigger] self.names()[j] != username@,
    {
        let mut i: usize = 0;
        while i < self.names.len()
            invariant
                i <= self.names@.len(),
                self.names().len() == self.names@.len(),
                forall|j: int| 0 <= j < i ==> #[trigger] self.names()[j] != username@,
            decreases self.names@.len() - i,
        {
            if self.names[i] == *username {
                return Some(i);
            }
            i = i + 1;
        }
        None
    }

    /// The record in a slot.
    pub fn get(&self, index: usize) -> (r: &T)
        requires
            self.wf(),
            index < self.names().len(),
        ensures
            *r == self.records()[index as int],
    {
        &self.records[index]
    }

    /// Save the record of a username, replacing its earlier record.
    pub fn save(&mut self, username: String, record: T) -> (r: usize)
        requires
            old(self).wf(),
        ensures
            final(self).wf(),
            r < final(self).names().len(),
            final(self).names()[r as int] == username@,
            final(self).records()[r as int] == record,
            forall|j: int| 0 <= j < old(self).names().len() && j != r ==> #[trigger] final(self).records()[j] == old(self).records()[j],
            final(self).names().len() >= old(self).names().len(),
            forall|j: int| 0 <= j < old(self).names().len() ==> #[trigger] final(self).names()[j] == old(self).names()[j],
    {
        match self.find(&username) {
            Some(i) => {
                self.records.set(i, record);
                assert(self.names() =~= old(self).names());
                i
            },
            None => {
                let i = self.names.len();
                self.names.push(username);
                self.records.push(record);
                assert(self.names() =~= old(self).names().push(username@));
                i
            },
        }
    }

    /// The slot of a username's record, with `default` saved first where it has none.
    pub fn entry(&mut self, username: String, default: T) -> (r: usize)
        requires
            old(self).wf(),
        ensures
            final(self).wf(),
            r < final(self).names().len(),
            final(self).names()[r as int] == username@,
            (exists|j: int| 0 <= j < old(self).names().len() && old(self).names()[j] == username@)
                ==> final(self).names() == old(self).names() && final(self).records() == old(self).records(),
            (forall|j: int| 0 <= j < old(self).names().len() ==> old(self).names()[j] != username@)
                ==> final(self).records()[r as int] == default,
    {
        match self.find(&username) {
            Some(i) => i,
            None => {
                let i = self.names.len();
                self.names.push(username);
                self.records.push(default);
                assert(self.names() =~= old(self).names().push(username@));
                i
            },
        }
    }
}

/// A username saved and then looked up finds the saved record: a second login with
/// the same name gets what the first one left.
pub proof fn lemma_saved_record_found<T>(store: OfflineStore<T>, name: Seq<char>, saved: int, found: int)
    requires
        store.wf(),
        0 <= saved < store.names().len(),
        0 <= found < store.names().len(),
        store.names()[saved] == name,
        store.names()[found] == name,
    ensures
        found == saved,
        store.records()[found] == store.records()[saved],
{
    if found < saved {
        assert(store.names()[found] != store.names()[saved]);
    } else if saved < found {
        assert(store.names()[saved] != store.names()[found]);
    }
}

} // verus!
