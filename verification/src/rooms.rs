//! The rooms of the real-time board server: which websocket sessions are
//! connected to which board, so that a canvas operation reaches every session
//! on its board.
use vstd::prelude::*;
use std::collections::{HashMap, HashSet};
use crate::ident::Oid;
use vstd::std_specs::iter::IteratorSpec;

verus! {

broadcast use vstd::std_specs::hash::group_hash_axioms;

/// The sessions connected to board `b`.
pub open spec fn members_of(rooms: Map<u128, Set<u128>>, b: u128) -> Set<u128> {
    if rooms.contains_key(b) {
        rooms[b]
    } else {
        Set::empty()
    }
}

/// No board is kept with an empty room.
pub open spec fn no_empty_rooms(rooms: Map<u128, Set<u128>>) -> bool {
    forall|b: u128| #[trigger] rooms.contains_key(b) ==> rooms[b] != Set::<u128>::empty()
}

/// The rooms after session `s` joins board `b`.
pub open spec fn after_connect(rooms: Map<u128, Set<u128>>, b: u128, s: u128) -> Map<u128, Set<u128>> {
    rooms.insert(b, members_of(rooms, b).insert(s))
}

/// The rooms after session `s` leaves board `b`; a room left empty is dropped.
pub open spec fn after_disconnect(rooms: Map<u128, Set<u128>>, b: u128, s: u128) -> Map<u128, Set<u128>> {
    if !rooms.contains_key(b) {
        rooms
    } else if rooms[b].remove(s) == Set::<u128>::empty() {
        rooms.remove(b)
    } else {
        rooms.insert(b, rooms[b].remove(s))
    }
}

/// Every stored room that has a session keeps its session in the server's
/// view.
proof fn lemma_rooms_view_nonempty(rooms: Map<u128, HashSet<u128>>)
    requires
        forall|b: u128| #[trigger] rooms.contains_key(b) ==> rooms[b]@ != Set::<u128>::empty(),
    ensures
        no_empty_rooms(rooms.map_values(|r: HashSet<u128>| r@)),
{
    let v = rooms.map_values(|r: HashSet<u128>| r@);
    assert forall|b: u128| #[trigger] v.contains_key(b) implies v[b] != Set::<u128>::empty() by {
        assert(rooms.contains_key(b));
    }
}

/// The board server's rooms: board id to the ids of the sessions connected
/// to it.
pub struct BoardServer {
    rooms: HashMap<u128, HashSet<u128>>,
}

impl View for BoardServer {
    type V = Map<u128, Set<u128>>;

    closed spec fn view(&self) -> Map<u128, Set<u128>> {
        self.rooms@.map_values(|r: HashSet<u128>| r@)
    }
}

impl BoardServer {
    #[verifier::type_invariant]
    spec fn rooms_not_empty(self) -> bool {
        forall|b: u128| #[trigger] self.rooms@.contains_key(b) ==> self.rooms@[b]@ != Set::<u128>::empty()
    }

    /// A server with no rooms.
    pub fn new() -> (s: BoardServer)
        ensures
            s@ == Map::<u128, Set<u128>>::empty(),
            no_empty_rooms(s@),
    {
        let s = BoardServer { rooms: HashMap::new() };
        assert(s@ =~= Map::<u128, Set<u128>>::empty());
        s
    }

    /// Session `session` joins the room of `board`.
    pub fn connect(&mut self, board: Oid, session: u128)
        ensures
            no_empty_rooms(old(self)@),
            final(self)@ == after_connect(old(self)@, board.value, session),
            no_empty_rooms(final(self)@),
    {
        proof {
            use_type_invariant(&*self);
        }
        let ghost before = self@;
        proof {
            lemma_rooms_view_nonempty(self.rooms@);
        }
        let mut rooms: HashMap<u128, HashSet<u128>> = HashMap::new();
        std::mem::swap(&mut rooms, &mut self.rooms);
        let mut room = match rooms.remove(&board.value) {
            Some(r) => r,
            None => HashSet::new(),
        };
        assert(room@ == members_of(before, board.value));
        room.insert(session);
        assert(room@.contains(session));
        rooms.insert(board.value, room);
        self.rooms = rooms;
        assert(self@ =~= after_connect(before, board.value, session));
        proof {
            use_type_invariant(&*self);
        }
        proof {
            lemma_rooms_view_nonempty(self.rooms@);
        }
    }

    /// Session `session` leaves the room of `board`; an emptied room is
    /// removed.
    pub fn disconnect(&mut self, board: Oid, session: u128)
        ensures
            no_empty_rooms(old(self)@),
            final(self)@ == after_disconnect(old(self)@, board.value, session),
            no_empty_rooms(final(self)@),
    {
        proof {
            use_type_invariant(&*self);
        }
        let ghost before = self@;
        proof {
            lemma_rooms_view_nonempty(self.rooms@);
        }
        let mut rooms: HashMap<u128, HashSet<u128>> = HashMap::new();
        std::mem::swap(&mut rooms, &mut self.rooms);
        match rooms.remove(&board.value) {
            None => {},
            Some(mut room) => {
                room.remove(&session);
                if room.is_empty() {
                    assert(room@ =~= Set::<u128>::empty());
                } else {
                    assert(room@ != Set::<u128>::empty());
                    rooms.insert(board.value, room);
                }
            },
        }
        self.rooms = rooms;
        assert(self@ =~= after_disconnect(before, board.value, session));
        proof {
            use_type_invariant(&*self);
        }
        proof {
            lemma_rooms_view_nonempty(self.rooms@);
        }
    }

    /// The sessions connected to `board`, each once.
    pub fn members(&self, board: Oid) -> (sessions: Vec<u128>)
        ensures
            sessions@.to_set() == members_of(self@, board.value),
            sessions@.no_duplicates(),
            no_empty_rooms(self@),
    {
        proof {
            use_type_invariant(self);
        }
        proof {
            lemma_rooms_view_nonempty(self.rooms@);
        }
        match self.rooms.get(&board.value) {
            None => {
                let v: Vec<u128> = Vec::new();
                assert(v@.to_set() =~= Set::<u128>::empty());
                v
            },
            Some(room) => {
                let mut out: Vec<u128> = Vec::new();
                let keys = room.iter();
                let ghost all = keys.remaining();
                assert(all.unref().to_set() == room@ && all.no_duplicates());
                for s in it: keys
                    invariant
                        it.seq() == all,
                        out@ == it.seq().take(it.index() as int).map_values(|r: &u128| *r),
                {
                    out.push(*s);
                    assert(it.seq().take(it.index() + 1) == it.seq().take(it.index() as int).push(
                        it.seq()[it.index() as int],
                    ));
                }
                assert(out@ =~= all.unref());
                assert(out@.to_set() =~= room@);
                out
            },
        }
    }
}

/// A session that joins a board is then among that board's sessions, and no
/// other board's room changes.
pub proof fn law_connect_joins(rooms: Map<u128, Set<u128>>, b: u128, s: u128, other: u128)
    ensures
        members_of(after_connect(rooms, b, s), b).contains(s),
        members_of(after_connect(rooms, b, s), b) == members_of(rooms, b).insert(s),
        other != b ==> members_of(after_connect(rooms, b, s), other) == members_of(rooms, other),
{
}

/// A session that leaves a board is no longer among its sessions, and no
/// other board's room changes.
pub proof fn law_disconnect_leaves(rooms: Map<u128, Set<u128>>, b: u128, s: u128, other: u128)
    ensures
        !members_of(after_disconnect(rooms, b, s), b).contains(s),
        members_of(after_disconnect(rooms, b, s), b) == members_of(rooms, b).remove(s),
        other != b ==> members_of(after_disconnect(rooms, b, s), other) == members_of(rooms, other),
{
    if rooms.contains_key(b) && rooms[b].remove(s) == Set::<u128>::empty() {
        assert(members_of(after_disconnect(rooms, b, s), b) =~= Set::<u128>::empty());
    }
    if !rooms.contains_key(b) {
        assert(Set::<u128>::empty().remove(s) =~= Set::<u128>::empty());
    }
}

/// Joining and leaving never leave an empty room behind.
pub proof fn law_rooms_stay_nonempty(rooms: Map<u128, Set<u128>>, b: u128, s: u128)
    requires
        no_empty_rooms(rooms),
    ensures
        no_empty_rooms(after_connect(rooms, b, s)),
        no_empty_rooms(after_disconnect(rooms, b, s)),
{
    let c = after_connect(rooms, b, s);
    assert forall|k: u128| #[trigger] c.contains_key(k) implies c[k] != Set::<u128>::empty() by {
        if k == b {
            assert(c[k].contains(s));
        }
    }
}

/// A session that was not in a board's room and joins then leaves it leaves
/// the rooms as they were.
pub proof fn law_connect_then_disconnect(rooms: Map<u128, Set<u128>>, b: u128, s: u128)
    requires
        no_empty_rooms(rooms),
        !members_of(rooms, b).contains(s),
    ensures
        after_disconnect(after_connect(rooms, b, s), b, s) == rooms,
{
    let c = after_connect(rooms, b, s);
    assert(c[b].remove(s) =~= members_of(rooms, b));
    if rooms.contains_key(b) {
        assert(after_disconnect(c, b, s) =~= rooms);
    } else {
        assert(after_disconnect(c, b, s) =~= rooms);
    }
}

} // verus!
