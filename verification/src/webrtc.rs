//! WebRTC rooms: which room ids are hosted, how many members each room
//! has and how many it takes, and to which member each offer of a joining
//! member goes. The offers, answers and ICE candidates themselves travel
//! over channels outside this module.
use vstd::prelude::*;

verus! {

/// An SDP offer, as text.
pub struct SDPOffer(pub String);

/// An SDP answer, as text.
pub struct SDPAnswer(pub String);

/// An ICE candidate, as text.
pub struct ICECandidate(pub String);

impl SDPOffer {
    pub fn from(s: String) -> (r: SDPOffer)
        ensures
            r.0@ == s@,
    {
        SDPOffer(s)
    }
}

impl SDPAnswer {
    pub fn from(s: String) -> (r: SDPAnswer)
        ensures
            r.0@ == s@,
    {
        SDPAnswer(s)
    }
}

impl ICECandidate {
    pub fn from(s: String) -> (r: ICECandidate)
        ensures
            r.0@ == s@,
    {
        ICECandidate(s)
    }
}

/// A room id that can be drawn at random.
pub trait RandomID: Sized {
    fn generate() -> Self;
}

/// A room id: two ids name the same room when their views are equal.
pub trait SessionKey: View + Sized {
    fn same_key(&self, other: &Self) -> (r: bool)
        ensures
            r == (self@ == other@),
    ;

    fn duplicate(&self) -> (r: Self)
        ensures
            r@ == self@,
    ;
}

/// Why a room cannot be joined.
#[derive(Clone, Copy, Debug, PartialEq, Eq)]
pub enum JoinSessionError {
    NotFound,
    Full,
}

/// The room id is already hosted.
#[derive(Clone, Copy, Debug, PartialEq, Eq)]
pub struct ExistingSessionError;

/// Why a joining member's offers were not taken.
#[derive(Clone, Copy, Debug, PartialEq, Eq)]
pub enum SendOffersError {
    /// The room cannot be joined.
    Join(JoinSessionError),
    /// There must be one offer per member already in the room.
    WrongOfferCount,
}

/// Where one offer of a joining member goes: to the member at `peer`
/// (the host is 0, the others follow in the order they joined), which
/// answers under `answer_index`.
pub struct OfferRoute {
    pub peer: usize,
    pub answer_index: usize,
    pub offer: SDPOffer,
}

/// The `i`-th offer goes to member `i` and is answered under index `i`.
pub open spec fn routes_offers(routes: Seq<OfferRoute>, offers: Seq<SDPOffer>) -> bool {
    &&& routes.len() == offers.len()
    &&& forall|i: int|
        0 <= i < routes.len() ==> {
            &&& #[trigger] routes[i].peer == i
            &&& routes[i].answer_index == i
            &&& routes[i].offer == offers[i]
        }
}

/// A hosted room: its members (the host first) and its capacity.
#[derive(Clone, Copy, Debug)]
pub struct SessionInfo {
    pub members: usize,
    pub max_size: usize,
}

/// A room's members and capacity, as numbers.
pub type RoomView = (nat, nat);

/// What joining room `id` gives: the number of members already in it, or
/// why it cannot be joined.
pub open spec fn join_outcome<V>(rooms: Map<V, RoomView>, id: V) -> Result<nat, JoinSessionError> {
    if !rooms.contains_key(id) {
        Err(JoinSessionError::NotFound)
    } else if rooms[id].0 >= rooms[id].1 {
        Err(JoinSessionError::Full)
    } else {
        Ok(rooms[id].0)
    }
}

/// A room never has more members than it takes, except a host alone in a
/// room that takes none; it always has its host.
pub open spec fn within_capacity<V>(rooms: Map<V, RoomView>) -> bool {
    forall|id: V|
        #[trigger] rooms.contains_key(id) ==> 1 <= rooms[id].0 && (rooms[id].0 <= rooms[id].1
            || rooms[id].0 == 1)
}

/// The hosted rooms.
pub struct WebRTCSessionManager<K> {
    sessions: Vec<(K, SessionInfo)>,
}

pub open spec fn keys_of<K: View>(s: Seq<(K, SessionInfo)>) -> Seq<K::V> {
    s.map_values(|e: (K, SessionInfo)| e.0@)
}

impl<K: SessionKey> WebRTCSessionManager<K> {
    pub closed spec fn wf(&self) -> bool {
        &&& keys_of(self.sessions@).no_duplicates()
        &&& within_capacity(self.view())
    }

    /// Each hosted room id with its members and capacity.
    pub closed spec fn view(&self) -> Map<K::V, RoomView> {
        Map::new(
            |k: K::V| keys_of(self.sessions@).contains(k),
            |k: K::V|
                {
                    let e = self.sessions@[keys_of(self.sessions@).index_of(k)].1;
                    (e.members as nat, e.max_size as nat)
                },
        )
    }

    proof fn lemma_view_at(&self, i: int)
        requires
            keys_of(self.sessions@).no_duplicates(),
            0 <= i < self.sessions@.len(),
        ensures
            self.view().contains_key(self.sessions@[i].0@),
            self.view()[self.sessions@[i].0@] == (
                self.sessions@[i].1.members as nat,
                self.sessions@[i].1.max_size as nat,
            ),
    {
        let ks = keys_of(self.sessions@);
        assert(ks[i] == self.sessions@[i].0@);
        let j = ks.index_of(ks[i]);
        assert(ks[j] == ks[i]);
    }

    pub fn new() -> (r: WebRTCSessionManager<K>)
        ensures
            r.wf(),
            r.view() == Map::<K::V, RoomView>::empty(),
    {
        let r = WebRTCSessionManager { sessions: Vec::new() };
        assert(r.view() =~= Map::<K::V, RoomView>::empty());
        r
    }

    fn position_of(&self, id: &K) -> (r: Option<usize>)
        requires
            keys_of(self.sessions@).no_duplicates(),
        ensures
            match r {
                Some(i) => i < self.sessions@.len() && self.sessions@[i as int].0@ == id@,
                None => !self.view().contains_key(id@),
            },
    {
        let mut i: usize = 0;
        while i < self.sessions.len()
            invariant
                i <= self.sessions@.len(),
                forall|k: int| 0 <= k < i ==> keys_of(self.sessions@)[k] != id@,
            decreases self.sessions@.len() - i,
        {
            if self.sessions[i].0.same_key(id) {
                return Some(i);
            }
            i = i + 1;
        }
        None
    }

    /// Opens room `id` with its host as only member, unless it is hosted.
    pub fn host_session(&mut self, id: K, max_size: usize) -> (r: Result<(), ExistingSessionError>)
        requires
            old(self).wf(),
        ensures
            final(self).wf(),
            old(self).view().contains_key(id@) ==> r is Err && final(self).view() == old(self).view(),
            !old(self).view().contains_key(id@) ==> r is Ok && final(self).view() == old(self).view().insert(id@, (1nat, max_size as nat)),
    {
        match self.position_of(&id) {
            Some(i) => {
                proof {
                    self.lemma_view_at(i as int);
                }
                Err(ExistingSessionError)
            },
            None => {
                let ghost before = *self;
                let idv = Ghost(id@);
                self.sessions.push((id, SessionInfo { members: 1, max_size }));
                proof {
                    let ks = keys_of(self.sessions@);
                    let old_ks = keys_of(before.sessions@);
                    assert(ks =~= old_ks.push(idv@));
                    assert(!old_ks.contains(idv@));
                    assert(ks.no_duplicates()) by {
                        assert forall|a: int, b: int|
                            0 <= a < ks.len() && 0 <= b < ks.len() && a != b implies ks[a]
                            != ks[b] by {
                            if a < old_ks.len() && b < old_ks.len() {
                                assert(old_ks[a] != old_ks[b]);
                            } else if a < old_ks.len() {
                                assert(old_ks.contains(ks[a]));
                            } else if b < old_ks.len() {
                                assert(old_ks.contains(ks[b]));
                            }
                        }
                    }
                    let target = before.view().insert(idv@, (1nat, max_size as nat));
                    assert forall|k: K::V| #[trigger] self.view().contains_key(k) == target.contains_key(k) by {
                        if old_ks.contains(k) {
                            let j = old_ks.index_of(k);
                            assert(ks[j] == k);
                        }
                        if ks.contains(k) && k != idv@ {
                            let j = ks.index_of(k);
                            assert(ks[j] == k);
                            assert(j < old_ks.len());
                            assert(old_ks[j] == k);
                        }
                        if k == idv@ {
                            assert(ks[old_ks.len() as int] == k);
                        }
                    }
                    assert forall|k: K::V| #[trigger] self.view().contains_key(k) implies self.view()[k]
                        == target[k] by {
                        let j = ks.index_of(k);
                        assert(ks[j] == k);
                        self.lemma_view_at(j);
                        if j < old_ks.len() {
                            before.lemma_view_at(j);
                            assert(old_ks[j] == k);
                        }
                    }
                    assert(self.view() =~= target);
                }
                Ok(())
            },
        }
    }

    /// Whether room `id` can be joined, and how many members it has.
    pub fn join_session(&self, id: &K) -> (r: Result<usize, JoinSessionError>)
        requires
            self.wf(),
        ensures
            match join_outcome(self.view(), id@) {
                Ok(n) => r == Ok::<usize, JoinSessionError>(n as usize),
                Err(e) => r == Err::<usize, JoinSessionError>(e),
            },
    {
        match self.position_of(id) {
            None => Err(JoinSessionError::NotFound),
            Some(i) => {
                proof {
                    self.lemma_view_at(i as int);
                }
                let info = self.sessions[i].1;
                if info.members >= info.max_size {
                    Err(JoinSessionError::Full)
                } else {
                    Ok(info.members)
                }
            },
        }
    }

    /// A joining member hands one offer per member already in room `id`.
    /// With the right count, offer `i` goes to member `i` and is answered
    /// under index `i`, and the joiner becomes the next member: gives the
    /// routes and the joiner's place. Otherwise the offers come back
    /// untouched, with why, and the room is unchanged.
    pub fn send_sdp_offers(&mut self, id: &K, offers: Vec<SDPOffer>) -> (r: Result<
        (Vec<OfferRoute>, usize),
        (SendOffersError, Vec<SDPOffer>),
    >)
        requires
            old(self).wf(),
        ensures
            final(self).wf(),
            match join_outcome(old(self).view(), id@) {
                Err(e) => r matches Err((err, back)) && err == SendOffersError::Join(e)
                    && back@ == offers@ && final(self).view() == old(self).view(),
                Ok(n) => if offers@.len() == n {
                    &&& r matches Ok((routes, joiner)) && joiner == n && routes_offers(routes@, offers@)
                    &&& final(self).view() == old(self).view().insert(id@, (n + 1, old(self).view()[id@].1))
                } else {
                    r matches Err((err, back)) && err == SendOffersError::WrongOfferCount
                        && back@ == offers@ && final(self).view() == old(self).view()
                },
            },
    {
        let i = match self.position_of(id) {
            None => return Err((SendOffersError::Join(JoinSessionError::NotFound), offers)),
            Some(i) => i,
        };
        proof {
            self.lemma_view_at(i as int);
        }
        let info = self.sessions[i].1;
        if info.members >= info.max_size {
            return Err((SendOffersError::Join(JoinSessionError::Full), offers));
        }
        if offers.len() != info.members {
            return Err((SendOffersError::WrongOfferCount, offers));
        }
        let routes = route_offers(offers);
        let ghost before = *self;
        let key = self.sessions[i].0.duplicate();
        let new_info = SessionInfo { members: info.members + 1, max_size: info.max_size };
        self.sessions.set(i, (key, new_info));
        proof {
            let ks = keys_of(self.sessions@);
            let old_ks = keys_of(before.sessions@);
            assert(ks =~= old_ks);
            let target = before.view().insert(id@, ((info.members + 1) as nat, info.max_size as nat));
            assert forall|k: K::V| #[trigger] self.view().contains_key(k) implies self.view()[k]
                == target[k] by {
                let j = ks.index_of(k);
                assert(ks[j] == k);
                self.lemma_view_at(j);
                before.lemma_view_at(j);
                if j != i {
                    assert(old_ks[j] != old_ks[i as int]);
                }
            }
            assert(self.view() =~= target);
        }
        Ok((routes, info.members))
    }

    /// Closes room `id`: its host has left.
    pub fn end_session(&mut self, id: &K)
        requires
            old(self).wf(),
        ensures
            final(self).wf(),
            final(self).view() == old(self).view().remove(id@),
    {
        match self.position_of(id) {
            None => {
                assert(self.view() =~= self.view().remove(id@));
            },
            Some(i) => {
                let ghost before = *self;
                self.sessions.remove(i);
                proof {
                    let ks = keys_of(self.sessions@);
                    let old_ks = keys_of(before.sessions@);
                    assert(ks =~= old_ks.remove(i as int));
                    assert(old_ks[i as int] == id@);
                    let target = before.view().remove(id@);
                    assert forall|k: K::V| #[trigger] self.view().contains_key(k) == target.contains_key(k) by {
                        if old_ks.contains(k) && k != id@ {
                            let j = old_ks.index_of(k);
                            assert(old_ks[j] == k);
                            assert(j != i);
                            if j < i {
                                assert(ks[j] == k);
                            } else {
                                assert(ks[j - 1] == k);
                            }
                        }
                        if ks.contains(k) {
                            let j = ks.index_of(k);
                            assert(ks[j] == k);
                            if j < i {
                                assert(old_ks[j] == k);
                                assert(j != i);
                            } else {
                                assert(old_ks[j + 1] == k);
                                assert(j + 1 != i);
                            }
                        }
                    }
                    assert forall|k: K::V| #[trigger] self.view().contains_key(k) implies self.view()[k]
                        == target[k] by {
                        let j = ks.index_of(k);
                        assert(ks[j] == k);
                        self.lemma_view_at(j);
                        if j < i {
                            before.lemma_view_at(j);
                        } else {
                            before.lemma_view_at(j + 1);
                        }
                    }
                    assert(self.view() =~= target);
                }
            },
        }
    }
}

impl<K: SessionKey + RandomID> WebRTCSessionManager<K> {
    /// Opens a room under a freshly drawn id that is not hosted, and gives
    /// the id. Draws until one is free; gives `None` only after 2^64 taken
    /// draws in a row.
    pub fn host_session_random_id(&mut self, max_size: usize) -> (r: Option<K>)
        requires
            old(self).wf(),
        ensures
            final(self).wf(),
            match r {
                Some(k) => !old(self).view().contains_key(k@) && final(self).view() == old(self).view().insert(k@, (1nat, max_size as nat)),
                None => final(self).view() == old(self).view(),
            },
    {
        let mut attempts: u64 = 0;
        while attempts < u64::MAX
            invariant
                self.wf(),
                self.view() == old(self).view(),
            decreases u64::MAX - attempts,
        {
            let id = K::generate();
            let copy = id.duplicate();
            match self.host_session(id, max_size) {
                Ok(()) => {
                    return Some(copy);
                },
                Err(_) => {},
            }
            attempts = attempts + 1;
        }
        None
    }
}

/// Pairs offer `i` with member `i` and answer index `i`, in order.
fn route_offers(offers: Vec<SDPOffer>) -> (r: Vec<OfferRoute>)
    ensures
        routes_offers(r@, offers@),
{
    let ghost all = offers@;
    let mut rest = offers;
    let mut routes: Vec<OfferRoute> = Vec::new();
    let n = rest.len();
    let mut i: usize = 0;
    while i < n
        invariant
            n == all.len(),
            i <= n,
            rest@ == all.subrange(i as int, n as int),
            routes@.len() == i,
            forall|k: int|
                0 <= k < i ==> {
                    &&& #[trigger] routes@[k].peer == k
                    &&& routes@[k].answer_index == k
                    &&& routes@[k].offer == all[k]
                },
        decreases n - i,
    {
        let offer = rest.remove(0);
        routes.push(OfferRoute { peer: i, answer_index: i, offer });
        i = i + 1;
    }
    routes
}

/// Hosting a room id that is not hosted, then joining it, finds its host
/// alone in it: the room can be joined when it takes more than one.
pub proof fn law_hosted_room_can_be_joined<V>(rooms: Map<V, RoomView>, id: V, max_size: nat)
    requires
        !rooms.contains_key(id),
    ensures
        join_outcome(rooms.insert(id, (1nat, max_size)), id) == (if 1 < max_size {
            Ok::<nat, JoinSessionError>(1)
        } else {
            Err::<nat, JoinSessionError>(JoinSessionError::Full)
        }),
{
}

/// A closed room cannot be joined.
pub proof fn law_closed_room_not_found<V>(rooms: Map<V, RoomView>, id: V)
    ensures
        join_outcome(rooms.remove(id), id) == Err::<nat, JoinSessionError>(JoinSessionError::NotFound),
{
}

/// No room ever holds more members than it takes (a host alone excepted).
pub proof fn law_rooms_within_capacity<K: SessionKey>(m: &WebRTCSessionManager<K>)
    requires
        m.wf(),
    ensures
        within_capacity(m.view()),
{
}

} // verus!
