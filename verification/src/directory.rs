//! The directory of advertised session servers: registration, heartbeats
//! and the listing of the servers that are still alive.

use vstd::prelude::*;
use crate::error::SessionError;

verus! {

/// Identifies an advertisement: the 128 bits of its UUID.
pub type ServerId = u128;

/// A point in time: nanoseconds since the Unix epoch, UTC.
pub type Timestamp = i128;

/// Thirty seconds in nanoseconds: how old a heartbeat may be by default.
pub const DEFAULT_LIVENESS_WINDOW: i128 = 30_000_000_000;

/// An IP address as its bits.
#[derive(Clone, Copy, Debug, PartialEq, Eq, Structural)]
pub enum IpAddress {
    V4(u32),
    V6(u128),
}

/// What a session server sends to be listed.
#[derive(Debug, PartialEq, Eq)]
pub struct RegisterServer {
    pub addr: IpAddress,
    pub port: u16,
    pub name: String,
}

/// The advertisement of one session server.
#[derive(Debug, PartialEq, Eq)]
pub struct Server {
    pub id: ServerId,
    pub addr: IpAddress,
    pub port: u16,
    pub name: String,
    pub last_ping: Timestamp,
}

/// The advertisement of a game server.
pub type GameServer = Server;

/// The registration of a game server.
pub type RegisterGameServer = RegisterServer;

/// The later of two points in time.
pub open spec fn later(a: Timestamp, b: Timestamp) -> Timestamp {
    if a >= b {
        a
    } else {
        b
    }
}

/// Reads the clock: the Unix timestamp, in nanoseconds, of
/// `time::OffsetDateTime::now_utc()`. Nothing is claimed of the value.
#[verifier::external_body]
fn utc_now() -> (now: Timestamp) {
    time::OffsetDateTime::now_utc().unix_timestamp_nanos()
}

/// Draws a random identifier: the 128 bits of `uuid::Uuid::new_v4()`.
/// Nothing is claimed of the value.
#[verifier::external_body]
fn random_id() -> (id: ServerId) {
    uuid::Uuid::new_v4().as_u128()
}

impl Clone for Server {
    fn clone(&self) -> (s: Server)
        ensures
            s == *self,
    {
        Server {
            id: self.id,
            addr: self.addr,
            port: self.port,
            name: self.name.clone(),
            last_ping: self.last_ping,
        }
    }
}

impl Server {
    /// The advertisement with the given id, last heard of at `now`.
    pub fn with_id(id: ServerId, addr: IpAddress, port: u16, name: String, now: Timestamp) -> (s: Server)
        ensures
            s == (Server { id, addr, port, name, last_ping: now }),
    {
        Server { id, addr, port, name, last_ping: now }
    }

    /// A new advertisement with a random id, last heard of at the present
    /// moment.
    pub fn new(addr: IpAddress, port: u16, name: String) -> (s: Server)
        ensures
            s.addr == addr,
            s.port == port,
            s.name == name,
    {
        Server::with_id(random_id(), addr, port, name, utc_now())
    }

    /// The advertisement after a heartbeat at `now`: heard of at `now`, or
    /// as before where the clock has gone backwards.
    pub open spec fn pinged(self, now: Timestamp) -> Server {
        Server { last_ping: later(self.last_ping, now), ..self }
    }

    /// Records a heartbeat at `now`. The time of the last heartbeat never
    /// goes back.
    pub fn ping_at(&mut self, now: Timestamp)
        ensures
            *final(self) == old(self).pinged(now),
    {
        if now > self.last_ping {
            self.last_ping = now;
        }
    }

    /// Records a heartbeat at the present moment.
    pub fn ping(&mut self)
        ensures
            final(self).last_ping >= old(self).last_ping,
            *final(self) == (Server { last_ping: final(self).last_ping, ..*old(self) }),
    {
        self.ping_at(utc_now());
    }

    /// Whether the last heartbeat is at most `window` nanoseconds older
    /// than `now`.
    pub open spec fn spec_is_active(&self, now: Timestamp, window: i128) -> bool {
        now - self.last_ping <= window
    }

    /// Whether the last heartbeat is at most `window` nanoseconds older
    /// than `now`.
    #[verifier::when_used_as_spec(spec_is_active)]
    pub fn is_active(&self, now: Timestamp, window: i128) -> (b: bool)
        ensures
            b == self.spec_is_active(now, window),
    {
        match now.checked_sub(self.last_ping) {
            Some(age) => age <= window,
            None => now < self.last_ping,
        }
    }
}

/// The ids of a sequence of advertisements, in order.
pub open spec fn server_ids(s: Seq<Server>) -> Seq<ServerId> {
    s.map_values(|x: Server| x.id)
}

/// Whether some advertisement of `s` has the id `id`.
pub open spec fn has_server(s: Seq<Server>, id: ServerId) -> bool {
    exists|i: int| 0 <= i < s.len() && (#[trigger] s[i]).id == id
}

/// No two advertisements of `s` share an id.
pub open spec fn distinct_servers(s: Seq<Server>) -> bool {
    forall|i: int, j: int| 0 <= i < j < s.len() ==> (#[trigger] s[i]).id != (#[trigger] s[j]).id
}

/// The place of the advertisement `id` in `s`; meaningful where
/// `has_server(s, id)`.
pub open spec fn server_index(s: Seq<Server>, id: ServerId) -> int {
    choose|i: int| 0 <= i < s.len() && (#[trigger] s[i]).id == id
}

/// Where the ids are distinct an advertisement's place is determined by
/// its id.
pub proof fn lemma_server_index_unique(s: Seq<Server>, i: int)
    requires
        distinct_servers(s),
        0 <= i < s.len(),
    ensures
        has_server(s, s[i].id),
        server_index(s, s[i].id) == i,
{
    let j = server_index(s, s[i].id);
    assert(0 <= j < s.len() && s[j].id == s[i].id);
    if j < i {
        assert(s[j].id != s[i].id);
    } else if i < j {
        assert(s[i].id != s[j].id);
    }
}

/// The `k`-th identifier tried after `candidate`: `candidate + k`, wrapping
/// round at 128 bits.
pub open spec fn probe(candidate: ServerId, k: nat) -> ServerId {
    ((candidate + k) % (u128::MAX + 1)) as ServerId
}

/// How many identifiers after `candidate`, from the `k`-th on, are tried
/// before one is found that no advertisement of `s` has.
pub open spec fn first_free(s: Seq<Server>, candidate: ServerId, k: nat) -> nat
    decreases s.len() + 1 - k,
{
    if k > s.len() || !has_server(s, probe(candidate, k)) {
        k
    } else {
        first_free(s, candidate, k + 1)
    }
}

/// The identifier that a registration with the random draw `candidate`
/// gets: the draw itself unless it is taken, else the next one that is free.
pub open spec fn fresh_id(s: Seq<Server>, candidate: ServerId) -> ServerId {
    probe(candidate, first_free(s, candidate, 0))
}

/// The first `m` identifiers tried after `candidate`.
pub open spec fn probes(candidate: ServerId, m: nat) -> Set<ServerId>
    decreases m,
{
    if m == 0 {
        Set::empty()
    } else {
        probes(candidate, (m - 1) as nat).insert(probe(candidate, (m - 1) as nat))
    }
}

/// The first `m` identifiers tried are `m` different ones, as long as `m`
/// does not exceed the number of identifiers.
proof fn lemma_probes(candidate: ServerId, m: nat)
    requires
        m <= (u128::MAX + 1),
    ensures
        probes(candidate, m).finite(),
        probes(candidate, m).len() == m,
        forall|x: ServerId|
            probes(candidate, m).contains(x) <==> exists|k: nat| k < m && x == #[trigger] probe(candidate, k),
    decreases m,
{
    if m > 0 {
        let p = (m - 1) as nat;
        lemma_probes(candidate, p);
        let last = probe(candidate, p);
        assert(!probes(candidate, p).contains(last)) by {
            if probes(candidate, p).contains(last) {
                let k = choose|k: nat| k < p && last == #[trigger] probe(candidate, k);
                assert(probe(candidate, k) != probe(candidate, p));
            }
        }
        assert forall|x: ServerId|
            probes(candidate, m).contains(x) <==> exists|k: nat| k < m && x == #[trigger] probe(candidate, k) by {
            if probes(candidate, m).contains(x) {
                if x == last {
                    assert(p < m && x == probe(candidate, p));
                } else {
                    let k = choose|k: nat| k < p && x == #[trigger] probe(candidate, k);
                    assert(k < m && x == probe(candidate, k));
                }
            }
            if exists|k: nat| k < m && x == #[trigger] probe(candidate, k) {
                let k = choose|k: nat| k < m && x == #[trigger] probe(candidate, k);
                if k < p {
                    assert(probes(candidate, p).contains(x));
                }
            }
        }
    }
}

/// Among the first `s.len() + 1` identifiers tried one is free: a table
/// cannot hold more identifiers than it has entries.
proof fn lemma_some_probe_is_free(s: Seq<Server>, candidate: ServerId)
    requires
        s.len() < (u128::MAX + 1),
    ensures
        exists|k: nat| k <= s.len() && !has_server(s, #[trigger] probe(candidate, k)),
{
    if forall|k: nat| k <= s.len() ==> has_server(s, #[trigger] probe(candidate, k)) {
        let taken = server_ids(s).to_set();
        let tried = probes(candidate, s.len() + 1);
        lemma_probes(candidate, s.len() + 1);
        server_ids(s).lemma_cardinality_of_set();
        assert forall|x: ServerId| tried.contains(x) implies taken.contains(x) by {
            let k = choose|k: nat| k < s.len() + 1 && x == #[trigger] probe(candidate, k);
            assert(has_server(s, probe(candidate, k)));
            let i = choose|i: int| 0 <= i < s.len() && (#[trigger] s[i]).id == x;
            assert(server_ids(s)[i] == x);
        }
        vstd::set_lib::lemma_len_subset(tried, taken);
        assert(false);
    }
}

/// The search from the `k`-th identifier on ends at the first free one.
proof fn lemma_first_free_from(s: Seq<Server>, candidate: ServerId, k: nat, free: nat)
    requires
        k <= free <= s.len(),
        !has_server(s, probe(candidate, free)),
    ensures
        k <= first_free(s, candidate, k) <= free,
        !has_server(s, probe(candidate, first_free(s, candidate, k))),
        forall|j: nat| k <= j < first_free(s, candidate, k) ==> has_server(s, #[trigger] probe(candidate, j)),
    decreases s.len() + 1 - k,
{
    if has_server(s, probe(candidate, k)) {
        lemma_first_free_from(s, candidate, k + 1, free);
    }
}

/// The identifier that a registration gets is one that no advertisement
/// has yet, whatever was drawn.
pub proof fn lemma_fresh_id_is_fresh(s: Seq<Server>, candidate: ServerId)
    requires
        s.len() < (u128::MAX + 1),
    ensures
        !has_server(s, fresh_id(s, candidate)),
        first_free(s, candidate, 0) <= s.len(),
        forall|j: nat| j < first_free(s, candidate, 0) ==> has_server(s, #[trigger] probe(candidate, j)),
        !has_server(s, candidate) ==> fresh_id(s, candidate) == candidate,
{
    lemma_some_probe_is_free(s, candidate);
    let free = choose|k: nat| k <= s.len() && !has_server(s, #[trigger] probe(candidate, k));
    lemma_first_free_from(s, candidate, 0, free);
}

/// Whether `a` comes before `b` in a listing of `s`: the later heartbeat
/// first, and among equal heartbeats the earlier registration.
pub open spec fn listed_before(s: Seq<Server>, a: Server, b: Server) -> bool {
    a.last_ping > b.last_ping || (a.last_ping == b.last_ping && server_index(s, a.id) < server_index(
        s,
        b.id,
    ))
}

/// Whether `listing` is the listing of the directory `s` at `now`: exactly
/// the advertisements whose last heartbeat is at most `window` old, each
/// once, the most recent heartbeat first.
pub open spec fn is_listing(s: Seq<Server>, now: Timestamp, window: i128, listing: Seq<Server>) -> bool {
    &&& forall|i: int|
        0 <= i < listing.len() ==> has_server(s, (#[trigger] listing[i]).id) && listing[i]
            == s[server_index(s, listing[i].id)] && listing[i].spec_is_active(now, window)
    &&& forall|k: int|
        0 <= k < s.len() && (#[trigger] s[k]).spec_is_active(now, window) ==> listing.contains(s[k])
    &&& forall|i: int, j: int|
        0 <= i < j < listing.len() ==> listed_before(s, #[trigger] listing[i], #[trigger] listing[j])
}

/// The directory after a registration that drew `candidate` at `now`.
pub open spec fn registered(
    s: Seq<Server>,
    candidate: ServerId,
    now: Timestamp,
    addr: IpAddress,
    port: u16,
    name: String,
) -> Seq<Server> {
    s.push(Server { id: fresh_id(s, candidate), addr, port, name, last_ping: now })
}

/// Whether a heartbeat of `id` at `now` is accepted: the id is known and
/// its advertisement is still alive. An advertisement that has gone stale
/// is not brought back.
pub open spec fn accepts_heartbeat(s: Seq<Server>, window: i128, id: ServerId, now: Timestamp) -> bool {
    has_server(s, id) && s[server_index(s, id)].spec_is_active(now, window)
}

/// The directory after a heartbeat of `id` at `now`.
pub open spec fn heartbeaten(s: Seq<Server>, window: i128, id: ServerId, now: Timestamp) -> Seq<Server> {
    if accepts_heartbeat(s, window, id, now) {
        s.update(server_index(s, id), s[server_index(s, id)].pinged(now))
    } else {
        s
    }
}

/// What a heartbeat of `id` at `now` is answered with: the advertisement
/// with its new time, or the refusal of an id that is unknown or stale.
pub open spec fn heartbeat_answer(
    s: Seq<Server>,
    window: i128,
    id: ServerId,
    now: Timestamp,
) -> Result<Server, SessionError> {
    if accepts_heartbeat(s, window, id, now) {
        Ok(s[server_index(s, id)].pinged(now))
    } else {
        Err(SessionError::UnknownServer)
    }
}

/// The advertisements of all servers that ever registered. Nothing is
/// ever deleted: which of them count as alive is decided when they are
/// listed.
pub struct Directory {
    servers: Vec<Server>,
    window: i128,
}

impl View for Directory {
    type V = Seq<Server>;

    closed spec fn view(&self) -> Seq<Server> {
        self.servers@
    }
}

impl Directory {
    #[verifier::type_invariant]
    spec fn well_formed(self) -> bool {
        distinct_servers(self.servers@)
    }

    /// How old a heartbeat may be for its server to be listed.
    pub closed spec fn spec_liveness_window(&self) -> i128 {
        self.window
    }

    /// An empty directory that lists servers heard of within `window`
    /// nanoseconds.
    pub fn new(window: i128) -> (d: Directory)
        ensures
            d@ == Seq::<Server>::empty(),
            d.spec_liveness_window() == window,
    {
        Directory { servers: Vec::new(), window }
    }

    /// How old a heartbeat may be for its server to be listed.
    #[verifier::when_used_as_spec(spec_liveness_window)]
    pub fn liveness_window(&self) -> (w: i128)
        ensures
            w == self.spec_liveness_window(),
    {
        self.window
    }

    /// The number of advertisements, stale ones included.
    pub fn len(&self) -> (n: usize)
        ensures
            n == self@.len(),
            distinct_servers(self@),
    {
        proof {
            use_type_invariant(self);
        }
        self.servers.len()
    }

    /// Moves the advertisements out, leaving the directory empty for the
    /// moment.
    fn take(&mut self) -> (v: Vec<Server>)
        ensures
            v@ == old(self)@,
            distinct_servers(v@),
            final(self)@ == Seq::<Server>::empty(),
            final(self).spec_liveness_window() == old(self).spec_liveness_window(),
    {
        proof {
            use_type_invariant(&*self);
        }
        let mut v: Vec<Server> = Vec::new();
        core::mem::swap(&mut self.servers, &mut v);
        v
    }

    /// Moves advertisements with distinct ids into the directory.
    fn put(&mut self, v: Vec<Server>)
        requires
            distinct_servers(v@),
        ensures
            final(self)@ == v@,
            final(self).spec_liveness_window() == old(self).spec_liveness_window(),
    {
        let mut v = v;
        core::mem::swap(&mut self.servers, &mut v);
    }

    /// The place of the advertisement `id`, if there is one.
    fn position_of(&self, id: ServerId) -> (r: Option<usize>)
        ensures
            match r {
                Some(i) => has_server(self@, id) && i == server_index(self@, id) && i < self@.len(),
                None => !has_server(self@, id),
            },
    {
        proof {
            use_type_invariant(self);
        }
        let mut i: usize = 0;
        while i < self.servers.len()
            invariant
                i <= self.servers@.len(),
                distinct_servers(self.servers@),
                forall|k: int| 0 <= k < i ==> (#[trigger] self.servers@[k]).id != id,
            decreases self.servers@.len() - i,
        {
            if self.servers[i].id == id {
                proof {
                    lemma_server_index_unique(self.servers@, i as int);
                }
                return Some(i);
            }
            i = i + 1;
        }
        None
    }

    /// The advertisement `id`, if there is one.
    pub fn get(&self, id: ServerId) -> (r: Option<Server>)
        ensures
            r == (if has_server(self@, id) {
                Some(self@[server_index(self@, id)])
            } else {
                None
            }),
    {
        match self.position_of(id) {
            Some(i) => Some(self.servers[i].clone()),
            None => None,
        }
    }

    /// The first identifier from `candidate` on that no advertisement has.
    fn free_id(&self, candidate: ServerId) -> (id: ServerId)
        ensures
            id == fresh_id(self@, candidate),
            !has_server(self@, id),
    {
        let entries = self.servers.len();
        proof {
            assert(entries <= usize::MAX);
            lemma_fresh_id_is_fresh(self@, candidate);
        }
        let ghost free = first_free(self@, candidate, 0);
        let ghost mut tried: nat = 0;
        let mut id = candidate;
        loop
            invariant
                tried <= free <= self@.len(),
                free == first_free(self@, candidate, 0),
                id == probe(candidate, tried),
                !has_server(self@, probe(candidate, free)),
                forall|j: nat| j < free ==> has_server(self@, #[trigger] probe(candidate, j)),
            decreases free - tried,
        {
            if self.position_of(id).is_none() {
                return id;
            }
            id = if id == u128::MAX {
                0
            } else {
                id + 1
            };
            proof {
                tried = tried + 1;
            }
        }
    }

    /// Stores a new advertisement, last heard of at `now`. Its id is
    /// `candidate`, or the next free one where `candidate` is taken.
    pub fn register_with(
        &mut self,
        candidate: ServerId,
        now: Timestamp,
        addr: IpAddress,
        port: u16,
        name: String,
    ) -> (server: Server)
        ensures
            server == (Server { id: fresh_id(old(self)@, candidate), addr, port, name, last_ping: now }),
            !has_server(old(self)@, server.id),
            final(self)@ == registered(old(self)@, candidate, now, addr, port, name),
            final(self).spec_liveness_window() == old(self).spec_liveness_window(),
            distinct_servers(final(self)@),
    {
        let id = self.free_id(candidate);
        let server = Server { id, addr, port, name, last_ping: now };
        let copy = server.clone();
        let mut servers = self.take();
        servers.push(server);
        proof {
            let t = servers@;
            assert forall|i: int, j: int| 0 <= i < j < t.len() implies (#[trigger] t[i]).id != (#[trigger] t[j]).id by {
                if j == t.len() - 1 {
                    assert(old(self)@[i].id != id);
                } else {
                    assert(old(self)@[i].id != old(self)@[j].id);
                }
            }
        }
        self.put(servers);
        copy
    }

    /// Registers a server: draws a random id, reads the clock and stores
    /// the advertisement. The id is one that no advertisement had.
    pub fn register(&mut self, payload: RegisterServer) -> (server: Server)
        ensures
            exists|candidate: ServerId, now: Timestamp|
                server == (Server {
                    id: fresh_id(old(self)@, candidate),
                    addr: payload.addr,
                    port: payload.port,
                    name: payload.name,
                    last_ping: now,
                }) && final(self)@ == #[trigger] registered(
                    old(self)@,
                    candidate,
                    now,
                    payload.addr,
                    payload.port,
                    payload.name,
                ),
            !has_server(old(self)@, server.id),
            final(self)@ == old(self)@.push(server),
            final(self).spec_liveness_window() == old(self).spec_liveness_window(),
            distinct_servers(final(self)@),
    {
        let candidate = random_id();
        let now = utc_now();
        let ghost before = self@;
        let server = self.register_with(candidate, now, payload.addr, payload.port, payload.name);
        assert(self@ == registered(before, candidate, now, payload.addr, payload.port, payload.name));
        server
    }

    /// Records a heartbeat of `id` at `now`: the advertisement is heard of
    /// at `now`. An id that never registered is refused, and so is one
    /// whose advertisement has gone stale by the directory's window: it
    /// is not brought back, and nothing changes.
    pub fn heartbeat_at(&mut self, id: ServerId, now: Timestamp) -> (r: Result<Server, SessionError>)
        ensures
            r == heartbeat_answer(old(self)@, old(self).spec_liveness_window(), id, now),
            final(self)@ == heartbeaten(old(self)@, old(self).spec_liveness_window(), id, now),
            final(self).spec_liveness_window() == old(self).spec_liveness_window(),
            distinct_servers(final(self)@),
    {
        proof {
            use_type_invariant(&*self);
        }
        match self.position_of(id) {
            Some(i) => {
                if !self.servers[i].is_active(now, self.window) {
                    return Err(SessionError::UnknownServer);
                }
                let mut servers = self.take();
                let mut server = servers[i].clone();
                server.ping_at(now);
                servers.set(i, server.clone());
                proof {
                    let t = servers@;
                    assert forall|a: int, b: int| 0 <= a < b < t.len() implies (#[trigger] t[a]).id != (
                    #[trigger] t[b]).id by {
                        assert(old(self)@[a].id != old(self)@[b].id);
                    }
                }
                self.put(servers);
                Ok(server)
            },
            None => Err(SessionError::UnknownServer),
        }
    }

    /// Records a heartbeat of `id` at the present moment.
    pub fn heartbeat(&mut self, id: ServerId) -> (r: Result<Server, SessionError>)
        ensures
            exists|now: Timestamp|
                r == #[trigger] heartbeat_answer(old(self)@, old(self).spec_liveness_window(), id, now)
                    && final(self)@ == heartbeaten(old(self)@, old(self).spec_liveness_window(), id, now),
            !has_server(old(self)@, id) ==> r == Err::<Server, SessionError>(SessionError::UnknownServer)
                && final(self)@ == old(self)@,
            final(self).spec_liveness_window() == old(self).spec_liveness_window(),
            distinct_servers(final(self)@),
    {
        let now = utc_now();
        let ghost before = self@;
        let r = self.heartbeat_at(id, now);
        assert(r == heartbeat_answer(before, self.spec_liveness_window(), id, now));
        r
    }

    /// Lists the servers that are alive at `now`: those whose last
    /// heartbeat is at most `window` nanoseconds old, the most recent
    /// first. The directory itself is not changed.
    pub fn list_active(&self, now: Timestamp, window: i128) -> (listing: Vec<Server>)
        ensures
            is_listing(self@, now, window, listing@),
    {
        proof {
            use_type_invariant(self);
        }
        let mut out: Vec<Server> = Vec::new();
        let ghost mut src: Seq<int> = Seq::empty();
        let mut k: usize = 0;
        while k < self.servers.len()
            invariant
                k <= self.servers@.len(),
                distinct_servers(self.servers@),
                src.len() == out@.len(),
                forall|i: int|
                    0 <= i < out@.len() ==> 0 <= #[trigger] src[i] < k && out@[i] == self.servers@[src[i]]
                        && out@[i].spec_is_active(now, window),
                forall|j: int|
                    0 <= j < k && (#[trigger] self.servers@[j]).spec_is_active(now, window) ==> src.contains(j),
                forall|i: int, j: int|
                    0 <= i < j < out@.len() ==> (#[trigger] out@[i]).last_ping > (#[trigger] out@[j]).last_ping
                        || (out@[i].last_ping == out@[j].last_ping && src[i] < src[j]),
            decreases self.servers@.len() - k,
        {
            if self.servers[k].is_active(now, window) {
                let ping = self.servers[k].last_ping;
                let mut p: usize = 0;
                while p < out.len() && out[p].last_ping >= ping
                    invariant
                        p <= out@.len(),
                        forall|i: int| 0 <= i < p ==> (#[trigger] out@[i]).last_ping >= ping,
                    decreases out@.len() - p,
                {
                    p = p + 1;
                }
                let ghost old_out = out@;
                let ghost old_src = src;
                out.insert(p, self.servers[k].clone());
                proof {
                    src = src.insert(p as int, k as int);
                    assert forall|j: int|
                        0 <= j < k + 1 && (#[trigger] self.servers@[j]).spec_is_active(now, window) implies src.contains(
                        j,
                    ) by {
                        if j == k {
                            assert(src[p as int] == j);
                        } else {
                            let i = choose|i: int| 0 <= i < old_src.len() && old_src[i] == j;
                            let ni = if i < p { i } else { i + 1 };
                            assert(src[ni] == j);
                        }
                    }
                    assert forall|i: int, j: int| 0 <= i < j < out@.len() implies (#[trigger] out@[i]).last_ping > (
                    #[trigger] out@[j]).last_ping || (out@[i].last_ping == out@[j].last_ping && src[i] < src[j]) by {
                        let oi = if i < p { i } else { i - 1 };
                        let oj = if j < p { j } else { j - 1 };
                        if i == p {
                            assert(old_out[p as int].last_ping < ping);
                            if oj > p {
                                assert(old_out[p as int].last_ping >= old_out[oj].last_ping);
                            }
                        } else if j == p {
                            assert(old_out[oi].last_ping >= ping);
                            assert(old_src[oi] < k);
                        } else {
                            assert(old_out[oi].last_ping > old_out[oj].last_ping || (old_out[oi].last_ping
                                == old_out[oj].last_ping && old_src[oi] < old_src[oj]));
                        }
                    }
                }
            }
            k = k + 1;
        }
        proof {
            let s = self.servers@;
            assert forall|i: int| 0 <= i < out@.len() implies has_server(s, (#[trigger] out@[i]).id) && out@[i]
                == s[server_index(s, out@[i].id)] && out@[i].spec_is_active(now, window) by {
                lemma_server_index_unique(s, src[i]);
            }
            assert forall|j: int| 0 <= j < s.len() && (#[trigger] s[j]).spec_is_active(now, window) implies out@.contains(
                s[j],
            ) by {
                let i = choose|i: int| 0 <= i < src.len() && src[i] == j;
                assert(out@[i] == s[j]);
            }
            assert forall|i: int, j: int| 0 <= i < j < out@.len() implies listed_before(
                s,
                #[trigger] out@[i],
                #[trigger] out@[j],
            ) by {
                lemma_server_index_unique(s, src[i]);
                lemma_server_index_unique(s, src[j]);
            }
        }
        out
    }

    /// Lists the servers that are alive at the present moment, by the
    /// directory's own liveness window.
    pub fn list_servers(&self) -> (listing: Vec<Server>)
        ensures
            exists|now: Timestamp| #[trigger] is_listing(self@, now, self.spec_liveness_window(), listing@),
    {
        let now = utc_now();
        let listing = self.list_active(now, self.window);
        assert(is_listing(self@, now, self.spec_liveness_window(), listing@));
        listing
    }
}

/// A listing holds exactly the advertisements of the directory whose last
/// heartbeat is at most `window` older than `now`, and none whose last
/// heartbeat came before `now - window`.
pub proof fn lemma_listing_is_exact(s: Seq<Server>, now: Timestamp, window: i128, listing: Seq<Server>)
    requires
        is_listing(s, now, window, listing),
    ensures
        forall|x: Server| listing.contains(x) <==> s.contains(x) && x.spec_is_active(now, window),
        forall|i: int| 0 <= i < listing.len() ==> (#[trigger] listing[i]).last_ping >= now - window,
{
    assert forall|x: Server| listing.contains(x) <==> s.contains(x) && x.spec_is_active(now, window) by {
        if listing.contains(x) {
            let i = choose|i: int| 0 <= i < listing.len() && listing[i] == x;
            assert(has_server(s, listing[i].id));
            let k = server_index(s, listing[i].id);
            assert(0 <= k < s.len() && s[k].id == listing[i].id);
            assert(s[k] == x);
        }
        if s.contains(x) && x.spec_is_active(now, window) {
            let k = choose|k: int| 0 <= k < s.len() && s[k] == x;
            assert(s[k].spec_is_active(now, window));
        }
    }
}

/// Two listings of one directory at one moment agree up to place `i`.
proof fn lemma_listings_agree(
    s: Seq<Server>,
    now: Timestamp,
    window: i128,
    a: Seq<Server>,
    b: Seq<Server>,
    i: int,
)
    requires
        is_listing(s, now, window, a),
        is_listing(s, now, window, b),
        0 <= i <= a.len(),
        i <= b.len(),
    ensures
        forall|j: int| 0 <= j < i ==> a[j] == b[j],
    decreases i,
{
    if i > 0 {
        lemma_listings_agree(s, now, window, a, b, i - 1);
        let m = i - 1;
        let x = a[m];
        let y = b[m];
        assert(has_server(s, x.id));
        let kx = server_index(s, x.id);
        assert(0 <= kx < s.len() && s[kx].id == x.id);
        assert(s[kx].spec_is_active(now, window));
        assert(b.contains(s[kx]));
        let p = choose|p: int| 0 <= p < b.len() && b[p] == x;
        assert(has_server(s, y.id));
        let ky = server_index(s, y.id);
        assert(0 <= ky < s.len() && s[ky].id == y.id);
        assert(s[ky].spec_is_active(now, window));
        assert(a.contains(s[ky]));
        let q = choose|q: int| 0 <= q < a.len() && a[q] == y;
        if p < m {
            assert(a[p] == b[p]);
            assert(listed_before(s, a[p], a[m]));
        } else if q < m {
            assert(a[q] == b[q]);
            assert(listed_before(s, b[q], b[m]));
        } else if p > m && q > m {
            assert(listed_before(s, b[m], b[p]));
            assert(listed_before(s, a[m], a[q]));
        }
    }
}

/// The listing is determined: two listings of one directory at one moment
/// are the same sequence.
pub proof fn lemma_listing_unique(s: Seq<Server>, now: Timestamp, window: i128, a: Seq<Server>, b: Seq<Server>)
    requires
        is_listing(s, now, window, a),
        is_listing(s, now, window, b),
    ensures
        a == b,
{
    if a.len() <= b.len() {
        lemma_listings_agree(s, now, window, a, b, a.len() as int);
        lemma_listing_is_longest(s, now, window, a, b);
    } else {
        lemma_listings_agree(s, now, window, b, a, b.len() as int);
        lemma_listing_is_longest(s, now, window, b, a);
    }
    assert(a =~= b);
}

/// A listing that agrees with another on all its places is not shorter.
proof fn lemma_listing_is_longest(s: Seq<Server>, now: Timestamp, window: i128, a: Seq<Server>, b: Seq<Server>)
    requires
        is_listing(s, now, window, a),
        is_listing(s, now, window, b),
        a.len() <= b.len(),
        forall|j: int| 0 <= j < a.len() ==> a[j] == b[j],
    ensures
        a.len() == b.len(),
{
    if a.len() < b.len() {
        let m = a.len() as int;
        let y = b[m];
        assert(has_server(s, y.id));
        let ky = server_index(s, y.id);
        assert(0 <= ky < s.len() && s[ky].id == y.id);
        assert(s[ky].spec_is_active(now, window));
        assert(a.contains(s[ky]));
        let q = choose|q: int| 0 <= q < a.len() && a[q] == y;
        assert(a[q] == b[q]);
        assert(listed_before(s, b[q], b[m]));
    }
}

/// A heartbeat changes nothing but the time of one advertisement, and
/// that time never goes back: every id stays where it is.
pub proof fn lemma_heartbeat_is_monotone(s: Seq<Server>, window: i128, id: ServerId, now: Timestamp)
    ensures
        heartbeaten(s, window, id, now).len() == s.len(),
        forall|k: int|
            0 <= k < s.len() ==> (#[trigger] heartbeaten(s, window, id, now)[k]).id == s[k].id
                && heartbeaten(s, window, id, now)[k].last_ping >= s[k].last_ping && heartbeaten(
                s,
                window,
                id,
                now,
            )[k] == (Server { last_ping: heartbeaten(s, window, id, now)[k].last_ping, ..s[k] }),
        accepts_heartbeat(s, window, id, now) ==> heartbeaten(s, window, id, now)[server_index(
            s,
            id,
        )].last_ping == later(s[server_index(s, id)].last_ping, now),
{
    if has_server(s, id) {
        let i = server_index(s, id);
        assert(0 <= i < s.len() && s[i].id == id);
    }
}

/// An advertisement that has gone stale is never brought back: from the
/// moment its last heartbeat is older than the window, every heartbeat is
/// refused and leaves the directory as it is, so that its server has to
/// register anew.
pub proof fn lemma_no_resurrection(s: Seq<Server>, window: i128, id: ServerId, stale_at: Timestamp, now: Timestamp)
    requires
        has_server(s, id),
        !s[server_index(s, id)].spec_is_active(stale_at, window),
        stale_at <= now,
    ensures
        heartbeat_answer(s, window, id, now) == Err::<Server, SessionError>(SessionError::UnknownServer),
        heartbeaten(s, window, id, now) == s,
{
}

/// A heartbeat in time keeps a server listed: once accepted at `now`, the
/// advertisement is alive at every moment up to one window later.
pub proof fn lemma_heartbeat_keeps_alive(s: Seq<Server>, window: i128, id: ServerId, now: Timestamp, at: Timestamp)
    requires
        accepts_heartbeat(s, window, id, now),
        at - now <= window,
    ensures
        heartbeaten(s, window, id, now)[server_index(s, id)].spec_is_active(at, window),
{
    let i = server_index(s, id);
    assert(0 <= i < s.len() && s[i].id == id);
}

/// A registration leaves every advertisement as it is and adds one under
/// an id that none of them has.
pub proof fn lemma_register_is_fresh(
    s: Seq<Server>,
    candidate: ServerId,
    now: Timestamp,
    addr: IpAddress,
    port: u16,
    name: String,
)
    requires
        s.len() <= usize::MAX,
        distinct_servers(s),
    ensures
        registered(s, candidate, now, addr, port, name).len() == s.len() + 1,
        forall|k: int| 0 <= k < s.len() ==> registered(s, candidate, now, addr, port, name)[k] == s[k],
        !has_server(s, registered(s, candidate, now, addr, port, name).last().id),
        registered(s, candidate, now, addr, port, name).last().last_ping == now,
        distinct_servers(registered(s, candidate, now, addr, port, name)),
{
    lemma_fresh_id_is_fresh(s, candidate);
    let t = registered(s, candidate, now, addr, port, name);
    assert forall|i: int, j: int| 0 <= i < j < t.len() implies (#[trigger] t[i]).id != (#[trigger] t[j]).id by {
        if j == s.len() {
            assert(s[i].id != t[j].id);
        } else {
            assert(s[i].id != s[j].id);
        }
    }
}

/// A directory that has just started knows no id: every heartbeat is
/// refused, and the registration that follows gets an id of its own.
pub proof fn lemma_restart_forgets(id: ServerId, candidate: ServerId, window: i128, now: Timestamp)
    ensures
        !has_server(Seq::<Server>::empty(), id),
        heartbeat_answer(Seq::<Server>::empty(), window, id, now) == Err::<Server, SessionError>(
            SessionError::UnknownServer,
        ),
        heartbeaten(Seq::<Server>::empty(), window, id, now) == Seq::<Server>::empty(),
        fresh_id(Seq::<Server>::empty(), candidate) == candidate,
{
    lemma_fresh_id_is_fresh(Seq::<Server>::empty(), candidate);
}

/// An advertisement that is not heard of again drops out of the listing
/// once the window has passed, and its id is still known to the directory.
pub proof fn lemma_stale_is_not_listed(s: Seq<Server>, now: Timestamp, window: i128, listing: Seq<Server>, k: int)
    requires
        is_listing(s, now, window, listing),
        0 <= k < s.len(),
        now - s[k].last_ping > window,
    ensures
        !listing.contains(s[k]),
        has_server(s, s[k].id),
{
    lemma_listing_is_exact(s, now, window, listing);
}

} // verus!
