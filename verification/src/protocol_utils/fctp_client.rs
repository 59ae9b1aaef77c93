//! The clients of a server.

use vstd::prelude::*;
use vstd::utf8::encode_utf8;
use crate::crypt::keys::{zero_key, Key, PublicKey};
use crate::identity::{hyphenated, lemma_id_text, Uuid, ID_LENGTH};
use crate::protocol_utils::fctp::{is_nick_char, is_nickname, MAX_NICK_LENGTH};
use crate::text::{is_white_space, no_white_space, texts};

verus! {

/// The packets that a new client may send before its packets are counted.
pub const FREE_PACKETS: u32 = 5;

/// The packets that a new client may send at once after that.
pub const FIRST_BURST: u32 = 2;

/// How long a client that has sent its burst has to wait, in nanoseconds.
pub const RATE_LIMIT_INTERVAL: u128 = 500_000_000;

/// What the server knows of a client. Times are nanoseconds on the clock of the server.
pub struct ClientInfo {
    pub conn_session_key: Key,
    pub conn_e2ee_public: PublicKey,
    pub ext_connected_at: u128,
    pub ext_session_username: String,
    pub ext_rate_limit_last_packet: u128,
    pub ext_rate_limit_ignore_packet_count: u32,
    pub ext_rate_limit_burst_count: u32,
}

/// What the server knows of a client, as plain values.
#[verifier::ext_equal]
pub struct ClientView {
    pub session_key: Seq<u8>,
    pub e2ee_public: Seq<u8>,
    pub connected_at: nat,
    pub username: Seq<char>,
    pub last_packet: nat,
    pub free_packets: nat,
    pub burst: nat,
}

impl View for ClientInfo {
    type V = ClientView;

    open spec fn view(&self) -> ClientView {
        ClientView {
            session_key: self.conn_session_key@,
            e2ee_public: self.conn_e2ee_public@,
            connected_at: self.ext_connected_at as nat,
            username: self.ext_session_username@,
            last_packet: self.ext_rate_limit_last_packet as nat,
            free_packets: self.ext_rate_limit_ignore_packet_count as nat,
            burst: self.ext_rate_limit_burst_count as nat,
        }
    }
}

/// A client that has just connected: no session key, no public key, and its identifier as its name.
pub open spec fn fresh_client(id: Seq<char>, now: nat) -> ClientView {
    ClientView {
        session_key: zero_key(),
        e2ee_public: zero_key(),
        connected_at: now,
        username: id,
        last_packet: now,
        free_packets: FREE_PACKETS as nat,
        burst: FIRST_BURST as nat,
    }
}

/// The time between two moments; none if the second comes before the first.
pub open spec fn elapsed(from: nat, now: nat) -> nat {
    if now >= from {
        (now - from) as nat
    } else {
        0
    }
}

/// Whether the next packet of a client is admitted.
pub open spec fn admitted(c: ClientView, now: nat) -> bool {
    c.free_packets > 0 || c.burst > 0 || elapsed(c.last_packet, now) >= RATE_LIMIT_INTERVAL
}

/// A client after its next packet. A packet that is not admitted changes nothing.
pub open spec fn after_packet(c: ClientView, now: nat) -> ClientView {
    if c.free_packets > 0 {
        ClientView { free_packets: (c.free_packets - 1) as nat, ..c }
    } else if c.burst > 0 {
        ClientView { burst: (c.burst - 1) as nat, ..c }
    } else if elapsed(c.last_packet, now) >= RATE_LIMIT_INTERVAL {
        ClientView { last_packet: now, burst: 1, ..c }
    } else {
        c
    }
}

impl ClientInfo {
    /// A client that has just connected.
    pub fn new(id: &str, now: u128) -> (r: ClientInfo)
        ensures
            r@ == fresh_client(id@, now as nat),
    {
        let r = ClientInfo {
            conn_session_key: Key::default(),
            conn_e2ee_public: PublicKey { bytes: [0u8;32] },
            ext_connected_at: now,
            ext_session_username: id.to_owned(),
            ext_rate_limit_last_packet: now,
            ext_rate_limit_ignore_packet_count: FREE_PACKETS,
            ext_rate_limit_burst_count: FIRST_BURST,
        };
        assert(r.conn_e2ee_public@ == zero_key());
        r
    }

    /// Counts a packet and says whether it is admitted.
    pub fn admit_packet(&mut self, now: u128) -> (r: bool)
        ensures
            r == admitted(old(self)@, now as nat),
            final(self)@ == after_packet(old(self)@, now as nat),
    {
        let waited: u128 = if now >= self.ext_rate_limit_last_packet {
            now - self.ext_rate_limit_last_packet
        } else {
            0
        };
        if self.ext_rate_limit_ignore_packet_count > 0 {
            self.ext_rate_limit_ignore_packet_count = self.ext_rate_limit_ignore_packet_count - 1;
            true
        } else if self.ext_rate_limit_burst_count > 0 {
            self.ext_rate_limit_burst_count = self.ext_rate_limit_burst_count - 1;
            true
        } else if waited >= RATE_LIMIT_INTERVAL {
            self.ext_rate_limit_last_packet = now;
            self.ext_rate_limit_burst_count = 1;
            true
        } else {
            false
        }
    }
}

/// A client after packets at some times.
pub open spec fn after_packets(c: ClientView, times: Seq<nat>) -> ClientView
    decreases times.len(),
{
    if times.len() == 0 {
        c
    } else {
        after_packet(after_packets(c, times.drop_last()), times.last())
    }
}

/// How many of the packets at some times are admitted.
pub open spec fn count_admitted(c: ClientView, times: Seq<nat>) -> nat
    decreases times.len(),
{
    if times.len() == 0 {
        0
    } else {
        count_admitted(c, times.drop_last()) + if admitted(
            after_packets(c, times.drop_last()),
            times.last(),
        ) {
            1nat
        } else {
            0nat
        }
    }
}

/// The admitted packets are at most those that are free, those of the burst, and two for each
/// interval that has passed since the last packet that was timed.
pub proof fn law_rate_limit(c: ClientView, times: Seq<nat>, until: nat)
    requires
        c.last_packet <= until,
        forall|i: int| 0 <= i < times.len() ==> #[trigger] times[i] <= until,
    ensures
        count_admitted(c, times) <= c.free_packets + c.burst + 2 * ((until - c.last_packet)
            / RATE_LIMIT_INTERVAL as int),
{
    lemma_rate_limit(c, times, until);
    let d = after_packets(c, times);
    assert((d.last_packet - c.last_packet) / RATE_LIMIT_INTERVAL as int <= (until - c.last_packet)
        / RATE_LIMIT_INTERVAL as int) by (nonlinear_arith)
        requires
            d.last_packet - c.last_packet <= until - c.last_packet,
            RATE_LIMIT_INTERVAL == 500_000_000,
    ;
}

/// Every admitted packet uses up one of the credits that the client has or gets.
proof fn lemma_rate_limit(c: ClientView, times: Seq<nat>, until: nat)
    requires
        c.last_packet <= until,
        forall|i: int| 0 <= i < times.len() ==> #[trigger] times[i] <= until,
    ensures
        ({
            let d = after_packets(c, times);
            &&& c.last_packet <= d.last_packet <= until
            &&& count_admitted(c, times) + d.free_packets + d.burst <= c.free_packets + c.burst + 2
                * ((d.last_packet - c.last_packet) / RATE_LIMIT_INTERVAL as int)
        }),
    decreases times.len(),
{
    if times.len() > 0 {
        let before = times.drop_last();
        lemma_rate_limit(c, before, until);
        let d = after_packets(c, before);
        let e = after_packets(c, times);
        let now = times.last();
        assert(now <= until);
        if e.last_packet != d.last_packet {
            assert((e.last_packet - c.last_packet) / RATE_LIMIT_INTERVAL as int >= 1 + (
            d.last_packet - c.last_packet) / RATE_LIMIT_INTERVAL as int) by (nonlinear_arith)
                requires
                    e.last_packet - d.last_packet >= RATE_LIMIT_INTERVAL,
                    RATE_LIMIT_INTERVAL == 500_000_000,
            ;
        }
    }
}

/// The clients of a server by their identifiers.
pub type Registry = Map<Seq<char>, ClientView>;

/// Whether a client with an identifier goes by a name.
pub open spec fn goes_by(m: Registry, id: Seq<char>, nick: Seq<char>) -> bool {
    m.dom().contains(id) && m[id].username == nick
}

/// Whether some client goes by a name.
pub open spec fn nick_in_use(m: Registry, nick: Seq<char>) -> bool {
    exists|id: Seq<char>| goes_by(m, id, nick)
}

/// The client that goes by a name.
pub open spec fn holder(m: Registry, nick: Seq<char>) -> Seq<char> {
    choose|id: Seq<char>| goes_by(m, id, nick)
}

/// Whether a name is taken, as far as a client is concerned that may go by it already.
pub open spec fn nick_taken(m: Registry, nick: Seq<char>, current_id: Seq<char>) -> bool {
    exists|id: Seq<char>| id != current_id && goes_by(m, id, nick)
}

/// What always holds of the clients: each goes by its identifier or by a nickname, no two go by the
/// same name, and identifiers are longer than any nickname and hold no white space.
pub open spec fn registry_ok(m: Registry) -> bool {
    &&& m.dom().finite()
    &&& forall|id: Seq<char>| #[trigger]
        m.dom().contains(id) ==> id.len() == ID_LENGTH && no_white_space(id)
    &&& forall|id: Seq<char>| #[trigger]
        m.dom().contains(id) ==> m[id].username == id || is_nickname(m[id].username)
    &&& forall|a: Seq<char>, b: Seq<char>, nick: Seq<char>|
        goes_by(m, a, nick) && goes_by(m, b, nick) ==> a == b
}

/// UTF-8 takes at least one byte for each character.
pub proof fn lemma_utf8_len(s: Seq<char>)
    ensures
        encode_utf8(s).len() >= s.len(),
    decreases s.len(),
{
    if s.len() > 0 {
        lemma_utf8_len(s.drop_first());
    }
}

/// A nickname is shorter than an identifier and holds no white space.
pub proof fn lemma_nickname(nick: Seq<char>)
    requires
        is_nickname(nick),
    ensures
        nick.len() <= MAX_NICK_LENGTH,
        no_white_space(nick),
{
    lemma_utf8_len(nick);
    assert forall|i: int| 0 <= i < nick.len() implies !is_white_space(#[trigger] nick[i]) by {
        assert(is_nick_char(nick[i]));
    }
}

/// Only one client goes by a name, so the holder of a name is that client.
pub proof fn law_one_holder(m: Registry, id: Seq<char>, nick: Seq<char>)
    requires
        registry_ok(m),
        goes_by(m, id, nick),
    ensures
        nick_in_use(m, nick),
        holder(m, nick) == id,
{
    assert(goes_by(m, holder(m, nick), nick));
}

/// A client whose keys and counters change keeps its name, and all stays well.
pub proof fn lemma_registry_update(m: Registry, id: Seq<char>, c: ClientView)
    requires
        registry_ok(m),
        m.dom().contains(id),
        c.username == m[id].username,
    ensures
        registry_ok(m.insert(id, c)),
{
    let n = m.insert(id, c);
    assert(n.dom() == m.dom());
    assert forall|a: Seq<char>, b: Seq<char>, nick: Seq<char>|
        goes_by(n, a, nick) && goes_by(n, b, nick) implies a == b by {
        assert(goes_by(m, a, nick) && goes_by(m, b, nick));
    }
}

/// A client may take a nickname that nobody else goes by.
pub proof fn lemma_registry_rename(m: Registry, id: Seq<char>, nick: Seq<char>)
    requires
        registry_ok(m),
        m.dom().contains(id),
        is_nickname(nick),
        !nick_taken(m, nick, id),
    ensures
        registry_ok(m.insert(id, ClientView { username: nick, ..m[id] })),
{
    let n = m.insert(id, ClientView { username: nick, ..m[id] });
    assert(n.dom() == m.dom());
    assert forall|a: Seq<char>, b: Seq<char>, name: Seq<char>|
        goes_by(n, a, name) && goes_by(n, b, name) implies a == b by {
        if a != id && b != id {
            assert(goes_by(m, a, name) && goes_by(m, b, name));
        } else if a != id {
            assert(goes_by(m, a, nick));
        } else if b != id {
            assert(goes_by(m, b, nick));
        }
    }
}

/// A client that connects goes by a name that nobody else has.
pub proof fn lemma_registry_connect(m: Registry, id: Seq<char>, now: nat)
    requires
        registry_ok(m),
        id.len() == ID_LENGTH,
        no_white_space(id),
    ensures
        registry_ok(m.insert(id, fresh_client(id, now))),
{
    let n = m.insert(id, fresh_client(id, now));
    assert(n.dom() == m.dom().insert(id));
    assert forall|a: Seq<char>, b: Seq<char>, name: Seq<char>|
        goes_by(n, a, name) && goes_by(n, b, name) implies a == b by {
        if a != id && b != id {
            assert(goes_by(m, a, name) && goes_by(m, b, name));
        } else if a != id {
            if is_nickname(m[a].username) {
                lemma_nickname(m[a].username);
            }
        } else if b != id {
            if is_nickname(m[b].username) {
                lemma_nickname(m[b].username);
            }
        }
    }
}

/// All stays well when a client leaves.
pub proof fn lemma_registry_remove(m: Registry, id: Seq<char>)
    requires
        registry_ok(m),
    ensures
        registry_ok(m.remove(id)),
{
    let n = m.remove(id);
    assert(n.dom() == m.dom().remove(id));
    assert forall|a: Seq<char>, b: Seq<char>, name: Seq<char>|
        goes_by(n, a, name) && goes_by(n, b, name) implies a == b by {
        assert(goes_by(m, a, name) && goes_by(m, b, name));
    }
}

/// A client under its identifier.
struct Entry {
    id: String,
    info: ClientInfo,
}

/// The clients of a server.
pub struct Clients {
    entries: Vec<Entry>,
}

/// The registry that a sequence of entries stands for.
spec fn registry_of(s: Seq<Entry>) -> Registry
    decreases s.len(),
{
    if s.len() == 0 {
        Map::empty()
    } else {
        registry_of(s.drop_last()).insert(s.last().id@, s.last().info@)
    }
}

/// Whether no two entries have the same identifier.
spec fn distinct_ids(s: Seq<Entry>) -> bool {
    forall|i: int, j: int| 0 <= i < j < s.len() ==> #[trigger] s[i].id@ != #[trigger] s[j].id@
}

/// An entry is found in the registry under its identifier, and nothing else is.
proof fn lemma_registry_of(s: Seq<Entry>)
    requires
        distinct_ids(s),
    ensures
        registry_of(s).dom().finite(),
        forall|i: int|
            0 <= i < s.len() ==> registry_of(s).dom().contains(#[trigger] s[i].id@)
                && registry_of(s)[s[i].id@] == s[i].info@,
        forall|id: Seq<char>| #[trigger]
            registry_of(s).dom().contains(id) ==> exists|i: int|
                0 <= i < s.len() && #[trigger] s[i].id@ == id,
    decreases s.len(),
{
    if s.len() > 0 {
        let t = s.drop_last();
        lemma_registry_of(t);
        assert forall|i: int| 0 <= i < s.len() implies registry_of(s).dom().contains(
            #[trigger] s[i].id@,
        ) && registry_of(s)[s[i].id@] == s[i].info@ by {
            if i < t.len() {
                assert(t[i].id@ == s[i].id@);
                assert(s[i].id@ != s[s.len() - 1].id@);
            }
        }
        assert forall|id: Seq<char>| #[trigger] registry_of(s).dom().contains(id) implies exists|
            i: int,
        |
            0 <= i < s.len() && #[trigger] s[i].id@ == id by {
            if id == s.last().id@ {
                assert(s[s.len() - 1].id@ == id);
            } else {
                let i = choose|i: int| 0 <= i < t.len() && #[trigger] t[i].id@ == id;
                assert(s[i].id@ == id);
            }
        }
    }
}

/// Replacing an entry by another one of the same client replaces that client in the registry.
proof fn lemma_registry_of_update(s: Seq<Entry>, t: Seq<Entry>, k: int)
    requires
        distinct_ids(s),
        0 <= k < s.len(),
        t =~= s.update(k, t[k]),
        t[k].id@ == s[k].id@,
    ensures
        distinct_ids(t),
        registry_of(t) == registry_of(s).insert(t[k].id@, t[k].info@),
{
    let e = t[k];
    assert forall|i: int, j: int| 0 <= i < j < t.len() implies #[trigger] t[i].id@
        != #[trigger] t[j].id@ by {
        assert(t[i].id@ == s[i].id@ && t[j].id@ == s[j].id@);
    }
    lemma_registry_of(s);
    lemma_registry_of(t);
    let m = registry_of(s).insert(e.id@, e.info@);
    let n = registry_of(t);
    assert forall|id: Seq<char>| #[trigger] m.dom().contains(id) implies n.dom().contains(id) && n[id]
        == m[id] by {
        if id == e.id@ {
            assert(t[k].id@ == id);
        } else {
            let i = choose|i: int| 0 <= i < s.len() && #[trigger] s[i].id@ == id;
            assert(t[i].id@ == id && t[i] == s[i]);
        }
    }
    assert forall|id: Seq<char>| #[trigger] n.dom().contains(id) implies m.dom().contains(id) by {
        let i = choose|i: int| 0 <= i < t.len() && #[trigger] t[i].id@ == id;
        assert(s[i].id@ == id);
    }
    assert(n.dom() =~= m.dom());
    assert(n =~= m);
}

/// Changing a client without its name changes it in the registry, and all stays well.
proof fn lemma_client_changed(s: Seq<Entry>, t: Seq<Entry>, k: int)
    requires
        distinct_ids(s),
        registry_ok(registry_of(s)),
        0 <= k < s.len(),
        t =~= s.update(k, t[k]),
        t[k].id@ == s[k].id@,
        t[k].info@.username == s[k].info@.username,
    ensures
        distinct_ids(t),
        registry_of(t) == registry_of(s).insert(t[k].id@, t[k].info@),
        registry_ok(registry_of(t)),
{
    lemma_registry_of(s);
    lemma_registry_of_update(s, t, k);
    assert(registry_of(s).dom().contains(s[k].id@));
    lemma_registry_update(registry_of(s), t[k].id@, t[k].info@);
}

/// Taking an entry out takes its client out of the registry.
proof fn lemma_registry_of_remove(s: Seq<Entry>, k: int)
    requires
        distinct_ids(s),
        0 <= k < s.len(),
    ensures
        distinct_ids(s.remove(k)),
        registry_of(s.remove(k)) == registry_of(s).remove(s[k].id@),
{
    let t = s.remove(k);
    assert forall|i: int| 0 <= i < t.len() implies #[trigger] t[i] == s[if i < k {
        i
    } else {
        i + 1
    }] by {}
    assert forall|i: int, j: int| 0 <= i < j < t.len() implies #[trigger] t[i].id@
        != #[trigger] t[j].id@ by {
        let a = if i < k {
            i
        } else {
            i + 1
        };
        let b = if j < k {
            j
        } else {
            j + 1
        };
        assert(s[a].id@ != s[b].id@);
    }
    lemma_registry_of(s);
    lemma_registry_of(t);
    let m = registry_of(s).remove(s[k].id@);
    let n = registry_of(t);
    assert forall|id: Seq<char>| #[trigger] m.dom().contains(id) implies n.dom().contains(id) && n[id]
        == m[id] by {
        let i = choose|i: int| 0 <= i < s.len() && #[trigger] s[i].id@ == id;
        let a = if i < k {
            i
        } else {
            i - 1
        };
        assert(t[a] == s[i]);
        assert(t[a].id@ == id);
    }
    assert forall|id: Seq<char>| #[trigger] n.dom().contains(id) implies m.dom().contains(id) by {
        let i = choose|i: int| 0 <= i < t.len() && #[trigger] t[i].id@ == id;
        let a = if i < k {
            i
        } else {
            i + 1
        };
        assert(s[a].id@ == id);
        assert(s[a].id@ != s[k].id@);
    }
    assert(n.dom() =~= m.dom());
    assert(n =~= m);
}

impl View for Clients {
    type V = Registry;

    closed spec fn view(&self) -> Registry {
        registry_of(self.entries@)
    }
}

impl Clients {
    /// What always holds of the clients of a server.
    pub closed spec fn wf(&self) -> bool {
        distinct_ids(self.entries@) && registry_ok(self@)
    }

    /// Whatever was done with the clients of a server, they are as `registry_ok` says.
    pub proof fn law_registry_ok(&self)
        requires
            self.wf(),
        ensures
            registry_ok(self@),
    {
    }

    /// No clients.
    pub fn new() -> (r: Clients)
        ensures
            r.wf(),
            r@ == Map::<Seq<char>, ClientView>::empty(),
    {
        Clients { entries: Vec::new() }
    }

    /// The place of a client, if it is connected.
    fn position(&self, id: &str) -> (r: Option<usize>)
        requires
            self.wf(),
        ensures
            match r {
                Some(i) => i < self.entries@.len() && self.entries@[i as int].id@ == id@
                    && self@.dom().contains(id@) && self@[id@] == self.entries@[i as int].info@,
                None => !self@.dom().contains(id@),
            },
    {
        let key = id.to_owned();
        proof {
            lemma_registry_of(self.entries@);
        }
        for i in 0..self.entries.len()
            invariant
                key@ == id@,
                forall|j: int| 0 <= j < i ==> #[trigger] self.entries@[j].id@ != id@,
                forall|j: int|
                    0 <= j < self.entries@.len() ==> self@.dom().contains(
                        #[trigger] self.entries@[j].id@,
                    ) && self@[self.entries@[j].id@] == self.entries@[j].info@,
        {
            if self.entries[i].id == key {
                return Some(i);
            }
        }
        None
    }

    /// The client with an identifier, if it is connected.
    pub fn get(&self, id: &str) -> (r: Option<&ClientInfo>)
        requires
            self.wf(),
        ensures
            match r {
                Some(c) => self@.dom().contains(id@) && c@ == self@[id@],
                None => !self@.dom().contains(id@),
            },
    {
        match self.position(id) {
            Some(i) => Some(&self.entries[i].info),
            None => None,
        }
    }

    /// Whether a client is connected.
    pub fn contains(&self, id: &str) -> (r: bool)
        requires
            self.wf(),
        ensures
            r == self@.dom().contains(id@),
    {
        self.position(id).is_some()
    }

    /// The identifiers of the clients, each once, in no order that is promised.
    pub fn ids(&self) -> (r: Vec<String>)
        requires
            self.wf(),
        ensures
            texts(r@).no_duplicates(),
            forall|id: Seq<char>| #[trigger] texts(r@).contains(id) <==> self@.dom().contains(id),
    {
        let mut r: Vec<String> = Vec::new();
        for i in 0..self.entries.len()
            invariant
                r@.len() == i,
                forall|j: int| 0 <= j < i ==> (#[trigger] r@[j])@ == self.entries@[j].id@,
        {
            r.push(self.entries[i].id.clone());
        }
        proof {
            let t = texts(r@);
            lemma_registry_of(self.entries@);
            assert forall|i: int, j: int| 0 <= i < t.len() && 0 <= j < t.len() && i != j implies t[i]
                != t[j] by {
                assert(t[i] == r@[i]@ && t[j] == r@[j]@);
                if i < j {
                    assert(self.entries@[i].id@ != self.entries@[j].id@);
                } else {
                    assert(self.entries@[j].id@ != self.entries@[i].id@);
                }
            }
            assert forall|id: Seq<char>| #[trigger] t.contains(id) <==> self@.dom().contains(
                id,
            ) by {
                if t.contains(id) {
                    let i = choose|i: int| 0 <= i < t.len() && t[i] == id;
                    assert(r@[i]@ == id);
                    assert(self@.dom().contains(self.entries@[i].id@));
                }
                if self@.dom().contains(id) {
                    let i = choose|i: int|
                        0 <= i < self.entries@.len() && #[trigger] self.entries@[i].id@ == id;
                    assert(r@[i]@ == id);
                    assert(t[i] == id);
                }
            }
        }
        r
    }

    /// Connects a client under an identifier and returns the text of the identifier.
    pub fn connect(&mut self, id: &Uuid, now: u128) -> (r: String)
        requires
            old(self).wf(),
        ensures
            final(self).wf(),
            r@ == hyphenated(id@),
            final(self)@ == old(self)@.insert(r@, fresh_client(r@, now as nat)),
    {
        let name = id.to_text();
        let info = ClientInfo::new(name.as_str(), now);
        let ghost before = self.entries@;
        proof {
            lemma_id_text(*id);
            lemma_registry_connect(self@, name@, now as nat);
        }
        match self.position(name.as_str()) {
            Some(i) => {
                self.entries[i].info = info;
                proof {
                    lemma_registry_of_update(before, self.entries@, i as int);
                }
            },
            None => {
                let entry = Entry { id: name.clone(), info };
                self.entries.push(entry);
                proof {
                    lemma_registry_of(before);
                    assert(self.entries@.drop_last() == before);
                    assert(distinct_ids(self.entries@)) by {
                        let s = self.entries@;
                        assert forall|i: int, j: int| 0 <= i < j < s.len() implies #[trigger] s[i].id@
                            != #[trigger] s[j].id@ by {
                            assert(s[i] == before[i]);
                            if j == before.len() {
                                assert(registry_of(before).dom().contains(before[i].id@));
                            } else {
                                assert(s[j] == before[j]);
                            }
                        }
                    }
                }
            },
        }
        name
    }

    /// Disconnects a client and says whether it was connected.
    pub fn remove(&mut self, id: &str) -> (r: bool)
        requires
            old(self).wf(),
        ensures
            final(self).wf(),
            r == old(self)@.dom().contains(id@),
            final(self)@ == old(self)@.remove(id@),
    {
        let ghost before = self.entries@;
        proof {
            lemma_registry_remove(self@, id@);
        }
        match self.position(id) {
            Some(i) => {
                self.entries.remove(i);
                proof {
                    lemma_registry_of_remove(before, i as int);
                }
                true
            },
            None => {
                assert(self@.remove(id@) =~= self@);
                false
            },
        }
    }

    /// The client that goes by a name, with its public key.
    pub fn find_client_by_nick(&self, nick: &str) -> (r: Option<(String, PublicKey)>)
        requires
            self.wf(),
        ensures
            match r {
                Some((id, key)) => goes_by(self@, id@, nick@) && id@ == holder(self@, nick@) && key@
                    == self@[id@].e2ee_public,
                None => !nick_in_use(self@, nick@),
            },
    {
        let name = nick.to_owned();
        proof {
            lemma_registry_of(self.entries@);
        }
        for i in 0..self.entries.len()
            invariant
                self.wf(),
                name@ == nick@,
                forall|j: int|
                    0 <= j < i ==> (#[trigger] self.entries@[j]).info@.username != nick@,
                forall|j: int|
                    0 <= j < self.entries@.len() ==> self@.dom().contains(
                        #[trigger] self.entries@[j].id@,
                    ) && self@[self.entries@[j].id@] == self.entries@[j].info@,
        {
            if self.entries[i].info.ext_session_username == name {
                proof {
                    assert(self@.dom().contains(self.entries@[i as int].id@));
                    law_one_holder(self@, self.entries@[i as int].id@, nick@);
                }
                return Some((self.entries[i].id.clone(), self.entries[i].info.conn_e2ee_public));
            }
        }
        proof {
            assert forall|id: Seq<char>| !goes_by(self@, id, nick@) by {
                if self@.dom().contains(id) {
                    let i = choose|i: int|
                        0 <= i < self.entries@.len() && #[trigger] self.entries@[i].id@ == id;
                    assert(self.entries@[i].info@.username != nick@);
                }
            }
        }
        None
    }

    /// Whether another client goes by a name.
    pub fn is_nick_taken(&self, nick: &str, current_id: &str) -> (r: bool)
        requires
            self.wf(),
        ensures
            r == nick_taken(self@, nick@, current_id@),
    {
        match self.find_client_by_nick(nick) {
            Some((id, _)) => {
                let current = current_id.to_owned();
                proof {
                    assert forall|other: Seq<char>|
                        other != current_id@ && goes_by(self@, other, nick@) implies id@
                        != current_id@ by {
                        law_one_holder(self@, other, nick@);
                    }
                }
                id != current
            },
            None => false,
        }
    }

    /// The session key of a client; the default key if the client is not connected.
    pub fn session_key(&self, id: &str) -> (r: Key)
        requires
            self.wf(),
        ensures
            r@ == (if self@.dom().contains(id@) {
                self@[id@].session_key
            } else {
                zero_key()
            }),
    {
        match self.get(id) {
            Some(c) => c.conn_session_key,
            None => Key::default(),
        }
    }

    /// Sets the session key of a client and says whether it is connected.
    pub fn set_session_key(&mut self, id: &str, key: Key) -> (r: bool)
        requires
            old(self).wf(),
        ensures
            final(self).wf(),
            r == old(self)@.dom().contains(id@),
            final(self)@ == (if old(self)@.dom().contains(id@) {
                old(self)@.insert(id@, ClientView { session_key: key@, ..old(self)@[id@] })
            } else {
                old(self)@
            }),
    {
        let ghost before = self.entries@;
        match self.position(id) {
            Some(i) => {
                self.entries[i].info.conn_session_key = key;
                proof {
                    lemma_client_changed(before, self.entries@, i as int);
                }
                true
            },
            None => false,
        }
    }

    /// Sets the public key of a client and says whether it is connected.
    pub fn set_e2ee_public(&mut self, id: &str, key: PublicKey) -> (r: bool)
        requires
            old(self).wf(),
        ensures
            final(self).wf(),
            r == old(self)@.dom().contains(id@),
            final(self)@ == (if old(self)@.dom().contains(id@) {
                old(self)@.insert(id@, ClientView { e2ee_public: key@, ..old(self)@[id@] })
            } else {
                old(self)@
            }),
    {
        let ghost before = self.entries@;
        match self.position(id) {
            Some(i) => {
                self.entries[i].info.conn_e2ee_public = key;
                proof {
                    lemma_client_changed(before, self.entries@, i as int);
                }
                true
            },
            None => false,
        }
    }

    /// Lets a client go by a nickname that nobody else goes by, and says whether it is connected.
    pub fn set_username(&mut self, id: &str, nick: &str) -> (r: bool)
        requires
            old(self).wf(),
            is_nickname(nick@),
            !nick_taken(old(self)@, nick@, id@),
        ensures
            final(self).wf(),
            r == old(self)@.dom().contains(id@),
            final(self)@ == (if old(self)@.dom().contains(id@) {
                old(self)@.insert(id@, ClientView { username: nick@, ..old(self)@[id@] })
            } else {
                old(self)@
            }),
    {
        let ghost before = self.entries@;
        match self.position(id) {
            Some(i) => {
                proof {
                    lemma_registry_rename(self@, id@, nick@);
                }
                self.entries[i].info.ext_session_username = nick.to_owned();
                proof {
                    lemma_registry_of_update(before, self.entries@, i as int);
                }
                true
            },
            None => false,
        }
    }

    /// Counts a packet of a client and says whether it is admitted; nothing is said of a client
    /// that is not connected.
    pub fn admit_packet(&mut self, id: &str, now: u128) -> (r: Option<bool>)
        requires
            old(self).wf(),
        ensures
            final(self).wf(),
            match r {
                Some(b) => old(self)@.dom().contains(id@) && b == admitted(
                    old(self)@[id@],
                    now as nat,
                ) && final(self)@ == old(self)@.insert(
                    id@,
                    after_packet(old(self)@[id@], now as nat),
                ),
                None => !old(self)@.dom().contains(id@) && final(self)@ == old(self)@,
            },
    {
        let ghost before = self.entries@;
        match self.position(id) {
            Some(i) => {
                let b = self.entries[i].info.admit_packet(now);
                proof {
                    lemma_client_changed(before, self.entries@, i as int);
                }
                Some(b)
            },
            None => None,
        }
    }
}

/// What the server knows of a client is what its record holds.
pub proof fn law_client_fields(c: ClientInfo)
    ensures
        c@.session_key == c.conn_session_key.bytes@,
        c@.e2ee_public == c.conn_e2ee_public.bytes@,
        c@.connected_at == c.ext_connected_at,
        c@.username == c.ext_session_username@,
        c@.last_packet == c.ext_rate_limit_last_packet,
        c@.free_packets == c.ext_rate_limit_ignore_packet_count,
        c@.burst == c.ext_rate_limit_burst_count,
{
}

/// A client that has just connected has no keys, goes by its identifier, and may send five packets and
/// a burst of two.
pub proof fn law_fresh_client(id: Seq<char>, now: nat)
    ensures
        ({
            let c = fresh_client(id, now);
            &&& c.session_key.len() == 32 && c.e2ee_public.len() == 32
            &&& forall|i: int| 0 <= i < 32 ==> #[trigger] c.session_key[i] == 0
            &&& forall|i: int| 0 <= i < 32 ==> #[trigger] c.e2ee_public[i] == 0
            &&& c.username == id
            &&& c.connected_at == now && c.last_packet == now
            &&& c.free_packets == 5 && c.burst == 2
        }),
{
}

/// A packet is admitted exactly where the client has a free packet, has a part of its burst, or half a
/// second has passed since its last packet that was timed.
pub proof fn law_admitted(c: ClientView, now: nat)
    ensures
        admitted(c, now) <==> c.free_packets > 0 || c.burst > 0 || now >= c.last_packet + 500_000_000,
{
}

/// A packet costs a free packet, then a part of the burst; one that is admitted for the time that has
/// passed is timed and leaves one more to send at once; one that is refused costs nothing. The name
/// and the keys of the client stay as they are.
pub proof fn law_after_packet(c: ClientView, now: nat)
    ensures
        ({
            let d = after_packet(c, now);
            &&& d.session_key == c.session_key && d.e2ee_public == c.e2ee_public
            &&& d.username == c.username && d.connected_at == c.connected_at
            &&& c.free_packets > 0 ==> d.free_packets + 1 == c.free_packets && d.burst == c.burst
                && d.last_packet == c.last_packet
            &&& c.free_packets == 0 && c.burst > 0 ==> d.free_packets == 0 && d.burst + 1 == c.burst
                && d.last_packet == c.last_packet
            &&& c.free_packets == 0 && c.burst == 0 && now >= c.last_packet + 500_000_000
                ==> d.free_packets == 0 && d.burst == 1 && d.last_packet == now
            &&& c.free_packets == 0 && c.burst == 0 && now < c.last_packet + 500_000_000 ==> d == c
        }),
{
}

/// As many packets as a client has credit for are admitted, whenever they come.
pub proof fn law_credit_is_admitted(c: ClientView, times: Seq<nat>)
    requires
        times.len() <= c.free_packets + c.burst,
    ensures
        count_admitted(c, times) == times.len(),
        ({
            let d = after_packets(c, times);
            d.free_packets + d.burst + times.len() == c.free_packets + c.burst && d.last_packet
                == c.last_packet
        }),
    decreases times.len(),
{
    if times.len() > 0 {
        law_credit_is_admitted(c, times.drop_last());
    }
}

/// A client without credit is not heard before the interval is over, however often it tries.
pub proof fn law_impatient_client_is_refused(c: ClientView, times: Seq<nat>)
    requires
        c.free_packets == 0,
        c.burst == 0,
        forall|i: int| 0 <= i < times.len() ==> #[trigger] times[i] < c.last_packet + 500_000_000,
    ensures
        count_admitted(c, times) == 0,
        after_packets(c, times) == c,
    decreases times.len(),
{
    if times.len() > 0 {
        assert(times[times.len() - 1] < c.last_packet + 500_000_000);
        law_impatient_client_is_refused(c, times.drop_last());
    }
}

/// A client without credit that has waited for the interval is heard twice, and then not again within
/// the next interval.
pub proof fn law_two_packets_each_interval(c: ClientView, first: nat, second: nat, third: nat)
    requires
        c.free_packets == 0,
        c.burst == 0,
        first >= c.last_packet + 500_000_000,
        third < first + 500_000_000,
    ensures
        admitted(c, first),
        admitted(after_packet(c, first), second),
        !admitted(after_packet(after_packet(c, first), second), third),
{
}

/// A name is in use where a connected client goes by it, and taken for a client where another one
/// does.
pub proof fn law_names(m: Registry, nick: Seq<char>, id: Seq<char>)
    ensures
        goes_by(m, id, nick) <==> m.dom().contains(id) && m[id].username == nick,
        nick_in_use(m, nick) <==> exists|other: Seq<char>| #[trigger]
            m.dom().contains(other) && m[other].username == nick,
        nick_taken(m, nick, id) <==> exists|other: Seq<char>| #[trigger]
            m.dom().contains(other) && other != id && m[other].username == nick,
{
    if exists|other: Seq<char>| #[trigger] m.dom().contains(other) && m[other].username == nick {
        let other = choose|other: Seq<char>| #[trigger]
            m.dom().contains(other) && m[other].username == nick;
        assert(goes_by(m, other, nick));
    }
    if exists|other: Seq<char>| #[trigger]
        m.dom().contains(other) && other != id && m[other].username == nick {
        let other = choose|other: Seq<char>| #[trigger]
            m.dom().contains(other) && other != id && m[other].username == nick;
        assert(goes_by(m, other, nick));
    }
    if nick_in_use(m, nick) {
        let other = choose|other: Seq<char>| goes_by(m, other, nick);
        assert(m.dom().contains(other));
    }
    if nick_taken(m, nick, id) {
        let other = choose|other: Seq<char>| other != id && goes_by(m, other, nick);
        assert(m.dom().contains(other));
    }
}

/// Of any two clients with the same name both are the same, every client goes by its identifier or by a
/// nickname, and no name is the identifier of another client.
pub proof fn law_names_are_unique(m: Registry, a: Seq<char>, b: Seq<char>)
    requires
        registry_ok(m),
        m.dom().contains(a),
        m.dom().contains(b),
    ensures
        m[a].username == m[b].username ==> a == b,
        m[a].username == a || is_nickname(m[a].username),
        m[a].username == b ==> a == b,
        a.len() == 36,
{
    assert(goes_by(m, a, m[a].username) && goes_by(m, b, m[b].username));
    if is_nickname(m[a].username) {
        lemma_nickname(m[a].username);
    }
}

/// The holder of a name is the client that goes by it.
pub proof fn law_holder(m: Registry, id: Seq<char>)
    requires
        registry_ok(m),
        m.dom().contains(id),
    ensures
        holder(m, m[id].username) == id,
{
    law_one_holder(m, id, m[id].username);
}

} // verus!
