//! The relay server's sessions: which client owns which display, the X11 connections
//! open on each display, and the grace period a session is kept after its client leaves.
//!
//! The table holds the decisions; binding ports, `xauth` and the channels to each X11
//! connection are the caller's work, done with what the table's operations return.

use std::collections::{HashMap, HashSet};

use vstd::prelude::*;

use crate::config::ServerDefaults;
use crate::error::Rx11Error;
use crate::text::spec_decimal;
use crate::types::{
    ascii_text, lemma_ascii_utf8_len, protocol_error, valid_bounded_text, ConnectionId,
    DisplayNumber, SessionId, MAX_SESSION_ID_LEN,
};

verus! {

broadcast use vstd::std_specs::hash::group_hash_axioms;

/// At most this many X11 connections may be open on one display.
pub const MAX_X11_CONNECTIONS_PER_DISPLAY: usize = ServerDefaults::MAX_X11_CONNECTIONS_PER_DISPLAY;

/// A relay session: an X11 display forwarded for one client.
#[derive(Debug)]
pub struct Session {
    pub id: SessionId,
    pub display: DisplayNumber,
    pub auth_name: String,
    pub auth_data: Vec<u8>,
    pub client_id: String,
}

pub struct SessionView {
    pub id: Seq<char>,
    pub display: u16,
    pub auth_name: Seq<char>,
    pub auth_data: Seq<u8>,
    pub client_id: Seq<char>,
}

impl View for Session {
    type V = SessionView;

    open spec fn view(&self) -> SessionView {
        SessionView {
            id: self.id@,
            display: self.display.0,
            auth_name: self.auth_name@,
            auth_data: self.auth_data@,
            client_id: self.client_id@,
        }
    }
}

fn copy_bytes(v: &Vec<u8>) -> (r: Vec<u8>)
    ensures
        r@ == v@,
{
    let r = v.clone();
    assert(r@ =~= v@);
    r
}

impl Session {
    /// A copy of the session.
    pub fn duplicate(&self) -> (s: Session)
        ensures
            s@ == self@,
    {
        Session {
            id: SessionId(self.id.to_string()),
            display: self.display,
            auth_name: self.auth_name.clone(),
            auth_data: copy_bytes(&self.auth_data),
            client_id: self.client_id.clone(),
        }
    }
}

/// A character of the hyphenated form of a UUID.
pub open spec fn is_uuid_char(c: char) -> bool {
    ('0' <= c && c <= '9') || ('a' <= c && c <= 'f') || c == '-'
}

/// A random version-4 UUID in its hyphenated form, from `uuid::Uuid::new_v4` and the
/// UUID's `Display`.
///
/// Trusted: `Display` writes the hyphenated form, 36 characters that are lowercase
/// hexadecimal digits or hyphens. Which UUID comes out is left open: it is random.
#[verifier::external_body]
fn new_uuid_string() -> (s: String)
    ensures
        s@.len() == 36,
        forall|i: int| 0 <= i < 36 ==> is_uuid_char(#[trigger] s@[i]),
{
    uuid::Uuid::new_v4().to_string()
}

/// A fresh, random session id: a version-4 UUID in its hyphenated form.
pub fn new_session_id() -> (id: SessionId)
    ensures
        id@.len() == 36,
        valid_bounded_text(id@, MAX_SESSION_ID_LEN as nat),
{
    let s = new_uuid_string();
    proof {
        assert(ascii_text(s@)) by {
            assert forall|i: int| 0 <= i < s@.len() implies (#[trigger] s@[i] as u32) < 128 by {
                assert(is_uuid_char(s@[i]));
            }
        }
        lemma_ascii_utf8_len(s@);
    }
    SessionId(s)
}

/// The message of the error for a display that already has a session.
pub open spec fn display_in_use_message(d: u16) -> Seq<char> {
    "Display :"@ + spec_decimal(d as nat) + " already in use"@
}

/// The message of the error for a session id that no session has.
pub open spec fn session_not_found_message(id: Seq<char>) -> Seq<char> {
    "Session "@ + id + " not found or expired"@
}

/// The message of the error for a display that has all the X11 connections it may have.
pub open spec fn too_many_connections_message(d: u16) -> Seq<char> {
    "Too many X11 connections for display :"@ + spec_decimal(d as nat) + " (max 64)"@
}

/// What a client's departure started: the grace period's ticket and the sessions that
/// entered it.
pub struct GraceRelease {
    pub ticket: u64,
    pub sessions: Vec<(u16, SessionId)>,
}

/// The error for a session requested before the server listens for X11 connections.
pub fn listener_missing_error() -> (e: Rx11Error)
    ensures
        e matches Rx11Error::Protocol(m) && m@ == "X11Listener not initialized"@,
{
    protocol_error("X11Listener not initialized")
}

fn display_error(prefix: &str, disp: DisplayNumber, reason: &str) -> (e: Rx11Error)
    ensures
        e matches Rx11Error::Protocol(m) && m@ == prefix@ + ":"@ + spec_decimal(disp.0 as nat) + ": "@
            + reason@,
{
    let mut m = prefix.to_owned();
    m.append(disp.to_string().as_str());
    m.append(": ");
    m.append(reason);
    Rx11Error::Protocol(m)
}

/// The error for a display whose X11 port could not be bound, with the reason.
pub fn bind_failed_error(disp: DisplayNumber, reason: &str) -> (e: Rx11Error)
    ensures
        e matches Rx11Error::Protocol(m) && m@ == "Failed to bind X11 port for display :"@ + spec_decimal(
            disp.0 as nat,
        ) + ": "@ + reason@,
{
    let e = display_error("Failed to bind X11 port for display ", disp, reason);
    proof {
        reveal_strlit("Failed to bind X11 port for display ");
        reveal_strlit("Failed to bind X11 port for display :");
        reveal_strlit(":");
        assert("Failed to bind X11 port for display "@ + ":"@ =~= "Failed to bind X11 port for display :"@);
    }
    e
}

/// The error for a display whose `xauth` entry could not be added, with the reason.
pub fn xauth_failed_error(disp: DisplayNumber, reason: &str) -> (e: Rx11Error)
    ensures
        e matches Rx11Error::Protocol(m) && m@ == "xauth setup failed for display :"@ + spec_decimal(
            disp.0 as nat,
        ) + ": "@ + reason@,
{
    let e = display_error("xauth setup failed for display ", disp, reason);
    proof {
        reveal_strlit("xauth setup failed for display ");
        reveal_strlit("xauth setup failed for display :");
        reveal_strlit(":");
        assert("xauth setup failed for display "@ + ":"@ =~= "xauth setup failed for display :"@);
    }
    e
}

/// The port on which display `disp` listens for X11 connections: `base` + `disp`, where
/// that fits in a port number; else the reason it does not.
pub fn x11_port(base: u16, disp: u16) -> (r: Result<u16, String>)
    ensures
        base + disp <= u16::MAX ==> r == Ok::<u16, String>((base + disp) as u16),
        base + disp > u16::MAX ==> (r matches Err(m) && m@ == "X11 port overflow: base "@ + spec_decimal(
            base as nat,
        ) + " + display "@ + spec_decimal(disp as nat)),
{
    match base.checked_add(disp) {
        Some(p) => Ok(p),
        None => {
            let mut m = crate::text::prefixed_decimal("X11 port overflow: base ", base as u64);
            m.append(" + display ");
            m.append(crate::text::decimal_string(disp as u64).as_str());
            Err(m)
        },
    }
}

/// A fresh X11 connection id from the server's counter, which it advances: the counter's
/// low 32 bits, where they are not 0, else those of the next count.
pub fn next_connection_id(counter: &mut u64) -> (id: ConnectionId)
    ensures
        id.0 != 0,
        *old(counter) % 0x1_0000_0000 != 0 ==> id.0 == *old(counter) % 0x1_0000_0000 && *final(counter)
            == (if *old(counter) == u64::MAX { 0 } else { *old(counter) + 1 }),
        *old(counter) % 0x1_0000_0000 == 0 ==> id.0 == 1 && *final(counter) == *old(counter) + 2,
{
    let raw = *counter;
    *counter = counter.wrapping_add(1);
    let id = (raw % 0x1_0000_0000u64) as u32;
    if id != 0 {
        return ConnectionId::new(id);
    }
    let raw2 = *counter;
    *counter = counter.wrapping_add(1);
    let id2 = (raw2 % 0x1_0000_0000u64) as u32;
    ConnectionId::new(id2)
}

/// What the session table holds.
#[verifier::ext_equal]
pub struct TableView {
    /// The session on each display.
    pub sessions: Map<u16, SessionView>,
    /// The display of each open X11 connection.
    pub connections: Map<u32, u16>,
    /// The X11 connections counted against each display.
    pub display_conns: Map<u16, Set<u32>>,
    /// The grace period running for a display: the ticket of the release that started it.
    pub grace: Map<u16, u64>,
    /// Tickets of grace periods that were cancelled before they ran out.
    pub cancelled: Set<u64>,
}

/// Whether the session on display `d` belongs to `client`.
pub open spec fn owns(v: TableView, d: u16, client: Seq<char>) -> bool {
    v.sessions.contains_key(d) && v.sessions[d].client_id == client
}

/// Whether connection `c` is open on a display whose session belongs to `client`.
pub open spec fn owns_conn(v: TableView, c: u32, client: Seq<char>) -> bool {
    v.connections.contains_key(c) && owns(v, v.connections[c], client)
}

/// The X11 connections counted against display `d`.
pub open spec fn conns_of(v: TableView, d: u16) -> Set<u32> {
    if v.display_conns.contains_key(d) {
        v.display_conns[d]
    } else {
        Set::empty()
    }
}

/// The table after the grace period of display `d`, if one runs, is cancelled.
pub open spec fn cancel_grace(v: TableView, d: u16) -> TableView {
    if v.grace.contains_key(d) {
        TableView { grace: v.grace.remove(d), cancelled: v.cancelled.insert(v.grace[d]), ..v }
    } else {
        v
    }
}

/// The table with session `s` added on its display.
pub open spec fn spec_insert_session(v: TableView, s: SessionView) -> TableView {
    TableView { sessions: v.sessions.insert(s.display, s), ..v }
}

/// The table after the session on `d` is resumed by `client`: its grace period is
/// cancelled and the session passes to `client`, keeping its display, id and X11
/// connections.
pub open spec fn spec_resume(v: TableView, d: u16, client: Seq<char>) -> TableView {
    let w = cancel_grace(v, d);
    TableView {
        sessions: w.sessions.insert(d, SessionView { client_id: client, ..v.sessions[d] }),
        ..w
    }
}

/// Whether some session has the id `id`.
pub open spec fn has_session_id(v: TableView, id: Seq<char>) -> bool {
    exists|d: u16| #[trigger] v.sessions.contains_key(d) && v.sessions[d].id == id
}

/// The table after X11 connection `c` is opened on display `d`.
pub open spec fn spec_register(v: TableView, c: u32, d: u16) -> TableView {
    TableView {
        connections: v.connections.insert(c, d),
        display_conns: v.display_conns.insert(d, conns_of(v, d).insert(c)),
        ..v
    }
}

/// The table after X11 connection `c` is closed.
pub open spec fn spec_unregister(v: TableView, c: u32) -> TableView {
    if v.connections.contains_key(c) {
        let d = v.connections[c];
        TableView {
            connections: v.connections.remove(c),
            display_conns: if v.display_conns.contains_key(d) {
                v.display_conns.insert(d, v.display_conns[d].remove(c))
            } else {
                v.display_conns
            },
            ..v
        }
    } else {
        v
    }
}

/// The table after the session on `d` is destroyed: its grace period is cancelled, and
/// it loses its session and the X11 connections counted against it.
pub open spec fn spec_destroy(v: TableView, d: u16) -> TableView {
    let w = cancel_grace(v, d);
    TableView {
        sessions: w.sessions.remove(d),
        connections: w.connections.remove_keys(conns_of(w, d)),
        display_conns: w.display_conns.remove(d),
        ..w
    }
}

/// The displays whose sessions belong to `client`.
pub open spec fn owned_displays(v: TableView, client: Seq<char>) -> Set<u16> {
    Set::new(|d: u16| owns(v, d, client))
}

/// The tickets of the grace periods that run for the displays in `ds`.
pub open spec fn grace_tickets(v: TableView, ds: Set<u16>) -> Set<u64> {
    Set::new(|x: u64| exists|d: u16| #[trigger] ds.contains(d) && v.grace.contains_key(d) && v.grace[d] == x)
}

/// The grace periods after those of the displays in `ds` are replaced by one under ticket `t`.
pub open spec fn regrace(v: TableView, ds: Set<u16>, t: u64) -> Map<u16, u64> {
    Map::new(
        |d: u16| v.grace.contains_key(d) || ds.contains(d),
        |d: u16| if ds.contains(d) { t } else { v.grace[d] },
    )
}

/// The table after the client `client` leaves: each of its sessions enters a grace
/// period under ticket `t`, and any grace period already running for one of them is
/// cancelled. Ticket `t` itself is live.
pub open spec fn spec_release(v: TableView, client: Seq<char>, t: u64) -> TableView {
    let owned = owned_displays(v, client);
    TableView {
        grace: regrace(v, owned, t),
        cancelled: v.cancelled.union(grace_tickets(v, owned)).remove(t),
        ..v
    }
}

/// The displays whose sessions the grace period under ticket `t` destroys when it runs
/// out: none if it was cancelled, else those still belonging to `client`.
pub open spec fn expiry_targets(v: TableView, t: u64, client: Seq<char>) -> Set<u16> {
    if v.cancelled.contains(t) {
        Set::empty()
    } else {
        owned_displays(v, client)
    }
}

/// The table after the destruction of the sessions on `ds`, in order.
pub open spec fn spec_destroy_all(v: TableView, ds: Seq<u16>) -> TableView
    decreases ds.len(),
{
    if ds.len() == 0 {
        v
    } else {
        spec_destroy(spec_destroy_all(v, ds.drop_last()), ds.last())
    }
}

/// The facts about a table that every operation keeps.
pub open spec fn table_inv(v: TableView) -> bool {
    &&& forall|d: u16| #[trigger] v.sessions.contains_key(d) ==> v.sessions[d].display == d
    &&& forall|d: u16| #[trigger] v.display_conns.contains_key(d)
        ==> v.display_conns[d].finite() && v.display_conns[d].len() <= MAX_X11_CONNECTIONS_PER_DISPLAY
    &&& forall|c: u32| #[trigger] v.connections.contains_key(c)
        ==> conns_of(v, v.connections[c]).contains(c)
    &&& forall|d: u16| #[trigger] v.grace.contains_key(d) ==> v.sessions.contains_key(d)
}

/// The sessions of a relay server, with their X11 connections and grace periods.
pub struct SessionTable {
    sessions: HashMap<u16, Session>,
    /// The displays that have a session, in the order their sessions were made.
    displays: Vec<u16>,
    connections: HashMap<u32, u16>,
    display_conns: HashMap<u16, Vec<u32>>,
    grace: HashMap<u16, u64>,
    cancelled: HashSet<u64>,
    next_ticket: u64,
}

impl View for SessionTable {
    type V = TableView;

    closed spec fn view(&self) -> TableView {
        TableView {
            sessions: self.sessions@.map_values(|s: Session| s@),
            connections: self.connections@,
            display_conns: self.display_conns@.map_values(|v: Vec<u32>| v@.to_set()),
            grace: self.grace@,
            cancelled: self.cancelled@,
        }
    }
}

/// Whether `v` holds `x`.
fn vec_contains(v: &Vec<u32>, x: u32) -> (r: bool)
    ensures
        r == v@.contains(x),
{
    let mut i: usize = 0;
    while i < v.len()
        invariant
            i <= v@.len(),
            forall|j: int| 0 <= j < i ==> v@[j] != x,
        decreases v@.len() - i,
    {
        if v[i] == x {
            return true;
        }
        i = i + 1;
    }
    false
}

/// `v` without `x`, keeping the order of the rest.
fn vec_without(v: Vec<u32>, x: u32) -> (r: Vec<u32>)
    requires
        v@.no_duplicates(),
    ensures
        r@.no_duplicates(),
        r@.len() <= v@.len(),
        r@.to_set() == v@.to_set().remove(x),
{
    let mut r: Vec<u32> = Vec::new();
    let mut i: usize = 0;
    while i < v.len()
        invariant
            i <= v@.len(),
            v@.no_duplicates(),
            r@.no_duplicates(),
            r@.len() <= i,
            r@.to_set() == v@.take(i as int).to_set().remove(x),
        decreases v@.len() - i,
    {
        let y = v[i];
        proof {
            assert(v@.take(i + 1) == v@.take(i as int).push(y));
            v@.take(i as int).lemma_push_to_set_commute(y);
        }
        if y != x {
            let ghost before = r@;
            r.push(y);
            proof {
                before.lemma_push_to_set_commute(y);
                assert(!before.contains(y)) by {
                    if before.contains(y) {
                        assert(before.to_set().contains(y));
                        let j = v@.take(i as int).index_of(y);
                        assert(v@[j] == v@[i as int]);
                    }
                }
                assert forall|a: int, b: int| 0 <= a < b < r@.len() implies r@[a] != r@[b] by {
                    if b == before.len() {
                        assert(before.contains(r@[a]));
                    }
                }
            }
        }
        proof {
            assert(r@.to_set() =~= v@.take(i + 1).to_set().remove(x));
        }
        i = i + 1;
    }
    proof {
        assert(v@.take(v@.len() as int) == v@);
    }
    r
}

/// Removes `x` from `v`, where it occurs at most once.
fn vec_remove_value(v: &mut Vec<u16>, x: u16)
    requires
        old(v)@.no_duplicates(),
    ensures
        final(v)@.no_duplicates(),
        final(v)@.to_set() == old(v)@.to_set().remove(x),
{
    let n = v.len();
    let mut i: usize = 0;
    while i < n
        invariant
            n == v@.len(),
            v@ == old(v)@,
            v@.no_duplicates(),
            i <= n,
            forall|j: int| 0 <= j < i ==> v@[j] != x,
        decreases n - i,
    {
        if v[i] == x {
            let ghost before = v@;
            v.remove(i);
            proof {
                assert(before.no_duplicates());
                assert forall|j: int| 0 <= j < v@.len() implies #[trigger] v@[j] == before[if j < i { j } else { j + 1 }] by {
                }
                assert(v@.no_duplicates()) by {
                    assert forall|a: int, b: int| 0 <= a < b < v@.len() implies v@[a] != v@[b] by {
                        let a2 = if a < i { a } else { a + 1 };
                        let b2 = if b < i { b } else { b + 1 };
                        assert(v@[a] == before[a2]);
                        assert(v@[b] == before[b2]);
                        assert(a2 < b2);
                    }
                }
                assert(v@.to_set() =~= before.to_set().remove(x)) by {
                    assert forall|y: u16| v@.contains(y) implies before.contains(y) && y != x by {
                        let j = v@.index_of(y);
                        if j < i {
                            assert(before[j] == y);
                        } else {
                            assert(before[j + 1] == y);
                            assert(before[i as int] == x);
                        }
                    }
                    assert forall|y: u16| before.contains(y) && y != x implies v@.contains(y) by {
                        let j = before.index_of(y);
                        if j < i {
                            assert(v@[j] == y);
                        } else {
                            assert(j != i);
                            assert(v@[j - 1] == y);
                        }
                    }
                }
            }
            return;
        }
        i = i + 1;
    }
    proof {
        assert(old(v)@.to_set().remove(x) =~= old(v)@.to_set());
    }
}

impl SessionTable {
    /// The table is well formed.
    pub closed spec fn wf(&self) -> bool {
        &&& forall|d: u16| #[trigger] self.sessions@.contains_key(d) ==> self.sessions@[d].display.0 == d
        &&& forall|c: u32| #[trigger] self.connections@.contains_key(c)
            ==> conns_of(self@, self.connections@[c]).contains(c)
        &&& forall|d: u16| #[trigger] self.grace@.contains_key(d) ==> self.sessions@.contains_key(d)
        &&& self.displays@.no_duplicates()
        &&& self.displays@.to_set() == self.sessions@.dom()
        &&& forall|d: u16| #[trigger] self.display_conns@.contains_key(d)
            ==> self.display_conns@[d]@.no_duplicates()
                && self.display_conns@[d]@.len() <= MAX_X11_CONNECTIONS_PER_DISPLAY
        &&& !self.tickets_exhausted() ==> {
            &&& forall|d: u16| #[trigger] self.grace@.contains_key(d) ==> self.grace@[d] < self.next_ticket
            &&& forall|x: u64| #[trigger] self.cancelled@.contains(x) ==> x < self.next_ticket
        }
    }

    /// Whether every ticket has been handed out: the counter of tickets has reached its
    /// largest value, after 2^64 - 2 grace periods.
    pub closed spec fn tickets_exhausted(&self) -> bool {
        self.next_ticket == u64::MAX
    }

    /// A well-formed table keeps the invariant of its view.
    pub proof fn lemma_wf(&self)
        requires
            self.wf(),
        ensures
            table_inv(self@),
    {
        broadcast use vstd::seq_lib::seq_to_set_is_finite;

        assert forall|d: u16| #[trigger] self@.display_conns.contains_key(d) implies
            self@.display_conns[d].finite()
            && self@.display_conns[d].len() <= MAX_X11_CONNECTIONS_PER_DISPLAY by {
            self.display_conns@[d]@.lemma_cardinality_of_set();
        }
        assert forall|d: u16| #[trigger] self@.sessions.contains_key(d) implies self@.sessions[d].display == d by {
            assert(self.sessions@.contains_key(d));
        }
    }

    pub fn new() -> (t: SessionTable)
        ensures
            t.wf(),
            t@.sessions == Map::<u16, SessionView>::empty(),
            t@.connections == Map::<u32, u16>::empty(),
            t@.display_conns == Map::<u16, Set<u32>>::empty(),
            t@.grace == Map::<u16, u64>::empty(),
            t@.cancelled == Set::<u64>::empty(),
    {
        let t = SessionTable {
            sessions: HashMap::new(),
            displays: Vec::new(),
            connections: HashMap::new(),
            display_conns: HashMap::new(),
            grace: HashMap::new(),
            cancelled: HashSet::new(),
            next_ticket: 1,
        };
        assert(t@.sessions =~= Map::<u16, SessionView>::empty());
        assert(t@.display_conns =~= Map::<u16, Set<u32>>::empty());
        assert(t.displays@.to_set() =~= t.sessions@.dom());
        t
    }

    /// Whether the session on `disp` belongs to `client_id`.
    pub fn owns_session(&self, disp: DisplayNumber, client_id: &str) -> (r: bool)
        requires
            self.wf(),
        ensures
            r == owns(self@, disp.0, client_id@),
    {
        match self.sessions.get(&disp.get()) {
            Some(s) => {
                let c = client_id.to_owned();
                s.client_id == c
            },
            None => false,
        }
    }

    /// Whether connection `conn_id` is open on a display whose session belongs to `client_id`.
    pub fn owns_connection(&self, conn_id: ConnectionId, client_id: &str) -> (r: bool)
        requires
            self.wf(),
        ensures
            r == owns_conn(self@, conn_id.0, client_id@),
    {
        match self.connections.get(&conn_id.get()) {
            Some(d) => self.owns_session(DisplayNumber(*d), client_id),
            None => false,
        }
    }

    /// Adds a session for `client_id` on `disp`, with a fresh random id, unless the display
    /// already has one.
    pub fn create_session(
        &mut self,
        disp: DisplayNumber,
        auth_name: String,
        auth_data: Vec<u8>,
        client_id: String,
    ) -> (r: Result<Session, Rx11Error>)
        requires
            old(self).wf(),
        ensures
            final(self).wf(),
            old(self)@.sessions.contains_key(disp.0) ==> {
                &&& r matches Err(e) && e matches Rx11Error::Protocol(m)
                    && m@ == display_in_use_message(disp.0)
                &&& final(self)@ == old(self)@
            },
            !old(self)@.sessions.contains_key(disp.0) ==> {
                &&& r matches Ok(s) && {
                    &&& s@.display == disp.0
                    &&& s@.auth_name == auth_name@
                    &&& s@.auth_data == auth_data@
                    &&& s@.client_id == client_id@
                    &&& s@.id.len() == 36
                    &&& valid_bounded_text(s@.id, MAX_SESSION_ID_LEN as nat)
                    &&& final(self)@ == spec_insert_session(old(self)@, s@)
                }
            },
    {
        let d = disp.get();
        if self.sessions.contains_key(&d) {
            let mut m = "Display ".to_owned();
            m.append(disp.to_string().as_str());
            m.append(" already in use");
            proof {
                reveal_strlit("Display ");
                reveal_strlit(" already in use");
                reveal_strlit("Display :");
                reveal_strlit(":");
                assert("Display "@ + ":"@ =~= "Display :"@);
                assert(m@ =~= display_in_use_message(d));
            }
            return Err(Rx11Error::Protocol(m));
        }
        let id = new_session_id();
        let session = Session { id, display: disp, auth_name, auth_data, client_id };
        let copy = session.duplicate();
        let ghost old_v = self@;
        self.sessions.insert(d, session);
        self.displays.push(d);
        proof {
            assert(self.displays@.to_set() =~= self.sessions@.dom()) by {
                assert(self.displays@ == old(self).displays@.push(d));
                old(self).displays@.lemma_push_to_set_commute(d);
            }
            assert(self@.sessions =~= old_v.sessions.insert(d, copy@));
            assert(self@ == spec_insert_session(old_v, copy@));
        }
        Ok(copy)
    }

    /// Cancels the grace period of display `d`, if one runs.
    fn cancel_grace_of(&mut self, d: u16)
        requires
            old(self).wf(),
        ensures
            final(self).wf(),
            final(self)@ == cancel_grace(old(self)@, d),
            final(self).sessions@ == old(self).sessions@,
            final(self).displays@ == old(self).displays@,
            final(self).connections@ == old(self).connections@,
            final(self).display_conns@ == old(self).display_conns@,
            final(self).next_ticket == old(self).next_ticket,
    {
        match self.grace.remove(&d) {
            Some(t) => {
                self.cancelled.insert(t);
            },
            None => {},
        }
        proof {
            assert(self@ =~= cancel_grace(old(self)@, d));
        }
    }

    /// Passes the session with id `session_id` to the client `new_client_id`, which
    /// cancels its grace period; its display, id and X11 connections stay as they were.
    pub fn try_resume_session(&mut self, session_id: &SessionId, new_client_id: String) -> (r: Result<
        Session,
        Rx11Error,
    >)
        requires
            old(self).wf(),
        ensures
            final(self).wf(),
            r is Ok <==> has_session_id(old(self)@, session_id@),
            r matches Ok(s) ==> {
                &&& old(self)@.sessions.contains_key(s@.display)
                &&& old(self)@.sessions[s@.display].id == session_id@
                &&& s@ == (SessionView { client_id: new_client_id@, ..old(self)@.sessions[s@.display] })
                &&& final(self)@ == spec_resume(old(self)@, s@.display, new_client_id@)
            },
            r matches Err(e) ==> {
                &&& e matches Rx11Error::Protocol(m) && m@ == session_not_found_message(session_id@)
                &&& final(self)@ == old(self)@
            },
    {
        let n = self.displays.len();
        let mut i: usize = 0;
        let mut found: Option<u16> = None;
        while i < n
            invariant_except_break
                found is None,
            invariant
                self.wf(),
                *self == *old(self),
                n == self.displays@.len(),
                i <= n,
                forall|j: int|
                    0 <= j < i ==> #[trigger] self@.sessions[self.displays@[j]].id != session_id@,
            ensures
                found matches Some(d) ==> self@.sessions.contains_key(d) && self@.sessions[d].id
                    == session_id@,
                found is None ==> forall|j: int|
                    0 <= j < n ==> #[trigger] self@.sessions[self.displays@[j]].id != session_id@,
            decreases n - i,
        {
            let d = self.displays[i];
            assert(self.displays@.to_set().contains(d));
            match self.sessions.get(&d) {
                Some(s) => {
                    if s.id.0 == session_id.0 {
                        found = Some(d);
                        break;
                    }
                },
                None => {},
            }
            i = i + 1;
        }
        match found {
            None => {
                proof {
                    if has_session_id(self@, session_id@) {
                        let d = choose|d: u16| #[trigger] self@.sessions.contains_key(d)
                            && self@.sessions[d].id == session_id@;
                        assert(self.displays@.to_set().contains(d));
                        let j = self.displays@.index_of(d);
                        assert(self@.sessions[self.displays@[j]].id != session_id@);
                    }
                }
                let mut m = "Session ".to_owned();
                m.append(session_id.as_str());
                m.append(" not found or expired");
                proof {
                    reveal_strlit("Session ");
                    reveal_strlit(" not found or expired");
                    assert(m@ =~= session_not_found_message(session_id@));
                }
                Err(Rx11Error::Protocol(m))
            },
            Some(d) => {
                let ghost v0 = self@;
                self.cancel_grace_of(d);
                let updated = match self.sessions.get(&d) {
                    Some(s) => Session {
                        id: SessionId(s.id.to_string()),
                        display: s.display,
                        auth_name: s.auth_name.clone(),
                        auth_data: copy_bytes(&s.auth_data),
                        client_id: new_client_id,
                    },
                    None => {
                        proof {
                            assert(false);
                        }
                        return Err(protocol_error("unreachable"));
                    },
                };
                let copy = updated.duplicate();
                self.sessions.insert(d, updated);
                proof {
                    assert(self.sessions@.dom() =~= old(self).sessions@.dom());
                    assert(self@.sessions =~= cancel_grace(v0, d).sessions.insert(
                        d,
                        SessionView { client_id: new_client_id@, ..v0.sessions[d] },
                    ));
                    assert(self@ == spec_resume(v0, d, new_client_id@));
                    assert(has_session_id(v0, session_id@));
                }
                Ok(copy)
            },
        }
    }

    /// Opens X11 connection `conn_id` on `disp`, unless the display has all the
    /// connections it may have.
    pub fn register_x11_connection(&mut self, conn_id: ConnectionId, disp: DisplayNumber) -> (r:
        Result<(), Rx11Error>)
        requires
            old(self).wf(),
        ensures
            final(self).wf(),
            r is Ok <==> conns_of(old(self)@, disp.0).len() < MAX_X11_CONNECTIONS_PER_DISPLAY,
            r is Ok ==> final(self)@ == spec_register(old(self)@, conn_id.0, disp.0),
            r matches Err(e) ==> {
                &&& e matches Rx11Error::Protocol(m) && m@ == too_many_connections_message(disp.0)
                &&& final(self)@ == old(self)@
            },
    {
        let c = conn_id.get();
        let d = disp.get();
        proof {
            self.lemma_wf();
            if self.display_conns@.contains_key(d) {
                self.display_conns@[d]@.unique_seq_to_set();
            }
        }
        let count: usize = match self.display_conns.get(&d) {
            Some(v) => v.len(),
            None => 0,
        };
        if count >= MAX_X11_CONNECTIONS_PER_DISPLAY {
            let mut m = "Too many X11 connections for display ".to_owned();
            m.append(disp.to_string().as_str());
            m.append(" (max 64)");
            proof {
                reveal_strlit("Too many X11 connections for display ");
                reveal_strlit("Too many X11 connections for display :");
                reveal_strlit(":");
                reveal_strlit(" (max 64)");
                assert("Too many X11 connections for display "@ + ":"@
                    =~= "Too many X11 connections for display :"@);
                assert(m@ =~= too_many_connections_message(d));
            }
            return Err(Rx11Error::Protocol(m));
        }
        let ghost v0 = self@;
        self.connections.insert(c, d);
        let mut v: Vec<u32> = match self.display_conns.remove(&d) {
            Some(v) => v,
            None => Vec::new(),
        };
        let ghost vs = v@;
        assert(vs.to_set() =~= conns_of(v0, d));
        if !vec_contains(&v, c) {
            v.push(c);
            proof {
                vs.lemma_push_to_set_commute(c);
                assert(v@.no_duplicates()) by {
                    assert forall|a: int, b: int| 0 <= a < b < v@.len() implies v@[a] != v@[b] by {
                        if b == vs.len() {
                            assert(!vs.contains(c));
                        }
                    }
                }
            }
        } else {
            assert(vs.to_set().insert(c) =~= vs.to_set());
        }
        self.display_conns.insert(d, v);
        proof {
            assert(v@.to_set() =~= conns_of(v0, d).insert(c));
            assert(self@.display_conns =~= v0.display_conns.insert(d, conns_of(v0, d).insert(c)));
            assert(self@ == spec_register(v0, c, d));
            assert forall|x: u32| #[trigger] self.connections@.contains_key(x)
                implies conns_of(self@, self.connections@[x]).contains(x) by {
                if x != c {
                    assert(v0.connections.contains_key(x));
                }
            }
        }
        Ok(())
    }

    /// Closes X11 connection `conn_id`, if it is open.
    pub fn unregister_x11_connection(&mut self, conn_id: ConnectionId)
        requires
            old(self).wf(),
        ensures
            final(self).wf(),
            final(self)@ == spec_unregister(old(self)@, conn_id.0),
    {
        let c = conn_id.get();
        let ghost v0 = self@;
        match self.connections.remove(&c) {
            Some(d) => {
                match self.display_conns.remove(&d) {
                    Some(v) => {
                        let ghost vs = v@;
                        let v2 = vec_without(v, c);
                        self.display_conns.insert(d, v2);
                        proof {
                            assert(v2@.to_set() =~= vs.to_set().remove(c));
                            assert(self@.display_conns =~= v0.display_conns.insert(
                                d,
                                v0.display_conns[d].remove(c),
                            ));
                        }
                    },
                    None => {
                        proof {
                            assert(self.display_conns@ =~= old(self).display_conns@);
                        }
                    },
                }
                proof {
                    assert(self@ == spec_unregister(v0, c));
                    assert forall|x: u32| #[trigger] self.connections@.contains_key(x)
                        implies conns_of(self@, self.connections@[x]).contains(x) by {
                        assert(v0.connections.contains_key(x));
                        assert(conns_of(v0, v0.connections[x]).contains(x));
                    }
                }
            },
            None => {
                proof {
                    assert(self@ == v0);
                }
            },
        }
    }

    /// Destroys the session on `disp`: cancels its grace period and closes the X11
    /// connections counted against the display. Returns the connections that were open.
    pub fn destroy_session(&mut self, disp: DisplayNumber) -> (closed: Vec<u32>)
        requires
            old(self).wf(),
        ensures
            final(self).wf(),
            final(self)@ == spec_destroy(old(self)@, disp.0),
            closed@.no_duplicates(),
            closed@.to_set() == conns_of(old(self)@, disp.0).intersect(old(self)@.connections.dom()),
    {
        let d = disp.get();
        self.cancel_grace_of(d);
        let ghost v1 = self@;
        let ids: Vec<u32> = match self.display_conns.remove(&d) {
            Some(v) => v,
            None => Vec::new(),
        };
        let ghost sess0 = self.sessions@;
        let ghost disp0 = self.displays@;
        let ghost dc0 = self.display_conns@;
        let ghost grace0 = self.grace@;
        let ghost canc0 = self.cancelled@;
        assert(ids@.to_set() =~= conns_of(v1, d));
        let mut closed: Vec<u32> = Vec::new();
        let n = ids.len();
        let mut i: usize = 0;
        while i < n
            invariant
                n == ids@.len(),
                i <= n,
                ids@.no_duplicates(),
                ids@.to_set() == conns_of(v1, d),
                self.connections@ == v1.connections.remove_keys(ids@.take(i as int).to_set()),
                self.sessions@ == sess0,
                self.displays@ == disp0,
                self.display_conns@ == dc0,
                self.grace@ == grace0,
                self.cancelled@ == canc0,
                self.next_ticket == old(self).next_ticket,
                closed@.no_duplicates(),
                closed@.to_set() == ids@.take(i as int).to_set().intersect(v1.connections.dom()),
            decreases n - i,
        {
            let c = ids[i];
            let ghost before = closed@;
            let removed = self.connections.remove(&c);
            proof {
                assert(ids@.take(i + 1) == ids@.take(i as int).push(c));
                ids@.take(i as int).lemma_push_to_set_commute(c);
                assert(!ids@.take(i as int).contains(c)) by {
                    if ids@.take(i as int).contains(c) {
                        let j = ids@.take(i as int).index_of(c);
                        assert(ids@[j] == ids@[i as int]);
                    }
                }
            }
            match removed {
                Some(_) => {
                    closed.push(c);
                    proof {
                        before.lemma_push_to_set_commute(c);
                        assert(!before.contains(c)) by {
                            if before.contains(c) {
                                assert(before.to_set().contains(c));
                            }
                        }
                        assert(closed@.no_duplicates()) by {
                            assert forall|a: int, b: int| 0 <= a < b < closed@.len() implies closed@[a] != closed@[b] by {
                                if b == before.len() {
                                    assert(before.contains(closed@[a]));
                                }
                            }
                        }
                    }
                },
                None => {},
            }
            proof {
                assert(self.connections@ =~= v1.connections.remove_keys(ids@.take(i + 1).to_set()));
                assert(closed@.to_set() =~= ids@.take(i + 1).to_set().intersect(v1.connections.dom()));
            }
            i = i + 1;
        }
        proof {
            assert(ids@.take(n as int) == ids@);
        }
        self.sessions.remove(&d);
        let ghost displays_before = self.displays@;
        vec_remove_value(&mut self.displays, d);
        proof {
            assert(self@.sessions =~= v1.sessions.remove(d));
            assert(self@.display_conns =~= v1.display_conns.remove(d));
            assert(self@ == spec_destroy(old(self)@, d));
            assert(self.displays@.to_set() =~= self.sessions@.dom());
            assert forall|x: u32| #[trigger] self.connections@.contains_key(x)
                implies conns_of(self@, self.connections@[x]).contains(x) by {
                assert(v1.connections.contains_key(x));
                assert(!conns_of(v1, d).contains(x));
                assert(conns_of(v1, v1.connections[x]).contains(x));
            }
        }
        closed
    }

    /// The displays whose sessions belong to `client_id`.
    fn displays_of(&self, client_id: &String) -> (r: Vec<u16>)
        requires
            self.wf(),
        ensures
            r@.no_duplicates(),
            r@.to_set() == owned_displays(self@, client_id@),
    {
        let n = self.displays.len();
        let mut r: Vec<u16> = Vec::new();
        let mut i: usize = 0;
        while i < n
            invariant
                self.wf(),
                n == self.displays@.len(),
                i <= n,
                r@.no_duplicates(),
                r@.to_set() == self.displays@.take(i as int).to_set().intersect(owned_displays(self@, client_id@)),
            decreases n - i,
        {
            let d = self.displays[i];
            proof {
                assert(self.displays@.take(i + 1) == self.displays@.take(i as int).push(d));
                self.displays@.take(i as int).lemma_push_to_set_commute(d);
                assert(self.displays@.to_set().contains(d));
            }
            let ghost before = r@;
            match self.sessions.get(&d) {
                Some(s) => {
                    if s.client_id == *client_id {
                        r.push(d);
                        proof {
                            before.lemma_push_to_set_commute(d);
                            assert(!before.contains(d)) by {
                                if before.contains(d) {
                                    assert(before.to_set().contains(d));
                                    let j = self.displays@.take(i as int).index_of(d);
                                    assert(self.displays@[j] == self.displays@[i as int]);
                                }
                            }
                            assert forall|a: int, b: int| 0 <= a < b < r@.len() implies r@[a] != r@[b] by {
                                if b == before.len() {
                                    assert(before.contains(r@[a]));
                                }
                            }
                        }
                    }
                },
                None => {},
            }
            proof {
                assert(r@.to_set() =~= self.displays@.take(i + 1).to_set().intersect(
                    owned_displays(self@, client_id@),
                ));
            }
            i = i + 1;
        }
        proof {
            assert(self.displays@.take(n as int) == self.displays@);
            assert(r@.to_set() =~= owned_displays(self@, client_id@));
        }
        r
    }

    /// Starts the grace period for the sessions of `client_id`, who has left: each one
    /// is kept until the returned ticket runs out, unless it is resumed or destroyed
    /// first. A grace period already running for one of them is cancelled.
    pub fn release_session(&mut self, client_id: &str) -> (r: GraceRelease)
        requires
            old(self).wf(),
        ensures
            final(self).wf(),
            final(self)@ == spec_release(old(self)@, client_id@, r.ticket),
            !old(self).tickets_exhausted() ==> fresh_ticket(old(self)@, r.ticket),
            r.sessions@.len() == owned_displays(old(self)@, client_id@).len(),
            r.sessions@.map_values(|p: (u16, SessionId)| p.0).no_duplicates(),
            r.sessions@.map_values(|p: (u16, SessionId)| p.0).to_set() == owned_displays(
                old(self)@,
                client_id@,
            ),
            forall|i: int|
                0 <= i < r.sessions@.len() ==> old(self)@.sessions[#[trigger] r.sessions@[i].0].id
                    == r.sessions@[i].1@,
    {
        let t = self.next_ticket;
        if self.next_ticket < u64::MAX {
            self.next_ticket = self.next_ticket + 1;
        }
        let c = client_id.to_owned();
        let owned = self.displays_of(&c);
        let ghost v0 = self@;
        let ghost owned_set = owned_displays(v0, client_id@);
        let n = owned.len();
        let mut out: Vec<(u16, SessionId)> = Vec::new();
        let mut i: usize = 0;
        while i < n
            invariant
                n == owned@.len(),
                i <= n,
                owned@.no_duplicates(),
                owned@.to_set() == owned_set,
                owned_set == owned_displays(v0, client_id@),
                self.sessions@ == old(self).sessions@,
                self.displays@ == old(self).displays@,
                self.connections@ == old(self).connections@,
                self.display_conns@ == old(self).display_conns@,
                v0.sessions == self@.sessions,
                v0.grace == old(self)@.grace,
                v0.cancelled == old(self)@.cancelled,
                old(self).wf(),
                t == old(self).next_ticket,
                self.next_ticket == (if t < u64::MAX { (t + 1) as u64 } else { t }),
                self.grace@ == regrace(v0, owned@.take(i as int).to_set(), t),
                self.cancelled@ == v0.cancelled.union(grace_tickets(v0, owned@.take(i as int).to_set())),
                out@.len() == i,
                forall|j: int| 0 <= j < i ==> (#[trigger] out@[j]).0 == owned@[j],
                forall|j: int| 0 <= j < i ==> v0.sessions[(#[trigger] out@[j]).0].id == out@[j].1@,
            decreases n - i,
        {
            let d = owned[i];
            let ghost pre = owned@.take(i as int).to_set();
            proof {
                assert(owned@.take(i + 1) == owned@.take(i as int).push(d));
                owned@.take(i as int).lemma_push_to_set_commute(d);
                assert(owned@.to_set().contains(d));
                assert(!pre.contains(d)) by {
                    if pre.contains(d) {
                        let j = owned@.take(i as int).index_of(d);
                        assert(owned@[j] == owned@[i as int]);
                    }
                }
            }
            let sid = match self.sessions.get(&d) {
                Some(s) => SessionId(s.id.to_string()),
                None => {
                    proof {
                        assert(false);
                    }
                    SessionId(String::new())
                },
            };
            out.push((d, sid));
            let prev = self.grace.insert(d, t);
            match prev {
                Some(old_t) => {
                    self.cancelled.insert(old_t);
                },
                None => {},
            }
            proof {
                let post = owned@.take(i + 1).to_set();
                assert(post == pre.insert(d));
                assert(self.grace@ =~= regrace(v0, post, t));
                match prev {
                    Some(old_t) => {
                        assert(v0.grace.contains_key(d) && v0.grace[d] == old_t);
                        assert(self.cancelled@ =~= v0.cancelled.union(grace_tickets(v0, post))) by {
                            assert forall|x: u64| grace_tickets(v0, post).contains(x) implies
                                #[trigger] self.cancelled@.contains(x) by {
                                let e = choose|e: u16| #[trigger] post.contains(e) && v0.grace.contains_key(e)
                                    && v0.grace[e] == x;
                                if e != d {
                                    assert(grace_tickets(v0, pre).contains(x));
                                }
                            }
                            assert forall|x: u64| #[trigger] self.cancelled@.contains(x) implies
                                v0.cancelled.union(grace_tickets(v0, post)).contains(x) by {
                                if x != old_t && !v0.cancelled.contains(x) {
                                    let e = choose|e: u16| #[trigger] pre.contains(e) && v0.grace.contains_key(e)
                                        && v0.grace[e] == x;
                                    assert(post.contains(e));
                                } else if x == old_t {
                                    assert(post.contains(d));
                                }
                            }
                        }
                    },
                    None => {
                        assert(!v0.grace.contains_key(d));
                        assert(self.cancelled@ =~= v0.cancelled.union(grace_tickets(v0, post))) by {
                            assert forall|x: u64| grace_tickets(v0, post).contains(x) implies
                                #[trigger] self.cancelled@.contains(x) by {
                                let e = choose|e: u16| #[trigger] post.contains(e) && v0.grace.contains_key(e)
                                    && v0.grace[e] == x;
                                assert(e != d);
                                assert(grace_tickets(v0, pre).contains(x));
                            }
                            assert forall|x: u64| #[trigger] self.cancelled@.contains(x) implies
                                v0.cancelled.union(grace_tickets(v0, post)).contains(x) by {
                                if !v0.cancelled.contains(x) {
                                    let e = choose|e: u16| #[trigger] pre.contains(e) && v0.grace.contains_key(e)
                                        && v0.grace[e] == x;
                                    assert(post.contains(e));
                                }
                            }
                        }
                    },
                }
            }
            i = i + 1;
        }
        self.cancelled.remove(&t);
        proof {
            assert(owned@.take(n as int) == owned@);
            assert(self@ =~= spec_release(old(self)@, client_id@, t));
            assert forall|d: u16| #[trigger] self.grace@.contains_key(d) implies self.sessions@.contains_key(d) by {
                if owned_set.contains(d) {
                    assert(v0.sessions.contains_key(d));
                } else {
                    assert(old(self).grace@.contains_key(d));
                }
            }
            assert forall|x: u32| #[trigger] self.connections@.contains_key(x)
                implies conns_of(self@, self.connections@[x]).contains(x) by {
                assert(conns_of(old(self)@, old(self).connections@[x]).contains(x));
            }
            let keys = out@.map_values(|p: (u16, SessionId)| p.0);
            assert(keys =~= owned@);
            owned@.unique_seq_to_set();
        }
        GraceRelease { ticket: t, sessions: out }
    }

    /// When the grace period under `ticket`, started when `client_id` left, runs out:
    /// the displays whose sessions are to be destroyed. A cancelled grace period destroys
    /// nothing, and its ticket is forgotten.
    pub fn grace_expired(&mut self, ticket: u64, client_id: &str) -> (targets: Vec<u16>)
        requires
            old(self).wf(),
        ensures
            final(self).wf(),
            targets@.no_duplicates(),
            targets@.to_set() == expiry_targets(old(self)@, ticket, client_id@),
            old(self)@.cancelled.contains(ticket) ==> final(self)@ == (TableView {
                cancelled: old(self)@.cancelled.remove(ticket),
                ..old(self)@
            }),
            !old(self)@.cancelled.contains(ticket) ==> final(self)@ == old(self)@,
    {
        if self.cancelled.contains(&ticket) {
            self.cancelled.remove(&ticket);
            proof {
                assert(self@ =~= TableView { cancelled: old(self)@.cancelled.remove(ticket), ..old(self)@ });
                assert forall|x: u32| #[trigger] self.connections@.contains_key(x)
                    implies conns_of(self@, self.connections@[x]).contains(x) by {
                    assert(conns_of(old(self)@, old(self).connections@[x]).contains(x));
                }
            }
            let r: Vec<u16> = Vec::new();
            assert(r@.to_set() =~= Set::<u16>::empty());
            return r;
        }
        let c = client_id.to_owned();
        self.displays_of(&c)
    }

    /// Ends the grace period under `ticket`: forgets the ticket and the grace periods of
    /// `displays`, whose sessions it destroyed.
    pub fn finish_grace(&mut self, ticket: u64, displays: &Vec<u16>)
        requires
            old(self).wf(),
        ensures
            final(self).wf(),
            final(self)@ == (TableView {
                grace: old(self)@.grace.remove_keys(displays@.to_set()),
                cancelled: old(self)@.cancelled.remove(ticket),
                ..old(self)@
            }),
    {
        let n = displays.len();
        let mut i: usize = 0;
        while i < n
            invariant
                n == displays@.len(),
                i <= n,
                old(self).wf(),
                self.sessions@ == old(self).sessions@,
                self.displays@ == old(self).displays@,
                self.connections@ == old(self).connections@,
                self.display_conns@ == old(self).display_conns@,
                self.cancelled@ == old(self).cancelled@,
                self.next_ticket == old(self).next_ticket,
                self.grace@ == old(self).grace@.remove_keys(displays@.take(i as int).to_set()),
            decreases n - i,
        {
            let d = displays[i];
            self.grace.remove(&d);
            proof {
                assert(displays@.take(i + 1) == displays@.take(i as int).push(d));
                displays@.take(i as int).lemma_push_to_set_commute(d);
                assert(self.grace@ =~= old(self).grace@.remove_keys(displays@.take(i + 1).to_set()));
            }
            i = i + 1;
        }
        self.cancelled.remove(&ticket);
        proof {
            assert(displays@.take(n as int) == displays@);
            assert(self@ =~= TableView {
                grace: old(self)@.grace.remove_keys(displays@.to_set()),
                cancelled: old(self)@.cancelled.remove(ticket),
                ..old(self)@
            });
            assert forall|x: u32| #[trigger] self.connections@.contains_key(x)
                implies conns_of(self@, self.connections@[x]).contains(x) by {
                assert(conns_of(old(self)@, old(self).connections@[x]).contains(x));
            }
        }
    }

    /// Destroys every session, as the server does when it shuts down. Returns, in the
    /// order they were destroyed, each session's display and the X11 connections that
    /// were open on it.
    pub fn destroy_all_sessions(&mut self) -> (r: Vec<(u16, Vec<u32>)>)
        requires
            old(self).wf(),
        ensures
            final(self).wf(),
            r@.map_values(|p: (u16, Vec<u32>)| p.0).no_duplicates(),
            r@.map_values(|p: (u16, Vec<u32>)| p.0).to_set() == old(self)@.sessions.dom(),
            final(self)@ == spec_destroy_all(old(self)@, r@.map_values(|p: (u16, Vec<u32>)| p.0)),
            final(self)@.sessions == Map::<u16, SessionView>::empty(),
            final(self)@.grace == Map::<u16, u64>::empty(),
            forall|i: int|
                0 <= i < r@.len() ==> {
                    let before = spec_destroy_all(
                        old(self)@,
                        r@.map_values(|p: (u16, Vec<u32>)| p.0).take(i),
                    );
                    (#[trigger] r@[i]).1@.to_set() == conns_of(before, r@[i].0).intersect(
                        before.connections.dom(),
                    )
                },
    {
        let ds = self.displays.clone();
        assert(ds@ =~= self.displays@);
        let n = ds.len();
        let mut out: Vec<(u16, Vec<u32>)> = Vec::new();
        let mut i: usize = 0;
        while i < n
            invariant
                self.wf(),
                n == ds@.len(),
                i <= n,
                ds@.no_duplicates(),
                ds@.to_set() == old(self)@.sessions.dom(),
                out@.len() == i,
                forall|j: int| 0 <= j < i ==> (#[trigger] out@[j]).0 == ds@[j],
                self@ == spec_destroy_all(old(self)@, ds@.take(i as int)),
                self@.sessions.dom() == old(self)@.sessions.dom().difference(ds@.take(i as int).to_set()),
                forall|j: int|
                    0 <= j < i ==> {
                        let before = spec_destroy_all(old(self)@, ds@.take(j));
                        (#[trigger] out@[j]).1@.to_set() == conns_of(before, out@[j].0).intersect(
                            before.connections.dom(),
                        )
                    },
            decreases n - i,
        {
            let d = ds[i];
            let ghost before = self@;
            let closed = self.destroy_session(DisplayNumber(d));
            out.push((d, closed));
            proof {
                assert(ds@.take(i + 1) == ds@.take(i as int).push(d));
                ds@.take(i as int).lemma_push_to_set_commute(d);
                assert(ds@.take(i + 1).drop_last() == ds@.take(i as int));
                assert(self@ == spec_destroy_all(old(self)@, ds@.take(i + 1)));
                assert(self@.sessions.dom() =~= old(self)@.sessions.dom().difference(ds@.take(i + 1).to_set()));
                assert forall|j: int| 0 <= j < i + 1 implies {
                    let b = spec_destroy_all(old(self)@, ds@.take(j));
                    (#[trigger] out@[j]).1@.to_set() == conns_of(b, out@[j].0).intersect(b.connections.dom())
                } by {
                    if j == i {
                        assert(ds@.take(j) == ds@.take(i as int));
                    }
                }
            }
            i = i + 1;
        }
        proof {
            assert(ds@.take(n as int) == ds@);
            let keys = out@.map_values(|p: (u16, Vec<u32>)| p.0);
            assert(keys =~= ds@);
            assert(self@.sessions =~= Map::<u16, SessionView>::empty());
            assert(self@.grace =~= Map::<u16, u64>::empty()) by {
                assert forall|d: u16| !self.grace@.contains_key(d) by {
                    if self.grace@.contains_key(d) {
                        assert(self.sessions@.contains_key(d));
                        assert(self@.sessions.contains_key(d));
                    }
                }
            }
            assert forall|j: int| 0 <= j < out@.len() implies {
                let b = spec_destroy_all(old(self)@, keys.take(j));
                (#[trigger] out@[j]).1@.to_set() == conns_of(b, out@[j].0).intersect(b.connections.dom())
            } by {
                assert(keys.take(j) == ds@.take(j));
            }
        }
        out
    }

    /// The display for a session the client leaves to the server: the lowest free one.
    pub fn choose_free_display(&self) -> (r: Result<DisplayNumber, Rx11Error>)
        requires
            self.wf(),
        ensures
            r matches Ok(d) ==> d.0 <= 255 && !self@.sessions.contains_key(d.0) && forall|e: u16|
                e < d.0 ==> #[trigger] self@.sessions.contains_key(e),
            r is Err <==> forall|e: u16| e <= 255 ==> #[trigger] self@.sessions.contains_key(e),
            r matches Err(e) ==> (e matches Rx11Error::Protocol(m) && m@ == "No available display number"@),
    {
        match self.find_free_display() {
            Some(d) => Ok(DisplayNumber(d)),
            None => Err(protocol_error("No available display number")),
        }
    }

    /// The lowest display number, 0 to 255, that has no session.
    pub fn find_free_display(&self) -> (r: Option<u16>)
        requires
            self.wf(),
        ensures
            r matches Some(d) ==> d <= 255 && !self@.sessions.contains_key(d) && forall|e: u16|
                e < d ==> #[trigger] self@.sessions.contains_key(e),
            r is None ==> forall|e: u16| e <= 255 ==> #[trigger] self@.sessions.contains_key(e),
    {
        let mut d: u16 = 0;
        while d <= 255
            invariant
                d <= 256,
                forall|e: u16| e < d ==> #[trigger] self@.sessions.contains_key(e),
            decreases 256 - d,
        {
            if !self.sessions.contains_key(&d) {
                return Some(d);
            }
            d = d + 1;
        }
        None
    }
}

} // verus!

verus! {

/// No display ever has more than 64 X11 connections open.
pub proof fn lemma_connections_per_display_bounded(t: &SessionTable, d: u16)
    requires
        t.wf(),
    ensures
        conns_of(t@, d).finite(),
        conns_of(t@, d).len() <= MAX_X11_CONNECTIONS_PER_DISPLAY,
{
    t.lemma_wf();
}

/// A client that comes back before its grace period runs out keeps its session:
/// resuming cancels the grace period, so its running out destroys nothing, and the
/// session keeps its display, id and X11 connections, now under the new client.
pub proof fn lemma_resume_survives_grace(
    v: TableView,
    client: Seq<char>,
    t: u64,
    d: u16,
    new_client: Seq<char>,
)
    requires
        owns(v, d, client),
    ensures
        ({
            let v2 = spec_resume(spec_release(v, client, t), d, new_client);
            &&& expiry_targets(v2, t, client) == Set::<u16>::empty()
            &&& v2.connections == v.connections
            &&& v2.display_conns == v.display_conns
            &&& v2.sessions[d].id == v.sessions[d].id
            &&& v2.sessions[d].display == v.sessions[d].display
            &&& owns(v2, d, new_client)
        }),
{
    let v1 = spec_release(v, client, t);
    assert(owned_displays(v, client).contains(d));
    assert(v1.grace.contains_key(d) && v1.grace[d] == t);
    let v2 = spec_resume(v1, d, new_client);
    assert(v2.cancelled.contains(t));
}

/// A ticket that no grace period of the table holds, live or cancelled.
pub open spec fn fresh_ticket(v: TableView, t: u64) -> bool {
    &&& !v.cancelled.contains(t)
    &&& forall|d: u16| #[trigger] v.grace.contains_key(d) ==> v.grace[d] != t
}

/// The grace periods of different clients stay apart: when client `b` leaves and then
/// client `a` leaves, each under its own fresh ticket, `a` coming back for one of its
/// sessions cancels nothing of `b`'s grace period, which still destroys all of `b`'s
/// sessions when it runs out (`a` coming back under a connection of its own, not `b`'s).
pub proof fn lemma_grace_periods_independent(
    v: TableView,
    a: Seq<char>,
    b: Seq<char>,
    ta: u64,
    tb: u64,
    d: u16,
    new_client: Seq<char>,
)
    requires
        a != b,
        new_client != b,
        ta != tb,
        fresh_ticket(v, tb),
        fresh_ticket(spec_release(v, b, tb), ta),
        owns(v, d, a),
    ensures
        ({
            let v3 = spec_resume(spec_release(spec_release(v, b, tb), a, ta), d, new_client);
            &&& !v3.cancelled.contains(tb)
            &&& expiry_targets(v3, tb, b) == owned_displays(v, b)
        }),
{
    let v1 = spec_release(v, b, tb);
    let v2 = spec_release(v1, a, ta);
    let v3 = spec_resume(v2, d, new_client);
    assert(!v1.cancelled.contains(tb));
    assert(!grace_tickets(v1, owned_displays(v1, a)).contains(tb)) by {
        if grace_tickets(v1, owned_displays(v1, a)).contains(tb) {
            let e = choose|e: u16| #[trigger] owned_displays(v1, a).contains(e) && v1.grace.contains_key(e)
                && v1.grace[e] == tb;
            assert(owns(v, e, a));
            assert(!owned_displays(v, b).contains(e));
            assert(v.grace.contains_key(e));
        }
    }
    assert(!v2.cancelled.contains(tb));
    assert(owned_displays(v1, a).contains(d));
    assert(v2.grace.contains_key(d) && v2.grace[d] == ta);
    assert(v3.cancelled == v2.cancelled.insert(ta));
    assert(owned_displays(v3, b) =~= owned_displays(v, b)) by {
        assert forall|e: u16| owned_displays(v3, b).contains(e) <==> owned_displays(v, b).contains(e) by {
            if e == d {
                assert(!owns(v, d, b));
            } else {
                assert(v3.sessions.contains_key(e) == v.sessions.contains_key(e));
                if v.sessions.contains_key(e) {
                    assert(v3.sessions[e] == v.sessions[e]);
                }
            }
        }
    }
}

/// When no one comes back, the grace period that a client's departure started destroys
/// every session of that client.
pub proof fn lemma_grace_expiry_destroys_released(v: TableView, client: Seq<char>, t: u64)
    ensures
        expiry_targets(spec_release(v, client, t), t, client) == owned_displays(v, client),
{
    let v1 = spec_release(v, client, t);
    assert(!v1.cancelled.contains(t));
    assert(owned_displays(v1, client) =~= owned_displays(v, client));
}

/// A destroyed session leaves nothing behind: its display has no session, no grace
/// period, and no X11 connection is attributed to it any more.
pub proof fn lemma_destroy_clears_display(v: TableView, d: u16, client: Seq<char>)
    requires
        table_inv(v),
    ensures
        ({
            let w = spec_destroy(v, d);
            &&& !w.sessions.contains_key(d)
            &&& !w.grace.contains_key(d)
            &&& !owns(w, d, client)
            &&& forall|c: u32| #[trigger] w.connections.contains_key(c) ==> w.connections[c] != d
            &&& table_inv(w)
        }),
{
    let u = cancel_grace(v, d);
    let w = spec_destroy(v, d);
    assert forall|c: u32| #[trigger] w.connections.contains_key(c) implies w.connections[c] != d by {
        assert(v.connections.contains_key(c));
        assert(conns_of(v, v.connections[c]).contains(c));
        assert(!conns_of(u, d).contains(c));
    }
    assert forall|c: u32| #[trigger] w.connections.contains_key(c) implies conns_of(
        w,
        w.connections[c],
    ).contains(c) by {
        assert(v.connections.contains_key(c));
        assert(conns_of(v, v.connections[c]).contains(c));
    }
}

/// Closing an X11 connection undoes opening it: the connections, and those counted
/// against each display, are as before.
pub proof fn lemma_unregister_undoes_register(v: TableView, c: u32, d: u16)
    requires
        !v.connections.contains_key(c),
        !conns_of(v, d).contains(c),
    ensures
        ({
            let w = spec_unregister(spec_register(v, c, d), c);
            &&& w.connections == v.connections
            &&& forall|e: u16| conns_of(w, e) == conns_of(v, e)
            &&& w.sessions == v.sessions
        }),
{
    let w = spec_unregister(spec_register(v, c, d), c);
    assert(w.connections =~= v.connections);
    assert forall|e: u16| conns_of(w, e) == conns_of(v, e) by {
        if e == d {
            assert(conns_of(v, d).insert(c).remove(c) =~= conns_of(v, d));
        }
    }
}

/// A session just created belongs to its client, and to no other.
pub proof fn lemma_created_session_owned(v: TableView, s: SessionView, other: Seq<char>)
    requires
        other != s.client_id,
    ensures
        owns(spec_insert_session(v, s), s.display, s.client_id),
        !owns(spec_insert_session(v, s), s.display, other),
{
}

} // verus!
