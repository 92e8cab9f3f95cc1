//! Core message router: binds platform conversations to connected CLI sessions.
//!
//! The router keeps three tables: the connected CLI sessions, the route of each
//! platform conversation (keyed by `platform/conversation_id`), and for each
//! session the keys of the conversations bound to it, so that they can be
//! dropped when the session leaves.

use vstd::prelude::*;
use crate::assoc::{
    del, del_all, distinct_keys, find, item_index, lemma_del, lemma_del_all, lemma_find, lemma_find_unique,
    lemma_item_index, lemma_push_new_item, lemma_put, lemma_remove_item, lemma_to_map, lemma_to_map_dom, put,
    remove_item, to_map,
};
use crate::dispatcher::{Dispatcher, is_dispatch_target};
use crate::external::{channel_send, now_millis, send_error_to_string, unbounded_channel, uuid_to_string};
use crate::protocol::Envelope;
use crate::text::uuid_text;

verus! {

/// A connected NekoCLI instance.
pub struct CliSession {
    pub client_id: String,
    pub version: String,
    pub capabilities: Vec<String>,
    pub labels: Vec<String>,
    pub tx: tokio::sync::mpsc::UnboundedSender<Envelope>,
    pub connected_at: i64,
    /// The envelopes handed to this session's channel, in order.
    pub received: Ghost<Seq<Envelope>>,
}

impl CliSession {
    /// The session after `msg` is handed to its channel.
    pub open spec fn with_received(self, msg: Envelope) -> CliSession {
        CliSession { received: Ghost(self.received@.push(msg)), ..self }
    }

    /// A session with a fresh channel; the receiving half is returned beside it.
    pub fn new(
        client_id: String,
        version: String,
        capabilities: Vec<String>,
        labels: Vec<String>,
    ) -> (r: (Self, tokio::sync::mpsc::UnboundedReceiver<Envelope>))
        ensures
            r.0.client_id == client_id,
            r.0.version == version,
            r.0.capabilities == capabilities,
            r.0.labels == labels,
            r.0.received@ == Seq::<Envelope>::empty(),
    {
        let (tx, rx) = unbounded_channel();
        let session = CliSession {
            client_id,
            version,
            capabilities,
            labels,
            tx,
            connected_at: now_millis(),
            received: Ghost(Seq::empty()),
        };
        (session, rx)
    }
}

/// A conversation route: platform conversation -> CLI session.
#[derive(Debug, Clone)]
pub struct ConversationRoute {
    pub cli_session_id: u128,
    pub platform: String,
    pub platform_user_id: String,
    pub conversation_id: String,
}

pub struct ConversationRouteView {
    pub cli_session_id: u128,
    pub platform: Seq<char>,
    pub platform_user_id: Seq<char>,
    pub conversation_id: Seq<char>,
}

impl View for ConversationRoute {
    type V = ConversationRouteView;

    open spec fn view(&self) -> ConversationRouteView {
        ConversationRouteView {
            cli_session_id: self.cli_session_id,
            platform: self.platform@,
            platform_user_id: self.platform_user_id@,
            conversation_id: self.conversation_id@,
        }
    }
}

/// The key under which a conversation's route is kept: `platform/conversation_id`.
pub open spec fn route_key_spec(platform: Seq<char>, conversation_id: Seq<char>) -> Seq<char> {
    platform + seq!['/'] + conversation_id
}

/// The key under which a conversation's route is kept: `platform/conversation_id`.
pub fn route_key(platform: &str, conversation_id: &str) -> (key: String)
    ensures
        key@ == route_key_spec(platform@, conversation_id@),
{
    let mut key = platform.to_owned();
    key.append("/");
    key.append(conversation_id);
    proof {
        reveal_strlit("/");
    }
    key
}

/// The state of a router, in the order in which entries were made.
/// The keys listed for session `sid` in an index (empty when it has no entry).
pub open spec fn keys_in(index: Seq<(u128, Seq<Seq<char>>)>, sid: u128) -> Seq<Seq<char>> {
    if to_map(index).contains_key(sid) {
        to_map(index)[sid]
    } else {
        Seq::empty()
    }
}

/// Setting the list of one session leaves the lists of the others as they were.
pub proof fn lemma_keys_in_put(index: Seq<(u128, Seq<Seq<char>>)>, sid: u128, keys: Seq<Seq<char>>)
    requires
        distinct_keys(index),
    ensures
        distinct_keys(put(index, sid, keys)),
        keys_in(put(index, sid, keys), sid) == keys,
        forall|x: u128| x != sid ==> #[trigger] keys_in(put(index, sid, keys), x) == keys_in(index, x),
{
    lemma_put(index, sid, keys);
}

/// The state of a router, in the order in which entries were made.
pub struct RouterModel {
    /// Connected sessions by id.
    pub sessions: Seq<(u128, CliSession)>,
    /// Conversation routes by route key.
    pub routes: Seq<(Seq<char>, ConversationRouteView)>,
    /// For each session, the keys of the conversations bound to it, in binding order.
    pub index: Seq<(u128, Seq<Seq<char>>)>,
    /// Every envelope handed to a session's channel, with the session, in the order handed.
    pub sent: Seq<(u128, Envelope)>,
}

impl RouterModel {
    pub open spec fn session_map(self) -> Map<u128, CliSession> {
        to_map(self.sessions)
    }

    pub open spec fn route_map(self) -> Map<Seq<char>, ConversationRouteView> {
        to_map(self.routes)
    }

    pub open spec fn index_map(self) -> Map<u128, Seq<Seq<char>>> {
        to_map(self.index)
    }

    /// Keys bound by session `sid` (empty when it has none).
    pub open spec fn keys_of(self, sid: u128) -> Seq<Seq<char>> {
        keys_in(self.index, sid)
    }

    /// The last envelope handed to a session.
    pub open spec fn last_sent(self) -> Envelope {
        self.sent.last().1
    }

    /// Every table has distinct keys; a route is kept under the key of its conversation and
    /// listed once under the session it points to, and a session lists only its own routes.
    pub open spec fn wf(self) -> bool {
        &&& distinct_keys(self.sessions)
        &&& distinct_keys(self.routes)
        &&& distinct_keys(self.index)
        &&& forall|k: Seq<char>| #[trigger] self.route_map().contains_key(k) ==> {
            &&& self.keys_of(self.route_map()[k].cli_session_id).contains(k)
            &&& k == route_key_spec(self.route_map()[k].platform, self.route_map()[k].conversation_id)
        }
        &&& forall|s: u128, k: Seq<char>| #[trigger] self.keys_of(s).contains(k)
            ==> self.route_map().contains_key(k) && self.route_map()[k].cli_session_id == s
        &&& forall|s: u128| #[trigger] self.keys_of(s).no_duplicates()
    }

    pub open spec fn empty() -> RouterModel {
        RouterModel { sessions: Seq::empty(), routes: Seq::empty(), index: Seq::empty(), sent: Seq::empty() }
    }

    pub open spec fn register(self, sid: u128, session: CliSession) -> RouterModel {
        RouterModel { sessions: put(self.sessions, sid, session), ..self }
    }

    pub open spec fn unregister(self, sid: u128) -> RouterModel {
        RouterModel {
            sessions: del(self.sessions, sid),
            routes: del_all(self.routes, self.keys_of(sid)),
            index: del(self.index, sid),
            sent: self.sent,
        }
    }

    pub open spec fn new_route(
        sid: u128,
        platform: Seq<char>,
        platform_user_id: Seq<char>,
        conversation_id: Seq<char>,
    ) -> ConversationRouteView {
        ConversationRouteView { cli_session_id: sid, platform, platform_user_id, conversation_id }
    }

    /// The index with `key` taken out of the list of the session its route points to.
    pub open spec fn release(self, key: Seq<char>) -> Seq<(u128, Seq<Seq<char>>)> {
        match self.route_of(key) {
            Some(r) => put(self.index, r.cli_session_id, remove_item(self.keys_of(r.cli_session_id), key)),
            None => self.index,
        }
    }

    /// Binds a conversation to `sid`: its route now points to `sid`, its key leaves the
    /// list of the session it was bound to before, and joins the list of `sid` once.
    pub open spec fn bind(
        self,
        sid: u128,
        platform: Seq<char>,
        platform_user_id: Seq<char>,
        conversation_id: Seq<char>,
    ) -> RouterModel {
        let key = route_key_spec(platform, conversation_id);
        RouterModel {
            routes: put(
                self.routes,
                key,
                Self::new_route(sid, platform, platform_user_id, conversation_id),
            ),
            index: if self.route_target(platform, conversation_id) == Some(sid) {
                self.index
            } else {
                put(self.release(key), sid, self.keys_of(sid).push(key))
            },
            ..self
        }
    }

    /// `msg` handed to the channel of session `sid`: it joins that session's record and the
    /// router's record of sends.
    pub open spec fn hand_off(self, sid: u128, msg: Envelope) -> RouterModel {
        RouterModel {
            sessions: put(self.sessions, sid, self.session_map()[sid].with_received(msg)),
            sent: self.sent.push((sid, msg)),
            ..self
        }
    }

    /// Sending `msg` to session `sid`: handed to its channel when it is connected, else nothing.
    pub open spec fn send(self, sid: u128, msg: Envelope) -> RouterModel {
        if self.session_map().contains_key(sid) {
            self.hand_off(sid, msg)
        } else {
            self
        }
    }

    /// Sending `msg` for a conversation: to the session it is bound to, if any.
    pub open spec fn route_delivery(self, platform: Seq<char>, conversation_id: Seq<char>, msg: Envelope) -> RouterModel {
        match self.route_target(platform, conversation_id) {
            Some(sid) => self.send(sid, msg),
            None => self,
        }
    }

    /// The session a new conversation goes to: the earliest connected one still present.
    pub open spec fn pick(self) -> Option<u128> {
        if self.sessions.len() == 0 {
            None
        } else {
            Some(self.sessions[0].0)
        }
    }

    /// The session a conversation is bound to.
    pub open spec fn route_target(self, platform: Seq<char>, conversation_id: Seq<char>) -> Option<u128> {
        let key = route_key_spec(platform, conversation_id);
        if self.route_map().contains_key(key) {
            Some(self.route_map()[key].cli_session_id)
        } else {
            None
        }
    }

    pub open spec fn route_of(self, k: Seq<char>) -> Option<ConversationRouteView> {
        if self.route_map().contains_key(k) {
            Some(self.route_map()[k])
        } else {
            None
        }
    }

    /// The routes of the keys that `sid` bound, in binding order, skipping keys with no route.
    pub open spec fn routes_for_session(self, sid: u128) -> Seq<ConversationRouteView> {
        self.keys_of(sid).filter_map(|k: Seq<char>| self.route_of(k))
    }
}


/// Registering a session keeps the router well formed.
pub proof fn lemma_register_wf(m: RouterModel, sid: u128, session: CliSession)
    requires
        m.wf(),
    ensures
        m.register(sid, session).wf(),
        m.register(sid, session).session_map() == m.session_map().insert(sid, session),
{
    lemma_put(m.sessions, sid, session);
    lemma_wf_tables(m, m.register(sid, session));
}

/// A state with the routes and lists of a well-formed one, and sessions under distinct
/// ids, is well formed.
pub proof fn lemma_wf_tables(m: RouterModel, r: RouterModel)
    requires
        m.wf(),
        distinct_keys(r.sessions),
        r.routes == m.routes,
        r.index == m.index,
    ensures
        r.wf(),
{
    assert forall|k: Seq<char>| #[trigger] r.route_map().contains_key(k) implies {
        &&& r.keys_of(r.route_map()[k].cli_session_id).contains(k)
        &&& k == route_key_spec(r.route_map()[k].platform, r.route_map()[k].conversation_id)
    } by {
        assert(m.route_map().contains_key(k));
    }
    assert forall|s: u128, k: Seq<char>| #[trigger] r.keys_of(s).contains(k)
        implies r.route_map().contains_key(k) && r.route_map()[k].cli_session_id == s by {
        assert(m.keys_of(s).contains(k));
    }
    assert forall|s: u128| #[trigger] r.keys_of(s).no_duplicates() by {
        assert(m.keys_of(s).no_duplicates());
    }
}

/// Binding a conversation keeps the router well formed. It sets the route of the key; the
/// key joins the list of `sid` unless it is there already, and leaves the list of the
/// session that held it before.
pub proof fn lemma_bind_wf(m: RouterModel, sid: u128, p: Seq<char>, u: Seq<char>, c: Seq<char>)
    requires
        m.wf(),
    ensures
        m.bind(sid, p, u, c).wf(),
        m.bind(sid, p, u, c).route_map() == m.route_map().insert(
            route_key_spec(p, c),
            RouterModel::new_route(sid, p, u, c),
        ),
        m.bind(sid, p, u, c).keys_of(sid) == if m.route_target(p, c) == Some(sid) {
            m.keys_of(sid)
        } else {
            m.keys_of(sid).push(route_key_spec(p, c))
        },
        m.route_target(p, c) == Some(sid) <==> m.keys_of(sid).contains(route_key_spec(p, c)),
        forall|x: u128| x != sid ==> #[trigger] m.bind(sid, p, u, c).keys_of(x) == if m.route_target(p, c) == Some(x) {
            remove_item(m.keys_of(x), route_key_spec(p, c))
        } else {
            m.keys_of(x)
        },
{
    let key = route_key_spec(p, c);
    let nr = RouterModel::new_route(sid, p, u, c);
    let b = m.bind(sid, p, u, c);
    lemma_put(m.routes, key, nr);
    lemma_to_map(m.routes, key);
    let owner = m.route_target(p, c);
    if m.keys_of(sid).contains(key) {
        assert(owner == Some(sid));
    }
    if owner != Some(sid) {
        match owner {
            Some(q) => {
                lemma_keys_in_put(m.index, q, remove_item(m.keys_of(q), key));
                lemma_remove_item(m.keys_of(q), key);
                assert(m.release(key) == put(m.index, q, remove_item(m.keys_of(q), key)));
                lemma_keys_in_put(m.release(key), sid, m.keys_of(sid).push(key));
                assert(keys_in(m.release(key), sid) == m.keys_of(sid));
            },
            None => {
                assert(m.release(key) == m.index);
                lemma_keys_in_put(m.index, sid, m.keys_of(sid).push(key));
            },
        }
        lemma_push_new_item(m.keys_of(sid), key);
    }
    assert forall|x: u128| x != sid implies #[trigger] b.keys_of(x) == if owner == Some(x) {
        remove_item(m.keys_of(x), key)
    } else {
        m.keys_of(x)
    } by {
        if owner != Some(sid) {
            match owner {
                Some(q) => {
                    if x != q {
                        assert(keys_in(m.release(key), x) == m.keys_of(x));
                    }
                },
                None => {},
            }
        }
    }
    assert forall|k: Seq<char>| #[trigger] b.route_map().contains_key(k) implies {
        &&& b.keys_of(b.route_map()[k].cli_session_id).contains(k)
        &&& k == route_key_spec(b.route_map()[k].platform, b.route_map()[k].conversation_id)
    } by {
        if k == key {
            if owner != Some(sid) {
                assert(b.keys_of(sid)[b.keys_of(sid).len() - 1] == key);
            }
        } else {
            let y = m.route_map()[k].cli_session_id;
            assert(m.keys_of(y).contains(k));
            if y == sid {
                if owner != Some(sid) {
                    let j = choose|j: int| 0 <= j < m.keys_of(sid).len() && m.keys_of(sid)[j] == k;
                    assert(b.keys_of(sid)[j] == k);
                }
            } else if owner == Some(y) {
                lemma_remove_item(m.keys_of(y), key);
                assert(b.keys_of(y).contains(k));
            }
        }
    }
    assert forall|s: u128, k: Seq<char>| #[trigger] b.keys_of(s).contains(k)
        implies b.route_map().contains_key(k) && b.route_map()[k].cli_session_id == s by {
        if s == sid {
            if owner != Some(sid) && k != key {
                assert(m.keys_of(sid).contains(k));
            }
        } else if owner == Some(s) {
            lemma_remove_item(m.keys_of(s), key);
            assert(m.keys_of(s).contains(k));
        } else {
            assert(m.keys_of(s).contains(k));
            if k == key {
                assert(m.route_map().contains_key(key));
            }
        }
    }
    assert forall|s: u128| #[trigger] b.keys_of(s).no_duplicates() by {
        assert(m.keys_of(s).no_duplicates());
        if s != sid && owner == Some(s) {
            lemma_remove_item(m.keys_of(s), key);
        }
    }
}

/// Unregistering a session keeps the router well formed; it drops the session, its list of
/// keys, and the routes of those keys.
pub proof fn lemma_unregister_wf(m: RouterModel, sid: u128)
    requires
        m.wf(),
    ensures
        m.unregister(sid).wf(),
        m.unregister(sid).session_map() == m.session_map().remove(sid),
        m.unregister(sid).route_map() == m.route_map().remove_keys(m.keys_of(sid).to_set()),
        m.unregister(sid).index_map() == m.index_map().remove(sid),
        forall|x: u128| x != sid ==> m.unregister(sid).keys_of(x) == #[trigger] m.keys_of(x),
        m.unregister(sid).keys_of(sid) == Seq::<Seq<char>>::empty(),
{
    let un = m.unregister(sid);
    lemma_del(m.sessions, sid);
    lemma_del(m.index, sid);
    lemma_del_all(m.routes, m.keys_of(sid));
    assert forall|k: Seq<char>| #[trigger] un.route_map().contains_key(k) implies {
        &&& un.keys_of(un.route_map()[k].cli_session_id).contains(k)
        &&& k == route_key_spec(un.route_map()[k].platform, un.route_map()[k].conversation_id)
    } by {
        let y = m.route_map()[k].cli_session_id;
        assert(m.keys_of(y).contains(k));
        if y == sid {
            assert(m.keys_of(sid).to_set().contains(k));
        }
    }
    assert forall|s: u128, k: Seq<char>| #[trigger] un.keys_of(s).contains(k)
        implies un.route_map().contains_key(k) && un.route_map()[k].cli_session_id == s by {
        assert(m.keys_of(s).contains(k));
        if m.keys_of(sid).to_set().contains(k) {
            assert(m.keys_of(sid).contains(k));
        }
    }
    assert forall|s: u128| #[trigger] un.keys_of(s).no_duplicates() by {
        assert(m.keys_of(s).no_duplicates());
    }
}

/// `filter_map` keeps every item when the function gives a value for each.
pub proof fn lemma_filter_map_total<A, B>(s: Seq<A>, f: spec_fn(A) -> Option<B>)
    requires
        forall|i: int| 0 <= i < s.len() ==> (#[trigger] f(s[i])) is Some,
    ensures
        s.filter_map(f).len() == s.len(),
        forall|i: int| 0 <= i < s.len() ==> Some(#[trigger] s.filter_map(f)[i]) == f(s[i]),
    decreases s.len(),
{
    if s.len() > 0 {
        let d = s.drop_last();
        assert forall|i: int| 0 <= i < d.len() implies (#[trigger] f(d[i])) is Some by {
            assert(d[i] == s[i]);
        }
        lemma_filter_map_total(d, f);
        assert(f(s[s.len() - 1]) is Some);
        assert forall|i: int| 0 <= i < s.len() implies Some(#[trigger] s.filter_map(f)[i]) == f(s[i]) by {
            if i < d.len() {
                assert(d[i] == s[i]);
            }
        }
    }
}

/// In a well-formed router, the routes of a session are those of the keys it lists, one per
/// key and in the same order; each points to that session and is kept under its key.
pub proof fn lemma_routes_for_session(m: RouterModel, sid: u128)
    requires
        m.wf(),
    ensures
        m.routes_for_session(sid).len() == m.keys_of(sid).len(),
        forall|i: int| 0 <= i < m.keys_of(sid).len() ==> {
            &&& #[trigger] m.routes_for_session(sid)[i] == m.route_map()[m.keys_of(sid)[i]]
            &&& m.routes_for_session(sid)[i].cli_session_id == sid
            &&& m.keys_of(sid)[i] == route_key_spec(
                m.routes_for_session(sid)[i].platform,
                m.routes_for_session(sid)[i].conversation_id,
            )
        },
{
    let ks = m.keys_of(sid);
    let f = |k: Seq<char>| m.route_of(k);
    assert forall|i: int| 0 <= i < ks.len() implies (#[trigger] f(ks[i])) is Some by {
        assert(ks.contains(ks[i]));
    }
    lemma_filter_map_total(ks, f);
    assert(m.routes_for_session(sid) == ks.filter_map(f));
    assert forall|i: int| 0 <= i < m.keys_of(sid).len() implies {
        &&& #[trigger] m.routes_for_session(sid)[i] == m.route_map()[m.keys_of(sid)[i]]
        &&& m.routes_for_session(sid)[i].cli_session_id == sid
        &&& m.keys_of(sid)[i] == route_key_spec(
            m.routes_for_session(sid)[i].platform,
            m.routes_for_session(sid)[i].conversation_id,
        )
    } by {
        assert(ks.contains(ks[i]));
        assert(Some(ks.filter_map(f)[i]) == f(ks[i]));
        assert(m.route_map().contains_key(ks[i]));
        assert(m.route_map()[ks[i]].cli_session_id == sid);
    }
}

/// Text of the error for a message to a session that is not connected.
pub open spec fn not_found_text(sid: u128) -> Seq<char> {
    "CLI session "@ + uuid_text(sid) + " not found"@
}

/// Text of the error for a message whose session's channel is closed.
pub open spec fn send_failed_text() -> Seq<char> {
    "send failed: "@ + "channel closed"@
}

/// Text of the error for a message to a conversation with no route.
pub open spec fn unbound_text(key: Seq<char>) -> Seq<char> {
    "no CLI session bound to "@ + key
}

/// What sending to session `sid` may give: not-found when it is not connected, else
/// success or a closed channel.
pub open spec fn send_outcome(m: RouterModel, sid: u128, r: Result<(), String>) -> bool {
    if m.session_map().contains_key(sid) {
        r is Ok || (r matches Err(e) && e@ == send_failed_text())
    } else {
        r matches Err(e) && e@ == not_found_text(sid)
    }
}

/// Core message router: connects CLI sessions with platform conversations.
pub struct Router<S> {
    cli_sessions: Vec<(u128, CliSession)>,
    conversation_routes: Vec<(String, ConversationRoute)>,
    session_conv_index: Vec<(u128, Vec<String>)>,
    /// The envelopes handed to session channels so far.
    sent: Ghost<Seq<(u128, Envelope)>>,
    /// Result dispatcher for platform adapters.
    pub dispatcher: Dispatcher<S>,
}

pub open spec fn strings_view(v: Seq<String>) -> Seq<Seq<char>> {
    v.map_values(|s: String| s@)
}

impl<S> Router<S> {
    /// The dispatcher's senders.
    pub closed spec fn senders(&self) -> Seq<(Seq<char>, S)> {
        self.dispatcher@
    }
}

impl<S> View for Router<S> {
    type V = RouterModel;

    closed spec fn view(&self) -> RouterModel {
        RouterModel {
            sessions: self.cli_sessions@,
            routes: self.conversation_routes@.map_values(|e: (String, ConversationRoute)| (e.0@, e.1@)),
            index: self.session_conv_index@.map_values(|e: (u128, Vec<String>)| (e.0, strings_view(e.1@))),
            sent: self.sent@,
        }
    }
}

/// Position of `key` in a list of keys without duplicates.
fn position_of(v: &Vec<String>, key: &String) -> (r: Option<usize>)
    requires
        strings_view(v@).no_duplicates(),
    ensures
        match r {
            Some(t) => t < v@.len() && t == item_index(strings_view(v@), key@),
            None => item_index(strings_view(v@), key@) == -1,
        },
{
    let ghost kv = strings_view(v@);
    let mut t: usize = 0;
    while t < v.len()
        invariant
            t <= v@.len(),
            kv == strings_view(v@),
            kv.no_duplicates(),
            forall|j: int| 0 <= j < t ==> kv[j] != key@,
        decreases v@.len() - t,
    {
        if v[t] == *key {
            proof {
                assert(kv[t as int] == key@);
                assert(kv.contains(key@));
                lemma_item_index(kv, key@);
            }
            return Some(t);
        }
        t = t + 1;
    }
    assert(!kv.contains(key@));
    proof {
        lemma_item_index(kv, key@);
    }
    None
}

/// A copy of a route with the same fields.
fn copy_route(r: &ConversationRoute) -> (c: ConversationRoute)
    ensures
        c@ == r@,
{
    ConversationRoute {
        cli_session_id: r.cli_session_id,
        platform: r.platform.clone(),
        platform_user_id: r.platform_user_id.clone(),
        conversation_id: r.conversation_id.clone(),
    }
}

/// A copy of a list of strings.
fn copy_strings(v: &Vec<String>) -> (c: Vec<String>)
    ensures
        c@ == v@,
{
    let mut c: Vec<String> = Vec::new();
    let mut i: usize = 0;
    while i < v.len()
        invariant
            i <= v@.len(),
            c@ == v@.take(i as int),
        decreases v@.len() - i,
    {
        c.push(v[i].clone());
        assert(v@.take(i + 1) =~= v@.take(i as int).push(v@[i as int]));
        i = i + 1;
    }
    assert(v@.take(v@.len() as int) =~= v@);
    c
}

impl<S> Router<S> {
    /// A router with no session, no route and no sender.
    pub fn new() -> (r: Self)
        ensures
            r@ == RouterModel::empty(),
            r@.wf(),
            r.senders() == Seq::<(Seq<char>, S)>::empty(),
    {
        let r = Router {
            cli_sessions: Vec::new(),
            conversation_routes: Vec::new(),
            session_conv_index: Vec::new(),
            sent: Ghost(Seq::empty()),
            dispatcher: Dispatcher::new(),
        };
        assert(r@.routes =~= Seq::empty());
        assert(r@.index =~= Seq::empty());
        proof {
            lemma_to_map_dom(r@.routes);
        }
        r
    }

    /// Register a NekoCLI session (replacing one registered under the same id).
    pub fn register(&mut self, session_id: u128, session: CliSession)
        requires
            old(self)@.wf(),
        ensures
            final(self)@ == old(self)@.register(session_id, session),
            final(self)@.wf(),
            final(self).senders() == old(self).senders(),
    {
        proof {
            lemma_register_wf(self@, session_id, session);
        }
        match self.find_session(session_id) {
            Some(i) => {
                self.cli_sessions.set(i, (session_id, session));
            },
            None => {
                self.cli_sessions.push((session_id, session));
            },
        }
    }

    /// Unregister a NekoCLI session, cleaning up all the routes it bound.
    pub fn unregister(&mut self, session_id: &u128)
        requires
            old(self)@.wf(),
        ensures
            final(self)@ == old(self)@.unregister(*session_id),
            final(self)@.wf(),
            final(self).senders() == old(self).senders(),
    {
        let sid = *session_id;
        let ghost m = self@;
        proof {
            lemma_unregister_wf(m, sid);
            lemma_to_map(m.index, sid);
            lemma_find(m.index, sid);
            lemma_del_all(m.routes, Seq::<Seq<char>>::empty());
        }
        let found = self.find_index(sid);
        match found {
            Some(j) => {
                let entry = self.session_conv_index.remove(j);
                let keys = entry.1;
                let ghost kv = strings_view(keys@);
                assert(self@.index =~= del(m.index, sid));
                assert(kv == m.keys_of(sid));
                let mut t: usize = 0;
                assert(m.routes =~= del_all(m.routes, kv.take(0)));
                while t < keys.len()
                    invariant
                        t <= keys@.len(),
                        kv == strings_view(keys@),
                        kv == m.keys_of(sid),
                        self.cli_sessions@ == m.sessions,
                        self@.index == del(m.index, sid),
                        self@.routes == del_all(m.routes, kv.take(t as int)),
                        distinct_keys(m.routes),
                        self.sent@ == m.sent,
                        self.dispatcher == old(self).dispatcher,
                    decreases keys@.len() - t,
                {
                    proof {
                        lemma_del_all(m.routes, kv.take(t as int));
                    }
                    let ghost rs = self@.routes;
                    let ghost k = kv[t as int];
                    match self.find_route(&keys[t]) {
                        Some(r) => {
                            self.conversation_routes.remove(r);
                            assert(self@.routes =~= rs.remove(r as int));
                        },
                        None => {},
                    }
                    assert(self@.routes == del(rs, k));
                    assert(kv.take(t + 1).drop_last() =~= kv.take(t as int));
                    t = t + 1;
                }
                assert(kv.take(keys@.len() as int) =~= kv);
            },
            None => {
                assert(m.keys_of(sid) =~= Seq::<Seq<char>>::empty());
            },
        }
        match self.find_session(sid) {
            Some(i) => {
                self.cli_sessions.remove(i);
            },
            None => {},
        }
        proof {
            lemma_find(m.sessions, sid);
        }
        assert(self@ == m.unregister(sid));
    }

    /// Bind a conversation to a CLI session (after its first message). A conversation bound
    /// before to another session leaves that session's list; each conversation is listed once.
    pub fn bind_conversation(
        &mut self,
        session_id: u128,
        platform: &str,
        platform_user_id: &str,
        conversation_id: &str,
    )
        requires
            old(self)@.wf(),
        ensures
            final(self)@ == old(self)@.bind(session_id, platform@, platform_user_id@, conversation_id@),
            final(self)@.wf(),
            final(self).senders() == old(self).senders(),
    {
        let key = route_key(platform, conversation_id);
        let route = ConversationRoute {
            cli_session_id: session_id,
            platform: platform.to_owned(),
            platform_user_id: platform_user_id.to_owned(),
            conversation_id: conversation_id.to_owned(),
        };
        let ghost m = self@;
        proof {
            lemma_bind_wf(m, session_id, platform@, platform_user_id@, conversation_id@);
            lemma_to_map(m.routes, key@);
            lemma_find(m.routes, key@);
        }
        let previous = match self.find_route(&key) {
            Some(i) => {
                let owner = self.conversation_routes[i].1.cli_session_id;
                self.conversation_routes.set(i, (key.clone(), route));
                assert(self@.routes =~= m.routes.update(i as int, (key@, route@)));
                Some(owner)
            },
            None => {
                self.conversation_routes.push((key.clone(), route));
                assert(self@.routes =~= m.routes.push((key@, route@)));
                None
            },
        };
        assert(previous == m.route_target(platform@, conversation_id@));
        if previous == Some(session_id) {
            assert(self@ == m.bind(session_id, platform@, platform_user_id@, conversation_id@));
            return;
        }
        assert(self@.index == m.index);
        match previous {
            Some(q) => {
                proof {
                    lemma_put(m.index, q, remove_item(m.keys_of(q), key@));
                }
                self.drop_listed_key(q, &key);
            },
            None => {},
        }
        assert(self@.index == m.release(key@));
        self.list_key(session_id, key);
        assert(self@ == m.bind(session_id, platform@, platform_user_id@, conversation_id@));
    }

    /// Take `key` out of the list of session `q`, which holds it.
    fn drop_listed_key(&mut self, q: u128, key: &String)
        requires
            distinct_keys(old(self)@.index),
            old(self)@.keys_of(q).no_duplicates(),
            old(self)@.keys_of(q).contains(key@),
        ensures
            final(self)@ == (RouterModel {
                index: put(old(self)@.index, q, remove_item(old(self)@.keys_of(q), key@)),
                ..old(self)@
            }),
            final(self).dispatcher == old(self).dispatcher,
    {
        let ghost m = self@;
        proof {
            lemma_to_map(m.index, q);
            lemma_find(m.index, q);
        }
        match self.find_index(q) {
            Some(j) => {
                let mut entry = self.session_conv_index.remove(j);
                let ghost before = strings_view(entry.1@);
                assert(before == m.keys_of(q));
                match position_of(&entry.1, key) {
                    Some(t) => {
                        entry.1.remove(t);
                        assert(strings_view(entry.1@) =~= before.remove(t as int));
                    },
                    None => {},
                }
                assert(strings_view(entry.1@) == remove_item(m.keys_of(q), key@));
                self.session_conv_index.insert(j, entry);
                assert(self@.index =~= m.index.update(j as int, (q, remove_item(m.keys_of(q), key@))));
            },
            None => {
                assert(m.keys_of(q) =~= Seq::<Seq<char>>::empty());
                assert(false);
            },
        }
    }

    /// Append `key` to the list of session `sid`, making the list when it has none.
    fn list_key(&mut self, sid: u128, key: String)
        requires
            distinct_keys(old(self)@.index),
        ensures
            final(self)@ == (RouterModel {
                index: put(old(self)@.index, sid, old(self)@.keys_of(sid).push(key@)),
                ..old(self)@
            }),
            final(self).dispatcher == old(self).dispatcher,
    {
        let ghost m = self@;
        proof {
            lemma_to_map(m.index, sid);
            lemma_find(m.index, sid);
        }
        match self.find_index(sid) {
            Some(j) => {
                let mut entry = self.session_conv_index.remove(j);
                let ghost old_keys = entry.1@;
                let ghost kv = key@;
                entry.1.push(key);
                assert(strings_view(entry.1@) =~= strings_view(old_keys).push(kv));
                self.session_conv_index.insert(j, entry);
                assert(self@.index =~= m.index.update(j as int, (sid, m.keys_of(sid).push(kv))));
            },
            None => {
                let ghost kv = key@;
                let mut keys: Vec<String> = Vec::new();
                keys.push(key);
                assert(strings_view(keys@) =~= seq![kv]);
                self.session_conv_index.push((sid, keys));
                assert(m.keys_of(sid) =~= Seq::<Seq<char>>::empty());
                assert(self@.index =~= m.index.push((sid, m.keys_of(sid).push(kv))));
            },
        }
    }

    /// The channel of session `sid` and the envelope to hand to it, or why there is none.
    pub fn delivery(&self, session_id: &u128, msg: Envelope) -> (r: Result<(&tokio::sync::mpsc::UnboundedSender<Envelope>, Envelope), String>)
        requires
            self@.wf(),
        ensures
            if self@.session_map().contains_key(*session_id) {
                r matches Ok((tx, e)) && *tx == self@.session_map()[*session_id].tx && e == msg
            } else {
                r matches Err(x) && x@ == not_found_text(*session_id)
            },
    {
        proof {
            lemma_to_map(self@.sessions, *session_id);
        }
        match self.find_session(*session_id) {
            Some(i) => Ok((&self.cli_sessions[i].1.tx, msg)),
            None => {
                let mut text = "CLI session ".to_owned();
                let id = uuid_to_string(*session_id);
                text.append(id.as_str());
                text.append(" not found");
                Err(text)
            },
        }
    }

    /// Send an envelope to a specific CLI session: it is handed to the session's channel.
    pub fn send_to_cli(&mut self, session_id: &u128, msg: Envelope) -> (r: Result<(), String>)
        requires
            old(self)@.wf(),
        ensures
            final(self)@ == old(self)@.send(*session_id, msg),
            final(self)@.wf(),
            send_outcome(old(self)@, *session_id, r),
            final(self).senders() == old(self).senders(),
    {
        let ghost m0 = self@;
        let ghost handed = msg;
        proof {
            lemma_to_map(m0.sessions, *session_id);
            lemma_find(m0.sessions, *session_id);
        }
        let r = match self.find_session(*session_id) {
            Some(i) => {
                let (id, mut session) = self.cli_sessions.remove(i);
                let sent = channel_send(&mut session, msg);
                self.cli_sessions.insert(i, (id, session));
                assert(self.cli_sessions@ =~= m0.sessions.update(i as int, (id, m0.sessions[i as int].1.with_received(handed))));
                assert(m0.session_map()[*session_id] == m0.sessions[i as int].1);
                assert(self@.sessions == put(m0.sessions, *session_id, m0.session_map()[*session_id].with_received(handed)));
                proof {
                    lemma_put(m0.sessions, *session_id, m0.session_map()[*session_id].with_received(handed));
                }
                match sent {
                    Ok(()) => Ok(()),
                    Err(e) => {
                        let mut text = "send failed: ".to_owned();
                        let reason = send_error_to_string(&e);
                        text.append(reason.as_str());
                        Err(text)
                    },
                }
            },
            None => {
                let mut text = "CLI session ".to_owned();
                let id = uuid_to_string(*session_id);
                text.append(id.as_str());
                text.append(" not found");
                return Err(text);
            },
        };
        proof {
            self.sent@ = self.sent@.push((*session_id, handed));
            lemma_wf_tables(old(self)@, self@);
        }
        r
    }

    /// Route an envelope for a platform conversation to the CLI session it is bound to.
    pub fn route_to_cli(&mut self, platform: &str, conversation_id: &str, msg: Envelope) -> (r: Result<(), String>)
        requires
            old(self)@.wf(),
        ensures
            final(self)@ == old(self)@.route_delivery(platform@, conversation_id@, msg),
            final(self)@.wf(),
            final(self).senders() == old(self).senders(),
            match old(self)@.route_target(platform@, conversation_id@) {
                Some(sid) => send_outcome(old(self)@, sid, r),
                None => r matches Err(e) && e@ == unbound_text(route_key_spec(platform@, conversation_id@)),
            },
    {
        let key = route_key(platform, conversation_id);
        proof {
            lemma_to_map(self@.routes, key@);
        }
        match self.find_route(&key) {
            Some(i) => {
                let sid = self.conversation_routes[i].1.cli_session_id;
                self.send_to_cli(&sid, msg)
            },
            None => {
                let mut text = "no CLI session bound to ".to_owned();
                text.append(key.as_str());
                Err(text)
            },
        }
    }

    /// Register the result sender of a platform with the router's dispatcher.
    pub fn register_sender(&mut self, platform: &str, sender: S)
        ensures
            final(self).senders() == old(self).senders().push((platform@, sender)),
            final(self)@ == old(self)@,
    {
        self.dispatcher.register(platform, sender);
    }

    /// Unregister every result sender of a platform (when its adapter goes away).
    pub fn unregister_sender(&mut self, platform: &str)
        ensures
            final(self).senders() == old(self).senders().filter(|e: (Seq<char>, S)| e.0 != platform@),
            final(self)@ == old(self)@,
    {
        self.dispatcher.unregister(platform);
    }

    /// Pick an available CLI session: the earliest connected one.
    pub fn pick_cli(&self) -> (r: Option<u128>)
        ensures
            r == self@.pick(),
    {
        if self.cli_sessions.len() == 0 {
            None
        } else {
            Some(self.cli_sessions[0].0)
        }
    }

    /// List connected CLI sessions: id, client id and capabilities, in connection order.
    pub fn list_clients(&self) -> (r: Vec<(u128, String, Vec<String>)>)
        ensures
            r@.len() == self@.sessions.len(),
            forall|i: int| 0 <= i < r@.len() ==> {
                &&& (#[trigger] r@[i]).0 == self@.sessions[i].0
                &&& r@[i].1 == self@.sessions[i].1.client_id
                &&& r@[i].2@ == self@.sessions[i].1.capabilities@
            },
    {
        let mut r: Vec<(u128, String, Vec<String>)> = Vec::new();
        let mut i: usize = 0;
        while i < self.cli_sessions.len()
            invariant
                i <= self@.sessions.len(),
                r@.len() == i,
                forall|j: int| 0 <= j < i ==> {
                    &&& (#[trigger] r@[j]).0 == self@.sessions[j].0
                    &&& r@[j].1 == self@.sessions[j].1.client_id
                    &&& r@[j].2@ == self@.sessions[j].1.capabilities@
                },
            decreases self@.sessions.len() - i,
        {
            let entry = &self.cli_sessions[i];
            r.push((entry.0, entry.1.client_id.clone(), copy_strings(&entry.1.capabilities)));
            i = i + 1;
        }
        r
    }

    /// Look up the conversation routes of a CLI session.
    pub fn routes_for_session(&self, session_id: &u128) -> (r: Vec<ConversationRoute>)
        requires
            self@.wf(),
        ensures
            r@.map_values(|x: ConversationRoute| x@) == self@.routes_for_session(*session_id),
    {
        let sid = *session_id;
        let ghost m = self@;
        let ghost f = |k: Seq<char>| m.route_of(k);
        proof {
            lemma_to_map(m.index, sid);
        }
        let mut r: Vec<ConversationRoute> = Vec::new();
        match self.find_index(sid) {
            Some(j) => {
                let keys = &self.session_conv_index[j].1;
                let ghost kv = strings_view(keys@);
                assert(kv == m.keys_of(sid));
                let mut t: usize = 0;
                assert(r@.map_values(|x: ConversationRoute| x@) =~= kv.take(0).filter_map(f));
                while t < keys.len()
                    invariant
                        t <= keys@.len(),
                        kv == strings_view(keys@),
                        m == self@,
                        m.wf(),
                        f == (|k: Seq<char>| m.route_of(k)),
                        r@.map_values(|x: ConversationRoute| x@) == kv.take(t as int).filter_map(f),
                    decreases keys@.len() - t,
                {
                    proof {
                        kv.lemma_filter_map_take_succ(f, t as int);
                        lemma_to_map(m.routes, kv[t as int]);
                    }
                    let ghost before = r@;
                    match self.find_route(&keys[t]) {
                        Some(i) => {
                            let c = copy_route(&self.conversation_routes[i].1);
                            r.push(c);
                            assert(r@.map_values(|x: ConversationRoute| x@) =~= before.map_values(|x: ConversationRoute| x@).push(c@));
                        },
                        None => {},
                    }
                    t = t + 1;
                }
                assert(kv.take(keys@.len() as int) =~= kv);
            },
            None => {
                assert(m.keys_of(sid) =~= Seq::<Seq<char>>::empty());
                assert(r@.map_values(|x: ConversationRoute| x@) =~= m.routes_for_session(sid));
            },
        }
        r
    }

    /// The deliveries of a task result from a CLI session: each route the session bound,
    /// with the sender registered for the route's platform (none when no adapter serves it).
    pub fn dispatch_result(&self, session_id: &u128) -> (r: Vec<(ConversationRoute, Option<&S>)>)
        requires
            self@.wf(),
        ensures
            r@.len() == self@.routes_for_session(*session_id).len(),
            forall|i: int| 0 <= i < r@.len() ==> {
                &&& (#[trigger] r@[i]).0@ == self@.routes_for_session(*session_id)[i]
                &&& is_dispatch_target(self.senders(), r@[i].0@.platform, r@[i].1)
            },
    {
        let routes = self.routes_for_session(session_id);
        let ghost rv = routes@.map_values(|x: ConversationRoute| x@);
        let mut r: Vec<(ConversationRoute, Option<&S>)> = Vec::new();
        let mut i: usize = 0;
        while i < routes.len()
            invariant
                i <= routes@.len(),
                r@.len() == i,
                rv == routes@.map_values(|x: ConversationRoute| x@),
                forall|j: int| 0 <= j < i ==> {
                    &&& (#[trigger] r@[j]).0@ == rv[j]
                    &&& is_dispatch_target(self.senders(), r@[j].0@.platform, r@[j].1)
                },
            decreases routes@.len() - i,
        {
            let route = copy_route(&routes[i]);
            let sender = self.dispatcher.dispatch(route.platform.as_str());
            r.push((route, sender));
            i = i + 1;
        }
        r
    }

    /// Position of session `sid` in the session table.
    fn find_session(&self, sid: u128) -> (r: Option<usize>)
        requires
            distinct_keys(self@.sessions),
        ensures
            match r {
                Some(i) => i == find(self@.sessions, sid) && i < self@.sessions.len(),
                None => find(self@.sessions, sid) == -1,
            },
    {
        proof {
            lemma_find(self@.sessions, sid);
        }
        let mut i: usize = 0;
        while i < self.cli_sessions.len()
            invariant
                i <= self@.sessions.len(),
                distinct_keys(self@.sessions),
                forall|j: int| 0 <= j < i ==> self@.sessions[j].0 != sid,
            decreases self@.sessions.len() - i,
        {
            if self.cli_sessions[i].0 == sid {
                proof {
                    lemma_find_unique(self@.sessions, sid, i as int);
                }
                return Some(i);
            }
            i = i + 1;
        }
        proof {
            lemma_find(self@.sessions, sid);
        }
        None
    }

    /// Position of route key `key` in the route table.
    fn find_route(&self, key: &String) -> (r: Option<usize>)
        requires
            distinct_keys(self@.routes),
        ensures
            match r {
                Some(i) => i == find(self@.routes, key@) && i < self@.routes.len(),
                None => find(self@.routes, key@) == -1,
            },
    {
        let mut i: usize = 0;
        while i < self.conversation_routes.len()
            invariant
                i <= self@.routes.len(),
                distinct_keys(self@.routes),
                forall|j: int| 0 <= j < i ==> self@.routes[j].0 != key@,
            decreases self@.routes.len() - i,
        {
            if self.conversation_routes[i].0 == *key {
                proof {
                    lemma_find_unique(self@.routes, key@, i as int);
                }
                return Some(i);
            }
            i = i + 1;
        }
        proof {
            lemma_find(self@.routes, key@);
        }
        None
    }

    /// Position of session `sid` in the index of bound keys.
    fn find_index(&self, sid: u128) -> (r: Option<usize>)
        requires
            distinct_keys(self@.index),
        ensures
            match r {
                Some(i) => i == find(self@.index, sid) && i < self@.index.len(),
                None => find(self@.index, sid) == -1,
            },
    {
        let mut i: usize = 0;
        while i < self.session_conv_index.len()
            invariant
                i <= self@.index.len(),
                distinct_keys(self@.index),
                forall|j: int| 0 <= j < i ==> self@.index[j].0 != sid,
            decreases self@.index.len() - i,
        {
            if self.session_conv_index[i].0 == sid {
                proof {
                    lemma_find_unique(self@.index, sid, i as int);
                }
                return Some(i);
            }
            i = i + 1;
        }
        proof {
            lemma_find(self@.index, sid);
        }
        None
    }
}

} // verus!
