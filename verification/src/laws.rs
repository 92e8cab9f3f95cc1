//! Properties of the routing table and the dispatcher that span several operations.

use vstd::prelude::*;
use crate::assoc::{find, lemma_find, lemma_put, lemma_to_map, lemma_to_map_dom, put};
use crate::dispatcher::{lemma_filter_serves_none, lemma_first_match_push, lemma_sender_for_filter, sender_for};
use crate::protocol::Envelope;
use crate::text::{hex_char, int_decimal, is_v4_uuid, lemma_parse_decimal, nibble, parse_i64_spec, trim_spec, uuid_text};
use vstd::arithmetic::power::pow;
use crate::tg::{chat_id_spec, strip_tg_spec, tg_command_spec, tg_conversation_spec, tg_user_spec, TgCommand, TgUser};
use crate::router::{
    CliSession, RouterModel, lemma_bind_wf, lemma_register_wf, lemma_routes_for_session, lemma_unregister_wf,
    lemma_wf_tables, route_key_spec,
};

verus! {

/// After a conversation is bound to a session, the conversation routes to that session:
/// the session lists the new route, and a message for the conversation is handed to that
/// session's channel whenever the session is connected.
pub proof fn law_bound_conversation_reaches_session(
    m: RouterModel,
    sid: u128,
    p: Seq<char>,
    u: Seq<char>,
    c: Seq<char>,
    msg: Envelope,
)
    requires
        m.wf(),
    ensures
        m.bind(sid, p, u, c).wf(),
        m.bind(sid, p, u, c).route_target(p, c) == Some(sid),
        m.bind(sid, p, u, c).routes_for_session(sid).contains(RouterModel::new_route(sid, p, u, c)),
        m.session_map().contains_key(sid) ==> m.bind(sid, p, u, c).route_delivery(p, c, msg)
            == m.bind(sid, p, u, c).hand_off(sid, msg),
{
    let b = m.bind(sid, p, u, c);
    let key = route_key_spec(p, c);
    lemma_bind_wf(m, sid, p, u, c);
    lemma_routes_for_session(b, sid);
    assert(b.route_map().contains_key(key));
    assert(b.keys_of(sid).contains(key));
    let j = choose|j: int| 0 <= j < b.keys_of(sid).len() && b.keys_of(sid)[j] == key;
    assert(b.routes_for_session(sid)[j] == RouterModel::new_route(sid, p, u, c));
}

/// Binding a conversation to the session it is already bound to changes nothing: a
/// conversation is listed once, however many of its messages arrive.
pub proof fn law_bind_again_changes_nothing(m: RouterModel, sid: u128, p: Seq<char>, u: Seq<char>, c: Seq<char>)
    requires
        m.wf(),
    ensures
        m.bind(sid, p, u, c).bind(sid, p, u, c) == m.bind(sid, p, u, c),
{
    let b = m.bind(sid, p, u, c);
    let key = route_key_spec(p, c);
    let nr = RouterModel::new_route(sid, p, u, c);
    lemma_bind_wf(m, sid, p, u, c);
    lemma_put(m.routes, key, nr);
    lemma_to_map(b.routes, key);
    lemma_find(b.routes, key);
    assert(b.route_target(p, c) == Some(sid));
    let i = find(b.routes, key);
    assert(b.routes[i] == (key, nr));
    assert(put(b.routes, key, nr) =~= b.routes);
}

/// The routes listed for a session all point to it, and no conversation is listed twice.
pub proof fn law_routes_for_session_are_its_own(m: RouterModel, sid: u128)
    requires
        m.wf(),
    ensures
        forall|i: int| 0 <= i < m.routes_for_session(sid).len()
            ==> (#[trigger] m.routes_for_session(sid)[i]).cli_session_id == sid,
        forall|i: int, j: int| 0 <= i < j < m.routes_for_session(sid).len() ==> {
            ||| (#[trigger] m.routes_for_session(sid)[i]).platform != (#[trigger] m.routes_for_session(sid)[j]).platform
            ||| m.routes_for_session(sid)[i].conversation_id != m.routes_for_session(sid)[j].conversation_id
        },
{
    lemma_routes_for_session(m, sid);
    let rs = m.routes_for_session(sid);
    let ks = m.keys_of(sid);
    assert forall|i: int, j: int| 0 <= i < j < rs.len() implies {
        ||| (#[trigger] rs[i]).platform != (#[trigger] rs[j]).platform
        ||| rs[i].conversation_id != rs[j].conversation_id
    } by {
        assert(ks.no_duplicates());
        assert(ks[i] != ks[j]);
    }
}

/// A conversation bound again to another session leaves the first one: that session no
/// longer lists it, and its leaving does not take the conversation's route along.
pub proof fn law_rebind_moves_conversation(
    m: RouterModel,
    old_sid: u128,
    sid: u128,
    p: Seq<char>,
    u: Seq<char>,
    c: Seq<char>,
)
    requires
        m.wf(),
        old_sid != sid,
    ensures
        forall|i: int| 0 <= i < m.bind(sid, p, u, c).routes_for_session(old_sid).len() ==> {
            ||| (#[trigger] m.bind(sid, p, u, c).routes_for_session(old_sid)[i]).platform != p
            ||| m.bind(sid, p, u, c).routes_for_session(old_sid)[i].conversation_id != c
        },
        m.bind(sid, p, u, c).unregister(old_sid).route_target(p, c) == Some(sid),
        m.bind(sid, p, u, c).unregister(old_sid).route_map()[route_key_spec(p, c)]
            == RouterModel::new_route(sid, p, u, c),
{
    let b = m.bind(sid, p, u, c);
    let key = route_key_spec(p, c);
    lemma_bind_wf(m, sid, p, u, c);
    lemma_routes_for_session(b, old_sid);
    let rs = b.routes_for_session(old_sid);
    assert forall|i: int| 0 <= i < rs.len() implies {
        ||| (#[trigger] rs[i]).platform != p
        ||| rs[i].conversation_id != c
    } by {
        let k = b.keys_of(old_sid)[i];
        assert(b.keys_of(old_sid).contains(k));
    }
    lemma_unregister_wf(b, old_sid);
    if b.keys_of(old_sid).to_set().contains(key) {
        assert(b.keys_of(old_sid).contains(key));
    }
}

/// A registered session is connected under its id, and whenever some session was connected
/// before, the session picked for new conversations stays the same.
pub proof fn law_register_then_pick(m: RouterModel, sid: u128, s: CliSession)
    requires
        m.wf(),
    ensures
        m.register(sid, s).wf(),
        m.register(sid, s).session_map().contains_key(sid),
        m.register(sid, s).session_map()[sid] == s,
        m.register(sid, s).pick() is Some,
        m.pick() is Some ==> m.register(sid, s).pick() == m.pick(),
        m.pick() is None ==> m.register(sid, s).pick() == Some(sid),
{
    lemma_register_wf(m, sid, s);
    lemma_find(m.sessions, sid);
}

/// A session that connects and leaves again, having bound nothing, leaves the router as it was.
pub proof fn law_register_unregister_roundtrip(m: RouterModel, sid: u128, s: CliSession)
    requires
        m.wf(),
        !m.session_map().contains_key(sid),
        !m.index_map().contains_key(sid),
    ensures
        m.register(sid, s).unregister(sid) == m,
{
    let r = m.register(sid, s);
    lemma_to_map(m.sessions, sid);
    lemma_to_map(m.index, sid);
    lemma_find(m.sessions, sid);
    lemma_find(r.sessions, sid);
    assert(r.sessions == m.sessions.push((sid, s)));
    assert(r.sessions[m.sessions.len() as int].0 == sid);
    assert(find(r.sessions, sid) == m.sessions.len());
    assert(r.sessions.remove(m.sessions.len() as int) =~= m.sessions);
    assert(r.index == m.index);
    assert(r.keys_of(sid) =~= Seq::<Seq<char>>::empty());
    assert(r.unregister(sid).sessions == m.sessions);
    assert(r.unregister(sid).routes == m.routes);
    assert(r.unregister(sid).index == m.index);
}

/// The session picked for a new conversation is a connected one, and there is one exactly
/// when some session is connected.
pub proof fn law_pick_is_connected(m: RouterModel)
    requires
        m.wf(),
    ensures
        m.pick() is Some <==> m.session_map().dom().len() > 0,
        m.pick() matches Some(sid) ==> m.session_map().contains_key(sid),
{
    lemma_to_map_dom(m.sessions);
    if m.sessions.len() > 0 {
        lemma_find(m.sessions, m.sessions[0].0);
        assert(m.session_map().contains_key(m.sessions[0].0));
    } else {
        assert(m.session_map().dom() =~= Set::<u128>::empty());
    }
}

/// After a session leaves, it is no longer connected, it has no routes, and no conversation
/// routes to it.
pub proof fn law_unregister_forgets(m: RouterModel, sid: u128)
    requires
        m.wf(),
    ensures
        m.unregister(sid).wf(),
        !m.unregister(sid).session_map().contains_key(sid),
        m.unregister(sid).routes_for_session(sid).len() == 0,
        forall|k: Seq<char>| #[trigger] m.unregister(sid).route_map().contains_key(k)
            ==> m.unregister(sid).route_map()[k].cli_session_id != sid,
{
    lemma_unregister_wf(m, sid);
    let un = m.unregister(sid);
    assert forall|k: Seq<char>| #[trigger] un.route_map().contains_key(k)
        implies un.route_map()[k].cli_session_id != sid by {
        assert(un.keys_of(un.route_map()[k].cli_session_id).contains(k));
    }
}

/// A route that points to another session survives a session's leaving unchanged.
pub proof fn law_unregister_keeps_other_routes(m: RouterModel, sid: u128, k: Seq<char>)
    requires
        m.wf(),
        m.route_map().contains_key(k),
        m.route_map()[k].cli_session_id != sid,
    ensures
        m.unregister(sid).route_map().contains_key(k),
        m.unregister(sid).route_map()[k] == m.route_map()[k],
{
    lemma_unregister_wf(m, sid);
    if m.keys_of(sid).to_set().contains(k) {
        assert(m.keys_of(sid).contains(k));
    }
}

/// Route keys tell conversations apart when platform names hold no '/'.
pub proof fn law_route_key_injective(p1: Seq<char>, c1: Seq<char>, p2: Seq<char>, c2: Seq<char>)
    requires
        !p1.contains('/'),
        !p2.contains('/'),
        route_key_spec(p1, c1) == route_key_spec(p2, c2),
    ensures
        p1 == p2,
        c1 == c2,
{
    let k = route_key_spec(p1, c1);
    assert(k[p1.len() as int] == '/');
    assert(k[p2.len() as int] == '/');
    if p1.len() < p2.len() {
        assert(p2[p1.len() as int] == k[p1.len() as int]);
        assert(p2.contains('/'));
    } else if p2.len() < p1.len() {
        assert(p1[p2.len() as int] == k[p2.len() as int]);
        assert(p1.contains('/'));
    }
    assert(p1 =~= k.take(p1.len() as int));
    assert(p2 =~= k.take(p2.len() as int));
    assert(c1 =~= k.skip(p1.len() as int + 1));
    assert(c2 =~= k.skip(p2.len() as int + 1));
}

/// A sender registered for a platform that had none receives that platform's results.
pub proof fn law_dispatch_after_register<S>(senders: Seq<(Seq<char>, S)>, p: Seq<char>, s: S)
    requires
        sender_for(senders, p) is None,
    ensures
        sender_for(senders.push((p, s)), p) == Some(s),
{
    lemma_first_match_push(senders, (p, s), p);
}

/// Registering a sender does not change where another platform's results go, nor where
/// the results of a platform that already had a sender go.
pub proof fn law_dispatch_register_keeps<S>(senders: Seq<(Seq<char>, S)>, p: Seq<char>, q: Seq<char>, s: S)
    requires
        p != q || sender_for(senders, q) is Some,
    ensures
        sender_for(senders.push((p, s)), q) == sender_for(senders, q),
{
    lemma_first_match_push(senders, (p, s), q);
}

/// After a platform's senders are unregistered, its results go nowhere.
pub proof fn law_dispatch_after_unregister<S>(senders: Seq<(Seq<char>, S)>, p: Seq<char>)
    ensures
        sender_for(senders.filter(|e: (Seq<char>, S)| e.0 != p), p) is None,
{
    lemma_filter_serves_none(senders, p);
}

/// Unregistering one platform's senders leaves where every other platform's results go.
pub proof fn law_dispatch_unregister_keeps_others<S>(senders: Seq<(Seq<char>, S)>, p: Seq<char>, q: Seq<char>)
    requires
        p != q,
    ensures
        sender_for(senders.filter(|e: (Seq<char>, S)| e.0 != p), q) == sender_for(senders, q),
{
    lemma_sender_for_filter(senders, p, q);
}

/// A result returns to the app that sent the task: once an app has registered its sender
/// under a platform name that no other adapter uses, and a conversation of that platform is
/// bound to a worker, the worker's routes hold that conversation, and a result for it goes
/// to the app's sender.
pub proof fn law_result_returns_to_app<S>(
    m: RouterModel,
    senders: Seq<(Seq<char>, S)>,
    sid: u128,
    app: Seq<char>,
    u: Seq<char>,
    c: Seq<char>,
    tx: S,
)
    requires
        m.wf(),
        sender_for(senders, app) is None,
    ensures
        exists|i: int| 0 <= i < m.bind(sid, app, u, c).routes_for_session(sid).len() && {
            let r = #[trigger] m.bind(sid, app, u, c).routes_for_session(sid)[i];
            &&& r == RouterModel::new_route(sid, app, u, c)
            &&& sender_for(senders.push((app, tx)), r.platform) == Some(tx)
        },
{
    law_bound_conversation_reaches_session(m, sid, app, u, c, arbitrary());
    let rs = m.bind(sid, app, u, c).routes_for_session(sid);
    let i = choose|i: int| 0 <= i < rs.len() && rs[i] == RouterModel::new_route(sid, app, u, c);
    lemma_first_match_push(senders, (app, tx), app);
    assert(rs[i].platform == app);
}

/// The chat a Telegram conversation id names is the chat it was made from: a task result
/// for conversation `tg:<chat>` goes back to that chat.
pub proof fn law_tg_chat_roundtrip(chat: i64)
    ensures
        chat_id_spec(tg_conversation_spec(chat)) == Ok::<i64, Seq<char>>(chat),
{
    reveal_strlit("tg:");
    let s = tg_conversation_spec(chat);
    assert(s.take(3) =~= "tg:"@);
    assert(strip_tg_spec(s) =~= int_decimal(chat as int));
    lemma_parse_decimal(chat);
}

/// A message sent to a connected session is handed to that session's channel and to no
/// other: that session's record of handed envelopes gains exactly the message, its channel
/// stays the same, every other session is unchanged, and no session comes or goes. A
/// message for a session that is not connected is handed to nobody.
pub proof fn law_send_reaches_only_that_session(m: RouterModel, sid: u128, msg: Envelope)
    requires
        m.wf(),
    ensures
        m.send(sid, msg).wf(),
        m.send(sid, msg).session_map().dom() == m.session_map().dom(),
        m.session_map().contains_key(sid) ==> {
            &&& m.send(sid, msg).session_map()[sid].received@ == m.session_map()[sid].received@.push(msg)
            &&& m.send(sid, msg).session_map()[sid].tx == m.session_map()[sid].tx
        },
        forall|x: u128| x != sid && #[trigger] m.session_map().contains_key(x)
            ==> m.send(sid, msg).session_map()[x] == m.session_map()[x],
        !m.session_map().contains_key(sid) ==> m.send(sid, msg) == m,
{
    if m.session_map().contains_key(sid) {
        let s2 = m.session_map()[sid].with_received(msg);
        lemma_put(m.sessions, sid, s2);
        lemma_wf_tables(m, m.send(sid, msg));
        assert(m.send(sid, msg).session_map().dom() =~= m.session_map().dom());
    }
}

/// A message routed for a conversation is handed to the channel of the session its route
/// points to, when that session is connected, and to no other session's channel.
pub proof fn law_route_reaches_only_bound_session(m: RouterModel, p: Seq<char>, c: Seq<char>, msg: Envelope)
    requires
        m.wf(),
    ensures
        m.route_delivery(p, c, msg).session_map().dom() == m.session_map().dom(),
        forall|x: u128| #[trigger] m.session_map().contains_key(x) ==>
            m.route_delivery(p, c, msg).session_map()[x].received@ == if m.route_map().contains_key(route_key_spec(p, c))
                && m.route_map()[route_key_spec(p, c)].cli_session_id == x {
                m.session_map()[x].received@.push(msg)
            } else {
                m.session_map()[x].received@
            },
{
    match m.route_target(p, c) {
        Some(sid) => {
            law_send_reaches_only_that_session(m, sid, msg);
        },
        None => {},
    }
}

/// The platform user id of a Telegram message reads back as the sender's id, for every id.
pub proof fn law_tg_user_roundtrip(u: TgUser)
    ensures
        parse_i64_spec(tg_user_spec(Some(u))) == Some(u.id),
        tg_user_spec(None).len() == 0,
{
    lemma_parse_decimal(u.id);
}

/// A Telegram text is left alone exactly when it is blank, and every text that is not
/// blank and is not exactly one of the four bot commands goes to the agent.
pub proof fn law_tg_classification(t: Seq<char>)
    ensures
        tg_command_spec(None) == TgCommand::Ignore,
        tg_command_spec(Some(t)) == TgCommand::Ignore <==> trim_spec(t).len() == 0,
        trim_spec(t).len() > 0 && t != "/start"@ && t != "/help"@ && t != "/status"@ && t != "/ping"@
            ==> tg_command_spec(Some(t)) == TgCommand::Forward,
        trim_spec(t).len() > 0 && (t == "/start"@ || t == "/help"@) ==> tg_command_spec(Some(t)) == TgCommand::Help,
        trim_spec(t).len() > 0 && (t == "/status"@ || t == "/ping"@) ==> tg_command_spec(Some(t)) == TgCommand::Status,
{
    reveal_strlit("/start");
    reveal_strlit("/help");
    reveal_strlit("/status");
    reveal_strlit("/ping");
}

/// The name given to a new app comes from a random (version 4) UUID: its version digit is
/// `4`, so it is never the name of the nil id, and it never equals a fixed platform name
/// such as Telegram's.
pub proof fn law_new_app_name_is_random(id: u128)
    requires
        is_v4_uuid(id),
    ensures
        ("ringapp-"@ + uuid_text(id))[22] == '4',
        "ringapp-"@ + uuid_text(id) != "ringapp-"@ + uuid_text(0),
        "ringapp-"@ + uuid_text(id) != crate::tg::TG_PLATFORM@,
{
    reveal_strlit("ringapp-");
    reveal_strlit("telegram");
    let v = id;
    assert((v / 0x1000_0000_0000_0000_0000u128) % 16u128 == 4u128) by (bit_vector)
        requires
            v & 0xf000_c000_0000_0000_0000u128 == 0x4000_8000_0000_0000_0000u128;
    assert(pow(16, 19) == 0x1000_0000_0000_0000_0000int) by {
        reveal_with_fuel(pow, 20);
    }
    assert(nibble(v, 12) == 4);
    assert(uuid_text(v)[14] == hex_char(nibble(v, 12)));
    assert(uuid_text(v)[14] == '4');
    assert(("ringapp-"@ + uuid_text(v))[22] == uuid_text(v)[14]);
    assert(nibble(0, 12) == 0);
    assert(("ringapp-"@ + uuid_text(0))[22] == '0');
    assert(("ringapp-"@ + uuid_text(v)).len() == 44);
    assert(crate::tg::TG_PLATFORM@ == "telegram"@);
}

} // verus!
