//! The recurring check-in campaign: one record per chat channel, a roster
//! of enrolled users, a broadcast that fires once every 24 hours, and a
//! button press that marks a user as alive.
use vstd::prelude::*;

use crate::codec;
use crate::store::{sp_only_key_differs, store_tbl, DbError, Store};
use crate::text;

verus! {

/// The table that holds one record per campaign channel.
pub open spec fn checkin_table() -> Seq<char> {
    "aydy"@
}

/// Seconds in the broadcast period: a campaign fires every 24 hours.
pub const BROADCAST_PERIOD_SECS: i64 = 86400;

/// One enrolled user's standing.
pub struct UserStatus {
    pub user_name: String,
    pub last_response: i64,
    pub enrolled_at: i64,
}

pub ghost struct UserStatusV {
    pub user_name: Seq<char>,
    pub last_response: i64,
    pub enrolled_at: i64,
}

impl View for UserStatus {
    type V = UserStatusV;

    open spec fn view(&self) -> UserStatusV {
        UserStatusV {
            user_name: self.user_name@,
            last_response: self.last_response,
            enrolled_at: self.enrolled_at,
        }
    }
}

impl Clone for UserStatus {
    fn clone(&self) -> (r: Self)
        ensures
            r@ == self@,
    {
        UserStatus {
            user_name: self.user_name.clone(),
            last_response: self.last_response,
            enrolled_at: self.enrolled_at,
        }
    }
}

/// One campaign: the channel it runs in, the message it last posted, when
/// it last fired, and who is enrolled.
pub struct AydyState {
    pub channel_id: u64,
    pub guild_id: Option<u64>,
    pub message_id: Option<u64>,
    pub last_sent: i64,
    pub enrolled_users: Vec<(u64, UserStatus)>,
}

pub ghost struct AydyStateV {
    pub channel_id: u64,
    pub guild_id: Option<u64>,
    pub message_id: Option<u64>,
    pub last_sent: i64,
    pub enrolled_users: Seq<(u64, UserStatusV)>,
}

/// The ghost image of an enrollment roster.
pub open spec fn roster_view(v: Seq<(u64, UserStatus)>) -> Seq<(u64, UserStatusV)> {
    Seq::new(v.len(), |i: int| (v[i].0, v[i].1@))
}

impl View for AydyState {
    type V = AydyStateV;

    open spec fn view(&self) -> AydyStateV {
        AydyStateV {
            channel_id: self.channel_id,
            guild_id: self.guild_id,
            message_id: self.message_id,
            last_sent: self.last_sent,
            enrolled_users: roster_view(self.enrolled_users@),
        }
    }
}

/// Whether a user appears in the roster.
pub open spec fn sp_enrolled(us: Seq<(u64, UserStatusV)>, user_id: u64) -> bool {
    exists|i: int| 0 <= i < us.len() && (#[trigger] us[i]).0 == user_id
}

/// Each user appears at most once in the roster.
pub open spec fn roster_wf(us: Seq<(u64, UserStatusV)>) -> bool {
    forall|i: int, j: int| 0 <= i < j < us.len() ==> (#[trigger] us[i]).0 != (#[trigger] us[j]).0
}

/// The non-responder cutoff: enrolled users whose last response is older
/// than `hours` hours before `now`, in roster order.
pub open spec fn sp_non_responders(
    us: Seq<(u64, UserStatusV)>,
    hours: i64,
    now: i64,
) -> Seq<(u64, UserStatusV)> {
    us.filter(|p: (u64, UserStatusV)| p.1.last_response < now - hours * 3600)
}

/// Whether a campaign that last fired at `last_sent` is due at `now`.
pub open spec fn sp_broadcast_due(last_sent: i64, now: i64) -> bool {
    now - last_sent >= BROADCAST_PERIOD_SECS
}

/// The campaign after a broadcast at `now` posted message `message_id`.
pub open spec fn sp_after_broadcast(v: AydyStateV, message_id: u64, now: i64) -> AydyStateV {
    AydyStateV {
        message_id: Some(message_id),
        last_sent: now,
        channel_id: v.channel_id,
        guild_id: v.guild_id,
        enrolled_users: v.enrolled_users,
    }
}

/// The roster after `user_id` checks in at `now` under `name`: a new user
/// is appended with both stamps at `now`, a known one keeps `enrolled_at`
/// and gets a fresh `last_response` and name.
pub open spec fn sp_checked_in(
    us: Seq<(u64, UserStatusV)>,
    user_id: u64,
    name: Seq<char>,
    now: i64,
    us2: Seq<(u64, UserStatusV)>,
) -> bool {
    if !sp_enrolled(us, user_id) {
        us2 == us.push(
            (user_id, UserStatusV { user_name: name, last_response: now, enrolled_at: now }),
        )
    } else {
        exists|i: int|
            0 <= i < us.len() && (#[trigger] us[i]).0 == user_id && us2 == us.update(
                i,
                (
                    user_id,
                    UserStatusV {
                        user_name: name,
                        last_response: now,
                        enrolled_at: us[i].1.enrolled_at,
                    },
                ),
            )
    }
}

/// A broadcast at `t1` puts the next firing at least a full period away:
/// for any `t2` less than a period after `t1`, the campaign is not due.
pub proof fn lemma_broadcast_interval(v: AydyStateV, message_id: u64, t1: i64, t2: i64)
    requires
        sp_broadcast_due(v.last_sent, t1),
        t2 < t1 + BROADCAST_PERIOD_SECS,
    ensures
        !sp_broadcast_due(sp_after_broadcast(v, message_id, t1).last_sent, t2),
{
}

/// After a check-in at `now`, every roster entry of that user carries
/// `last_response == now`, and the check-in touches nobody else.
pub proof fn lemma_checked_in_fresh(
    us: Seq<(u64, UserStatusV)>,
    us2: Seq<(u64, UserStatusV)>,
    user_id: u64,
    name: Seq<char>,
    now: i64,
)
    requires
        roster_wf(us),
        sp_checked_in(us, user_id, name, now, us2),
    ensures
        forall|i: int|
            0 <= i < us2.len() && (#[trigger] us2[i]).0 == user_id ==> us2[i].1.last_response
                == now,
        roster_wf(us2),
{
    if !sp_enrolled(us, user_id) {
        assert forall|i: int|
            0 <= i < us2.len() && (#[trigger] us2[i]).0 == user_id implies us2[i].1.last_response
            == now by {
            if i < us.len() {
                assert(us[i].0 == user_id);
                assert(sp_enrolled(us, user_id));
            }
        }
    } else {
        let w = choose|w: int|
            0 <= w < us.len() && (#[trigger] us[w]).0 == user_id && us2 == us.update(
                w,
                (
                    user_id,
                    UserStatusV {
                        user_name: name,
                        last_response: now,
                        enrolled_at: us[w].1.enrolled_at,
                    },
                ),
            );
        assert forall|i: int|
            0 <= i < us2.len() && (#[trigger] us2[i]).0 == user_id implies us2[i].1.last_response
            == now by {
            if i != w {
                assert(us2[i] == us[i]);
                assert(us[i].0 == user_id && us[w].0 == user_id);
            }
        }
    }
}

/// A user whose last response is `now` itself is never a non-responder,
/// for any non-negative window: a fresh enrollment cannot be stale.
pub proof fn lemma_fresh_not_non_responder(
    us: Seq<(u64, UserStatusV)>,
    p: (u64, UserStatusV),
    hours: i64,
    now: i64,
)
    requires
        hours >= 0,
        p.1.last_response == now,
    ensures
        !sp_non_responders(us, hours, now).contains(p),
{
    let pred = |q: (u64, UserStatusV)| q.1.last_response < now - hours * 3600;
    assert(hours * 3600 >= 0) by (nonlinear_arith)
        requires
            hours >= 0,
    ;
    assert(!pred(p));
    if sp_non_responders(us, hours, now).contains(p) {
        let w = choose|w: int|
            0 <= w < us.filter(pred).len() && us.filter(pred)[w] == p;
        us.lemma_filter_pred(pred, w);
    }
}


// ---------------------------------------------------------------------------
// Roster operations
// ---------------------------------------------------------------------------
impl AydyState {
    /// A fresh campaign for one channel, started at `now`, with nobody
    /// enrolled and no message posted yet.
    pub fn new(channel_id: u64, guild_id: Option<u64>, now: i64) -> (r: AydyState)
        ensures
            r@ == (AydyStateV {
                channel_id,
                guild_id,
                message_id: None,
                last_sent: now,
                enrolled_users: Seq::empty(),
            }),
    {
        let r = AydyState {
            channel_id,
            guild_id,
            message_id: None,
            last_sent: now,
            enrolled_users: Vec::new(),
        };
        assert(roster_view(r.enrolled_users@) =~= Seq::<(u64, UserStatusV)>::empty());
        r
    }

    /// The enrolled users whose last response is older than `hours` hours
    /// before `now`, in roster order.
    pub fn get_non_responders(&self, hours: i64, now: i64) -> (r: Vec<(u64, UserStatus)>)
        ensures
            roster_view(r@) == sp_non_responders(self@.enrolled_users, hours, now),
    {
        let ghost rv = roster_view(self.enrolled_users@);
        let ghost pred = |p: (u64, UserStatusV)| p.1.last_response < now - hours * 3600;
        let mut out: Vec<(u64, UserStatus)> = Vec::new();
        let mut i: usize = 0;
        proof {
            reveal(Seq::filter);
        }
        assert(roster_view(out@) =~= rv.subrange(0, 0).filter(pred));
        while i < self.enrolled_users.len()
            invariant
                i <= self.enrolled_users@.len(),
                rv == roster_view(self.enrolled_users@),
                pred == (|p: (u64, UserStatusV)| p.1.last_response < now - hours * 3600),
                roster_view(out@) == rv.subrange(0, i as int).filter(pred),
            decreases self.enrolled_users@.len() - i,
        {
            let entry = &self.enrolled_users[i];
            let ghost out0 = out@;
            let stale: bool = (entry.1.last_response as i128) < (now as i128) - (hours as i128)
                * 3600;
            proof {
                reveal(Seq::filter);
                assert(rv[i as int] == (entry.0, entry.1@));
                assert(stale == pred(rv[i as int]));
                let a = rv.subrange(0, i + 1 as int);
                assert(a.drop_last() =~= rv.subrange(0, i as int));
                assert(a.last() == rv[i as int]);
                assert(a.filter(pred) == if pred(a.last()) {
                    a.drop_last().filter(pred).push(a.last())
                } else {
                    a.drop_last().filter(pred)
                });
            }
            if stale {
                out.push((entry.0, entry.1.clone()));
                proof {
                    assert(roster_view(out@) =~= roster_view(out0).push(rv[i as int]));
                    assert(roster_view(out@) =~= rv.subrange(0, i + 1 as int).filter(pred));
                }
            } else {
                proof {
                    assert(roster_view(out@) =~= rv.subrange(0, i + 1 as int).filter(pred));
                }
            }
            i = i + 1;
        }
        proof {
            assert(rv.subrange(0, rv.len() as int) =~= rv);
        }
        out
    }

    /// Mark a check-in: enroll a new user with both stamps at `now`, or
    /// refresh a known user's last response and display name.
    pub fn update_user_response(&mut self, user_id: u64, user_name: String, now: i64)
        ensures
            sp_checked_in(
                old(self)@.enrolled_users,
                user_id,
                user_name@,
                now,
                final (self)@.enrolled_users,
            ),
            final (self)@.channel_id == old(self)@.channel_id,
            final (self)@.guild_id == old(self)@.guild_id,
            final (self)@.message_id == old(self)@.message_id,
            final (self)@.last_sent == old(self)@.last_sent,
    {
        let ghost us = roster_view(self.enrolled_users@);
        let mut pos: Option<usize> = None;
        let mut i: usize = 0;
        while i < self.enrolled_users.len()
            invariant
                i <= self.enrolled_users@.len(),
                us == roster_view(self.enrolled_users@),
                (pos matches Some(p) ==> 0 <= p < i && us[p as int].0 == user_id),
                pos is None ==> forall|j: int| 0 <= j < i ==> (#[trigger] us[j]).0 != user_id,
            decreases self.enrolled_users@.len() - i,
        {
            if pos.is_none() && self.enrolled_users[i].0 == user_id {
                pos = Some(i);
                proof {
                    assert(us[i as int].0 == user_id);
                }
            }
            i = i + 1;
        }
        match pos {
            Some(p) => {
                let kept_enrolled_at = self.enrolled_users[p].1.enrolled_at;
                self.enrolled_users[p] = (
                    user_id,
                    UserStatus { user_name, last_response: now, enrolled_at: kept_enrolled_at },
                );
                proof {
                    assert(sp_enrolled(us, user_id)) by {
                        assert(us[p as int].0 == user_id);
                    }
                    assert(roster_view(self.enrolled_users@) =~= us.update(
                        p as int,
                        (
                            user_id,
                            UserStatusV {
                                user_name: final (self).enrolled_users@[p as int].1.user_name@,
                                last_response: now,
                                enrolled_at: us[p as int].1.enrolled_at,
                            },
                        ),
                    ));
                }
            },
            None => {
                proof {
                    if sp_enrolled(us, user_id) {
                        let w = choose|w: int|
                            0 <= w < us.len() && (#[trigger] us[w]).0 == user_id;
                        assert(us[w].0 != user_id);
                    }
                }
                self.enrolled_users.push(
                    (
                        user_id,
                        UserStatus { user_name, last_response: now, enrolled_at: now },
                    ),
                );
                proof {
                    assert(roster_view(self.enrolled_users@) =~= us.push(
                        (
                            user_id,
                            UserStatusV {
                                user_name: final (self).enrolled_users@.last().1.user_name@,
                                last_response: now,
                                enrolled_at: now,
                            },
                        ),
                    ));
                }
            },
        }
    }
}

// ---------------------------------------------------------------------------
// Wire form
// ---------------------------------------------------------------------------
/// The stored form of one enrolled user's standing.
pub open spec fn enc_user_status(u: UserStatusV) -> Seq<char> {
    "{\"user_name\":"@ + codec::enc_str(u.user_name) + ",\"last_response\":"@ + codec::enc_i64(
        u.last_response as int,
    ) + ",\"enrolled_at\":"@ + codec::enc_i64(u.enrolled_at as int) + "}"@
}

/// The roster entries from index `k` on: decimal user ids as keys, each
/// user's standing as the value, comma-separated.
pub open spec fn enc_roster_from(us: Seq<(u64, UserStatusV)>, k: int) -> Seq<char>
    decreases us.len() - k,
{
    if k < 0 || k >= us.len() {
        Seq::empty()
    } else if k == us.len() - 1 {
        enc_roster_entry(us[k])
    } else {
        enc_roster_entry(us[k]) + seq![','] + enc_roster_from(us, k + 1)
    }
}

pub open spec fn enc_roster_entry(p: (u64, UserStatusV)) -> Seq<char> {
    seq!['"'] + codec::enc_u64(p.0 as nat) + "\":"@ + enc_user_status(p.1)
}

/// The stamps and references of a campaign's stored form.
#[verifier::opaque]
pub open spec fn enc_aydy_hdr(v: AydyStateV) -> Seq<char> {
    "{\"channel_id\":"@ + codec::enc_u64(v.channel_id as nat) + ",\"guild_id\":"@
        + codec::enc_opt_u64(codec::opt_u64_int(v.guild_id)) + ",\"message_id\":"@
        + codec::enc_opt_u64(codec::opt_u64_int(v.message_id)) + ",\"last_sent\":"@
        + codec::enc_i64(v.last_sent as int)
}

/// The stored form of one campaign record.
pub open spec fn enc_aydy(v: AydyStateV) -> Seq<char> {
    enc_aydy_hdr(v) + (",\"enrolled_users\":{"@ + enc_roster_from(v.enrolled_users, 0)
        + "}}"@)
}

/// Parse one enrolled user's standing.
pub open spec fn sp_parse_user_status(s: Seq<char>, i: int) -> Option<(UserStatusV, int)> {
    match codec::sp_pfx_str(s, i, "{\"user_name\":"@) {
        Some((name, a)) => match codec::sp_pfx_i64(s, a, ",\"last_response\":"@) {
            Some((lr, b)) => match codec::sp_pfx_i64(s, b, ",\"enrolled_at\":"@) {
                Some((ea, c)) => match codec::sp_lit(s, c, "}"@) {
                    Some(d) => Some(
                        (
                            UserStatusV {
                                user_name: name,
                                last_response: lr as i64,
                                enrolled_at: ea as i64,
                            },
                            d,
                        ),
                    ),
                    None => None,
                },
                None => None,
            },
            None => None,
        },
        None => None,
    }
}

/// Parse comma-separated roster entries, up to the closing brace.
pub open spec fn sp_parse_roster_items(s: Seq<char>, i: int) -> Option<
    (Seq<(u64, UserStatusV)>, int),
>
    decreases s.len() - i,
{
    match codec::sp_pfx_u64(s, i, "\""@) {
        Some((uid, a)) => match codec::sp_lit(s, a, "\":"@) {
            Some(b) => match sp_parse_user_status(s, b) {
                Some((st, j)) => if i < j <= s.len() {
                    match codec::sp_lit(s, j, ","@) {
                        Some(k) => match sp_parse_roster_items(s, k) {
                            Some((rest, e)) => Some((seq![(uid as u64, st)] + rest, e)),
                            None => None,
                        },
                        None => match codec::sp_lit(s, j, "}"@) {
                            Some(k) => Some((seq![(uid as u64, st)], k)),
                            None => None,
                        },
                    }
                } else {
                    None
                },
                None => None,
            },
            None => None,
        },
        None => None,
    }
}

/// Parse a campaign's stamps and references.
#[verifier::opaque]
pub open spec fn sp_parse_aydy_hdr(s: Seq<char>, i: int) -> Option<
    ((int, Option<int>, Option<int>, int), int),
> {
    match codec::sp_pfx_u64(s, i, "{\"channel_id\":"@) {
        Some((cid, a)) => match codec::sp_pfx_opt_u64(s, a, ",\"guild_id\":"@) {
            Some((gid, b)) => match codec::sp_pfx_opt_u64(s, b, ",\"message_id\":"@) {
                Some((mid, c)) => match codec::sp_pfx_i64(s, c, ",\"last_sent\":"@) {
                    Some((ls, d)) => Some(((cid, gid, mid, ls), d)),
                    None => None,
                },
                None => None,
            },
            None => None,
        },
        None => None,
    }
}

/// Decode one stored campaign record.
pub open spec fn sp_dec_aydy(s: Seq<char>) -> Option<AydyStateV> {
    match sp_parse_aydy_hdr(s, 0) {
        Some(((cid, gid, mid, ls), d)) => match codec::sp_lit(s, d, ",\"enrolled_users\":{"@) {
            Some(e) => {
                let roster: Option<(Seq<(u64, UserStatusV)>, int)> = match codec::sp_lit(
                    s,
                    e,
                    "}"@,
                ) {
                    Some(f) => Some((Seq::empty(), f)),
                    None => sp_parse_roster_items(s, e),
                };
                match roster {
                    Some((us, f)) => match codec::sp_lit(s, f, "}"@) {
                        Some(w) => if w == s.len() {
                            Some(
                                AydyStateV {
                                    channel_id: cid as u64,
                                    guild_id: codec::opt_int_u64(gid),
                                    message_id: codec::opt_int_u64(mid),
                                    last_sent: ls as i64,
                                    enrolled_users: us,
                                },
                            )
                        } else {
                            None
                        },
                        None => None,
                    },
                    None => None,
                }
            },
            None => None,
        },
        None => None,
    }
}

/// Write one enrolled user's standing.
fn write_user_status(out: &mut Vec<char>, u: &UserStatus)
    ensures
        final (out)@ == old(out)@ + enc_user_status(u@),
{
    text::push_str_chars(out, "{\"user_name\":");
    codec::write_str_escaped(out, u.user_name.as_str());
    text::push_str_chars(out, ",\"last_response\":");
    codec::write_i64(out, u.last_response);
    text::push_str_chars(out, ",\"enrolled_at\":");
    codec::write_i64(out, u.enrolled_at);
    text::push_str_chars(out, "}");
    assert(final (out)@ =~= old(out)@ + enc_user_status(u@));
}

/// Write the roster entries from index `k` on.
fn write_roster_from(out: &mut Vec<char>, us: &Vec<(u64, UserStatus)>, k: usize)
    requires
        k <= us@.len(),
    ensures
        final (out)@ == old(out)@ + enc_roster_from(roster_view(us@), k as int),
    decreases us@.len() - k,
{
    if k < us.len() {
        out.push('"');
        codec::write_u64(out, us[k].0);
        text::push_str_chars(out, "\":");
        write_user_status(out, &us[k].1);
        proof {
            assert(roster_view(us@)[k as int] == (us@[k as int].0, us@[k as int].1@));
        }
        if k + 1 < us.len() {
            out.push(',');
            write_roster_from(out, us, k + 1);
            assert(final (out)@ =~= old(out)@ + enc_roster_from(roster_view(us@), k as int));
        } else {
            assert(final (out)@ =~= old(out)@ + enc_roster_from(roster_view(us@), k as int));
        }
    }
}

fn write_aydy_hdr(out: &mut Vec<char>, st: &AydyState)
    ensures
        final (out)@ == old(out)@ + enc_aydy_hdr(st@),
{
    proof {
        reveal(enc_aydy_hdr);
    }
    text::push_str_chars(out, "{\"channel_id\":");
    codec::write_u64(out, st.channel_id);
    text::push_str_chars(out, ",\"guild_id\":");
    codec::write_opt_u64(out, &st.guild_id);
    text::push_str_chars(out, ",\"message_id\":");
    codec::write_opt_u64(out, &st.message_id);
    text::push_str_chars(out, ",\"last_sent\":");
    codec::write_i64(out, st.last_sent);
    assert(final (out)@ =~= old(out)@ + enc_aydy_hdr(st@));
}

/// Encode one campaign record for the store.
pub fn encode_aydy(st: &AydyState) -> (r: String)
    ensures
        r@ == enc_aydy(st@),
{
    let mut out: Vec<char> = Vec::new();
    write_aydy_hdr(&mut out, st);
    let ghost hdr = out@;
    text::push_str_chars(&mut out, ",\"enrolled_users\":{");
    write_roster_from(&mut out, &st.enrolled_users, 0);
    text::push_str_chars(&mut out, "}}");
    assert(out@ =~= hdr + (",\"enrolled_users\":{"@ + enc_roster_from(
        roster_view(st.enrolled_users@),
        0,
    ) + "}}"@));
    assert(out@ =~= enc_aydy(st@));
    text::chars_to_string(&out)
}

/// Parse one enrolled user's standing, as [`sp_parse_user_status`].
fn parse_user_status(s: &Vec<char>, i: usize) -> (r: Option<(UserStatus, usize)>)
    requires
        i <= s@.len(),
    ensures
        (r matches Some(p) ==> sp_parse_user_status(s@, i as int) == Some((p.0@, p.1 as int))
            && i < p.1 <= s@.len()),
        r is None ==> sp_parse_user_status(s@, i as int) is None,
{
    match codec::pfx_str(s, i, "{\"user_name\":") {
        Some((name, a)) => match codec::pfx_i64(s, a, ",\"last_response\":") {
            Some((lr, b)) => match codec::pfx_i64(s, b, ",\"enrolled_at\":") {
                Some((ea, c)) => match codec::expect_lit(s, c, "}") {
                    Some(d) => Some(
                        (UserStatus { user_name: name, last_response: lr, enrolled_at: ea }, d),
                    ),
                    None => None,
                },
                None => None,
            },
            None => None,
        },
        None => None,
    }
}

/// Parse comma-separated roster entries, as [`sp_parse_roster_items`].
fn parse_roster_items(s: &Vec<char>, i: usize) -> (r: Option<(Vec<(u64, UserStatus)>, usize)>)
    requires
        i <= s@.len(),
    ensures
        (r matches Some(p) ==> sp_parse_roster_items(s@, i as int) == Some(
            (roster_view(p.0@), p.1 as int),
        ) && i < p.1 <= s@.len()),
        r is None ==> sp_parse_roster_items(s@, i as int) is None,
    decreases s@.len() - i,
{
    match codec::pfx_u64(s, i, "\"") {
        Some((uid, a)) => match codec::expect_lit(s, a, "\":") {
            Some(b) => match parse_user_status(s, b) {
                Some((st, j)) => {
                    match codec::expect_lit(s, j, ",") {
                        Some(k) => match parse_roster_items(s, k) {
                            Some((mut rest, e)) => {
                                let ghost r0 = rest@;
                                let ghost stv = st@;
                                rest.insert(0, (uid, st));
                                proof {
                                    assert(roster_view(rest@) =~= seq![(uid, stv)] + roster_view(
                                        r0,
                                    ));
                                }
                                Some((rest, e))
                            },
                            None => None,
                        },
                        None => match codec::expect_lit(s, j, "}") {
                            Some(k) => {
                                let ghost stv = st@;
                                let mut one: Vec<(u64, UserStatus)> = Vec::new();
                                one.push((uid, st));
                                proof {
                                    assert(roster_view(one@) =~= seq![(uid, stv)]);
                                }
                                Some((one, k))
                            },
                            None => None,
                        },
                    }
                },
                None => None,
            },
            None => None,
        },
        None => None,
    }
}

fn parse_aydy_hdr(v: &Vec<char>) -> (r: Option<((u64, Option<u64>, Option<u64>, i64), usize)>)
    ensures
        (r matches Some(p) ==> sp_parse_aydy_hdr(v@, 0) == Some(
            (
                (
                    p.0.0 as int,
                    codec::opt_u64_int(p.0.1),
                    codec::opt_u64_int(p.0.2),
                    p.0.3 as int,
                ),
                p.1 as int,
            ),
        ) && p.1 <= v@.len()),
        r is None ==> sp_parse_aydy_hdr(v@, 0) is None,
{
    proof {
        reveal(sp_parse_aydy_hdr);
    }
    let cid = match codec::pfx_u64(v, 0, "{\"channel_id\":") {
        Some(x) => x,
        None => return None,
    };
    let gid = match codec::pfx_opt_u64(v, cid.1, ",\"guild_id\":") {
        Some(x) => x,
        None => return None,
    };
    let mid = match codec::pfx_opt_u64(v, gid.1, ",\"message_id\":") {
        Some(x) => x,
        None => return None,
    };
    let ls = match codec::pfx_i64(v, mid.1, ",\"last_sent\":") {
        Some(x) => x,
        None => return None,
    };
    Some(((cid.0, gid.0, mid.0, ls.0), ls.1))
}

/// Decode one stored campaign record, exactly as [`sp_dec_aydy`].
pub fn decode_aydy(s: &str) -> (r: Option<AydyState>)
    ensures
        (r matches Some(st) ==> sp_dec_aydy(s@) == Some(st@)),
        r is None ==> sp_dec_aydy(s@) is None,
{
    let v = text::str_to_chars(s);
    let hd = match parse_aydy_hdr(&v) {
        Some(x) => x,
        None => return None,
    };
    let e = match codec::expect_lit(&v, hd.1, ",\"enrolled_users\":{") {
        Some(x) => x,
        None => return None,
    };
    let roster: (Vec<(u64, UserStatus)>, usize) = match codec::expect_lit(&v, e, "}") {
        Some(f) => (Vec::new(), f),
        None => match parse_roster_items(&v, e) {
            Some(x) => x,
            None => return None,
        },
    };
    let w = match codec::expect_lit(&v, roster.1, "}") {
        Some(x) => x,
        None => return None,
    };
    if w != v.len() {
        return None;
    }
    let st = AydyState {
        channel_id: hd.0.0,
        guild_id: hd.0.1,
        message_id: hd.0.2,
        last_sent: hd.0.3,
        enrolled_users: roster.0,
    };
    proof {
        if st.enrolled_users@.len() == 0 {
            assert(roster_view(st.enrolled_users@) =~= Seq::<(u64, UserStatusV)>::empty());
        }
    }
    Some(st)
}

// ---------------------------------------------------------------------------
// Store operations
// ---------------------------------------------------------------------------
/// The store key of one campaign channel.
pub open spec fn sp_checkin_key(channel_id: u64) -> Seq<char> {
    "aydy_"@ + codec::enc_u64(channel_id as nat)
}

/// Build the store key of one campaign channel.
pub fn checkin_key(channel_id: u64) -> (r: String)
    ensures
        r@ == sp_checkin_key(channel_id),
{
    let mut out: Vec<char> = Vec::new();
    text::push_str_chars(&mut out, "aydy_");
    codec::write_u64(&mut out, channel_id);
    assert(out@ =~= sp_checkin_key(channel_id));
    text::chars_to_string(&out)
}

/// Load the campaign of one channel; `Ok(None)` when none is running,
/// `Serialization` when the record exists but cannot be decoded.
pub fn load_campaign(store: &Store, channel_id: u64) -> (r: Result<Option<AydyState>, DbError>)
    ensures
        (r matches Ok(o) ==> match o {
            Some(st) => store_tbl(*store, checkin_table()).contains_key(sp_checkin_key(channel_id))
                && sp_dec_aydy(store_tbl(*store, checkin_table())[sp_checkin_key(channel_id)])
                == Some(st@),
            None => !store_tbl(*store, checkin_table()).contains_key(sp_checkin_key(channel_id)),
        }),
        (r matches Err(e) && e is Serialization) ==> store_tbl(
            *store,
            checkin_table(),
        ).contains_key(sp_checkin_key(channel_id)) && sp_dec_aydy(
            store_tbl(*store, checkin_table())[sp_checkin_key(channel_id)],
        ) is None,
{
    proof {
        reveal_strlit("aydy");
    }
    let key = checkin_key(channel_id);
    match store.read_entry("aydy", key.as_str()) {
        Ok(Some(value)) => match decode_aydy(value.as_str()) {
            Some(st) => Ok(Some(st)),
            None => Err(DbError::Serialization(String::new())),
        },
        Ok(None) => Ok(None),
        Err(e) => Err(e),
    }
}

/// Persist one campaign under its channel key.
pub fn save_campaign(store: &mut Store, st: &AydyState) -> (r: Result<(), DbError>)
    ensures
        (r matches Ok(u) ==> store_tbl(*final (store), checkin_table()) == store_tbl(
            *old(store),
            checkin_table(),
        ).insert(sp_checkin_key(st.channel_id), enc_aydy(st@))),
        r is Ok ==> forall|n: Seq<char>|
            n != checkin_table() ==> #[trigger] store_tbl(*final (store), n) == store_tbl(
                *old(store),
                n,
            ),
        r is Err ==> (forall|n: Seq<char>|
            n != checkin_table() ==> #[trigger] store_tbl(*final (store), n) == store_tbl(
                *old(store),
                n,
            )) && (store_tbl(*final (store), checkin_table()) == store_tbl(
            *old(store),
            checkin_table(),
        ) || store_tbl(*final (store), checkin_table()) == store_tbl(
            *old(store),
            checkin_table(),
        ).insert(sp_checkin_key(st.channel_id), enc_aydy(st@))),
{
    proof {
        reveal_strlit("aydy");
    }
    let key = checkin_key(st.channel_id);
    let value = encode_aydy(st);
    store.write_entry("aydy", key.as_str(), value.as_str())
}

/// Stop a channel's campaign.  Returns whether one was running; nothing
/// changes when none was.
pub fn stop_campaign(store: &mut Store, channel_id: u64) -> (r: Result<bool, DbError>)
    ensures
        (r matches Ok(b) ==> {
            let t0 = store_tbl(*old(store), checkin_table());
            &&& b == t0.contains_key(sp_checkin_key(channel_id))
            &&& store_tbl(*final (store), checkin_table()) == t0.remove(
                sp_checkin_key(channel_id),
            )
            &&& forall|n: Seq<char>|
                n != checkin_table() ==> #[trigger] store_tbl(*final (store), n) == store_tbl(
                    *old(store),
                    n,
                )
        }),
        r is Err ==> (forall|n: Seq<char>|
            n != checkin_table() ==> #[trigger] store_tbl(*final (store), n) == store_tbl(
                *old(store),
                n,
            )) && (store_tbl(*final (store), checkin_table()) == store_tbl(
            *old(store),
            checkin_table(),
        ) || store_tbl(*final (store), checkin_table()) == store_tbl(
            *old(store),
            checkin_table(),
        ).remove(sp_checkin_key(channel_id))),
{
    proof {
        reveal_strlit("aydy");
    }
    let key = checkin_key(channel_id);
    let existed = match store.read_entry("aydy", key.as_str()) {
        Ok(v) => v.is_some(),
        Err(e) => return Err(e),
    };
    match store.delete_entry("aydy", key.as_str()) {
        Ok(()) => Ok(existed),
        Err(e) => Err(e),
    }
}

/// What the start command did.
pub enum StartOutcome {
    /// A campaign already runs in this channel; nothing changed.
    AlreadyRunning,
    /// The campaign was created and persisted, as returned.
    Started(AydyState),
}

/// Start a channel's campaign: refuse when one already runs, otherwise
/// persist a fresh campaign stamped at `now`, carrying the message the
/// start command just posted.
pub fn start_campaign(
    store: &mut Store,
    channel_id: u64,
    guild_id: Option<u64>,
    message_id: Option<u64>,
    now: i64,
) -> (r: Result<StartOutcome, DbError>)
    ensures
        (r matches Ok(out) ==> {
            let t0 = store_tbl(*old(store), checkin_table());
            let key = sp_checkin_key(channel_id);
            match out {
                StartOutcome::AlreadyRunning => t0.contains_key(key) && forall|n: Seq<char>|
                    #[trigger] store_tbl(*final (store), n) == store_tbl(*old(store), n),
                StartOutcome::Started(st) => !t0.contains_key(key) && st@ == (AydyStateV {
                    channel_id,
                    guild_id,
                    message_id,
                    last_sent: now,
                    enrolled_users: Seq::empty(),
                }) && store_tbl(*final (store), checkin_table()) == t0.insert(
                    key,
                    enc_aydy(st@),
                ) && (forall|n: Seq<char>|
                    n != checkin_table() ==> #[trigger] store_tbl(*final (store), n) == store_tbl(
                        *old(store),
                        n,
                    )),
            }
        }),
        r is Err ==> sp_only_key_differs(
            *old(store),
            *final (store),
            checkin_table(),
            sp_checkin_key(channel_id),
        ),
{
    proof {
        reveal_strlit("aydy");
    }
    let key = checkin_key(channel_id);
    let existing = match store.read_entry("aydy", key.as_str()) {
        Ok(v) => v,
        Err(e) => return Err(e),
    };
    if existing.is_some() {
        return Ok(StartOutcome::AlreadyRunning);
    }
    let mut st = AydyState::new(channel_id, guild_id, now);
    st.message_id = message_id;
    let value = encode_aydy(&st);
    match store.write_entry("aydy", key.as_str(), value.as_str()) {
        Ok(()) => Ok(StartOutcome::Started(st)),
        Err(e) => Err(e),
    }
}

/// What a check-in button press did.
pub enum CheckInOutcome {
    /// No campaign runs in this channel; nothing changed.
    NotRunning,
    /// The user was newly enrolled; the updated campaign is returned.
    Welcomed(AydyState),
    /// An enrolled user checked in again; the updated campaign is returned.
    CheckedIn(AydyState),
}

/// The check-in button press: load the channel's campaign, upsert the
/// pressing user, and persist the updated roster.
pub fn check_in(
    store: &mut Store,
    channel_id: u64,
    user_id: u64,
    user_name: String,
    now: i64,
) -> (r: Result<CheckInOutcome, DbError>)
    ensures
        (r matches Ok(out) ==> {
            let t0 = store_tbl(*old(store), checkin_table());
            let key = sp_checkin_key(channel_id);
            match out {
                CheckInOutcome::NotRunning => !t0.contains_key(key) && forall|n: Seq<char>|
                    #[trigger] store_tbl(*final (store), n) == store_tbl(*old(store), n),
                CheckInOutcome::Welcomed(st) => t0.contains_key(key) && (sp_dec_aydy(t0[key])
                    matches Some(s0) && !sp_enrolled(s0.enrolled_users, user_id) && sp_checked_in(
                    s0.enrolled_users,
                    user_id,
                    user_name@,
                    now,
                    st@.enrolled_users,
                ) && st@.channel_id == s0.channel_id && st@.last_sent == s0.last_sent
                    && st@.message_id == s0.message_id && st@.guild_id == s0.guild_id && store_tbl(
                    *final (store),
                    checkin_table(),
                ) == t0.insert(key, enc_aydy(st@))),
                CheckInOutcome::CheckedIn(st) => t0.contains_key(key) && (sp_dec_aydy(t0[key])
                    matches Some(s0) && sp_enrolled(s0.enrolled_users, user_id) && sp_checked_in(
                    s0.enrolled_users,
                    user_id,
                    user_name@,
                    now,
                    st@.enrolled_users,
                ) && st@.channel_id == s0.channel_id && st@.last_sent == s0.last_sent
                    && st@.message_id == s0.message_id && st@.guild_id == s0.guild_id && store_tbl(
                    *final (store),
                    checkin_table(),
                ) == t0.insert(key, enc_aydy(st@))),
            }
        }),
        r is Ok ==> forall|n: Seq<char>|
            n != checkin_table() ==> #[trigger] store_tbl(*final (store), n) == store_tbl(
                *old(store),
                n,
            ),
        r is Err ==> sp_only_key_differs(
            *old(store),
            *final (store),
            checkin_table(),
            sp_checkin_key(channel_id),
        ),
{
    let loaded = match load_campaign(store, channel_id) {
        Ok(v) => v,
        Err(e) => return Err(e),
    };
    match loaded {
        None => Ok(CheckInOutcome::NotRunning),
        Some(mut st) => {
            let mut was_enrolled = false;
            let mut i: usize = 0;
            let ghost us = st@.enrolled_users;
            while i < st.enrolled_users.len()
                invariant
                    i <= st.enrolled_users@.len(),
                    us == roster_view(st.enrolled_users@),
                    was_enrolled ==> sp_enrolled(us, user_id),
                    !was_enrolled ==> forall|j: int|
                        0 <= j < i ==> (#[trigger] us[j]).0 != user_id,
                decreases st.enrolled_users@.len() - i,
            {
                if st.enrolled_users[i].0 == user_id {
                    was_enrolled = true;
                    proof {
                        assert(us[i as int].0 == user_id);
                    }
                }
                i = i + 1;
            }
            proof {
                if !was_enrolled && sp_enrolled(us, user_id) {
                    let w = choose|w: int| 0 <= w < us.len() && (#[trigger] us[w]).0 == user_id;
                    assert(us[w].0 != user_id);
                }
            }
            st.update_user_response(user_id, user_name, now);
            proof {
                reveal_strlit("aydy");
            }
            let key = checkin_key(channel_id);
            let value = encode_aydy(&st);
            match store.write_entry("aydy", key.as_str(), value.as_str()) {
                Ok(()) => {
                    if was_enrolled {
                        Ok(CheckInOutcome::CheckedIn(st))
                    } else {
                        Ok(CheckInOutcome::Welcomed(st))
                    }
                },
                Err(e) => Err(e),
            }
        },
    }
}

/// Whether some listed pair carries this key.
pub open spec fn sp_key_listed(vs: Seq<(String, AydyState)>, k: Seq<char>) -> bool {
    exists|i: int| 0 <= i < vs.len() && (#[trigger] vs[i]).0@ == k
}

/// Whether some stored campaign record decodes under no schema.
pub open spec fn sp_some_campaign_corrupt(t: Map<Seq<char>, Seq<char>>) -> bool {
    exists|k: Seq<char>| t.contains_key(k) && sp_dec_aydy(#[trigger] t[k]) is None
}

/// One reconciliation pass of the broadcast loop's reading half: every
/// stored campaign, with its key, that is due to fire at `now`.  A record
/// that does not decode stops the pass, as a corrupt campaign table needs
/// maintenance rather than a broadcast.
#[verifier::rlimit(80)]
pub fn due_campaigns(store: &Store, now: i64) -> (r: Result<Vec<(String, AydyState)>, DbError>)
    ensures
        (r matches Ok(v) ==> {
            let t = store_tbl(*store, checkin_table());
            &&& forall|i: int|
                0 <= i < v@.len() ==> t.contains_key((#[trigger] v@[i]).0@) && sp_dec_aydy(
                    t[v@[i].0@],
                ) == Some(v@[i].1@) && sp_broadcast_due(v@[i].1@.last_sent, now)
            &&& forall|k: Seq<char>|
                #[trigger] t.contains_key(k) ==> sp_dec_aydy(t[k]) is Some
            &&& forall|k: Seq<char>|
                t.contains_key(k) && (sp_dec_aydy(#[trigger] t[k]) matches Some(s0)
                    && sp_broadcast_due(s0.last_sent, now)) ==> sp_key_listed(v@, k)
        }),
        (r matches Err(e) && e is Serialization) ==> sp_some_campaign_corrupt(
            store_tbl(*store, checkin_table()),
        ),
{
    proof {
        reveal_strlit("aydy");
    }
    let pairs = match store.read_table("aydy") {
        Ok(p) => p,
        Err(e) => return Err(e),
    };
    let ghost t = store_tbl(*store, checkin_table());
    let mut out: Vec<(String, AydyState)> = Vec::new();
    let mut i: usize = 0;
    while i < pairs.len()
        invariant
            i <= pairs@.len(),
            t == store_tbl(*store, checkin_table()),
            forall|k: int|
                0 <= k < pairs@.len() ==> t.contains_key(#[trigger] pairs@[k].0@)
                    && t[pairs@[k].0@] == pairs@[k].1@,
            forall|k: Seq<char>|
                t.contains_key(k) ==> exists|j: int|
                    0 <= j < pairs@.len() && #[trigger] pairs@[j].0@ == k,
            forall|j: int|
                0 <= j < pairs@.len() ==> t.contains_key(#[trigger] pairs@[j].0@),
            forall|j: int|
                0 <= j < i ==> sp_dec_aydy(t[(#[trigger] pairs@[j]).0@]) is Some,
            forall|j: int|
                0 <= j < i && (sp_dec_aydy(t[(#[trigger] pairs@[j]).0@]) matches Some(s0)
                    && sp_broadcast_due(s0.last_sent, now)) ==> sp_key_listed(out@, pairs@[j].0@),
            forall|j: int|
                0 <= j < out@.len() ==> t.contains_key((#[trigger] out@[j]).0@) && sp_dec_aydy(
                    t[out@[j].0@],
                ) == Some(out@[j].1@) && sp_broadcast_due(out@[j].1@.last_sent, now),
        decreases pairs@.len() - i,
    {
        let pair = &pairs[i];
        match decode_aydy(pair.1.as_str()) {
            Some(st) => {
                let due: bool = (now as i128) - (st.last_sent as i128) >= (
                BROADCAST_PERIOD_SECS as i128);
                proof {
                    assert(t[pairs@[i as int].0@] == pairs@[i as int].1@);
                    assert(due == sp_broadcast_due(st@.last_sent, now));
                }
                if due {
                    let ghost out0 = out@;
                    let key_copy = pair.0.clone();
                    proof {
                        assert(key_copy@ == pairs@[i as int].0@);
                    }
                    out.push((key_copy, st));
                    proof {
                        assert(out@[out0.len() as int].0@ == pairs@[i as int].0@);
                        assert(sp_key_listed(out@, pairs@[i as int].0@));
                        assert forall|j: int|
                            0 <= j < i + 1 && (sp_dec_aydy(t[(#[trigger] pairs@[j]).0@]) matches
                            Some(s0) && sp_broadcast_due(s0.last_sent, now)) implies sp_key_listed(
                            out@,
                            pairs@[j].0@,
                        ) by {
                            if j < i {
                                assert(sp_key_listed(out0, pairs@[j].0@));
                                let w = choose|w: int|
                                    0 <= w < out0.len() && (#[trigger] out0[w]).0@
                                        == pairs@[j].0@;
                                assert(out@[w].0@ == pairs@[j].0@);
                            }
                        }
                    }
                } else {
                    proof {
                        assert forall|j: int|
                            0 <= j < i + 1 && (sp_dec_aydy(t[(#[trigger] pairs@[j]).0@]) matches
                            Some(s0) && sp_broadcast_due(s0.last_sent, now)) implies sp_key_listed(
                            out@,
                            pairs@[j].0@,
                        ) by {}
                    }
                }
            },
            None => {
                proof {
                    assert(t.contains_key(pairs@[i as int].0@) && sp_dec_aydy(
                        t[pairs@[i as int].0@],
                    ) is None);
                    assert(sp_some_campaign_corrupt(t));
                }
                return Err(DbError::Serialization(String::new()));
            },
        }
        i = i + 1;
    }
    proof {
        assert forall|k: Seq<char>| t.contains_key(k) implies sp_dec_aydy(t[k]) is Some by {
            let j = choose|j: int| 0 <= j < pairs@.len() && #[trigger] pairs@[j].0@ == k;
            assert(sp_dec_aydy(t[pairs@[j].0@]) is Some);
        }
        assert forall|k: Seq<char>|
            t.contains_key(k) && (sp_dec_aydy(#[trigger] t[k]) matches Some(s0)
                && sp_broadcast_due(s0.last_sent, now)) implies sp_key_listed(out@, k) by {
            let j = choose|j: int| 0 <= j < pairs@.len() && #[trigger] pairs@[j].0@ == k;
            assert(sp_key_listed(out@, pairs@[j].0@));
        }
    }
    Ok(out)
}

/// Record a broadcast that posted `message_id` at `now`: stamp the
/// campaign and persist it under the key it was listed with.
pub fn record_broadcast(
    store: &mut Store,
    key: &str,
    state: AydyState,
    message_id: u64,
    now: i64,
) -> (r: Result<AydyState, DbError>)
    ensures
        (r matches Ok(st) ==> st@ == sp_after_broadcast(state@, message_id, now) && store_tbl(
            *final (store),
            checkin_table(),
        ) == store_tbl(*old(store), checkin_table()).insert(key@, enc_aydy(st@))),
        r is Ok ==> forall|n: Seq<char>|
            n != checkin_table() ==> #[trigger] store_tbl(*final (store), n) == store_tbl(
                *old(store),
                n,
            ),
        r is Err ==> (forall|n: Seq<char>|
            n != checkin_table() ==> #[trigger] store_tbl(*final (store), n) == store_tbl(
                *old(store),
                n,
            )) && (store_tbl(*final (store), checkin_table()) == store_tbl(
            *old(store),
            checkin_table(),
        ) || store_tbl(*final (store), checkin_table()) == store_tbl(
            *old(store),
            checkin_table(),
        ).insert(key@, enc_aydy(sp_after_broadcast(state@, message_id, now)))),
{
    proof {
        reveal_strlit("aydy");
    }
    let mut st = state;
    st.message_id = Some(message_id);
    st.last_sent = now;
    let value = encode_aydy(&st);
    match store.write_entry("aydy", key, value.as_str()) {
        Ok(()) => Ok(st),
        Err(e) => Err(e),
    }
}


// ---------------------------------------------------------------------------
// Round trip
// ---------------------------------------------------------------------------
proof fn lemma_status_roundtrip(s: Seq<char>, i: int, u: UserStatusV)
    requires
        0 <= i,
        i + enc_user_status(u).len() <= s.len(),
        s.subrange(i, i + enc_user_status(u).len()) == enc_user_status(u),
    ensures
        sp_parse_user_status(s, i) == Some((u, i + enc_user_status(u).len())),
{
    reveal_strlit(",\"last_response\":");
    reveal_strlit(",\"enrolled_at\":");
    reveal_strlit("}");
    let c1 = "{\"user_name\":"@ + codec::enc_str(u.user_name);
    let c2 = ",\"last_response\":"@ + codec::enc_i64(u.last_response as int);
    let c3 = ",\"enrolled_at\":"@ + codec::enc_i64(u.enrolled_at as int);
    let c4 = "}"@;
    codec::lemma_regroup_pairs3z(
        "{\"user_name\":"@,
        codec::enc_str(u.user_name),
        ",\"last_response\":"@,
        codec::enc_i64(u.last_response as int),
        ",\"enrolled_at\":"@,
        codec::enc_i64(u.enrolled_at as int),
        "}"@,
    );
    assert(enc_user_status(u) == c1 + (c2 + (c3 + c4)));
    codec::lemma_subat_split(s, i, c1, c2 + (c3 + c4));
    codec::lemma_pfx_str(s, i, "{\"user_name\":"@, u.user_name);
    let p1 = i + c1.len() as int;
    codec::lemma_subat_split(s, p1, c2, c3 + c4);
    let p2 = p1 + c2.len() as int;
    codec::lemma_subat_index(s, p2, c3 + c4, 0);
    assert(s[p2] == ',');
    assert(!codec::is_digit(','));
    codec::lemma_pfx_i64(s, p1, ",\"last_response\":"@, u.last_response as int);
    codec::lemma_subat_split(s, p2, c3, c4);
    let p3 = p2 + c3.len() as int;
    codec::lemma_subat_index(s, p3, c4, 0);
    assert(s[p3] == '}');
    assert(!codec::is_digit('}'));
    codec::lemma_pfx_i64(s, p2, ",\"enrolled_at\":"@, u.enrolled_at as int);
    assert(codec::sp_lit(s, p3, "}"@) == Some(p3 + 1)) by {
        assert(s.subrange(p3, p3 + 1) == c4);
    }
    assert(p3 + 1 == i + enc_user_status(u).len());
}

proof fn lemma_roster_entry_roundtrip(s: Seq<char>, i: int, p: (u64, UserStatusV))
    requires
        0 <= i,
        i + enc_roster_entry(p).len() <= s.len(),
        s.subrange(i, i + enc_roster_entry(p).len()) == enc_roster_entry(p),
    ensures
        ({
            let uid_end = i + 1 + codec::enc_u64(p.0 as nat).len();
            &&& codec::sp_pfx_u64(s, i, "\""@) == Some((p.0 as int, uid_end))
            &&& codec::sp_lit(s, uid_end, "\":"@) == Some(uid_end + 2)
            &&& sp_parse_user_status(s, uid_end + 2) == Some(
                (p.1, i + enc_roster_entry(p).len()),
            )
        }),
{
    reveal_strlit("\"");
    reveal_strlit("\":");
    let num = codec::enc_u64(p.0 as nat);
    let c1 = seq!['"'] + num;
    let c2 = "\":"@;
    let c3 = enc_user_status(p.1);
    assert(seq!['"'] =~= "\""@);
    assert(enc_roster_entry(p) =~= c1 + (c2 + c3));
    codec::lemma_subat_split(s, i, c1, c2 + c3);
    let p1 = i + c1.len() as int;
    codec::lemma_subat_index(s, p1, c2 + c3, 0);
    assert(s[p1] == '"');
    assert(!codec::is_digit('"'));
    assert(s.subrange(i, i + c1.len() as int) =~= "\""@ + num);
    codec::lemma_pfx_u64(s, i, "\""@, p.0 as nat);
    codec::lemma_subat_split(s, p1, c2, c3);
    assert(codec::sp_lit(s, p1, "\":"@) == Some(p1 + 2));
    lemma_status_roundtrip(s, p1 + 2, p.1);
}

proof fn lemma_roster_items_roundtrip(s: Seq<char>, i: int, us: Seq<(u64, UserStatusV)>, k: int)
    requires
        0 <= i,
        0 <= k < us.len(),
        i + enc_roster_from(us, k).len() + 1 <= s.len(),
        s.subrange(i, i + enc_roster_from(us, k).len() + 1) == enc_roster_from(us, k) + seq!['}'],
    ensures
        sp_parse_roster_items(s, i) == Some(
            (us.subrange(k, us.len() as int), i + enc_roster_from(us, k).len() + 1),
        ),
    decreases us.len() - k,
{
    reveal_strlit(",");
    reveal_strlit("}");
    let p = us[k];
    let ep = enc_roster_entry(p);
    if k == us.len() - 1 {
        assert(enc_roster_from(us, k) == ep);
        codec::lemma_subat_split(s, i, ep, seq!['}']);
        lemma_roster_entry_roundtrip(s, i, p);
        let j = i + ep.len() as int;
        codec::lemma_subat_index(s, j, seq!['}'], 0);
        assert(s[j] == '}');
        assert(codec::sp_lit(s, j, ","@) is None) by {
            if codec::sp_lit(s, j, ","@) is Some {
                assert(s.subrange(j, j + 1) == ","@);
                assert(s.subrange(j, j + 1)[0] == s[j]);
            }
        }
        assert(codec::sp_lit(s, j, "}"@) == Some(j + 1)) by {
            assert(s.subrange(j, j + 1) =~= "}"@);
        }
        assert(us.subrange(k, us.len() as int) =~= seq![p]);
    } else {
        let rest = enc_roster_from(us, k + 1);
        assert(enc_roster_from(us, k) == ep + seq![','] + rest);
        let tail = seq![','] + rest + seq!['}'];
        assert(enc_roster_from(us, k) + seq!['}'] =~= ep + tail);
        codec::lemma_subat_split(s, i, ep, tail);
        lemma_roster_entry_roundtrip(s, i, p);
        let j = i + ep.len() as int;
        codec::lemma_subat_index(s, j, tail, 0);
        assert(s[j] == ',');
        assert(codec::sp_lit(s, j, ","@) == Some(j + 1)) by {
            assert(s.subrange(j, j + 1) =~= ","@);
        }
        let next = rest + seq!['}'];
        assert(tail =~= ","@ + next);
        codec::lemma_subat_split(s, j, ","@, next);
        lemma_roster_items_roundtrip(s, j + 1, us, k + 1);
        assert(seq![p] + us.subrange(k + 1, us.len() as int) =~= us.subrange(
            k,
            us.len() as int,
        ));
    }
}

#[verifier::rlimit(100)]
proof fn lemma_aydy_hdr_roundtrip(s: Seq<char>, v: AydyStateV)
    requires
        enc_aydy_hdr(v).len() <= s.len(),
        s.subrange(0, enc_aydy_hdr(v).len() as int) == enc_aydy_hdr(v),
        s.len() > enc_aydy_hdr(v).len(),
        s[enc_aydy_hdr(v).len() as int] == ',',
    ensures
        sp_parse_aydy_hdr(s, 0) == Some(
            (
                (
                    v.channel_id as int,
                    codec::opt_u64_int(v.guild_id),
                    codec::opt_u64_int(v.message_id),
                    v.last_sent as int,
                ),
                enc_aydy_hdr(v).len() as int,
            ),
        ),
{
    reveal(enc_aydy_hdr);
    reveal(sp_parse_aydy_hdr);
    reveal_strlit(",\"guild_id\":");
    reveal_strlit(",\"message_id\":");
    reveal_strlit(",\"last_sent\":");
    let l1 = "{\"channel_id\":"@;
    let n1 = codec::enc_u64(v.channel_id as nat);
    let l2 = ",\"guild_id\":"@;
    let g2 = codec::enc_opt_u64(codec::opt_u64_int(v.guild_id));
    let l3 = ",\"message_id\":"@;
    let m3 = codec::enc_opt_u64(codec::opt_u64_int(v.message_id));
    let l4 = ",\"last_sent\":"@;
    let s4 = codec::enc_i64(v.last_sent as int);
    codec::lemma_regroup_pairs3z(l1, n1, l2, g2, l3, m3, l4 + s4);
    assert(enc_aydy_hdr(v) == (l1 + n1) + ((l2 + g2) + ((l3 + m3) + (l4 + s4)))) by {
        assert(enc_aydy_hdr(v) =~= l1 + n1 + l2 + g2 + l3 + m3 + (l4 + s4));
    }
    let c1 = l1 + n1;
    let c2 = l2 + g2;
    let c3 = l3 + m3;
    let c4 = l4 + s4;
    codec::lemma_subat_split(s, 0, c1, c2 + (c3 + c4));
    let p1 = c1.len() as int;
    codec::lemma_subat_index(s, p1, c2 + (c3 + c4), 0);
    assert(s[p1] == ',');
    assert(!codec::is_digit(','));
    codec::lemma_pfx_u64(s, 0, l1, v.channel_id as nat);
    codec::lemma_subat_split(s, p1, c2, c3 + c4);
    let p2 = p1 + c2.len() as int;
    codec::lemma_subat_index(s, p2, c3 + c4, 0);
    assert(s[p2] == ',');
    codec::lemma_pfx_opt_u64(s, p1, l2, codec::opt_u64_int(v.guild_id));
    codec::lemma_subat_split(s, p2, c3, c4);
    let p3 = p2 + c3.len() as int;
    codec::lemma_subat_index(s, p3, c4, 0);
    assert(s[p3] == ',');
    codec::lemma_pfx_opt_u64(s, p2, l3, codec::opt_u64_int(v.message_id));
    let p4 = p3 + c4.len() as int;
    assert(p4 == enc_aydy_hdr(v).len());
    codec::lemma_pfx_i64(s, p3, l4, v.last_sent as int);
}

/// Decoding an encoded campaign gives the campaign back: the stored form
/// of a campaign loses neither its stamps nor its roster.
#[verifier::spinoff_prover]
#[verifier::rlimit(100)]
pub proof fn lemma_aydy_roundtrip(v: AydyStateV)
    ensures
        sp_dec_aydy(enc_aydy(v)) == Some(v),
{
    reveal_strlit(",\"enrolled_users\":{");
    reveal_strlit("}}");
    reveal_strlit("}");
    let s = enc_aydy(v);
    let hdr = enc_aydy_hdr(v);
    let l5 = ",\"enrolled_users\":{"@;
    let rb = enc_roster_from(v.enrolled_users, 0);
    let z = "}}"@;
    assert(z.len() == 2 && z[0] == '}' && z[1] == '}');
    let rest = l5 + rb + z;
    assert(s == hdr + rest);
    assert(s.subrange(0, s.len() as int) =~= s);
    codec::lemma_subat_split(s, 0, hdr, rest);
    codec::lemma_subat_index(s, hdr.len() as int, rest, 0);
    assert(s[hdr.len() as int] == ',');
    lemma_aydy_hdr_roundtrip(s, v);
    let p5 = hdr.len() as int;
    assert(rest =~= l5 + (rb + z));
    codec::lemma_subat_split(s, p5, l5, rb + z);
    assert(codec::sp_lit(s, p5, l5) == Some(p5 + l5.len() as int));
    let p6 = p5 + l5.len() as int;
    codec::lemma_subat_split(s, p6, rb, z);
    if v.enrolled_users.len() == 0 {
        assert(rb =~= Seq::<char>::empty());
        assert(s.subrange(p6, p6 + 2) =~= z) by {
            assert(rb + z =~= z);
        }
        codec::lemma_subat_index(s, p6, z, 0);
        codec::lemma_subat_index(s, p6, z, 1);
        assert(codec::sp_lit(s, p6, "}"@) == Some(p6 + 1)) by {
            assert(s.subrange(p6, p6 + 1) =~= "}"@);
        }
        assert(codec::sp_lit(s, p6 + 1, "}"@) == Some(p6 + 2)) by {
            assert(s.subrange(p6 + 1, p6 + 2) =~= "}"@);
        }
        assert(p6 + 2 == s.len());
        assert(v.enrolled_users =~= Seq::<(u64, UserStatusV)>::empty());
    } else {
        let items_chunk = rb + seq!['}'];
        assert(rb + z =~= items_chunk + "}"@);
        codec::lemma_subat_split(s, p6, items_chunk, "}"@);
        assert(codec::sp_lit(s, p6, "}"@) is None) by {
            if codec::sp_lit(s, p6, "}"@) is Some {
                assert(s.subrange(p6, p6 + 1) == "}"@);
                assert(s.subrange(p6, p6 + 1)[0] == s[p6]);
                assert(enc_roster_from(v.enrolled_users, 0)[0] == enc_roster_entry(
                    v.enrolled_users[0],
                )[0]) by {
                    if v.enrolled_users.len() > 1 {
                        assert(enc_roster_from(v.enrolled_users, 0) == enc_roster_entry(
                            v.enrolled_users[0],
                        ) + seq![','] + enc_roster_from(v.enrolled_users, 1));
                    }
                }
                assert(enc_roster_entry(v.enrolled_users[0])[0] == '"');
                codec::lemma_subat_index(s, p6, rb, 0);
            }
        }
        lemma_roster_items_roundtrip(s, p6, v.enrolled_users, 0);
        let p7 = p6 + rb.len() as int + 1;
        assert(codec::sp_lit(s, p7, "}"@) == Some(p7 + 1));
        assert(p7 + 1 == s.len());
        assert(v.enrolled_users.subrange(0, v.enrolled_users.len() as int) =~= v.enrolled_users);
    }
    assert(codec::opt_int_u64(codec::opt_u64_int(v.guild_id)) == v.guild_id);
    assert(codec::opt_int_u64(codec::opt_u64_int(v.message_id)) == v.message_id);
}

/// A campaign whose stored record was just stamped by a broadcast at
/// `t1` decodes back with that stamp, and is not due again before a full
/// period has passed: the broadcast loop never fires twice within one
/// period for the same campaign.
pub proof fn lemma_no_refire_within_period(
    t: Map<Seq<char>, Seq<char>>,
    key: Seq<char>,
    v: AydyStateV,
    message_id: u64,
    t1: i64,
    t2: i64,
)
    requires
        t.contains_key(key),
        t[key] == enc_aydy(sp_after_broadcast(v, message_id, t1)),
        t2 < t1 + BROADCAST_PERIOD_SECS,
    ensures
        sp_dec_aydy(t[key]) == Some(sp_after_broadcast(v, message_id, t1)),
        !sp_broadcast_due(sp_after_broadcast(v, message_id, t1).last_sent, t2),
{
    lemma_aydy_roundtrip(sp_after_broadcast(v, message_id, t1));
}

} // verus!
