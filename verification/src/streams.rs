//! Followed broadcast channels and their live sessions.  A follow is a
//! durable record keyed by `platform:channel`; a live session record
//! tracks the chat message that currently represents a running broadcast,
//! keyed the same way.  The reconciliation loop probes each followed
//! channel, decides whether to post, refresh or retire the message, and
//! settles the session record accordingly; the probing and the chat calls
//! themselves happen outside the library, between `plan_stream_probe` and
//! `settle_stream_probe`.
use vstd::prelude::*;

use crate::codec;
use crate::store::{sp_only_key_differs, store_tbl, DbError, Store};
use crate::text;

verus! {

/// The table of followed channels.
pub open spec fn streams_table() -> Seq<char> {
    "streams"@
}

/// The table of live session records.
pub open spec fn sessions_table() -> Seq<char> {
    "live_sessions"@
}

/// One followed channel and where its notifications go.
pub struct StreamFollow {
    pub user_id: u64,
    pub url: String,
    pub channel_id: u64,
    pub platform: String,
    pub channel_name: String,
}

pub ghost struct StreamFollowV {
    pub user_id: u64,
    pub url: Seq<char>,
    pub channel_id: u64,
    pub platform: Seq<char>,
    pub channel_name: Seq<char>,
}

impl View for StreamFollow {
    type V = StreamFollowV;

    open spec fn view(&self) -> StreamFollowV {
        StreamFollowV {
            user_id: self.user_id,
            url: self.url@,
            channel_id: self.channel_id,
            platform: self.platform@,
            channel_name: self.channel_name@,
        }
    }
}

/// The chat message that stands for a running broadcast session.
pub struct LiveSessionRecord {
    pub message_id: u64,
    pub session_token: String,
}

pub ghost struct LiveSessionRecV {
    pub message_id: u64,
    pub session_token: Seq<char>,
}

impl View for LiveSessionRecord {
    type V = LiveSessionRecV;

    open spec fn view(&self) -> LiveSessionRecV {
        LiveSessionRecV { message_id: self.message_id, session_token: self.session_token@ }
    }
}

impl Clone for LiveSessionRecord {
    fn clone(&self) -> (r: Self)
        ensures
            r@ == self@,
    {
        LiveSessionRecord {
            message_id: self.message_id,
            session_token: self.session_token.clone(),
        }
    }
}

// ---------------------------------------------------------------------------
// URL parsing
// ---------------------------------------------------------------------------
/// Whether the pattern occurs in `u` at position `i`.
pub open spec fn sp_match_at(u: Seq<char>, pat: Seq<char>, i: int) -> bool {
    0 <= i && i + pat.len() <= u.len() && u.subrange(i, i + pat.len()) == pat
}

/// The first position at or after `from` where the pattern occurs.
pub open spec fn sp_find_from(u: Seq<char>, pat: Seq<char>, from: int) -> Option<int>
    decreases u.len() - from,
{
    if from < 0 || from >= u.len() || from + pat.len() > u.len() {
        None
    } else if sp_match_at(u, pat, from) {
        Some(from)
    } else {
        sp_find_from(u, pat, from + 1)
    }
}

/// The sequence without its trailing slashes.
pub open spec fn sp_trim_trailing_slash(u: Seq<char>) -> Seq<char>
    decreases u.len(),
{
    if u.len() > 0 && u.last() == '/' {
        sp_trim_trailing_slash(u.drop_last())
    } else {
        u
    }
}

/// The channel name a follow URL names: the segment after the first
/// occurrence of the platform's host prefix, up to its next occurrence,
/// with trailing slashes removed; absent when there is no occurrence or
/// the segment is empty.
pub open spec fn sp_parse_kick_url(u: Seq<char>) -> Option<Seq<char>> {
    let pat = "kick.com/"@;
    match sp_find_from(u, pat, 0) {
        None => None,
        Some(i) => {
            let start = i + pat.len();
            let stop = match sp_find_from(u, pat, start) {
                Some(j) => j,
                None => u.len() as int,
            };
            let trimmed = sp_trim_trailing_slash(u.subrange(start, stop));
            if trimmed.len() > 0 {
                Some(trimmed)
            } else {
                None
            }
        },
    }
}

/// The first occurrence of a pattern at or after `from`, as
/// [`sp_find_from`].
fn find_from(u: &Vec<char>, pat: &str, from: usize) -> (r: Option<usize>)
    requires
        from <= u@.len(),
    ensures
        (r matches Some(i) ==> sp_find_from(u@, pat@, from as int) == Some(i as int) && from <= i
            && i + pat@.len() <= u@.len()),
        r is None ==> sp_find_from(u@, pat@, from as int) is None,
    decreases u@.len() - from,
{
    if from >= u.len() || pat.unicode_len() > u.len() - from {
        return None;
    }
    match codec::expect_lit(u, from, pat) {
        Some(_) => Some(from),
        None => find_from(u, pat, from + 1),
    }
}

/// Parse a follow URL, exactly as [`sp_parse_kick_url`].
pub fn parse_kick_url(url: &str) -> (r: Option<String>)
    ensures
        (r matches Some(c) ==> sp_parse_kick_url(url@) == Some(c@)),
        r is None ==> sp_parse_kick_url(url@) is None,
{
    let u = text::str_to_chars(url);
    let ulen = u.len();
    assert(u@.len() <= usize::MAX);
    let pat = "kick.com/";
    match find_from(&u, pat, 0) {
        None => None,
        Some(i) => {
            let start = i + pat.unicode_len();
            let stop = match find_from(&u, pat, start) {
                Some(j) => j,
                None => ulen,
            };
            let mut end = stop;
            while end > start && u[end - 1] == '/'
                invariant
                    start <= end <= stop <= u@.len(),
                    sp_trim_trailing_slash(u@.subrange(start as int, stop as int))
                        == sp_trim_trailing_slash(u@.subrange(start as int, end as int)),
                decreases end,
            {
                proof {
                    assert(u@.subrange(start as int, end as int).last() == u@[end - 1]);
                    assert(u@.subrange(start as int, end as int).drop_last() =~= u@.subrange(
                        start as int,
                        end - 1 as int,
                    ));
                }
                end = end - 1;
            }
            proof {
                assert(sp_trim_trailing_slash(u@.subrange(start as int, end as int))
                    == u@.subrange(start as int, end as int));
            }
            if end > start {
                let mut out: Vec<char> = Vec::new();
                let mut k: usize = start;
                while k < end
                    invariant
                        start <= k <= end <= u@.len(),
                        out@ == u@.subrange(start as int, k as int),
                    decreases end - k,
                {
                    out.push(u[k]);
                    assert(u@.subrange(start as int, k + 1 as int) =~= u@.subrange(
                        start as int,
                        k as int,
                    ).push(u@[k as int]));
                    k = k + 1;
                }
                Some(text::chars_to_string(&out))
            } else {
                assert(u@.subrange(start as int, end as int).len() == 0);
                None
            }
        },
    }
}

// ---------------------------------------------------------------------------
// Probing and the per-channel tick
// ---------------------------------------------------------------------------
/// What the external prober reported for one channel.
pub enum ProbeResult {
    Offline,
    Live {
        session_token: String,
        viewer_count: u32,
        category: Option<String>,
        title: Option<String>,
        thumbnail: Option<String>,
    },
}

pub ghost enum ProbeV {
    Offline,
    Live { session_token: Seq<char> },
}

impl View for ProbeResult {
    type V = ProbeV;

    open spec fn view(&self) -> ProbeV {
        match self {
            ProbeResult::Offline => ProbeV::Offline,
            ProbeResult::Live { session_token, .. } => ProbeV::Live {
                session_token: session_token@,
            },
        }
    }
}

/// What one tick decides to do for one channel.
#[derive(Debug, PartialEq, Eq, Structural)]
pub enum StreamAction {
    /// Send a fresh message: the channel is live and no current message
    /// stands for this session.
    Post,
    /// Edit the message with this reference in place: same session.
    Refresh(u64),
    /// Drop the session record: the channel is offline.
    ClearRecord,
}

/// The tick's decision: session identity is the upstream token alone, by
/// exact string equality.
pub open spec fn sp_plan_stream(rec: Option<LiveSessionRecV>, probe: ProbeV) -> StreamAction {
    match probe {
        ProbeV::Offline => StreamAction::ClearRecord,
        ProbeV::Live { session_token } => match rec {
            None => StreamAction::Post,
            Some(r) => if r.session_token == session_token {
                StreamAction::Refresh(r.message_id)
            } else {
                StreamAction::Post
            },
        },
    }
}

/// Decide what to do for one channel, exactly as [`sp_plan_stream`].
pub fn plan_stream_probe(record: &Option<LiveSessionRecord>, probe: &ProbeResult) -> (a:
    StreamAction)
    ensures
        a == sp_plan_stream(
            match record {
                Some(r) => Some(r@),
                None => None,
            },
            probe@,
        ),
{
    match probe {
        ProbeResult::Offline => StreamAction::ClearRecord,
        ProbeResult::Live { session_token, .. } => match record {
            None => StreamAction::Post,
            Some(r) => {
                if text::str_eq_str(r.session_token.as_str(), session_token.as_str()) {
                    StreamAction::Refresh(r.message_id)
                } else {
                    StreamAction::Post
                }
            },
        },
    }
}

/// How the chat call that the plan asked for went.
pub enum SendOutcome {
    /// A fresh message was sent and carries this reference.
    Sent(u64),
    /// The edit of the standing message went through.
    EditOk,
    /// The edit failed: the record is stale and must be dropped.
    EditFailed,
    /// The fresh message could not be sent.
    SendFailed,
    /// No chat call was needed.
    NotNeeded,
}

// ---------------------------------------------------------------------------
// Wire form
// ---------------------------------------------------------------------------
/// The stored form of one followed channel.
pub open spec fn enc_follow(v: StreamFollowV) -> Seq<char> {
    "{\"user_id\":"@ + codec::enc_u64(v.user_id as nat) + ",\"url\":"@ + codec::enc_str(v.url)
        + ",\"channel_id\":"@ + codec::enc_u64(v.channel_id as nat) + ",\"platform\":"@
        + codec::enc_str(v.platform) + ",\"channel_name\":"@ + codec::enc_str(v.channel_name)
        + "}"@
}

/// The stored form of one live session record.
pub open spec fn enc_session(v: LiveSessionRecV) -> Seq<char> {
    "{\"message_id\":"@ + codec::enc_u64(v.message_id as nat) + ",\"session_token\":"@
        + codec::enc_str(v.session_token) + "}"@
}

/// Decode one stored followed channel.
pub open spec fn sp_dec_follow(s: Seq<char>) -> Option<StreamFollowV> {
    match codec::sp_pfx_u64(s, 0, "{\"user_id\":"@) {
        Some((uid, a)) => match codec::sp_pfx_str(s, a, ",\"url\":"@) {
            Some((url, b)) => match codec::sp_pfx_u64(s, b, ",\"channel_id\":"@) {
                Some((cid, c)) => match codec::sp_pfx_str(s, c, ",\"platform\":"@) {
                    Some((plat, d)) => match codec::sp_pfx_str(s, d, ",\"channel_name\":"@) {
                        Some((name, e)) => match codec::sp_lit(s, e, "}"@) {
                            Some(w) => if w == s.len() {
                                Some(
                                    StreamFollowV {
                                        user_id: uid as u64,
                                        url,
                                        channel_id: cid as u64,
                                        platform: plat,
                                        channel_name: name,
                                    },
                                )
                            } else {
                                None
                            },
                            None => None,
                        },
                        None => None,
                    },
                    None => None,
                },
                None => None,
            },
            None => None,
        },
        None => None,
    }
}

/// Decode one stored live session record.
pub open spec fn sp_dec_session(s: Seq<char>) -> Option<LiveSessionRecV> {
    match codec::sp_pfx_u64(s, 0, "{\"message_id\":"@) {
        Some((mid, a)) => match codec::sp_pfx_str(s, a, ",\"session_token\":"@) {
            Some((tok, b)) => match codec::sp_lit(s, b, "}"@) {
                Some(w) => if w == s.len() {
                    Some(LiveSessionRecV { message_id: mid as u64, session_token: tok })
                } else {
                    None
                },
                None => None,
            },
            None => None,
        },
        None => None,
    }
}

/// Encode one followed channel for the store.
pub fn encode_follow(f: &StreamFollow) -> (r: String)
    ensures
        r@ == enc_follow(f@),
{
    let mut out: Vec<char> = Vec::new();
    text::push_str_chars(&mut out, "{\"user_id\":");
    codec::write_u64(&mut out, f.user_id);
    text::push_str_chars(&mut out, ",\"url\":");
    codec::write_str_escaped(&mut out, f.url.as_str());
    text::push_str_chars(&mut out, ",\"channel_id\":");
    codec::write_u64(&mut out, f.channel_id);
    text::push_str_chars(&mut out, ",\"platform\":");
    codec::write_str_escaped(&mut out, f.platform.as_str());
    text::push_str_chars(&mut out, ",\"channel_name\":");
    codec::write_str_escaped(&mut out, f.channel_name.as_str());
    text::push_str_chars(&mut out, "}");
    assert(out@ =~= enc_follow(f@));
    text::chars_to_string(&out)
}

/// Encode one live session record for the store.
pub fn encode_session(rec: &LiveSessionRecord) -> (r: String)
    ensures
        r@ == enc_session(rec@),
{
    let mut out: Vec<char> = Vec::new();
    text::push_str_chars(&mut out, "{\"message_id\":");
    codec::write_u64(&mut out, rec.message_id);
    text::push_str_chars(&mut out, ",\"session_token\":");
    codec::write_str_escaped(&mut out, rec.session_token.as_str());
    text::push_str_chars(&mut out, "}");
    assert(out@ =~= enc_session(rec@));
    text::chars_to_string(&out)
}

/// Decode one stored followed channel, exactly as [`sp_dec_follow`].
pub fn decode_follow(s: &str) -> (r: Option<StreamFollow>)
    ensures
        (r matches Some(f) ==> sp_dec_follow(s@) == Some(f@)),
        r is None ==> sp_dec_follow(s@) is None,
{
    let v = text::str_to_chars(s);
    match codec::pfx_u64(&v, 0, "{\"user_id\":") {
        Some((uid, a)) => match codec::pfx_str(&v, a, ",\"url\":") {
            Some((url, b)) => match codec::pfx_u64(&v, b, ",\"channel_id\":") {
                Some((cid, c)) => match codec::pfx_str(&v, c, ",\"platform\":") {
                    Some((plat, d)) => match codec::pfx_str(&v, d, ",\"channel_name\":") {
                        Some((name, e)) => match codec::expect_lit(&v, e, "}") {
                            Some(w) => {
                                if w == v.len() {
                                    Some(
                                        StreamFollow {
                                            user_id: uid,
                                            url,
                                            channel_id: cid,
                                            platform: plat,
                                            channel_name: name,
                                        },
                                    )
                                } else {
                                    None
                                }
                            },
                            None => None,
                        },
                        None => None,
                    },
                    None => None,
                },
                None => None,
            },
            None => None,
        },
        None => None,
    }
}

/// Decode one stored live session record, exactly as [`sp_dec_session`].
pub fn decode_session(s: &str) -> (r: Option<LiveSessionRecord>)
    ensures
        (r matches Some(rec) ==> sp_dec_session(s@) == Some(rec@)),
        r is None ==> sp_dec_session(s@) is None,
{
    let v = text::str_to_chars(s);
    match codec::pfx_u64(&v, 0, "{\"message_id\":") {
        Some((mid, a)) => match codec::pfx_str(&v, a, ",\"session_token\":") {
            Some((tok, b)) => match codec::expect_lit(&v, b, "}") {
                Some(w) => {
                    if w == v.len() {
                        Some(LiveSessionRecord { message_id: mid, session_token: tok })
                    } else {
                        None
                    }
                },
                None => None,
            },
            None => None,
        },
        None => None,
    }
}

/// Decoding an encoded live session record gives the record back: the
/// stored form of a session loses nothing.
#[verifier::rlimit(80)]
pub proof fn lemma_session_roundtrip(v: LiveSessionRecV)
    ensures
        sp_dec_session(enc_session(v)) == Some(v),
{
    reveal_strlit("{\"message_id\":");
    reveal_strlit(",\"session_token\":");
    reveal_strlit("}");
    let s = enc_session(v);
    let pre1 = "{\"message_id\":"@;
    let pre2 = ",\"session_token\":"@;
    let num = codec::enc_u64(v.message_id as nat);
    let tok = codec::enc_str(v.session_token);
    let x = pre1 + num;
    let y = pre2 + tok + "}"@;
    assert(s =~= x + y);
    assert(s.subrange(0, s.len() as int) =~= s);
    codec::lemma_subat_split(s, 0, x, y);
    codec::lemma_subat_index(s, x.len() as int, y, 0);
    assert(s[x.len() as int] == ',');
    assert(!codec::is_digit(','));
    assert(s.subrange(0, x.len() as int) =~= pre1 + num);
    codec::lemma_pfx_u64(s, 0, pre1, v.message_id as nat);
    let x2 = pre2 + tok;
    assert(s.subrange(x.len() as int, x.len() + x2.len() as int) =~= x2) by {
        codec::lemma_subat_split(s, x.len() as int, x2, "}"@);
        assert(y =~= x2 + "}"@);
    }
    codec::lemma_pfx_str(s, x.len() as int, pre2, v.session_token);
    let e = x.len() + x2.len() as int;
    assert(s.subrange(e, e + 1) =~= "}"@) by {
        codec::lemma_subat_split(s, x.len() as int, x2, "}"@);
    }
    assert(codec::sp_lit(s, e, "}"@) == Some(e + 1));
    assert(e + 1 == s.len());
}

/// Decoding an encoded follow gives the follow back: the stored form of
/// a followed channel loses no field.
#[verifier::rlimit(100)]
pub proof fn lemma_follow_roundtrip(v: StreamFollowV)
    ensures
        sp_dec_follow(enc_follow(v)) == Some(v),
{
    reveal_strlit(",\"url\":");
    reveal_strlit(",\"channel_id\":");
    reveal_strlit(",\"platform\":");
    reveal_strlit(",\"channel_name\":");
    reveal_strlit("}");
    let s = enc_follow(v);
    let l1 = "{\"user_id\":"@;
    let n1 = codec::enc_u64(v.user_id as nat);
    let l2 = ",\"url\":"@;
    let u2 = codec::enc_str(v.url);
    let l3 = ",\"channel_id\":"@;
    let n3 = codec::enc_u64(v.channel_id as nat);
    let l4 = ",\"platform\":"@;
    let p4 = codec::enc_str(v.platform);
    let l5 = ",\"channel_name\":"@;
    let c5 = codec::enc_str(v.channel_name);
    let z = "}"@;
    codec::lemma_regroup_record(l1, n1, l2, u2, l3, n3, l4, p4, l5, c5, z);
    assert(s == (l1 + n1) + ((l2 + u2) + ((l3 + n3) + (l4 + (p4 + (l5 + (c5 + z)))))));
    assert(s.subrange(0, s.len() as int) =~= s);
    let c1 = l1 + n1;
    let c2 = l2 + u2;
    let c3 = l3 + n3;
    codec::lemma_subat_split(s, 0, c1, c2 + (c3 + (l4 + (p4 + (l5 + (c5 + z))))));
    let q1 = c1.len() as int;
    codec::lemma_subat_index(s, q1, c2 + (c3 + (l4 + (p4 + (l5 + (c5 + z))))), 0);
    assert(s[q1] == ',');
    assert(!codec::is_digit(','));
    codec::lemma_pfx_u64(s, 0, l1, v.user_id as nat);
    codec::lemma_subat_split(s, q1, c2, c3 + (l4 + (p4 + (l5 + (c5 + z)))));
    codec::lemma_pfx_str(s, q1, l2, v.url);
    let q2 = q1 + c2.len() as int;
    codec::lemma_subat_split(s, q2, c3, l4 + (p4 + (l5 + (c5 + z))));
    let q3 = q2 + c3.len() as int;
    codec::lemma_subat_index(s, q3, l4 + (p4 + (l5 + (c5 + z))), 0);
    assert(s[q3] == ',');
    codec::lemma_pfx_u64(s, q2, l3, v.channel_id as nat);
    codec::lemma_subat_split(s, q3, l4, p4 + (l5 + (c5 + z)));
    let q4 = q3 + l4.len() as int;
    codec::lemma_subat_split(s, q4, p4, l5 + (c5 + z));
    assert(s.subrange(q3, q3 + l4.len() + p4.len() as int) =~= l4 + p4) by {
        assert forall|t: int| 0 <= t < l4.len() + p4.len() implies s[q3 + t] == (l4 + p4)[t] by {
            if t < l4.len() {
                codec::lemma_subat_index(s, q3, l4, t);
            } else {
                codec::lemma_subat_index(s, q4, p4, t - l4.len());
            }
        }
    }
    codec::lemma_pfx_str(s, q3, l4, v.platform);
    let q5 = q4 + p4.len() as int;
    codec::lemma_subat_split(s, q5, l5, c5 + z);
    let q6 = q5 + l5.len() as int;
    codec::lemma_subat_split(s, q6, c5, z);
    assert(s.subrange(q5, q5 + l5.len() + c5.len() as int) =~= l5 + c5) by {
        assert forall|t: int| 0 <= t < l5.len() + c5.len() implies s[q5 + t] == (l5 + c5)[t] by {
            if t < l5.len() {
                codec::lemma_subat_index(s, q5, l5, t);
            } else {
                codec::lemma_subat_index(s, q6, c5, t - l5.len());
            }
        }
    }
    codec::lemma_pfx_str(s, q5, l5, v.channel_name);
    let q7 = q6 + c5.len() as int;
    assert(codec::sp_lit(s, q7, z) == Some(q7 + 1)) by {
        assert(s.subrange(q7, q7 + 1) == z);
    }
    assert(q7 + 1 == s.len());
}

// ---------------------------------------------------------------------------
// Store operations
// ---------------------------------------------------------------------------
/// The store key of one channel on one platform.
pub open spec fn sp_stream_key(platform: Seq<char>, channel: Seq<char>) -> Seq<char> {
    platform + seq![':'] + channel
}

/// Build the store key of one channel on one platform.
pub fn stream_key(platform: &str, channel: &str) -> (r: String)
    ensures
        r@ == sp_stream_key(platform@, channel@),
{
    let mut out: Vec<char> = Vec::new();
    text::push_str_chars(&mut out, platform);
    out.push(':');
    text::push_str_chars(&mut out, channel);
    assert(out@ =~= sp_stream_key(platform@, channel@));
    text::chars_to_string(&out)
}

/// What the follow command did.
pub enum FollowOutcome {
    /// The URL names no channel on a supported platform; nothing changed.
    UnsupportedUrl,
    /// The channel is now followed, under this record.
    Followed(StreamFollow),
}

/// Follow the channel a URL names: parse it and persist the follow under
/// `platform:channel`.
pub fn follow(store: &mut Store, url: &str, user_id: u64, channel_id: u64) -> (r: Result<
    FollowOutcome,
    DbError,
>)
    ensures
        (r matches Ok(out) ==> match out {
            FollowOutcome::UnsupportedUrl => sp_parse_kick_url(url@) is None && forall|
                n: Seq<char>,
            |
                #[trigger] store_tbl(*final (store), n) == store_tbl(*old(store), n),
            FollowOutcome::Followed(f) => sp_parse_kick_url(url@) == Some(f@.channel_name)
                && f@.user_id == user_id && f@.channel_id == channel_id && f@.url == url@
                && f@.platform == "kick"@ && store_tbl(*final (store), streams_table())
                == store_tbl(*old(store), streams_table()).insert(
                sp_stream_key("kick"@, f@.channel_name),
                enc_follow(f@),
            ) && (forall|n: Seq<char>|
                n != streams_table() ==> #[trigger] store_tbl(*final (store), n) == store_tbl(
                    *old(store),
                    n,
                )),
        }),
        sp_parse_kick_url(url@) is None ==> (r matches Ok(out) && out is UnsupportedUrl),
        r is Err ==> (sp_parse_kick_url(url@) matches Some(c) && sp_only_key_differs(
            *old(store),
            *final (store),
            streams_table(),
            sp_stream_key("kick"@, c),
        )),
{
    proof {
        reveal_strlit("streams");
    }
    match parse_kick_url(url) {
        None => Ok(FollowOutcome::UnsupportedUrl),
        Some(channel_name) => {
            let record = StreamFollow {
                user_id,
                url: url.to_owned(),
                channel_id,
                platform: "kick".to_owned(),
                channel_name,
            };
            let key = stream_key("kick", record.channel_name.as_str());
            let value = encode_follow(&record);
            match store.write_entry("streams", key.as_str(), value.as_str()) {
                Ok(()) => Ok(FollowOutcome::Followed(record)),
                Err(e) => Err(e),
            }
        },
    }
}

/// What the unfollow command did.
pub enum UnfollowOutcome {
    /// The URL names no channel on a supported platform; nothing changed.
    UnsupportedUrl,
    /// Whatever follow stood under the URL's key is gone.
    Unfollowed,
}

/// Unfollow the channel a URL names; removing an unknown channel is
/// accepted and changes nothing.
pub fn unfollow(store: &mut Store, url: &str) -> (r: Result<UnfollowOutcome, DbError>)
    ensures
        (r matches Ok(out) ==> match out {
            UnfollowOutcome::UnsupportedUrl => sp_parse_kick_url(url@) is None && forall|
                n: Seq<char>,
            |
                #[trigger] store_tbl(*final (store), n) == store_tbl(*old(store), n),
            UnfollowOutcome::Unfollowed => (sp_parse_kick_url(url@) matches Some(c) && store_tbl(
                *final (store),
                streams_table(),
            ) == store_tbl(*old(store), streams_table()).remove(sp_stream_key("kick"@, c)))
                && (forall|n: Seq<char>|
                n != streams_table() ==> #[trigger] store_tbl(*final (store), n) == store_tbl(
                    *old(store),
                    n,
                )),
        }),
        sp_parse_kick_url(url@) is None ==> (r matches Ok(out) && out is UnsupportedUrl),
        r is Err ==> (sp_parse_kick_url(url@) matches Some(c) && sp_only_key_differs(
            *old(store),
            *final (store),
            streams_table(),
            sp_stream_key("kick"@, c),
        )),
{
    proof {
        reveal_strlit("streams");
    }
    match parse_kick_url(url) {
        None => Ok(UnfollowOutcome::UnsupportedUrl),
        Some(channel_name) => {
            let key = stream_key("kick", channel_name.as_str());
            match store.delete_entry("streams", key.as_str()) {
                Ok(()) => Ok(UnfollowOutcome::Unfollowed),
                Err(e) => Err(e),
            }
        },
    }
}

/// Whether some stored follow record decodes to `f`.
pub open spec fn stored_follow(t: Map<Seq<char>, Seq<char>>, f: StreamFollowV) -> bool {
    exists|k: Seq<char>| t.contains_key(k) && sp_dec_follow(#[trigger] t[k]) == Some(f)
}

/// Whether the listing carries this follow.
pub open spec fn sp_follow_listed(vs: Seq<StreamFollow>, f: StreamFollowV) -> bool {
    exists|i: int| 0 <= i < vs.len() && (#[trigger] vs[i])@ == f
}

/// Every followed channel whose record decodes, as the listing command
/// shows them: each listed follow is stored, and each stored record that
/// decodes is listed.  Records that do not decode are skipped.
pub fn following(store: &Store) -> (r: Result<Vec<StreamFollow>, DbError>)
    ensures
        (r matches Ok(v) ==> {
            &&& forall|i: int|
                0 <= i < v@.len() ==> #[trigger] stored_follow(
                    store_tbl(*store, streams_table()),
                    v@[i]@,
                )
            &&& forall|k: Seq<char>|
                store_tbl(*store, streams_table()).contains_key(k) ==> match sp_dec_follow(
                    #[trigger] store_tbl(*store, streams_table())[k],
                ) {
                    Some(f) => sp_follow_listed(v@, f),
                    None => true,
                }
        }),
{
    proof {
        reveal_strlit("streams");
    }
    let pairs = match store.read_table("streams") {
        Ok(p) => p,
        Err(e) => return Err(e),
    };
    let ghost t = store_tbl(*store, streams_table());
    let mut out: Vec<StreamFollow> = Vec::new();
    let mut i: usize = 0;
    while i < pairs.len()
        invariant
            i <= pairs@.len(),
            t == store_tbl(*store, streams_table()),
            forall|k: int|
                0 <= k < pairs@.len() ==> t.contains_key(#[trigger] pairs@[k].0@)
                    && t[pairs@[k].0@] == pairs@[k].1@,
            forall|k: Seq<char>|
                t.contains_key(k) ==> exists|j: int|
                    0 <= j < pairs@.len() && #[trigger] pairs@[j].0@ == k,
            forall|k: int|
                0 <= k < out@.len() ==> #[trigger] stored_follow(t, out@[k]@),
            forall|j: int|
                0 <= j < i ==> match sp_dec_follow(t[(#[trigger] pairs@[j]).0@]) {
                    Some(f) => sp_follow_listed(out@, f),
                    None => true,
                },
        decreases pairs@.len() - i,
    {
        let ghost out0 = out@;
        match decode_follow(pairs[i].1.as_str()) {
            Some(f) => {
                let ghost fv = f@;
                out.push(f);
                proof {
                    let key = pairs@[i as int].0@;
                    assert(t.contains_key(key) && sp_dec_follow(t[key]) == Some(fv));
                    assert(stored_follow(t, fv));
                    assert(out@[out0.len() as int]@ == fv);
                    assert(sp_follow_listed(out@, fv));
                    assert forall|k: int|
                        0 <= k < out@.len() implies #[trigger] stored_follow(t, out@[k]@) by {
                        if k < out0.len() {
                            assert(out@[k] == out0[k]);
                        } else {
                            assert(out@[k]@ == fv);
                        }
                    }
                    assert forall|j: int| 0 <= j < i + 1 implies match sp_dec_follow(
                        t[(#[trigger] pairs@[j]).0@],
                    ) {
                        Some(f2) => sp_follow_listed(out@, f2),
                        None => true,
                    } by {
                        if j < i {
                            match sp_dec_follow(t[pairs@[j].0@]) {
                                Some(f2) => {
                                    assert(sp_follow_listed(out0, f2));
                                    let w = choose|w: int|
                                        0 <= w < out0.len() && (#[trigger] out0[w])@ == f2;
                                    assert(out@[w]@ == f2);
                                },
                                None => {},
                            }
                        }
                    }
                }
            },
            None => {
                proof {
                    assert(sp_dec_follow(t[pairs@[i as int].0@]) is None);
                }
            },
        }
        i = i + 1;
    }
    proof {
        assert forall|k: Seq<char>| t.contains_key(k) implies match sp_dec_follow(
            #[trigger] t[k],
        ) {
            Some(f) => sp_follow_listed(out@, f),
            None => true,
        } by {
            let j = choose|j: int| 0 <= j < pairs@.len() && #[trigger] pairs@[j].0@ == k;
            assert(t[pairs@[j].0@] == t[k]);
        }
    }
    Ok(out)
}

/// Load the live session record of one channel, if any.
pub fn load_live_session(store: &Store, platform: &str, channel: &str) -> (r: Result<
    Option<LiveSessionRecord>,
    DbError,
>)
    ensures
        (r matches Ok(o) ==> {
            let key = sp_stream_key(platform@, channel@);
            match o {
                Some(rec) => store_tbl(*store, sessions_table()).contains_key(key)
                    && sp_dec_session(store_tbl(*store, sessions_table())[key]) == Some(rec@),
                None => !store_tbl(*store, sessions_table()).contains_key(key),
            }
        }),
{
    proof {
        reveal_strlit("live_sessions");
    }
    let key = stream_key(platform, channel);
    match store.read_entry("live_sessions", key.as_str()) {
        Ok(Some(value)) => match decode_session(value.as_str()) {
            Some(rec) => Ok(Some(rec)),
            None => Err(DbError::Serialization(String::new())),
        },
        Ok(None) => Ok(None),
        Err(e) => Err(e),
    }
}

/// Settle one channel's session record after the chat call the plan asked
/// for: a fresh message replaces the record, a successful refresh keeps
/// it, and an offline channel, a failed edit or a failed send drops it.
/// The dropped record's message is left alone in chat history.
pub fn settle_stream_probe(
    store: &mut Store,
    platform: &str,
    channel: &str,
    action: &StreamAction,
    outcome: &SendOutcome,
    session_token: &str,
) -> (r: Result<(), DbError>)
    requires
        (action is Refresh ==> (outcome is EditOk || outcome is EditFailed)),
        (action is Post ==> (outcome matches SendOutcome::Sent(_) || outcome is SendFailed)),
        (action is ClearRecord ==> outcome is NotNeeded),
    ensures
        (r matches Ok(u) ==> {
            let t0 = store_tbl(*old(store), sessions_table());
            let key = sp_stream_key(platform@, channel@);
            &&& (forall|n: Seq<char>|
                n != sessions_table() ==> #[trigger] store_tbl(*final (store), n) == store_tbl(
                    *old(store),
                    n,
                ))
            &&& match *outcome {
                SendOutcome::Sent(m) => store_tbl(*final (store), sessions_table())
                    == t0.insert(
                    key,
                    enc_session(
                        LiveSessionRecV { message_id: m, session_token: session_token@ },
                    ),
                ),
                SendOutcome::EditOk => store_tbl(*final (store), sessions_table()) == t0,
                SendOutcome::EditFailed => store_tbl(*final (store), sessions_table())
                    == t0.remove(key),
                SendOutcome::SendFailed => store_tbl(*final (store), sessions_table())
                    == t0.remove(key),
                SendOutcome::NotNeeded => store_tbl(*final (store), sessions_table())
                    == t0.remove(key),
            }
        }),
        outcome is EditOk ==> r is Ok && forall|n: Seq<char>|
            #[trigger] store_tbl(*final (store), n) == store_tbl(*old(store), n),
        r is Err ==> sp_only_key_differs(
            *old(store),
            *final (store),
            sessions_table(),
            sp_stream_key(platform@, channel@),
        ),
{
    proof {
        reveal_strlit("live_sessions");
    }
    let key = stream_key(platform, channel);
    match outcome {
        SendOutcome::Sent(m) => {
            let rec = LiveSessionRecord {
                message_id: *m,
                session_token: session_token.to_owned(),
            };
            let value = encode_session(&rec);
            store.write_entry("live_sessions", key.as_str(), value.as_str())
        },
        SendOutcome::EditOk => Ok(()),
        SendOutcome::EditFailed => store.delete_entry("live_sessions", key.as_str()),
        SendOutcome::SendFailed => store.delete_entry("live_sessions", key.as_str()),
        SendOutcome::NotNeeded => store.delete_entry("live_sessions", key.as_str()),
    }
}

// ---------------------------------------------------------------------------
// The tick's laws
// ---------------------------------------------------------------------------
/// Two consecutive live probes with the same session token: the second
/// tick refreshes the standing message in place — the stored record
/// decodes back to the same message reference, and the plan is a refresh
/// of exactly that message, never a new post.
pub proof fn lemma_same_token_refreshes(
    t: Map<Seq<char>, Seq<char>>,
    key: Seq<char>,
    rec: LiveSessionRecV,
)
    requires
        t.contains_key(key),
        t[key] == enc_session(rec),
    ensures
        sp_dec_session(t[key]) == Some(rec),
        sp_plan_stream(Some(rec), ProbeV::Live { session_token: rec.session_token })
            == StreamAction::Refresh(rec.message_id),
{
    lemma_session_roundtrip(rec);
}

/// A live probe with a different session token plans a fresh post, never
/// an edit of the old message; settling the sent message stores the new
/// token and reference in the old record's place.
pub proof fn lemma_new_token_posts(rec: LiveSessionRecV, token: Seq<char>, new_message: u64)
    requires
        rec.session_token != token,
    ensures
        sp_plan_stream(Some(rec), ProbeV::Live { session_token: token }) == StreamAction::Post,
        sp_dec_session(enc_session(LiveSessionRecV { message_id: new_message, session_token: token }))
            == Some(LiveSessionRecV { message_id: new_message, session_token: token }),
{
    lemma_session_roundtrip(LiveSessionRecV { message_id: new_message, session_token: token });
}

/// An offline probe clears the record, and the next live probe plans a
/// fresh post rather than an edit of the deleted message.
pub proof fn lemma_offline_then_live_posts(rec: LiveSessionRecV, token: Seq<char>)
    ensures
        sp_plan_stream(Some(rec), ProbeV::Offline) == StreamAction::ClearRecord,
        sp_plan_stream(None, ProbeV::Live { session_token: token }) == StreamAction::Post,
{
}

} // verus!
