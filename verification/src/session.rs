//! Per-viewer sessions with TTL eviction (in-memory backend), and the
//! JSON encoding used by the remote key-value backend.

use vstd::prelude::*;
use crate::num::{dec_str, u64_to_string};
use crate::text::push_char;

verus! {

/// Session data stored for each active session.  Times are milliseconds
/// since the Unix epoch.
#[derive(Clone, Debug, PartialEq)]
pub struct Session {
    pub session_id: String,
    pub origin_url: String,
    pub created_at_ms: u64,
    pub last_accessed_ms: u64,
}

/// Mathematical view of a `Session`.
pub ghost struct SessionV {
    pub session_id: Seq<char>,
    pub origin_url: Seq<char>,
    pub created_at_ms: u64,
    pub last_accessed_ms: u64,
}

impl View for Session {
    type V = SessionV;

    open spec fn view(&self) -> SessionV {
        SessionV {
            session_id: self.session_id@,
            origin_url: self.origin_url@,
            created_at_ms: self.created_at_ms,
            last_accessed_ms: self.last_accessed_ms,
        }
    }
}

impl Session {
    /// An exact copy.
    pub fn duplicate(&self) -> (r: Session)
        ensures
            r@ == self@,
    {
        Session {
            session_id: self.session_id.clone(),
            origin_url: self.origin_url.clone(),
            created_at_ms: self.created_at_ms,
            last_accessed_ms: self.last_accessed_ms,
        }
    }

    /// The remote store key of a session id.
    pub fn remote_key(session_id: &str) -> (r: String)
        ensures
            r@ == "ritcher:session:"@ + session_id@,
    {
        let mut key = "ritcher:session:".to_owned();
        key.append(session_id);
        key
    }

    /// The JSON value stored by the remote backend: id, origin, and the
    /// two times in epoch seconds.
    pub open spec fn json_view(s: SessionV) -> Seq<char> {
        "{\"session_id\":\""@ + json_escaped(s.session_id) + "\",\"origin_url\":\""@
            + json_escaped(s.origin_url) + "\",\"created_at\":"@ + dec_str(
            (s.created_at_ms / 1000) as nat,
        ) + ",\"last_accessed\":"@ + dec_str((s.last_accessed_ms / 1000) as nat) + "}"@
    }

    /// Encode this session as the remote backend's JSON value.
    pub fn to_json(&self) -> (r: String)
        ensures
            r@ == Session::json_view(self@),
    {
        let mut out = "{\"session_id\":\"".to_owned();
        out.append(json_escape(self.session_id.as_str()).as_str());
        out.append("\",\"origin_url\":\"");
        out.append(json_escape(self.origin_url.as_str()).as_str());
        out.append("\",\"created_at\":");
        out.append(u64_to_string(self.created_at_ms / 1000).as_str());
        out.append(",\"last_accessed\":");
        out.append(u64_to_string(self.last_accessed_ms / 1000).as_str());
        out.append("}");
        out
    }
}

/// The JSON string-escaped form of one character: quotes and
/// backslashes are escaped; other characters pass through.  (Control
/// characters inside session ids or URLs are not expected and pass
/// through unchanged.)
pub open spec fn json_esc_char(c: char) -> Seq<char> {
    if c == '"' {
        seq!['\\', '"']
    } else if c == '\\' {
        seq!['\\', '\\']
    } else {
        seq![c]
    }
}

/// The JSON string-escaped form of a string.
pub open spec fn json_escaped(s: Seq<char>) -> Seq<char>
    decreases s.len(),
{
    if s.len() == 0 {
        Seq::empty()
    } else {
        json_esc_char(s.first()) + json_escaped(s.drop_first())
    }
}

proof fn lemma_json_escaped_push(s: Seq<char>, c: char)
    ensures
        json_escaped(s.push(c)) == json_escaped(s) + json_esc_char(c),
    decreases s.len(),
{
    if s.len() == 0 {
        assert(s.push(c).drop_first() =~= Seq::<char>::empty());
        assert(s.push(c).first() == c);
        assert(json_escaped(Seq::<char>::empty()) == Seq::<char>::empty());
        assert(json_escaped(s) + json_esc_char(c) =~= json_esc_char(c));
    } else {
        assert(s.push(c).first() == s.first());
        assert(s.push(c).drop_first() =~= s.drop_first().push(c));
        lemma_json_escaped_push(s.drop_first(), c);
        assert(json_esc_char(s.first()) + (json_escaped(s.drop_first()) + json_esc_char(c)) =~= (
        json_esc_char(s.first()) + json_escaped(s.drop_first())) + json_esc_char(c));
    }
}

/// Escape a string for inclusion in a JSON string literal.
pub fn json_escape(s: &str) -> (r: String)
    ensures
        r@ == json_escaped(s@),
{
    let len = s.unicode_len();
    let mut out = String::new();
    let mut i: usize = 0;
    assert(s@.subrange(0, 0) =~= Seq::<char>::empty());
    while i < len
        invariant
            len == s@.len(),
            0 <= i <= len,
            out@ == json_escaped(s@.subrange(0, i as int)),
        decreases len - i,
    {
        let c = s.get_char(i);
        proof {
            assert(s@.subrange(0, i + 1) =~= s@.subrange(0, i as int).push(s@[i as int]));
            lemma_json_escaped_push(s@.subrange(0, i as int), s@[i as int]);
        }
        if c == '"' {
            out.append("\\\"");
            assert("\\\""@ =~= json_esc_char('"')) by {
                reveal_strlit("\\\"");
            }
        } else if c == '\\' {
            out.append("\\\\");
            assert("\\\\"@ =~= json_esc_char('\\')) by {
                reveal_strlit("\\\\");
            }
        } else {
            push_char(&mut out, c);
            assert(out@ =~= json_escaped(s@.subrange(0, i as int)) + json_esc_char(c));
        }
        i += 1;
    }
    assert(s@.subrange(0, len as int) =~= s@);
    out
}

/// The first index holding the session id, if any.
pub open spec fn find_session(sessions: Seq<SessionV>, id: Seq<char>) -> Option<int>
    decreases sessions.len(),
{
    if sessions.len() == 0 {
        None
    } else if sessions.first().session_id == id {
        Some(0)
    } else {
        match find_session(sessions.drop_first(), id) {
            Some(i) => Some(i + 1),
            None => None,
        }
    }
}

/// A found index is in range and holds the id.
pub proof fn lemma_find_session_range(sessions: Seq<SessionV>, id: Seq<char>)
    ensures
        match find_session(sessions, id) {
            Some(i) => 0 <= i < sessions.len() && sessions[i].session_id == id,
            None => forall|j: int| 0 <= j < sessions.len() ==> (#[trigger] sessions[j]).session_id
                != id,
        },
    decreases sessions.len(),
{
    if sessions.len() > 0 && sessions.first().session_id != id {
        lemma_find_session_range(sessions.drop_first(), id);
        match find_session(sessions.drop_first(), id) {
            Some(i) => {
                assert(sessions.drop_first()[i] == sessions[i + 1]);
            },
            None => {
                assert forall|j: int| 0 <= j < sessions.len() implies (#[trigger] sessions[j])
                    .session_id != id by {
                    if j > 0 {
                        assert(sessions.drop_first()[j - 1] == sessions[j]);
                    }
                }
            },
        }
    }
}

/// A first occurrence witnesses `find_session`.
proof fn lemma_find_session_found(sessions: Seq<SessionV>, id: Seq<char>, i: int)
    requires
        0 <= i < sessions.len(),
        sessions[i].session_id == id,
        forall|j: int| 0 <= j < i ==> (#[trigger] sessions[j]).session_id != id,
    ensures
        find_session(sessions, id) == Some(i),
    decreases sessions.len(),
{
    if i > 0 {
        lemma_find_session_found(sessions.drop_first(), id, i - 1);
    }
}

/// A session is live at `now` under `ttl`: it was accessed within the
/// TTL window.
pub open spec fn session_live(s: SessionV, now_ms: u64, ttl_ms: u64) -> bool {
    now_ms < s.last_accessed_ms || now_ms - s.last_accessed_ms < ttl_ms
}

/// Session manager over an in-memory store.  Sessions are independent;
/// lookups are by id; expiry is by time since last access.
pub struct SessionManager {
    sessions: Vec<Session>,
    ttl_ms: u64,
}

impl SessionManager {
    /// The stored sessions, in insertion order.
    pub closed spec fn sessions_view(&self) -> Seq<SessionV> {
        self.sessions@.map_values(|s: Session| s@)
    }

    /// The configured TTL in milliseconds.
    pub closed spec fn ttl(&self) -> u64 {
        self.ttl_ms
    }

    /// An empty in-memory session manager.
    pub fn new_memory(ttl_ms: u64) -> (r: SessionManager)
        ensures
            r.sessions_view().len() == 0,
            r.ttl() == ttl_ms,
    {
        let r = SessionManager { sessions: Vec::new(), ttl_ms };
        proof {
            assert(r.sessions_view() =~= Seq::<SessionV>::empty());
        }
        r
    }

    /// Find a session's position by id.
    fn find(&self, session_id: &str) -> (r: Option<usize>)
        ensures
            match r {
                Some(i) => find_session(self.sessions_view(), session_id@) == Some(i as int),
                None => find_session(self.sessions_view(), session_id@) is None,
            },
    {
        let ghost sv = self.sessions_view();
        let n = self.sessions.len();
        let mut i: usize = 0;
        while i < n
            invariant
                n == sv.len(),
                sv == self.sessions_view(),
                0 <= i <= n,
                forall|j: int| 0 <= j < i ==> (#[trigger] sv[j]).session_id != session_id@,
            decreases n - i,
        {
            proof {
                assert(sv[i as int] == self.sessions@[i as int]@);
            }
            if crate::text::str_eq(self.sessions[i].session_id.as_str(), session_id) {
                proof {
                    lemma_find_session_found(sv, session_id@, i as int);
                }
                return Some(i);
            }
            i += 1;
        }
        proof {
            lemma_find_session_none(sv, session_id@);
        }
        None
    }

    /// Get the session with this id, creating it when absent.  The
    /// returned copy reflects the stored entry.
    pub fn get_or_create(&mut self, session_id: String, origin_url: String, now_ms: u64) -> (r:
        Session)
        ensures
            final(self).ttl() == old(self).ttl(),
            match find_session(old(self).sessions_view(), session_id@) {
                Some(i) => final(self).sessions_view() == old(self).sessions_view() && r@ == old(self).sessions_view()[i],
                None => {
                    &&& final(self).sessions_view() == old(self).sessions_view().push(r@)
                    &&& r@ == (SessionV {
                        session_id: session_id@,
                        origin_url: origin_url@,
                        created_at_ms: now_ms,
                        last_accessed_ms: now_ms,
                    })
                },
            },
    {
        match self.find(session_id.as_str()) {
            Some(i) => {
                proof {
                    lemma_find_session_range(self.sessions_view(), session_id@);
                    assert(self.sessions_view()[i as int] == self.sessions@[i as int]@);
                }
                self.sessions[i].duplicate()
            },
            None => {
                let session = Session {
                    session_id,
                    origin_url,
                    created_at_ms: now_ms,
                    last_accessed_ms: now_ms,
                };
                let copy = session.duplicate();
                let ghost before = self.sessions_view();
                self.sessions.push(session);
                proof {
                    assert(self.sessions_view() =~= before.push(copy@));
                }
                copy
            },
        }
    }

    /// Advance the last-accessed time of a session, if it exists.
    pub fn touch(&mut self, session_id: &str, now_ms: u64)
        ensures
            final(self).ttl() == old(self).ttl(),
            match find_session(old(self).sessions_view(), session_id@) {
                Some(i) => final(self).sessions_view() == old(self).sessions_view().update(
                    i,
                    SessionV { last_accessed_ms: now_ms, ..old(self).sessions_view()[i] },
                ),
                None => final(self).sessions_view() == old(self).sessions_view(),
            },
    {
        match self.find(session_id) {
            Some(i) => {
                proof {
                    lemma_find_session_range(self.sessions_view(), session_id@);
                }
                let ghost before = self.sessions_view();
                self.sessions[i].last_accessed_ms = now_ms;
                proof {
                    assert(self.sessions_view() =~= before.update(
                        i as int,
                        SessionV { last_accessed_ms: now_ms, ..before[i as int] },
                    ));
                }
            },
            None => {},
        }
    }

    /// Get a live session by id: a stored entry whose last access is
    /// within the TTL.  An expired entry reads as absent.
    pub fn get(&self, session_id: &str, now_ms: u64) -> (r: Option<Session>)
        ensures
            match find_session(self.sessions_view(), session_id@) {
                Some(i) => {
                    &&& session_live(self.sessions_view()[i], now_ms, self.ttl()) ==> (r matches
                        Some(s) && s@ == self.sessions_view()[i])
                    &&& !session_live(self.sessions_view()[i], now_ms, self.ttl()) ==> r is None
                },
                None => r is None,
            },
    {
        match self.find(session_id) {
            Some(i) => {
                proof {
                    lemma_find_session_range(self.sessions_view(), session_id@);
                    assert(self.sessions_view()[i as int] == self.sessions@[i as int]@);
                }
                let s = &self.sessions[i];
                let live = now_ms < s.last_accessed_ms || now_ms - s.last_accessed_ms
                    < self.ttl_ms;
                if live {
                    Some(s.duplicate())
                } else {
                    None
                }
            },
            None => None,
        }
    }

    /// Remove sessions whose last access is older than the TTL.
    pub fn cleanup_expired(&mut self, now_ms: u64)
        ensures
            final(self).ttl() == old(self).ttl(),
            final(self).sessions_view() == old(self).sessions_view().filter(
                |s: SessionV| session_live(s, now_ms, old(self).ttl()),
            ),
    {
        let ghost sv = self.sessions_view();
        let ghost ttl = self.ttl_ms;
        let n = self.sessions.len();
        let mut kept: Vec<Session> = Vec::new();
        assert(sv.subrange(0, 0) =~= Seq::<SessionV>::empty());
        assert(Seq::<SessionV>::empty().filter(|s: SessionV| session_live(s, now_ms, ttl)) =~= Seq::<
            SessionV,
        >::empty()) by {
            reveal(Seq::filter);
        }
        let mut i: usize = 0;
        while i < n
            invariant
                n == sv.len(),
                sv == self.sessions_view(),
                ttl == self.ttl_ms,
                0 <= i <= n,
                kept@.map_values(|s: Session| s@) == sv.subrange(0, i as int).filter(
                    |s: SessionV| session_live(s, now_ms, ttl),
                ),
            decreases n - i,
        {
            proof {
                reveal(Seq::filter);
                assert(sv.subrange(0, i + 1).drop_last() =~= sv.subrange(0, i as int));
                assert(sv.subrange(0, i + 1).last() == sv[i as int]);
                assert(sv[i as int] == self.sessions@[i as int]@);
            }
            let s = &self.sessions[i];
            let ghost kept0 = kept@;
            if now_ms < s.last_accessed_ms || now_ms - s.last_accessed_ms < self.ttl_ms {
                kept.push(s.duplicate());
                proof {
                    assert(kept@.map_values(|x: Session| x@) =~= kept0.map_values(
                        |x: Session| x@,
                    ).push(sv[i as int]));
                }
            }
            i += 1;
        }
        proof {
            assert(sv.subrange(0, n as int) =~= sv);
        }
        self.sessions = kept;
    }

    /// Number of stored sessions (live or not yet swept).
    pub fn session_count(&self) -> (r: usize)
        ensures
            r == self.sessions_view().len(),
    {
        self.sessions.len()
    }

    /// Remove a session by id, returning it.
    pub fn remove(&mut self, session_id: &str) -> (r: Option<Session>)
        ensures
            final(self).ttl() == old(self).ttl(),
            match find_session(old(self).sessions_view(), session_id@) {
                Some(i) => {
                    &&& (r matches Some(s) && s@ == old(self).sessions_view()[i])
                    &&& final(self).sessions_view() == old(self).sessions_view().remove(i)
                },
                None => r is None && final(self).sessions_view() == old(self).sessions_view(),
            },
    {
        match self.find(session_id) {
            Some(i) => {
                proof {
                    lemma_find_session_range(self.sessions_view(), session_id@);
                }
                let ghost before = self.sessions_view();
                let s = self.sessions.remove(i);
                proof {
                    assert(self.sessions_view() =~= before.remove(i as int));
                }
                Some(s)
            },
            None => None,
        }
    }
}

/// Absence of the id everywhere means `find_session` is `None`.
proof fn lemma_find_session_none(sessions: Seq<SessionV>, id: Seq<char>)
    requires
        forall|j: int| 0 <= j < sessions.len() ==> (#[trigger] sessions[j]).session_id != id,
    ensures
        find_session(sessions, id) is None,
    decreases sessions.len(),
{
    if sessions.len() > 0 {
        lemma_find_session_none(sessions.drop_first(), id);
    }
}

/// The session TTL law: once the TTL has fully elapsed since a
/// session's last access, a lookup at that time reads it as absent.
pub proof fn lemma_session_ttl(m: &SessionManager, id: Seq<char>, now_ms: u64)
    requires
        match find_session(m.sessions_view(), id) {
            Some(i) => now_ms >= m.sessions_view()[i].last_accessed_ms + m.ttl(),
            None => true,
        },
    ensures
        match find_session(m.sessions_view(), id) {
            Some(i) => !session_live(m.sessions_view()[i], now_ms, m.ttl()),
            None => true,
        },
{
}

} // verus!
