//! A table from opaque tokens to (email, expiry) records, as the session and
//! pending-login stores use it.

use vstd::prelude::*;

verus! {

broadcast use vstd::string::group_string_axioms;

/// One token and what it stands for.
pub struct TokenEntry {
    pub token: String,
    pub email: String,
    /// Unix time (seconds) after which the token no longer counts.
    pub expires_at: i64,
}

/// What a token stands for: the operator's email and the expiry time.
pub ghost struct Grant {
    pub email: Seq<char>,
    pub expires_at: i64,
}

impl TokenEntry {
    /// The token this entry is found by.
    pub open spec fn key(self) -> Seq<char> {
        self.token@
    }

    /// What the token grants.
    pub open spec fn grant(self) -> Grant {
        Grant { email: self.email@, expires_at: self.expires_at }
    }
}

/// The map that a list of entries stands for (a later entry wins).
pub open spec fn map_of(s: Seq<TokenEntry>) -> Map<Seq<char>, Grant>
    decreases s.len(),
{
    if s.len() == 0 {
        Map::empty()
    } else {
        map_of(s.drop_last()).insert(s.last().key(), s.last().grant())
    }
}

/// No token occurs twice.
pub open spec fn distinct_keys(s: Seq<TokenEntry>) -> bool {
    forall|i: int, j: int| 0 <= i < s.len() && 0 <= j < s.len() && i != j ==> #[trigger] s[i].key()
        != #[trigger] s[j].key()
}

/// The grants of `m` that are still valid at `now` (expiry strictly after `now`).
pub open spec fn unexpired(m: Map<Seq<char>, Grant>, now: i64) -> Map<Seq<char>, Grant> {
    m.restrict(m.dom().filter(|k: Seq<char>| m[k].expires_at > now))
}

/// Each entry of a list without repeated tokens is in its map.
pub proof fn lemma_map_of_index(s: Seq<TokenEntry>, i: int)
    requires
        distinct_keys(s),
        0 <= i < s.len(),
    ensures
        map_of(s).contains_key(s[i].key()),
        map_of(s)[s[i].key()] == s[i].grant(),
    decreases s.len(),
{
    if i < s.len() - 1 {
        let t = s.drop_last();
        assert(t[i] == s[i]);
        assert forall|a: int, b: int| 0 <= a < t.len() && 0 <= b < t.len() && a != b implies #[trigger] t[a].key()
            != #[trigger] t[b].key() by {
            assert(t[a] == s[a] && t[b] == s[b]);
        }
        lemma_map_of_index(t, i);
        assert(s[i].key() != s[s.len() - 1].key());
    }
}

/// The map's tokens are those of the entries.
pub proof fn lemma_map_of_dom(s: Seq<TokenEntry>, k: Seq<char>)
    ensures
        map_of(s).contains_key(k) <==> exists|i: int| 0 <= i < s.len() && #[trigger] s[i].key() == k,
    decreases s.len(),
{
    if s.len() > 0 {
        let t = s.drop_last();
        lemma_map_of_dom(t, k);
        if map_of(s).contains_key(k) {
            if k == s.last().key() {
                assert(s[s.len() - 1].key() == k);
            } else {
                let i = choose|i: int| 0 <= i < t.len() && #[trigger] t[i].key() == k;
                assert(s[i] == t[i]);
            }
        }
        if exists|i: int| 0 <= i < s.len() && #[trigger] s[i].key() == k {
            let i = choose|i: int| 0 <= i < s.len() && #[trigger] s[i].key() == k;
            if i < s.len() - 1 {
                assert(t[i] == s[i]);
            }
        }
    }
}

/// Token store: a list of entries in which each token occurs once, seen as a map.
pub struct TokenTable {
    entries: Vec<TokenEntry>,
}

impl View for TokenTable {
    type V = Map<Seq<char>, Grant>;

    closed spec fn view(&self) -> Map<Seq<char>, Grant> {
        map_of(self.entries@)
    }
}

impl TokenTable {
    /// The table's invariant: each token occurs once.
    pub closed spec fn wf(&self) -> bool {
        distinct_keys(self.entries@)
    }

    /// An empty table.
    pub fn new() -> (r: Self)
        ensures
            r.wf(),
            r@ == Map::<Seq<char>, Grant>::empty(),
    {
        TokenTable { entries: Vec::new() }
    }

    /// Position of `token`, if present.
    fn position(&self, token: &str) -> (r: Option<usize>)
        requires
            self.wf(),
        ensures
            match r {
                Some(i) => i < self.entries.len() && self.entries@[i as int].key() == token@,
                None => !self@.contains_key(token@),
            },
    {
        let mut i: usize = 0;
        while i < self.entries.len()
            invariant
                i <= self.entries.len(),
                forall|k: int| 0 <= k < i ==> #[trigger] self.entries@[k].key() != token@,
            decreases self.entries.len() - i,
        {
            if self.entries[i].token.as_str().to_owned() == token.to_owned() {
                return Some(i);
            }
            i = i + 1;
        }
        proof {
            lemma_map_of_dom(self.entries@, token@);
        }
        None
    }

    /// The email a token stands for, when present (expired or not).
    pub fn get(&self, token: &str) -> (r: Option<String>)
        requires
            self.wf(),
        ensures
            match r {
                Some(e) => self@.contains_key(token@) && self@[token@].email == e@,
                None => !self@.contains_key(token@),
            },
    {
        match self.position(token) {
            Some(i) => {
                proof {
                    lemma_map_of_index(self.entries@, i as int);
                }
                Some(self.entries[i].email.clone())
            },
            None => None,
        }
    }

    /// Removes `token`, returning what it stood for.
    pub fn remove(&mut self, token: &str) -> (r: Option<(String, i64)>)
        requires
            old(self).wf(),
        ensures
            final(self).wf(),
            final(self)@ == old(self)@.remove(token@),
            match r {
                Some((e, t)) => old(self)@.contains_key(token@) && old(self)@[token@] == (Grant {
                    email: e@,
                    expires_at: t,
                }),
                None => !old(self)@.contains_key(token@),
            },
    {
        match self.position(token) {
            None => {
                assert(self@ =~= self@.remove(token@));
                None
            },
            Some(i) => {
                let ghost s = self.entries@;
                proof {
                    lemma_map_of_index(s, i as int);
                }
                let e = self.entries.remove(i);
                let ghost t = self.entries@;
                assert(t =~= s.remove(i as int));
                assert forall|a: int, b: int| 0 <= a < t.len() && 0 <= b < t.len() && a != b implies #[trigger] t[a].key()
                    != #[trigger] t[b].key() by {
                    let a2 = if a < i { a } else { a + 1 };
                    let b2 = if b < i { b } else { b + 1 };
                    assert(t[a] == s[a2] && t[b] == s[b2]);
                }
                assert forall|k: Seq<char>| #[trigger] map_of(t).contains_key(k) == map_of(s).remove(
                    token@,
                ).contains_key(k) by {
                    lemma_map_of_dom(t, k);
                    lemma_map_of_dom(s, k);
                    if exists|j: int| 0 <= j < s.len() && #[trigger] s[j].key() == k {
                        let j = choose|j: int| 0 <= j < s.len() && #[trigger] s[j].key() == k;
                        if k != token@ {
                            assert(j != i);
                            let j2 = if j < i { j } else { j - 1 };
                            assert(t[j2] == s[j]);
                        }
                    }
                    if exists|j: int| 0 <= j < t.len() && #[trigger] t[j].key() == k {
                        let j = choose|j: int| 0 <= j < t.len() && #[trigger] t[j].key() == k;
                        let j2 = if j < i { j } else { j + 1 };
                        assert(t[j] == s[j2]);
                        assert(j2 != i);
                    }
                }
                assert forall|k: Seq<char>| #[trigger] map_of(t).contains_key(k) implies map_of(t)[k]
                    == map_of(s)[k] by {
                    lemma_map_of_dom(t, k);
                    let j = choose|j: int| 0 <= j < t.len() && #[trigger] t[j].key() == k;
                    let j2 = if j < i { j } else { j + 1 };
                    assert(t[j] == s[j2]);
                    lemma_map_of_index(t, j);
                    lemma_map_of_index(s, j2);
                }
                assert(map_of(t) =~= map_of(s).remove(token@));
                Some((e.email, e.expires_at))
            },
        }
    }

    /// Adds or replaces `token`.
    pub fn insert(&mut self, token: String, email: String, expires_at: i64)
        requires
            old(self).wf(),
        ensures
            final(self).wf(),
            final(self)@ == old(self)@.insert(token@, Grant { email: email@, expires_at }),
    {
        let _ = self.remove(token.as_str());
        let ghost s = self.entries@;
        let ghost key = token@;
        proof {
            lemma_map_of_dom(s, key);
        }
        self.entries.push(TokenEntry { token, email, expires_at });
        let ghost t = self.entries@;
        assert(t.drop_last() =~= s);
        assert forall|a: int, b: int| 0 <= a < t.len() && 0 <= b < t.len() && a != b implies #[trigger] t[a].key()
            != #[trigger] t[b].key() by {
            if a < s.len() && b < s.len() {
                assert(t[a] == s[a] && t[b] == s[b]);
            } else if a < s.len() {
                assert(t[a] == s[a]);
            } else {
                assert(t[b] == s[b]);
            }
        }
    }

    /// Drops every token whose expiry is not after `now`.
    pub fn retain_unexpired(&mut self, now: i64)
        requires
            old(self).wf(),
        ensures
            final(self).wf(),
            final(self)@ == unexpired(old(self)@, now),
    {
        let ghost s = self.entries@;
        let mut kept: Vec<TokenEntry> = Vec::new();
        let mut i: usize = 0;
        while i < self.entries.len()
            invariant
                i <= self.entries.len(),
                self.entries@ == s,
                kept@ == keep_live(s.take(i as int), now),
            decreases self.entries.len() - i,
        {
            let e = &self.entries[i];
            assert(s.take(i + 1).drop_last() =~= s.take(i as int));
            assert(s.take(i + 1).last() == s[i as int]);
            if e.expires_at > now {
                kept.push(TokenEntry { token: e.token.clone(), email: e.email.clone(), expires_at: e.expires_at });
                assert(kept@.last() == s[i as int]) by {
                    assert(kept@.last().token == e.token && kept@.last().email == e.email);
                }
                assert(kept@ =~= keep_live(s.take(i as int), now).push(s[i as int]));
            }
            i = i + 1;
        }
        assert(s.take(i as int) =~= s);
        proof {
            lemma_keep_live(s, now);
        }
        self.entries = kept;
    }
}

/// The entries of `s` still valid at `now`, in order.
pub open spec fn keep_live(s: Seq<TokenEntry>, now: i64) -> Seq<TokenEntry>
    decreases s.len(),
{
    if s.len() == 0 {
        s
    } else {
        let r = keep_live(s.drop_last(), now);
        if s.last().expires_at > now {
            r.push(s.last())
        } else {
            r
        }
    }
}

/// Keeping the unexpired entries keeps tokens distinct and gives the unexpired part of the map.
pub proof fn lemma_keep_live(s: Seq<TokenEntry>, now: i64)
    requires
        distinct_keys(s),
    ensures
        distinct_keys(keep_live(s, now)),
        map_of(keep_live(s, now)) == unexpired(map_of(s), now),
        forall|k: Seq<char>| #[trigger] map_of(keep_live(s, now)).contains_key(k) ==> map_of(s).contains_key(k),
    decreases s.len(),
{
    if s.len() == 0 {
        assert(map_of(s) =~= Map::empty());
        assert(unexpired(map_of(s), now) =~= Map::empty());
    } else {
        let t = s.drop_last();
        assert forall|a: int, b: int| 0 <= a < t.len() && 0 <= b < t.len() && a != b implies #[trigger] t[a].key()
            != #[trigger] t[b].key() by {
            assert(t[a] == s[a] && t[b] == s[b]);
        }
        lemma_keep_live(t, now);
        let r = keep_live(t, now);
        let last = s.last();
        assert(!map_of(t).contains_key(last.key())) by {
            lemma_map_of_dom(t, last.key());
            if map_of(t).contains_key(last.key()) {
                let i = choose|i: int| 0 <= i < t.len() && #[trigger] t[i].key() == last.key();
                assert(t[i] == s[i]);
                assert(s[s.len() - 1].key() == last.key());
            }
        }
        if last.expires_at > now {
            let r2 = r.push(last);
            assert forall|a: int, b: int| 0 <= a < r2.len() && 0 <= b < r2.len() && a != b implies #[trigger] r2[a].key()
                != #[trigger] r2[b].key() by {
                if a < r.len() && b < r.len() {
                    assert(r2[a] == r[a] && r2[b] == r[b]);
                } else {
                    let o = if a < r.len() { a } else { b };
                    assert(r2[o] == r[o]);
                    lemma_map_of_index(r, o);
                }
            }
            assert(r2.drop_last() =~= r);
            assert(map_of(r2) =~= unexpired(map_of(s), now));
        } else {
            assert(map_of(r) =~= unexpired(map_of(s), now));
        }
    }
}

} // verus!
