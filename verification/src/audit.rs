//! Audit journal location and listing order.

use vstd::prelude::*;

verus! {

broadcast use vstd::string::group_string_axioms;

/// The append-only audit journal (one JSON record per line).
pub struct AuditLog {
    path: String,
}

impl AuditLog {
    /// A journal kept at `path`.
    pub fn new(path: String) -> (r: Self)
        ensures
            r.path_view() == path@,
    {
        AuditLog { path }
    }

    /// The journal's file path.
    pub closed spec fn path_view(&self) -> Seq<char> {
        self.path@
    }

    /// Where the journal lives.
    pub fn path(&self) -> (r: &str)
        ensures
            r@ == self.path_view(),
    {
        self.path.as_str()
    }
}

/// The listing order: newest first (the journal holds oldest first), cut to
/// `limit` entries when `limit` is set (non-zero).
pub open spec fn newest_first_spec<T>(entries: Seq<T>, limit: int) -> Seq<T> {
    let rev = entries.reverse();
    if limit > 0 && rev.len() > limit {
        rev.take(limit)
    } else {
        rev
    }
}

/// Orders journal entries for listing (see `newest_first_spec`).
pub fn newest_first<T>(entries: Vec<T>, limit: usize) -> (r: Vec<T>)
    ensures
        r@ == newest_first_spec(entries@, limit as int),
{
    let ghost all = entries@;
    let mut src = entries;
    let mut out: Vec<T> = Vec::new();
    while src.len() > 0
        invariant
            all.len() == src@.len() + out@.len(),
            src@ == all.take(src@.len() as int),
            out@ == all.skip(src@.len() as int).reverse(),
        decreases src@.len(),
    {
        let ghost before = src@;
        let x = src.pop().unwrap();
        assert(src@ =~= all.take(src@.len() as int));
        assert(out@.push(x) =~= all.skip(src@.len() as int).reverse()) by {
            let s = all.skip(src@.len() as int);
            assert(s =~= seq![x] + all.skip(before.len() as int));
            assert forall|k: int| 0 <= k < s.len() implies #[trigger] s.reverse()[k] == out@.push(x)[k] by {
                if k < out@.len() {
                    assert(s.reverse()[k] == s[s.len() - 1 - k]);
                    assert(out@[k] == all.skip(before.len() as int).reverse()[k]);
                }
            }
        }
        out.push(x);
    }
    assert(all.skip(0) =~= all);
    if limit > 0 && out.len() > limit {
        out.truncate(limit);
    }
    out
}

} // verus!
