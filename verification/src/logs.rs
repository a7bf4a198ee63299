//! Log tailing: line splitting, which lines a tail returns, and the tail
//! answer itself.

use vstd::prelude::*;
use crate::text::{first_index_of, lemma_first_index_of, push_char};

verus! {

broadcast use vstd::string::group_string_axioms;

/// Id of the built-in service log source.
pub const SERVICE_LOG_ID: &'static str = "smos-service";

/// Bytes read from the end of a file when tailing it.
pub const TAIL_WINDOW_BYTES: u64 = 1048576;

/// Largest number of lines a tail may ask for.
pub const MAX_TAIL_LINES: usize = 50000;

/// The views of a list of strings.
pub open spec fn strs_view(v: Seq<String>) -> Seq<Seq<char>> {
    v.map_values(|s: String| s@)
}

/// A line without its `\r` (the one before the `\n` that ended it).
pub open spec fn strip_cr(l: Seq<char>) -> Seq<char> {
    if l.len() > 0 && l.last() == '\r' {
        l.drop_last()
    } else {
        l
    }
}

/// What `str::lines` returns: pieces split at `\n` (a `\r` before the `\n`
/// dropped), with no piece after a final `\n`.
pub open spec fn lines_of(s: Seq<char>) -> Seq<Seq<char>>
    decreases s.len(),
{
    if s.len() == 0 {
        Seq::empty()
    } else {
        let k = first_index_of(s, '\n');
        if k == -1 {
            seq![s]
        } else {
            proof {
                lemma_first_index_of(s, '\n');
            }
            seq![strip_cr(s.take(k))] + lines_of(s.skip(k + 1))
        }
    }
}

proof fn lemma_first_index_after_run(a: Seq<char>, b: Seq<char>, c: char)
    requires
        !a.contains(c),
        b.len() > 0,
        b[0] == c,
    ensures
        first_index_of(a + b, c) == a.len(),
    decreases a.len(),
{
    if a.len() > 0 {
        assert((a + b)[0] == a[0]);
        assert(a[0] != c);
        assert((a + b).drop_first() =~= a.drop_first() + b);
        assert(!a.drop_first().contains(c)) by {
            if a.drop_first().contains(c) {
                let k = choose|k: int| 0 <= k < a.drop_first().len() && a.drop_first()[k] == c;
                assert(a[k + 1] == c);
            }
        }
        lemma_first_index_after_run(a.drop_first(), b, c);
    } else {
        assert(a + b =~= b);
    }
}

/// Splits text into lines as `str::lines` does.
pub fn split_lines(text: &str) -> (r: Vec<String>)
    ensures
        strs_view(r@) == lines_of(text@),
{
    let v = crate::text::chars_of(text);
    let ghost s = text@;
    let mut out: Vec<String> = Vec::new();
    let mut cur = String::new();
    let mut i: usize = 0;
    assert(strs_view(out@) =~= Seq::<Seq<char>>::empty());
    assert(cur@ + s.skip(0) =~= s);
    while i < v.len()
        invariant
            i <= v.len(),
            v@ == s,
            !cur@.contains('\n'),
            lines_of(s) == strs_view(out@) + lines_of(cur@ + s.skip(i as int)),
        decreases v.len() - i,
    {
        let c = v[i];
        let ghost rest = s.skip(i as int);
        assert(rest[0] == c);
        assert(rest.drop_first() =~= s.skip(i + 1));
        if c == '\n' {
            proof {
                lemma_first_index_after_run(cur@, rest, '\n');
                let w = cur@ + rest;
                assert(w.take(cur@.len() as int) =~= cur@);
                assert(w.skip(cur@.len() as int + 1) =~= s.skip(i + 1));
                assert(lines_of(w) == seq![strip_cr(cur@)] + lines_of(s.skip(i + 1)));
            }
            let line = strip_trailing_cr(&cur);
            let ghost before = out@;
            out.push(line);
            assert(strs_view(out@) =~= strs_view(before).push(strip_cr(cur@)));
            cur = String::new();
            assert(cur@ + s.skip(i + 1) =~= s.skip(i + 1));
            assert(lines_of(s) =~= strs_view(out@) + lines_of(cur@ + s.skip(i + 1)));
        } else {
            let ghost old_cur = cur@;
            push_char(&mut cur, c);
            assert(cur@ + s.skip(i + 1) =~= old_cur + rest);
            assert(!cur@.contains('\n')) by {
                if cur@.contains('\n') {
                    let k = choose|k: int| 0 <= k < cur@.len() && cur@[k] == '\n';
                    if k < old_cur.len() {
                        assert(old_cur[k] == '\n');
                    }
                }
            }
        }
        i = i + 1;
    }
    assert(s.skip(i as int).len() == 0);
    assert(cur@ + s.skip(i as int) =~= cur@);
    proof {
        lemma_first_index_of(cur@, '\n');
    }
    if !cur.as_str().is_empty() {
        let ghost before = out@;
        out.push(cur);
        assert(strs_view(out@) =~= strs_view(before) + seq![out@.last()@]);
    } else {
        assert(strs_view(out@) + lines_of(cur@) =~= strs_view(out@));
    }
    out
}

/// A copy of `l` without a final `\r`.
fn strip_trailing_cr(l: &String) -> (r: String)
    ensures
        r@ == strip_cr(l@),
{
    let v = crate::text::chars_of(l.as_str());
    if v.len() > 0 && v[v.len() - 1] == '\r' {
        crate::text::string_from_range(&v, 0, v.len() - 1)
    } else {
        let r = crate::text::string_from_range(&v, 0, v.len());
        assert(v@.subrange(0, v.len() as int) =~= v@);
        if v.len() > 0 {
            assert(v@.subrange(0, v.len() - 1) =~= v@.drop_last());
        }
        r
    }
}

/// Byte offset tailing starts reading at: the last 1 MiB of the file.
pub fn tail_window_start(len: u64) -> (r: u64)
    ensures
        r == if len > TAIL_WINDOW_BYTES { len - TAIL_WINDOW_BYTES } else { 0 },
{
    if len > TAIL_WINDOW_BYTES {
        len - TAIL_WINDOW_BYTES
    } else {
        0
    }
}

/// The lines a tail keeps of what it read: a partial first line (when
/// reading started mid-file) is dropped, then only the last `max_lines` stay.
pub open spec fn tail_keep(lines: Seq<Seq<char>>, started_mid: bool, max_lines: int) -> Seq<Seq<char>> {
    let l = if started_mid && lines.len() > 0 {
        lines.drop_first()
    } else {
        lines
    };
    if max_lines <= 0 {
        Seq::empty()
    } else if l.len() > max_lines {
        l.skip(l.len() - max_lines)
    } else {
        l
    }
}

/// See `tail_keep`.
pub fn tail_lines(lines: Vec<String>, started_mid: bool, max_lines: usize) -> (r: Vec<String>)
    ensures
        strs_view(r@) == tail_keep(strs_view(lines@), started_mid, max_lines as int),
{
    if max_lines == 0 {
        return Vec::new();
    }
    let ghost all = strs_view(lines@);
    let start: usize = if started_mid && lines.len() > 0 { 1 } else { 0 };
    let kept = lines.len() - start;
    let first = if kept > max_lines { start + (kept - max_lines) } else { start };
    let mut out: Vec<String> = Vec::new();
    let mut src = lines;
    let mut i: usize = 0;
    let n = src.len();
    while i < n
        invariant
            n == src@.len() + i,
            i <= n,
            first <= n,
            strs_view(src@) == all.skip(i as int),
            all.len() == n,
            i <= first ==> out@.len() == 0,
            i > first ==> strs_view(out@) == all.subrange(first as int, i as int),
        decreases n - i,
    {
        let ghost before = src@;
        assert(strs_view(before)[0] == before[0]@);
        let x = src.remove(0);
        assert(x@ == all[i as int]);
        assert(strs_view(src@) =~= all.skip(i + 1)) by {
            assert(src@ =~= before.drop_first());
            assert forall|k: int| 0 <= k < src@.len() implies #[trigger] strs_view(src@)[k] == all.skip(i + 1)[k] by {
                assert(strs_view(before)[k + 1] == before[k + 1]@);
            }
        }
        if i >= first {
            let ghost ov = out@;
            out.push(x);
            assert(strs_view(out@) =~= all.subrange(first as int, i + 1));
        }
        i = i + 1;
    }
    proof {
        let l = if started_mid && all.len() > 0 { all.drop_first() } else { all };
        if first < n {
            assert(tail_keep(all, started_mid, max_lines as int) =~= all.subrange(first as int, n as int));
        } else {
            assert(tail_keep(all, started_mid, max_lines as int) =~= Seq::<Seq<char>>::empty());
            assert(strs_view(out@) =~= Seq::<Seq<char>>::empty());
        }
    }
    out
}

/// Why a tail request is refused.
#[derive(Debug, Clone, Copy, PartialEq, Eq, Structural)]
pub enum LogError {
    MaxLines,
}

impl LogError {
    /// The message the service reports for this error.
    pub fn message(&self) -> (r: String)
        ensures
            r@ == "max_lines must be 1..=50000"@,
    {
        "max_lines must be 1..=50000".to_owned()
    }
}

/// A tail asks for 1..=50000 lines.
pub fn check_max_lines(max_lines: usize) -> (r: Result<(), LogError>)
    ensures
        r is Ok <==> 1 <= max_lines <= MAX_TAIL_LINES,
{
    if max_lines == 0 || max_lines > MAX_TAIL_LINES {
        Err(LogError::MaxLines)
    } else {
        Ok(())
    }
}

/// A log source as the operator sees it.
#[derive(Debug)]
pub struct LogSourceInfo {
    pub id: String,
    pub label: String,
    pub path: String,
    pub exists: bool,
    pub size_bytes: Option<u64>,
}

/// The description of a log source whose file has size `size` (`None` when
/// the file cannot be inspected).
pub fn source_info(id: &str, label: &str, path: &str, size: Option<u64>) -> (r: LogSourceInfo)
    ensures
        r.id@ == id@,
        r.label@ == label@,
        r.path@ == path@,
        r.exists == (size is Some),
        r.size_bytes == size,
{
    LogSourceInfo {
        id: id.to_owned(),
        label: label.to_owned(),
        path: path.to_owned(),
        exists: size.is_some(),
        size_bytes: size,
    }
}

/// The answer to a tail request.
#[derive(Debug)]
pub struct LogTail {
    pub source_id: String,
    pub path: String,
    pub lines: Vec<String>,
    pub line_count: usize,
    pub truncated: bool,
    /// Unix seconds.
    pub timestamp: i64,
}

/// Assembles a tail answer; it counts as truncated when it filled the request.
pub fn build_log_tail(source_id: &str, path: &str, lines: Vec<String>, max_lines: usize, timestamp: i64) -> (r: LogTail)
    ensures
        r.source_id@ == source_id@,
        r.path@ == path@,
        strs_view(r.lines@) == strs_view(lines@),
        r.line_count == lines@.len(),
        r.truncated == (lines@.len() >= max_lines),
        r.timestamp == timestamp,
{
    let line_count = lines.len();
    LogTail {
        source_id: source_id.to_owned(),
        path: path.to_owned(),
        lines,
        line_count,
        truncated: line_count >= max_lines,
        timestamp,
    }
}

/// Which file is the active service log: today's rotated file when it
/// exists, else the legacy `smos.log` when that exists, else today's name.
pub fn choose_service_log_path(rotated: String, rotated_exists: bool, legacy: String, legacy_exists: bool) -> (r: String)
    ensures
        r@ == if !rotated_exists && legacy_exists { legacy@ } else { rotated@ },
{
    if rotated_exists {
        rotated
    } else if legacy_exists {
        legacy
    } else {
        rotated
    }
}

} // verus!
