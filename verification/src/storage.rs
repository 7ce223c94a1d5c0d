//! Storage of sessions and tasks as JSON lines: where the files are, and how their text
//! is cut into records.
use vstd::prelude::*;

use crate::text::{push_char, string_of, trim, trim_chars};

verus! {

/// What `Path::with_file_name` gives, as text: the path with its last component
/// replaced by `name`.
pub uninterp spec fn path_with_file_name(path: Seq<char>, name: Seq<char>) -> Seq<char>;

/// Calls `std::path::Path::with_file_name` and gives the path back as text. Both texts
/// are UTF-8, so is the result; its value is named, not stated.
#[verifier::external_body]
fn with_file_name(path: &str, name: &str) -> (r: String)
    ensures
        r@ == path_with_file_name(path@, name@),
{
    std::path::Path::new(path).with_file_name(name).to_string_lossy().into_owned()
}

/// Where the sessions are kept; the tasks are kept beside them.
#[derive(Clone, Debug)]
pub struct JsonlStore {
    sessions_path: String,
}

impl JsonlStore {
    pub closed spec fn sessions_path_text(&self) -> Seq<char> {
        self.sessions_path@
    }

    /// A store whose sessions are kept in the file `sessions_path`.
    pub fn new(sessions_path: String) -> (s: Self)
        ensures
            s.sessions_path_text() == sessions_path@,
    {
        JsonlStore { sessions_path }
    }

    /// The file of the sessions.
    pub fn sessions_path(&self) -> (r: &str)
        ensures
            r@ == self.sessions_path_text(),
    {
        self.sessions_path.as_str()
    }

    /// The file of the tasks: `tasks.jsonl` beside the sessions' file.
    pub fn tasks_path(&self) -> (r: String)
        ensures
            r@ == path_with_file_name(self.sessions_path_text(), "tasks.jsonl"@),
    {
        with_file_name(self.sessions_path.as_str(), "tasks.jsonl")
    }
}

/// The pieces of `s` between line breaks (one more piece than there are breaks).
pub open spec fn split_lines(s: Seq<char>) -> Seq<Seq<char>>
    decreases s.len(),
{
    if s.len() == 0 {
        seq![seq![]]
    } else {
        let p = split_lines(s.drop_last());
        if s.last() == '\n' {
            p.push(seq![])
        } else {
            p.update(p.len() - 1, p.last().push(s.last()))
        }
    }
}

/// A line without the carriage return that ends it, if any.
pub open spec fn strip_cr(line: Seq<char>) -> Seq<char> {
    if line.len() > 0 && line.last() == '\r' {
        line.drop_last()
    } else {
        line
    }
}

/// Each line with its carriage return removed.
pub open spec fn stripped(lines: Seq<Seq<char>>) -> Seq<Seq<char>>
    decreases lines.len(),
{
    if lines.len() == 0 {
        seq![]
    } else {
        stripped(lines.drop_last()).push(strip_cr(lines.last()))
    }
}

/// The lines that hold more than white space.
pub open spec fn keep_nonblank(lines: Seq<Seq<char>>) -> Seq<Seq<char>>
    decreases lines.len(),
{
    if lines.len() == 0 {
        seq![]
    } else if trim(lines.last()).len() > 0 {
        keep_nonblank(lines.drop_last()).push(lines.last())
    } else {
        keep_nonblank(lines.drop_last())
    }
}

/// The records of a JSON-lines text: its lines as `BufRead::lines` gives them (a
/// carriage return is dropped before each line break), without the blank ones.
pub open spec fn jsonl_records(s: Seq<char>) -> Seq<Seq<char>> {
    let p = split_lines(s);
    keep_nonblank(stripped(p.drop_last()).push(p.last()))
}

proof fn lemma_split_nonempty(s: Seq<char>)
    ensures
        split_lines(s).len() >= 1,
    decreases s.len(),
{
    if s.len() > 0 {
        lemma_split_nonempty(s.drop_last());
    }
}

/// Whether the line holds more than white space.
fn nonblank(line: &Vec<char>) -> (r: bool)
    ensures
        r == (trim(line@).len() > 0),
{
    let t = trim_chars(line.as_slice());
    t.len() > 0
}

/// The records of a JSON-lines text, each one line.
pub fn jsonl_records_of(content: &str) -> (r: Vec<String>)
    ensures
        r@.len() == jsonl_records(content@).len(),
        forall|k: int| 0 <= k < r@.len() ==> #[trigger] r@[k]@ == jsonl_records(content@)[k],
{
    let chars = crate::text::chars_of(content);
    let ghost s = chars@;
    let mut out: Vec<String> = Vec::new();
    let ghost mut views: Seq<Seq<char>> = seq![];
    let mut cur: Vec<char> = Vec::new();
    let mut i: usize = 0;
    proof {
        assert(s.take(0) =~= Seq::<char>::empty());
    }
    while i < chars.len()
        invariant
            s == chars@,
            i <= s.len(),
            split_lines(s.take(i as int)).len() >= 1,
            cur@ == split_lines(s.take(i as int)).last(),
            views == keep_nonblank(stripped(split_lines(s.take(i as int)).drop_last())),
            out@.len() == views.len(),
            forall|k: int| 0 <= k < out@.len() ==> #[trigger] out@[k]@ == views[k],
        decreases s.len() - i,
    {
        let c = chars[i];
        let ghost p = split_lines(s.take(i as int));
        proof {
            assert(s.take(i + 1).drop_last() =~= s.take(i as int));
            assert(s.take(i + 1).last() == c);
        }
        if c == '\n' {
            let mut line = cur;
            if line.len() > 0 && line[line.len() - 1] == '\r' {
                line.pop();
            }
            proof {
                let np = split_lines(s.take(i + 1));
                assert(np == p.push(seq![]));
                assert(np.drop_last() =~= p);
                assert(p == p.drop_last().push(p.last()));
                assert(stripped(p) == stripped(p.drop_last()).push(strip_cr(p.last())));
                assert(line@ == strip_cr(p.last()));
                let xs = stripped(p.drop_last());
                assert(xs.push(strip_cr(p.last())).drop_last() =~= xs);
                assert(xs.push(strip_cr(p.last())).last() == line@);
            }
            if nonblank(&line) {
                let text = string_of(line.as_slice());
                out.push(text);
                proof {
                    views = views.push(line@);
                }
            }
            cur = Vec::new();
            proof {
                assert(cur@ == split_lines(s.take(i + 1)).last());
            }
        } else {
            cur.push(c);
            proof {
                let np = split_lines(s.take(i + 1));
                assert(np == p.update(p.len() - 1, p.last().push(c)));
                assert(np.drop_last() =~= p.drop_last());
            }
        }
        i = i + 1;
    }
    proof {
        assert(s.take(s.len() as int) =~= s);
    }
    let ghost p = split_lines(s);
    proof {
        assert(cur@ == p.last());
        assert(stripped(p.drop_last()).push(p.last()).drop_last() =~= stripped(p.drop_last()));
    }
    if nonblank(&cur) {
        let text = string_of(cur.as_slice());
        out.push(text);
        proof {
            views = views.push(cur@);
        }
    }
    proof {
        assert(views == jsonl_records(s));
    }
    out
}

/// A record written as one line of a JSON-lines text: the record and a line break.
pub fn jsonl_line(record: &str) -> (r: String)
    ensures
        r@ == record@.push('\n'),
{
    let mut line = String::from_str(record);
    push_char(&mut line, '\n');
    line
}

proof fn lemma_split_append(s: Seq<char>, w: Seq<char>)
    requires
        s.len() == 0 || s.last() == '\n',
        !w.contains('\n'),
    ensures
        split_lines(s + w) == split_lines(s).update(split_lines(s).len() - 1, w),
        split_lines(s).last() == Seq::<char>::empty(),
    decreases w.len(),
{
    lemma_split_nonempty(s);
    if s.len() > 0 {
        assert(s == s.drop_last().push('\n'));
        assert(split_lines(s) == split_lines(s.drop_last()).push(seq![]));
    } else {
        assert(split_lines(s) == seq![Seq::<char>::empty()]);
    }
    if w.len() == 0 {
        assert(s + w =~= s);
        assert(w =~= Seq::<char>::empty());
        let p = split_lines(s);
        assert(p.update(p.len() - 1, w) =~= p);
    } else {
        let v = w.drop_last();
        assert(!v.contains('\n')) by {
            if v.contains('\n') {
                let k = choose|k: int| 0 <= k < v.len() && v[k] == '\n';
                assert(w[k] == '\n');
            }
        }
        assert(w.last() != '\n') by {
            assert(w[w.len() - 1] == w.last());
        }
        lemma_split_append(s, v);
        assert((s + w).drop_last() =~= s + v);
        assert((s + w).last() == w.last());
        let p = split_lines(s);
        let q = split_lines(s + v);
        assert(q.last() == v);
        assert(v.push(w.last()) =~= w);
        assert(q.update(q.len() - 1, q.last().push(w.last())) =~= p.update(p.len() - 1, w));
    }
}

/// A record line appended to a JSON-lines text that is empty or ends with a line break
/// is read back as the last record, after the records that were there. (The record holds
/// more than white space, no line break, and does not end with a carriage return.)
pub proof fn lemma_append_then_read(content: Seq<char>, record: Seq<char>)
    requires
        content.len() == 0 || content.last() == '\n',
        !record.contains('\n'),
        trim(record).len() > 0,
        record.last() != '\r',
    ensures
        jsonl_records(content + record.push('\n')) == jsonl_records(content).push(record),
{
    lemma_split_append(content, record);
    let p = split_lines(content);
    let x = content + record.push('\n');
    assert(x.drop_last() =~= content + record);
    assert(x.last() == '\n');
    let q = p.update(p.len() - 1, record);
    assert(split_lines(x) == q.push(seq![]));
    assert(split_lines(x).drop_last() =~= q);
    assert(q.drop_last() =~= p.drop_last());
    assert(q.last() == record);
    assert(record.len() > 0);
    assert(strip_cr(record) == record);
    assert(stripped(q) == stripped(p.drop_last()).push(record));
    let base = stripped(p.drop_last());
    assert(trim(Seq::<char>::empty()).len() == 0);
    assert(base.push(record).push(seq![]).drop_last() =~= base.push(record));
    assert(keep_nonblank(base.push(record).push(seq![])) == keep_nonblank(base.push(record)));
    assert(base.push(record).drop_last() =~= base);
    assert(keep_nonblank(base.push(record)) == keep_nonblank(base).push(record));
    assert(base.push(p.last()).drop_last() =~= base);
    assert(keep_nonblank(base.push(p.last())) == keep_nonblank(base));
}

} // verus!
