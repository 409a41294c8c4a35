//! Assembly of the review text out of the inference endpoint's response
//! body: one JSON object per line, each carrying a partial text chunk and
//! a completion flag. Chunks are folded left to right; lines that do not
//! decode are skipped; the first done-flagged fragment stops consumption.

use vstd::prelude::*;

verus! {

/// What decoding one line of the body yields: `None` when the line is not
/// a JSON object of the fragment shape, else the `response` text (empty
/// when the field is absent) and the `done` flag (false when absent).
pub uninterp spec fn fragment_of(line: Seq<char>) -> Option<(Seq<char>, bool)>;

/// The decoded fragment as the spec level sees it.
pub open spec fn fragment_view(f: Option<(String, bool)>) -> Option<(Seq<char>, bool)> {
    match f {
        None => None,
        Some(p) => Some((p.0@, p.1)),
    }
}

/// Relies on serde_json::from_str, Value::as_object, Map::get,
/// Value::as_str and Value::as_bool: one line decodes to an object's
/// `response` string (defaulted empty when absent) and `done` bool
/// (defaulted false when absent); a line that is not valid JSON, not an
/// object, or carries either field with another type fails to decode.
/// The result depends on the line's characters alone.
#[verifier::external_body]
fn decode_fragment(line: &str) -> (r: Option<(String, bool)>)
    ensures
        fragment_view(r) == fragment_of(line@),
{
    let value: serde_json::Value = serde_json::from_str(line).ok()?;
    let object = value.as_object()?;
    let text = match object.get("response") {
        Some(t) => t.as_str()?.to_owned(),
        None => String::new(),
    };
    let done = match object.get("done") {
        Some(d) => d.as_bool()?,
        None => false,
    };
    Some((text, done))
}

/// The position of the first '\n' in `s`, or `s.len()` when none occurs.
pub open spec fn first_newline(s: Seq<char>) -> int
    decreases s.len(),
{
    if s.len() == 0 {
        0
    } else if s[0] == '\n' {
        0
    } else {
        1 + first_newline(s.drop_first())
    }
}

pub proof fn lemma_first_newline_in_range(s: Seq<char>)
    ensures
        0 <= first_newline(s) <= s.len(),
    decreases s.len(),
{
    if s.len() != 0 && s[0] != '\n' {
        lemma_first_newline_in_range(s.drop_first());
    }
}

/// A line as yielded: a '\r' directly before the terminator is dropped.
pub open spec fn strip_trailing_cr(s: Seq<char>) -> Seq<char> {
    if s.len() > 0 && s.last() == '\r' {
        s.drop_last()
    } else {
        s
    }
}

/// The lines of `s`, split at '\n' terminators, each stripped of a '\r'
/// directly before its terminator; a final terminator yields no empty
/// last line.
pub open spec fn line_split(s: Seq<char>) -> Seq<Seq<char>>
    decreases s.len(),
    via line_split_decreases
{
    if s.len() == 0 {
        Seq::empty()
    } else {
        let i = first_newline(s);
        if i == s.len() {
            seq![s]
        } else {
            seq![strip_trailing_cr(s.take(i))] + line_split(s.skip(i + 1))
        }
    }
}

#[via_fn]
proof fn line_split_decreases(s: Seq<char>) {
    lemma_first_newline_in_range(s);
}

/// `first_newline` finds the position of the first '\n': no earlier
/// position holds one, and a '\n' at `m` (or none at all) pins it.
proof fn lemma_first_newline_at(w: Seq<char>, m: int)
    requires
        0 <= m <= w.len(),
        forall|k: int| 0 <= k < m ==> w[k] != '\n',
        m < w.len() ==> w[m] == '\n',
        m == w.len() ==> forall|k: int| 0 <= k < w.len() ==> w[k] != '\n',
    ensures
        first_newline(w) == m,
    decreases w.len(),
{
    if w.len() == 0 {
    } else if w[0] == '\n' {
        assert(m == 0);
    } else {
        assert(m >= 1);
        let t = w.drop_first();
        assert(forall|k: int| 0 <= k < m - 1 ==> t[k] == w[k + 1] && t[k] != '\n');
        if m == w.len() {
            assert(forall|k: int| 0 <= k < t.len() ==> t[k] == w[k + 1] && t[k] != '\n');
        } else {
            assert(t[m - 1] == w[m]);
        }
        lemma_first_newline_at(t, m - 1);
    }
}

/// Split the body into its lines: split at '\n' terminators, with a '\r'
/// directly before a terminator dropped, and no empty last line for a
/// final terminator.
fn split_lines(s: &str) -> (r: Vec<String>)
    ensures
        r.deep_view() == line_split(s@),
{
    let mut out: Vec<String> = Vec::new();
    let n = s.unicode_len();
    let mut start: usize = 0;
    let mut i: usize = 0;
    assert(s@.skip(0) =~= s@);
    assert(out.deep_view() + line_split(s@) =~= line_split(s@));
    while i < n
        invariant
            0 <= start <= i <= n,
            n == s@.len(),
            out.deep_view() + line_split(s@.skip(start as int)) == line_split(s@),
            forall|k: int| start <= k < i ==> s@[k] != '\n',
        decreases n - i,
    {
        if s.get_char(i) == '\n' {
            let end = if i > start && s.get_char(i - 1) == '\r' {
                i - 1
            } else {
                i
            };
            let ghost w = s@.skip(start as int);
            proof {
                assert(forall|k: int| 0 <= k < i - start ==> w[k] == s@[k + start]);
                assert(w[i as int - start as int] == s@[i as int]);
                lemma_first_newline_at(w, i as int - start as int);
                assert(w.take(i - start) =~= s@.subrange(start as int, i as int));
                assert(w.skip(i - start + 1) =~= s@.skip(i as int + 1));
                assert(strip_trailing_cr(w.take(i - start)) =~= s@.subrange(
                    start as int,
                    end as int,
                ));
            }
            let ghost before = out.deep_view();
            let line = s.substring_char(start, end).to_owned();
            assert(line@ == strip_trailing_cr(w.take(i as int - start as int)));
            out.push(line);
            assert(out.deep_view() =~= before.push(line@));
            assert(before.push(line@) =~= before + seq![line@]);
            start = i + 1;
        }
        i += 1;
    }
    if start < n {
        let ghost w = s@.skip(start as int);
        proof {
            assert(forall|k: int| 0 <= k < w.len() ==> w[k] == s@[k + start] && w[k] != '\n');
            lemma_first_newline_at(w, w.len() as int);
            assert(w.take(w.len() as int) =~= w);
        }
        let ghost before = out.deep_view();
        let line = s.substring_char(start, n).to_owned();
        assert(line@ =~= w);
        out.push(line);
        assert(out.deep_view() =~= before.push(line@));
        assert(before.push(line@) =~= before + seq![line@]);
    } else {
        assert(s@.skip(start as int) =~= Seq::<char>::empty());
    }
    out
}

/// The review text that a sequence of body lines yields: each line that
/// decodes contributes its chunk in order; the first done-flagged
/// fragment is the last one consumed.
pub open spec fn assemble(lines: Seq<Seq<char>>) -> Seq<char>
    decreases lines.len(),
{
    if lines.len() == 0 {
        Seq::empty()
    } else {
        match fragment_of(lines[0]) {
            None => assemble(lines.drop_first()),
            Some(f) => if f.1 {
                f.0
            } else {
                f.0 + assemble(lines.drop_first())
            },
        }
    }
}

/// The review text that a whole response body yields.
pub open spec fn review_of_body(body: Seq<char>) -> Seq<char> {
    assemble(line_split(body))
}

/// Fold the body's lines into the review text: decoded chunks are
/// concatenated in arrival order, undecodable lines are skipped, and
/// consumption stops at the first done-flagged fragment.
pub fn parse_review_body(body: &str) -> (r: String)
    ensures
        r@ == review_of_body(body@),
{
    let lines = split_lines(body);
    let ghost lv = lines.deep_view();
    let mut acc = String::new();
    let n = lines.len();
    let mut i: usize = 0;
    assert(lv.skip(0) =~= lv);
    assert(acc@ + assemble(lv) =~= assemble(lv));
    while i < n
        invariant
            0 <= i <= n,
            n == lv.len(),
            lv == lines.deep_view(),
            assemble(lv) == review_of_body(body@),
            acc@ + assemble(lv.skip(i as int)) == assemble(lv),
        decreases n - i,
    {
        assert(lv.skip(i as int)[0] == lv[i as int]);
        assert(lv.skip(i as int).drop_first() =~= lv.skip(i as int + 1));
        assert(lv[i as int] == lines@[i as int]@);
        match decode_fragment(lines[i].as_str()) {
            None => {
                assert(fragment_of(lv[i as int]) is None);
            },
            Some(fragment) => {
                let (text, done) = fragment;
                assert(fragment_of(lv[i as int]) == Some((text@, done)));
                acc.append(text.as_str());
                if done {
                    assert(assemble(lv.skip(i as int)) == text@);
                    return acc;
                }
            },
        }
        i += 1;
    }
    assert(lv.skip(n as int) =~= Seq::<Seq<char>>::empty());
    acc
}

/// A line that does not decode never affects the assembled review: the
/// body with that line removed yields the same text.
pub proof fn lemma_undecodable_line_skipped(lines: Seq<Seq<char>>, i: int)
    requires
        0 <= i < lines.len(),
        fragment_of(lines[i]) is None,
    ensures
        assemble(lines.remove(i)) == assemble(lines),
    decreases i,
{
    if i == 0 {
        assert(lines.remove(0) =~= lines.drop_first());
    } else {
        let t = lines.drop_first();
        lemma_undecodable_line_skipped(t, i - 1);
        assert(lines.remove(i).drop_first() =~= t.remove(i - 1));
        assert(lines.remove(i)[0] == lines[0]);
    }
}

/// Lines after the first done-flagged fragment never affect the review:
/// whatever follows that fragment may be replaced by any tail.
pub proof fn lemma_done_stops_consumption(lines: Seq<Seq<char>>, i: int, tail: Seq<Seq<char>>)
    requires
        0 <= i < lines.len(),
        fragment_of(lines[i]) matches Some(f) && f.1,
        forall|j: int|
            0 <= j < i ==> (#[trigger] fragment_of(lines[j]) matches Some(g) ==> !g.1),
    ensures
        assemble(lines.take(i + 1) + tail) == assemble(lines),
    decreases i,
{
    let built = lines.take(i + 1) + tail;
    assert(built[0] == lines[0]);
    if i == 0 {
        let f = fragment_of(lines[0])->Some_0;
        assert(assemble(built) == f.0);
        assert(assemble(lines) == f.0);
    } else {
        let t = lines.drop_first();
        assert(forall|j: int|
            0 <= j < i - 1 ==> (#[trigger] fragment_of(t[j]) matches Some(g) ==> !g.1)) by {
            assert(forall|j: int| 0 <= j < i - 1 ==> t[j] == lines[j + 1]);
        }
        assert(t[i - 1] == lines[i]);
        lemma_done_stops_consumption(t, i - 1, tail);
        assert(built.drop_first() =~= t.take(i) + tail);
        assert(fragment_of(lines[0]) matches Some(g) ==> !g.1);
    }
}

} // verus!
