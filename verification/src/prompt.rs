//! Assembly of the review prompt: the diff fenced as a code block, a
//! bounded sample of snapshot files, and a fixed closing instruction that
//! names the five review dimensions.

use vstd::prelude::*;
use crate::snapshot::Snapshot;

verus! {

/// The review-framing preamble that opens the prompt.
pub open spec fn preamble_view() -> Seq<char> {
    "As a code review expert, analyze the following changes:\n\n```diff\n"@
}

/// Closes the fenced diff block.
pub open spec fn diff_fence_close_view() -> Seq<char> {
    "\n```\n\n"@
}

/// Opens the relevant-files section.
pub open spec fn files_header_view() -> Seq<char> {
    "Relevant files from the codebase for context:\n\n"@
}

/// The fixed closing instruction with the five review dimensions.
pub open spec fn closing_view() -> Seq<char> {
    "\nPlease provide a detailed code review focusing on:\n1. Potential bugs or issues\n2. Code style and best practices\n3. Performance implications\n4. Security considerations\n5. Suggestions for improvement"@
}

/// The diff, fenced and framed by the preamble.
pub open spec fn diff_section_view(diff: Seq<char>) -> Seq<char> {
    preamble_view() + diff + diff_fence_close_view()
}

/// One snapshot entry rendered as "`path:`" with the content fenced.
pub open spec fn file_block_view(path: Seq<char>, content: Seq<char>) -> Seq<char> {
    path + ":\n```\n"@ + content + "\n```\n\n"@
}

/// The entries of `s`, each rendered as a file block, in order.
pub open spec fn files_section_view(s: Seq<(Seq<char>, Seq<char>)>) -> Seq<char>
    decreases s.len(),
{
    if s.len() == 0 {
        Seq::empty()
    } else {
        file_block_view(s[0].0, s[0].1) + files_section_view(s.drop_first())
    }
}

/// At most `n` leading entries of `s`: all of them when `s` is short.
pub open spec fn sample_view(s: Seq<(Seq<char>, Seq<char>)>, n: int) -> Seq<
    (Seq<char>, Seq<char>),
> {
    if n <= s.len() {
        s.take(n)
    } else {
        s
    }
}

/// The whole prompt for a diff, a snapshot and a file bound.
pub open spec fn prompt_view(
    diff: Seq<char>,
    entries: Seq<(Seq<char>, Seq<char>)>,
    max_files: int,
) -> Seq<char> {
    diff_section_view(diff) + files_header_view() + files_section_view(
        sample_view(entries, max_files),
    ) + closing_view()
}

/// Build the prompt: the fenced diff, then at most `max_files` snapshot
/// entries in the snapshot's own order, then the closing instruction.
pub fn build_prompt(diff: &str, snapshot: &Snapshot, max_files: usize) -> (r: String)
    ensures
        r@ == prompt_view(diff@, snapshot@, max_files as int),
{
    let ghost sampled = sample_view(snapshot@, max_files as int);
    let mut p = String::new();
    p.append("As a code review expert, analyze the following changes:\n\n```diff\n");
    p.append(diff);
    p.append("\n```\n\n");
    p.append("Relevant files from the codebase for context:\n\n");
    let n = if max_files < snapshot.len() {
        max_files
    } else {
        snapshot.len()
    };
    assert(sampled.len() == n);
    let mut i: usize = 0;
    while i < n
        invariant
            0 <= i <= n,
            n <= snapshot@.len(),
            sampled == sample_view(snapshot@, n as int),
            sampled == sample_view(snapshot@, max_files as int),
            sampled.len() == n,
            p@ == diff_section_view(diff@) + files_header_view() + files_section_view(
                sampled.take(i as int),
            ),
        decreases n - i,
    {
        assert(sampled[i as int] == snapshot@[i as int]);
        p.append(snapshot.path_at(i).as_str());
        p.append(":\n```\n");
        p.append(snapshot.content_at(i).as_str());
        p.append("\n```\n\n");
        proof {
            lemma_files_section_take_step(sampled, i as int);
        }
        i += 1;
    }
    assert(sampled.take(n as int) == sampled);
    p.append(
        "\nPlease provide a detailed code review focusing on:\n1. Potential bugs or issues\n2. Code style and best practices\n3. Performance implications\n4. Security considerations\n5. Suggestions for improvement",
    );
    p
}

/// Whether `needle` occurs contiguously inside `hay`.
pub open spec fn contains_sub(hay: Seq<char>, needle: Seq<char>) -> bool {
    exists|i: int|
        0 <= i && i + needle.len() <= hay.len() && #[trigger] hay.subrange(i, i + needle.len())
            == needle
}

/// The prompt always carries the diff text verbatim, always ends with the
/// fixed five-dimension review instruction, and renders at most
/// `max_files` snapshot entries, however many the snapshot holds.
pub proof fn lemma_prompt_parts(
    diff: Seq<char>,
    entries: Seq<(Seq<char>, Seq<char>)>,
    max_files: int,
)
    requires
        0 <= max_files,
    ensures
        contains_sub(prompt_view(diff, entries, max_files), diff),
        contains_sub(prompt_view(diff, entries, max_files), closing_view()),
        sample_view(entries, max_files).len() <= max_files,
{
    let p = prompt_view(diff, entries, max_files);
    let a = preamble_view().len() as int;
    assert(p.subrange(a, a + diff.len()) =~= diff);
    let c = p.len() - closing_view().len();
    assert(p.subrange(c, c + closing_view().len()) =~= closing_view());
}

/// Rendering one more entry extends the files section by that entry's
/// block.
proof fn lemma_files_section_take_step(s: Seq<(Seq<char>, Seq<char>)>, i: int)
    requires
        0 <= i < s.len(),
    ensures
        files_section_view(s.take(i + 1)) == files_section_view(s.take(i)) + file_block_view(
            s[i].0,
            s[i].1,
        ),
    decreases i,
{
    if i == 0 {
        assert(s.take(1).drop_first() =~= Seq::<(Seq<char>, Seq<char>)>::empty());
        assert(s.take(0) =~= Seq::<(Seq<char>, Seq<char>)>::empty());
        assert(files_section_view(s.take(1)) =~= file_block_view(s[0].0, s[0].1));
    } else {
        lemma_files_section_take_step(s.drop_first(), i - 1);
        assert(s.take(i + 1).drop_first() =~= s.drop_first().take(i));
        assert(s.take(i).drop_first() =~= s.drop_first().take(i - 1));
        assert(s.take(i + 1)[0] == s[0]);
        assert(s.take(i)[0] == s[0]);
        assert(s.drop_first()[i - 1] == s[i]);
        assert(files_section_view(s.take(i + 1)) == file_block_view(s[0].0, s[0].1)
            + files_section_view(s.drop_first().take(i)));
        assert(files_section_view(s.take(i)) == file_block_view(s[0].0, s[0].1)
            + files_section_view(s.drop_first().take(i - 1)));
    }
}

} // verus!
