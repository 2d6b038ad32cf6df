use vstd::prelude::*;
use vstd::string::*;
use crate::types::ChunkTask;

verus! {

/// A measurement oracle for the chunker: how many model tokens a piece of
/// text produces. The pipeline implements it over the model's tokenizer,
/// outside the library; tests implement it by plain arithmetic. The chunker's
/// guarantees below hold for every implementation, whatever it answers.
pub trait TokenCounter {
    fn count_tokens(&mut self, text: &str) -> usize;
}

/// A chunk boundary prefers to fall just after one of these characters.
pub open spec fn is_cut_char(c: char) -> bool {
    c == '\n' || c == '。' || c == '.'
}

pub fn is_cut(c: char) -> (r: bool)
    ensures
        r == is_cut_char(c),
{
    c == '\n' || c == '。' || c == '.'
}

/// The largest `p` in `[start, limit)` with a boundary character at `p`,
/// if any.
pub open spec fn last_cut_pos(s: Seq<char>, start: int, limit: int) -> Option<int>
    decreases limit - start,
{
    if start >= limit {
        None
    } else if is_cut_char(s[limit - 1]) {
        Some(limit - 1)
    } else {
        last_cut_pos(s, start, limit - 1)
    }
}

/// Where the back-scan from `limit` cuts: just after the last boundary
/// character in `[start, limit)`, or at `limit` when there is none.
pub open spec fn scan_cut(s: Seq<char>, start: int, limit: int) -> int {
    match last_cut_pos(s, start, limit) {
        Some(p) => p + 1,
        None => limit,
    }
}

proof fn lemma_last_cut_pos(s: Seq<char>, start: int, limit: int)
    requires
        0 <= start <= limit <= s.len(),
    ensures
        match last_cut_pos(s, start, limit) {
            Some(p) => start <= p < limit && is_cut_char(s[p]) && forall|k: int|
                p < k < limit ==> !is_cut_char(s[k]),
            None => forall|k: int| start <= k < limit ==> !is_cut_char(s[k]),
        },
    decreases limit - start,
{
    if start < limit && !is_cut_char(s[limit - 1]) {
        lemma_last_cut_pos(s, start, limit - 1);
    }
}

fn backscan(chars: &Vec<char>, start: usize, limit: usize) -> (cut: usize)
    requires
        start <= limit <= chars@.len(),
    ensures
        cut as int == scan_cut(chars@, start as int, limit as int),
        start <= cut <= limit,
{
    let mut i: usize = limit;
    while i > start
        invariant
            start <= i <= limit <= chars@.len(),
            last_cut_pos(chars@, start as int, limit as int) == last_cut_pos(
                chars@,
                start as int,
                i as int,
            ),
        decreases i,
    {
        if is_cut(chars[i - 1]) {
            proof {
                lemma_last_cut_pos(chars@, start as int, limit as int);
            }
            return i;
        }
        i = i - 1;
    }
    proof {
        lemma_last_cut_pos(chars@, start as int, limit as int);
    }
    limit
}

/// Binary search for the largest probed offset `b` in `(start, n]` whose
/// prefix `input[start..b]` the counter measures within `target`; `n` when
/// no probe succeeds.
fn boundary_search<C: TokenCounter>(
    counter: &mut C,
    input: &str,
    start: usize,
    target: usize,
) -> (best: usize)
    requires
        start < input@.len() <= usize::MAX,
    ensures
        start < best <= input@.len(),
{
    let n: usize = input.unicode_len();
    let mut left: usize = start + 1;
    let mut right: usize = n;
    let mut best: usize = n;
    while left <= right
        invariant
            n == input@.len(),
            start < n,
            start + 1 <= left,
            right <= n,
            left <= right + 1,
            start < best <= n,
        decreases right + 1 - left,
    {
        let mid: usize = left + (right - left) / 2;
        let probe = input.substring_char(start, mid);
        let count = counter.count_tokens(probe);
        if count <= target {
            best = mid;
            if mid == right {
                break;
            }
            left = mid + 1;
        } else {
            right = mid - 1;
        }
    }
    best
}

/// One chunker step: the cut for the chunk that starts at `start`.
///
/// When the whole remaining suffix measures within `target`, the cut is the
/// end of the input. Otherwise the cut is the binary-search bound pulled back
/// to the last boundary character, so a cut short of the end either follows
/// a boundary character or closes a window that contains none.
pub fn chunk_cut<C: TokenCounter>(
    counter: &mut C,
    input: &str,
    chars: &Vec<char>,
    start: usize,
    target: usize,
) -> (cut: usize)
    requires
        chars@ == input@,
        start < chars@.len(),
    ensures
        start < cut <= chars@.len(),
        cut < chars@.len() ==> is_cut_char(chars@[cut - 1]) || (forall|k: int|
            start <= k < cut ==> !is_cut_char(chars@[k])),
{
    let n: usize = input.unicode_len();
    let remainder = input.substring_char(start, n);
    let remainder_tokens = counter.count_tokens(remainder);
    if remainder_tokens <= target {
        n
    } else {
        let best = boundary_search(counter, input, start, target);
        let cut = backscan(chars, start, best);
        proof {
            lemma_last_cut_pos(chars@, start as int, best as int);
        }
        if cut > start {
            cut
        } else {
            best
        }
    }
}

/// The concatenation of the chunk texts, in the order they stand in `tasks`.
pub open spec fn concat_chunks(tasks: Seq<ChunkTask>) -> Seq<char>
    decreases tasks.len(),
{
    if tasks.len() == 0 {
        Seq::empty()
    } else {
        concat_chunks(tasks.drop_last()) + tasks.last().text@
    }
}

/// A chunk that does not end the document either ends in a boundary
/// character or contains none at all (a hard cut on an unbroken run).
pub open spec fn aligned_chunk(text: Seq<char>) -> bool {
    ||| (text.len() > 0 && is_cut_char(text[text.len() - 1]))
    ||| (forall|k: int| 0 <= k < text.len() ==> !is_cut_char(text[k]))
}

/// Token-budgeted chunking with boundary-aligned cuts.
///
/// Splits `input` into a dense, zero-based stream of non-empty chunks whose
/// texts partition the input exactly; empty input yields no chunks. Every
/// chunk but the last is boundary-aligned. How far each cut reaches is
/// decided by querying `counter`; the guarantees here hold for every counter.
pub fn chunk_text<C: TokenCounter>(counter: &mut C, input: &str, target: usize) -> (tasks: Vec<
    ChunkTask,
>)
    ensures
        concat_chunks(tasks@) == input@,
        forall|i: int| 0 <= i < tasks@.len() ==> #[trigger] tasks@[i].index == i,
        forall|i: int| 0 <= i < tasks@.len() ==> #[trigger] tasks@[i].text@.len() > 0,
        forall|i: int| 0 <= i < tasks@.len() - 1 ==> aligned_chunk(#[trigger] tasks@[i].text@),
        input@.len() == 0 ==> tasks@.len() == 0,
{
    let n: usize = input.unicode_len();
    let chars = crate::text::chars_of(input);
    let mut tasks: Vec<ChunkTask> = Vec::new();
    let mut start: usize = 0;
    proof {
        assert(concat_chunks(tasks@) =~= input@.subrange(0, 0));
    }
    while start < n
        invariant
            start <= n,
            n == input@.len(),
            chars@ == input@,
            tasks@.len() <= start,
            concat_chunks(tasks@) == input@.subrange(0, start as int),
            forall|i: int| 0 <= i < tasks@.len() ==> #[trigger] tasks@[i].index == i,
            forall|i: int| 0 <= i < tasks@.len() ==> #[trigger] tasks@[i].text@.len() > 0,
            forall|i: int| 0 <= i < tasks@.len() - 1 ==> aligned_chunk(#[trigger] tasks@[i].text@),
            start < n && tasks@.len() > 0 ==> aligned_chunk(tasks@[tasks@.len() - 1].text@),
        decreases n - start,
    {
        let cut = chunk_cut(counter, input, &chars, start, target);
        let text = input.substring_char(start, cut).to_owned();
        let index = tasks.len();
        let ghost old_tasks = tasks@;
        tasks.push(ChunkTask { index, text });
        proof {
            assert(tasks@.drop_last() =~= old_tasks);
            assert(concat_chunks(tasks@) == concat_chunks(old_tasks) + tasks@.last().text@);
            assert(input@.subrange(0, start as int) + input@.subrange(start as int, cut as int)
                =~= input@.subrange(0, cut as int));
            if cut < n {
                let t = tasks@.last().text@;
                assert(t == input@.subrange(start as int, cut as int));
                assert(t.len() == cut - start);
                if is_cut_char(chars@[cut - 1]) {
                    assert(t[t.len() - 1] == chars@[cut - 1]);
                } else {
                    assert(forall|k: int| 0 <= k < t.len() ==> t[k] == chars@[start + k]);
                }
                assert(aligned_chunk(t));
            }
        }
        start = cut;
    }
    proof {
        assert(input@.subrange(0, n as int) =~= input@);
    }
    tasks
}

// ---------------------------------------------------------------------------
// The cut rule as mathematics
// ---------------------------------------------------------------------------
//
// The running chunker measures through an impure oracle, so what it emits can
// only be pinned down per call. The spec functions below state the cut rule
// itself over an arbitrary counting function, and the lemmas after them state
// the rule's laws: the cuts partition the input; when the counting function
// is monotone over prefixes, every chunk but the last fits the budget; and
// re-chunking the concatenation of the chunks gives the same chunks back.

/// Whether the prefix `s[start..b]` measures within `target` under `c`.
pub open spec fn prefix_fits(
    c: spec_fn(Seq<char>) -> nat,
    s: Seq<char>,
    start: int,
    b: int,
    target: nat,
) -> bool {
    c(s.subrange(start, b)) <= target
}

/// The largest `x` in `(start, b]` whose prefix fits, scanning from the top;
/// `start + 1` when none fits.
pub open spec fn largest_fit(
    c: spec_fn(Seq<char>) -> nat,
    s: Seq<char>,
    start: int,
    b: int,
    target: nat,
) -> int
    decreases b - start,
{
    if b <= start + 1 {
        start + 1
    } else if prefix_fits(c, s, start, b, target) {
        b
    } else {
        largest_fit(c, s, start, b - 1, target)
    }
}

proof fn lemma_largest_fit(c: spec_fn(Seq<char>) -> nat, s: Seq<char>, start: int, b: int, target: nat)
    requires
        start + 1 <= b,
    ensures
        start + 1 <= largest_fit(c, s, start, b, target) <= b,
        prefix_fits(c, s, start, largest_fit(c, s, start, b, target), target) || largest_fit(
            c,
            s,
            start,
            b,
            target,
        ) == start + 1,
    decreases b - start,
{
    if b > start + 1 && !prefix_fits(c, s, start, b, target) {
        lemma_largest_fit(c, s, start, b - 1, target);
    }
}

/// Where one chunker step cuts, under counting function `c`: the whole rest
/// when it fits; otherwise the largest fitting prefix bound pulled back to
/// the last boundary character, with the whole rest as the fallback when not
/// even the shortest prefix fits.
pub open spec fn model_cut(
    c: spec_fn(Seq<char>) -> nat,
    s: Seq<char>,
    start: int,
    target: nat,
) -> int {
    let n = s.len() as int;
    if c(s.subrange(start, n)) <= target {
        n
    } else {
        let mf = largest_fit(c, s, start, n, target);
        if prefix_fits(c, s, start, mf, target) {
            scan_cut(s, start, mf)
        } else {
            n
        }
    }
}

/// The texts the chunker's cut rule produces from `start` on.
pub open spec fn model_chunks(
    c: spec_fn(Seq<char>) -> nat,
    s: Seq<char>,
    start: int,
    target: nat,
) -> Seq<Seq<char>>
    decreases s.len() - start,
{
    if start < 0 || start >= s.len() {
        Seq::empty()
    } else {
        let cut0 = model_cut(c, s, start, target);
        let cut = if start < cut0 && cut0 <= s.len() {
            cut0
        } else {
            s.len() as int
        };
        seq![s.subrange(start, cut)] + model_chunks(c, s, cut, target)
    }
}

/// The concatenation of a list of texts, in order.
pub open spec fn concat_parts(parts: Seq<Seq<char>>) -> Seq<char>
    decreases parts.len(),
{
    if parts.len() == 0 {
        Seq::empty()
    } else {
        parts.first() + concat_parts(parts.drop_first())
    }
}

/// Partition: the chunks the cut rule produces from `start` concatenate
/// back to exactly the rest of the input, whatever the counting function
/// answers.
pub proof fn lemma_model_partition(
    c: spec_fn(Seq<char>) -> nat,
    s: Seq<char>,
    start: int,
    target: nat,
)
    requires
        0 <= start <= s.len(),
    ensures
        concat_parts(model_chunks(c, s, start, target)) == s.subrange(start, s.len() as int),
    decreases s.len() - start,
{
    if start >= s.len() {
        assert(concat_parts(model_chunks(c, s, start, target)) =~= s.subrange(
            start,
            s.len() as int,
        ));
    } else {
        let cut0 = model_cut(c, s, start, target);
        let cut = if start < cut0 && cut0 <= s.len() {
            cut0
        } else {
            s.len() as int
        };
        let head = s.subrange(start, cut);
        let rest = model_chunks(c, s, cut, target);
        lemma_model_partition(c, s, cut, target);
        assert((seq![head] + rest).first() == head);
        assert((seq![head] + rest).drop_first() =~= rest);
        assert(head + s.subrange(cut, s.len() as int) =~= s.subrange(start, s.len() as int));
    }
}

/// `c` never measures a prefix of `s` above a longer prefix with the same
/// start: the shape a real subword tokenizer is trusted to have where the
/// budget matters.
pub open spec fn monotone_counter(c: spec_fn(Seq<char>) -> nat, s: Seq<char>) -> bool {
    forall|a: int, x: int, y: int|
        0 <= a <= x <= y <= s.len() ==> #[trigger] c(s.subrange(a, x)) <= #[trigger] c(
            s.subrange(a, y),
        )
}

/// Budget: under a prefix-monotone counting function, every chunk the cut
/// rule produces fits the token target, except possibly the last.
pub proof fn lemma_model_budget(
    c: spec_fn(Seq<char>) -> nat,
    s: Seq<char>,
    start: int,
    target: nat,
)
    requires
        0 <= start <= s.len(),
        monotone_counter(c, s),
    ensures
        forall|i: int|
            0 <= i < model_chunks(c, s, start, target).len() - 1 ==> c(
                #[trigger] model_chunks(c, s, start, target)[i],
            ) <= target,
    decreases s.len() - start,
{
    if start < s.len() {
        let n = s.len() as int;
        let cut0 = model_cut(c, s, start, target);
        let cut = if start < cut0 && cut0 <= s.len() {
            cut0
        } else {
            n
        };
        let head = s.subrange(start, cut);
        let chunks = model_chunks(c, s, start, target);
        let rest = model_chunks(c, s, cut, target);
        lemma_model_budget(c, s, cut, target);
        if rest.len() > 0 {
            // The head is not the last chunk, so the whole rest did not fit
            // and the largest fitting bound was taken.
            assert(cut < n);
            let mf = largest_fit(c, s, start, n, target);
            lemma_largest_fit(c, s, start, n, target);
            assert(prefix_fits(c, s, start, mf, target));
            lemma_last_cut_pos(s, start, mf);
            assert(start < cut0 <= mf);
            assert(c(s.subrange(start, cut)) <= c(s.subrange(start, mf)));
            assert(c(head) <= target);
        }
        assert forall|i: int| 0 <= i < chunks.len() - 1 implies c(#[trigger] chunks[i])
            <= target by {
            if i == 0 {
                assert(chunks[0] == head);
            } else {
                assert(chunks[i] == rest[i - 1]);
            }
        }
    }
}

/// Re-chunking: cutting the concatenation of the chunks again, with the
/// same counting function and target, gives the same chunks.
pub proof fn lemma_model_rechunk(c: spec_fn(Seq<char>) -> nat, s: Seq<char>, target: nat)
    ensures
        model_chunks(c, concat_parts(model_chunks(c, s, 0, target)), 0, target) == model_chunks(
            c,
            s,
            0,
            target,
        ),
{
    lemma_model_partition(c, s, 0, target);
    assert(s.subrange(0, s.len() as int) =~= s);
}

} // verus!
