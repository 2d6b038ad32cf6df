use vstd::prelude::*;
use vstd::string::*;
use std::collections::BTreeMap;
use crate::chunker::TokenCounter;
use crate::text::{spec_digits, usize_string, replaced, replace_all};

verus! {

broadcast use vstd::std_specs::btree::group_btree_axioms, vstd::laws_cmp::group_laws_cmp;

/// The rolling buffer holds at most this many measured tokens before an
/// intermediate reduce is due.
pub const ROLLING_TOKEN_LIMIT: usize = 24000;

/// Raw summaries with index below this are collected as the sample that
/// seeds the meta-prompt.
pub const SAMPLE_LIMIT: usize = 3;

/// One block of the rolling buffer: either a summary labelled with its chunk
/// index, or the compressed residue of an earlier reduce round.
pub enum Fragment {
    Data { index: nat, text: Seq<char> },
    Intermediate { round: nat, text: Seq<char> },
}

pub open spec fn frag_index(f: Fragment) -> nat {
    match f {
        Fragment::Data { index, .. } => index,
        Fragment::Intermediate { round, .. } => round,
    }
}

/// How a summary for chunk `index` stands in the rolling buffer.
pub open spec fn data_fragment(index: nat, text: Seq<char>) -> Seq<char> {
    "[Data "@ + spec_digits(index) + "]\n"@ + text + "\n\n"@
}

/// How the residue of reduce round `round` stands in the rolling buffer.
pub open spec fn intermediate_fragment(round: nat, text: Seq<char>) -> Seq<char> {
    "[Intermediate Summary "@ + spec_digits(round) + "]\n"@ + text + "\n\n"@
}

pub open spec fn render_fragment(f: Fragment) -> Seq<char> {
    match f {
        Fragment::Data { index, text } => data_fragment(index, text),
        Fragment::Intermediate { round, text } => intermediate_fragment(round, text),
    }
}

pub open spec fn render_fragments(fs: Seq<Fragment>) -> Seq<char>
    decreases fs.len(),
{
    if fs.len() == 0 {
        Seq::empty()
    } else {
        render_fragments(fs.drop_last()) + render_fragment(fs.last())
    }
}

proof fn lemma_render_push(fs: Seq<Fragment>, f: Fragment)
    ensures
        render_fragments(fs.push(f)) == render_fragments(fs) + render_fragment(f),
{
    assert(fs.push(f).drop_last() =~= fs);
    assert(fs.push(f).last() == f);
}

/// The ordered streaming reducer's state.
///
/// Out-of-order summaries wait in `pending`; the rolling buffer grows by one
/// labelled fragment per absorbed summary, in index order, and collapses to a
/// single intermediate fragment at each reduce round. The ghost `fragments`
/// sequence records what the buffer is built of.
pub struct Reducer {
    pub pending: BTreeMap<usize, String>,
    pub next_index: usize,
    pub rolling_buffer: String,
    pub rolling_tokens: usize,
    pub intermediate_count: usize,
    pub sample_summaries: String,
    pub meta_spawned: bool,
    pub dynamic_prompt: Option<String>,
    pub fragments: Ghost<Seq<Fragment>>,
}

impl Reducer {
    /// The buffer is exactly the rendering of its fragments, and summary
    /// fragments carry strictly increasing chunk indices, all below
    /// `next_index`.
    pub open spec fn wf(self) -> bool {
        &&& self.rolling_buffer@ == render_fragments(self.fragments@)
        &&& forall|i: int, j: int|
            0 <= i < j < self.fragments@.len() && #[trigger] self.fragments@[i] is Data
                && #[trigger] self.fragments@[j] is Data ==> frag_index(self.fragments@[i])
                < frag_index(self.fragments@[j])
        &&& forall|i: int|
            0 <= i < self.fragments@.len() && #[trigger] self.fragments@[i] is Data ==> frag_index(
                self.fragments@[i],
            ) < self.next_index
    }

    pub fn new() -> (r: Reducer)
        ensures
            r.wf(),
            r.pending@ == Map::<usize, String>::empty(),
            r.next_index == 0,
            r.rolling_buffer@ == Seq::<char>::empty(),
            r.rolling_tokens == 0,
            r.intermediate_count == 0,
            r.sample_summaries@ == Seq::<char>::empty(),
            r.meta_spawned == false,
            r.dynamic_prompt is None,
            r.fragments@ == Seq::<Fragment>::empty(),
    {
        Reducer {
            pending: BTreeMap::new(),
            next_index: 0,
            rolling_buffer: String::new(),
            rolling_tokens: 0,
            intermediate_count: 0,
            sample_summaries: String::new(),
            meta_spawned: false,
            dynamic_prompt: None,
            fragments: Ghost(Seq::empty()),
        }
    }

    /// Files a worker's summary under its chunk index; a later summary for
    /// the same index replaces the earlier one.
    pub fn insert_summary(&mut self, index: usize, text: String)
        requires
            old(self).wf(),
        ensures
            final(self).wf(),
            final(self).pending@ == old(self).pending@.insert(index, text),
            final(self).next_index == old(self).next_index,
            final(self).rolling_buffer == old(self).rolling_buffer,
            final(self).rolling_tokens == old(self).rolling_tokens,
            final(self).intermediate_count == old(self).intermediate_count,
            final(self).sample_summaries == old(self).sample_summaries,
            final(self).meta_spawned == old(self).meta_spawned,
            final(self).dynamic_prompt == old(self).dynamic_prompt,
            final(self).fragments == old(self).fragments,
    {
        self.pending.insert(index, text);
    }

    /// Whether the summary the rollup is waiting for has arrived.
    pub fn has_ready(&self) -> (r: bool)
        ensures
            r == self.pending@.contains_key(self.next_index),
    {
        self.pending.contains_key(&self.next_index)
    }

    /// Whether the rolling buffer is due for an intermediate reduce.
    pub fn needs_reduce(&self) -> (r: bool)
        ensures
            r == (self.rolling_tokens >= ROLLING_TOKEN_LIMIT),
    {
        self.rolling_tokens >= ROLLING_TOKEN_LIMIT
    }

    /// Whether a document-specific system prompt has been resolved.
    pub fn has_prompt(&self) -> (r: bool)
        ensures
            r == (self.dynamic_prompt is Some),
    {
        self.dynamic_prompt.is_some()
    }

    /// Whether nothing was ever absorbed into the rolling buffer.
    pub fn buffer_empty(&self) -> (r: bool)
        ensures
            r == (self.rolling_buffer@.len() == 0),
    {
        self.rolling_buffer.as_str().is_empty()
    }

    /// Resolves the system prompt for all later reduces. It can be set only
    /// while unset, so it changes at most once over a run; every other
    /// method of the reducer leaves it untouched.
    pub fn set_prompt(&mut self, prompt: String)
        requires
            old(self).wf(),
            old(self).dynamic_prompt is None,
        ensures
            final(self).wf(),
            final(self).dynamic_prompt == Some(prompt),
            final(self).pending == old(self).pending,
            final(self).next_index == old(self).next_index,
            final(self).rolling_buffer == old(self).rolling_buffer,
            final(self).rolling_tokens == old(self).rolling_tokens,
            final(self).intermediate_count == old(self).intermediate_count,
            final(self).sample_summaries == old(self).sample_summaries,
            final(self).meta_spawned == old(self).meta_spawned,
            final(self).fragments == old(self).fragments,
    {
        self.dynamic_prompt = Some(prompt);
    }

    /// Takes the awaited summary out of `pending` and rolls it up: appends
    /// its labelled fragment to the buffer, adds its measured token count,
    /// extends the meta-prompt sample while the index is an early one, and
    /// reports, the first time the second summary is rolled up, the sample
    /// to hand to the speculative meta-prompt task.
    ///
    /// Returns `(sample_for_meta, counted)`: `counted` is what the counter
    /// measured for the summary text alone.
    pub fn absorb_next<C: TokenCounter>(&mut self, counter: &mut C) -> (r: (Option<String>, usize))
        requires
            old(self).wf(),
            old(self).pending@.contains_key(old(self).next_index),
            old(self).next_index < usize::MAX,
        ensures
            final(self).wf(),
            final(self).next_index == old(self).next_index + 1,
            final(self).pending@ == old(self).pending@.remove(old(self).next_index),
            final(self).fragments@ == old(self).fragments@.push(
                Fragment::Data {
                    index: old(self).next_index as nat,
                    text: old(self).pending@[old(self).next_index]@,
                },
            ),
            final(self).rolling_buffer@ == old(self).rolling_buffer@ + data_fragment(
                old(self).next_index as nat,
                old(self).pending@[old(self).next_index]@,
            ),
            final(self).rolling_tokens == old(self).rolling_tokens.saturating_add(r.1),
            old(self).next_index < SAMPLE_LIMIT ==> final(self).sample_summaries@ == old(
                self,
            ).sample_summaries@ + old(self).pending@[old(self).next_index]@ + "\n\n"@,
            old(self).next_index >= SAMPLE_LIMIT ==> final(self).sample_summaries == old(
                self,
            ).sample_summaries,
            (r.0 is Some) == (old(self).next_index == 1 && !old(self).meta_spawned),
            r.0 matches Some(sample) ==> sample@ == final(self).sample_summaries@,
            final(self).meta_spawned == (old(self).meta_spawned || old(self).next_index == 1),
            final(self).dynamic_prompt == old(self).dynamic_prompt,
            final(self).intermediate_count == old(self).intermediate_count,
    {
        let idx = self.next_index;
        let text = self.pending.remove(&idx).unwrap();
        let counted = counter.count_tokens(text.as_str());

        let mut frag = String::from_str("[Data ");
        let num = usize_string(idx);
        frag.append(num.as_str());
        frag.append("]\n");
        frag.append(text.as_str());
        frag.append("\n\n");
        self.rolling_buffer.append(frag.as_str());
        self.rolling_tokens = self.rolling_tokens.saturating_add(counted);

        if idx < SAMPLE_LIMIT {
            self.sample_summaries.append(text.as_str());
            self.sample_summaries.append("\n\n");
        }

        let spawn: Option<String> = if idx == 1 && !self.meta_spawned {
            self.meta_spawned = true;
            Some(self.sample_summaries.clone())
        } else {
            None
        };

        let ghost new_frag = Fragment::Data { index: idx as nat, text: text@ };
        proof {
            lemma_render_push(self.fragments@, new_frag);
            assert(frag@ =~= data_fragment(idx as nat, text@));
        }
        self.fragments = Ghost(self.fragments@.push(new_frag));
        self.next_index = idx + 1;

        proof {
            assert(self.rolling_buffer@ == render_fragments(self.fragments@));
            assert forall|i: int, j: int|
                0 <= i < j < self.fragments@.len() && #[trigger] self.fragments@[i] is Data
                    && #[trigger] self.fragments@[j] is Data implies frag_index(self.fragments@[i])
                < frag_index(self.fragments@[j]) by {
                if j < self.fragments@.len() - 1 {
                    assert(old(self).fragments@[i] is Data && old(self).fragments@[j] is Data);
                } else {
                    assert(old(self).fragments@[i] is Data);
                }
            }
        }
        (spawn, counted)
    }

    /// Renders a reduce prompt: substitutes the resolved system prompt for
    /// `{SYS_PROMPT}` in the template, then the rolling buffer for `{TEXT}`.
    pub fn render_reduce_prompt(&self, template: &str) -> (r: String)
        requires
            self.dynamic_prompt is Some,
        ensures
            r@ == replaced(
                replaced(template@, "{SYS_PROMPT}"@, self.dynamic_prompt->0@),
                "{TEXT}"@,
                self.rolling_buffer@,
            ),
    {
        let with_sys = match &self.dynamic_prompt {
            Some(p) => replace_all(template, "{SYS_PROMPT}", p.as_str()),
            None => unreached(),
        };
        replace_all(with_sys.as_str(), "{TEXT}", self.rolling_buffer.as_str())
    }

    /// Installs the outcome of a reduce round: the whole buffer becomes one
    /// intermediate fragment, the token count restarts at what the counter
    /// measures for that fragment, and the round number advances.
    pub fn apply_intermediate<C: TokenCounter>(
        &mut self,
        counter: &mut C,
        compressed: String,
    ) -> (counted: usize)
        requires
            old(self).wf(),
            old(self).intermediate_count < usize::MAX,
        ensures
            final(self).wf(),
            final(self).rolling_buffer@ == intermediate_fragment(
                old(self).intermediate_count as nat,
                compressed@,
            ),
            final(self).fragments@ == seq![
                Fragment::Intermediate {
                    round: old(self).intermediate_count as nat,
                    text: compressed@,
                },
            ],
            final(self).rolling_tokens == counted,
            final(self).intermediate_count == old(self).intermediate_count + 1,
            final(self).pending == old(self).pending,
            final(self).next_index == old(self).next_index,
            final(self).sample_summaries == old(self).sample_summaries,
            final(self).meta_spawned == old(self).meta_spawned,
            final(self).dynamic_prompt == old(self).dynamic_prompt,
    {
        let mut buf = String::from_str("[Intermediate Summary ");
        let num = usize_string(self.intermediate_count);
        buf.append(num.as_str());
        buf.append("]\n");
        buf.append(compressed.as_str());
        buf.append("\n\n");
        let counted = counter.count_tokens(buf.as_str());

        let ghost round = self.intermediate_count as nat;
        let ghost new_frag = Fragment::Intermediate { round, text: compressed@ };
        proof {
            assert(buf@ =~= intermediate_fragment(round, compressed@));
            let s1: Seq<Fragment> = seq![new_frag];
            assert(s1.drop_last() =~= Seq::<Fragment>::empty());
            assert(s1.last() == new_frag);
            assert(render_fragments(s1.drop_last()) == Seq::<char>::empty());
            assert(render_fragments(s1) =~= render_fragment(new_frag));
        }
        self.rolling_buffer = buf;
        self.rolling_tokens = counted;
        let ghost new_frags: Seq<Fragment> = seq![new_frag];
        self.fragments = Ghost(new_frags);
        self.intermediate_count = self.intermediate_count + 1;
        counted
    }
}

/// Order preservation: in a well-formed reducer the rolling buffer's summary
/// fragments stand in strictly increasing chunk-index order.
pub proof fn lemma_data_order(r: Reducer, i: int, j: int)
    requires
        r.wf(),
        0 <= i < j < r.fragments@.len(),
        r.fragments@[i] is Data,
        r.fragments@[j] is Data,
    ensures
        frag_index(r.fragments@[i]) < frag_index(r.fragments@[j]),
{
}

/// Bounded growth: while the buffer is below the reduce threshold, one
/// absorbed summary can carry it at most its own measured count past it.
pub proof fn lemma_rolling_bound(before: usize, counted: usize, after: usize)
    requires
        before < ROLLING_TOKEN_LIMIT,
        after == before.saturating_add(counted),
    ensures
        after <= ROLLING_TOKEN_LIMIT + counted,
{
}

} // verus!
