//! The annotator and its batching scheduler.
//!
//! An annotator owns one loaded model instance and its tokenizer; both are
//! frozen after construction, so an annotator is safe to share read-only. The
//! scheduler orders sentences by sub-word length (the model pads each batch to
//! its longest member, so grouping similar lengths wastes the least padding),
//! cuts the order into chunks of at most the batch size, and invokes the model
//! once per chunk. The sort is index-based and purely internal: results are
//! written back through the original indices, so the caller always sees the
//! original input order.

use vstd::prelude::*;

use crate::error::AnnotatorError;
use crate::sentences::{
    sentence_wf, Sentence, SentenceV, Sentences, WireSentences, decode_sentences,
    encode_sentences, wire_sentences_ok, decode_sentences_spec,
};

verus! {

/// A sentence paired with the sub-word pieces the tokenizer produced for it.
/// The model reads the pieces and fills its predictions into the sentence in
/// place.
#[derive(Debug, Clone)]
pub struct TokenizedSentence {
    /// The sentence; the model annotates it in place.
    pub sentence: Sentence,
    /// The sub-word piece identifiers, opaque to the scheduler except for
    /// their number, which is the batching sort key.
    pub pieces: Vec<i64>,
}

/// What tagging a sentence may do to it: the model fills annotation layers in
/// place — it never adds or removes tokens, never rewrites a surface form,
/// and keeps a well-formed dependency structure well-formed.
pub open spec fn tagging_preserves(pre: SentenceV, post: SentenceV) -> bool {
    &&& post.tokens.len() == pre.tokens.len()
    &&& forall|k: int|
        0 <= k < pre.tokens.len() ==> (#[trigger] post.tokens[k]).form == pre.tokens[k].form
    &&& sentence_wf(pre) ==> sentence_wf(post)
}

/// The external tokenizer capability: splits a sentence into the sub-word
/// pieces the model consumes. Which pieces come out is the tokenizer's
/// business; the sentence itself is carried through unchanged.
pub trait Tokenize {
    /// Tokenizes one sentence into sub-word pieces.
    fn tokenize(&self, sentence: Sentence) -> (r: TokenizedSentence)
        ensures
            r.sentence@ == sentence@,
    ;
}

/// The external model capability: tags every sentence of a batch in place, or
/// fails as a whole. What predictions it writes is the model's business; it
/// fills annotation layers for the tokens that are there (see
/// [`tagging_preserves`]) and neither adds, removes nor reorders the
/// sentences of the batch.
pub trait Model {
    /// Tags one batch of tokenized sentences in place.
    fn tag_sentences(&self, batch: &mut Vec<TokenizedSentence>) -> (r: Result<
        (),
        AnnotatorError,
    >)
        ensures
            r is Ok ==> final(batch)@.len() == old(batch)@.len() && forall|k: int|
                0 <= k < old(batch)@.len() ==> tagging_preserves(
                    old(batch)@[k].sentence@,
                    (#[trigger] final(batch)@[k]).sentence@,
                ),
    ;
}

/// How many model invocations a batch of `n` sentences takes at batch size
/// `batch_size`: the number of chunks, the last of which may be smaller.
pub open spec fn spec_batch_count(n: int, batch_size: int) -> int
    recommends
        batch_size >= 1,
{
    (n + batch_size - 1) / batch_size
}

/// The chunk boundaries the scheduler tags with: consecutive half-open ranges
/// of positions, each of the batch size except a smaller final remainder, and
/// exactly `ceil(n / batch_size)` of them — none at all for an empty input.
pub fn batch_ranges(n: usize, batch_size: usize) -> (r: Vec<(usize, usize)>)
    requires
        batch_size >= 1,
    ensures
        r@.len() == spec_batch_count(n as int, batch_size as int),
        n == 0 ==> r@.len() == 0,
        n > 0 ==> r@.len() > 0,
        forall|c: int| 0 <= c < r@.len() ==> (#[trigger] r@[c]).0 < r@[c].1 <= n,
        forall|c: int| 0 <= c < r@.len() ==> (#[trigger] r@[c]).1 - r@[c].0 <= batch_size,
        forall|c: int| 0 <= c < r@.len() - 1 ==> (#[trigger] r@[c]).1 - r@[c].0 == batch_size,
        forall|c: int| 0 < c < r@.len() ==> (#[trigger] r@[c]).0 == r@[c - 1].1,
        r@.len() > 0 ==> r@[0].0 == 0 && r@[r@.len() - 1].1 == n,
{
    let mut r: Vec<(usize, usize)> = Vec::new();
    let mut start: usize = 0;
    proof {
        assert(0 * (batch_size as int) == 0) by (nonlinear_arith);
    }
    while start < n
        invariant
            batch_size >= 1,
            start <= n,
            start as int == if r@.len() * batch_size <= n {
                r@.len() * (batch_size as int)
            } else {
                n as int
            },
            forall|c: int| 0 <= c < r@.len() ==> (#[trigger] r@[c]).0 == c * batch_size,
            forall|c: int| 0 <= c < r@.len() ==> (#[trigger] r@[c]).0 < n,
            forall|c: int| 0 <= c < r@.len() ==> (#[trigger] r@[c]).0 < r@[c].1 <= n,
            forall|c: int| 0 <= c < r@.len() ==> (#[trigger] r@[c]).1 - r@[c].0 <= batch_size,
            forall|c: int|
                0 <= c < r@.len() - 1 ==> (#[trigger] r@[c]).1 - r@[c].0 == batch_size,
            forall|c: int| 0 < c < r@.len() ==> (#[trigger] r@[c]).0 == r@[c - 1].1,
            r@.len() > 0 ==> r@[0].0 == 0 && r@[r@.len() - 1].1 == start,
        decreases n - start,
    {
        let ghost len_before = r@.len();
        proof {
            assert((len_before + 1) * (batch_size as int) == len_before * (batch_size as int)
                + batch_size) by (nonlinear_arith);
            assert(len_before * (batch_size as int) == (len_before - 1) * (batch_size as int)
                + batch_size) by (nonlinear_arith);
            assert(len_before * (batch_size as int) >= 0) by (nonlinear_arith)
                requires
                    len_before >= 0,
                    batch_size >= 1,
            ;
            assert(0 * (batch_size as int) == 0) by (nonlinear_arith);
        }
        let end = if n - start < batch_size {
            n
        } else {
            start + batch_size
        };
        r.push((start, end));
        start = end;
    }
    proof {
        let b = batch_size as int;
        let len = r@.len() as int;
        if n == 0 {
            assert(len == 0);
            assert(spec_batch_count(0, b) == 0) by (nonlinear_arith)
                requires
                    b >= 1,
            ;
        } else {
            assert(len > 0);
            assert(r@[len - 1].0 == (len - 1) * b);
            assert((len - 1) * b < n <= (len - 1) * b + b) by {
                assert(r@[len - 1].1 - r@[len - 1].0 <= b);
                assert(r@[len - 1].1 == n);
            }
            let s = n + b - 1 - len * b;
            assert(len * b == (len - 1) * b + b) by (nonlinear_arith);
            assert(n + b - 1 == len * b + s && 0 <= s < b);
            vstd::arithmetic::div_mod::lemma_fundamental_div_mod_converse(
                n + b - 1,
                b,
                len,
                s,
            );
        }
    }
    r
}

/// Whether `perm` is a permutation of the positions `0 .. n`: each position
/// occurs exactly once.
pub open spec fn is_index_permutation(perm: Seq<usize>, n: int) -> bool {
    &&& perm.len() == n
    &&& forall|a: int| 0 <= a < perm.len() ==> (#[trigger] perm[a]) < n
    &&& forall|a: int, b: int|
        #![trigger perm[a], perm[b]]
        0 <= a < b < perm.len() ==> perm[a] != perm[b]
    &&& forall|v: usize| 0 <= v < n ==> #[trigger] perm.contains(v)
}

/// Whether `perm` lists positions by ascending length, positions of equal
/// length staying in their original order (a stable sort).
pub open spec fn stable_sorted_by(perm: Seq<usize>, lens: Seq<usize>) -> bool {
    forall|a: int, b: int|
        #![trigger perm[a], perm[b]]
        0 <= a < b < perm.len() ==> (lens[perm[a] as int] < lens[perm[b] as int] || (lens[perm[a]
            as int] == lens[perm[b] as int] && perm[a] < perm[b]))
}

/// The scheduling order: a stable permutation of `0 .. lens.len()` sorting
/// the positions by ascending length. The sort is only a schedule — results
/// are written back through the original positions — but grouping similar
/// lengths minimizes the padding the model computes on.
pub fn sort_indices(lens: &Vec<usize>) -> (perm: Vec<usize>)
    ensures
        is_index_permutation(perm@, lens@.len() as int),
        stable_sorted_by(perm@, lens@),
{
    let n = lens.len();
    let mut perm: Vec<usize> = Vec::new();
    let mut i: usize = 0;
    while i < n
        invariant
            i <= n,
            n == lens@.len(),
            perm@.len() == i,
            forall|a: int| 0 <= a < perm@.len() ==> (#[trigger] perm@[a]) < i,
            forall|a: int, b: int|
                #![trigger perm@[a], perm@[b]]
                0 <= a < b < perm@.len() ==> perm@[a] != perm@[b],
            forall|v: usize| 0 <= v < i ==> #[trigger] perm@.contains(v),
            stable_sorted_by(perm@, lens@),
        decreases n - i,
    {
        let key = lens[i];
        // The insertion point: after every position whose length is at most
        // `key`, so that positions of equal length keep their input order.
        let mut pos: usize = 0;
        while pos < perm.len() && lens[perm[pos]] <= key
            invariant
                pos <= perm@.len(),
                i < n,
                n == lens@.len(),
                perm@.len() == i,
                forall|a: int| 0 <= a < perm@.len() ==> (#[trigger] perm@[a]) < i,
                forall|a: int| 0 <= a < pos ==> lens@[(#[trigger] perm@[a]) as int] <= key,
            decreases perm@.len() - pos,
        {
            pos += 1;
        }
        let ghost before = perm@;
        perm.insert(pos, i);
        proof {
            before.insert_ensures(pos as int, i);
            let after = perm@;
            assert forall|a: int| 0 <= a < after.len() implies (#[trigger] after[a]) < i + 1 by {
                if a < pos {
                    assert(after[a] == before[a]);
                } else if a > pos {
                    assert(after[a] == before[a - 1]);
                }
            }
            assert forall|a: int, b: int|
                #![trigger after[a], after[b]]
                0 <= a < b < after.len() implies after[a] != after[b] by {
                if b < pos {
                } else if a > pos {
                    assert(after[a] == before[a - 1] && after[b] == before[b - 1]);
                } else if a < pos && b == pos {
                    assert(after[a] == before[a] && after[b] == i);
                } else if a < pos && b > pos {
                    assert(after[a] == before[a] && after[b] == before[b - 1]);
                } else if a == pos {
                    assert(after[a] == i && after[b] == before[b - 1]);
                }
            }
            assert forall|v: usize| 0 <= v < i + 1 implies #[trigger] after.contains(v) by {
                if v == i {
                    assert(after[pos as int] == v);
                } else {
                    assert(before.contains(v));
                    let a = choose|a: int| 0 <= a < before.len() && before[a] == v;
                    if a < pos {
                        assert(after[a] == v);
                    } else {
                        assert(after[a + 1] == v);
                    }
                }
            }
            assert forall|a: int, b: int|
                #![trigger after[a], after[b]]
                0 <= a < b < after.len() implies (lens@[after[a] as int] < lens@[after[b] as int]
                || (lens@[after[a] as int] == lens@[after[b] as int] && after[a] < after[b])) by {
                if b < pos {
                    assert(after[a] == before[a] && after[b] == before[b]);
                } else if a > pos {
                    assert(after[a] == before[a - 1] && after[b] == before[b - 1]);
                } else if a < pos && b == pos {
                    // Everything before the insertion point is at most `key`,
                    // and the inserted position is the largest so far.
                    assert(after[a] == before[a] && after[b] == i);
                    assert(lens@[after[a] as int] <= key);
                } else if a < pos && b > pos {
                    assert(after[a] == before[a] && after[b] == before[b - 1]);
                } else if a == pos && b > pos {
                    // The inner loop stopped at a strictly larger length, and
                    // everything after it is at least as large by sortedness.
                    assert(after[a] == i && after[b] == before[b - 1]);
                    assert(lens@[before[pos as int] as int] > key);
                    if (pos as int) < b - 1 {
                        assert(lens@[before[pos as int] as int] <= lens@[before[b - 1] as int]);
                    }
                }
            }
        }
        i += 1;
    }
    perm
}

/// The placeholder that takes an element's seat while the element itself is
/// lent to a batch.
fn vacant_slot() -> TokenizedSentence {
    TokenizedSentence {
        sentence: Sentence { tokens: Vec::new(), deps: Vec::new() },
        pieces: Vec::new(),
    }
}

/// An annotator: one loaded model instance together with its tokenizer.
/// Frozen after construction — no operation mutates it — so one annotator is
/// safe to use from any number of callers at once.
pub struct Annotator<T: Tokenize, M: Model> {
    tokenizer: T,
    tagger: M,
}

impl<T: Tokenize, M: Model> Annotator<T, M> {
    /// Composes a loaded tokenizer and model into an annotator.
    pub fn new(tokenizer: T, tagger: M) -> Annotator<T, M> {
        Annotator { tokenizer, tagger }
    }

    /// Tokenizes the sentences and tags them in batches of at most
    /// `batch_size`, scheduled by ascending sub-word length. The result holds
    /// exactly the input sentences, in input order, each annotated in place
    /// by the model ([`tagging_preserves`] relates each output to its input).
    /// A batch size of zero is a contract violation; an empty input succeeds
    /// with an empty result and zero model invocations; a model failure on
    /// any batch fails the whole call with the model's error.
    pub fn annotate_sentences(&self, sentences: Vec<Sentence>, batch_size: usize) -> (r: Result<
        Vec<TokenizedSentence>,
        AnnotatorError,
    >)
        ensures
            batch_size == 0 ==> (r matches Err(e) && e is InvalidArgument),
            batch_size >= 1 && sentences@.len() == 0 ==> r is Ok,
            r matches Ok(out) ==> out@.len() == sentences@.len(),
            r matches Ok(out) ==> forall|i: int|
                0 <= i < sentences@.len() ==> tagging_preserves(
                    sentences.deep_view()[i],
                    (#[trigger] out@[i]).sentence@,
                ),
    {
        if batch_size == 0 {
            return Err(
                AnnotatorError::InvalidArgument("batch size must be at least one".to_owned()),
            );
        }
        let n = sentences.len();
        // Tokenize in input order, moving the sentences through a stack.
        let mut input = sentences;
        let mut stack: Vec<Sentence> = Vec::new();
        while input.len() > 0
            invariant
                input@.len() + stack@.len() == n,
                n == sentences@.len(),
                input@ =~= sentences@.subrange(0, input@.len() as int),
                forall|q: int|
                    0 <= q < stack@.len() ==> (#[trigger] stack@[q]) == sentences@[n - 1 - q],
            decreases input@.len(),
        {
            let s = input.pop().unwrap();
            stack.push(s);
        }
        let mut tokenized: Vec<TokenizedSentence> = Vec::new();
        while stack.len() > 0
            invariant
                stack@.len() + tokenized@.len() == n,
                n == sentences@.len(),
                forall|q: int|
                    0 <= q < stack@.len() ==> (#[trigger] stack@[q]) == sentences@[n - 1 - q],
                forall|q: int|
                    0 <= q < tokenized@.len() ==> (#[trigger] tokenized@[q]).sentence@
                        == sentences.deep_view()[q],
            decreases stack@.len(),
        {
            let s = stack.pop().unwrap();
            let t = self.tokenizer.tokenize(s);
            tokenized.push(t);
            proof {
                let q = tokenized@.len() - 1;
                assert(sentences.deep_view()[q] == sentences@[q].deep_view());
            }
        }
        // The schedule: positions sorted by sub-word length, cut into chunks.
        let mut lens: Vec<usize> = Vec::new();
        let mut i: usize = 0;
        while i < n
            invariant
                i <= n,
                n == tokenized@.len(),
                lens@.len() == i,
                forall|q: int|
                    0 <= q < i ==> (#[trigger] lens@[q]) == tokenized@[q].pieces@.len(),
            decreases n - i,
        {
            lens.push(tokenized[i].pieces.len());
            i += 1;
        }
        let perm = sort_indices(&lens);
        let ranges = batch_ranges(n, batch_size);
        let ghost pre = tokenized@;
        let mut c: usize = 0;
        let mut done: usize = 0;
        while c < ranges.len()
            invariant
                batch_size >= 1,
                is_index_permutation(perm@, n as int),
                ranges@.len() > 0 ==> ranges@[0].0 == 0 && ranges@[ranges@.len() - 1].1 == n,
                forall|d: int| 0 <= d < ranges@.len() ==> (#[trigger] ranges@[d]).0 < ranges@[d].1
                    <= n,
                forall|d: int| 0 < d < ranges@.len() ==> (#[trigger] ranges@[d]).0 == ranges@[d
                    - 1].1,
                c <= ranges@.len(),
                done as int == if c < ranges@.len() {
                    ranges@[c as int].0 as int
                } else {
                    n as int
                },
                tokenized@.len() == n,
                pre.len() == n,
                forall|q: int|
                    0 <= q < pre.len() ==> (#[trigger] pre[q]).sentence@
                        == sentences.deep_view()[q],
                n == sentences@.len(),
                forall|j: int|
                    done <= j < n ==> tokenized@[(#[trigger] perm@[j]) as int] == pre[perm@[j]
                        as int],
                forall|j: int|
                    0 <= j < done ==> tagging_preserves(
                        pre[(#[trigger] perm@[j]) as int].sentence@,
                        tokenized@[perm@[j] as int].sentence@,
                    ),
            decreases ranges@.len() - c,
        {
            let lo = ranges[c].0;
            let hi = ranges[c].1;
            // Gather the chunk, leaving placeholders behind.
            let mut batch: Vec<TokenizedSentence> = Vec::new();
            let mut j = lo;
            while j < hi
                invariant
                    is_index_permutation(perm@, n as int),
                    lo <= j <= hi <= n,
                    lo == done,
                    tokenized@.len() == n,
                    pre.len() == n,
                    batch@.len() == j - lo,
                    forall|q: int|
                        0 <= q < j - lo ==> (#[trigger] batch@[q]) == pre[perm@[lo + q] as int],
                    forall|q: int|
                        j <= q < n ==> tokenized@[(#[trigger] perm@[q]) as int] == pre[perm@[q]
                            as int],
                    forall|q: int|
                        0 <= q < lo ==> tagging_preserves(
                            pre[(#[trigger] perm@[q]) as int].sentence@,
                            tokenized@[perm@[q] as int].sentence@,
                        ),
                decreases hi - j,
            {
                let idx = perm[j];
                tokenized.push(vacant_slot());
                let item = tokenized.swap_remove(idx);
                batch.push(item);
                j += 1;
            }
            let ghost batch_pre = batch@;
            match self.tagger.tag_sentences(&mut batch) {
                Ok(()) => {},
                Err(e) => {
                    return Err(e);
                },
            }
            let ghost tagged = batch@;
            // Scatter the tagged chunk back through the original positions.
            let mut j = hi;
            while j > lo
                invariant
                    is_index_permutation(perm@, n as int),
                    lo <= j <= hi <= n,
                    lo == done,
                    tokenized@.len() == n,
                    pre.len() == n,
                    tagged.len() == hi - lo,
                    batch@ =~= tagged.subrange(0, j - lo),
                    forall|q: int|
                        0 <= q < hi - lo ==> tagging_preserves(
                            pre[(#[trigger] perm@[lo + q]) as int].sentence@,
                            tagged[q].sentence@,
                        ),
                    forall|q: int|
                        j - lo <= q < hi - lo ==> tokenized@[(#[trigger] perm@[lo + q]) as int]
                            == tagged[q],
                    forall|q: int|
                        hi <= q < n ==> tokenized@[(#[trigger] perm@[q]) as int] == pre[perm@[q]
                            as int],
                    forall|q: int|
                        0 <= q < lo ==> tagging_preserves(
                            pre[(#[trigger] perm@[q]) as int].sentence@,
                            tokenized@[perm@[q] as int].sentence@,
                        ),
                decreases j - lo,
            {
                j -= 1;
                let item = batch.pop().unwrap();
                let idx = perm[j];
                tokenized.push(item);
                let _ = tokenized.swap_remove(idx);
            }
            proof {
                assert forall|j2: int| 0 <= j2 < hi implies tagging_preserves(
                    pre[(#[trigger] perm@[j2]) as int].sentence@,
                    tokenized@[perm@[j2] as int].sentence@,
                ) by {
                    if lo <= j2 {
                        let q = j2 - lo;
                        assert(tokenized@[(#[trigger] perm@[lo + q]) as int] == tagged[q]);
                        assert(tagging_preserves(
                            pre[perm@[lo + q] as int].sentence@,
                            tagged[q].sentence@,
                        ));
                    }
                }
            }
            done = hi;
            c += 1;
        }
        proof {
            assert forall|i2: int| 0 <= i2 < n implies tagging_preserves(
                sentences.deep_view()[i2],
                (#[trigger] tokenized@[i2]).sentence@,
            ) by {
                assert(perm@.contains(i2 as usize));
                let a = choose|a: int| 0 <= a < perm@.len() && perm@[a] == i2 as usize;
                assert(tagging_preserves(
                    pre[perm@[a] as int].sentence@,
                    tokenized@[perm@[a] as int].sentence@,
                ));
            }
        }
        Ok(tokenized)
    }

    /// Annotates the sentences: tokenizes them, tags them in batches of at
    /// most `batch_size` (see [`Annotator::annotate_sentences`]), and hands
    /// back the annotated sentences themselves, in input order.
    pub fn annotate(&self, sentences: Vec<Sentence>, batch_size: usize) -> (r: Result<
        Vec<Sentence>,
        AnnotatorError,
    >)
        ensures
            batch_size == 0 ==> (r matches Err(e) && e is InvalidArgument),
            batch_size >= 1 && sentences@.len() == 0 ==> r is Ok,
            r matches Ok(out) ==> out@.len() == sentences@.len(),
            r matches Ok(out) ==> forall|i: int|
                0 <= i < sentences@.len() ==> tagging_preserves(
                    sentences.deep_view()[i],
                    (#[trigger] out@[i]).view(),
                ),
    {
        let ghost sentences_view = sentences.deep_view();
        match self.annotate_sentences(sentences, batch_size) {
            Ok(tokenized) => {
                let out = extract_sentences(tokenized);
                Ok(out)
            },
            Err(e) => Err(e),
        }
    }

    /// Annotates a wire sentence collection: decodes it, annotates it, and
    /// encodes the result. The output holds one sentence for each input
    /// sentence, in input order, with the same tokens in the same order (the
    /// model only fills annotation layers in). A malformed input fails with
    /// `Codec`; a batch size of zero with `InvalidArgument`.
    pub fn annotate_wire(&self, wire: &WireSentences, batch_size: usize) -> (r: Result<
        WireSentences,
        AnnotatorError,
    >)
        ensures
            !wire_sentences_ok(wire@) ==> (r matches Err(e) && e is Codec),
            wire_sentences_ok(wire@) && batch_size == 0 ==> (r matches Err(e)
                && e is InvalidArgument),
            wire_sentences_ok(wire@) && batch_size >= 1 && wire@.len() == 0 ==> r is Ok,
            r matches Ok(out) ==> out@.len() == wire@.len(),
            r matches Ok(out) ==> forall|i: int|
                0 <= i < wire@.len() ==> (#[trigger] out@[i]).len() == wire@[i].len(),
            r matches Ok(out) ==> forall|i: int, k: int|
                #![trigger out@[i][k]]
                0 <= i < wire@.len() && 0 <= k < wire@[i].len() ==> out@[i][k].form
                    == wire@[i][k].form,
    {
        match decode_sentences(wire) {
            Err(e) => Err(e),
            Ok(decoded) => {
                let ghost dv = decoded.0.deep_view();
                let ghost dlen = decoded.0@.len();
                proof {
                    assert(dv == decode_sentences_spec(wire@));
                    assert(dlen == wire@.len());
                    assert forall|i: int| 0 <= i < dlen implies sentence_wf(#[trigger] dv[i])
                        && dv[i].tokens.len() == wire@[i].len() by {
                        assert(dv[i] == decoded.0@[i].deep_view());
                        assert(decoded.0@[i].wf());
                        assert(dv[i] == crate::sentences::decode_sentence_spec(wire@[i]));
                    }
                }
                match self.annotate(decoded.0, batch_size) {
                    Err(e) => Err(e),
                    Ok(out) => {
                        proof {
                            assert(out@.len() == dlen);
                            assert forall|i: int| 0 <= i < out@.len() implies (
                            #[trigger] out@[i]).wf() && out@[i]@.tokens.len() == wire@[i].len()
                                && forall|k: int|
                                0 <= k < wire@[i].len() ==> (#[trigger] out@[i]@.tokens[k]).form
                                    == wire@[i][k].form by {
                                assert(tagging_preserves(dv[i], out@[i]@));
                                assert forall|k: int| 0 <= k < wire@[i].len() implies (
                                #[trigger] out@[i]@.tokens[k]).form == wire@[i][k].form by {
                                    assert(dv[i].tokens[k].form == wire@[i][k].form);
                                    assert(out@[i]@.tokens[k].form == dv[i].tokens[k].form);
                                }
                            }
                        }
                        let annotated = Sentences(out);
                        let encoded = encode_sentences(&annotated);
                        proof {
                            assert forall|i: int| 0 <= i < wire@.len() implies (
                            #[trigger] encoded@[i]).len() == wire@[i].len() && forall|k: int|
                                0 <= k < wire@[i].len() ==> (#[trigger] encoded@[i][k]).form
                                    == wire@[i][k].form by {
                                assert(annotated@[i] == annotated.0@[i].deep_view());
                                assert(encoded@[i] == crate::sentences::encode_sentence_spec(
                                    annotated@[i],
                                ));
                                assert forall|k: int| 0 <= k < wire@[i].len() implies (
                                #[trigger] encoded@[i][k]).form == wire@[i][k].form by {
                                    assert(encoded@[i][k]
                                        == crate::sentences::encode_token_at(annotated@[i], k));
                                    assert(encoded@[i][k].form == annotated@[i].tokens[k].form);
                                }
                            }
                        }
                        Ok(encoded)
                    },
                }
            },
        }
    }
}

/// Unwraps each tokenized sentence back to the sentence it carries, keeping
/// the order.
fn extract_sentences(v: Vec<TokenizedSentence>) -> (r: Vec<Sentence>)
    ensures
        r@.len() == v@.len(),
        forall|i: int| 0 <= i < v@.len() ==> (#[trigger] r@[i]) == v@[i].sentence,
{
    let n = v.len();
    let mut input = v;
    let mut stack: Vec<Sentence> = Vec::new();
    while input.len() > 0
        invariant
            input@.len() + stack@.len() == n,
            n == v@.len(),
            input@ =~= v@.subrange(0, input@.len() as int),
            forall|q: int|
                0 <= q < stack@.len() ==> (#[trigger] stack@[q]) == v@[n - 1 - q].sentence,
        decreases input@.len(),
    {
        let t = input.pop().unwrap();
        stack.push(t.sentence);
    }
    let mut r: Vec<Sentence> = Vec::new();
    while stack.len() > 0
        invariant
            stack@.len() + r@.len() == n,
            n == v@.len(),
            forall|q: int|
                0 <= q < stack@.len() ==> (#[trigger] stack@[q]) == v@[n - 1 - q].sentence,
            forall|q: int| 0 <= q < r@.len() ==> (#[trigger] r@[q]) == v@[q].sentence,
        decreases stack@.len(),
    {
        let s = stack.pop().unwrap();
        r.push(s);
    }
    r
}

} // verus!
