//! The wire codec: a pure, total, bidirectional conversion between the wire
//! representation of a sentence collection and the in-memory sentence graph.
//!
//! A wire token carries `head` and `relation` fields from which the dependency
//! edge of that token is reconstructed. An empty string on the wire means "no
//! value": a non-empty `relation` is the sole signal that a dependency edge is
//! present (so a genuinely empty relation label cannot cross the wire — a
//! deliberate limitation of the format, not of this codec). Encoding then
//! decoding a sentence reproduces it exactly, field for field and edge for
//! edge, for every sentence within these conventions; see
//! [`lemma_round_trip`].

use vstd::prelude::*;

use crate::error::AnnotatorError;

verus! {

// ------------------------- the in-memory model -------------------------

/// One token of a sentence: a surface form and the optional annotation
/// layers. `None` means the layer is absent, which is different from an
/// empty value only as long as the values themselves are non-empty (the
/// wire format cannot tell an absent layer from an empty one).
#[derive(Debug, Clone)]
pub struct Token {
    /// The surface form.
    pub form: String,
    /// The lemma, if assigned.
    pub lemma: Option<String>,
    /// The coarse (universal) part of speech, if assigned.
    pub upos: Option<String>,
    /// The fine (language-specific) part of speech, if assigned.
    pub xpos: Option<String>,
    /// Morphological features as name/value pairs.
    pub features: Vec<(String, String)>,
    /// Miscellaneous key/value pairs; a value may be absent.
    pub misc: Vec<(String, Option<String>)>,
}

/// The mathematical value of a [`Token`].
#[verifier::ext_equal]
pub ghost struct TokenV {
    pub form: Seq<char>,
    pub lemma: Option<Seq<char>>,
    pub upos: Option<Seq<char>>,
    pub xpos: Option<Seq<char>>,
    pub features: Seq<(Seq<char>, Seq<char>)>,
    pub misc: Seq<(Seq<char>, Option<Seq<char>>)>,
}

impl View for Token {
    type V = TokenV;

    open spec fn view(&self) -> TokenV {
        TokenV {
            form: self.form@,
            lemma: self.lemma.deep_view(),
            upos: self.upos.deep_view(),
            xpos: self.xpos.deep_view(),
            features: self.features.deep_view(),
            misc: self.misc.deep_view(),
        }
    }
}

impl DeepView for Token {
    type V = TokenV;

    open spec fn deep_view(&self) -> TokenV {
        self@
    }
}

/// The dependency edge of one token: the index of its head (`0` is the
/// implicit root, `1` the first token) and the relation label.
#[derive(Debug, Clone)]
pub struct DepEdge {
    /// The head token index; `0` means the root.
    pub head: usize,
    /// The relation label, if present.
    pub relation: Option<String>,
}

/// The mathematical value of a [`DepEdge`].
#[verifier::ext_equal]
pub ghost struct DepEdgeV {
    pub head: int,
    pub relation: Option<Seq<char>>,
}

impl View for DepEdge {
    type V = DepEdgeV;

    open spec fn view(&self) -> DepEdgeV {
        DepEdgeV { head: self.head as int, relation: self.relation.deep_view() }
    }
}

impl DeepView for DepEdge {
    type V = DepEdgeV;

    open spec fn deep_view(&self) -> DepEdgeV {
        self@
    }
}

/// A sentence graph: an ordered token sequence (token `i + 1` of the
/// 1-indexed dependency graph is `tokens[i]`) and at most one incoming
/// dependency edge per token (`deps[i]` belongs to token `i + 1`; the root
/// is never a dependent, which this representation cannot even express).
#[derive(Debug, Clone)]
pub struct Sentence {
    /// The tokens, in sentence order.
    pub tokens: Vec<Token>,
    /// For each token, its dependency edge, if it has one. Well-formed
    /// sentences have exactly one entry per token.
    pub deps: Vec<Option<DepEdge>>,
}

/// The mathematical value of a [`Sentence`].
#[verifier::ext_equal]
pub ghost struct SentenceV {
    pub tokens: Seq<TokenV>,
    pub deps: Seq<Option<DepEdgeV>>,
}

impl View for Sentence {
    type V = SentenceV;

    open spec fn view(&self) -> SentenceV {
        SentenceV { tokens: self.tokens.deep_view(), deps: self.deps.deep_view() }
    }
}

impl DeepView for Sentence {
    type V = SentenceV;

    open spec fn deep_view(&self) -> SentenceV {
        self@
    }
}

/// Structural well-formedness of a sentence: one dependency entry per token,
/// each head inside the sentence (`0` to the token count), and a token count
/// the 32-bit wire `head` field can address.
pub open spec fn sentence_wf(s: SentenceV) -> bool {
    &&& s.deps.len() == s.tokens.len()
    &&& s.tokens.len() <= u32::MAX
    &&& forall|i: int|
        0 <= i < s.deps.len() ==> ((#[trigger] s.deps[i]) matches Some(e) ==> 0 <= e.head
            <= s.tokens.len())
}

impl Sentence {
    /// Structural well-formedness; see [`sentence_wf`].
    pub open spec fn wf(&self) -> bool {
        sentence_wf(self@)
    }

    /// Decides well-formedness, so that a caller that assembled a sentence by
    /// hand can test it before encoding.
    pub fn check_wf(&self) -> (b: bool)
        ensures
            b == self.wf(),
    {
        if self.deps.len() != self.tokens.len() {
            return false;
        }
        if self.tokens.len() > u32::MAX as usize {
            return false;
        }
        let n = self.tokens.len();
        let mut i: usize = 0;
        while i < n
            invariant
                i <= n,
                n == self.deps@.len(),
                n == self.tokens@.len(),
                n <= u32::MAX,
                forall|j: int|
                    0 <= j < i ==> ((#[trigger] self@.deps[j]) matches Some(e) ==> 0 <= e.head
                        <= n),
            decreases n - i,
        {
            proof {
                assert(self@.deps[i as int] == self.deps@[i as int].deep_view());
            }
            match &self.deps[i] {
                Some(e) => {
                    if e.head > n {
                        return false;
                    }
                },
                None => {},
            }
            i += 1;
        }
        true
    }
}

/// An ordered collection of sentences.
#[derive(Debug, Clone)]
pub struct Sentences(pub Vec<Sentence>);

impl View for Sentences {
    type V = Seq<SentenceV>;

    open spec fn view(&self) -> Seq<SentenceV> {
        self.0.deep_view()
    }
}

// ------------------------- the wire representation -------------------------

/// One token as it crosses the wire. Absent values travel as empty strings;
/// the dependency edge of the token travels in `head` and `relation`, with a
/// non-empty `relation` as the sole signal that the edge exists.
#[derive(Debug, Clone)]
pub struct WireToken {
    /// The surface form.
    pub form: String,
    /// The lemma; empty means absent.
    pub lemma: String,
    /// The universal part of speech; empty means absent.
    pub upos: String,
    /// The language-specific part of speech; empty means absent.
    pub xpos: String,
    /// Morphological features as name/value pairs.
    pub features: Vec<(String, String)>,
    /// Miscellaneous key/value pairs; an empty value means an absent value.
    pub misc: Vec<(String, String)>,
    /// The dependency head of this token; `0` is the root (or no head at all,
    /// where `relation` is empty).
    pub head: u32,
    /// The dependency relation label; empty means the token has no edge.
    pub relation: String,
}

/// The mathematical value of a [`WireToken`].
#[verifier::ext_equal]
pub ghost struct WireTokenV {
    pub form: Seq<char>,
    pub lemma: Seq<char>,
    pub upos: Seq<char>,
    pub xpos: Seq<char>,
    pub features: Seq<(Seq<char>, Seq<char>)>,
    pub misc: Seq<(Seq<char>, Seq<char>)>,
    pub head: u32,
    pub relation: Seq<char>,
}

impl View for WireToken {
    type V = WireTokenV;

    open spec fn view(&self) -> WireTokenV {
        WireTokenV {
            form: self.form@,
            lemma: self.lemma@,
            upos: self.upos@,
            xpos: self.xpos@,
            features: self.features.deep_view(),
            misc: self.misc.deep_view(),
            head: self.head,
            relation: self.relation@,
        }
    }
}

impl DeepView for WireToken {
    type V = WireTokenV;

    open spec fn deep_view(&self) -> WireTokenV {
        self@
    }
}

/// One sentence as it crosses the wire: its tokens, in order.
#[derive(Debug, Clone)]
pub struct WireSentence {
    /// The wire tokens, in sentence order.
    pub tokens: Vec<WireToken>,
}

impl View for WireSentence {
    type V = Seq<WireTokenV>;

    open spec fn view(&self) -> Seq<WireTokenV> {
        self.tokens.deep_view()
    }
}

impl DeepView for WireSentence {
    type V = Seq<WireTokenV>;

    open spec fn deep_view(&self) -> Seq<WireTokenV> {
        self@
    }
}

/// A sentence collection as it crosses the wire.
#[derive(Debug, Clone)]
pub struct WireSentences {
    /// The wire sentences, in order.
    pub sentences: Vec<WireSentence>,
}

impl View for WireSentences {
    type V = Seq<Seq<WireTokenV>>;

    open spec fn view(&self) -> Seq<Seq<WireTokenV>> {
        self.sentences.deep_view()
    }
}

// ------------------------- the codec, specified -------------------------

/// The wire text of an optional value: absent travels as empty.
pub open spec fn opt_text(o: Option<Seq<char>>) -> Seq<char> {
    match o {
        Some(s) => s,
        None => Seq::<char>::empty(),
    }
}

/// The in-memory value of a wire text: empty means absent.
pub open spec fn nonempty_opt(s: Seq<char>) -> Option<Seq<char>> {
    if s.len() == 0 {
        None
    } else {
        Some(s)
    }
}

/// The wire fields of one token, edge fields left at their defaults.
pub open spec fn encode_token_fields(t: TokenV) -> WireTokenV {
    WireTokenV {
        form: t.form,
        lemma: opt_text(t.lemma),
        upos: opt_text(t.upos),
        xpos: opt_text(t.xpos),
        features: t.features,
        misc: t.misc.map_values(|p: (Seq<char>, Option<Seq<char>>)| (p.0, opt_text(p.1))),
        head: 0,
        relation: Seq::<char>::empty(),
    }
}

/// The wire token at position `i` of a sentence: the token's fields, plus its
/// dependency edge if it has one.
pub open spec fn encode_token_at(s: SentenceV, i: int) -> WireTokenV {
    let base = encode_token_fields(s.tokens[i]);
    match s.deps[i] {
        Some(e) => WireTokenV {
            form: base.form,
            lemma: base.lemma,
            upos: base.upos,
            xpos: base.xpos,
            features: base.features,
            misc: base.misc,
            head: e.head as u32,
            relation: opt_text(e.relation),
        },
        None => base,
    }
}

/// What encoding a sentence puts on the wire.
pub open spec fn encode_sentence_spec(s: SentenceV) -> Seq<WireTokenV> {
    Seq::new(s.tokens.len(), |i: int| encode_token_at(s, i))
}

/// What encoding a sentence collection puts on the wire.
pub open spec fn encode_sentences_spec(ss: Seq<SentenceV>) -> Seq<Seq<WireTokenV>> {
    ss.map_values(|s: SentenceV| encode_sentence_spec(s))
}

/// Whether this wire token carries a dependency edge.
pub open spec fn wire_token_has_edge(w: WireTokenV) -> bool {
    w.relation.len() > 0
}

/// A decodable wire sentence: every head that carries an edge points inside
/// the sentence, and the token count is addressable by the 32-bit `head`
/// field. Anything else is malformed and rejected rather than decoded into an
/// inconsistent graph.
pub open spec fn wire_sentence_ok(w: Seq<WireTokenV>) -> bool {
    &&& w.len() <= u32::MAX
    &&& forall|i: int|
        0 <= i < w.len() ==> (wire_token_has_edge(#[trigger] w[i]) ==> w[i].head <= w.len())
}

/// A decodable wire sentence collection.
pub open spec fn wire_sentences_ok(ws: Seq<Seq<WireTokenV>>) -> bool {
    forall|i: int| 0 <= i < ws.len() ==> wire_sentence_ok(#[trigger] ws[i])
}

/// The in-memory token a wire token decodes to (its edge fields are read at
/// the sentence level, not here).
pub open spec fn decode_token_spec(w: WireTokenV) -> TokenV {
    TokenV {
        form: w.form,
        lemma: nonempty_opt(w.lemma),
        upos: nonempty_opt(w.upos),
        xpos: nonempty_opt(w.xpos),
        features: w.features,
        misc: w.misc.map_values(|p: (Seq<char>, Seq<char>)| (p.0, nonempty_opt(p.1))),
    }
}

/// The sentence a decodable wire sentence decodes to.
pub open spec fn decode_sentence_spec(w: Seq<WireTokenV>) -> SentenceV {
    SentenceV {
        tokens: w.map_values(|t: WireTokenV| decode_token_spec(t)),
        deps: Seq::new(
            w.len(),
            |i: int|
                if wire_token_has_edge(w[i]) {
                    Some(DepEdgeV { head: w[i].head as int, relation: Some(w[i].relation) })
                } else {
                    None
                },
        ),
    }
}

/// The sentence collection a decodable wire collection decodes to.
pub open spec fn decode_sentences_spec(ws: Seq<Seq<WireTokenV>>) -> Seq<SentenceV> {
    ws.map_values(|w: Seq<WireTokenV>| decode_sentence_spec(w))
}

// ------------------------- what round-trips -------------------------

/// A token the wire format can represent faithfully: present values are
/// non-empty, since an empty string on the wire means absence.
pub open spec fn token_encodable(t: TokenV) -> bool {
    &&& (t.lemma matches Some(s) ==> s.len() > 0)
    &&& (t.upos matches Some(s) ==> s.len() > 0)
    &&& (t.xpos matches Some(s) ==> s.len() > 0)
    &&& forall|i: int|
        0 <= i < t.misc.len() ==> ((#[trigger] t.misc[i]).1 matches Some(v) ==> v.len() > 0)
}

/// A sentence the wire format can represent faithfully: well-formed, tokens
/// encodable, and every dependency edge labelled with a non-empty relation
/// (an empty relation on the wire means the edge is absent).
pub open spec fn sentence_encodable(s: SentenceV) -> bool {
    &&& sentence_wf(s)
    &&& forall|i: int| 0 <= i < s.tokens.len() ==> token_encodable(#[trigger] s.tokens[i])
    &&& forall|i: int|
        0 <= i < s.deps.len() ==> ((#[trigger] s.deps[i]) matches Some(e) ==> (e.relation
            matches Some(r) && r.len() > 0))
}

/// The round-trip law: for any sentence whose tokens each have at most one
/// dependency head and whose present values and relation labels are
/// non-empty, encoding and then decoding is the identity — field for field,
/// edge for edge. In particular what was encoded is always decodable.
pub proof fn lemma_round_trip(s: SentenceV)
    requires
        sentence_encodable(s),
    ensures
        wire_sentence_ok(encode_sentence_spec(s)),
        decode_sentence_spec(encode_sentence_spec(s)) == s,
{
    let w = encode_sentence_spec(s);
    assert forall|i: int|
        0 <= i < w.len() && wire_token_has_edge(#[trigger] w[i]) implies w[i].head <= w.len() by {
        match s.deps[i] {
            Some(e) => {
                assert(w[i].head == e.head as u32);
            },
            None => {
                assert(!wire_token_has_edge(w[i]));
            },
        }
    }
    let d = decode_sentence_spec(w);
    assert forall|i: int| 0 <= i < s.tokens.len() implies d.tokens[i] == s.tokens[i] by {
        let t = s.tokens[i];
        let dt = decode_token_spec(w[i]);
        assert(w[i].lemma == opt_text(t.lemma) && w[i].upos == opt_text(t.upos) && w[i].xpos
            == opt_text(t.xpos) && w[i].features == t.features && w[i].misc == t.misc.map_values(
            |p: (Seq<char>, Option<Seq<char>>)| (p.0, opt_text(p.1)),
        ));
        assert(dt.misc =~= t.misc) by {
            assert forall|j: int| 0 <= j < t.misc.len() implies dt.misc[j] == t.misc[j] by {
                assert((#[trigger] t.misc[j]).1 matches Some(v) ==> v.len() > 0);
                assert(dt.misc[j] == (t.misc[j].0, nonempty_opt(opt_text(t.misc[j].1))));
            }
        }
        assert(dt =~= t);
    }
    assert forall|i: int| 0 <= i < s.deps.len() implies d.deps[i] == s.deps[i] by {
        match s.deps[i] {
            Some(e) => {
                assert(wire_token_has_edge(w[i]));
                assert(w[i].head == e.head as u32);
                assert(0 <= e.head <= u32::MAX);
                assert(d.deps[i] == Some(DepEdgeV { head: e.head, relation: e.relation }));
            },
            None => {
                assert(!wire_token_has_edge(w[i]));
            },
        }
    }
    assert(d =~= s);
}

/// The round-trip law for a whole collection: encoding then decoding a
/// collection of encodable sentences is the identity, sentence by sentence.
pub proof fn lemma_round_trip_sentences(ss: Seq<SentenceV>)
    requires
        forall|i: int| 0 <= i < ss.len() ==> sentence_encodable(#[trigger] ss[i]),
    ensures
        wire_sentences_ok(encode_sentences_spec(ss)),
        decode_sentences_spec(encode_sentences_spec(ss)) == ss,
{
    let ws = encode_sentences_spec(ss);
    assert forall|i: int| 0 <= i < ws.len() implies wire_sentence_ok(#[trigger] ws[i]) by {
        lemma_round_trip(ss[i]);
    }
    assert forall|i: int| 0 <= i < ss.len() implies decode_sentences_spec(ws)[i] == ss[i] by {
        lemma_round_trip(ss[i]);
    }
    assert(decode_sentences_spec(ws) =~= ss);
}

// ------------------------- the codec, executable -------------------------

/// Copies a list of string pairs.
fn clone_pairs(v: &Vec<(String, String)>) -> (r: Vec<(String, String)>)
    ensures
        r@ == v@,
{
    let mut r: Vec<(String, String)> = Vec::new();
    let mut i: usize = 0;
    while i < v.len()
        invariant
            i <= v@.len(),
            r@ =~= v@.subrange(0, i as int),
        decreases v@.len() - i,
    {
        r.push((v[i].0.clone(), v[i].1.clone()));
        i += 1;
    }
    proof {
        assert(r@ =~= v@);
    }
    r
}

/// The wire text of an optional value: absent travels as empty.
fn text_of_opt(o: &Option<String>) -> (r: String)
    ensures
        r@ == opt_text(o.deep_view()),
{
    match o {
        Some(s) => s.clone(),
        None => String::new(),
    }
}

/// The in-memory value of a wire text: empty means absent.
fn opt_of_text(s: &String) -> (r: Option<String>)
    ensures
        r.deep_view() == nonempty_opt(s@),
{
    if s.as_str().is_empty() {
        None
    } else {
        Some(s.clone())
    }
}

/// Encodes a miscellaneous map: absent values travel as empty strings.
fn encode_misc(v: &Vec<(String, Option<String>)>) -> (r: Vec<(String, String)>)
    ensures
        r.deep_view() == v.deep_view().map_values(
            |p: (Seq<char>, Option<Seq<char>>)| (p.0, opt_text(p.1)),
        ),
{
    let ghost goal = v.deep_view().map_values(
        |p: (Seq<char>, Option<Seq<char>>)| (p.0, opt_text(p.1)),
    );
    let mut r: Vec<(String, String)> = Vec::new();
    let mut i: usize = 0;
    while i < v.len()
        invariant
            i <= v@.len(),
            goal == v.deep_view().map_values(
                |p: (Seq<char>, Option<Seq<char>>)| (p.0, opt_text(p.1)),
            ),
            r.deep_view() =~= goal.subrange(0, i as int),
        decreases v@.len() - i,
    {
        proof {
            assert(r.deep_view().len() == r@.len());
        }
        r.push((v[i].0.clone(), text_of_opt(&v[i].1)));
        proof {
            assert(v.deep_view()[i as int] == v@[i as int].deep_view());
            assert(r@[i as int].deep_view() == goal[i as int]);
            assert(r.deep_view() =~= goal.subrange(0, i as int + 1));
        }
        i += 1;
    }
    proof {
        assert(r.deep_view() =~= goal);
    }
    r
}

/// Decodes a miscellaneous map: empty values mean absent values.
fn decode_misc(v: &Vec<(String, String)>) -> (r: Vec<(String, Option<String>)>)
    ensures
        r.deep_view() == v.deep_view().map_values(
            |p: (Seq<char>, Seq<char>)| (p.0, nonempty_opt(p.1)),
        ),
{
    let ghost goal = v.deep_view().map_values(|p: (Seq<char>, Seq<char>)| (p.0, nonempty_opt(p.1)));
    let mut r: Vec<(String, Option<String>)> = Vec::new();
    let mut i: usize = 0;
    while i < v.len()
        invariant
            i <= v@.len(),
            goal == v.deep_view().map_values(
                |p: (Seq<char>, Seq<char>)| (p.0, nonempty_opt(p.1)),
            ),
            r.deep_view() =~= goal.subrange(0, i as int),
        decreases v@.len() - i,
    {
        proof {
            assert(r.deep_view().len() == r@.len());
        }
        r.push((v[i].0.clone(), opt_of_text(&v[i].1)));
        proof {
            assert(v.deep_view()[i as int] == v@[i as int].deep_view());
            assert(r@[i as int].deep_view() == goal[i as int]);
            assert(r.deep_view() =~= goal.subrange(0, i as int + 1));
        }
        i += 1;
    }
    proof {
        assert(r.deep_view() =~= goal);
    }
    r
}

/// Encodes one token's fields; the edge fields stay at their defaults and are
/// filled in by [`encode_sentence`].
pub fn encode_token(t: &Token) -> (w: WireToken)
    ensures
        w@ == encode_token_fields(t@),
{
    let w = WireToken {
        form: t.form.clone(),
        lemma: text_of_opt(&t.lemma),
        upos: text_of_opt(&t.upos),
        xpos: text_of_opt(&t.xpos),
        features: clone_pairs(&t.features),
        misc: encode_misc(&t.misc),
        head: 0,
        relation: String::new(),
    };
    proof {
        assert(w.features.deep_view() =~= t.features.deep_view());
        assert(w@ =~= encode_token_fields(t@));
    }
    w
}

/// Decodes one wire token's fields; the edge fields are read at the sentence
/// level by [`decode_sentence`].
pub fn decode_token(w: &WireToken) -> (t: Token)
    ensures
        t@ == decode_token_spec(w@),
{
    let t = Token {
        form: w.form.clone(),
        lemma: opt_of_text(&w.lemma),
        upos: opt_of_text(&w.upos),
        xpos: opt_of_text(&w.xpos),
        features: clone_pairs(&w.features),
        misc: decode_misc(&w.misc),
    };
    proof {
        assert(t.features.deep_view() =~= w.features.deep_view());
        assert(t@ =~= decode_token_spec(w@));
    }
    t
}

/// Encodes a sentence for the wire: each token's fields in order, with the
/// token's dependency edge in `head` and `relation` where it has one, and
/// `0` and the empty string where it has none.
pub fn encode_sentence(s: &Sentence) -> (w: WireSentence)
    requires
        s.wf(),
    ensures
        w@ == encode_sentence_spec(s@),
{
    let n = s.tokens.len();
    let mut tokens: Vec<WireToken> = Vec::new();
    let mut i: usize = 0;
    while i < n
        invariant
            s.wf(),
            i <= n,
            n == s.tokens@.len(),
            tokens.deep_view() =~= encode_sentence_spec(s@).subrange(0, i as int),
        decreases n - i,
    {
        proof {
            assert(tokens.deep_view().len() == tokens@.len());
            assert(s@.tokens[i as int] == s.tokens@[i as int]@);
            assert(s@.deps[i as int] == s.deps@[i as int].deep_view());
        }
        let mut wt = encode_token(&s.tokens[i]);
        match &s.deps[i] {
            Some(e) => {
                proof {
                    assert(s@.deps[i as int] matches Some(ev) && ev.head <= u32::MAX && ev.head
                        == e.head);
                }
                wt.head = e.head as u32;
                wt.relation = text_of_opt(&e.relation);
            },
            None => {},
        }
        proof {
            assert(wt@ =~= encode_token_at(s@, i as int));
        }
        tokens.push(wt);
        proof {
            assert(tokens@[i as int].deep_view() == encode_sentence_spec(s@)[i as int]);
            assert(tokens.deep_view() =~= encode_sentence_spec(s@).subrange(0, i as int + 1));
        }
        i += 1;
    }
    let w = WireSentence { tokens };
    proof {
        assert(w@ =~= encode_sentence_spec(s@));
    }
    w
}

/// Decodes a wire sentence. Fails with a `Codec` error — rather than
/// constructing an inconsistent graph — exactly where the wire sentence is
/// malformed: some token that carries an edge has a head outside the
/// sentence, or the sentence is too long for its heads to be addressable.
pub fn decode_sentence(w: &WireSentence) -> (r: Result<Sentence, AnnotatorError>)
    ensures
        wire_sentence_ok(w@) ==> (r matches Ok(s) && s@ == decode_sentence_spec(w@) && s.wf()),
        !wire_sentence_ok(w@) ==> (r matches Err(e) && e is Codec),
{
    let n = w.tokens.len();
    if n > u32::MAX as usize {
        return Err(AnnotatorError::Codec("sentence has more tokens than the wire format can address".to_owned()));
    }
    let mut i: usize = 0;
    while i < n
        invariant
            i <= n,
            n == w.tokens@.len(),
            n <= u32::MAX,
            forall|j: int|
                0 <= j < i ==> (wire_token_has_edge(#[trigger] w@[j]) ==> w@[j].head <= n),
        decreases n - i,
    {
        proof {
            assert(w@[i as int] == w.tokens@[i as int]@);
        }
        if !w.tokens[i].relation.as_str().is_empty() && w.tokens[i].head as usize > n {
            proof {
                assert(wire_token_has_edge(w@[i as int]) && w@[i as int].head > w@.len());
            }
            return Err(AnnotatorError::Codec("dependency head lies outside the sentence".to_owned()));
        }
        i += 1;
    }
    let mut tokens: Vec<Token> = Vec::new();
    let mut i: usize = 0;
    while i < n
        invariant
            i <= n,
            n == w.tokens@.len(),
            tokens.deep_view() =~= decode_sentence_spec(w@).tokens.subrange(0, i as int),
        decreases n - i,
    {
        proof {
            assert(tokens.deep_view().len() == tokens@.len());
            assert(w@[i as int] == w.tokens@[i as int]@);
        }
        tokens.push(decode_token(&w.tokens[i]));
        proof {
            assert(tokens@[i as int].deep_view() == decode_sentence_spec(w@).tokens[i as int]);
            assert(tokens.deep_view() =~= decode_sentence_spec(w@).tokens.subrange(
                0,
                i as int + 1,
            ));
        }
        i += 1;
    }
    let mut deps: Vec<Option<DepEdge>> = Vec::new();
    let mut i: usize = 0;
    while i < n
        invariant
            i <= n,
            n == w.tokens@.len(),
            deps.deep_view() =~= decode_sentence_spec(w@).deps.subrange(0, i as int),
        decreases n - i,
    {
        proof {
            assert(deps.deep_view().len() == deps@.len());
            assert(w@[i as int] == w.tokens@[i as int]@);
        }
        let wt = &w.tokens[i];
        if !wt.relation.as_str().is_empty() {
            deps.push(Some(DepEdge { head: wt.head as usize, relation: Some(wt.relation.clone()) }));
        } else {
            deps.push(None);
        }
        proof {
            assert(deps@[i as int].deep_view() == decode_sentence_spec(w@).deps[i as int]);
            assert(deps.deep_view() =~= decode_sentence_spec(w@).deps.subrange(0, i as int + 1));
        }
        i += 1;
    }
    let s = Sentence { tokens, deps };
    proof {
        assert(s@ =~= decode_sentence_spec(w@));
    }
    Ok(s)
}

/// Encodes a sentence collection for the wire, sentence by sentence.
pub fn encode_sentences(ss: &Sentences) -> (w: WireSentences)
    requires
        forall|i: int| 0 <= i < ss.0@.len() ==> (#[trigger] ss.0@[i]).wf(),
    ensures
        w@ == encode_sentences_spec(ss@),
{
    let n = ss.0.len();
    let mut sentences: Vec<WireSentence> = Vec::new();
    let mut i: usize = 0;
    while i < n
        invariant
            forall|j: int| 0 <= j < ss.0@.len() ==> (#[trigger] ss.0@[j]).wf(),
            i <= n,
            n == ss.0@.len(),
            sentences.deep_view() =~= encode_sentences_spec(ss@).subrange(0, i as int),
        decreases n - i,
    {
        proof {
            assert(sentences.deep_view().len() == sentences@.len());
            assert(ss@[i as int] == ss.0@[i as int]@);
        }
        sentences.push(encode_sentence(&ss.0[i]));
        proof {
            assert(sentences@[i as int].deep_view() == encode_sentences_spec(ss@)[i as int]);
            assert(sentences.deep_view() =~= encode_sentences_spec(ss@).subrange(0, i as int + 1));
        }
        i += 1;
    }
    let w = WireSentences { sentences };
    proof {
        assert(w@ =~= encode_sentences_spec(ss@));
    }
    w
}

/// Decodes a wire sentence collection; the first malformed sentence fails the
/// whole collection with its `Codec` error.
pub fn decode_sentences(w: &WireSentences) -> (r: Result<Sentences, AnnotatorError>)
    ensures
        wire_sentences_ok(w@) ==> (r matches Ok(ss) && ss@ == decode_sentences_spec(w@)
            && forall|i: int| 0 <= i < ss.0@.len() ==> (#[trigger] ss.0@[i]).wf()),
        !wire_sentences_ok(w@) ==> (r matches Err(e) && e is Codec),
{
    let n = w.sentences.len();
    let mut out: Vec<Sentence> = Vec::new();
    let mut i: usize = 0;
    while i < n
        invariant
            i <= n,
            n == w.sentences@.len(),
            forall|j: int| 0 <= j < i ==> wire_sentence_ok(#[trigger] w@[j]),
            out.deep_view() =~= decode_sentences_spec(w@).subrange(0, i as int),
            forall|j: int| 0 <= j < out@.len() ==> (#[trigger] out@[j]).wf(),
        decreases n - i,
    {
        proof {
            assert(out.deep_view().len() == out@.len());
            assert(w@[i as int] == w.sentences@[i as int]@);
        }
        match decode_sentence(&w.sentences[i]) {
            Ok(s) => {
                out.push(s);
                proof {
                    assert(out@[i as int].deep_view() == decode_sentences_spec(w@)[i as int]);
                    assert(out.deep_view() =~= decode_sentences_spec(w@).subrange(
                        0,
                        i as int + 1,
                    ));
                }
            },
            Err(e) => {
                proof {
                    assert(!wire_sentence_ok(w@[i as int]));
                }
                return Err(e);
            },
        }
        i += 1;
    }
    let ss = Sentences(out);
    proof {
        assert(ss@ =~= decode_sentences_spec(w@));
    }
    Ok(ss)
}

} // verus!
