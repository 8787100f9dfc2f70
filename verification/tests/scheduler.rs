use std::cell::Cell;
use std::rc::Rc;

use syntaxdot_ffi::annotator::{
    batch_ranges, sort_indices, Annotator, Model, TokenizedSentence, Tokenize,
};
use syntaxdot_ffi::error::AnnotatorError;
use syntaxdot_ffi::sentences::{Sentence, Token, WireSentence, WireSentences, WireToken};

fn plain_token(form: &str) -> Token {
    Token {
        form: form.to_string(),
        lemma: None,
        upos: None,
        xpos: None,
        features: Vec::new(),
        misc: Vec::new(),
    }
}

fn sentence_of(forms: &[&str]) -> Sentence {
    Sentence {
        tokens: forms.iter().map(|f| plain_token(f)).collect(),
        deps: forms.iter().map(|_| None).collect(),
    }
}

/// A tokenizer that makes one piece per token.
struct PieceTokenizer;

impl Tokenize for PieceTokenizer {
    fn tokenize(&self, sentence: Sentence) -> TokenizedSentence {
        let pieces = (0..sentence.tokens.len() as i64).collect();
        TokenizedSentence { sentence, pieces }
    }
}

/// A model that writes a fixed tag on every token and counts how often it was
/// invoked and how large its batches were.
struct CountingModel {
    calls: Rc<Cell<usize>>,
    largest_batch: Rc<Cell<usize>>,
}

impl Model for CountingModel {
    fn tag_sentences(&self, batch: &mut Vec<TokenizedSentence>) -> Result<(), AnnotatorError> {
        self.calls.set(self.calls.get() + 1);
        if batch.len() > self.largest_batch.get() {
            self.largest_batch.set(batch.len());
        }
        for tokenized in batch.iter_mut() {
            for token in tokenized.sentence.tokens.iter_mut() {
                token.upos = Some("X".to_string());
            }
        }
        Ok(())
    }
}

/// A model that always fails.
struct FailingModel;

impl Model for FailingModel {
    fn tag_sentences(&self, _batch: &mut Vec<TokenizedSentence>) -> Result<(), AnnotatorError> {
        Err(AnnotatorError::ExternalOpaque("the model is unhappy".to_string()))
    }
}

fn counting_annotator() -> (Annotator<PieceTokenizer, CountingModel>, Rc<Cell<usize>>, Rc<Cell<usize>>) {
    let calls = Rc::new(Cell::new(0));
    let largest = Rc::new(Cell::new(0));
    let model = CountingModel {
        calls: Rc::clone(&calls),
        largest_batch: Rc::clone(&largest),
    };
    (Annotator::new(PieceTokenizer, model), calls, largest)
}

/// The scheduling order is a stable sort of the positions by length.
#[test]
fn sort_is_stable_and_by_length() {
    let lens: Vec<usize> = vec![3, 1, 2, 1];
    let perm = sort_indices(&lens);
    assert_eq!(perm, vec![1, 3, 2, 0]);

    let empty: Vec<usize> = Vec::new();
    assert_eq!(sort_indices(&empty), Vec::<usize>::new());

    let ties: Vec<usize> = vec![5, 5, 5];
    assert_eq!(sort_indices(&ties), vec![0, 1, 2]);
}

/// The chunk boundaries: ceil(n / batch_size) consecutive ranges, all of the
/// batch size but a smaller final remainder.
#[test]
fn batch_ranges_partition_the_input() {
    assert_eq!(batch_ranges(5, 2), vec![(0, 2), (2, 4), (4, 5)]);
    assert_eq!(batch_ranges(4, 2), vec![(0, 2), (2, 4)]);
    assert_eq!(batch_ranges(3, 32), vec![(0, 3)]);
    assert_eq!(batch_ranges(0, 4), Vec::<(usize, usize)>::new());
    assert_eq!(batch_ranges(1, 1), vec![(0, 1)]);
}

/// The model is invoked exactly ceil(n / batch_size) times, and zero times on
/// an empty input.
#[test]
fn model_is_invoked_once_per_chunk() {
    let (annotator, calls, largest) = counting_annotator();
    let sentences = vec![
        sentence_of(&["a"]),
        sentence_of(&["b", "b"]),
        sentence_of(&["c", "c", "c"]),
        sentence_of(&["d"]),
        sentence_of(&["e", "e"]),
    ];
    let out = annotator.annotate_sentences(sentences, 2).unwrap();
    assert_eq!(out.len(), 5);
    assert_eq!(calls.get(), 3);
    assert!(largest.get() <= 2);

    let (annotator, calls, _) = counting_annotator();
    let out = annotator.annotate_sentences(Vec::new(), 8).unwrap();
    assert!(out.is_empty());
    assert_eq!(calls.get(), 0);
}

/// Output order equals input order whatever the batch size, even though the
/// scheduler tags in length order internally.
#[test]
fn order_is_preserved_for_any_batch_size() {
    let forms: Vec<Vec<&str>> = vec![
        vec!["long", "long", "long", "long"],
        vec!["short"],
        vec!["mid", "mid"],
        vec!["tiny"],
        vec!["three", "three", "three"],
    ];
    for batch_size in [1usize, 2, 3, 32] {
        let (annotator, _, largest) = counting_annotator();
        let sentences: Vec<Sentence> = forms.iter().map(|f| sentence_of(f)).collect();
        let out = annotator.annotate(sentences, batch_size).unwrap();
        assert_eq!(out.len(), forms.len());
        for (sentence, expected) in out.iter().zip(forms.iter()) {
            assert_eq!(sentence.tokens.len(), expected.len());
            for (token, form) in sentence.tokens.iter().zip(expected.iter()) {
                assert_eq!(&token.form, form);
                // The model did reach every sentence.
                assert_eq!(token.upos, Some("X".to_string()));
            }
        }
        assert!(largest.get() <= batch_size);
    }
}

/// The concrete scenario: a batch size of 32 over five sentences of varying
/// lengths gives five results, in input order, each with its token count
/// unchanged.
#[test]
fn annotate_with_large_batch_size() {
    let (annotator, calls, _) = counting_annotator();
    let sentences = vec![
        sentence_of(&["one"]),
        sentence_of(&["two", "words"]),
        sentence_of(&["now", "three", "words"]),
        sentence_of(&["and", "now", "four", "words"]),
        sentence_of(&["finally", "five", "words", "in", "total"]),
    ];
    let counts: Vec<usize> = sentences.iter().map(|s| s.tokens.len()).collect();
    let out = annotator.annotate(sentences, 32).unwrap();
    assert_eq!(out.len(), 5);
    for (i, sentence) in out.iter().enumerate() {
        assert_eq!(sentence.tokens.len(), counts[i]);
    }
    assert_eq!(out[0].tokens[0].form, "one");
    assert_eq!(out[4].tokens[0].form, "finally");
    assert_eq!(calls.get(), 1);
}

/// A batch size of zero is a contract violation, reported as such.
#[test]
fn zero_batch_size_is_invalid() {
    let (annotator, calls, _) = counting_annotator();
    let err = annotator
        .annotate(vec![sentence_of(&["a"])], 0)
        .unwrap_err();
    assert!(matches!(err, AnnotatorError::InvalidArgument(_)));
    assert_eq!(err.code(), 7);
    assert_eq!(calls.get(), 0);
}

/// A model failure on any chunk fails the whole call with the model's error.
#[test]
fn model_failure_fails_the_call() {
    let annotator = Annotator::new(PieceTokenizer, FailingModel);
    let err = annotator
        .annotate(vec![sentence_of(&["a"]), sentence_of(&["b"])], 1)
        .unwrap_err();
    assert!(matches!(err, AnnotatorError::ExternalOpaque(_)));
    assert_eq!(err.message(), "the model is unhappy");
}

fn plain_wire_token(form: &str) -> WireToken {
    WireToken {
        form: form.to_string(),
        lemma: String::new(),
        upos: String::new(),
        xpos: String::new(),
        features: Vec::new(),
        misc: Vec::new(),
        head: 0,
        relation: String::new(),
    }
}

/// The wire-level composition: decode, annotate, encode; counts preserved,
/// annotations filled in, malformed input rejected.
#[test]
fn annotate_wire_round_trips_structure() {
    let (annotator, _, _) = counting_annotator();
    let wire = WireSentences {
        sentences: vec![
            WireSentence { tokens: vec![plain_wire_token("Dit"), plain_wire_token("is")] },
            WireSentence { tokens: vec![plain_wire_token("kort")] },
        ],
    };
    let out = annotator.annotate_wire(&wire, 32).unwrap();
    assert_eq!(out.sentences.len(), 2);
    assert_eq!(out.sentences[0].tokens.len(), 2);
    assert_eq!(out.sentences[1].tokens.len(), 1);
    assert_eq!(out.sentences[0].tokens[0].form, "Dit");
    assert_eq!(out.sentences[0].tokens[0].upos, "X");
    assert_eq!(out.sentences[1].tokens[0].form, "kort");

    let mut bad = plain_wire_token("a");
    bad.head = 7;
    bad.relation = "obj".to_string();
    let malformed = WireSentences {
        sentences: vec![WireSentence { tokens: vec![bad] }],
    };
    let err = annotator.annotate_wire(&malformed, 32).unwrap_err();
    assert!(matches!(err, AnnotatorError::Codec(_)));

    let (annotator, _, _) = counting_annotator();
    let err = annotator.annotate_wire(&WireSentences { sentences: vec![] }, 0).unwrap_err();
    assert!(matches!(err, AnnotatorError::InvalidArgument(_)));
}
