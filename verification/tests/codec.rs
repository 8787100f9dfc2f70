use syntaxdot_ffi::error::AnnotatorError;
use syntaxdot_ffi::sentences::{
    decode_sentence, decode_sentences, encode_sentence, encode_sentences, DepEdge, Sentence,
    Sentences, Token, WireSentence, WireSentences, WireToken,
};

fn plain_token(form: &str) -> Token {
    Token {
        form: form.to_string(),
        lemma: None,
        upos: None,
        xpos: None,
        features: Vec::new(),
        misc: Vec::new(),
    }
}

fn rich_token(form: &str, lemma: &str, upos: &str, xpos: &str, features: Vec<(&str, &str)>) -> Token {
    Token {
        form: form.to_string(),
        lemma: Some(lemma.to_string()),
        upos: Some(upos.to_string()),
        xpos: Some(xpos.to_string()),
        features: features
            .into_iter()
            .map(|(k, v)| (k.to_string(), v.to_string()))
            .collect(),
        misc: Vec::new(),
    }
}

fn edge(head: usize, relation: &str) -> Option<DepEdge> {
    Some(DepEdge {
        head,
        relation: Some(relation.to_string()),
    })
}

fn plain_wire_token(form: &str) -> WireToken {
    WireToken {
        form: form.to_string(),
        lemma: String::new(),
        upos: String::new(),
        xpos: String::new(),
        features: Vec::new(),
        misc: Vec::new(),
        head: 0,
        relation: String::new(),
    }
}

fn assert_tokens_eq(a: &Token, b: &Token) {
    assert_eq!(a.form, b.form);
    assert_eq!(a.lemma, b.lemma);
    assert_eq!(a.upos, b.upos);
    assert_eq!(a.xpos, b.xpos);
    assert_eq!(a.features, b.features);
    assert_eq!(a.misc, b.misc);
}

fn assert_sentences_eq(a: &Sentence, b: &Sentence) {
    assert_eq!(a.tokens.len(), b.tokens.len());
    for (ta, tb) in a.tokens.iter().zip(b.tokens.iter()) {
        assert_tokens_eq(ta, tb);
    }
    assert_eq!(a.deps.len(), b.deps.len());
    for (da, db) in a.deps.iter().zip(b.deps.iter()) {
        match (da, db) {
            (None, None) => {}
            (Some(ea), Some(eb)) => {
                assert_eq!(ea.head, eb.head);
                assert_eq!(ea.relation, eb.relation);
            }
            _ => panic!("dependency edges differ"),
        }
    }
}

/// The round trip on the concrete scenario sentence: "Dit is een test ." with
/// the root at token 4 and edges 4->1 nsubj, 4->2 cop, 4->3 det, 4->5 punct.
#[test]
fn dutch_sentence_round_trips() {
    let sentence = Sentence {
        tokens: vec![
            rich_token("Dit", "dit", "PRON", "PRON-aanw", vec![("Person", "3"), ("PronType", "Dem")]),
            rich_token(
                "is",
                "zijn",
                "AUX",
                "AUX-pv",
                vec![("Number", "Sing"), ("Tense", "Pres"), ("VerbForm", "Fin")],
            ),
            rich_token("een", "een", "DET", "DET-onbep", vec![("Definite", "Ind")]),
            rich_token("test", "test", "NOUN", "NOUN", vec![("Gender", "Com"), ("Number", "Sing")]),
            rich_token(".", ".", "PUNCT", "PUNCT", vec![]),
        ],
        deps: vec![
            edge(4, "nsubj"),
            edge(4, "cop"),
            edge(4, "det"),
            edge(0, "root"),
            edge(4, "punct"),
        ],
    };

    let wire = encode_sentence(&sentence);
    assert_eq!(wire.tokens.len(), 5);
    // The dependent at 1-based position 4 is the root.
    assert_eq!(wire.tokens[3].head, 0);
    assert_eq!(wire.tokens[3].relation, "root");
    assert_eq!(wire.tokens[0].head, 4);
    assert_eq!(wire.tokens[0].relation, "nsubj");
    assert_eq!(wire.tokens[1].head, 4);
    assert_eq!(wire.tokens[1].relation, "cop");
    assert_eq!(wire.tokens[2].head, 4);
    assert_eq!(wire.tokens[2].relation, "det");
    assert_eq!(wire.tokens[4].head, 4);
    assert_eq!(wire.tokens[4].relation, "punct");

    let back = decode_sentence(&wire).unwrap();
    assert_sentences_eq(&back, &sentence);
    // Exactly the five edges, nothing else: every entry of `deps` is one
    // dependent's single incoming edge, and index 0 has no entry at all.
    assert_eq!(back.deps.iter().filter(|d| d.is_some()).count(), 5);
}

/// Absent layers travel as empty strings and come back absent.
#[test]
fn absent_fields_round_trip() {
    let sentence = Sentence {
        tokens: vec![plain_token("hello"), plain_token("world")],
        deps: vec![None, None],
    };
    let wire = encode_sentence(&sentence);
    assert_eq!(wire.tokens[0].lemma, "");
    assert_eq!(wire.tokens[0].upos, "");
    assert_eq!(wire.tokens[0].xpos, "");
    assert_eq!(wire.tokens[0].head, 0);
    assert_eq!(wire.tokens[0].relation, "");
    let back = decode_sentence(&wire).unwrap();
    assert_sentences_eq(&back, &sentence);
}

/// A misc entry with an absent value crosses the wire as an empty string and
/// comes back absent.
#[test]
fn misc_values_round_trip() {
    let mut token = plain_token("x");
    token.misc = vec![
        ("SpaceAfter".to_string(), Some("No".to_string())),
        ("Flag".to_string(), None),
    ];
    let sentence = Sentence {
        tokens: vec![token],
        deps: vec![None],
    };
    let wire = encode_sentence(&sentence);
    assert_eq!(wire.tokens[0].misc[0], ("SpaceAfter".to_string(), "No".to_string()));
    assert_eq!(wire.tokens[0].misc[1], ("Flag".to_string(), String::new()));
    let back = decode_sentence(&wire).unwrap();
    assert_eq!(back.tokens[0].misc[0].1, Some("No".to_string()));
    assert_eq!(back.tokens[0].misc[1].1, None);
}

/// A head outside the sentence is malformed: decoding fails with the codec
/// error instead of constructing an inconsistent graph.
#[test]
fn head_out_of_range_is_rejected() {
    let mut wt = plain_wire_token("a");
    wt.head = 3;
    wt.relation = "nsubj".to_string();
    let wire = WireSentence {
        tokens: vec![wt, plain_wire_token("b")],
    };
    let err = decode_sentence(&wire).unwrap_err();
    assert!(matches!(err, AnnotatorError::Codec(_)));
    assert_eq!(err.code(), 6);
}

/// An empty relation is the sole signal that no edge is present: a non-zero
/// head with an empty relation decodes to no edge at all.
#[test]
fn empty_relation_means_no_edge() {
    let mut wt = plain_wire_token("a");
    wt.head = 2;
    let wire = WireSentence {
        tokens: vec![wt, plain_wire_token("b")],
    };
    let back = decode_sentence(&wire).unwrap();
    assert!(back.deps[0].is_none());
    assert!(back.deps[1].is_none());
}

/// A head equal to the token count points at the last token and is accepted.
#[test]
fn head_at_token_count_is_accepted() {
    let mut wt = plain_wire_token("a");
    wt.head = 2;
    wt.relation = "dep".to_string();
    let wire = WireSentence {
        tokens: vec![wt, plain_wire_token("b")],
    };
    let back = decode_sentence(&wire).unwrap();
    let e = back.deps[0].as_ref().unwrap();
    assert_eq!(e.head, 2);
    assert_eq!(e.relation, Some("dep".to_string()));
}

/// The well-formedness check accepts exactly the sentences the encoder takes:
/// one dependency entry per token, heads inside the sentence.
#[test]
fn check_wf_decides_well_formedness() {
    let good = Sentence {
        tokens: vec![plain_token("a"), plain_token("b")],
        deps: vec![edge(2, "dep"), edge(0, "root")],
    };
    assert!(good.check_wf());

    let missing_entry = Sentence {
        tokens: vec![plain_token("a"), plain_token("b")],
        deps: vec![None],
    };
    assert!(!missing_entry.check_wf());

    let head_out_of_range = Sentence {
        tokens: vec![plain_token("a")],
        deps: vec![edge(2, "dep")],
    };
    assert!(!head_out_of_range.check_wf());
}

/// A collection encodes sentence by sentence and decodes back; one malformed
/// sentence fails the whole collection.
#[test]
fn collections_round_trip_and_fail_together() {
    let good = Sentence {
        tokens: vec![plain_token("ok")],
        deps: vec![None],
    };
    let collection = Sentences(vec![good]);
    let wire = encode_sentences(&collection);
    assert_eq!(wire.sentences.len(), 1);
    let back = decode_sentences(&wire).unwrap();
    assert_eq!(back.0.len(), 1);
    assert_sentences_eq(&back.0[0], &collection.0[0]);

    let mut bad_token = plain_wire_token("far");
    bad_token.head = 9;
    bad_token.relation = "obl".to_string();
    let mixed = WireSentences {
        sentences: vec![
            WireSentence { tokens: vec![plain_wire_token("fine")] },
            WireSentence { tokens: vec![bad_token] },
        ],
    };
    let err = decode_sentences(&mixed).unwrap_err();
    assert!(matches!(err, AnnotatorError::Codec(_)));
}
