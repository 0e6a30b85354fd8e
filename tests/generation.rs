use tokenizers::Tokenizer;
use topk_decoder::codec::{seed, seed_from_encoding};
use topk_decoder::decoding::Generation;
use topk_decoder::error::GenerationError;
use topk_decoder::sampler::{rank_candidates, select, select_drawn};

const WORDS: [&str; 14] = [
    "the", "corsac", "fox", "is", "a", "medium", "sized", "found", "in", "also", "known", "as",
    "simply", "[UNK]",
];

fn tokenizer_json(unk: &str) -> String {
    let vocab: Vec<String> = WORDS
        .iter()
        .enumerate()
        .map(|(i, w)| format!("\"{}\": {}", w, i))
        .collect();
    format!(
        "{{\"version\": \"1.0\", \"truncation\": null, \"padding\": null, \"added_tokens\": [], \
         \"normalizer\": null, \"pre_tokenizer\": {{\"type\": \"WhitespaceSplit\"}}, \
         \"post_processor\": null, \"decoder\": null, \
         \"model\": {{\"type\": \"WordLevel\", \"vocab\": {{{}}}, \"unk_token\": \"{}\"}}}}",
        vocab.join(", "),
        unk
    )
}

fn codec() -> Tokenizer {
    tokenizer_json("[UNK]").parse().unwrap()
}

/// Scores over the whole vocabulary with index 0 ranked highest.
fn index_zero_first() -> Vec<i64> {
    (0..WORDS.len() as i64).map(|i| 100 - i).collect()
}

#[test]
fn ranking_orders_by_score_then_index() {
    assert_eq!(rank_candidates(&vec![1, 9, 5]), vec![1, 2, 0]);
    assert_eq!(rank_candidates(&vec![5, 7, 7, 1]), vec![1, 2, 0, 3]);
    assert_eq!(rank_candidates(&vec![]), Vec::<usize>::new());
    assert_eq!(rank_candidates(&vec![-3, -3, -3]), vec![0, 1, 2]);
}

#[test]
fn select_drawn_takes_ranked_position() {
    assert_eq!(select_drawn(&vec![1, 9, 5], 3, 0), Ok(1));
    assert_eq!(select_drawn(&vec![1, 9, 5], 3, 1), Ok(2));
    assert_eq!(select_drawn(&vec![1, 9, 5], 3, 2), Ok(0));
    assert_eq!(select_drawn(&vec![1, 9, 5], 0, 0), Err(GenerationError::InvalidConfiguration));
}

#[test]
fn width_one_is_greedy() {
    let scores = vec![3, 8, -2, 8, 7];
    for _ in 0..50 {
        assert_eq!(select(&scores, 1), Ok(1));
    }
}

#[test]
fn width_above_candidates_is_clamped() {
    let scores = vec![4, 2, 6];
    for _ in 0..50 {
        let i = select(&scores, 10).unwrap();
        assert!(i < 3);
    }
    assert_eq!(select_drawn(&scores, 10, 2), Ok(1));
    assert_eq!(select_drawn(&scores, 3, 2), Ok(1));
}

#[test]
fn width_limits_draw_to_best_candidates() {
    let scores = vec![1, 50, 2, 40, 3];
    for _ in 0..50 {
        let i = select(&scores, 2).unwrap();
        assert!(i == 1 || i == 3);
    }
}

#[test]
fn empty_scores_are_refused() {
    assert_eq!(select(&vec![], 3), Err(GenerationError::InvalidConfiguration));
    assert_eq!(select_drawn(&vec![], 3, 0), Err(GenerationError::InvalidConfiguration));
    assert_eq!(select(&vec![1, 2], 0), Err(GenerationError::InvalidConfiguration));
}

#[test]
fn seed_encodes_prompt() {
    let tok = codec();
    assert_eq!(seed("the corsac fox", &tok), Ok(vec![0, 1, 2]));
    assert_eq!(seed("", &tok), Err(GenerationError::InvalidInput));
}

#[test]
fn seed_reports_encoding_failure() {
    let tok: Tokenizer = tokenizer_json("<missing>").parse().unwrap();
    match seed("zebra", &tok) {
        Err(GenerationError::EncodingError(msg)) => assert!(!msg.is_empty()),
        other => panic!("expected an encoding error, got {:?}", other),
    }
    assert_eq!(
        seed_from_encoding(Err("no unknown token".to_string())),
        Err(GenerationError::EncodingError("no unknown token".to_string()))
    );
    assert_eq!(seed_from_encoding(Ok(vec![])), Err(GenerationError::InvalidInput));
    assert_eq!(seed_from_encoding(Ok(vec![4, 2])), Ok(vec![4, 2]));
}

#[test]
fn start_refuses_degenerate_runs() {
    assert!(matches!(
        Generation::start(vec![], String::new(), 3, 1),
        Err(GenerationError::InvalidInput)
    ));
    assert!(matches!(
        Generation::start(vec![1], "corsac".to_string(), 3, 0),
        Err(GenerationError::InvalidConfiguration)
    ));
    let tok = codec();
    assert!(matches!(
        Generation::begin(vec![], 3, 1, &tok),
        Err(GenerationError::InvalidInput)
    ));
}

#[test]
fn step_appends_one_token_and_its_text() {
    let tok = codec();
    let mut g = Generation::begin(vec![0, 1], 2, 1, &tok).unwrap();
    assert_eq!(g.text().as_str(), "the corsac");
    let t = g.advance(&index_zero_first(), &tok).unwrap();
    assert_eq!(t, 0);
    assert_eq!(g.tokens(), &vec![0, 1, 0]);
    assert_eq!(g.text().as_str(), "the corsacthe");
    g.record(2, " fox");
    assert_eq!(g.tokens().len(), 4);
    assert_eq!(g.text().as_str(), "the corsacthe fox");
    assert!(!g.needs_scores());
}

#[test]
fn failed_step_leaves_run_unchanged() {
    let tok = codec();
    let mut g = Generation::begin(vec![0], 1, 2, &tok).unwrap();
    assert_eq!(g.advance(&vec![], &tok), Err(GenerationError::InvalidConfiguration));
    assert_eq!(g.tokens(), &vec![0]);
    assert_eq!(g.text().as_str(), "the");
    assert!(g.needs_scores());
}

#[test]
fn scenario_greedy_run_appends_best_index() {
    let tok = codec();
    let mut g = Generation::begin(vec![10, 11, 12], 3, 1, &tok).unwrap();
    let mut calls = 0;
    while g.needs_scores() {
        calls += 1;
        g.advance(&index_zero_first(), &tok).unwrap();
    }
    assert_eq!(calls, 3);
    assert_eq!(g.tokens(), &vec![10, 11, 12, 0, 0, 0]);
    assert_eq!(g.into_text(), "known as simplythethethe");
}

#[test]
fn scenario_fixed_draw_picks_third_candidate() {
    let tok = codec();
    let mut g = Generation::begin(vec![5], 1, 3, &tok).unwrap();
    let scores = vec![1, 9, 5];
    assert_eq!(g.pick(&scores, 2), Ok(0));
    let mut calls = 0;
    while g.needs_scores() {
        calls += 1;
        assert_eq!(g.advance_drawn(&scores, 2, &tok), Ok(0));
    }
    assert_eq!(calls, 1);
    assert_eq!(g.tokens(), &vec![5, 0]);
    assert_eq!(g.text().as_str(), "mediumthe");
}

#[test]
fn scenario_zero_budget_returns_decoded_seed() {
    let tok = codec();
    let ids = seed("the corsac fox is found in", &tok).unwrap();
    let g = Generation::begin(ids.clone(), 0, 5, &tok).unwrap();
    assert!(!g.needs_scores());
    assert_eq!(g.tokens(), &ids);
    assert_eq!(g.into_text(), "the corsac fox is found in");
}

#[test]
fn encode_then_decode_round_trips() {
    let tok = codec();
    for text in ["fox", "the corsac fox", "a medium sized fox"] {
        let g = Generation::begin(seed(text, &tok).unwrap(), 0, 1, &tok).unwrap();
        assert_eq!(g.into_text(), text);
    }
}

#[test]
fn run_makes_exactly_budget_steps() {
    let tok = codec();
    for budget in 0..6usize {
        let mut g = Generation::begin(vec![1, 2], budget, 4, &tok).unwrap();
        let mut calls = 0;
        while g.needs_scores() {
            calls += 1;
            let before = g.tokens().len();
            g.advance(&index_zero_first(), &tok).unwrap();
            assert_eq!(g.tokens().len(), before + 1);
        }
        assert_eq!(calls, budget);
        assert_eq!(g.tokens().len(), 2 + budget);
        assert_eq!(&g.tokens()[..2], &[1, 2]);
        assert!(g.tokens()[2..].iter().all(|&t| t < 4));
    }
}

#[test]
fn finish_step_records_or_reports_decoding() {
    let mut g = Generation::start(vec![3], "is".to_string(), 2, 2).unwrap();
    assert_eq!(
        g.finish_step(4, Err("bad id".to_string())),
        Err(GenerationError::DecodingError("bad id".to_string()))
    );
    assert_eq!(g.tokens(), &vec![3]);
    assert_eq!(g.text().as_str(), "is");
    assert_eq!(g.finish_step(4, Ok(" a".to_string())), Ok(4));
    assert_eq!(g.tokens(), &vec![3, 4]);
    assert_eq!(g.text().as_str(), "is a");
    assert!(g.needs_scores());
}

#[test]
fn start_decoded_reports_decoding_failure() {
    assert!(matches!(
        Generation::start_decoded(vec![1, 2], Err("broken".to_string()), 3, 2),
        Err(GenerationError::DecodingError(msg)) if msg == "broken"
    ));
    let g = Generation::start_decoded(vec![1, 2], Ok("corsac fox".to_string()), 3, 2).unwrap();
    assert_eq!(g.tokens(), &vec![1, 2]);
    assert_eq!(g.top_k(), 2);
    assert_eq!(g.into_text(), "corsac fox");
    assert!(matches!(
        Generation::start_decoded(vec![], Err("broken".to_string()), 3, 2),
        Err(GenerationError::InvalidInput)
    ));
    assert!(matches!(
        Generation::start_decoded(vec![1], Err("broken".to_string()), 3, 0),
        Err(GenerationError::InvalidConfiguration)
    ));
}
