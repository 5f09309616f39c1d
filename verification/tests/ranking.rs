use rdx_core::model::{default_candidate_goods_k, goods_roster_ok, PairingMode};
use rdx_core::trade::{candidate_goods_pruned, default_oracle, ordered_pair_evaluable};

#[test]
fn default_pairing_mode_is_against_base() {
    assert_eq!(PairingMode::default(), PairingMode::AgainstBase);
}

#[test]
fn default_candidate_goods_k_is_twelve() {
    assert_eq!(default_candidate_goods_k(), 12);
}

#[test]
fn goods_roster_accepts_matching_count() {
    let goods = vec![String::from("care"), String::from("repair"), String::from("tutoring")];
    assert!(goods_roster_ok(&goods, 3));
}

#[test]
fn goods_roster_rejects_mismatched_count() {
    let goods = vec![String::from("care"), String::from("repair")];
    assert!(!goods_roster_ok(&goods, 3));
}

#[test]
fn goods_roster_rejects_fewer_than_two_goods() {
    let goods = vec![String::from("care")];
    assert!(!goods_roster_ok(&goods, 1));
    let empty: Vec<String> = Vec::new();
    assert!(!goods_roster_ok(&empty, 0));
}

#[test]
fn default_oracle_is_available() {
    let _oracle = default_oracle();
}

#[test]
fn pair_evaluability_rejects_degenerate_pairs() {
    assert!(ordered_pair_evaluable(4, 4, 1, 3));
    assert!(ordered_pair_evaluable(4, 4, 3, 1));
    // Same good twice.
    assert!(!ordered_pair_evaluable(4, 4, 2, 2));
    // Out-of-range good index.
    assert!(!ordered_pair_evaluable(4, 4, 1, 4));
    assert!(!ordered_pair_evaluable(4, 4, 4, 1));
    // Holdings-length mismatch between the two agents.
    assert!(!ordered_pair_evaluable(4, 5, 1, 3));
}

#[test]
fn pruned_candidates_rank_by_descending_score() {
    // Goods 1..=4 score 9, 9, 1, 7; good 0 is the numeraire.
    let scores: Vec<u64> = vec![5, 9, 9, 1, 7];
    let cands = candidate_goods_pruned(&scores, 0, 3);
    assert_eq!(cands, vec![1, 2, 4]);
}

#[test]
fn pruned_candidates_keep_all_goods_when_k_is_large() {
    let scores: Vec<u64> = vec![5, 9, 9, 1, 7];
    let cands = candidate_goods_pruned(&scores, 0, 10);
    assert_eq!(cands, vec![1, 2, 4, 3]);
}

#[test]
fn pruned_candidates_length_is_min_of_k_and_goods_minus_one() {
    let scores: Vec<u64> = vec![3, 1, 4, 1, 5, 9, 2, 6];
    for k in 0..12 {
        let cands = candidate_goods_pruned(&scores, 2, k);
        assert_eq!(cands.len(), k.min(scores.len() - 1));
    }
}

#[test]
fn pruned_candidates_never_contain_the_numeraire_or_duplicates() {
    let scores: Vec<u64> = vec![7, 7, 7, 7, 7, 7];
    for base in 0..scores.len() {
        let cands = candidate_goods_pruned(&scores, base, scores.len());
        assert_eq!(cands.len(), scores.len() - 1);
        for (m, g) in cands.iter().enumerate() {
            assert_ne!(*g, base);
            assert!(*g < scores.len());
            for h in cands.iter().skip(m + 1) {
                assert_ne!(*g, *h);
            }
        }
    }
}

#[test]
fn pruned_candidates_break_ties_by_good_index() {
    // All scores equal: the ranking must list goods in index order.
    let scores: Vec<u64> = vec![2, 2, 2, 2, 2];
    let cands = candidate_goods_pruned(&scores, 1, 4);
    assert_eq!(cands, vec![0, 2, 3, 4]);
}

#[test]
fn pruned_candidates_with_the_smallest_roster() {
    // Two goods: the only non-numeraire good is the whole candidate list.
    let scores: Vec<u64> = vec![4, 2];
    assert_eq!(candidate_goods_pruned(&scores, 0, 12), vec![1]);
    assert_eq!(candidate_goods_pruned(&scores, 1, 12), vec![0]);
}

#[test]
fn pruned_candidates_middle_numeraire() {
    let scores: Vec<u64> = vec![1, 8, 3, 8, 2];
    let cands = candidate_goods_pruned(&scores, 3, 2);
    // Good 3 is the numeraire; good 1 scores 8, then good 2 scores 3.
    assert_eq!(cands, vec![1, 2]);
}
