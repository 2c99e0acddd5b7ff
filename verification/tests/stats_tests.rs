use bingo_simulator::stats::{GameScore, RunStatistics};

fn game(final_score: f64, potential_max: f64) -> GameScore<f64> {
    GameScore { final_score, potential_max, won: final_score > 0.0 }
}

#[test]
fn new_statistics_are_empty() {
    let stats: RunStatistics<f64> = RunStatistics::new();
    assert_eq!(stats.total_games(), 0);
    assert_eq!(stats.total_wins(), 0);
    assert_eq!(stats.total_losses(), 0);
    assert_eq!(stats.weeks(), 0);
    assert!(stats.final_scores().is_empty());
    assert!(stats.potential_maxes().is_empty());
    assert!(stats.weekly_means().is_empty());
    assert!(stats.weekly_raw().is_empty());
}

#[test]
fn a_week_is_appended_to_every_list() {
    let mut stats = RunStatistics::new();
    stats.record_week(&vec![game(3.5, 12.5), game(0.0, 11.0), game(2.0, 9.0)], 5.5 / 3.0);
    assert_eq!(stats.total_games(), 3);
    assert_eq!(stats.total_wins(), 2);
    assert_eq!(stats.total_losses(), 1);
    assert_eq!(stats.weeks(), 1);
    assert_eq!(stats.final_scores(), &vec![3.5, 0.0, 2.0]);
    assert_eq!(stats.potential_maxes(), &vec![12.5, 11.0, 9.0]);
    assert_eq!(stats.weekly_means(), &vec![5.5 / 3.0]);
    assert_eq!(stats.weekly_raw(), &vec![vec![3.5, 0.0, 2.0]]);
}

#[test]
fn later_weeks_leave_earlier_ones_as_they_were() {
    let mut stats = RunStatistics::new();
    stats.record_week(&vec![game(1.0, 4.0), game(0.0, 3.0)], 0.5);
    stats.record_week(&vec![game(0.0, 8.0)], 0.0);
    stats.record_week(&vec![game(2.5, 6.0), game(4.0, 4.0)], 3.25);
    assert_eq!(stats.total_games(), 5);
    assert_eq!(stats.total_wins(), 3);
    assert_eq!(stats.total_losses(), 2);
    assert_eq!(stats.weeks(), 3);
    assert_eq!(stats.final_scores(), &vec![1.0, 0.0, 0.0, 2.5, 4.0]);
    assert_eq!(stats.potential_maxes(), &vec![4.0, 3.0, 8.0, 6.0, 4.0]);
    assert_eq!(stats.weekly_means(), &vec![0.5, 0.0, 3.25]);
    assert_eq!(stats.weekly_raw(), &vec![vec![1.0, 0.0], vec![0.0], vec![2.5, 4.0]]);
    let laid_end_to_end: Vec<f64> = stats.weekly_raw().iter().flatten().copied().collect();
    assert_eq!(&laid_end_to_end, stats.final_scores());
}

#[test]
fn an_empty_week_counts_as_a_week() {
    let mut stats: RunStatistics<f64> = RunStatistics::new();
    stats.record_week(&Vec::new(), 0.0);
    assert_eq!(stats.total_games(), 0);
    assert_eq!(stats.weeks(), 1);
    assert_eq!(stats.weekly_raw(), &vec![Vec::<f64>::new()]);
}

#[test]
fn won_is_taken_from_the_flag() {
    let mut stats = RunStatistics::new();
    stats.record_week(
        &vec![
            GameScore { final_score: 0u32, potential_max: 9, won: true },
            GameScore { final_score: 7, potential_max: 9, won: false },
        ],
        3,
    );
    assert_eq!(stats.total_wins(), 1);
    assert_eq!(stats.total_losses(), 1);
}

#[test]
fn counts_do_not_depend_on_the_order_of_games() {
    let games = vec![game(1.0, 2.0), game(0.0, 5.0), game(3.0, 3.0), game(0.0, 1.0), game(0.5, 6.0)];
    let mut shuffled = games.clone();
    shuffled.reverse();
    shuffled.swap(0, 2);
    let mut in_order = RunStatistics::new();
    in_order.record_week(&games, 0.9);
    let mut out_of_order = RunStatistics::new();
    out_of_order.record_week(&shuffled, 0.9);
    assert_eq!(in_order.total_games(), out_of_order.total_games());
    assert_eq!(in_order.total_wins(), out_of_order.total_wins());
    assert_eq!(in_order.total_losses(), out_of_order.total_losses());
    assert_eq!(in_order.total_wins(), 3);
}

#[test]
fn counts_do_not_depend_on_the_order_of_weeks() {
    let first = vec![game(1.0, 2.0), game(0.0, 5.0)];
    let second = vec![game(0.0, 3.0), game(0.0, 1.0), game(0.5, 6.0)];
    let mut one_way = RunStatistics::new();
    one_way.record_week(&first, 0.5);
    one_way.record_week(&second, 0.5 / 3.0);
    let mut other_way = RunStatistics::new();
    other_way.record_week(&second, 0.5 / 3.0);
    other_way.record_week(&first, 0.5);
    assert_eq!(one_way.total_games(), other_way.total_games());
    assert_eq!(one_way.total_wins(), other_way.total_wins());
    assert_eq!(one_way.total_losses(), other_way.total_losses());
    assert_eq!((one_way.total_games(), one_way.total_wins(), one_way.total_losses()), (5, 2, 3));
}
