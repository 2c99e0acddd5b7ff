//! The tallies of a run: every score that was recorded, week by week, and
//! the counts of games, wins and losses.
//!
//! Scores are kept as they are handed in and never computed with, so the
//! type of a score is left to the caller.

use vstd::prelude::*;

verus! {

/// The scores of one game, and whether it counts as won.
#[derive(Debug, Clone, Copy, PartialEq)]
pub struct GameScore<S> {
    pub final_score: S,
    pub potential_max: S,
    pub won: bool,
}

/// The number of games in `games` that count as won.
pub open spec fn wins_in<S>(games: Seq<GameScore<S>>) -> nat
    decreases games.len(),
{
    if games.len() == 0 {
        0
    } else {
        wins_in(games.drop_last()) + if games.last().won {
            1nat
        } else {
            0nat
        }
    }
}

/// The final scores of `games`, in order.
pub open spec fn final_scores_of<S>(games: Seq<GameScore<S>>) -> Seq<S> {
    Seq::new(games.len(), |g: int| games[g].final_score)
}

/// The potential maxima of `games`, in order.
pub open spec fn potential_maxes_of<S>(games: Seq<GameScore<S>>) -> Seq<S> {
    Seq::new(games.len(), |g: int| games[g].potential_max)
}

/// What a run's statistics hold.
#[verifier::ext_equal]
pub struct StatisticsView<S> {
    /// The number of games won.
    pub total_wins: nat,
    /// The final score of every game, in the order of recording.
    pub final_scores: Seq<S>,
    /// The potential maximum of every game, in the same order.
    pub potential_maxes: Seq<S>,
    /// The mean final score of every week.
    pub weekly_means: Seq<S>,
    /// The final scores of every week.
    pub weekly_raw: Seq<Seq<S>>,
}

impl<S> StatisticsView<S> {
    /// Nothing recorded yet.
    pub open spec fn empty() -> Self {
        StatisticsView {
            total_wins: 0,
            final_scores: Seq::empty(),
            potential_maxes: Seq::empty(),
            weekly_means: Seq::empty(),
            weekly_raw: Seq::empty(),
        }
    }

    /// The number of games recorded.
    pub open spec fn total_games(self) -> nat {
        self.final_scores.len()
    }

    /// The number of games lost.
    pub open spec fn total_losses(self) -> int {
        self.total_games() - self.total_wins
    }

    /// The number of weeks recorded.
    pub open spec fn weeks(self) -> nat {
        self.weekly_raw.len()
    }

    /// The statistics after one more week: every list grows at its end,
    /// nothing recorded before changes.
    pub open spec fn record_week(self, week: Seq<GameScore<S>>, mean: S) -> Self {
        StatisticsView {
            total_wins: self.total_wins + wins_in(week),
            final_scores: self.final_scores + final_scores_of(week),
            potential_maxes: self.potential_maxes + potential_maxes_of(week),
            weekly_means: self.weekly_means.push(mean),
            weekly_raw: self.weekly_raw.push(final_scores_of(week)),
        }
    }

    /// The lists and counts agree: one potential maximum per final score,
    /// no more wins than games, one mean per week, and the weeks' scores,
    /// laid end to end, are the run's final scores.
    pub open spec fn consistent(self) -> bool {
        &&& self.potential_maxes.len() == self.final_scores.len()
        &&& self.total_wins <= self.final_scores.len()
        &&& self.weekly_means.len() == self.weekly_raw.len()
        &&& self.weekly_raw.flatten() == self.final_scores
    }
}

/// The statistics of a run. They only ever grow: [`RunStatistics::record_week`]
/// is the one way to change them. At all times they are consistent in the
/// sense of [`StatisticsView::consistent`].
pub struct RunStatistics<S> {
    total_wins: usize,
    final_scores: Vec<S>,
    potential_maxes: Vec<S>,
    weekly_means: Vec<S>,
    weekly_raw: Vec<Vec<S>>,
}

impl<S> View for RunStatistics<S> {
    type V = StatisticsView<S>;

    closed spec fn view(&self) -> StatisticsView<S> {
        StatisticsView {
            total_wins: self.total_wins as nat,
            final_scores: self.final_scores@,
            potential_maxes: self.potential_maxes@,
            weekly_means: self.weekly_means@,
            weekly_raw: Seq::new(self.weekly_raw@.len(), |w: int| self.weekly_raw@[w]@),
        }
    }
}

impl<S> RunStatistics<S> {
    #[verifier::type_invariant]
    spec fn well_formed(self) -> bool {
        self@.consistent()
    }
}

impl<S: Copy> RunStatistics<S> {
    /// Statistics with nothing recorded.
    pub fn new() -> (stats: Self)
        ensures
            stats@ == StatisticsView::<S>::empty(),
    {
        let stats = RunStatistics {
            total_wins: 0,
            final_scores: Vec::new(),
            potential_maxes: Vec::new(),
            weekly_means: Vec::new(),
            weekly_raw: Vec::new(),
        };
        assert(stats@ =~= StatisticsView::<S>::empty());
        assert(stats@.weekly_raw.flatten() =~= Seq::<S>::empty());
        stats
    }

    /// Records one week: its games, in the order given, and its mean final
    /// score. Every list grows at its end; nothing recorded before is
    /// changed or dropped.
    pub fn record_week(&mut self, week: &Vec<GameScore<S>>, mean: S)
        ensures
            final(self)@ == old(self)@.record_week(week@, mean),
    {
        proof {
            use_type_invariant(&*self);
        }
        let mut taken = RunStatistics::new();
        std::mem::swap(self, &mut taken);
        let RunStatistics {
            total_wins,
            final_scores,
            potential_maxes,
            weekly_means,
            weekly_raw,
        } = taken;
        let ghost before = taken@;
        let mut final_scores = final_scores;
        let mut potential_maxes = potential_maxes;
        let mut weekly_means = weekly_means;
        let mut weekly_raw = weekly_raw;
        let mut raw: Vec<S> = Vec::new();
        let mut week_wins: usize = 0;
        let mut g: usize = 0;
        while g < week.len()
            invariant
                g <= week.len(),
                raw@ =~= final_scores_of(week@.take(g as int)),
                final_scores@ =~= before.final_scores + final_scores_of(week@.take(g as int)),
                potential_maxes@ =~= before.potential_maxes + potential_maxes_of(
                    week@.take(g as int),
                ),
                week_wins == wins_in(week@.take(g as int)),
            decreases week.len() - g,
        {
            proof {
                assert(week@.take(g + 1).drop_last() =~= week@.take(g as int));
                lemma_wins_bounded(week@.take(g as int));
            }
            let game = &week[g];
            raw.push(game.final_score);
            final_scores.push(game.final_score);
            potential_maxes.push(game.potential_max);
            if game.won {
                week_wins += 1;
            }
            g += 1;
        }
        proof {
            assert(week@.take(week@.len() as int) =~= week@);
            lemma_wins_bounded(week@);
            assert(final_scores@.len() == final_scores.len());
        }
        let total_wins = total_wins + week_wins;
        weekly_means.push(mean);
        weekly_raw.push(raw);
        proof {
            lemma_record_week_consistent(before, week@, mean);
            let after = StatisticsView {
                total_wins: total_wins as nat,
                final_scores: final_scores@,
                potential_maxes: potential_maxes@,
                weekly_means: weekly_means@,
                weekly_raw: Seq::new(weekly_raw@.len(), |w: int| weekly_raw@[w]@),
            };
            assert(after.weekly_raw =~= before.weekly_raw.push(final_scores_of(week@)));
            assert(after =~= before.record_week(week@, mean));
        }
        let updated = RunStatistics {
            total_wins,
            final_scores,
            potential_maxes,
            weekly_means,
            weekly_raw,
        };
        assert(updated@ =~= before.record_week(week@, mean));
        *self = updated;
    }

    /// The number of games recorded.
    pub fn total_games(&self) -> (games: usize)
        ensures
            games == self@.total_games(),
    {
        self.final_scores.len()
    }

    /// The number of games won.
    pub fn total_wins(&self) -> (wins: usize)
        ensures
            wins == self@.total_wins,
    {
        self.total_wins
    }

    /// The number of games lost: those that were not won.
    pub fn total_losses(&self) -> (losses: usize)
        ensures
            losses == self@.total_losses(),
    {
        proof {
            use_type_invariant(self);
        }
        self.final_scores.len() - self.total_wins
    }

    /// The number of weeks recorded.
    pub fn weeks(&self) -> (weeks: usize)
        ensures
            weeks == self@.weeks(),
    {
        self.weekly_raw.len()
    }

    /// The final score of every game, in the order of recording.
    pub fn final_scores(&self) -> (scores: &Vec<S>)
        ensures
            scores@ == self@.final_scores,
    {
        &self.final_scores
    }

    /// The potential maximum of every game, in the order of recording.
    pub fn potential_maxes(&self) -> (scores: &Vec<S>)
        ensures
            scores@ == self@.potential_maxes,
    {
        &self.potential_maxes
    }

    /// The mean final score of every week.
    pub fn weekly_means(&self) -> (means: &Vec<S>)
        ensures
            means@ == self@.weekly_means,
    {
        &self.weekly_means
    }

    /// The final scores of every week.
    pub fn weekly_raw(&self) -> (weeks: &Vec<Vec<S>>)
        ensures
            weeks@.len() == self@.weekly_raw.len(),
            forall|w: int| 0 <= w < weeks@.len() ==> weeks@[w]@ == self@.weekly_raw[w],
    {
        &self.weekly_raw
    }
}

/// No more games are won than are played.
pub proof fn lemma_wins_bounded<S>(games: Seq<GameScore<S>>)
    ensures
        wins_in(games) <= games.len(),
    decreases games.len(),
{
    if games.len() > 0 {
        lemma_wins_bounded(games.drop_last());
    }
}

/// Taking one game out takes out one win if it was won, none if not.
pub proof fn lemma_wins_remove<S>(games: Seq<GameScore<S>>, i: int)
    requires
        0 <= i < games.len(),
    ensures
        wins_in(games) == wins_in(games.remove(i)) + if games[i].won {
            1nat
        } else {
            0nat
        },
    decreases games.len(),
{
    if i == games.len() - 1 {
        assert(games.remove(i) =~= games.drop_last());
    } else {
        lemma_wins_remove(games.drop_last(), i);
        assert(games.remove(i).drop_last() =~= games.drop_last().remove(i));
        assert(games.remove(i).last() == games.last());
    }
}

/// The count of wins does not depend on the order of the games: two lists
/// that hold the same games, each as often, hold as many games and as many
/// wins.
pub proof fn lemma_wins_order_independent<S>(a: Seq<GameScore<S>>, b: Seq<GameScore<S>>)
    requires
        a.to_multiset() == b.to_multiset(),
    ensures
        a.len() == b.len(),
        wins_in(a) == wins_in(b),
    decreases a.len(),
{
    a.to_multiset_ensures();
    b.to_multiset_ensures();
    if a.len() == 0 {
        assert(b.len() == 0);
    } else {
        let last = a.last();
        assert(a.to_multiset().count(last) > 0) by {
            assert(a.contains(last));
        }
        assert(b.contains(last));
        let i = choose|i: int| 0 <= i < b.len() && b[i] == last;
        assert(a.drop_last() =~= a.remove(a.len() - 1));
        lemma_wins_order_independent(a.drop_last(), b.remove(i));
        lemma_wins_remove(b, i);
    }
}

/// Recording a week keeps the statistics consistent.
pub proof fn lemma_record_week_consistent<S>(before: StatisticsView<S>, week: Seq<GameScore<S>>, mean: S)
    requires
        before.consistent(),
    ensures
        before.record_week(week, mean).consistent(),
        StatisticsView::<S>::empty().consistent(),
{
    lemma_wins_bounded(week);
    before.weekly_raw.lemma_flatten_push(final_scores_of(week));
}

/// The counts after a week do not depend on the order in which its games
/// are recorded, and the counts after two weeks do not depend on which
/// week was recorded first.
pub proof fn lemma_counts_order_independent<S>(
    before: StatisticsView<S>,
    a: Seq<GameScore<S>>,
    b: Seq<GameScore<S>>,
    mean_a: S,
    mean_b: S,
)
    ensures
        a.to_multiset() == b.to_multiset() ==> {
            &&& before.record_week(a, mean_a).total_games() == before.record_week(b, mean_a).total_games()
            &&& before.record_week(a, mean_a).total_wins == before.record_week(b, mean_a).total_wins
            &&& before.record_week(a, mean_a).total_losses() == before.record_week(b, mean_a).total_losses()
        },
        before.record_week(a, mean_a).record_week(b, mean_b).total_games() == before.record_week(
            b,
            mean_b,
        ).record_week(a, mean_a).total_games(),
        before.record_week(a, mean_a).record_week(b, mean_b).total_wins == before.record_week(
            b,
            mean_b,
        ).record_week(a, mean_a).total_wins,
        before.record_week(a, mean_a).record_week(b, mean_b).total_losses() == before.record_week(
            b,
            mean_b,
        ).record_week(a, mean_a).total_losses(),
{
    if a.to_multiset() == b.to_multiset() {
        lemma_wins_order_independent(a, b);
    }
}

} // verus!
