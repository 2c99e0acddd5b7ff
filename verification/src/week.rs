//! One week: how many games, which tiles are confirmed, the games
//! themselves, and the rule by which each weight is set anew afterwards.

use crate::game::{simulate_game, GameOutcome, SimulationError};
use crate::sampling::{draw_in_range, is_sample, random_sample};
use rand::rngs::ThreadRng;
use rayon::iter::{IntoParallelIterator, ParallelIterator};
use std::collections::HashSet;
use vstd::prelude::*;

verus! {

broadcast use vstd::std_specs::hash::group_hash_axioms;

/// Fewest games in a week.
pub const MIN_GAMES: usize = 5;

/// Most games in a week.
pub const MAX_GAMES: usize = 50;

/// Fewest confirmed tiles in a week.
pub const MIN_CONFIRMED: usize = 20;

/// Most confirmed tiles in a week.
pub const MAX_CONFIRMED: usize = 50;

/// How a tile's weight is set anew after a week. Either rule starts from
/// the tile's fixed baseline, never from the weight of the week before.
#[derive(Debug, Clone, Copy, PartialEq, Eq, Structural)]
pub enum WeightRule {
    /// Confirmed this week: baseline times the grow factor, at most 1.
    Grow,
    /// Not confirmed this week: baseline times the shrink factor, at
    /// least 0.
    Shrink,
}

/// The size of a week, as drawn.
#[derive(Debug, Clone, Copy, PartialEq, Eq, Structural)]
pub struct WeekPlan {
    pub games_this_week: usize,
    pub confirmed_count: usize,
}

/// What one week came to.
#[derive(Debug)]
pub struct WeekOutcome {
    /// The number of games played.
    pub games_this_week: usize,
    /// The number of confirmed tiles.
    pub confirmed_count: usize,
    /// The confirmed tiles, as indices into the tile list.
    pub confirmed_set: HashSet<usize>,
    /// The games, in no particular order.
    pub games: Vec<GameOutcome>,
    /// The rule for each tile's weight, by index into the tile list.
    pub rules: Vec<WeightRule>,
}

/// The rule for tile `i` after a week with the confirmed set `confirmed`.
pub open spec fn rule_for(confirmed: Set<usize>, i: int) -> WeightRule {
    if confirmed.contains(i as usize) {
        WeightRule::Grow
    } else {
        WeightRule::Shrink
    }
}

/// The rules for `n` tiles after a week with the confirmed set `confirmed`.
pub open spec fn rules_after(n: nat, confirmed: Set<usize>) -> Seq<WeightRule> {
    Seq::new(n, |i: int| rule_for(confirmed, i))
}

/// What [`plan_week`] answers for `n` tiles and the two draws.
pub open spec fn planned(n: nat, games_draw: usize, confirmed_draw: usize) -> Result<
    WeekPlan,
    SimulationError,
> {
    if n < 25 {
        Err(SimulationError::TooFewTiles)
    } else if confirmed_draw > n {
        Err(SimulationError::TooManyConfirmed)
    } else {
        Ok(WeekPlan { games_this_week: games_draw, confirmed_count: confirmed_draw })
    }
}

impl WeekOutcome {
    /// This outcome is that of a week on the tiles `ids`.
    pub open spec fn played_on(self, ids: Seq<String>) -> bool {
        &&& MIN_GAMES <= self.games_this_week <= MAX_GAMES
        &&& MIN_CONFIRMED <= self.confirmed_count <= MAX_CONFIRMED
        &&& is_sample(self.confirmed_set@, self.confirmed_count as nat, ids.len())
        &&& self.games@.len() == self.games_this_week
        &&& forall|g: int|
            0 <= g < self.games@.len() ==> (#[trigger] self.games@[g]).played_on(
                ids,
                self.confirmed_set@,
            )
        &&& self.rules@ == rules_after(ids.len(), self.confirmed_set@)
    }
}

/// Calls `rand::rng`, which hands out the calling thread's generator.
#[verifier::external_body]
pub(crate) fn thread_rng() -> ThreadRng {
    rand::rng()
}

/// Runs `games` games on rayon's thread pool: `into_par_iter` on the range
/// `0..games`, `map` with one call of [`simulate_game_on_thread`] per
/// index, `collect` into a vector. Trusted: the vector holds one outcome
/// per index, and each is what such a call returned.
#[verifier::external_body]
pub(crate) fn play_games(games: usize, ids: &Vec<String>, confirmed_set: &HashSet<usize>) -> (played:
    Vec<GameOutcome>)
    requires
        ids@.len() >= 25,
    ensures
        played@.len() == games,
        forall|g: int|
            0 <= g < played@.len() ==> (#[trigger] played@[g]).played_on(ids@, confirmed_set@),
{
    (0..games).into_par_iter().map(|_| simulate_game_on_thread(ids, confirmed_set)).collect()
}

/// Plays one game with the calling thread's own generator.
pub fn simulate_game_on_thread(ids: &Vec<String>, confirmed_set: &HashSet<usize>) -> (game:
    GameOutcome)
    requires
        ids@.len() >= 25,
    ensures
        game.played_on(ids@, confirmed_set@),
{
    let mut rng = thread_rng();
    match simulate_game(&mut rng, ids, confirmed_set) {
        Ok(game) => game,
        Err(_) => unreached(),
    }
}

/// Decides, from the number of tiles and the two draws of a week, whether
/// the week can be played: not with fewer than 25 tiles, and not with more
/// tiles to confirm than there are.
pub fn plan_week(n_tiles: usize, games_draw: usize, confirmed_draw: usize) -> (plan: Result<
    WeekPlan,
    SimulationError,
>)
    ensures
        plan == planned(n_tiles as nat, games_draw, confirmed_draw),
{
    if n_tiles < 25 {
        Err(SimulationError::TooFewTiles)
    } else if confirmed_draw > n_tiles {
        Err(SimulationError::TooManyConfirmed)
    } else {
        Ok(WeekPlan { games_this_week: games_draw, confirmed_count: confirmed_draw })
    }
}

/// Gives each of `n_tiles` tiles its rule: grow if its index is in the
/// confirmed set, shrink if not.
pub fn weight_rules(n_tiles: usize, confirmed_set: &HashSet<usize>) -> (rules: Vec<WeightRule>)
    ensures
        rules@ == rules_after(n_tiles as nat, confirmed_set@),
{
    let mut rules: Vec<WeightRule> = Vec::new();
    let mut idx: usize = 0;
    while idx < n_tiles
        invariant
            idx <= n_tiles,
            rules@ =~= rules_after(idx as nat, confirmed_set@),
        decreases n_tiles - idx,
    {
        if confirmed_set.contains(&idx) {
            rules.push(WeightRule::Grow);
        } else {
            rules.push(WeightRule::Shrink);
        }
        idx += 1;
    }
    rules
}

/// Plays one week. Draws the number of games from 5 to 50, then the
/// number of confirmed tiles from 20 to 50, then the confirmed set; plays
/// the games, each on the same tiles and confirmed set and with a
/// generator of its own; and gives each tile its rule for the weights of
/// the week after.
///
/// Fails before any draw with fewer than 25 tiles, and before any game if
/// more tiles were to be confirmed than there are. With 50 tiles or more
/// it succeeds.
pub fn simulate_week(rng: &mut ThreadRng, ids: &Vec<String>) -> (week: Result<
    WeekOutcome,
    SimulationError,
>)
    ensures
        ids@.len() < 25 ==> week == Err::<WeekOutcome, SimulationError>(SimulationError::TooFewTiles),
        ids@.len() >= MAX_CONFIRMED ==> week is Ok,
        week matches Err(e) ==> ids@.len() < MAX_CONFIRMED && (e == SimulationError::TooFewTiles
            <==> ids@.len() < 25),
        week matches Ok(w) ==> w.played_on(ids@),
{
    if ids.len() < 25 {
        return Err(SimulationError::TooFewTiles);
    }
    let games_draw = draw_in_range(rng, MIN_GAMES, MAX_GAMES);
    let confirmed_draw = draw_in_range(rng, MIN_CONFIRMED, MAX_CONFIRMED);
    match plan_week(ids.len(), games_draw, confirmed_draw) {
        Err(e) => Err(e),
        Ok(plan) => {
            let confirmed_set = random_sample(rng, plan.confirmed_count, ids.len());
            let games = play_games(plan.games_this_week, ids, &confirmed_set);
            let rules = weight_rules(ids.len(), &confirmed_set);
            Ok(
                WeekOutcome {
                    games_this_week: plan.games_this_week,
                    confirmed_count: plan.confirmed_count,
                    confirmed_set,
                    games,
                    rules,
                },
            )
        },
    }
}

} // verus!
