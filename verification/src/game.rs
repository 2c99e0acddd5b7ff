//! One game: the board, the confirmation mask and the layout of the scores.
//!
//! A score is a sum of products `x * weight`. Which tile's `x` and which
//! slot of the weight table enter each product is decided here and handed
//! out as a list of [`ScoreTerm`]s; the caller does the arithmetic.

use crate::sampling::random_sample;
use crate::win::{cell, check_win, has_win, row_complete};
use rand::rngs::ThreadRng;
use std::collections::HashSet;
use vstd::multiset::lemma_multiset_empty_len;
use vstd::prelude::*;
use vstd::std_specs::iter::IteratorSpec;

verus! {

broadcast use vstd::std_specs::hash::group_hash_axioms;

/// Why a simulation cannot run on the tiles it was given.
#[derive(Debug, Clone, Copy, PartialEq, Eq, Structural)]
pub enum SimulationError {
    /// Fewer than 25 tiles: no board can be drawn.
    TooFewTiles,
    /// More tiles are to be confirmed than there are tiles.
    TooManyConfirmed,
}

/// One product of a score: the payout coefficient of tile `tile` times the
/// weight in slot `weight` of the weight table.
#[derive(Debug, Clone, Copy, PartialEq, Eq, Structural)]
pub struct ScoreTerm {
    pub tile: usize,
    pub weight: usize,
}

/// What one game came to.
#[derive(Debug, Clone, PartialEq, Eq)]
pub struct GameOutcome {
    /// The tile at each board position, as an index into the tile list.
    pub board: Vec<usize>,
    /// Which board positions are confirmed.
    pub mask: [bool; 25],
    /// Whether the mask holds a win.
    pub win: bool,
    /// The terms of the final score, in board order; none without a win.
    pub final_terms: Vec<ScoreTerm>,
    /// The terms of the potential maximum, in board order.
    pub potential_terms: Vec<ScoreTerm>,
}

/// `j` is the first place in `ids` that holds `id`.
pub open spec fn is_first_index(ids: Seq<String>, id: Seq<char>, j: int) -> bool {
    &&& 0 <= j < ids.len()
    &&& ids[j]@ == id
    &&& forall|k: int| 0 <= k < j ==> ids[k]@ != id
}

/// The first place in `ids` that holds `id`; arbitrary if none does.
pub open spec fn first_index_of(ids: Seq<String>, id: Seq<char>) -> int {
    choose|j: int| is_first_index(ids, id, j)
}

/// No identity occurs twice in `ids`.
pub open spec fn ids_unique(ids: Seq<String>) -> bool {
    forall|i: int, j: int| 0 <= i < j < ids.len() ==> ids[i]@ != ids[j]@
}

/// The weight slot of tile `i`: the first place that holds its identity.
pub open spec fn weight_slot(ids: Seq<String>, i: int) -> int {
    first_index_of(ids, ids[i]@)
}

/// A board can be evaluated against `n` tiles: 25 positions, each holding
/// the index of a tile.
pub open spec fn board_fits(board: Seq<usize>, n: nat) -> bool {
    &&& board.len() == 25
    &&& forall|p: int| 0 <= p < 25 ==> board[p] < n
}

/// A board drawn without replacement from `n` tiles.
pub open spec fn is_board(board: Seq<usize>, n: nat) -> bool {
    &&& board_fits(board, n)
    &&& board.no_duplicates()
}

/// The confirmation mask of a week: position `p` is confirmed exactly when
/// the index `p` is in the confirmed set. The tile that sits at `p` plays
/// no part.
pub open spec fn mask_of(confirmed: Set<usize>) -> Seq<bool> {
    Seq::new(25, |p: int| confirmed.contains(p as usize))
}

/// The term that board position `p` contributes.
pub open spec fn term_at(ids: Seq<String>, board: Seq<usize>, p: int) -> ScoreTerm {
    ScoreTerm { tile: board[p], weight: weight_slot(ids, board[p] as int) as usize }
}

/// The terms of the potential maximum: one per board position.
pub open spec fn potential_terms(ids: Seq<String>, board: Seq<usize>) -> Seq<ScoreTerm> {
    Seq::new(board.len(), |p: int| term_at(ids, board, p))
}

/// The terms at the confirmed positions among the first `n`, in order.
pub open spec fn confirmed_terms(terms: Seq<ScoreTerm>, mask: Seq<bool>, n: nat) -> Seq<ScoreTerm>
    decreases n,
{
    if n == 0 {
        Seq::empty()
    } else {
        let before = confirmed_terms(terms, mask, (n - 1) as nat);
        if mask[n - 1] {
            before.push(terms[n - 1])
        } else {
            before
        }
    }
}

/// The terms of the final score: those of the confirmed positions if the
/// mask holds a win, none otherwise.
pub open spec fn final_terms(ids: Seq<String>, board: Seq<usize>, mask: Seq<bool>) -> Seq<ScoreTerm> {
    if has_win(mask) {
        confirmed_terms(potential_terms(ids, board), mask, board.len())
    } else {
        Seq::empty()
    }
}

impl GameOutcome {
    /// This outcome is the one that `board` has in a week with the
    /// confirmed set `confirmed`, on the tiles `ids`.
    pub open spec fn describes(self, ids: Seq<String>, board: Seq<usize>, confirmed: Set<usize>) -> bool {
        &&& self.board@ == board
        &&& self.mask@ == mask_of(confirmed)
        &&& self.win == has_win(mask_of(confirmed))
        &&& self.final_terms@ == final_terms(ids, board, mask_of(confirmed))
        &&& self.potential_terms@ == potential_terms(ids, board)
    }

    /// This outcome is that of some board drawn without replacement from
    /// the tiles `ids`, in a week with the confirmed set `confirmed`.
    pub open spec fn played_on(self, ids: Seq<String>, confirmed: Set<usize>) -> bool {
        &&& is_board(self.board@, ids.len())
        &&& self.describes(ids, self.board@, confirmed)
    }
}

/// An identity has at most one first place.
pub proof fn lemma_first_index_unique(ids: Seq<String>, id: Seq<char>, j: int)
    requires
        is_first_index(ids, id, j),
    ensures
        first_index_of(ids, id) == j,
{
    let c = first_index_of(ids, id);
    assert(is_first_index(ids, id, c));
    if c < j {
        assert(ids[c]@ != id);
    } else if j < c {
        assert(ids[j]@ != id);
    }
}

/// Every tile has a weight slot, at or before its own place; where no
/// identity occurs twice the slot is the tile's own place.
pub proof fn lemma_weight_slot(ids: Seq<String>, i: int)
    requires
        0 <= i < ids.len(),
    ensures
        is_first_index(ids, ids[i]@, weight_slot(ids, i)),
        weight_slot(ids, i) <= i,
        ids_unique(ids) ==> weight_slot(ids, i) == i,
{
    lemma_has_first_index(ids, ids[i]@, i);
    let j = weight_slot(ids, i);
    if j > i {
        assert(ids[i]@ != ids[i]@);
    }
}

proof fn lemma_has_first_index(ids: Seq<String>, id: Seq<char>, i: int)
    requires
        0 <= i < ids.len(),
        ids[i]@ == id,
    ensures
        is_first_index(ids, id, first_index_of(ids, id)),
    decreases i,
{
    if forall|k: int| 0 <= k < i ==> ids[k]@ != id {
        assert(is_first_index(ids, id, i));
    } else {
        let k = choose|k: int| 0 <= k < i && ids[k]@ == id;
        lemma_has_first_index(ids, id, k);
    }
}

/// `value` is negative on no term.
pub open spec fn never_negative(value: spec_fn(ScoreTerm) -> int) -> bool {
    forall|t: ScoreTerm| #[trigger] value(t) >= 0
}

/// The sum of `value` over `terms`.
pub open spec fn total_of(terms: Seq<ScoreTerm>, value: spec_fn(ScoreTerm) -> int) -> int
    decreases terms.len(),
{
    if terms.len() == 0 {
        0
    } else {
        total_of(terms.drop_last(), value) + value(terms.last())
    }
}

/// The confirmed terms among the first `n` are drawn from the first `n`
/// terms, each at most as often as it stands there; they are all of them
/// if all of the first `n` positions are confirmed; and under a value that
/// is never negative they sum to no more.
pub proof fn lemma_confirmed_terms(
    terms: Seq<ScoreTerm>,
    mask: Seq<bool>,
    n: nat,
    value: spec_fn(ScoreTerm) -> int,
)
    requires
        n <= terms.len(),
        n <= mask.len(),
    ensures
        confirmed_terms(terms, mask, n).to_multiset().subset_of(terms.take(n as int).to_multiset()),
        (forall|p: int| 0 <= p < n ==> mask[p]) ==> confirmed_terms(terms, mask, n) == terms.take(
            n as int,
        ),
        never_negative(value) ==> total_of(confirmed_terms(terms, mask, n), value)
            <= total_of(terms.take(n as int), value),
    decreases n,
{
    if n == 0 {
        assert(terms.take(0) =~= Seq::<ScoreTerm>::empty());
    } else {
        let m = (n - 1) as nat;
        lemma_confirmed_terms(terms, mask, m, value);
        let before = confirmed_terms(terms, mask, m);
        assert(terms.take(n as int) =~= terms.take(m as int).push(terms[m as int]));
        assert(terms.take(n as int).drop_last() =~= terms.take(m as int));
        terms.take(m as int).to_multiset_ensures();
        before.to_multiset_ensures();
        if mask[m as int] {
            assert(before.push(terms[m as int]).drop_last() =~= before);
        }
    }
}

/// The number of confirmed positions among the first `n`.
pub open spec fn confirmed_among(mask: Seq<bool>, n: nat) -> nat
    decreases n,
{
    if n == 0 {
        0
    } else {
        confirmed_among(mask, (n - 1) as nat) + if mask[n - 1] {
            1nat
        } else {
            0nat
        }
    }
}

/// `value` gives every term the same worth.
pub open spec fn uniform(value: spec_fn(ScoreTerm) -> int, worth: int) -> bool {
    forall|t: ScoreTerm| #[trigger] value(t) == worth
}

/// A won game has one final term for each confirmed position, the free
/// centre among them if it is confirmed; so where every term is worth the
/// same, the final terms sum to that worth times the number of confirmed
/// positions.
pub proof fn lemma_uniform_final_total(
    ids: Seq<String>,
    board: Seq<usize>,
    mask: Seq<bool>,
    value: spec_fn(ScoreTerm) -> int,
    worth: int,
)
    requires
        board.len() == 25,
        mask.len() == 25,
        has_win(mask),
        uniform(value, worth),
    ensures
        final_terms(ids, board, mask).len() == confirmed_among(mask, 25),
        total_of(final_terms(ids, board, mask), value) == worth * confirmed_among(mask, 25),
{
    lemma_uniform_confirmed_total(potential_terms(ids, board), mask, 25, value, worth);
}

proof fn lemma_uniform_confirmed_total(
    terms: Seq<ScoreTerm>,
    mask: Seq<bool>,
    n: nat,
    value: spec_fn(ScoreTerm) -> int,
    worth: int,
)
    requires
        n <= terms.len(),
        n <= mask.len(),
        uniform(value, worth),
    ensures
        confirmed_terms(terms, mask, n).len() == confirmed_among(mask, n),
        total_of(confirmed_terms(terms, mask, n), value) == worth * confirmed_among(mask, n),
    decreases n,
{
    if n > 0 {
        let m = (n - 1) as nat;
        lemma_uniform_confirmed_total(terms, mask, m, value, worth);
        let before = confirmed_terms(terms, mask, m);
        if mask[m as int] {
            let now = before.push(terms[m as int]);
            assert(now.drop_last() =~= before);
            assert(value(now.last()) == worth);
            assert(worth * (confirmed_among(mask, m) + 1) == worth * confirmed_among(mask, m)
                + worth) by (nonlinear_arith);
        }
    } else {
        assert(worth * 0 == 0);
    }
}

/// The final score is made of terms of the potential maximum: every term
/// of the final score is a term of the potential maximum, at most as often;
/// with all 25 positions confirmed the two lists are the same; and under
/// a value that is never negative the final terms sum to no more than the
/// potential ones.
pub proof fn lemma_final_within_potential(
    ids: Seq<String>,
    board: Seq<usize>,
    mask: Seq<bool>,
    value: spec_fn(ScoreTerm) -> int,
)
    requires
        board.len() == 25,
        mask.len() == 25,
    ensures
        final_terms(ids, board, mask).to_multiset().subset_of(
            potential_terms(ids, board).to_multiset(),
        ),
        (forall|p: int| 0 <= p < 25 ==> mask[p]) ==> final_terms(ids, board, mask)
            == potential_terms(ids, board),
        never_negative(value) ==> 0 <= total_of(final_terms(ids, board, mask), value)
            <= total_of(potential_terms(ids, board), value),
{
    let terms = potential_terms(ids, board);
    lemma_confirmed_terms(terms, mask, 25, value);
    assert(terms.take(25) =~= terms);
    if forall|p: int| 0 <= p < 25 ==> mask[p] {
        assert(row_complete(mask, 0)) by {
            assert forall|c: int| 0 <= c < 5 implies cell(mask, 0, c) by {
                assert(mask[5 * 0 + c]);
            }
        }
        assert(has_win(mask));
    }
    if !has_win(mask) {
        let none = Seq::<ScoreTerm>::empty();
        none.to_multiset_ensures();
        lemma_multiset_empty_len(none.to_multiset());
    }
    if never_negative(value) {
        lemma_total_not_negative(final_terms(ids, board, mask), value);
        lemma_total_not_negative(terms, value);
    }
}

proof fn lemma_total_not_negative(terms: Seq<ScoreTerm>, value: spec_fn(ScoreTerm) -> int)
    requires
        never_negative(value),
    ensures
        total_of(terms, value) >= 0,
    decreases terms.len(),
{
    if terms.len() > 0 {
        lemma_total_not_negative(terms.drop_last(), value);
    }
}

/// Finds a tile by identity: the first place in `ids` that holds `id`.
pub fn find_tile(ids: &Vec<String>, id: &String) -> (found: Option<usize>)
    ensures
        match found {
            Some(j) => is_first_index(ids@, id@, j as int),
            None => forall|k: int| 0 <= k < ids@.len() ==> ids@[k]@ != id@,
        },
{
    let mut j: usize = 0;
    while j < ids.len()
        invariant
            j <= ids.len(),
            forall|k: int| 0 <= k < j ==> ids@[k]@ != id@,
        decreases ids.len() - j,
    {
        if ids[j] == *id {
            return Some(j);
        }
        j += 1;
    }
    None
}

/// Lists the indices of `set`, each once, in the order in which the set
/// hands them out.
pub fn indices_in_set_order(set: &HashSet<usize>) -> (listed: Vec<usize>)
    ensures
        listed@.no_duplicates(),
        listed@.to_set() == set@,
        listed@.len() == set@.len(),
{
    let mut listed: Vec<usize> = Vec::new();
    for x in it: set.iter()
        invariant
            listed@.len() == it.index(),
            forall|j: int| 0 <= j < listed@.len() ==> listed@[j] == *it.seq()[j],
            it.seq() == set.iter().remaining(),
    {
        listed.push(*x);
    }
    assert(listed@ =~= set.iter().remaining().unref());
    listed
}

/// Builds the confirmation mask of a week. Each index of the confirmed set
/// marks the board position of the same number: 12, the free centre, as
/// it stands, any other index if it is a board position at all.
pub fn confirmation_mask(confirmed_set: &HashSet<usize>) -> (mask: [bool; 25])
    ensures
        mask@ == mask_of(confirmed_set@),
{
    let mut mask = [false;25];
    for idx in it: confirmed_set.iter()
        invariant
            it.seq() == confirmed_set.iter().remaining(),
            forall|p: int| 0 <= p < 25 ==> (mask@[p] <==> exists|j: int| 0 <= j < it.index() && *it.seq()[j] == p),
    {
        let ghost before = mask@;
        let ghost now = it.index();
        if *idx == 12 {
            mask[*idx] = true;
        } else if *idx < 25 {
            mask[*idx] = true;
        }
        assert forall|p: int| 0 <= p < 25 implies (mask@[p] <==> exists|j: int| 0 <= j < now + 1 && *it.seq()[j] == p) by {
            if mask@[p] {
                if before[p] {
                    let j = choose|j: int| 0 <= j < now && *it.seq()[j] == p;
                    assert(0 <= j < now + 1 && *it.seq()[j] == p);
                } else {
                    assert(*it.seq()[now] == p);
                }
            } else {
                assert(!before[p]);
            }
        }
    }
    proof {
        let listed = confirmed_set.iter().remaining().unref();
        assert forall|p: int| 0 <= p < 25 implies mask@[p] == mask_of(confirmed_set@)[p] by {
            if mask@[p] {
                let j = choose|j: int| 0 <= j < listed.len() && *confirmed_set.iter().remaining()[j] == p;
                assert(listed[j] == p as usize);
                assert(listed.to_set().contains(p as usize));
            }
            if confirmed_set@.contains(p as usize) {
                assert(listed.to_set().contains(p as usize));
                let j = choose|j: int| 0 <= j < listed.len() && listed[j] == p as usize;
                assert(*confirmed_set.iter().remaining()[j] == p);
            }
        }
        assert(mask@ =~= mask_of(confirmed_set@));
    }
    mask
}

/// Evaluates a board in a week with the given confirmed set: the mask,
/// the win, and the terms of both scores. The weight slot of each tile is
/// found by its identity.
pub fn evaluate_board(ids: &Vec<String>, board: Vec<usize>, confirmed_set: &HashSet<usize>) -> (game:
    GameOutcome)
    requires
        board_fits(board@, ids@.len()),
    ensures
        game.describes(ids@, board@, confirmed_set@),
{
    let mask = confirmation_mask(confirmed_set);
    let win = check_win(&mask);
    let mut potential: Vec<ScoreTerm> = Vec::new();
    let mut scored: Vec<ScoreTerm> = Vec::new();
    let mut p: usize = 0;
    while p < 25
        invariant
            p <= 25,
            board_fits(board@, ids@.len()),
            mask@.len() == 25,
            potential@ =~= potential_terms(ids@, board@).take(p as int),
            win ==> scored@ == confirmed_terms(potential_terms(ids@, board@), mask@, p as nat),
            !win ==> scored@ == Seq::<ScoreTerm>::empty(),
        decreases 25 - p,
    {
        let tile = board[p];
        proof {
            lemma_weight_slot(ids@, tile as int);
        }
        let term = match find_tile(ids, &ids[tile]) {
            Some(slot) => {
                proof {
                    lemma_first_index_unique(ids@, ids@[tile as int]@, slot as int);
                }
                ScoreTerm { tile, weight: slot }
            },
            None => unreached(),
        };
        assert(term == potential_terms(ids@, board@)[p as int]);
        potential.push(term);
        if win && mask[p] {
            scored.push(term);
        }
        p += 1;
    }
    assert(potential@ =~= potential_terms(ids@, board@));
    GameOutcome { board, mask, win, final_terms: scored, potential_terms: potential }
}

/// Plays one game: draws a board of 25 distinct tiles and evaluates it.
/// Fails, before anything is drawn, exactly when there are fewer than 25
/// tiles.
pub fn simulate_game(rng: &mut ThreadRng, ids: &Vec<String>, confirmed_set: &HashSet<usize>) -> (played:
    Result<GameOutcome, SimulationError>)
    ensures
        played is Err <==> ids@.len() < 25,
        played matches Err(e) ==> e == SimulationError::TooFewTiles,
        played matches Ok(game) ==> game.played_on(ids@, confirmed_set@),
{
    if ids.len() < 25 {
        return Err(SimulationError::TooFewTiles);
    }
    let board_indices = random_sample(rng, 25, ids.len());
    let board = indices_in_set_order(&board_indices);
    assert forall|p: int| 0 <= p < 25 implies board@[p] < ids@.len() by {
        assert(board@.to_set().contains(board@[p]));
    }
    Ok(evaluate_board(ids, board, confirmed_set))
}

} // verus!
