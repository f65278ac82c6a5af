//! The players of a game: whoever chooses the moves, and a random choice
//! among the legal ones.
use vstd::prelude::*;
use rand::rngs::StdRng;
use rand::seq::IteratorRandom;
use crate::game::BorderPatrol;

verus! {

/// Someone who plays: a person at the keyboard, or a program.
///
/// A game asks the player whose turn it is for a move and shows it the game
/// and the identifiers of the legal moves.  Nothing is taken on trust from
/// the answer: the move is tried like any other, and an answer that names
/// no legal move changes nothing.
pub trait Player {
    /// Called once before the first move.
    fn init(&mut self);

    /// The identifier of the move the player wants to make, or `None` if it
    /// makes none.  `legal` holds the identifiers of the legal moves of
    /// `border_patrol`, in ascending order.
    fn make_move(&self, border_patrol: &BorderPatrol, legal: &Vec<usize>) -> Option<usize>;
}

/// `rand::rngs::StdRng`, a generator of random numbers that can be started
/// from a seed.  Nothing is known of what is inside.
#[verifier::external_type_specification]
#[verifier::external_body]
pub struct ExStdRng(StdRng);

/// One of `moves`, picked by `rand::seq::IteratorRandom::choose` with the
/// generator `rng`.  The call gives `None` if and only if there is nothing to
/// pick from, and otherwise one of the items.  Which one depends on the
/// state of the generator, of which nothing is said here.
#[verifier::external_body]
fn pick_one(moves: &Vec<usize>, rng: &mut StdRng) -> (r: Option<usize>)
    ensures
        r is None <==> moves@.len() == 0,
        r matches Some(m) ==> moves@.contains(m),
{
    moves.iter().copied().choose(rng)
}

impl BorderPatrol {
    /// A legal move, picked at random with the generator `rng`; `None` if
    /// and only if there is no legal move, which is so once the game is over.
    pub fn random_action(&self, rng: &mut StdRng) -> (r: Option<usize>)
        ensures
            r is None <==> self@.legal_moves() == Set::<int>::empty(),
            r matches Some(id) ==> self@.legal_moves().contains(id as int),
            self@.wf(),
    {
        let moves: Vec<usize> = self.legal_moves();
        let picked: Option<usize> = pick_one(&moves, rng);
        proof {
            if moves@.len() > 0 {
                assert(self@.legal_moves().contains(moves[0] as int));
            } else {
                assert(self@.legal_moves() =~= Set::<int>::empty());
            }
        }
        picked
    }
}

} // verus!
