//! The decision worker: it takes snapshots of the match and answers each
//! with an action, tagged with the turn of the snapshot.
use vstd::prelude::*;
use crate::game::{Action, GameState, PlayerBehaviour};

verus! {

/// The answer of a worker to one snapshot: none to a finished match; else
/// the action that `behaviour` chooses, tagged with the turn of the
/// snapshot.
pub fn respond<B: PlayerBehaviour>(behaviour: &mut B, snapshot: &GameState) -> (response: Option<
    (usize, Action),
>)
    requires
        snapshot.wf(),
    ensures
        response is None <==> snapshot@.is_over(),
        response is None ==> *final(behaviour) == *old(behaviour),
        response matches Some(tagged) ==> tagged.0 == snapshot.turn && old(behaviour).chooses(
            snapshot@,
            tagged.1,
            final(behaviour),
        ),
{
    if snapshot.is_over() {
        None
    } else {
        let action = behaviour.act(snapshot);
        Some((snapshot.turn, action))
    }
}

/// A worker: the strategy of one player, the answers that it has given and
/// that were not yet taken, and whether it has seen the end of the match.
///
/// It answers every snapshot of a running match with one response, in the
/// order in which the snapshots came. Once it has seen a finished match it
/// has ended: it answers no more.
pub struct Behaviour<B: PlayerBehaviour> {
    pub behaviour: B,
    pub responses: Vec<(usize, Action)>,
    pub ended: bool,
}

impl<B: PlayerBehaviour> Behaviour<B> {
    /// A worker that plays by `behaviour`, and has not answered yet.
    pub fn make(behaviour: B) -> (r: Self)
        ensures
            r.behaviour == behaviour,
            r.responses@ == Seq::<(usize, Action)>::empty(),
            !r.ended,
    {
        Behaviour { behaviour, responses: Vec::new(), ended: false }
    }

    /// Hands the worker a snapshot of the match. A worker that has ended
    /// ignores it; the snapshot of a finished match ends the worker; and to
    /// any other the worker adds its response.
    pub fn send_state(&mut self, game: &GameState)
        requires
            game.wf(),
        ensures
            final(self).ended == (old(self).ended || game@.is_over()),
            final(self).ended ==> {
                &&& final(self).responses@ == old(self).responses@
                &&& final(self).behaviour == old(self).behaviour
            },
            !final(self).ended ==> {
                &&& final(self).responses@.len() == old(self).responses@.len() + 1
                &&& final(self).responses@.drop_last() == old(self).responses@
                &&& final(self).responses@.last().0 == game.turn
                &&& old(self).behaviour.chooses(game@, final(self).responses@.last().1, &final(self).behaviour)
            },
    {
        if self.ended {
            return ;
        }
        match respond(&mut self.behaviour, game) {
            None => {
                self.ended = true;
            },
            Some(response) => {
                self.responses.push(response);
            },
        }
    }

    /// Takes the oldest response that was not yet taken, if there is one.
    pub fn next_response(&mut self) -> (response: Option<(usize, Action)>)
        ensures
            final(self).ended == old(self).ended,
            final(self).behaviour == old(self).behaviour,
            old(self).responses@.len() == 0 ==> {
                &&& response is None
                &&& final(self).responses@ == old(self).responses@
            },
            old(self).responses@.len() > 0 ==> {
                &&& response == Some(old(self).responses@[0])
                &&& final(self).responses@ == old(self).responses@.drop_first()
            },
    {
        if self.responses.len() == 0 {
            None
        } else {
            let response = self.responses.remove(0);
            Some(response)
        }
    }
}

} // verus!
