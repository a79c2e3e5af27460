//! The persistent dispatch queue: the single source of truth for what
//! remains to be messaged.
//!
//! The queue owns the ordered roster. `save` produces the text to persist,
//! `load` rebuilds a queue from persisted text (an absent store is a normal
//! empty roster, not an error), and `pop_next` drains the roster from its
//! end, so that persisted state and consumption order stay aligned across
//! restarts.

use vstd::prelude::*;

use crate::codec::{decode_roster, encode_roster, json_of, spec_parse};
use crate::errors::IoError;

verus! {

/// The ordered pending-work list of recipients.
pub struct DispatchQueue {
    players: Vec<String>,
}

impl View for DispatchQueue {
    type V = Seq<Seq<char>>;

    closed spec fn view(&self) -> Seq<Seq<char>> {
        self.players.deep_view()
    }
}

impl DispatchQueue {
    /// A queue with no pending recipients.
    pub fn empty() -> (q: Self)
        ensures
            q@ == Seq::<Seq<char>>::empty(),
    {
        let q = DispatchQueue { players: Vec::new() };
        proof {
            assert(q@ =~= Seq::<Seq<char>>::empty());
        }
        q
    }

    /// A queue holding a freshly scraped roster; any prior roster is
    /// replaced wholesale.
    pub fn from_roster(players: Vec<String>) -> (q: Self)
        ensures
            q@ == players.deep_view(),
    {
        DispatchQueue { players }
    }

    /// How many recipients remain.
    pub fn len(&self) -> (n: usize)
        ensures
            n == self@.len(),
    {
        self.players.len()
    }

    /// Whether nothing remains to be sent.
    pub fn is_empty(&self) -> (r: bool)
        ensures
            r == (self@.len() == 0),
    {
        self.players.len() == 0
    }

    /// The remaining recipients, in order.
    pub fn players(&self) -> (r: &Vec<String>)
        ensures
            r.deep_view() == self@,
    {
        &self.players
    }

    /// The text to persist: the canonical encoding of the whole ordered
    /// roster, which overwrites any prior store.
    pub fn save(&self) -> (r: String)
        ensures
            r@ == json_of(self@),
    {
        encode_roster(&self.players)
    }

    /// Rebuilds the queue from the persisted store. An absent store is an
    /// empty roster; a store that is not a canonical roster encoding is
    /// corrupt, and fatal to the caller.
    pub fn load(stored: Option<&str>) -> (r: Result<Self, IoError>)
        ensures
            match stored {
                None => r matches Ok(q) && q@ == Seq::<Seq<char>>::empty(),
                Some(s) => match r {
                    Ok(q) => spec_parse(s@) == Some(q@),
                    Err(e) => spec_parse(s@) is None && e == IoError::Corrupt,
                },
            },
    {
        match stored {
            None => Ok(Self::empty()),
            Some(s) => match decode_roster(s) {
                Ok(players) => Ok(DispatchQueue { players }),
                Err(e) => Err(e),
            },
        }
    }

    /// Removes and returns the next recipient. Removal is from the end of
    /// the ordered roster, the one consistent removal end.
    pub fn pop_next(&mut self) -> (r: Option<String>)
        ensures
            old(self)@.len() == 0 ==> r is None && final(self)@ == old(self)@,
            old(self)@.len() > 0 ==> (r matches Some(p) && p@ == old(self)@.last()
                && final(self)@ == old(self)@.drop_last()),
    {
        let r = self.players.pop();
        proof {
            if old(self)@.len() > 0 {
                assert(self@ =~= old(self)@.drop_last());
            } else {
                assert(self@ =~= old(self)@);
            }
        }
        r
    }

    /// Reverses the roster in place, for a caller that wants the opposite
    /// consumption order.
    pub fn reverse(&mut self)
        ensures
            final(self)@ == old(self)@.reverse(),
    {
        let ghost orig = self.players.deep_view();
        let mut flipped: Vec<String> = Vec::new();
        proof {
            assert(orig.take(orig.len() as int) =~= orig);
            assert(flipped.deep_view() =~= Seq::new(0, |j: int| orig[orig.len() - 1 - j]));
        }
        while self.players.len() > 0
            invariant
                self.players.deep_view().len() <= orig.len(),
                self.players.deep_view() == orig.take(self.players.deep_view().len() as int),
                flipped.deep_view() =~= Seq::new(
                    (orig.len() - self.players.deep_view().len()) as nat,
                    |j: int| orig[orig.len() - 1 - j],
                ),
            decreases self.players.len(),
        {
            let ghost prev = self.players.deep_view();
            let ghost prev_vec = self.players@;
            let ghost prev_flipped = flipped.deep_view();
            let ghost l = prev.len() as int;
            let p = self.players.pop().unwrap();
            flipped.push(p);
            proof {
                let now = self.players.deep_view();
                assert(now.len() == l - 1);
                assert forall|j: int| 0 <= j < l - 1 implies now[j] == orig[j] by {
                    assert(now[j] == self.players@[j].deep_view());
                    assert(self.players@[j] == prev_vec[j]);
                    assert(prev[j] == prev_vec[j].deep_view());
                    assert(prev[j] == orig.take(l)[j]);
                    assert(orig.take(l)[j] == orig[j]);
                }
                assert(now =~= orig.take(l - 1));
                assert(p@ == prev[l - 1]);
                assert(prev[l - 1] == orig[l - 1]);
                assert(flipped.deep_view() =~= prev_flipped.push(p@));
                assert(flipped.deep_view() =~= Seq::new(
                    (orig.len() - (l - 1)) as nat,
                    |j: int| orig[orig.len() - 1 - j],
                ));
            }
        }
        self.players = flipped;
        proof {
            assert(self@ =~= old(self)@.reverse());
        }
    }
}

} // verus!
