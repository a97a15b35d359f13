//! Counting a source piece by piece, one line or several whole lines at
//! a time, without holding the source in memory.

use vstd::prelude::*;
use crate::config::Config;
use crate::count::{Count, Tally};
use crate::engine::{count, lemma_count_by_lines, tally};
use crate::text::NEWLINE;

verus! {

/// The stream ends in the middle of a line.
pub open spec fn ends_mid_line(data: Seq<u8>) -> bool {
    data.len() > 0 && data.last() != NEWLINE
}

/// Why a piece of a stream was not taken.
#[derive(Clone, Copy, Debug, PartialEq, Eq, Structural)]
pub enum FeedError {
    /// What was taken before ended in the middle of a line.
    MidLine,
    /// A count would not fit in 64 bits.
    Overflow,
}

/// The running count of one source.
pub struct Counter<'a> {
    config: &'a Config,
    count: Count,
    mid_line: bool,
    earlier: Ghost<Tally>,
    seen: Ghost<Seq<u8>>,
}

impl<'a> Counter<'a> {
    #[verifier::type_invariant]
    spec fn inv(self) -> bool {
        &&& self.count@ == self.earlier@.plus(tally(self.seen@, *self.config))
        &&& self.mid_line == ends_mid_line(self.seen@)
    }

    /// The bytes taken so far, in order.
    pub closed spec fn seen(self) -> Seq<u8> {
        self.seen@
    }

    /// The configuration that the counter was made with.
    pub closed spec fn config(self) -> Config {
        *self.config
    }

    /// What had been counted before the counter was made.
    pub closed spec fn earlier(self) -> Tally {
        self.earlier@
    }

    /// What the counter stands at: the earlier count and the count of the
    /// bytes taken since.
    pub open spec fn reading(self) -> Tally {
        self.earlier().plus(tally(self.seen(), self.config()))
    }

    /// What the counter would stand at with `piece` taken as well.
    pub open spec fn reading_after(self, piece: Seq<u8>) -> Tally {
        self.earlier().plus(tally(self.seen() + piece, self.config()))
    }

    /// A counter that has taken nothing yet.
    pub fn new(config: &'a Config) -> (counter: Counter<'a>)
        ensures
            counter.seen() == Seq::<u8>::empty(),
            counter.config() == *config,
            counter.earlier() == Tally::zero(),
    {
        Counter {
            config,
            count: Count::new(),
            mid_line: false,
            earlier: Ghost(Tally::zero()),
            seen: Ghost(Seq::empty()),
        }
    }

    /// A counter that goes on from an earlier count, taken up to the end
    /// of a line.
    pub fn resume(config: &'a Config, earlier: Count) -> (counter: Counter<'a>)
        ensures
            counter.seen() == Seq::<u8>::empty(),
            counter.config() == *config,
            counter.earlier() == earlier@,
    {
        Counter {
            config,
            count: earlier,
            mid_line: false,
            earlier: Ghost(earlier@),
            seen: Ghost(Seq::empty()),
        }
    }

    /// Takes the next piece of the stream. A piece is refused, and the
    /// counter left as it was, when the pieces before it ended in the
    /// middle of a line, or when a count would pass 64 bits.
    pub fn feed(&mut self, piece: &[u8]) -> (fed: Result<(), FeedError>)
        ensures
            final(self).config() == old(self).config(),
            final(self).earlier() == old(self).earlier(),
            fed is Ok ==> final(self).seen() == old(self).seen() + piece@,
            fed is Err ==> final(self).seen() == old(self).seen(),
            fed == Err::<(), FeedError>(FeedError::MidLine) <==> ends_mid_line(old(self).seen()),
            fed == Err::<(), FeedError>(FeedError::Overflow) <==> !ends_mid_line(old(self).seen())
                && !old(self).reading_after(piece@).fits(),
            fed is Ok ==> final(self).reading() == old(self).reading_after(piece@),
    {
        proof {
            use_type_invariant(&*self);
        }
        if self.mid_line {
            return Err(FeedError::MidLine);
        }
        let more = count(piece, self.config);
        proof {
            lemma_count_by_lines(self.seen@, piece@, *self.config);
        }
        match self.count.checked_add(&more) {
            Some(sum) => {
                let mid_line = piece.len() > 0 && piece[piece.len() - 1] != NEWLINE;
                let ghost all = self.seen@ + piece@;
                *self = Counter {
                    config: self.config,
                    count: sum,
                    mid_line,
                    earlier: self.earlier,
                    seen: Ghost(all),
                };
                Ok(())
            },
            None => Err(FeedError::Overflow),
        }
    }

    /// The count of what was taken so far.
    pub fn count(&self) -> (count: Count)
        ensures
            count@ == self.reading(),
    {
        proof {
            use_type_invariant(self);
        }
        self.count
    }
}

} // verus!
