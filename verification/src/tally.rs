//! Terminal outcomes of files, their counts, and the closing summary line.

use crate::format::OpenError;
use crate::paths::PathError;
use vstd::prelude::*;
use vstd::string::*;

verus! {

/// Why a file was not handed to a remote service, or why the hand-over
/// did not count.
#[derive(Clone, Copy, Debug, PartialEq, Eq, Structural)]
pub enum SkipReason {
    /// The header could not be read.
    Unreadable(OpenError),
    /// The header is readable and describes another format than the
    /// required one.
    WrongFormat,
    /// No output location could be derived for the file.
    Misplaced(PathError),
    /// The marker of the file exists: it was done in an earlier run.
    AlreadyDone,
    /// The output directory could not be created.
    DirectoryFailed,
    /// The request did not reach the service, or no answer came back.
    Transport,
    /// The service answered with another status than 200.
    Status(u16),
    /// An answer arrived that the file's stage had not asked for.
    OutOfTurn,
}

/// How the work on one file ended.
#[derive(Clone, Copy, Debug, PartialEq, Eq, Structural)]
pub enum Outcome {
    Processed,
    Skipped(SkipReason),
}

/// The number of processed files among `outcomes`.
pub open spec fn processed_among(outcomes: Seq<Outcome>) -> nat {
    outcomes.filter(|o: Outcome| o is Processed).len()
}

/// The number of skipped files among `outcomes`.
pub open spec fn skipped_among(outcomes: Seq<Outcome>) -> nat {
    outcomes.filter(|o: Outcome| o is Skipped).len()
}

/// Every outcome is counted once: as processed or as skipped.
pub proof fn lemma_counts_cover(outcomes: Seq<Outcome>)
    ensures
        processed_among(outcomes) + skipped_among(outcomes) == outcomes.len(),
    decreases outcomes.len(),
{
    reveal(Seq::filter);
    if outcomes.len() > 0 {
        lemma_counts_cover(outcomes.drop_last());
    }
}

/// One more outcome raises exactly one of the two counts, by one.
pub proof fn lemma_counts_push(outcomes: Seq<Outcome>, outcome: Outcome)
    ensures
        processed_among(outcomes.push(outcome)) == processed_among(outcomes) + if outcome
            is Processed {
            1nat
        } else {
            0nat
        },
        skipped_among(outcomes.push(outcome)) == skipped_among(outcomes) + if outcome is Skipped {
            1nat
        } else {
            0nat
        },
{
    reveal(Seq::filter);
    assert(outcomes.push(outcome).drop_last() =~= outcomes);
}

/// The decimal digit for a number below ten.
pub open spec fn digit_char(d: nat) -> char {
    seq!['0', '1', '2', '3', '4', '5', '6', '7', '8', '9'][d as int]
}

/// The decimal notation of a number, without leading zeros.
pub open spec fn decimal(n: nat) -> Seq<char>
    decreases n,
{
    if n < 10 {
        seq![digit_char(n)]
    } else {
        decimal(n / 10).push(digit_char(n % 10))
    }
}

/// The line that closes a run.
pub open spec fn summary_text(processed: nat, skipped: nat) -> Seq<char> {
    "VAD complete: "@ + decimal(processed) + " files processed, "@ + decimal(skipped)
        + " skipped."@
}

fn digit_text(d: usize) -> (text: &'static str)
    requires
        d < 10,
    ensures
        text@ == seq![digit_char(d as nat)],
{
    proof {
        reveal_strlit("0");
        reveal_strlit("1");
        reveal_strlit("2");
        reveal_strlit("3");
        reveal_strlit("4");
        reveal_strlit("5");
        reveal_strlit("6");
        reveal_strlit("7");
        reveal_strlit("8");
        reveal_strlit("9");
    }
    let text = match d {
        0 => "0",
        1 => "1",
        2 => "2",
        3 => "3",
        4 => "4",
        5 => "5",
        6 => "6",
        7 => "7",
        8 => "8",
        _ => "9",
    };
    assert(text@ =~= seq![digit_char(d as nat)]);
    text
}

/// Writes a number in decimal notation.
pub fn decimal_text(n: usize) -> (text: String)
    ensures
        text@ == decimal(n as nat),
    decreases n,
{
    if n < 10 {
        String::from_str(digit_text(n))
    } else {
        let mut text = decimal_text(n / 10);
        text.append(digit_text(n % 10));
        assert(text@ =~= decimal((n / 10) as nat).push(digit_char((n % 10) as nat)));
        text
    }
}

/// The counts of a run.
#[derive(Clone, Copy, Debug, PartialEq, Eq, Structural)]
pub struct RunCounters {
    pub processed: usize,
    pub skipped: usize,
}

impl RunCounters {
    /// Counters of a run in which no file has ended yet.
    pub fn new() -> (counters: RunCounters)
        ensures
            counters.processed == 0,
            counters.skipped == 0,
    {
        RunCounters { processed: 0, skipped: 0 }
    }

    /// Counts one processed file.
    pub fn record_processed(&mut self)
        requires
            old(self).processed + old(self).skipped < usize::MAX,
        ensures
            final(self).processed == old(self).processed + 1,
            final(self).skipped == old(self).skipped,
    {
        self.processed = self.processed + 1;
    }

    /// Counts one skipped file.
    pub fn record_skipped(&mut self)
        requires
            old(self).processed + old(self).skipped < usize::MAX,
        ensures
            final(self).processed == old(self).processed,
            final(self).skipped == old(self).skipped + 1,
    {
        self.skipped = self.skipped + 1;
    }

    /// Counts the terminal outcome of one file.
    pub fn record(&mut self, outcome: Outcome)
        requires
            old(self).processed + old(self).skipped < usize::MAX,
        ensures
            outcome is Processed ==> {
                &&& final(self).processed == old(self).processed + 1
                &&& final(self).skipped == old(self).skipped
            },
            outcome is Skipped ==> {
                &&& final(self).processed == old(self).processed
                &&& final(self).skipped == old(self).skipped + 1
            },
    {
        match outcome {
            Outcome::Processed => self.record_processed(),
            Outcome::Skipped(_) => self.record_skipped(),
        }
    }

    /// The summary line for these counts.
    pub fn summary(&self) -> (line: String)
        ensures
            line@ == summary_text(self.processed as nat, self.skipped as nat),
    {
        let mut line = String::from_str("VAD complete: ");
        line.append(decimal_text(self.processed).as_str());
        line.append(" files processed, ");
        line.append(decimal_text(self.skipped).as_str());
        line.append(" skipped.");
        line
    }
}

/// Counts the outcomes of a run: every outcome once, as processed or as
/// skipped, so that the two counts add up to the number of outcomes.
pub fn tally(outcomes: &Vec<Outcome>) -> (counters: RunCounters)
    ensures
        counters.processed == processed_among(outcomes@),
        counters.skipped == skipped_among(outcomes@),
        counters.processed + counters.skipped == outcomes.len(),
{
    let mut counters = RunCounters::new();
    let mut i: usize = 0;
    proof {
        reveal(Seq::filter);
    }
    while i < outcomes.len()
        invariant
            i <= outcomes.len(),
            counters.processed == processed_among(outcomes@.take(i as int)),
            counters.skipped == skipped_among(outcomes@.take(i as int)),
            counters.processed + counters.skipped == i,
        decreases outcomes.len() - i,
    {
        proof {
            lemma_counts_push(outcomes@.take(i as int), outcomes@[i as int]);
            assert(outcomes@.take(i + 1) =~= outcomes@.take(i as int).push(outcomes@[i as int]));
        }
        counters.record(outcomes[i]);
        i = i + 1;
    }
    assert(outcomes@.take(outcomes@.len() as int) =~= outcomes@);
    counters
}

} // verus!
