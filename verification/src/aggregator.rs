//! The counting aggregator: the sole mutator of the tally. It consumes
//! commands one at a time, counts each reported outcome, and stops at the
//! shutdown sentinel. The tally it produces is a function of the multiset of
//! reported codes alone, and its counts sum to the number of outcomes
//! recorded.

use vstd::prelude::*;

verus! {

use crate::tally::Tally;
use crate::types::Command;
use vstd::multiset::Multiset;

broadcast use vstd::seq_lib::group_to_multiset_ensures, vstd::multiset::group_multiset_axioms;

/// How often a code occurs in a sequence of codes: a function of the
/// multiset of the codes alone.
pub open spec fn code_count(s: Seq<u16>, c: u16) -> nat {
    s.to_multiset().count(c)
}

/// The tally determined by a sequence of reported codes: each code that
/// occurs, mapped to how often it occurs.
pub open spec fn tally_view_of(s: Seq<u16>) -> Map<u16, i32> {
    Map::new(|c: u16| code_count(s, c) > 0, |c: u16| code_count(s, c) as i32)
}

/// The tally is a function of the multiset of reported codes, not of their
/// order: two arrival orders of the same outcomes yield the same tally.
pub proof fn lemma_tally_commutative(s1: Seq<u16>, s2: Seq<u16>)
    requires
        s1.to_multiset() == s2.to_multiset(),
    ensures
        tally_view_of(s1) == tally_view_of(s2),
{
    assert(tally_view_of(s1) =~= tally_view_of(s2));
}

/// Recording one more code turns the tally into the same tally with that
/// code's count one higher.
pub proof fn lemma_tally_view_push(s: Seq<u16>, c: u16)
    ensures
        tally_view_of(s.push(c)) == tally_view_of(s).insert(c, (code_count(s, c) + 1) as i32),
{
    assert(s.push(c).to_multiset() =~= s.to_multiset().insert(c));
    vstd::multiset::lemma_insert_increases_count_by_1(s.to_multiset(), c);
    assert(forall|k: u16|
        k != c ==> #[trigger] s.to_multiset().insert(c).count(k) == s.to_multiset().count(k)) by {
        assert(forall|k: u16|
            k != c ==> #[trigger] s.to_multiset().insert(c).count(k) == s.to_multiset().add(
                Multiset::singleton(c),
            ).count(k));
    }
    assert(tally_view_of(s.push(c)) =~= tally_view_of(s).insert(c, (code_count(s, c) + 1) as i32));
}

/// An empty history yields the empty tally.
pub proof fn lemma_tally_view_empty()
    ensures
        tally_view_of(Seq::<u16>::empty()) == Map::<u16, i32>::empty(),
{
    assert(Seq::<u16>::empty().to_multiset().len() == 0);
    assert(forall|c: u16| #[trigger] code_count(Seq::<u16>::empty(), c) == 0) by {
        assert(forall|c: u16| #[trigger]
            Seq::<u16>::empty().to_multiset().count(c) <= Seq::<u16>::empty().to_multiset().len());
    }
    assert(tally_view_of(Seq::<u16>::empty()) =~= Map::<u16, i32>::empty());
}

/// The counting aggregator: the running tally, whether the shutdown sentinel
/// has been seen, and — for specification only — the history of codes
/// recorded so far.
pub struct Aggregator {
    /// The tally owned exclusively by this aggregator.
    pub tally: Tally,
    /// Whether the shutdown sentinel has been received.
    pub done: bool,
    /// The codes recorded so far, in arrival order.
    pub history: Ghost<Seq<u16>>,
}

impl Aggregator {
    /// Well-formedness: the tally is exactly the tally of the history, and
    /// its counts sum to the number of codes recorded.
    pub open spec fn wf(self) -> bool {
        &&& self.tally.wf()
        &&& self.tally.as_map() == tally_view_of(self.history@)
        &&& self.tally.total() == self.history@.len()
    }

    /// A fresh aggregator with an empty tally.
    pub fn new() -> (a: Aggregator)
        ensures
            a.wf(),
            !a.done,
            a.history@ == Seq::<u16>::empty(),
            a.tally.pairs() == Seq::<(u16, i32)>::empty(),
    {
        proof {
            lemma_tally_view_empty();
        }
        Aggregator { tally: Tally::new(), done: false, history: Ghost(Seq::empty()) }
    }

    /// Whether the shutdown sentinel has been received; once it has, the
    /// tally is final and may be handed to a renderer.
    pub fn is_done(&self) -> (r: bool)
        ensures
            r == self.done,
    {
        self.done
    }

    /// Processes one command. An outcome report raises the count of its code
    /// by one; the sentinel ends the run and leaves the tally untouched.
    pub fn on_command(&mut self, cmd: Command)
        requires
            old(self).wf(),
            !old(self).done,
            old(self).history@.len() < 0x7fff_ffff,
        ensures
            final(self).wf(),
            match cmd {
                Command::Increment(code) => {
                    &&& final(self).history@ == old(self).history@.push(code)
                    &&& !final(self).done
                    &&& final(self).tally.as_map() == old(self).tally.as_map().insert(
                        code,
                        (code_count(old(self).history@, code) + 1) as i32,
                    )
                },
                Command::Exit => {
                    &&& final(self).done
                    &&& final(self).tally == old(self).tally
                    &&& final(self).history@ == old(self).history@
                },
            },
    {
        match cmd {
            Command::Increment(code) => {
                proof {
                    assert(old(self).tally.total() < 0x7fff_ffff);
                    lemma_tally_view_push(self.history@, code);
                    assert(old(self).tally.count_of(code) == code_count(old(self).history@, code))
                        by {
                        assert(code_count(old(self).history@, code) <= old(
                            self,
                        ).history@.to_multiset().len());
                    }
                }
                self.tally.increment(code);
                proof {
                    self.history@ = self.history@.push(code);
                }
            },
            Command::Exit => {
                self.done = true;
            },
        }
    }
}

/// The codes of the outcome reports that the aggregator consumes from
/// position `i` on: everything up to, and not including, the first sentinel.
pub open spec fn inc_codes_from(s: Seq<Command>, i: int) -> Seq<u16>
    decreases s.len() - i,
{
    if i < 0 || i >= s.len() {
        Seq::empty()
    } else {
        match s[i] {
            Command::Exit => Seq::empty(),
            Command::Increment(c) => seq![c] + inc_codes_from(s, i + 1),
        }
    }
}

/// The codes of the outcome reports before the first sentinel.
pub open spec fn inc_codes(s: Seq<Command>) -> Seq<u16> {
    inc_codes_from(s, 0)
}

/// Runs the aggregator over a finished sequence of commands: counts every
/// outcome reported before the first sentinel and abandons the rest. The
/// resulting tally is the tally of exactly those outcomes, and its counts
/// sum to their number.
pub fn counting_machine(commands: &Vec<Command>) -> (t: Tally)
    requires
        commands@.len() < 0x7fff_ffff,
    ensures
        t.wf(),
        t.as_map() == tally_view_of(inc_codes(commands@)),
        t.total() == inc_codes(commands@).len(),
{
    let mut agg = Aggregator::new();
    let n = commands.len();
    let mut i: usize = 0;
    assert(agg.history@ + inc_codes_from(commands@, 0) =~= inc_codes(commands@));
    while i < n
        invariant
            agg.wf(),
            !agg.done,
            i <= n,
            n == commands@.len(),
            n < 0x7fff_ffff,
            agg.history@.len() == i,
            agg.history@ + inc_codes_from(commands@, i as int) == inc_codes(commands@),
        decreases n - i,
    {
        let cmd = commands[i];
        let ghost hist = agg.history@;
        agg.on_command(cmd);
        match cmd {
            Command::Increment(code) => {
                proof {
                    assert(inc_codes_from(commands@, i as int) == seq![code] + inc_codes_from(
                        commands@,
                        i + 1,
                    ));
                    assert(agg.history@ + inc_codes_from(commands@, i + 1) =~= hist + (seq![code]
                        + inc_codes_from(commands@, i + 1)));
                }
            },
            Command::Exit => {
                proof {
                    assert(inc_codes_from(commands@, i as int) =~= Seq::<u16>::empty());
                    assert(agg.history@ =~= inc_codes(commands@));
                }
                return agg.tally;
            },
        }
        i = i + 1;
    }
    proof {
        assert(inc_codes_from(commands@, n as int) =~= Seq::<u16>::empty());
        assert(agg.history@ =~= inc_codes(commands@));
    }
    agg.tally
}

} // verus!
