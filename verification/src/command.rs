//! Triggers on their way from the control thread to the strings, and the one
//! buffer period of the audio thread that takes them in.

use vstd::prelude::*;
use crate::bank::{IndexOutOfRange, Karplus, KarplusView};
use crate::voice::{total, Operation};
use crossbeam_channel::Receiver;
use rand::Rng;

verus! {

/// The receiving end of a channel of the crate `crossbeam_channel`. What is in
/// a channel is up to the thread at the other end, so nothing here speaks of
/// its contents.
#[verifier::external_type_specification]
#[verifier::external_body]
#[verifier::reject_recursive_types(T)]
pub struct ExReceiver<T>(crossbeam_channel::Receiver<T>);

/// What the control thread can ask of the audio thread.
#[derive(Clone, Copy, Debug, PartialEq, Eq, Structural)]
pub enum Command {
    /// Pluck the string of this index.
    Pluck(usize),
}

/// The number of commands that the channel between the two threads holds.
pub const COMMAND_CAPACITY: usize = 1024;

/// A random pluck falls on one of this many strings at the low end of the bank.
pub const PLUCK_REACH: usize = 10;

/// What became of the commands of one period.
#[derive(Clone, Copy, Debug, PartialEq, Eq, Structural)]
pub struct Drained {
    /// The number of commands that were carried out.
    pub applied: usize,
    /// The number of commands that named no string and were left out.
    pub dropped: usize,
    /// Whether the channel was seen empty, which takes one look more than
    /// there were commands. If not, the limit stopped the drain.
    pub emptied: bool,
}

impl Drained {
    /// The report after one more command, which was left out or not.
    pub open spec fn counting(self, refused: bool) -> Drained {
        if refused {
            Drained { dropped: (self.dropped + 1) as usize, ..self }
        } else {
            Drained { applied: (self.applied + 1) as usize, ..self }
        }
    }

    /// The report after a look that found the channel empty.
    pub open spec fn at_the_end(self) -> Drained {
        Drained { emptied: true, ..self }
    }
}

/// The number of strings that a random pluck can fall on in a bank of
/// `string_count`: all of them, but no more than `PLUCK_REACH`.
pub open spec fn reach_within(string_count: usize) -> usize {
    if string_count < PLUCK_REACH {
        string_count
    } else {
        PLUCK_REACH
    }
}

impl<S> KarplusView<S> {
    /// The bank after `command`. A command for a string that is not there
    /// changes nothing.
    pub open spec fn obeying(self, command: Command) -> Self {
        match command {
            Command::Pluck(i) => if i < self.count() {
                self.plucked(i as int)
            } else {
                self
            },
        }
    }

    /// Whether the bank has to leave `command` out.
    pub open spec fn refuses(self, command: Command) -> bool {
        match command {
            Command::Pluck(i) => i >= self.count(),
        }
    }

    /// The bank after one look at the channel, which gave `looked`.
    pub open spec fn taking(self, looked: Option<Command>) -> Self {
        match looked {
            Some(command) => self.obeying(command),
            None => self,
        }
    }

    /// The report after one look at the channel, which gave `looked`.
    pub open spec fn reporting(self, report: Drained, looked: Option<Command>) -> Drained {
        match looked {
            Some(command) => report.counting(self.refuses(command)),
            None => report.at_the_end(),
        }
    }

    /// The bank after `commands`, each taken once and in order.
    pub open spec fn obeying_all(self, commands: Seq<Command>) -> Self
        decreases commands.len(),
    {
        if commands.len() == 0 {
            self
        } else {
            self.obeying_all(commands.drop_last()).obeying(commands.last())
        }
    }

    /// How many of `commands` the bank has to leave out.
    pub open spec fn refused_among(self, commands: Seq<Command>) -> nat
        decreases commands.len(),
    {
        if commands.len() == 0 {
            0
        } else {
            self.refused_among(commands.drop_last()) + if self.refuses(commands.last()) {
                1nat
            } else {
                0nat
            }
        }
    }

    /// `post` and `report` are what a drain of at most `limit` commands leaves
    /// of `self` when the channel hands over `received`.
    pub open spec fn drains_to(
        self,
        post: Self,
        received: Seq<Command>,
        report: Drained,
        limit: usize,
    ) -> bool {
        &&& post == self.obeying_all(received)
        &&& received.len() <= limit
        &&& report.applied + report.dropped == received.len()
        &&& report.dropped == self.refused_among(received)
        &&& report.emptied <==> received.len() < limit
    }

    /// `post`, `samples` and `report` are what one buffer period leaves of
    /// `self`, in which the channel hands over `received`: the commands are
    /// drained first, and the bank as they leave it plays the samples.
    pub open spec fn runs_period_to<A: Fn(Operation<S>) -> S>(
        self,
        post: Self,
        samples: Seq<S>,
        received: Seq<Command>,
        report: Drained,
        limit: usize,
        arith: A,
    ) -> bool {
        &&& self.drains_to(self.obeying_all(received), received, report, limit)
        &&& self.obeying_all(received).plays_to(post, samples, arith)
    }
}

/// Calls `Receiver::try_recv` of `crossbeam_channel`, which never blocks. It
/// gives the next message if one is waiting, and an error if the channel is
/// empty or the senders are gone; both errors come back as `None`. Which of these
/// happens depends on the other threads, so nothing is promised of the result.
#[verifier::external_body]
fn try_receive(receiver: &Receiver<Command>) -> (command: Option<Command>) {
    receiver.try_recv().ok()
}

/// Calls `Rng::gen_range` of `rand` on the thread's generator, which
/// `rand::thread_rng` hands out, with the bounds 0 and `bound`. The result lies
/// in the half-open range between them; the call panics on an empty range,
/// which `requires` leaves out. Nothing else is claimed: not which index comes,
/// nor that the system has entropy to seed the generator with.
#[verifier::external_body]
fn random_below(bound: usize) -> (index: usize)
    requires
        bound > 0,
    ensures
        index < bound,
{
    rand::thread_rng().gen_range(0, bound)
}

/// The number of strings that a random pluck can fall on in a bank of
/// `string_count`.
pub fn pluck_reach(string_count: usize) -> (reach: usize)
    ensures
        reach == reach_within(string_count),
{
    if string_count < PLUCK_REACH {
        string_count
    } else {
        PLUCK_REACH
    }
}

/// A pluck of a string picked at random among those within reach in a bank of
/// `string_count`.
pub fn random_pluck(string_count: usize) -> (command: Command)
    requires
        string_count > 0,
    ensures
        command matches Command::Pluck(i) && i < reach_within(string_count),
{
    Command::Pluck(random_below(pluck_reach(string_count)))
}

impl<S: Copy> Karplus<S> {
    /// Carries out `command`, or says that it names no string and changes
    /// nothing.
    pub fn obey(&mut self, command: Command) -> (r: Result<(), IndexOutOfRange>)
        ensures
            final(self)@ == old(self)@.obeying(command),
            r is Err <==> old(self)@.refuses(command),
            r is Err ==> r == Err::<(), IndexOutOfRange>(
                IndexOutOfRange::at(command->0, old(self)@.count()),
            ),
    {
        match command {
            Command::Pluck(i) => self.pluck_string(i),
        }
    }

    /// Takes in what one look at the channel gave: a command is carried out or
    /// left out, and counted in `report` either way; an empty channel is noted
    /// there.
    pub fn take(&mut self, looked: Option<Command>, report: Drained) -> (next: Drained)
        requires
            report.applied < usize::MAX,
            report.dropped < usize::MAX,
        ensures
            final(self)@ == old(self)@.taking(looked),
            next == old(self)@.reporting(report, looked),
    {
        match looked {
            Some(command) => match self.obey(command) {
                Ok(_) => Drained {
                    applied: report.applied + 1,
                    dropped: report.dropped,
                    emptied: report.emptied,
                },
                Err(_) => Drained {
                    applied: report.applied,
                    dropped: report.dropped + 1,
                    emptied: report.emptied,
                },
            },
            None => Drained { applied: report.applied, dropped: report.dropped, emptied: true },
        }
    }
}

/// Takes commands from `receiver` until it is empty or `limit` commands were
/// taken, and has `bank` carry out each as it comes. It never waits.
pub fn drain<S: Copy>(
    receiver: &Receiver<Command>,
    bank: &mut Karplus<S>,
    limit: usize,
) -> (report: Drained)
    ensures
        exists|received: Seq<Command>|
            #[trigger] old(bank)@.drains_to(final(bank)@, received, report, limit),
{
    let ghost pre = bank@;
    let ghost mut received: Seq<Command> = Seq::empty();
    let mut report = Drained { applied: 0, dropped: 0, emptied: false };
    let mut left: usize = limit;
    while left > 0
        invariant
            bank@ == pre.obeying_all(received),
            report.applied + report.dropped == received.len(),
            received.len() + left <= limit,
            report.dropped == pre.refused_among(received),
            report.emptied ==> left == 0 && received.len() < limit,
            !report.emptied ==> received.len() + left == limit,
        decreases left,
    {
        let looked = try_receive(receiver);
        proof {
            lemma_obeying_all_keeps_count(pre, received);
            if let Some(command) = looked {
                assert(received.push(command).drop_last() =~= received);
                received = received.push(command);
            }
        }
        report = bank.take(looked, report);
        if report.emptied {
            left = 0;
        } else {
            left = left - 1;
        }
    }
    proof {
        assert(pre.drains_to(bank@, received, report, limit));
    }
    report
}

/// One buffer period of the audio thread: first the waiting commands are
/// drained into `bank`, at most `limit` of them, then `out` is filled with as
/// many sample periods as it has slots. So whatever the channel hands over in
/// this period is carried out, once and in the order it came, before the first
/// sample of the buffer is made.
pub fn run_period<S: Copy, A>(
    receiver: &Receiver<Command>,
    bank: &mut Karplus<S>,
    out: &mut [S],
    arith: &A,
    limit: usize,
) -> (report: Drained) where A: Fn(Operation<S>) -> S
    requires
        total(*arith),
    ensures
        final(out)@.len() == old(out)@.len(),
        exists|received: Seq<Command>|
            #[trigger] old(bank)@.runs_period_to(
                final(bank)@,
                final(out)@,
                received,
                report,
                limit,
                *arith,
            ),
{
    let ghost pre = bank@;
    let report = drain(receiver, bank, limit);
    let ghost mid = bank@;
    bank.process(out, arith);
    proof {
        let received = choose|received: Seq<Command>|
            #[trigger] pre.drains_to(mid, received, report, limit);
        assert(pre.runs_period_to(bank@, out@, received, report, limit, *arith));
    }
    report
}

/// After any commands, a string that one of them names is as a pluck leaves
/// it, and every other string is as it was.
pub proof fn lemma_obeying_all_plucks_what_is_named<S>(
    bank: KarplusView<S>,
    commands: Seq<Command>,
    i: usize,
)
    requires
        i < bank.count(),
    ensures
        commands.contains(Command::Pluck(i)) ==> bank.obeying_all(commands).strings[i as int]
            == bank.strings[i as int].plucked(),
        !commands.contains(Command::Pluck(i)) ==> bank.obeying_all(commands).strings[i as int]
            == bank.strings[i as int],
    decreases commands.len(),
{
    if commands.len() > 0 {
        let earlier = commands.drop_last();
        let named = Command::Pluck(i);
        lemma_obeying_all_plucks_what_is_named(bank, earlier, i);
        lemma_obeying_all_keeps_count(bank, earlier);
        assert(commands[commands.len() - 1] == commands.last());
        if earlier.contains(named) {
            let k = choose|k: int| 0 <= k < earlier.len() && earlier[k] == named;
            assert(commands[k] == named);
        }
        if commands.contains(named) && commands.last() != named {
            let k = choose|k: int| 0 <= k < commands.len() && commands[k] == named;
            assert(earlier[k] == named);
        }
    }
}

/// Commands change what strings do, never how many there are.
pub proof fn lemma_obeying_all_keeps_count<S>(bank: KarplusView<S>, commands: Seq<Command>)
    ensures
        bank.obeying_all(commands).count() == bank.count(),
        bank.obeying_all(commands).zero == bank.zero,
    decreases commands.len(),
{
    if commands.len() > 0 {
        lemma_obeying_all_keeps_count(bank, commands.drop_last());
    }
}

} // verus!
