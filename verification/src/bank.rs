//! A bank of strings that sound together.

use vstd::prelude::*;
use crate::tuning::{delay_line_length, frequency_for_string_index, rounded_ratio, string_frequency};
use crate::voice::{
    keeps_silence, lemma_fresh_is_quiet, lemma_quiet_string_stays_quiet, lemma_step_keeps_shape,
    strung, total, KarplusString, Operation, StringView, Vibration,
};

verus! {

/// A string was asked for by an index that the bank does not have.
#[derive(Clone, Copy, Debug, PartialEq, Eq, Structural)]
pub struct IndexOutOfRange {
    pub index: usize,
    /// The number of strings in the bank at the time.
    pub count: usize,
}

impl IndexOutOfRange {
    /// The error for `index` in a bank of `count` strings.
    pub open spec fn at(index: usize, count: nat) -> IndexOutOfRange {
        IndexOutOfRange { index, count: count as usize }
    }
}

/// `running` are the sums that `arith` comes by as it adds `parts` up, one
/// after the other from the left and starting from `zero`.
pub open spec fn adds_up_through<S, A: Fn(Operation<S>) -> S>(
    arith: A,
    zero: S,
    parts: Seq<S>,
    running: Seq<S>,
) -> bool {
    &&& running.len() == parts.len() + 1
    &&& running[0] == zero
    &&& forall|i: int|
        0 <= i < parts.len() ==> arith.ensures(
            (Operation::Add(running[i], #[trigger] parts[i]),),
            running[i + 1],
        )
}

/// `sum` is what `arith` adds `parts` up to, taken in order from the left and
/// starting from `zero`.
pub open spec fn adds_up_to<S, A: Fn(Operation<S>) -> S>(
    arith: A,
    zero: S,
    parts: Seq<S>,
    sum: S,
) -> bool {
    exists|running: Seq<S>|
        #[trigger] adds_up_through(arith, zero, parts, running) && running.last() == sum
}

/// A bank as a mathematical value: its strings in index order.
pub struct KarplusView<S> {
    pub strings: Seq<StringView<S>>,
    pub zero: S,
}

impl<S> KarplusView<S> {
    /// Every string is well formed and shares the bank's zero.
    pub open spec fn wf(self) -> bool {
        forall|i: int|
            0 <= i < self.strings.len() ==> (#[trigger] self.strings[i]).wf() && self.strings[i].zero
                == self.zero
    }

    /// The number of strings.
    pub open spec fn count(self) -> nat {
        self.strings.len()
    }

    /// The bank after string `i` is plucked.
    pub open spec fn plucked(self, i: int) -> Self {
        KarplusView { strings: self.strings.update(i, self.strings[i].plucked()), ..self }
    }

    /// `post` is `self` with one string more at the end, newly made for these
    /// arguments with the bank's zero.
    pub open spec fn grows_to<A: Fn(Operation<S>) -> S>(
        self,
        post: Self,
        delay_line_length: usize,
        f0: S,
        envelope_follower_coeff: S,
        arith: A,
    ) -> bool {
        &&& post.zero == self.zero
        &&& post.strings.len() == self.strings.len() + 1
        &&& post.strings.drop_last() == self.strings
        &&& strung(
            post.strings.last(),
            delay_line_length,
            f0,
            envelope_follower_coeff,
            self.zero,
            arith,
        )
    }

    /// What each string sounded in the period from `self` to `post`.
    pub open spec fn sounded(self, post: Self) -> Seq<S> {
        Seq::new(self.strings.len(), |i: int| self.strings[i].sounded(post.strings[i]))
    }

    /// `post` is `self` one sample period later, and `out` is the sum of what
    /// the strings sounded, added up in index order.
    pub open spec fn ticks_to<A: Fn(Operation<S>) -> S>(self, post: Self, out: S, arith: A) -> bool {
        &&& post.strings.len() == self.strings.len()
        &&& post.zero == self.zero
        &&& forall|i: int|
            0 <= i < self.strings.len() ==> (#[trigger] self.strings[i]).steps_to(
                post.strings[i],
                arith,
            )
        &&& adds_up_to(arith, self.zero, self.sounded(post), out)
    }

    /// `states` are what the bank is before, between and after
    /// `samples.len()` sample periods that start from `self` and give
    /// `samples`, in order.
    pub open spec fn plays_through<A: Fn(Operation<S>) -> S>(
        self,
        states: Seq<Self>,
        samples: Seq<S>,
        arith: A,
    ) -> bool {
        &&& states.len() == samples.len() + 1
        &&& states[0] == self
        &&& forall|k: int|
            0 <= k < samples.len() ==> states[k].ticks_to(
                states[k + 1],
                #[trigger] samples[k],
                arith,
            )
    }

    /// `post` is `self` after `samples.len()` sample periods that gave
    /// `samples`, in order.
    pub open spec fn plays_to<A: Fn(Operation<S>) -> S>(
        self,
        post: Self,
        samples: Seq<S>,
        arith: A,
    ) -> bool {
        exists|states: Seq<Self>|
            #[trigger] self.plays_through(states, samples, arith) && states.last() == post
    }

    /// The bank is the bank of `count` strings that is tuned by the frequency
    /// table for `sample_rate`: string `i` is newly made, with a delay line as
    /// long as its frequency asks for, and holds what `arith` makes of that
    /// frequency.
    pub open spec fn tuned<A: Fn(Operation<S>) -> S>(
        self,
        sample_rate: usize,
        count: usize,
        zero: S,
        envelope_follower_coeff: S,
        arith: A,
    ) -> bool {
        &&& self.zero == zero
        &&& self.strings.len() == count
        &&& forall|i: int|
            0 <= i < count ==> {
                &&& arith.ensures(
                    (Operation::Pitch(string_frequency(i as nat) as u128),),
                    (#[trigger] self.strings[i]).f0,
                )
                &&& strung(
                    self.strings[i],
                    rounded_ratio(sample_rate as nat, string_frequency(i as nat)) as usize,
                    self.strings[i].f0,
                    envelope_follower_coeff,
                    zero,
                    arith,
                )
            }
    }

    /// No string has anything left to sound.
    pub open spec fn quiet(self) -> bool {
        forall|i: int| 0 <= i < self.strings.len() ==> (#[trigger] self.strings[i]).quiet()
    }
}

/// A bank of strings for samples of type `S`.
#[derive(Debug, PartialEq)]
pub struct Karplus<S> {
    strings: Vec<KarplusString<S>>,
    zero: S,
}

impl<S> View for Karplus<S> {
    type V = KarplusView<S>;

    closed spec fn view(&self) -> KarplusView<S> {
        KarplusView {
            strings: Seq::new(self.strings@.len(), |i: int| self.strings@[i]@),
            zero: self.zero,
        }
    }
}

impl<S: Copy> Karplus<S> {
    /// An empty bank for samples whose zero is `zero`.
    pub fn new(zero: S) -> (bank: Self)
        ensures
            bank@.strings.len() == 0,
            bank@.zero == zero,
    {
        Karplus { strings: Vec::new(), zero }
    }

    /// The bank of the first `count` strings of the frequency table, for
    /// `sample_rate` in Hz, or nothing if one of these frequencies is more than
    /// twice the sample rate, so that its delay line would be empty.
    pub fn tuned<A>(
        sample_rate: usize,
        count: usize,
        zero: S,
        envelope_follower_coeff: S,
        arith: &A,
    ) -> (bank: Option<Self>) where A: Fn(Operation<S>) -> S
        requires
            total(*arith),
        ensures
            bank is Some <==> forall|i: nat|
                i < count ==> #[trigger] string_frequency(i) <= 2 * sample_rate,
            bank matches Some(b) ==> b@.tuned(
                sample_rate,
                count,
                zero,
                envelope_follower_coeff,
                *arith,
            ),
    {
        let mut bank = Karplus::new(zero);
        let mut i: usize = 0;
        while i < count
            invariant
                i <= count,
                bank@.tuned(sample_rate, i, zero, envelope_follower_coeff, *arith),
                forall|j: nat| j < i ==> #[trigger] string_frequency(j) <= 2 * sample_rate,
                total(*arith),
            decreases count - i,
        {
            let frequency: u128 = frequency_for_string_index(i);
            let length: usize = delay_line_length(sample_rate, frequency);
            if length == 0 {
                assert(!(string_frequency(i as nat) <= 2 * sample_rate));
                return None;
            }
            let ghost before = bank@;
            let f0 = arith(Operation::Pitch(frequency));
            bank.add_string(length, f0, envelope_follower_coeff, arith);
            proof {
                let after = bank@;
                assert forall|j: int| 0 <= j < i + 1 implies {
                    &&& arith.ensures(
                        (Operation::Pitch(string_frequency(j as nat) as u128),),
                        (#[trigger] after.strings[j]).f0,
                    )
                    &&& strung(
                        after.strings[j],
                        rounded_ratio(sample_rate as nat, string_frequency(j as nat)) as usize,
                        after.strings[j].f0,
                        envelope_follower_coeff,
                        zero,
                        *arith,
                    )
                } by {
                    if j < i {
                        assert(after.strings.drop_last()[j] == before.strings[j]);
                    } else {
                        assert(after.strings[j] == after.strings.last());
                    }
                }
            }
            i = i + 1;
        }
        Some(bank)
    }

    /// The number of strings.
    pub fn string_count(&self) -> (count: usize)
        ensures
            count == self@.count(),
    {
        self.strings.len()
    }

    /// Appends a new string, made as `KarplusString::new` makes it, with the
    /// bank's zero.
    pub fn add_string<A>(
        &mut self,
        delay_line_length: usize,
        f0: S,
        envelope_follower_coeff: S,
        arith: &A,
    ) where A: Fn(Operation<S>) -> S
        requires
            delay_line_length >= 1,
            total(*arith),
        ensures
            old(self)@.grows_to(
                final(self)@,
                delay_line_length,
                f0,
                envelope_follower_coeff,
                *arith,
            ),
    {
        let string = KarplusString::new(delay_line_length, f0, envelope_follower_coeff, self.zero, arith);
        self.strings.push(string);
        proof {
            assert(self@.strings.drop_last() =~= old(self)@.strings);
        }
    }

    /// Plucks string `i`, or says that there is no such string and changes
    /// nothing.
    pub fn pluck_string(&mut self, i: usize) -> (r: Result<(), IndexOutOfRange>)
        ensures
            i < old(self)@.count() ==> r == Ok::<(), IndexOutOfRange>(()) && final(self)@
                == old(self)@.plucked(i as int),
            i >= old(self)@.count() ==> r == Err::<(), IndexOutOfRange>(
                IndexOutOfRange::at(i, old(self)@.count()),
            ) && final(self)@ == old(self)@,
    {
        let count: usize = self.strings.len();
        if i < count {
            self.strings[i].pluck();
            proof {
                assert(self@.strings =~= old(self)@.plucked(i as int).strings);
            }
            Ok(())
        } else {
            Err(IndexOutOfRange { index: i, count })
        }
    }

    /// The envelope of string `i`.
    pub fn amplitude(&self, i: usize) -> (r: Result<S, IndexOutOfRange>)
        ensures
            i < self@.count() ==> r == Ok::<S, IndexOutOfRange>(self@.strings[i as int].envelope),
            i >= self@.count() ==> r == Err::<S, IndexOutOfRange>(
                IndexOutOfRange::at(i, self@.count()),
            ),
    {
        let count: usize = self.strings.len();
        if i < count {
            Ok(self.strings[i].envelope())
        } else {
            Err(IndexOutOfRange { index: i, count })
        }
    }

    /// How far the animation of string `i` has come.
    pub fn vibration(&self, i: usize) -> (r: Result<Vibration, IndexOutOfRange>)
        ensures
            i < self@.count() ==> r == Ok::<Vibration, IndexOutOfRange>(
                self@.strings[i as int].vibration(),
            ) && self@.strings[i as int].phase() < self@.strings[i as int].len() <= usize::MAX,
            i >= self@.count() ==> r == Err::<Vibration, IndexOutOfRange>(
                IndexOutOfRange::at(i, self@.count()),
            ),
    {
        let count: usize = self.strings.len();
        if i < count {
            Ok(self.strings[i].vibration())
        } else {
            Err(IndexOutOfRange { index: i, count })
        }
    }

    /// String `i`, to look at, if there is one.
    pub fn string(&self, i: usize) -> (r: Option<&KarplusString<S>>)
        ensures
            i < self@.count() ==> r is Some && r->0@ == self@.strings[i as int],
            i >= self@.count() ==> r is None,
    {
        if i < self.strings.len() {
            Some(&self.strings[i])
        } else {
            None
        }
    }

    /// One sample period of the whole bank: every string ticks once, in index
    /// order, and what they sound is added up in that order, starting from
    /// zero.
    pub fn tick<A>(&mut self, arith: &A) -> (out: S) where A: Fn(Operation<S>) -> S
        requires
            total(*arith),
        ensures
            old(self)@.ticks_to(final(self)@, out, *arith),
    {
        let ghost pre = self@;
        let ghost mut running: Seq<S> = seq![self.zero];
        let count: usize = self.strings.len();
        let mut out: S = self.zero;
        let mut i: usize = 0;
        while i < count
            invariant
                i <= count,
                count == self.strings@.len(),
                self@.zero == pre.zero,
                self@.strings.len() == pre.strings.len(),
                forall|j: int|
                    0 <= j < i ==> (#[trigger] pre.strings[j]).steps_to(self@.strings[j], *arith),
                forall|j: int| i <= j < count ==> self@.strings[j] == #[trigger] pre.strings[j],
                adds_up_through(*arith, pre.zero, pre.sounded(self@).take(i as int), running),
                running.last() == out,
                total(*arith),
            decreases count - i,
        {
            let ghost mid = self@;
            let ghost earlier = running;
            let sum = self.strings[i].tick(arith);
            out = arith(Operation::Add(out, sum));
            i = i + 1;
            proof {
                running = earlier.push(out);
                let before = pre.sounded(mid).take(i - 1);
                let parts = pre.sounded(self@).take(i as int);
                assert forall|j: int| 0 <= j < parts.len() implies arith.ensures(
                    (Operation::Add(running[j], #[trigger] parts[j]),),
                    running[j + 1],
                ) by {
                    if j < i - 1 {
                        assert(parts[j] == before[j]);
                    }
                }
            }
        }
        proof {
            assert(pre.sounded(self@).take(count as int) =~= pre.sounded(self@));
        }
        out
    }

    /// Fills `out` with as many sample periods of the bank as it has slots.
    pub fn process<A>(&mut self, out: &mut [S], arith: &A) where A: Fn(Operation<S>) -> S
        requires
            total(*arith),
        ensures
            final(out)@.len() == old(out)@.len(),
            old(self)@.plays_to(final(self)@, final(out)@, *arith),
    {
        let ghost pre = self@;
        let ghost mut states: Seq<KarplusView<S>> = seq![self@];
        let size: usize = out.len();
        let mut k: usize = 0;
        while k < size
            invariant
                k <= size,
                out@.len() == size,
                pre.plays_through(states, out@.take(k as int), *arith),
                states.last() == self@,
                total(*arith),
            decreases size - k,
        {
            let ghost earlier = states;
            let ghost played = out@.take(k as int);
            let sample = self.tick(arith);
            out[k] = sample;
            k = k + 1;
            proof {
                states = earlier.push(self@);
                let samples = out@.take(k as int);
                assert forall|j: int| 0 <= j < samples.len() implies states[j].ticks_to(
                    states[j + 1],
                    #[trigger] samples[j],
                    *arith,
                ) by {
                    if j < k - 1 {
                        assert(samples[j] == played[j]);
                    }
                }
            }
        }
        proof {
            assert(out@.take(size as int) =~= out@);
        }
    }
}

/// A new string leaves a well-formed bank well formed, and a bank with nothing
/// to sound stays so: the new string is silent until it is plucked.
pub proof fn lemma_grow_keeps_shape<S, A: Fn(Operation<S>) -> S>(
    pre: KarplusView<S>,
    post: KarplusView<S>,
    delay_line_length: usize,
    f0: S,
    envelope_follower_coeff: S,
    arith: A,
)
    requires
        pre.wf(),
        pre.grows_to(post, delay_line_length, f0, envelope_follower_coeff, arith),
    ensures
        post.wf(),
        post.count() == pre.count() + 1,
        pre.quiet() ==> post.quiet(),
{
    assert forall|i: int| 0 <= i < post.strings.len() implies (#[trigger] post.strings[i]).wf()
        && post.strings[i].zero == post.zero && (pre.quiet() ==> post.strings[i].quiet()) by {
        if i < pre.strings.len() {
            assert(post.strings[i] == post.strings.drop_last()[i]);
            assert(pre.strings[i].wf());
        } else {
            assert(post.strings[i] == post.strings.last());
            lemma_fresh_is_quiet(post.strings[i]);
        }
    }
}

/// A bank tuned by the frequency table is well formed and has nothing to
/// sound.
pub proof fn lemma_tuned_bank_is_quiet<S, A: Fn(Operation<S>) -> S>(
    bank: KarplusView<S>,
    sample_rate: usize,
    count: usize,
    zero: S,
    envelope_follower_coeff: S,
    arith: A,
)
    requires
        bank.tuned(sample_rate, count, zero, envelope_follower_coeff, arith),
    ensures
        bank.wf(),
        bank.quiet(),
        bank.count() == count,
{
    assert forall|i: int| 0 <= i < bank.strings.len() implies (#[trigger] bank.strings[i]).wf()
        && bank.strings[i].zero == bank.zero && bank.strings[i].quiet() by {
        lemma_fresh_is_quiet(bank.strings[i]);
    }
}

/// A pluck leaves a well-formed bank well formed, with as many strings, and
/// touches no string but the one it names.
pub proof fn lemma_pluck_keeps_shape<S>(bank: KarplusView<S>, i: int)
    requires
        bank.wf(),
        0 <= i < bank.count(),
    ensures
        bank.plucked(i).wf(),
        bank.plucked(i).count() == bank.count(),
        bank.plucked(i).strings[i] == bank.strings[i].plucked(),
        forall|j: int| 0 <= j < bank.count() && j != i ==> bank.plucked(i).strings[j] == bank.strings[j],
{
}

/// A sample period leaves a well-formed bank well formed, with as many
/// strings.
pub proof fn lemma_tick_keeps_shape<S, A: Fn(Operation<S>) -> S>(
    pre: KarplusView<S>,
    post: KarplusView<S>,
    out: S,
    arith: A,
)
    requires
        pre.wf(),
        pre.ticks_to(post, out, arith),
    ensures
        post.wf(),
        post.count() == pre.count(),
        post.zero == pre.zero,
{
    assert forall|i: int| 0 <= i < post.strings.len() implies (#[trigger] post.strings[i]).wf()
        && post.strings[i].zero == post.zero by {
        assert(pre.strings[i].steps_to(post.strings[i], arith));
        lemma_step_keeps_shape(pre.strings[i], post.strings[i], arith);
    }
}

/// As zeros are added up, every running sum is zero, whenever zero and zero
/// add up to zero.
pub proof fn lemma_silence_through<S, A: Fn(Operation<S>) -> S>(
    arith: A,
    zero: S,
    parts: Seq<S>,
    running: Seq<S>,
    i: int,
)
    requires
        adds_up_through(arith, zero, parts, running),
        forall|k: int| 0 <= k < parts.len() ==> parts[k] == zero,
        keeps_silence(arith, zero),
        0 <= i <= parts.len(),
    ensures
        running[i] == zero,
    decreases i,
{
    if i > 0 {
        lemma_silence_through(arith, zero, parts, running, i - 1);
        assert(parts[i - 1] == zero);
    }
}

/// Any number of zeros add up to zero, whenever zero and zero do.
pub proof fn lemma_sum_of_silence<S, A: Fn(Operation<S>) -> S>(
    arith: A,
    zero: S,
    parts: Seq<S>,
    sum: S,
)
    requires
        adds_up_to(arith, zero, parts, sum),
        forall|k: int| 0 <= k < parts.len() ==> parts[k] == zero,
        keeps_silence(arith, zero),
    ensures
        sum == zero,
{
    let running = choose|running: Seq<S>|
        #[trigger] adds_up_through(arith, zero, parts, running) && running.last() == sum;
    lemma_silence_through(arith, zero, parts, running, parts.len() as int);
}

/// A bank of newly made strings has nothing to sound.
pub proof fn lemma_fresh_bank_is_quiet<S>(bank: KarplusView<S>)
    requires
        bank.wf(),
        forall|i: int| 0 <= i < bank.count() ==> (#[trigger] bank.strings[i]).fresh(),
    ensures
        bank.quiet(),
{
    assert forall|i: int| 0 <= i < bank.count() implies (#[trigger] bank.strings[i]).quiet() by {
        lemma_fresh_is_quiet(bank.strings[i]);
    }
}

/// A bank in which no string has anything left to sound gives zero in the next
/// sample period and is as quiet after it, whenever the arithmetic makes
/// nothing out of nothing.
pub proof fn lemma_quiet_bank_stays_quiet<S, A: Fn(Operation<S>) -> S>(
    pre: KarplusView<S>,
    post: KarplusView<S>,
    out: S,
    arith: A,
)
    requires
        pre.wf(),
        pre.quiet(),
        pre.ticks_to(post, out, arith),
        keeps_silence(arith, pre.zero),
    ensures
        out == pre.zero,
        post.wf(),
        post.quiet(),
        post.zero == pre.zero,
{
    lemma_tick_keeps_shape(pre, post, out, arith);
    assert forall|i: int| 0 <= i < pre.strings.len() implies (#[trigger] post.strings[i]).quiet()
        && pre.sounded(post)[i] == pre.zero by {
        assert(pre.strings[i].steps_to(post.strings[i], arith));
        lemma_quiet_string_stays_quiet(pre.strings[i], post.strings[i], arith);
    }
    lemma_sum_of_silence(arith, pre.zero, pre.sounded(post), out);
}

/// Along any run of sample periods from a bank in which no string has
/// anything left to sound, the bank stays so and every sample is zero, whenever
/// the arithmetic makes nothing out of nothing.
pub proof fn lemma_bank_silent_through<S, A: Fn(Operation<S>) -> S>(
    pre: KarplusView<S>,
    states: Seq<KarplusView<S>>,
    samples: Seq<S>,
    arith: A,
    k: int,
)
    requires
        pre.wf(),
        pre.quiet(),
        pre.plays_through(states, samples, arith),
        keeps_silence(arith, pre.zero),
        0 <= k <= samples.len(),
    ensures
        states[k].wf(),
        states[k].quiet(),
        states[k].zero == pre.zero,
        forall|j: int| 0 <= j < k ==> samples[j] == pre.zero,
    decreases k,
{
    if k > 0 {
        lemma_bank_silent_through(pre, states, samples, arith, k - 1);
        let j = k - 1;
        assert(states[j].ticks_to(states[j + 1], samples[j], arith));
        lemma_quiet_bank_stays_quiet(states[j], states[j + 1], samples[j], arith);
    }
}

/// Until a string is plucked the bank is silent: from a bank in which no string
/// has anything left to sound, every one of any number of sample periods gives
/// zero, whenever the arithmetic makes nothing out of nothing.
pub proof fn lemma_unplucked_bank_is_silent<S, A: Fn(Operation<S>) -> S>(
    pre: KarplusView<S>,
    post: KarplusView<S>,
    samples: Seq<S>,
    arith: A,
)
    requires
        pre.wf(),
        pre.quiet(),
        pre.plays_to(post, samples, arith),
        keeps_silence(arith, pre.zero),
    ensures
        forall|k: int| 0 <= k < samples.len() ==> samples[k] == pre.zero,
        post.wf(),
        post.quiet(),
        post.zero == pre.zero,
{
    let states = choose|states: Seq<KarplusView<S>>|
        #[trigger] pre.plays_through(states, samples, arith) && states.last() == post;
    lemma_bank_silent_through(pre, states, samples, arith, samples.len() as int);
}

} // verus!
