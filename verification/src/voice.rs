//! One plucked string: a feedback delay line, a fixed excitation burst and the
//! two cursors that walk them.

use vstd::prelude::*;
use crate::noise::{advanced, draw, seeded, Rand};

verus! {

/// One piece of arithmetic on samples that the engine asks its caller for.
/// The engine decides which samples go into which operation and where the
/// result goes; what the result is, is the caller's part.
pub enum Operation<S> {
    /// The excitation sample that is made of a word of the noise generator.
    Excite(u32),
    /// A frequency in whole Hz as a sample-typed number.
    Pitch(u128),
    /// The lowpass in the feedback path: the new filter memory, from the sample
    /// that leaves the delay line and the memory of the period before.
    Lowpass { delay_out: S, filter_z: S },
    /// The sum of two samples, in this order.
    Add(S, S),
    /// The envelope follower: the new envelope, from the follower's
    /// coefficient, the envelope of the period before and the sum just sounded.
    Follow { coeff: S, envelope: S, sum: S },
}

/// `arith` can be asked for any operation.
pub open spec fn total<S, A: Fn(Operation<S>) -> S>(arith: A) -> bool {
    forall|op: Operation<S>| arith.requires((op,))
}

/// How far a string's animation has come: `phase` parts of `period`, so less
/// than one whole.
#[derive(Clone, Copy, Debug, PartialEq, Eq, Structural)]
pub struct Vibration {
    pub phase: usize,
    pub period: usize,
}

/// A string as a mathematical value.
pub struct StringView<S> {
    pub delay_line: Seq<S>,
    pub delay_line_index: nat,
    pub excitation_read_index: nat,
    pub excitation: Seq<S>,
    pub filter_z: S,
    pub envelope: S,
    pub envelope_follower_coeff: S,
    pub f0: S,
    pub zero: S,
}

impl<S> StringView<S> {
    /// The delay line is not empty, the burst is as long as the delay line, and
    /// the delay cursor is inside it.
    pub open spec fn wf(self) -> bool {
        &&& self.delay_line.len() >= 1
        &&& self.excitation.len() == self.delay_line.len()
        &&& self.delay_line_index < self.delay_line.len()
        &&& self.excitation_read_index <= usize::MAX
    }

    /// The length of the delay line.
    pub open spec fn len(self) -> nat {
        self.delay_line.len()
    }

    /// The excitation of the next sample period: the burst sample under the
    /// cursor, or zero once the burst is spent.
    pub open spec fn excitation_now(self) -> S {
        if self.excitation_read_index < self.len() {
            self.excitation[self.excitation_read_index as int]
        } else {
            self.zero
        }
    }

    /// The sample that leaves the delay line in the next sample period.
    pub open spec fn delay_out(self) -> S {
        self.delay_line[self.delay_line_index as int]
    }

    /// How far round the animation is, in samples: a third of the way the burst
    /// cursor has come, wrapped to the length of the string.
    pub open spec fn phase(self) -> nat {
        (self.excitation_read_index / 3) % self.len()
    }

    /// The phase out of the length of the string.
    pub open spec fn vibration(self) -> Vibration {
        Vibration { phase: self.phase() as usize, period: self.len() as usize }
    }

    /// The string after a pluck: only the excitation cursor moves, back to the start.
    pub open spec fn plucked(self) -> Self {
        StringView { excitation_read_index: 0, ..self }
    }

    /// The string after one sample period in which the arithmetic gave the new
    /// filter memory, the sum and the new envelope: the sum is written back
    /// where the delay line was read, the delay cursor steps round the line, and
    /// the excitation cursor steps on until the machine's largest index, where
    /// it stays.
    pub open spec fn ticked(self, filter_z: S, sum: S, envelope: S) -> Self {
        StringView {
            delay_line: self.delay_line.update(self.delay_line_index as int, sum),
            delay_line_index: (self.delay_line_index + 1) % self.len(),
            excitation_read_index: if self.excitation_read_index < usize::MAX {
                self.excitation_read_index + 1
            } else {
                self.excitation_read_index
            },
            filter_z,
            envelope,
            ..self
        }
    }

    /// The sample that the period from `self` to `post` sounded, read back from
    /// the slot it was written to.
    pub open spec fn sounded(self, post: Self) -> S {
        post.delay_line[self.delay_line_index as int]
    }

    /// `post` is `self` one sample period later, with `arith` as the
    /// arithmetic. The lowpass takes what leaves the delay line and the old
    /// filter memory; the sum is the excitation plus the new filter memory; the
    /// follower takes the old envelope and that sum.
    pub open spec fn steps_to<A: Fn(Operation<S>) -> S>(self, post: Self, arith: A) -> bool {
        &&& arith.ensures(
            (Operation::Lowpass { delay_out: self.delay_out(), filter_z: self.filter_z },),
            post.filter_z,
        )
        &&& arith.ensures(
            (Operation::Add(self.excitation_now(), post.filter_z),),
            self.sounded(post),
        )
        &&& arith.ensures(
            (
                Operation::Follow {
                    coeff: self.envelope_follower_coeff,
                    envelope: self.envelope,
                    sum: self.sounded(post),
                },
            ),
            post.envelope,
        )
        &&& post == self.ticked(post.filter_z, self.sounded(post), post.envelope)
    }

    /// `states` are what the string is before, between and after
    /// `sums.len()` sample periods that start from `self` and sound `sums`, in
    /// order.
    pub open spec fn rings_through<A: Fn(Operation<S>) -> S>(
        self,
        states: Seq<Self>,
        sums: Seq<S>,
        arith: A,
    ) -> bool {
        &&& states.len() == sums.len() + 1
        &&& states[0] == self
        &&& forall|k: int|
            0 <= k < sums.len() ==> states[k].steps_to(states[k + 1], arith) && states[k].sounded(
                states[k + 1],
            ) == #[trigger] sums[k]
    }

    /// `post` is `self` after `sums.len()` sample periods that sounded `sums`, in order.
    pub open spec fn rings_to<A: Fn(Operation<S>) -> S>(
        self,
        post: Self,
        sums: Seq<S>,
        arith: A,
    ) -> bool {
        exists|states: Seq<Self>|
            #[trigger] self.rings_through(states, sums, arith) && states.last() == post
    }

    /// A string as it is made: nothing in the delay line or the filter, and the
    /// burst already spent.
    pub open spec fn fresh(self) -> bool {
        &&& self.delay_line == Seq::new(self.len(), |i: int| self.zero)
        &&& self.delay_line_index == 0
        &&& self.excitation_read_index == self.len()
        &&& self.filter_z == self.zero
        &&& self.envelope == self.zero
    }

    /// Nothing is left to sound: the burst is spent, and the delay line and the
    /// filter hold only zero.
    pub open spec fn quiet(self) -> bool {
        &&& self.excitation_read_index >= self.len()
        &&& self.filter_z == self.zero
        &&& forall|i: int| 0 <= i < self.len() ==> self.delay_line[i] == self.zero
    }
}

/// The burst that `arith` makes of the generator's first words under seed 0.
pub open spec fn burst_of<S, A: Fn(Operation<S>) -> S>(arith: A, excitation: Seq<S>) -> bool {
    forall|j: int|
        0 <= j < excitation.len() ==> arith.ensures(
            (Operation::Excite(draw(seeded(0), j as nat)),),
            #[trigger] excitation[j],
        )
}

/// `string` is a string as it is made for these arguments: well formed, fresh,
/// of the length asked for, with the burst that `arith` makes.
pub open spec fn strung<S, A: Fn(Operation<S>) -> S>(
    string: StringView<S>,
    delay_line_length: usize,
    f0: S,
    envelope_follower_coeff: S,
    zero: S,
    arith: A,
) -> bool {
    &&& string.wf()
    &&& string.fresh()
    &&& string.len() == delay_line_length
    &&& burst_of(arith, string.excitation)
    &&& string.envelope_follower_coeff == envelope_follower_coeff
    &&& string.f0 == f0
    &&& string.zero == zero
}

/// The arithmetic makes nothing out of nothing: the lowpass of zero and zero
/// is zero, and so is their sum.
pub open spec fn keeps_silence<S, A: Fn(Operation<S>) -> S>(arith: A, zero: S) -> bool {
    &&& forall|r: S|
        #[trigger] arith.ensures((Operation::Lowpass { delay_out: zero, filter_z: zero },), r)
            ==> r == zero
    &&& forall|r: S| #[trigger] arith.ensures((Operation::Add(zero, zero),), r) ==> r == zero
}

/// A string for samples of type `S`.
#[derive(Debug, PartialEq)]
pub struct KarplusString<S> {
    delay_line: Vec<S>,
    delay_line_index: usize,
    excitation_read_index: usize,
    excitation: Vec<S>,
    filter_z: S,
    envelope: S,
    envelope_follower_coeff: S,
    f0: S,
    zero: S,
}

impl<S> View for KarplusString<S> {
    type V = StringView<S>;

    closed spec fn view(&self) -> StringView<S> {
        StringView {
            delay_line: self.delay_line@,
            delay_line_index: self.delay_line_index as nat,
            excitation_read_index: self.excitation_read_index as nat,
            excitation: self.excitation@,
            filter_z: self.filter_z,
            envelope: self.envelope,
            envelope_follower_coeff: self.envelope_follower_coeff,
            f0: self.f0,
            zero: self.zero,
        }
    }
}

impl<S> KarplusString<S> {
    /// Holds of every string at all times: no call can leave the delay cursor
    /// outside the line or change the length of a buffer.
    #[verifier::type_invariant]
    pub open spec fn well_formed(self) -> bool {
        self@.wf()
    }
}

impl<S: Copy> KarplusString<S> {
    /// Makes a string with a delay line of `delay_line_length` zeros and a burst
    /// of as many samples, made of the words of a generator seeded with 0. The
    /// string is silent until it is plucked.
    pub fn new<A>(
        delay_line_length: usize,
        f0: S,
        envelope_follower_coeff: S,
        zero: S,
        arith: &A,
    ) -> (string: Self) where A: Fn(Operation<S>) -> S
        requires
            delay_line_length >= 1,
            total(*arith),
        ensures
            strung(string@, delay_line_length, f0, envelope_follower_coeff, zero, *arith),
    {
        let mut delay_line: Vec<S> = Vec::new();
        let mut excitation: Vec<S> = Vec::new();
        let mut rng = Rand::new(0);
        let mut j: usize = 0;
        while j < delay_line_length
            invariant
                j <= delay_line_length,
                delay_line@ == Seq::new(j as nat, |i: int| zero),
                excitation@.len() == j,
                rng@ == advanced(seeded(0), j as nat),
                burst_of(*arith, excitation@),
                total(*arith),
            decreases delay_line_length - j,
        {
            let word = rng.rand();
            let sample = arith(Operation::Excite(word));
            delay_line.push(zero);
            excitation.push(sample);
            j = j + 1;
            proof {
                assert(delay_line@ =~= Seq::new(j as nat, |i: int| zero));
            }
        }
        KarplusString {
            delay_line,
            delay_line_index: 0,
            excitation_read_index: delay_line_length,
            excitation,
            filter_z: zero,
            envelope: zero,
            envelope_follower_coeff,
            f0,
            zero,
        }
    }

    /// The length of the delay line, which is also the length of the burst. It
    /// is fixed when the string is made and is never 0.
    pub fn delay_line_length(&self) -> (length: usize)
        ensures
            self@.wf(),
            length == self@.len(),
            length >= 1,
    {
        proof {
            use_type_invariant(self);
        }
        self.delay_line.len()
    }

    /// The burst cursor. At or past the length of the string it means that the
    /// burst is spent.
    pub fn excitation_read_index(&self) -> (index: usize)
        ensures
            index == self@.excitation_read_index,
    {
        self.excitation_read_index
    }

    /// The smoothed magnitude of what the string last sounded.
    pub fn envelope(&self) -> (envelope: S)
        ensures
            envelope == self@.envelope,
    {
        self.envelope
    }

    /// The samples that are on their way round the loop.
    pub fn delay_line(&self) -> (delay_line: &Vec<S>)
        ensures
            delay_line@ == self@.delay_line,
    {
        &self.delay_line
    }

    /// The delay cursor: the slot that the next sample period reads and writes.
    pub fn delay_line_index(&self) -> (index: usize)
        ensures
            index == self@.delay_line_index,
            index < self@.len(),
    {
        proof {
            use_type_invariant(self);
        }
        self.delay_line_index
    }

    /// The burst that a pluck plays into the loop.
    pub fn excitation(&self) -> (excitation: &Vec<S>)
        ensures
            excitation@ == self@.excitation,
    {
        &self.excitation
    }

    /// The memory of the lowpass.
    pub fn filter_z(&self) -> (filter_z: S)
        ensures
            filter_z == self@.filter_z,
    {
        self.filter_z
    }

    /// The coefficient that the envelope follower is asked with.
    pub fn envelope_follower_coeff(&self) -> (coeff: S)
        ensures
            coeff == self@.envelope_follower_coeff,
    {
        self.envelope_follower_coeff
    }

    /// The frequency that the string was made for. Nothing is worked out from it.
    pub fn f0(&self) -> (f0: S)
        ensures
            f0 == self@.f0,
    {
        self.f0
    }

    /// How far the string's animation has come: a third of the way the burst
    /// cursor has come, wrapped to the length of the string, out of that length.
    pub fn vibration(&self) -> (vibration: Vibration)
        ensures
            vibration == self@.vibration(),
            vibration.phase == self@.phase(),
            vibration.period == self@.len(),
            vibration.phase < vibration.period,
    {
        proof {
            use_type_invariant(self);
        }
        let period: usize = self.delay_line.len();
        let phase: usize = (self.excitation_read_index / 3) % period;
        Vibration { phase, period }
    }

    /// Starts the burst over. Delay line, filter and envelope are left as they
    /// are, so a pluck on a ringing string adds to what still sounds.
    pub fn pluck(&mut self)
        ensures
            final(self)@ == old(self)@.plucked(),
    {
        proof {
            use_type_invariant(&*self);
        }
        self.excitation_read_index = 0;
    }

    /// One sample period. The string reads its two buffers, has `arith` work
    /// out the new filter memory, the sum and the new envelope, writes the sum
    /// back into the delay line, moves both cursors and returns the sum.
    pub fn tick<A>(&mut self, arith: &A) -> (sum: S) where A: Fn(Operation<S>) -> S
        requires
            total(*arith),
        ensures
            final(self)@.wf(),
            old(self)@.steps_to(final(self)@, *arith),
            sum == old(self)@.sounded(final(self)@),
    {
        proof {
            use_type_invariant(&*self);
        }
        let delay_line_length: usize = self.delay_line.len();
        let excitation: S = if self.excitation_read_index < delay_line_length {
            self.excitation[self.excitation_read_index]
        } else {
            self.zero
        };
        let delay_out: S = self.delay_line[self.delay_line_index];
        let filter_z: S = arith(Operation::Lowpass { delay_out, filter_z: self.filter_z });
        let sum: S = arith(Operation::Add(excitation, filter_z));
        let envelope: S = arith(
            Operation::Follow { coeff: self.envelope_follower_coeff, envelope: self.envelope, sum },
        );
        self.filter_z = filter_z;
        self.delay_line[self.delay_line_index] = sum;
        self.envelope = envelope;
        self.delay_line_index = (self.delay_line_index + 1) % delay_line_length;
        self.excitation_read_index = self.excitation_read_index.saturating_add(1);
        proof {
            assert(self@.delay_line =~= old(self)@.ticked(filter_z, sum, envelope).delay_line);
        }
        sum
    }
}

/// A pluck leaves a well-formed string well formed and moves nothing but the
/// burst cursor, which goes back to the start.
pub proof fn lemma_pluck_moves_only_the_cursor<S>(string: StringView<S>)
    requires
        string.wf(),
    ensures
        string.plucked().wf(),
        string.plucked() == (StringView { excitation_read_index: 0, ..string }),
{
}

/// A sample period leaves a well-formed string well formed. The length of the
/// delay line, the burst and the constants stay as they are, the delay cursor
/// stays inside the line, and the burst cursor does not go back.
pub proof fn lemma_step_keeps_shape<S, A: Fn(Operation<S>) -> S>(
    pre: StringView<S>,
    post: StringView<S>,
    arith: A,
)
    requires
        pre.wf(),
        pre.steps_to(post, arith),
    ensures
        post.wf(),
        post.len() == pre.len(),
        post.delay_line_index < post.len(),
        post.excitation == pre.excitation,
        post.excitation_read_index >= pre.excitation_read_index,
        post.envelope_follower_coeff == pre.envelope_follower_coeff,
        post.f0 == pre.f0,
        post.zero == pre.zero,
{
    assert((pre.delay_line_index + 1) % pre.len() < pre.len()) by (nonlinear_arith)
        requires
            pre.len() >= 1,
    ;
}

/// A string as it is made has nothing left to sound.
pub proof fn lemma_fresh_is_quiet<S>(string: StringView<S>)
    requires
        string.wf(),
        string.fresh(),
    ensures
        string.quiet(),
{
}

/// A string with nothing left to sound sounds zero in the next sample period
/// and has nothing left to sound after it, whenever the arithmetic makes
/// nothing out of nothing.
pub proof fn lemma_quiet_string_stays_quiet<S, A: Fn(Operation<S>) -> S>(
    pre: StringView<S>,
    post: StringView<S>,
    arith: A,
)
    requires
        pre.wf(),
        pre.quiet(),
        pre.steps_to(post, arith),
        keeps_silence(arith, pre.zero),
    ensures
        pre.sounded(post) == pre.zero,
        post.wf(),
        post.quiet(),
        post.zero == pre.zero,
{
    lemma_step_keeps_shape(pre, post, arith);
    assert(pre.delay_out() == pre.zero);
}

/// Along any run of sample periods from a string with nothing left to sound,
/// the string stays so and every sum is zero, whenever the arithmetic makes
/// nothing out of nothing.
pub proof fn lemma_string_silent_through<S, A: Fn(Operation<S>) -> S>(
    pre: StringView<S>,
    states: Seq<StringView<S>>,
    sums: Seq<S>,
    arith: A,
    k: int,
)
    requires
        pre.wf(),
        pre.quiet(),
        pre.rings_through(states, sums, arith),
        keeps_silence(arith, pre.zero),
        0 <= k <= sums.len(),
    ensures
        states[k].wf(),
        states[k].quiet(),
        states[k].zero == pre.zero,
        forall|j: int| 0 <= j < k ==> sums[j] == pre.zero,
    decreases k,
{
    if k > 0 {
        lemma_string_silent_through(pre, states, sums, arith, k - 1);
        let j = k - 1;
        assert(states[j].sounded(states[j + 1]) == sums[j]);
        lemma_quiet_string_stays_quiet(states[j], states[j + 1], arith);
    }
}

/// A string that is never plucked is silent for good: from a string with
/// nothing left to sound, every one of any number of sample periods sounds
/// zero, whenever the arithmetic makes nothing out of nothing.
pub proof fn lemma_unplucked_string_is_silent<S, A: Fn(Operation<S>) -> S>(
    pre: StringView<S>,
    post: StringView<S>,
    sums: Seq<S>,
    arith: A,
)
    requires
        pre.wf(),
        pre.quiet(),
        pre.rings_to(post, sums, arith),
        keeps_silence(arith, pre.zero),
    ensures
        forall|k: int| 0 <= k < sums.len() ==> sums[k] == pre.zero,
        post.wf(),
        post.quiet(),
        post.zero == pre.zero,
{
    let states = choose|states: Seq<StringView<S>>|
        #[trigger] pre.rings_through(states, sums, arith) && states.last() == post;
    lemma_string_silent_through(pre, states, sums, arith, sums.len() as int);
}

/// A string that was made and never plucked sounds zero in every sample
/// period, however many there are, whenever the arithmetic makes nothing out of
/// nothing.
pub proof fn lemma_new_string_is_silent<S, A: Fn(Operation<S>) -> S>(
    string: StringView<S>,
    delay_line_length: usize,
    f0: S,
    envelope_follower_coeff: S,
    zero: S,
    post: StringView<S>,
    sums: Seq<S>,
    arith: A,
)
    requires
        strung(string, delay_line_length, f0, envelope_follower_coeff, zero, arith),
        string.rings_to(post, sums, arith),
        keeps_silence(arith, zero),
    ensures
        forall|k: int| 0 <= k < sums.len() ==> sums[k] == zero,
{
    lemma_fresh_is_quiet(string);
    lemma_unplucked_string_is_silent(string, post, sums, arith);
}

} // verus!
