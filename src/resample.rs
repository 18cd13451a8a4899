use vstd::prelude::*;

verus! {

/// The cursor after a block of `input_len` input samples has been consumed:
/// past the end it wraps back by one block length (a periodic boundary).
pub open spec fn wrapped(position: nat, input_len: nat, output_rate: nat) -> nat {
    if position >= input_len * output_rate {
        (position - input_len * output_rate) as nat
    } else {
        position
    }
}

/// The state of a linear-interpolation resampler: its fractional read
/// cursor over the input. The cursor is kept exactly, in units of
/// `1 / output_rate` input samples, so each output sample advances it by
/// `input_rate` units: the ratio `input_rate / output_rate`.
pub struct SimpleResampler {
    input_rate: u32,
    output_rate: u32,
    position: u64,
}

impl SimpleResampler {
    /// The position, in units of `1 / output_rate` input samples.
    pub closed spec fn spec_position(&self) -> nat {
        self.position as nat
    }

    pub closed spec fn spec_input_rate(&self) -> nat {
        self.input_rate as nat
    }

    pub closed spec fn spec_output_rate(&self) -> nat {
        self.output_rate as nat
    }

    /// A cursor at the start of the input.
    pub fn new(input_rate: u32, output_rate: u32) -> (r: Self)
        requires
            output_rate > 0,
        ensures
            r.spec_input_rate() == input_rate,
            r.spec_output_rate() == output_rate,
            r.spec_position() == 0,
    {
        SimpleResampler { input_rate, output_rate, position: 0 }
    }

    /// The rate of the input.
    pub fn input_rate(&self) -> (r: u32)
        ensures
            r == self.spec_input_rate(),
    {
        self.input_rate
    }

    /// The rate of the output; the denominator of every fraction.
    pub fn output_rate(&self) -> (r: u32)
        ensures
            r == self.spec_output_rate(),
    {
        self.output_rate
    }

    /// The position, in units of `1 / output_rate` input samples.
    pub fn position(&self) -> (r: u64)
        ensures
            r == self.spec_position(),
    {
        self.position
    }

    /// Whether the cursor can advance once more without leaving `u64`.
    pub fn can_advance(&self) -> (r: bool)
        ensures
            r == (self.spec_position() + self.spec_input_rate() <= u64::MAX),
    {
        self.position <= u64::MAX - self.input_rate as u64
    }

    /// Where the next output sample is read: the input index at or before
    /// the cursor and the fraction towards the following index, as a
    /// numerator over `output_rate`. The cursor then advances by one output
    /// sample.
    pub fn next_tap(&mut self) -> (r: (u64, u32))
        requires
            old(self).spec_output_rate() > 0,
            old(self).spec_position() + old(self).spec_input_rate() <= u64::MAX,
        ensures
            r.0 == old(self).spec_position() / old(self).spec_output_rate(),
            r.1 == old(self).spec_position() % old(self).spec_output_rate(),
            final(self).spec_position() == old(self).spec_position() + old(self).spec_input_rate(),
            final(self).spec_input_rate() == old(self).spec_input_rate(),
            final(self).spec_output_rate() == old(self).spec_output_rate(),
    {
        let rate = self.output_rate as u64;
        let index = self.position / rate;
        let frac = (self.position % rate) as u32;
        self.position = self.position + self.input_rate as u64;
        (index, frac)
    }

    /// Ends a block of `input_len` input samples: a cursor at or past its
    /// end moves back by the block's length.
    pub fn finish_block(&mut self, input_len: usize)
        ensures
            final(self).spec_position() == wrapped(
                old(self).spec_position(),
                input_len as nat,
                old(self).spec_output_rate(),
            ),
            final(self).spec_input_rate() == old(self).spec_input_rate(),
            final(self).spec_output_rate() == old(self).spec_output_rate(),
    {
        let len = input_len as u128;
        let rate = self.output_rate as u128;
        assert(len * rate <= u64::MAX as int * u32::MAX as int) by (nonlinear_arith)
            requires
                len <= u64::MAX,
                rate <= u32::MAX,
        ;
        let span = len * rate;
        if self.position as u128 >= span {
            self.position = (self.position as u128 - span) as u64;
        }
    }

    /// Moves the cursor back to the start of the input.
    pub fn reset(&mut self)
        ensures
            final(self).spec_position() == 0,
            final(self).spec_input_rate() == old(self).spec_input_rate(),
            final(self).spec_output_rate() == old(self).spec_output_rate(),
    {
        self.position = 0;
    }
}

} // verus!
