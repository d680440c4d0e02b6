use vstd::prelude::*;

verus! {

/// The settings of exponential smoothing: the value moves towards its
/// target so that, after `length_sec` seconds, the distance left is
/// `10^-exp_rate` of what it was.
pub struct ExponentialSmoothing<T> {
    length_sec: T,
    exp_rate: T,
}

impl<T: Copy> View for ExponentialSmoothing<T> {
    /// `(length_sec, exp_rate)`.
    type V = (T, T);

    closed spec fn view(&self) -> (T, T) {
        (self.length_sec, self.exp_rate)
    }
}

impl<T: Copy> ExponentialSmoothing<T> {
    /// Exponential smoothing over `length_sec` seconds at rate `10^exp_rate`.
    pub fn new(length_sec: T, exp_rate: T) -> (r: Self)
        ensures
            r@ == (length_sec, exp_rate),
    {
        ExponentialSmoothing { length_sec, exp_rate }
    }

    /// The length of the smoothing in seconds.
    pub fn length_sec(&self) -> (r: T)
        ensures
            r == self@.0,
    {
        self.length_sec
    }

    /// The power of ten by which the distance to the target shrinks over
    /// `length_sec`.
    pub fn exp_rate(&self) -> (r: T)
        ensures
            r == self@.1,
    {
        self.exp_rate
    }
}

} // verus!
