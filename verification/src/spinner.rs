//! A spinner: a value between two bounds that is stepped up and down.

use vstd::prelude::*;
use vstd::std_specs::cmp::PartialOrdSpec;
use vstd::std_specs::ops::{AddSpec, SubSpec};
use core::cmp::Ordering;
use vstd::laws_cmp::obeys_partial_cmp_spec_properties;

verus! {

/// What a spinner can hold: a value that is copied freely, compared, shown,
/// and stepped by addition and subtraction.
pub trait SpinnerValue:
    Copy
    + PartialOrd
    + core::fmt::Display
    + core::ops::Add<Output = Self>
    + core::ops::Sub<Output = Self>
where
    Self: Sized,
{
}

impl<T> SpinnerValue for T where
    T: Copy
        + PartialOrd
        + core::fmt::Display
        + core::ops::Add<Output = Self>
        + core::ops::Sub<Output = Self>
{
}

/// `a < b`, as the type compares.
pub open spec fn below<T: PartialOrd>(a: T, b: T) -> bool {
    a.partial_cmp_spec(&b) == Some(Ordering::Less)
}

/// `a > b`, as the type compares.
pub open spec fn above<T: PartialOrd>(a: T, b: T) -> bool {
    a.partial_cmp_spec(&b) == Some(Ordering::Greater)
}

/// The value that a new spinner starts with: `current`, or the bound that it
/// lies beyond.
pub open spec fn initial_value<T: PartialOrd>(current: T, low: T, high: T) -> T {
    if below(current, low) {
        low
    } else if below(high, current) {
        high
    } else {
        current
    }
}

/// `value` brought back between the bounds: first down to `high`, then up to
/// `low`.
pub open spec fn clamped<T: PartialOrd>(value: T, low: T, high: T) -> T {
    let capped = if above(value, high) {
        high
    } else {
        value
    };
    if below(capped, low) {
        low
    } else {
        capped
    }
}

/// `low` is `high`, or comes before it.
pub open spec fn in_order<T: PartialOrd>(low: T, high: T) -> bool {
    low.partial_cmp_spec(&high) == Some(Ordering::Less) || low.partial_cmp_spec(&high) == Some(
        Ordering::Equal,
    )
}

/// Bounds that are in order lie neither below nor above themselves, and
/// the upper bound does not lie below the lower, nor the lower above the
/// upper.
pub proof fn lemma_bounds_in_order<T: PartialOrd>(low: T, high: T)
    requires
        obeys_partial_cmp_spec_properties::<T>(),
        in_order(low, high),
    ensures
        !below(low, low) && !above(low, low),
        !below(high, high) && !above(high, high),
        !below(high, low) && !above(low, high),
{
    reveal(obeys_partial_cmp_spec_properties);
    assert(below(high, high) <==> above(high, high));
    assert(below(low, low) <==> above(low, low));
    assert(below(high, low) <==> above(low, high));
}

/// Between bounds that are in order, a clamped value lies neither below the
/// lower nor above the upper bound, whatever the value was; and a value
/// that lies so is left as it is.
pub proof fn lemma_clamped_within<T: PartialOrd>(value: T, low: T, high: T)
    requires
        obeys_partial_cmp_spec_properties::<T>(),
        in_order(low, high),
    ensures
        !below(clamped(value, low, high), low),
        !above(clamped(value, low, high), high),
        !below(value, low) && !above(value, high) ==> clamped(value, low, high) == value,
{
    lemma_bounds_in_order(low, high);
}

/// Between bounds that are in order, a new spinner starts within them.
pub proof fn lemma_initial_within<T: PartialOrd>(current: T, low: T, high: T)
    requires
        obeys_partial_cmp_spec_properties::<T>(),
        in_order(low, high),
    ensures
        !below(initial_value(current, low, high), low),
        !above(initial_value(current, low, high), high),
{
    lemma_bounds_in_order(low, high);
    // A value that the upper bound lies below lies above the upper bound.
    reveal(obeys_partial_cmp_spec_properties);
    assert(below(high, current) <==> above(current, high));
}

/// What can happen to a spinner.
#[derive(Clone, Copy, Debug, PartialEq, Eq, Structural)]
pub enum SpinnerInput {
    /// The button that increases the value was clicked.
    UpClicked,
    /// The button that decreases the value was clicked.
    DownClicked,
    /// The mouse wheel was turned up over the spinner.
    ScrolledUp,
    /// The mouse wheel was turned down over the spinner.
    ScrolledDown,
}

/// A value between `low` and `high`, stepped by `step_size`.
pub struct Spinner<T> {
    pub low: T,
    pub high: T,
    pub step_size: T,
    pub current: T,
    pub label: String,
}

impl<T: SpinnerValue> Spinner<T> {
    /// Whether `input` steps the value up.
    pub open spec fn steps_up(&self, input: SpinnerInput) -> bool {
        input == SpinnerInput::UpClicked || (input == SpinnerInput::ScrolledUp && below(
            self.current,
            self.high,
        ))
    }

    /// Whether `input` steps the value down.
    pub open spec fn steps_down(&self, input: SpinnerInput) -> bool {
        input == SpinnerInput::DownClicked || (input == SpinnerInput::ScrolledDown && above(
            self.current,
            self.low,
        ))
    }

    /// The value after `input`.
    pub open spec fn stepped(&self, input: SpinnerInput) -> T {
        if self.steps_up(input) {
            clamped(self.current.add_spec(self.step_size), self.low, self.high)
        } else if self.steps_down(input) {
            clamped(self.current.sub_spec(self.step_size), self.low, self.high)
        } else {
            self.current
        }
    }

    /// Creates a spinner. A `current` beyond a bound starts at that bound.
    pub fn widget(label: String, bounds: (T, T), current: T, step_size: T) -> (s: Spinner<T>)
        requires
            T::obeys_partial_cmp_spec(),
        ensures
            s.low == bounds.0,
            s.high == bounds.1,
            s.step_size == step_size,
            s.current == initial_value(current, bounds.0, bounds.1),
            s.label@ == label@,
    {
        Self::new(label, bounds, current, step_size)
    }

    /// Creates a spinner whose value is shown as `render_value` writes it.
    /// Gives the spinner, and the text that it shows first: that of the
    /// value it starts with, which need not be `current`.
    pub fn widget_with_custom_rendering<R: Fn(T) -> String>(
        label: String,
        bounds: (T, T),
        current: T,
        step_size: T,
        render_value: &R,
    ) -> (r: (Spinner<T>, String))
        requires
            T::obeys_partial_cmp_spec(),
            forall|value: T| call_requires(*render_value, (value,)),
        ensures
            r.0.low == bounds.0,
            r.0.high == bounds.1,
            r.0.step_size == step_size,
            r.0.current == initial_value(current, bounds.0, bounds.1),
            r.0.label@ == label@,
            call_ensures(*render_value, (r.0.current,), r.1),
    {
        let spinner = Self::new(label, bounds, current, step_size);
        let text = spinner.text(render_value);
        (spinner, text)
    }

    /// The text that the spinner shows, as `render_value` writes its value.
    pub fn text<R: Fn(T) -> String>(&self, render_value: &R) -> (s: String)
        requires
            call_requires(*render_value, (self.current,)),
        ensures
            call_ensures(*render_value, (self.current,), s),
    {
        render_value(self.current)
    }

    /// A spinner whose value is `current`, or the bound that `current` lies
    /// beyond: the lower bound is looked at first.
    fn new(label: String, bounds: (T, T), current: T, step_size: T) -> (s: Spinner<T>)
        requires
            T::obeys_partial_cmp_spec(),
        ensures
            s.low == bounds.0,
            s.high == bounds.1,
            s.step_size == step_size,
            s.current == initial_value(current, bounds.0, bounds.1),
            s.label@ == label@,
    {
        let (low, high) = bounds;
        let mut current = current;
        if current < low {
            current = low;
        } else if high < current {
            current = high;
        }
        Spinner { low, high, step_size, current, label }
    }

    /// Adds `delta` to the value and brings the sum back between the bounds.
    pub fn modify(&mut self, delta: T)
        requires
            T::obeys_partial_cmp_spec(),
            T::obeys_add_spec(),
            old(self).current.add_req(delta),
        ensures
            final(self).current == clamped(
                old(self).current.add_spec(delta),
                old(self).low,
                old(self).high,
            ),
            final(self).low == old(self).low,
            final(self).high == old(self).high,
            final(self).step_size == old(self).step_size,
            final(self).label == old(self).label,
    {
        self.current = self.current + delta;
        self.clamp();
    }

    /// Brings the value back between the bounds.
    pub fn clamp(&mut self)
        requires
            T::obeys_partial_cmp_spec(),
        ensures
            final(self).current == clamped(old(self).current, old(self).low, old(self).high),
            final(self).low == old(self).low,
            final(self).high == old(self).high,
            final(self).step_size == old(self).step_size,
            final(self).label == old(self).label,
    {
        if self.current > self.high {
            self.current = self.high;
        }
        if self.current < self.low {
            self.current = self.low;
        }
    }

    /// Reacts to a click or a turn of the wheel. A click always steps; the
    /// wheel steps only while the value has not reached the bound on that
    /// side. Answers the spinner's label when it stepped, which tells the
    /// caller that the value changed and must be drawn anew.
    pub fn event(&mut self, input: SpinnerInput) -> (changed: Option<String>)
        requires
            T::obeys_partial_cmp_spec(),
            T::obeys_add_spec(),
            T::obeys_sub_spec(),
            old(self).steps_up(input) ==> old(self).current.add_req(old(self).step_size),
            old(self).steps_down(input) ==> old(self).current.sub_req(old(self).step_size),
        ensures
            final(self).current == old(self).stepped(input),
            final(self).low == old(self).low,
            final(self).high == old(self).high,
            final(self).step_size == old(self).step_size,
            final(self).label == old(self).label,
            changed is Some <==> old(self).steps_up(input) || old(self).steps_down(input),
            changed is Some ==> changed->0@ == old(self).label@,
    {
        let up = match input {
            SpinnerInput::UpClicked => true,
            SpinnerInput::ScrolledUp => self.current < self.high,
            _ => false,
        };
        let down = match input {
            SpinnerInput::DownClicked => true,
            SpinnerInput::ScrolledDown => self.current > self.low,
            _ => false,
        };
        if up {
            self.current = self.current + self.step_size;
            self.clamp();
            Some(self.label.clone())
        } else if down {
            self.current = self.current - self.step_size;
            self.clamp();
            Some(self.label.clone())
        } else {
            None
        }
    }

    /// A spinner can always take over the value of the one it replaces.
    pub fn can_restore(&self) -> (r: bool)
        ensures
            r,
    {
        true
    }

    /// Takes over the value of `prev`, the spinner that this one replaces.
    pub fn restore(&mut self, prev: &Spinner<T>)
        ensures
            final(self).current == prev.current,
            final(self).low == old(self).low,
            final(self).high == old(self).high,
            final(self).step_size == old(self).step_size,
            final(self).label == old(self).label,
    {
        self.current = prev.current;
    }
}

} // verus!
