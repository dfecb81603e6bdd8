use vstd::prelude::*;

use crate::bm::bm_util::eval::Evaluation;

verus! {

/// An aspiration window around the last search score, widened after each failure.
#[derive(Debug, Clone)]
pub struct Window {
    start: i16,
    factor: i32,
    divisor: i32,
    add: i32,
    center: Evaluation,
    alpha: Evaluation,
    beta: Evaluation,
    window: i16,
}

/// The window after growing: `window + (window * factor / divisor + add)` (the increment is
/// truncated to `i16`, as the engine does).
pub open spec fn spec_expand(window: i16, factor: i32, divisor: i32, add: i32) -> int {
    let q = window * factor;
    let d = if q >= 0 { q / (divisor as int) } else { -((-q) / (divisor as int)) };
    window + ((d + add) as i16)
}

impl Window {
    pub closed spec fn spec_start(&self) -> i16 {
        self.start
    }

    pub closed spec fn spec_factor(&self) -> i32 {
        self.factor
    }

    pub closed spec fn spec_divisor(&self) -> i32 {
        self.divisor
    }

    pub closed spec fn spec_add(&self) -> i32 {
        self.add
    }

    pub closed spec fn spec_center(&self) -> i16 {
        self.center@
    }

    pub closed spec fn spec_alpha(&self) -> i16 {
        self.alpha@
    }

    pub closed spec fn spec_beta(&self) -> i16 {
        self.beta@
    }

    pub closed spec fn spec_window(&self) -> i16 {
        self.window
    }

    /// Growing the window stays within `i16` and its arithmetic does not overflow.
    pub open spec fn can_expand(&self) -> bool {
        &&& self.spec_divisor() > 0
        &&& i32::MIN <= self.spec_window() * self.spec_factor() <= i32::MAX
        &&& {
            let q = self.spec_window() * self.spec_factor();
            let d = if q >= 0 { q / (self.spec_divisor() as int) } else { -((-q) / (self.spec_divisor() as int)) };
            i32::MIN <= d + self.spec_add() <= i32::MAX
        }
        &&& i16::MIN <= spec_expand(self.spec_window(), self.spec_factor(), self.spec_divisor(), self.spec_add())
            <= i16::MAX
    }

    pub fn new(start: i16, factor: i32, divisor: i32, add: i32) -> (r: Self)
        ensures
            r.spec_start() == start,
            r.spec_factor() == factor,
            r.spec_divisor() == divisor,
            r.spec_add() == add,
            r.spec_center() == 0,
            r.spec_alpha() == start,
            r.spec_beta() == start,
            r.spec_window() == start,
    {
        Self {
            start,
            factor,
            divisor,
            add,
            center: Evaluation::new(0),
            alpha: Evaluation::new(start),
            beta: Evaluation::new(start),
            window: start,
        }
    }

    /// Shrinks the window back to its starting size around the center.
    pub fn reset(&mut self)
        requires
            i16::MIN <= old(self).spec_center() - old(self).spec_start(),
            old(self).spec_center() + old(self).spec_start() <= i16::MAX,
            i16::MIN <= old(self).spec_center() + old(self).spec_start(),
            old(self).spec_center() - old(self).spec_start() <= i16::MAX,
        ensures
            final(self).spec_window() == old(self).spec_start(),
            final(self).spec_alpha() == old(self).spec_center() - old(self).spec_start(),
            final(self).spec_beta() == old(self).spec_center() + old(self).spec_start(),
            final(self).spec_center() == old(self).spec_center(),
            final(self).spec_start() == old(self).spec_start(),
            final(self).spec_factor() == old(self).spec_factor(),
            final(self).spec_divisor() == old(self).spec_divisor(),
            final(self).spec_add() == old(self).spec_add(),
            final(self).model() == model_reset(old(self).model()),
    {
        self.window = self.start;
        self.set_bounds();
    }

    pub fn set(&mut self, eval: Evaluation)
        ensures
            final(self).spec_center() == eval@,
            final(self).spec_window() == old(self).spec_window(),
            final(self).spec_alpha() == old(self).spec_alpha(),
            final(self).spec_beta() == old(self).spec_beta(),
            final(self).spec_start() == old(self).spec_start(),
            final(self).spec_factor() == old(self).spec_factor(),
            final(self).spec_divisor() == old(self).spec_divisor(),
            final(self).spec_add() == old(self).spec_add(),
            final(self).model() == model_set(old(self).model(), eval@),
    {
        self.center = eval;
    }

    pub fn get(&self) -> (r: (Evaluation, Evaluation))
        ensures
            r.0@ == self.spec_alpha(),
            r.1@ == self.spec_beta(),
    {
        (self.alpha, self.beta)
    }

    /// After a fail low: beta moves to the middle of the old window, alpha to
    /// `center - window`, and the window grows.
    pub fn fail_low(&mut self)
        requires
            i16::MIN <= old(self).spec_alpha() + old(self).spec_beta() <= i16::MAX,
            i16::MIN <= old(self).spec_center() - old(self).spec_window() <= i16::MAX,
            old(self).can_expand(),
        ensures
            final(self).spec_beta() == trunc_div2(old(self).spec_alpha() + old(self).spec_beta()),
            final(self).spec_alpha() == old(self).spec_center() - old(self).spec_window(),
            final(self).spec_window() == spec_expand(
                old(self).spec_window(),
                old(self).spec_factor(),
                old(self).spec_divisor(),
                old(self).spec_add(),
            ),
            final(self).spec_center() == old(self).spec_center(),
            final(self).spec_start() == old(self).spec_start(),
            final(self).spec_factor() == old(self).spec_factor(),
            final(self).spec_divisor() == old(self).spec_divisor(),
            final(self).spec_add() == old(self).spec_add(),
            final(self).model() == model_fail_low(old(self).model()),
    {
        self.beta = self.alpha.add_eval(self.beta).div_i16(2);
        self.alpha = self.center.sub_i16(self.window);
        self.expand();
    }

    /// After a fail high: beta moves to `center + window` and the window grows.
    pub fn fail_high(&mut self)
        requires
            i16::MIN <= old(self).spec_center() + old(self).spec_window() <= i16::MAX,
            old(self).can_expand(),
        ensures
            final(self).spec_beta() == old(self).spec_center() + old(self).spec_window(),
            final(self).spec_alpha() == old(self).spec_alpha(),
            final(self).spec_window() == spec_expand(
                old(self).spec_window(),
                old(self).spec_factor(),
                old(self).spec_divisor(),
                old(self).spec_add(),
            ),
            final(self).spec_center() == old(self).spec_center(),
            final(self).spec_start() == old(self).spec_start(),
            final(self).spec_factor() == old(self).spec_factor(),
            final(self).spec_divisor() == old(self).spec_divisor(),
            final(self).spec_add() == old(self).spec_add(),
            final(self).model() == model_fail_high(old(self).model()),
    {
        self.beta = self.center.add_i16(self.window);
        self.expand();
    }

    fn expand(&mut self)
        requires
            old(self).can_expand(),
        ensures
            final(self).spec_window() == spec_expand(
                old(self).spec_window(),
                old(self).spec_factor(),
                old(self).spec_divisor(),
                old(self).spec_add(),
            ),
            final(self).spec_alpha() == old(self).spec_alpha(),
            final(self).spec_beta() == old(self).spec_beta(),
            final(self).spec_center() == old(self).spec_center(),
            final(self).spec_start() == old(self).spec_start(),
            final(self).spec_factor() == old(self).spec_factor(),
            final(self).spec_divisor() == old(self).spec_divisor(),
            final(self).spec_add() == old(self).spec_add(),
    {
        let q = self.window as i32 * self.factor;
        let d = q / self.divisor;
        let inc = (d + self.add) as i16;
        self.window = self.window + inc;
    }

    fn set_bounds(&mut self)
        requires
            i16::MIN <= old(self).spec_center() - old(self).spec_window() <= i16::MAX,
            i16::MIN <= old(self).spec_center() + old(self).spec_window() <= i16::MAX,
        ensures
            final(self).spec_alpha() == old(self).spec_center() - old(self).spec_window(),
            final(self).spec_beta() == old(self).spec_center() + old(self).spec_window(),
            final(self).spec_window() == old(self).spec_window(),
            final(self).spec_center() == old(self).spec_center(),
            final(self).spec_start() == old(self).spec_start(),
            final(self).spec_factor() == old(self).spec_factor(),
            final(self).spec_divisor() == old(self).spec_divisor(),
            final(self).spec_add() == old(self).spec_add(),
    {
        self.alpha = self.center.sub_i16(self.window);
        self.beta = self.center.add_i16(self.window);
    }
}

/// Halving that rounds toward zero.
pub open spec fn trunc_div2(x: int) -> int {
    if x >= 0 {
        x / 2
    } else {
        -((-x) / 2)
    }
}

/// After a reset, the window is centered on the last score: `alpha < center < beta`
/// whenever the starting half-width is positive.
pub proof fn lemma_reset_brackets_center(w: Window, r: Window)
    requires
        r.spec_window() == w.spec_start(),
        r.spec_alpha() == w.spec_center() - w.spec_start(),
        r.spec_beta() == w.spec_center() + w.spec_start(),
        r.spec_center() == w.spec_center(),
        w.spec_start() > 0,
    ensures
        r.spec_alpha() < r.spec_center() < r.spec_beta(),
        r.spec_beta() - r.spec_alpha() == 2 * r.spec_window(),
{
}

/// Each fail grows the window by at least `add` when the growth factor is not negative.
pub proof fn lemma_expand_grows(window: i16, factor: i32, divisor: i32, add: i32)
    requires
        window >= 0,
        factor >= 0,
        divisor > 0,
        add >= 0,
        window * factor / (divisor as int) + add <= i16::MAX,
    ensures
        spec_expand(window, factor, divisor, add) >= window + add,
{
    assert(window * factor >= 0) by (nonlinear_arith)
        requires
            window >= 0,
            factor >= 0,
    ;
    assert(window * factor / (divisor as int) >= 0) by (nonlinear_arith)
        requires
            window * factor >= 0,
            divisor > 0,
    ;
}

/// The state of a window as plain values.
pub struct WindowModel {
    pub start: i16,
    pub factor: i32,
    pub divisor: i32,
    pub add: i32,
    pub center: i16,
    pub alpha: i16,
    pub beta: i16,
    pub window: i16,
}

impl Window {
    pub open spec fn model(&self) -> WindowModel {
        WindowModel {
            start: self.spec_start(),
            factor: self.spec_factor(),
            divisor: self.spec_divisor(),
            add: self.spec_add(),
            center: self.spec_center(),
            alpha: self.spec_alpha(),
            beta: self.spec_beta(),
            window: self.spec_window(),
        }
    }
}

/// The window after `set(e)`: only the center moves.
pub open spec fn model_set(w: WindowModel, e: i16) -> WindowModel {
    WindowModel { center: e, ..w }
}

/// [Window::reset] stays within `i16`.
pub open spec fn model_reset_ok(w: WindowModel) -> bool {
    &&& i16::MIN <= w.center - w.start <= i16::MAX
    &&& i16::MIN <= w.center + w.start <= i16::MAX
}

/// The window after `reset`: the starting half-width around the center.
pub open spec fn model_reset(w: WindowModel) -> WindowModel {
    WindowModel {
        window: w.start,
        alpha: (w.center - w.start) as i16,
        beta: (w.center + w.start) as i16,
        ..w
    }
}

/// Growing the window stays within `i16` and its arithmetic does not overflow.
pub open spec fn model_expand_ok(w: WindowModel) -> bool {
    &&& w.divisor > 0
    &&& i32::MIN <= w.window * w.factor <= i32::MAX
    &&& {
        let q = w.window * w.factor;
        let d = if q >= 0 { q / (w.divisor as int) } else { -((-q) / (w.divisor as int)) };
        i32::MIN <= d + w.add <= i32::MAX
    }
    &&& i16::MIN <= spec_expand(w.window, w.factor, w.divisor, w.add) <= i16::MAX
}

/// [Window::fail_low] stays within `i16`.
pub open spec fn model_fail_low_ok(w: WindowModel) -> bool {
    &&& i16::MIN <= w.alpha + w.beta <= i16::MAX
    &&& i16::MIN <= w.center - w.window <= i16::MAX
    &&& model_expand_ok(w)
}

/// The window after `fail_low`.
pub open spec fn model_fail_low(w: WindowModel) -> WindowModel {
    WindowModel {
        beta: trunc_div2(w.alpha + w.beta) as i16,
        alpha: (w.center - w.window) as i16,
        window: spec_expand(w.window, w.factor, w.divisor, w.add) as i16,
        ..w
    }
}

/// [Window::fail_high] stays within `i16`.
pub open spec fn model_fail_high_ok(w: WindowModel) -> bool {
    &&& i16::MIN <= w.center + w.window <= i16::MAX
    &&& model_expand_ok(w)
}

/// The window after `fail_high`.
pub open spec fn model_fail_high(w: WindowModel) -> WindowModel {
    WindowModel {
        beta: (w.center + w.window) as i16,
        window: spec_expand(w.window, w.factor, w.divisor, w.add) as i16,
        ..w
    }
}

/// Setting a new score does not move the bounds; a reset that follows gives the bounds
/// `(e - start, e + start)` around that score.
pub proof fn lemma_set_then_reset(w: WindowModel, e: i16)
    requires
        model_reset_ok(model_set(w, e)),
    ensures
        model_set(w, e).alpha == w.alpha,
        model_set(w, e).beta == w.beta,
        model_reset(model_set(w, e)).alpha == e - w.start,
        model_reset(model_set(w, e)).beta == e + w.start,
{
}

} // verus!
