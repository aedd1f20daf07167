use vstd::prelude::*;

verus! {

/// How much of the work is done, as a bar of `filled` marks followed by
/// `empty` blanks, and as a whole percentage.
#[derive(Debug, PartialEq, Eq, Structural)]
pub struct ProgressBar {
    pub filled: u32,
    pub empty: u32,
    pub percent: u32,
}

/// `num / den` rounded to the nearest integer, halves upwards.
pub open spec fn rounded_ratio(num: int, den: int) -> int {
    (2 * num + den) / (2 * den)
}

/// The bar that shows `current` units of work done out of `total`, `length`
/// marks long.
pub open spec fn spec_bar(total: int, current: int, length: int) -> ProgressBar {
    let filled = rounded_ratio(current * length, total);
    ProgressBar {
        filled: filled as u32,
        empty: (length - filled) as u32,
        percent: rounded_ratio(current * 100, total) as u32,
    }
}

/// A counter of work done that says when a display of it is due: when the
/// fraction done has grown by more than nine thousandths since it was last
/// shown.
pub struct Progress {
    pub total_work: u64,
    pub current_progress: u64,
    pub progress_bar_display_length: u32,
    /// The work done when the bar was last shown.
    pub last_update: u64,
}

impl Progress {
    pub open spec fn wf(&self) -> bool {
        self.last_update <= self.current_progress <= self.total_work
    }

    pub fn new(total_work: u64, progress_bar_display_length: u32) -> (r: Progress)
        ensures
            r.wf(),
            r.total_work == total_work,
            r.current_progress == 0,
            r.last_update == 0,
            r.progress_bar_display_length == progress_bar_display_length,
    {
        Progress { total_work, current_progress: 0, progress_bar_display_length, last_update: 0 }
    }

    /// Records `progress_made` more units of work, never counting beyond the
    /// total, and returns the bar to show when a display is due.
    pub fn update(&mut self, progress_made: u64) -> (r: Option<ProgressBar>)
        requires
            old(self).wf(),
        ensures
            final(self).wf(),
            final(self).total_work == old(self).total_work,
            final(self).progress_bar_display_length == old(self).progress_bar_display_length,
            final(self).current_progress as int == if old(self).current_progress + progress_made
                <= old(self).total_work {
                old(self).current_progress + progress_made
            } else {
                old(self).total_work as int
            },
            r is Some <==> 1000 * (final(self).current_progress - old(self).last_update) > 9
                * old(self).total_work,
            r is Some ==> final(self).last_update == final(self).current_progress && r == Some(
                spec_bar(
                    final(self).total_work as int,
                    final(self).current_progress as int,
                    final(self).progress_bar_display_length as int,
                ),
            ),
            r is None ==> final(self).last_update == old(self).last_update,
    {
        let room = self.total_work - self.current_progress;
        if progress_made <= room {
            self.current_progress = self.current_progress + progress_made;
        } else {
            self.current_progress = self.total_work;
        }
        let grown = (self.current_progress - self.last_update) as u128;
        if grown * 1000 > self.total_work as u128 * 9 {
            self.last_update = self.current_progress;
            Some(self.bar())
        } else {
            None
        }
    }

    /// The bar for the work done so far; the work total must not be zero.
    pub fn bar(&self) -> (r: ProgressBar)
        requires
            self.wf(),
            self.total_work > 0,
        ensures
            r == spec_bar(
                self.total_work as int,
                self.current_progress as int,
                self.progress_bar_display_length as int,
            ),
            r.filled + r.empty == self.progress_bar_display_length,
            r.percent <= 100,
    {
        let t = self.total_work as u128;
        let c = self.current_progress as u128;
        let l = self.progress_bar_display_length as u128;
        let ghost (ti, ci, li) = (t as int, c as int, l as int);
        assert(2 * ci * li + ti <= 2 * 0x1_0000_0000_0000_0000 * 0x1_0000_0000 + 0x1_0000_0000_0000_0000)
            by (nonlinear_arith)
            requires
                0 <= ci <= ti,
                ti < 0x1_0000_0000_0000_0000,
                0 <= li < 0x1_0000_0000,
        ;
        assert((2 * ci * li + ti) / (2 * ti) <= li) by (nonlinear_arith)
            requires
                0 <= ci <= ti,
                ti > 0,
                li >= 0,
        ;
        assert((2 * ci * 100 + ti) / (2 * ti) <= 100) by (nonlinear_arith)
            requires
                0 <= ci <= ti,
                ti > 0,
        ;
        assert(2 * (ci * li) + ti == 2 * ci * li + ti) by (nonlinear_arith);
        assert(2 * (ci * 100) + ti == 2 * ci * 100 + ti) by (nonlinear_arith);
        let filled = ((2 * c * l + t) / (2 * t)) as u32;
        let percent = ((2 * c * 100 + t) / (2 * t)) as u32;
        ProgressBar { filled, empty: self.progress_bar_display_length - filled, percent }
    }

    /// Ends a run: the count and the last shown point start again from zero.
    pub fn done(&mut self)
        ensures
            final(self).wf(),
            final(self).total_work == old(self).total_work,
            final(self).progress_bar_display_length == old(self).progress_bar_display_length,
            final(self).current_progress == 0,
            final(self).last_update == 0,
    {
        self.current_progress = 0;
        self.last_update = 0;
    }
}

} // verus!
