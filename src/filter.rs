use vstd::prelude::*;

verus! {

/// The window that serves one output point: the `2 * radius + 1` samples from
/// `start` on, with the fitted polynomial read off at `offset` from the
/// window's centre.
#[derive(Clone, Copy, Debug, PartialEq, Eq, Structural)]
pub struct Window {
    pub start: usize,
    pub offset: i64,
}

/// How a sequence is smoothed: left as it is, or one window per output point,
/// all of the same radius.
#[derive(Debug, PartialEq, Eq)]
pub enum Plan {
    Unchanged,
    Windows { radius: usize, windows: Vec<Window> },
}

impl View for Plan {
    type V = Option<(nat, Seq<Window>)>;

    open spec fn view(&self) -> Option<(nat, Seq<Window>)> {
        match self {
            Plan::Unchanged => None,
            Plan::Windows { radius, windows } => Some((*radius as nat, windows@)),
        }
    }
}

/// First sample of the window for output `j` of `len`, windows of radius `r`:
/// the leading window on the left edge, the trailing one on the right edge,
/// the window centred on `j` in between.
pub open spec fn window_start(r: int, len: int, j: int) -> int {
    if j < r {
        0
    } else if j + r >= len {
        len - 2 * r - 1
    } else {
        j - r
    }
}

/// Offset from the window's centre at which output `j` is read off.
pub open spec fn window_offset(r: int, len: int, j: int) -> int {
    if j < r {
        j - r
    } else if j + r >= len {
        j + r + 1 - len
    } else {
        0
    }
}

pub open spec fn window_spec(r: int, len: int, j: int) -> Window {
    Window { start: window_start(r, len, j) as usize, offset: window_offset(r, len, j) as i64 }
}

/// A least-squares smoothing filter: windows of `2 * radius + 1` samples, a
/// polynomial of the given degree fitted to each, and the given derivative of
/// that polynomial read off at the output point.
pub struct Filter {
    radius: usize,
    degree: u64,
    derivative: u64,
}

impl Filter {
    /// The window half-width `m`.
    pub closed spec fn radius_spec(&self) -> nat {
        self.radius as nat
    }

    /// The degree `n` of the fitted polynomial.
    pub closed spec fn degree_spec(&self) -> nat {
        self.degree as nat
    }

    /// The order `s` of the derivative taken.
    pub closed spec fn derivative_spec(&self) -> nat {
        self.derivative as nat
    }

    /// The radius used on `len` samples: the filter's own where a whole window
    /// fits, else the largest that fits.
    pub open spec fn fitted_radius(&self, len: nat) -> nat {
        if len < 2 * self.radius_spec() + 1 {
            ((len - 1) / 2) as nat
        } else {
            self.radius_spec()
        }
    }

    /// What smoothing `len` samples does: nothing on two samples or fewer,
    /// else one window of the fitted radius per sample.
    pub open spec fn plan_spec(&self, len: nat) -> Option<(nat, Seq<Window>)> {
        if len <= 2 {
            None
        } else {
            let r = self.fitted_radius(len);
            Some((r, Seq::new(len, |j: int| window_spec(r as int, len as int, j))))
        }
    }

    pub fn new(radius: usize, degree: u64, derivative: u64) -> (f: Filter)
        ensures
            f.radius_spec() == radius,
            f.degree_spec() == degree,
            f.derivative_spec() == derivative,
    {
        Filter { radius, degree, derivative }
    }

    pub fn radius(&self) -> (r: usize)
        ensures
            r == self.radius_spec(),
    {
        self.radius
    }

    pub fn degree(&self) -> (n: u64)
        ensures
            n == self.degree_spec(),
    {
        self.degree
    }

    pub fn derivative(&self) -> (s: u64)
        ensures
            s == self.derivative_spec(),
    {
        self.derivative
    }

    /// The filter that smoothing `len` samples delegates to: the same degree
    /// and derivative, the radius cut down to the largest window that fits.
    pub fn fitted_to(&self, len: usize) -> (f: Filter)
        requires
            len > 2,
        ensures
            f.radius_spec() == self.fitted_radius(len as nat),
            f.degree_spec() == self.degree_spec(),
            f.derivative_spec() == self.derivative_spec(),
    {
        if (len - 1) / 2 < self.radius {
            Filter::new((len - 1) / 2, self.degree, self.derivative)
        } else {
            Filter::new(self.radius, self.degree, self.derivative)
        }
    }

    /// The windows of one edge: all start at `start`, and are read off at the
    /// offsets `start_t ..= end_t` in turn.
    fn edge_windows(start_t: i64, end_t: i64, start: usize) -> (w: Vec<Window>)
        ensures
            w@.len() == if start_t <= end_t { end_t - start_t + 1 } else { 0 },
            forall|k: int| 0 <= k < w@.len() ==> w@[k] == (Window { start, offset: (start_t + k) as i64 }),
    {
        let mut w: Vec<Window> = Vec::new();
        let mut t: i128 = start_t as i128;
        while t <= end_t as i128
            invariant
                start_t <= t <= end_t + 1 || (t == start_t && start_t > end_t),
                w@.len() == t - start_t,
                forall|k: int| 0 <= k < w@.len() ==> w@[k] == (Window { start, offset: (start_t + k) as i64 }),
            decreases end_t + 1 - t,
        {
            w.push(Window { start, offset: t as i64 });
            t = t + 1;
        }
        w
    }

    /// How `smooth` treats `len` samples: see `plan_spec`.
    pub fn plan(&self, len: usize) -> (p: Plan)
        ensures
            p@ == self.plan_spec(len as nat),
        decreases self.radius_spec(),
    {
        if len <= 2 {
            return Plan::Unchanged;
        }
        if (len - 1) / 2 < self.radius {
            let fitted = self.fitted_to(len);
            return fitted.plan(len);
        }
        let r = self.radius;
        assert(2 * r + 1 <= len);
        let mut windows = Self::edge_windows(-(r as i64), -1, 0);
        let mut c: usize = r;
        while c < len - r
            invariant
                2 * r + 1 <= len,
                r <= c <= len - r,
                windows@.len() == c,
                forall|j: int| 0 <= j < c ==> windows@[j] == window_spec(r as int, len as int, j),
            decreases len - r - c,
        {
            windows.push(Window { start: c - r, offset: 0 });
            c = c + 1;
        }
        let mut right = Self::edge_windows(1, r as i64, len - 2 * r - 1);
        let ghost tail = right@;
        windows.append(&mut right);
        assert forall|j: int| 0 <= j < len implies windows@[j] == window_spec(r as int, len as int, j) by {
            if j >= len - r {
                assert(windows@[j] == tail[j - (len - r)]);
            }
        }
        assert(windows@ =~= Seq::new(len as nat, |j: int| window_spec(r as int, len as int, j)));
        Plan::Windows { radius: r, windows }
    }
}

/// Smoothing leaves two samples or fewer as they are; any longer sequence
/// gets exactly one window per sample, each of `2 * radius + 1` samples lying
/// wholly inside the data, read off at an offset within the window.
pub proof fn lemma_one_window_per_sample(f: Filter, len: nat)
    requires
        len <= usize::MAX,
    ensures
        f.plan_spec(len) is None <==> len <= 2,
        f.plan_spec(len) matches Some((r, w)) ==> {
            &&& w.len() == len
            &&& 2 * r + 1 <= len
            &&& forall|j: int|
                0 <= j < len ==> w[j].start + 2 * r + 1 <= len && -r <= w[j].offset <= r
                    && w[j].start + r + w[j].offset == j
        },
{
    if len > 2 {
        let r = f.fitted_radius(len);
        assert(2 * r + 1 <= len);
        assert forall|j: int| 0 <= j < len implies {
            let w = #[trigger] window_spec(r as int, len as int, j);
            w.start + 2 * r + 1 <= len && -r <= w.offset <= r && w.start + r + w.offset == j
        } by {
            assert(0 <= window_start(r as int, len as int, j) <= len - 2 * r - 1);
            assert(-r <= window_offset(r as int, len as int, j) <= r);
        }
    }
}

/// The right edge mirrors the left: output `len - 1 - j` is read off at the
/// opposite offset of output `j`, in the mirrored window.
pub proof fn lemma_edges_mirror(f: Filter, len: nat, j: int)
    requires
        2 < len <= usize::MAX,
        0 <= j < len,
    ensures
        f.plan_spec(len) matches Some((r, w)) ==> {
            &&& w[len - 1 - j].offset == -w[j].offset
            &&& w[len - 1 - j].start + w[j].start == len - 2 * r - 1
        },
{
}

/// A filter whose radius is too large for `len` samples smooths them exactly
/// as the filter of the same degree and derivative whose radius is the largest
/// that fits, `(len - 1) / 2`.
pub proof fn lemma_radius_reduction(f: Filter, g: Filter, len: nat)
    requires
        len > 2,
        len < 2 * f.radius_spec() + 1,
        g.radius_spec() == (len - 1) / 2,
        g.degree_spec() == f.degree_spec(),
        g.derivative_spec() == f.derivative_spec(),
    ensures
        f.plan_spec(len) == g.plan_spec(len),
{
}

} // verus!
