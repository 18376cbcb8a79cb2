//! Fixed-storage history of the most recent values of a stream, as used by
//! the clap's FIR colour filters and its resampler. Value number `i` of the
//! stream is stored in cell `i mod len`, so the last `len` values are always
//! available; the storage is allocated once and never again.
use vstd::prelude::*;

verus! {

/// Distinct stream positions less than `n` apart land in distinct cells.
proof fn lemma_window_cells_distinct(i: int, j: int, n: int)
    requires
        n > 0,
        0 <= i < j < i + n,
    ensures
        i % n != j % n,
{
    vstd::arithmetic::div_mod::lemma_fundamental_div_mod(i, n);
    vstd::arithmetic::div_mod::lemma_fundamental_div_mod(j, n);
    assert(i % n != j % n) by (nonlinear_arith)
        requires
            n > 0,
            0 <= i < j < i + n,
            i == n * (i / n) + i % n,
            j == n * (j / n) + j % n,
            0 <= i % n < n,
            0 <= j % n < n,
    {
        if i % n == j % n {
            assert(j - i == n * (j / n - i / n));
        }
    }
}

/// Cell of the value `k` places before the newest one.
proof fn lemma_recent_cell(written: int, k: int, n: int)
    requires
        n > 0,
        0 <= k < n,
        written >= 0,
    ensures
        (written % n + n - 1 - k) % n == (written - 1 - k) % n,
        0 <= (written % n + n - 1 - k),
{
    vstd::arithmetic::div_mod::lemma_fundamental_div_mod(written, n);
    assert((written % n + n - 1 - k) % n == (written - 1 - k) % n) by (nonlinear_arith)
        requires
            n > 0,
            0 <= k < n,
            written >= 0,
            written == n * (written / n) + written % n,
            0 <= written % n < n,
    {
        let q = written / n;
        let a = written % n + n - 1 - k;
        let b = written - 1 - k;
        assert(a == b + n * (1 - q));
        vstd::arithmetic::div_mod::lemma_mod_multiples_vanish(1 - q, b, n);
    }
}

/// History of the last values of a stream.
pub struct HistoryRing<T> {
    cells: Vec<T>,
    len: usize,
    written: u64,
    stream: Ghost<Seq<T>>,
    fill: Ghost<T>,
}

impl<T: Copy> HistoryRing<T> {
    /// Every value pushed since the last reset, oldest first.
    pub closed spec fn stream(self) -> Seq<T> {
        self.stream@
    }

    /// Number of cells in use.
    pub closed spec fn len(self) -> nat {
        self.len as nat
    }

    /// Cells allocated.
    pub closed spec fn capacity(self) -> nat {
        self.cells@.len()
    }

    /// Value the cells hold before anything is written to them.
    pub closed spec fn fill(self) -> T {
        self.fill@
    }

    /// Contents of the cells.
    pub closed spec fn cells(self) -> Seq<T> {
        self.cells@
    }

    pub closed spec fn wf(self) -> bool {
        &&& 1 <= self.len <= self.cells@.len()
        &&& self.stream@.len() == self.written
        &&& forall|i: int|
            #![trigger self.stream@[i]]
            self.written - self.len <= i < self.written && 0 <= i ==> self.cells@[i
                % (self.len as int)] == self.stream@[i]
        &&& forall|c: int|
            #![trigger self.cells@[c]]
            self.written <= c < self.len ==> self.cells@[c] == self.fill@
    }

    /// A history of `capacity` cells, all `len` in use, holding `fill`.
    pub fn new(capacity: usize, fill: T) -> (r: Self)
        requires
            capacity >= 1,
        ensures
            r.wf(),
            r.capacity() == capacity,
            r.len() == capacity,
            r.stream() == Seq::<T>::empty(),
            r.fill() == fill,
    {
        let mut cells: Vec<T> = Vec::new();
        let mut i: usize = 0;
        while i < capacity
            invariant
                i <= capacity,
                cells@.len() == i,
                forall|c: int| 0 <= c < i ==> #[trigger] cells@[c] == fill,
            decreases capacity - i,
        {
            cells.push(fill);
            i = i + 1;
        }
        HistoryRing { cells, len: capacity, written: 0, stream: Ghost(Seq::empty()), fill: Ghost(fill) }
    }

    /// Forgets the stream and refills the first `len` cells with `fill`;
    /// from now on `len` cells are used. Allocates nothing.
    pub fn reset(&mut self, len: usize, fill: T)
        requires
            old(self).wf(),
            1 <= len <= old(self).capacity(),
        ensures
            final(self).wf(),
            final(self).capacity() == old(self).capacity(),
            final(self).len() == len,
            final(self).stream() == Seq::<T>::empty(),
            final(self).fill() == fill,
            forall|c: int| 0 <= c < len ==> #[trigger] final(self).cells()[c] == fill,
            forall|c: int|
                len <= c < old(self).capacity() ==> #[trigger] final(self).cells()[c] == old(
                    self,
                ).cells()[c],
    {
        let mut i: usize = 0;
        while i < len
            invariant
                i <= len,
                len <= self.cells@.len(),
                self.cells@.len() == old(self).cells@.len(),
                forall|c: int| 0 <= c < i ==> #[trigger] self.cells@[c] == fill,
                forall|c: int|
                    i <= c < self.cells@.len() ==> #[trigger] self.cells@[c] == old(self).cells@[c],
            decreases len - i,
        {
            self.cells.set(i, fill);
            i = i + 1;
        }
        self.len = len;
        self.written = 0;
        self.stream = Ghost(Seq::empty());
        self.fill = Ghost(fill);
    }

    /// Number of values pushed since the last reset.
    pub fn written(&self) -> (n: u64)
        requires
            self.wf(),
        ensures
            n == self.stream().len(),
    {
        self.written
    }

    /// Cells in use.
    pub fn used_len(&self) -> (n: usize)
        requires
            self.wf(),
        ensures
            n == self.len(),
            n >= 1,
    {
        self.len
    }

    /// Appends a value to the stream.
    pub fn push(&mut self, value: T)
        requires
            old(self).wf(),
            old(self).stream().len() < u64::MAX,
        ensures
            final(self).wf(),
            final(self).stream() == old(self).stream().push(value),
            final(self).len() == old(self).len(),
            final(self).capacity() == old(self).capacity(),
            final(self).fill() == old(self).fill(),
            final(self).cells() == old(self).cells().update(
                old(self).stream().len() as int % old(self).len() as int,
                value,
            ),
    {
        let n = self.len;
        let slot = (self.written % (n as u64)) as usize;
        let ghost old_cells = self.cells@;
        let ghost old_stream = self.stream@;
        let ghost w = self.written as int;
        self.cells.set(slot, value);
        self.written = self.written + 1;
        self.stream = Ghost(old_stream.push(value));
        proof {
            let ni = n as int;
            assert forall|i: int|
                #![trigger self.stream@[i]]
                self.written - self.len <= i < self.written && 0 <= i implies self.cells@[i
                    % ni] == self.stream@[i] by {
                if i == w {
                    assert(self.stream@[i] == value);
                } else {
                    lemma_window_cells_distinct(i, w, ni);
                    assert(old_cells[i % ni] == old_stream[i]);
                }
            }
            assert forall|c: int|
                #![trigger self.cells@[c]]
                self.written <= c < self.len implies self.cells@[c] == self.fill@ by {
                vstd::arithmetic::div_mod::lemma_small_mod(w as nat, ni as nat);
                assert(c != slot);
                assert(old_cells[c] == self.fill@);
            }
        }
    }

    /// Value number `index` of the stream, while its cell still holds it;
    /// `None` past the newest value. Older positions give whatever their
    /// cell holds now.
    pub fn at(&self, index: u64) -> (r: Option<T>)
        requires
            self.wf(),
        ensures
            index >= self.stream().len() ==> r is None,
            index < self.stream().len() ==> r == Some(self.cells()[index as int % self.len() as int]),
            index < self.stream().len() && index + self.len() >= self.stream().len() ==> r == Some(
                self.stream()[index as int],
            ),
    {
        if index >= self.written {
            return None;
        }
        let slot = (index % (self.len as u64)) as usize;
        proof {
            assert(self.stream@[index as int] == self.stream@[index as int]);
        }
        Some(self.cells[slot])
    }

    /// The value `k` places before the newest one (`k = 0` is the newest);
    /// before `k + 1` values have been pushed, the fill value.
    pub fn recent(&self, k: usize) -> (r: T)
        requires
            self.wf(),
            k < self.len(),
        ensures
            k < self.stream().len() ==> r == self.stream()[self.stream().len() - 1 - k],
            k >= self.stream().len() ==> r == self.fill(),
    {
        let n = self.len;
        let w = self.written;
        let pos = (w % (n as u64)) as usize;
        let slot = if pos > k {
            pos - 1 - k
        } else {
            pos + (n - 1 - k)
        };
        proof {
            lemma_recent_cell(w as int, k as int, n as int);
            let a = pos as int + n as int - 1 - k as int;
            assert(pos as int == w as int % n as int);
            vstd::arithmetic::div_mod::lemma_small_mod(slot as nat, n as nat);
            if pos > k {
                assert(a == n as int * 1 + slot as int);
                vstd::arithmetic::div_mod::lemma_mod_multiples_vanish(1, slot as int, n as int);
            } else {
                assert(a == slot as int);
            }
            assert(a % (n as int) == slot as int);
            assert(slot as int == (w as int - 1 - k as int) % (n as int));
            if (k as int) < (w as int) {
                let i = w as int - 1 - k as int;
                assert(self.stream@[i] == self.stream@[i]);
            } else {
                vstd::arithmetic::div_mod::lemma_small_mod(w as nat, n as nat);
            }
        }
        self.cells[slot]
    }
}

} // verus!
