use vstd::prelude::*;

verus! {

/// Number of elements of `s` equal to `v`
pub open spec fn count_eq(s: Seq<usize>, v: usize) -> nat
    decreases s.len(),
{
    if s.len() == 0 {
        0
    } else {
        count_eq(s.drop_last(), v) + if s.last() == v {
            1nat
        } else {
            0nat
        }
    }
}

/// `count_eq(s, v)` counts the elements of `s` equal to `v`, and only those: it is the length
/// of `s` filtered to the elements equal to `v`
pub proof fn law_count_is_number_of_equal_bins(s: Seq<usize>, v: usize)
    ensures
        count_eq(s, v) == s.filter(|b: usize| b == v).len(),
    decreases s.len(),
{
    if s.len() > 0 {
        law_count_is_number_of_equal_bins(s.drop_last(), v);
        let f = |b: usize| b == v;
        s.drop_last().lemma_filter_push(s.last(), f);
        assert(s.drop_last().push(s.last()) =~= s);
    } else {
        reveal(Seq::filter);
        assert(s.filter(|b: usize| b == v) =~= Seq::<usize>::empty());
    }
}

/// `i` is the first index of a smallest element of `s`
pub open spec fn first_min_index(s: Seq<usize>, i: int) -> bool {
    &&& 0 <= i < s.len()
    &&& forall|j: int| 0 <= j < s.len() ==> s[i] <= #[trigger] s[j]
    &&& forall|j: int| 0 <= j < i ==> s[i] < #[trigger] s[j]
}

/// `i` is the first index of a largest element of `s`
pub open spec fn first_max_index(s: Seq<usize>, i: int) -> bool {
    &&& 0 <= i < s.len()
    &&& forall|j: int| 0 <= j < s.len() ==> #[trigger] s[j] <= s[i]
    &&& forall|j: int| 0 <= j < i ==> #[trigger] s[j] < s[i]
}

/// Counts of values falling into each of a fixed number of bins
#[derive(Debug, Clone, PartialEq)]
pub struct Histogram {
    /// Bin counts
    pub bins: Vec<usize>,
}

impl Histogram {
    /// Create a histogram with `nbins` empty bins
    pub fn new(nbins: usize) -> (h: Histogram)
        ensures
            h.bins@ == Seq::new(nbins as nat, |_i: int| 0usize),
    {
        let mut bins: Vec<usize> = Vec::new();
        let mut i: usize = 0;
        while i < nbins
            invariant
                i <= nbins,
                bins@ == Seq::new(i as nat, |_i: int| 0usize),
            decreases nbins - i,
        {
            bins.push(0);
            i = i + 1;
            assert(bins@ =~= Seq::new(i as nat, |_i: int| 0usize));
        }
        Histogram { bins }
    }

    /// Count one more value in bin `index`
    pub fn add_to_bin(&mut self, index: usize)
        requires
            index < old(self).bins@.len(),
            old(self).bins@[index as int] < usize::MAX,
        ensures
            final(self).bins@ == old(self).bins@.update(
                index as int,
                (old(self).bins@[index as int] + 1) as usize,
            ),
    {
        let n = self.bins[index];
        self.bins.set(index, n + 1);
    }

    /// Each bin index paired with its count, in bin order
    pub fn bins(&self) -> (v: Vec<(usize, usize)>)
        ensures
            v@.len() == self.bins@.len(),
            forall|i: int| 0 <= i < v@.len() ==> #[trigger] v@[i] == (i as usize, self.bins@[i]),
    {
        let mut v: Vec<(usize, usize)> = Vec::new();
        let n = self.bins.len();
        let mut i: usize = 0;
        while i < n
            invariant
                n == self.bins@.len(),
                i <= n,
                v@.len() == i,
                forall|k: int| 0 <= k < i ==> #[trigger] v@[k] == (k as usize, self.bins@[k]),
            decreases n - i,
        {
            v.push((i, self.bins[i]));
            i = i + 1;
        }
        v
    }

    /// Number of bins
    pub fn len(&self) -> (r: usize)
        ensures
            r == self.bins@.len(),
    {
        self.bins.len()
    }

    /// Returns true when there are no bins
    pub fn is_empty(&self) -> (r: bool)
        ensures
            r == (self.bins@.len() == 0),
    {
        self.len() == 0
    }

    /// Get the bin index of the minimum value. There may be other bins with the same value, which
    /// would not be reported by this function
    pub fn min_index(&self) -> (r: usize)
        ensures
            self.bins@.len() == 0 ==> r == 0,
            self.bins@.len() > 0 ==> first_min_index(self.bins@, r as int),
    {
        let mut min = usize::MAX;
        let mut index: usize = 0;
        let n = self.bins.len();
        let mut i: usize = 0;
        while i < n
            invariant
                n == self.bins@.len(),
                i <= n,
                i == 0 ==> index == 0 && min == usize::MAX,
                i > 0 ==> index < i && min == self.bins@[index as int],
                forall|j: int| 0 <= j < i ==> min <= #[trigger] self.bins@[j],
                forall|j: int| 0 <= j < index ==> min < #[trigger] self.bins@[j],
            decreases n - i,
        {
            if self.bins[i] < min {
                min = self.bins[i];
                index = i;
            } else if i == 0 {
                assert(self.bins@[0] == usize::MAX);
            }
            i = i + 1;
        }
        index
    }

    /// Get the bin index of the maximum value. There may be other bins with the same value, which
    /// would not be reported by this function
    pub fn max_index(&self) -> (r: usize)
        ensures
            self.bins@.len() == 0 ==> r == 0,
            self.bins@.len() > 0 ==> first_max_index(self.bins@, r as int),
    {
        let mut max: usize = 0;
        let mut index: usize = 0;
        let n = self.bins.len();
        let mut i: usize = 0;
        while i < n
            invariant
                n == self.bins@.len(),
                i <= n,
                i == 0 ==> index == 0 && max == 0,
                i > 0 ==> index < i && max == self.bins@[index as int],
                forall|j: int| 0 <= j < i ==> #[trigger] self.bins@[j] <= max,
                forall|j: int| 0 <= j < index ==> #[trigger] self.bins@[j] < max,
            decreases n - i,
        {
            if self.bins[i] > max {
                max = self.bins[i];
                index = i;
            } else if i == 0 {
                assert(self.bins@[0] == 0);
            }
            i = i + 1;
        }
        index
    }

    /// Count the number of bins with the given value
    pub fn count(&self, v: usize) -> (r: usize)
        ensures
            r == count_eq(self.bins@, v),
    {
        let n = self.bins.len();
        let mut total: usize = 0;
        let mut i: usize = 0;
        while i < n
            invariant
                n == self.bins@.len(),
                i <= n,
                total == count_eq(self.bins@.subrange(0, i as int), v),
                total <= i,
            decreases n - i,
        {
            proof {
                let s = self.bins@.subrange(0, i + 1);
                assert(s.drop_last() =~= self.bins@.subrange(0, i as int));
            }
            if self.bins[i] == v {
                total = total + 1;
            }
            i = i + 1;
        }
        assert(self.bins@.subrange(0, n as int) =~= self.bins@);
        total
    }
}

} // verus!
