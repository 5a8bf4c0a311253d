use vstd::prelude::*;

use super::Dataset;

verus! {

/// A dataset that owns its items in a vector.
pub struct Basic<T> {
    pub data: Vec<T>,
}

impl<T> Basic<T> {
    #[must_use]
    pub fn new(data: Vec<T>) -> (dataset: Self)
        ensures
            dataset.data == data,
    {
        Self { data }
    }
}

/// The pairs `(input[i], targets[i])`, as far as both sequences reach.
pub open spec fn paired<T, T2>(input: Seq<T>, targets: Seq<T2>) -> Seq<(T, T2)> {
    Seq::new(
        if input.len() <= targets.len() { input.len() } else { targets.len() },
        |i: int| (input[i], targets[i]),
    )
}

impl<T, T2> Basic<(T, T2)> {
    /// Pairs every input with the target at the same position.
    #[must_use]
    pub fn new_with_targets(input: Vec<T>, targets: Vec<T2>) -> (dataset: Self)
        requires
            input.len() == targets.len(),
        ensures
            dataset.data@ == paired(input@, targets@),
            dataset.data.len() == input.len(),
    {
        Self::from_iter_with_targets(input, targets)
    }

    /// Pairs inputs with targets position by position and stops where the
    /// shorter of the two ends.
    #[must_use]
    pub fn from_iter_with_targets(input: Vec<T>, targets: Vec<T2>) -> (dataset: Self)
        ensures
            dataset.data@ == paired(input@, targets@),
    {
        let ghost want = paired(input@, targets@);
        let mut input = input;
        let mut targets = targets;
        let n: usize = if input.len() <= targets.len() { input.len() } else { targets.len() };
        input.truncate(n);
        targets.truncate(n);
        // Take the pairs off the back, which leaves them in reverse order.
        let mut reversed: Vec<(T, T2)> = Vec::new();
        while input.len() > 0
            invariant
                input.len() == targets.len(),
                input.len() + reversed.len() == n,
                want.len() == n,
                forall|i: int| 0 <= i < input.len() ==> want[i] == (input[i], targets[i]),
                forall|k: int| 0 <= k < reversed.len() ==> reversed[k] == want[n - 1 - k],
            decreases input.len(),
        {
            let x = input.pop().unwrap();
            let y = targets.pop().unwrap();
            reversed.push((x, y));
        }
        let mut data: Vec<(T, T2)> = Vec::new();
        while reversed.len() > 0
            invariant
                reversed.len() + data.len() == n,
                want.len() == n,
                forall|k: int| 0 <= k < reversed.len() ==> reversed[k] == want[n - 1 - k],
                forall|i: int| 0 <= i < data.len() ==> data[i] == want[i],
            decreases reversed.len(),
        {
            let pair = reversed.pop().unwrap();
            data.push(pair);
        }
        assert(data@ =~= want);
        Self::new(data)
    }
}

impl<T: Copy> Dataset for Basic<T> {
    type Item = T;

    open spec fn items(&self) -> Seq<T> {
        self.data@
    }

    fn get(&self, index: usize) -> (item: Option<T>) {
        if index < self.data.len() {
            Some(self.data[index])
        } else {
            None
        }
    }

    fn len(&self) -> (n: usize) {
        self.data.len()
    }

    fn is_empty(&self) -> (empty: bool) {
        self.data.len() == 0
    }
}

} // verus!
