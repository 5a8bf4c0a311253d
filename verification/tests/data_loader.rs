use rstorch::data::data_loader::batch_shape;
use rstorch::data::dataset::{Basic, Dataset};
use rstorch::data::{DataLoader, Sampler, SequentialSampler};

pub struct TestDataset {
    data: Vec<i32>,
}

impl Dataset for TestDataset {
    type Item = i32;

    fn get(&self, index: usize) -> Option<Self::Item> {
        self.data.get(index).copied()
    }

    fn len(&self) -> usize {
        self.data.len()
    }

    fn is_empty(&self) -> bool {
        self.data.is_empty()
    }
}

impl TestDataset {
    pub fn new(data: impl Iterator<Item = i32>) -> Self {
        Self {
            data: data.collect(),
        }
    }
}

#[test]
fn basic_iter() {
    let data = TestDataset::new(5..500);
    let sampler = SequentialSampler::new(data.len());

    let mut data = DataLoader::new(data, 32, false, sampler);
    assert_eq!(Some((5..37).collect::<Vec<_>>()), data.iter().next());
}

#[test]
fn loader_drops_a_short_last_batch() {
    let data = Basic::new((0..10).collect::<Vec<i32>>());
    let mut loader = DataLoader::new(data, 3, false, SequentialSampler::new(10));
    let mut batches = loader.iter();
    assert_eq!(3, batches.count());
    assert_eq!((3, Some(3)), batches.size_hint());
    assert_eq!(Some(vec![0, 1, 2]), batches.next());
    assert_eq!(Some(vec![3, 4, 5]), batches.next());
    assert_eq!(1, batches.count());
    assert_eq!(Some(vec![6, 7, 8]), batches.next());
    assert_eq!(0, batches.count());
    assert_eq!(None, batches.next());
    assert_eq!(None, batches.next());
}

#[test]
fn loader_walks_backwards_in_reverse_order() {
    let data = Basic::new((0..10).collect::<Vec<i32>>());
    let mut loader = DataLoader::new(data, 4, false, SequentialSampler::new(10));
    let mut batches = loader.iter();
    assert_eq!(Some(vec![9, 8, 7, 6]), batches.next_back());
    assert_eq!(Some(vec![0, 1, 2, 3]), batches.next());
    assert_eq!(None, batches.next_back());
    assert_eq!(None, batches.next());
}

#[test]
fn loader_gives_no_batch_for_an_index_outside_the_dataset() {
    let data = Basic::new((0..5).collect::<Vec<i32>>());
    let mut loader = DataLoader::new(data, 2, false, SequentialSampler::new(9));
    let mut batches = loader.iter();
    assert_eq!(Some(vec![0, 1]), batches.next());
    assert_eq!(Some(vec![2, 3]), batches.next());
    // index 5 is the first outside: it is used up together with index 4
    assert_eq!(None, batches.next());
    assert_eq!(1, batches.count());
    // 6 fails at once and is used up alone
    assert_eq!(None, batches.next());
    assert_eq!(1, batches.count());
    assert_eq!(None, batches.next());
    assert_eq!(0, batches.count());

    let data = Basic::new((0..5).collect::<Vec<i32>>());
    let mut loader = DataLoader::new(data, 2, false, SequentialSampler::new(9));
    let mut batches = loader.iter();
    assert_eq!(None, batches.next_back());
    assert_eq!(4, batches.count());
}

#[test]
fn loader_starts_every_pass_anew() {
    let data = Basic::new((0..6).collect::<Vec<i32>>());
    let mut loader = DataLoader::new(data, 6, false, SequentialSampler::new(6));
    assert_eq!(Some(vec![0, 1, 2, 3, 4, 5]), loader.iter().next());
    loader.shuffle();
    assert_eq!(Some(vec![0, 1, 2, 3, 4, 5]), loader.iter().next());
}

#[test]
fn loader_with_shuffle_shows_every_item_once_per_pass() {
    let data = Basic::new((0..120).collect::<Vec<i32>>());
    let mut loader = DataLoader::new(data, 40, true, SequentialSampler::new(120));
    let mut passes = Vec::new();
    for _ in 0..2 {
        let mut seen = Vec::new();
        let mut batches = loader.iter();
        assert_eq!(3, batches.count());
        while let Some(batch) = batches.next() {
            assert_eq!(40, batch.len());
            seen.extend(batch);
        }
        let mut sorted = seen.clone();
        sorted.sort();
        assert_eq!((0..120).collect::<Vec<_>>(), sorted);
        assert_ne!((0..120).collect::<Vec<_>>(), seen);
        passes.push(seen);
    }
    assert_ne!(passes[0], passes[1]);
}

#[test]
fn sampler_len_sets_the_length_of_a_pass() {
    let data = TestDataset::new(0..100);
    let sampler = SequentialSampler::new(50);
    assert_eq!(50, sampler.len());
    let mut loader = DataLoader::new(data, 8, false, sampler);
    let mut batches = loader.iter();
    assert_eq!(6, batches.count());
    let mut n = 0;
    while let Some(batch) = batches.next() {
        assert_eq!((n * 8..n * 8 + 8).collect::<Vec<i32>>(), batch);
        n += 1;
    }
    assert_eq!(6, n);
}

#[test]
fn batch_shape_needs_equal_shapes() {
    assert_eq!(
        Some(vec![3, 4, 4]),
        batch_shape(&vec![vec![4, 4], vec![4, 4], vec![4, 4]])
    );
    assert_eq!(Some(vec![1]), batch_shape(&vec![vec![]]));
    assert_eq!(Some(vec![2, 0]), batch_shape(&vec![vec![0], vec![0]]));
    assert_eq!(None, batch_shape(&vec![vec![4, 4], vec![4, 5]]));
    assert_eq!(None, batch_shape(&vec![vec![4, 4], vec![4]]));
    assert_eq!(None, batch_shape(&vec![vec![4], vec![4], vec![4, 1]]));
    assert_eq!(None, batch_shape(&Vec::new()));
}

#[test]
fn loader_gives_all_batches_of_a_pass() {
    let data = TestDataset::new(5..500);
    let sampler = SequentialSampler::new(data.len());
    let mut loader = DataLoader::new(data, 32, false, sampler);
    let batches = loader.iter().to_vec();
    assert_eq!(495 / 32, batches.len());
    assert_eq!((5..37).collect::<Vec<_>>(), batches[0]);
    for (k, batch) in batches.iter().enumerate() {
        let start = 5 + 32 * k as i32;
        assert_eq!((start..start + 32).collect::<Vec<_>>(), *batch);
    }

    // a pass stops at the first batch that does not come out
    let data = Basic::new((0..5).collect::<Vec<i32>>());
    let mut loader = DataLoader::new(data, 2, false, SequentialSampler::new(9));
    assert_eq!(vec![vec![0, 1], vec![2, 3]], loader.iter().to_vec());

    let data = Basic::new(Vec::<i32>::new());
    let mut loader = DataLoader::new(data, 2, false, SequentialSampler::new(0));
    assert!(loader.iter().to_vec().is_empty());
}
