use rstorch::data::dataset::hub::idx::{IdxArray, IdxError};
use rstorch::data::dataset::hub::mnist::LoadError;
use rstorch::data::dataset::hub::MNIST;
use rstorch::data::dataset::{
    Basic, Chain, Combinators, Dataset, DatasetIter, IterableDataset, Shuffler, Subset, Transform,
};

pub struct TestDataset {
    data: Vec<i32>,
}

impl Dataset for TestDataset {
    type Item = i32;

    fn get(&self, index: usize) -> Option<Self::Item> {
        self.data.get(index).copied()
    }

    fn len(&self) -> usize {
        self.data.len()
    }

    fn is_empty(&self) -> bool {
        self.data.is_empty()
    }
}

impl TestDataset {
    pub fn new(data: impl Iterator<Item = i32>) -> Self {
        Self {
            data: data.collect(),
        }
    }
}

fn abs(input: i32) -> u32 {
    input.unsigned_abs()
}

fn transform(input: i32) -> u32 {
    input.abs() as u32
}

#[test]
fn test_from() {
    let data = vec![1, 2, 3, 4, 5];
    let dataset = Basic::new(data.clone());

    assert_eq!(Some(1), dataset.get(0));
    assert_eq!(data, dataset.iter().to_vec());
}

#[test]
fn test_collect() {
    let dataset: Basic<_> = Basic::new((-50..50).collect());

    assert_eq!(Some(-50), dataset.get(0));
    let expected = (-50..50).collect::<Vec<_>>();
    assert_eq!(expected, dataset.iter().to_vec());
}

#[test]
fn test_from_iter() {
    let dataset = Basic::new(Vec::from_iter(-50..50));

    assert_eq!(Some(-50), dataset.get(0));
    let expected = (-50..50).collect::<Vec<_>>();
    assert_eq!(expected, dataset.iter().to_vec());
}

#[test]
fn test_dataset() {
    let data = TestDataset::new(-50..50);
    assert_eq!(Some(-10), data.get(40));
}

#[test]
fn test_iterable_dataset() {
    let data = TestDataset::new(-50..50);
    let expected = (-50..50).collect::<Vec<_>>();
    assert_eq!(expected, data.iter().to_vec());
}

#[test]
fn mod_test_transform() {
    let data = TestDataset::new(-50..50);

    let data = data.transform(abs);
    assert_eq!(Some(50), data.get(0));
    let expected = (1..=50).rev().chain(0..50).collect::<Vec<u32>>();
    assert_eq!(expected, data.iter().to_vec());
}

#[test]
fn mod_test_subset() {
    let data = TestDataset::new(-50..50);
    let indices = vec![1, 3, 4, 10];

    let data = data.subset(indices);
    assert_eq!(Some(-49), data.get(0));
    assert_eq!(vec![-49, -47, -46, -40], data.iter().to_vec());
}

#[test]
fn test_chain() {
    let data1 = TestDataset::new(-50..0);
    let data2 = TestDataset::new(0..50);

    let data = data1.chain(data2);
    assert_eq!(Some(-50), data.get(0));
    assert_eq!(Some(0), data.get(50));
    let expected = (-50..50).collect::<Vec<_>>();
    assert_eq!(expected, data.iter().to_vec());
}

#[test]
fn subset_test_subset() {
    let data = TestDataset {
        data: (-50..50).collect(),
    };
    let indices = vec![1, 3, 4, 10];

    let data = Subset::new(data, indices);
    assert_eq!(Some(-49), data.get(0));
    assert_eq!(vec![-49, -47, -46, -40], data.iter().to_vec());
}

#[test]
fn transform_test_transform() {
    let data = TestDataset {
        data: (-50..50).collect(),
    };

    let data = Transform::new(data, transform);
    assert_eq!(Some(50), data.get(0));
    let expected = (1..=50).rev().chain(0..50).collect::<Vec<u32>>();
    assert_eq!(expected, data.iter().to_vec());
}

#[test]
fn get_is_some_exactly_below_len() {
    let basic = Basic::new(vec![7, 8, 9]);
    let chain = Chain::new(Basic::new(vec![1, 2]), Basic::new(vec![3]));
    let subset = Subset::new(Basic::new(vec![1, 2, 3, 4]), vec![3, 0]);
    let mapped = Transform::new(Basic::new(vec![1, 2, 3, 4, 5]), abs);
    let shuffled = Shuffler::new(Basic::new(vec![1, 2, 3, 4, 5, 6]));
    for i in 0..10 {
        assert_eq!(basic.get(i).is_some(), i < basic.len());
        assert_eq!(chain.get(i).is_some(), i < chain.len());
        assert_eq!(subset.get(i).is_some(), i < subset.len());
        assert_eq!(mapped.get(i).is_some(), i < mapped.len());
        assert_eq!(shuffled.get(i).is_some(), i < shuffled.len());
    }
    assert_eq!(3, basic.len());
    assert_eq!(3, chain.len());
    assert_eq!(2, subset.len());
    assert_eq!(5, mapped.len());
    assert_eq!(6, shuffled.len());
}

#[test]
fn is_empty_means_no_items() {
    let empty: Basic<i32> = Basic::new(Vec::new());
    assert!(empty.is_empty());
    assert_eq!(None, empty.get(0));
    assert!(!Basic::new(vec![1]).is_empty());
    let chain = Chain::new(Basic::new(Vec::<i32>::new()), Basic::new(Vec::new()));
    assert!(chain.is_empty());
    let chain = Chain::new(Basic::new(Vec::<i32>::new()), Basic::new(vec![1]));
    assert!(!chain.is_empty());
    assert!(Subset::new(Basic::new(vec![1, 2]), Vec::new()).is_empty());
    assert!(Shuffler::new(Basic::new(Vec::<i32>::new())).is_empty());
}

#[test]
fn chain_routes_to_the_second_part() {
    let a = Basic::new(vec![10, 11, 12]);
    let b = Basic::new(vec![20, 21]);
    let chain = Chain::new(Basic::new(vec![10, 11, 12]), Basic::new(vec![20, 21]));
    assert_eq!(a.len() + b.len(), chain.len());
    assert_eq!(b.get(0), chain.get(a.len()));
    assert_eq!(Some(12), chain.get(2));
    assert_eq!(Some(21), chain.get(4));
    assert_eq!(None, chain.get(5));
}

#[test]
fn basic_with_targets_pairs_by_position() {
    let data = Basic::new_with_targets(vec![1, 2, 3], vec!['a', 'b', 'c']);
    assert_eq!(3, data.len());
    assert_eq!(Some((1, 'a')), data.get(0));
    assert_eq!(Some((3, 'c')), data.get(2));
    assert_eq!(None, data.get(3));

    let short = Basic::from_iter_with_targets(vec![1, 2, 3, 4], vec!['x', 'y']);
    assert_eq!(vec![(1, 'x'), (2, 'y')], short.iter().to_vec());
    let short = Basic::from_iter_with_targets(vec![1], vec!['x', 'y', 'z']);
    assert_eq!(vec![(1, 'x')], short.iter().to_vec());
}

#[test]
fn subset_rejects_an_index_out_of_bounds() {
    assert!(Subset::try_new(Basic::new(vec![1, 2, 3]), vec![0, 3]).is_none());
    assert!(Subset::try_new(Basic::new(Vec::<i32>::new()), vec![0]).is_none());
    let subset = Subset::try_new(Basic::new(vec![1, 2, 3]), vec![2, 2, 0]).unwrap();
    assert_eq!(vec![3, 3, 1], subset.iter().to_vec());
    assert_eq!(None, subset.get(3));
}

#[test]
fn shuffler_keeps_every_item_once() {
    let mut data = Shuffler::new(Basic::new((0..200).collect::<Vec<i32>>()));
    let first = data.iter().to_vec();
    let mut sorted = first.clone();
    sorted.sort();
    assert_eq!((0..200).collect::<Vec<_>>(), sorted);

    data.shuffle();
    let second = data.iter().to_vec();
    let mut sorted = second.clone();
    sorted.sort();
    assert_eq!((0..200).collect::<Vec<_>>(), sorted);
    assert_ne!((0..200).collect::<Vec<_>>(), second);
    assert_ne!(first, second);
}

#[test]
fn cursor_walks_from_both_ends() {
    let data = Basic::new(vec![1, 2, 3, 4, 5]);
    let mut cursor = DatasetIter::new(&data);
    assert_eq!(5, cursor.len());
    assert_eq!((5, Some(5)), cursor.size_hint());
    assert_eq!(Some(1), cursor.next());
    assert_eq!(Some(5), cursor.next_back());
    assert_eq!(Some(4), cursor.next_back());
    assert_eq!(2, cursor.len());
    assert_eq!(vec![2, 3], cursor.to_vec());

    let mut cursor = data.iter();
    for _ in 0..5 {
        assert!(cursor.next().is_some());
    }
    assert_eq!(None, cursor.next());
    assert_eq!(None, cursor.next_back());
    assert_eq!(0, cursor.len());
}

fn idx_file(type_code: u8, shape: &[u32], data: &[u8]) -> Vec<u8> {
    let mut bytes = vec![0, 0, type_code, shape.len() as u8];
    for length in shape {
        bytes.extend_from_slice(&length.to_be_bytes());
    }
    bytes.extend_from_slice(data);
    bytes
}

#[test]
fn idx_parse_reads_shape_and_elements() {
    let bytes = idx_file(8, &[2, 3], &[1, 2, 3, 4, 5, 6]);
    let array = IdxArray::parse(&bytes, 2).unwrap();
    assert_eq!(2, array.ndim());
    assert_eq!(2, array.len_of(0));
    assert_eq!(3, array.len_of(1));
    assert_eq!(6, array.len());
    assert_eq!(Some(vec![1, 2, 3]), array.example(0));
    assert_eq!(Some(vec![4, 5, 6]), array.example(1));
    assert_eq!(None, array.example(2));

    let bytes = idx_file(8, &[258], &[7; 258]);
    let array = IdxArray::parse(&bytes, 1).unwrap();
    assert_eq!(258, array.len_of(0));
    assert_eq!(Some(vec![7]), array.example(257));

    let bytes = idx_file(8, &[0, 4], &[]);
    let array = IdxArray::parse(&bytes, 2).unwrap();
    assert_eq!(0, array.len());
    assert_eq!(None, array.example(0));
}

#[test]
fn idx_parse_names_what_is_wrong() {
    assert_eq!(Some(IdxError::Truncated), IdxArray::parse(&vec![0, 0, 8], 1).err());
    let bytes = idx_file(8, &[2, 3], &[1, 2, 3, 4, 5, 6]);
    assert_eq!(Some(IdxError::Rank), IdxArray::parse(&bytes, 3).err());
    let bytes = idx_file(9, &[2, 3], &[1, 2, 3, 4, 5, 6]);
    assert_eq!(Some(IdxError::ElementType), IdxArray::parse(&bytes, 2).err());
    assert_eq!(
        Some(IdxError::Truncated),
        IdxArray::parse(&vec![0, 0, 8, 2, 0, 0, 0, 2, 0, 0], 2).err()
    );
    let bytes = idx_file(8, &[2, 3], &[1, 2, 3, 4, 5]);
    assert_eq!(Some(IdxError::Size), IdxArray::parse(&bytes, 2).err());
    let bytes = idx_file(8, &[2, 3], &[1, 2, 3, 4, 5, 6, 7]);
    assert_eq!(Some(IdxError::Size), IdxArray::parse(&bytes, 2).err());
    let bytes = idx_file(8, &[u32::MAX, u32::MAX, u32::MAX], &[1]);
    assert_eq!(Some(IdxError::Size), IdxArray::parse(&bytes, 3).err());
}

#[test]
fn mnist_pairs_images_with_labels() {
    let images = idx_file(8, &[2, 2, 3], &[1, 2, 3, 4, 5, 6, 7, 8, 9, 10, 11, 12]);
    let labels = idx_file(8, &[2], &[4, 9]);
    let data = MNIST::from_idx(&images, &labels, true).unwrap();
    assert_eq!(2, data.len());
    assert!(!data.is_empty());
    assert!(data.is_train());
    assert_eq!((2, 3), data.image_shape());
    assert_eq!(Some((vec![1, 2, 3, 4, 5, 6], 4)), data.get(0));
    assert_eq!(Some((vec![7, 8, 9, 10, 11, 12], 9)), data.get(1));
    assert_eq!(None, data.get(2));

    let labels = idx_file(8, &[3], &[4, 9, 1]);
    assert_eq!(
        Some(LoadError::Length),
        MNIST::from_idx(&images, &labels, false).err()
    );
    assert_eq!(
        Some(LoadError::Labels(IdxError::Rank)),
        MNIST::from_idx(&images, &images, false).err()
    );
    assert_eq!(
        Some(LoadError::Images(IdxError::Rank)),
        MNIST::from_idx(&labels, &labels, false).err()
    );
}
