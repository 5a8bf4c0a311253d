use vstd::prelude::*;

use super::idx::{example_at, parsed, volume, IdxArray, IdxError};

verus! {

/// Why two files do not make a set of labelled images.
#[derive(Debug, PartialEq, Eq, Structural)]
pub enum LoadError {
    /// The image file is not an array of bytes with three axes.
    Images(IdxError),
    /// The label file is not an array of bytes with one axis.
    Labels(IdxError),
    /// There are not as many labels as images.
    Length,
}

/// What loading the two files gives: nothing wrong, or the first thing that
/// is wrong.
pub open spec fn loaded(images: Seq<u8>, labels: Seq<u8>) -> Result<(), LoadError> {
    match parsed(images, 3) {
        Err(e) => Err(LoadError::Images(e)),
        Ok(i) => match parsed(labels, 1) {
            Err(e) => Err(LoadError::Labels(e)),
            Ok(l) => if i.0[0] != l.0[0] {
                Err(LoadError::Length)
            } else {
                Ok(())
            },
        },
    }
}

/// Images of handwritten digits with their labels: an array of images with the
/// image count as its first axis, and one label per image.
#[allow(clippy::upper_case_acronyms)]
pub struct MNIST {
    data: IdxArray,
    labels: IdxArray,
    train: bool,
}

impl MNIST {
    /// There is one label for every image.
    #[verifier::type_invariant]
    spec fn valid(self) -> bool {
        &&& self.data.shape().len() == 3
        &&& self.labels.shape().len() == 1
        &&& self.data.shape()[0] == self.labels.shape()[0]
        &&& volume(self.labels.shape()) == self.labels.elements().len()
    }

    /// The shape of the image array: count, rows, columns.
    pub closed spec fn shape(&self) -> Seq<usize> {
        self.data.shape()
    }

    /// The pixels of all images, image after image, row after row.
    pub closed spec fn pixels(&self) -> Seq<u8> {
        self.data.elements()
    }

    /// The labels, one per image.
    pub closed spec fn labels(&self) -> Seq<u8> {
        self.labels.elements()
    }

    /// Whether this is the training part of the data.
    pub closed spec fn training(&self) -> bool {
        self.train
    }

    /// Builds the dataset from the contents of an image file and of a label
    /// file.
    pub fn from_idx(images: &Vec<u8>, labels: &Vec<u8>, train: bool) -> (dataset: Result<
        MNIST,
        LoadError,
    >)
        ensures
            match dataset {
                Ok(d) => {
                    &&& loaded(images@, labels@) is Ok
                    &&& parsed(images@, 3) == Ok::<_, IdxError>((d.shape(), d.pixels()))
                    &&& parsed(labels@, 1) matches Ok(l) && l.1 == d.labels()
                    &&& d.labels().len() == d.shape()[0]
                    &&& d.training() == train
                },
                Err(e) => loaded(images@, labels@) == Err::<(), _>(e),
            },
    {
        let data = match IdxArray::parse(images, 3) {
            Ok(data) => data,
            Err(e) => {
                return Err(LoadError::Images(e));
            },
        };
        let marks = match IdxArray::parse(labels, 1) {
            Ok(marks) => marks,
            Err(e) => {
                return Err(LoadError::Labels(e));
            },
        };
        if data.len_of(0) != marks.len_of(0) {
            return Err(LoadError::Length);
        }
        proof {
            lemma_line(marks.shape());
        }
        Ok(MNIST { data, labels: marks, train })
    }

    /// The number of images.
    pub fn len(&self) -> (n: usize)
        ensures
            n == self.labels().len(),
            n == self.shape()[0],
    {
        proof {
            use_type_invariant(self);
            lemma_line(self.labels.shape());
        }
        self.labels.len()
    }

    /// Whether there is no image.
    pub fn is_empty(&self) -> (empty: bool)
        ensures
            empty == (self.labels().len() == 0),
    {
        self.len() == 0
    }

    /// The number of rows and of columns of every image.
    pub fn image_shape(&self) -> (shape: (usize, usize))
        ensures
            shape.0 == self.shape()[1],
            shape.1 == self.shape()[2],
    {
        proof {
            use_type_invariant(self);
        }
        (self.data.len_of(1), self.data.len_of(2))
    }

    /// Whether this is the training part of the data.
    pub fn is_train(&self) -> (train: bool)
        ensures
            train == self.training(),
    {
        self.train
    }

    /// Image `index`, row after row, with its label; nothing where `index` is
    /// not below the number of images.
    pub fn get(&self, index: usize) -> (item: Option<(Vec<u8>, u8)>)
        ensures
            item is Some <==> index < self.labels().len(),
            item matches Some(pair) ==> pair.0@ == example_at(
                self.shape(),
                self.pixels(),
                index as int,
            ) && pair.1 == self.labels()[index as int],
    {
        proof {
            use_type_invariant(self);
            lemma_line(self.labels.shape());
        }
        match (self.data.example(index), self.labels.example(index)) {
            (Some(image), Some(label)) => {
                proof {
                    let shape = self.labels.shape();
                    assert(shape.drop_first().len() == 0);
                    assert(volume(shape.drop_first()) == 1);
                    assert(label@.len() == 1);
                    assert(label@[0] == self.labels.elements()[index as int]);
                }
                Some((image, label[0]))
            },
            _ => None,
        }
    }
}

/// An array with one axis has as many elements as that axis is long.
proof fn lemma_line(shape: Seq<usize>)
    requires
        shape.len() == 1,
    ensures
        volume(shape) == shape[0],
{
    let rest = volume(shape.drop_last());
    assert(shape.drop_last().len() == 0);
    assert(rest == 1);
    assert(shape.last() == shape[0]);
    assert(volume(shape) == (shape.last() as nat) * rest);
    assert((shape.last() as nat) * rest == shape.last()) by (nonlinear_arith)
        requires
            rest == 1,
    ;
}

} // verus!
