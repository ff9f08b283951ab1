//! Tensors in host memory.
use vstd::prelude::*;

verus! {

/// A tensor: the length of each axis, the step that each axis takes through
/// the values, and the values.
pub struct DataBuffer<T> {
    pub shape: Vec<usize>,
    pub strides: Vec<usize>,
    pub values: Vec<T>,
}

impl<T> DataBuffer<T> {
    /// Whether this tensor has three axes.
    pub open spec fn has_three_axes(self) -> bool {
        self.shape@.len() == 3
    }

    /// Whether `(i, j, k)` names an element.
    pub open spec fn has_index(self, i: int, j: int, k: int) -> bool {
        0 <= i < self.shape@[0] && 0 <= j < self.shape@[1] && 0 <= k < self.shape@[2]
    }

    /// Where element `(i, j, k)` lies among the values.
    pub open spec fn offset(self, i: int, j: int, k: int) -> int {
        i * self.strides@[0] + j * self.strides@[1] + k * self.strides@[2]
    }

    /// Element `(i, j, k)`.
    pub open spec fn at(self, i: int, j: int, k: int) -> T {
        self.values@[self.offset(i, j, k)]
    }

    /// Whether this tensor has three axes and every element lies among the values.
    pub open spec fn readable(self) -> bool {
        &&& self.has_three_axes()
        &&& self.strides@.len() == 3
        &&& forall|i: int, j: int, k: int|
            self.has_index(i, j, k) ==> #[trigger] self.offset(i, j, k) < self.values@.len()
    }

    /// Whether this tensor has two axes of the given lengths, and its values lie
    /// row after row without gaps.
    pub open spec fn is_plane(self, rows: int, columns: int) -> bool {
        &&& self.shape@.len() == 2
        &&& self.shape@[0] == rows
        &&& self.shape@[1] == columns
        &&& self.strides@.len() == 2
        &&& self.strides@[0] == columns
        &&& self.strides@[1] == 1
        &&& self.values@.len() == rows * columns
    }

    /// Whether this tensor has three axes of the given lengths, and its values
    /// lie plane after plane and row after row without gaps.
    pub open spec fn is_stack(self, planes: int, rows: int, columns: int) -> bool {
        &&& self.shape@.len() == 3
        &&& self.shape@[0] == planes
        &&& self.shape@[1] == rows
        &&& self.shape@[2] == columns
        &&& self.strides@.len() == 3
        &&& self.strides@[0] == rows * columns
        &&& self.strides@[1] == columns
        &&& self.strides@[2] == 1
        &&& self.values@.len() == planes * rows * columns
    }

    /// A tensor of two axes over `values`.
    pub fn plane(rows: usize, columns: usize, values: Vec<T>) -> (r: DataBuffer<T>)
        requires
            values@.len() == rows * columns,
        ensures
            r.is_plane(rows as int, columns as int),
            r.values@ == values@,
    {
        DataBuffer { shape: vec![rows, columns], strides: vec![columns, 1], values }
    }

    /// A tensor of three axes over `values`.
    pub fn stack(planes: usize, rows: usize, columns: usize, values: Vec<T>) -> (r: DataBuffer<T>)
        requires
            values@.len() == planes * rows * columns,
            rows * columns <= usize::MAX,
        ensures
            r.is_stack(planes as int, rows as int, columns as int),
            r.readable(),
            r.values@ == values@,
    {
        let r = DataBuffer {
            shape: vec![planes, rows, columns],
            strides: vec![rows * columns, columns, 1],
            values,
        };
        proof {
            assert forall|i: int, j: int, k: int| r.has_index(i, j, k) implies #[trigger] r.offset(
                i,
                j,
                k,
            ) < r.values@.len() by {
                stack_offset_in_range(planes as int, rows as int, columns as int, i, j, k);
                assert(r.strides@[2] == 1);
                assert(k * r.strides@[2] == k) by (nonlinear_arith)
                    requires
                        r.strides@[2] == 1,
                ;
            }
        }
        r
    }

    /// Checks that this tensor has three axes and that every element lies among
    /// the values.
    pub fn is_readable(&self) -> (r: bool)
        ensures
            r == self.readable(),
    {
        if self.shape.len() != 3 || self.strides.len() != 3 {
            return false;
        }
        if self.shape[0] == 0 || self.shape[1] == 0 || self.shape[2] == 0 {
            return true;
        }
        let count: usize = self.values.len();
        let last = last_offset(
            self.shape[0] - 1,
            self.shape[1] - 1,
            self.shape[2] - 1,
            &self.strides,
        );
        proof {
            let (i, j, k) = (self.shape@[0] - 1, self.shape@[1] - 1, self.shape@[2] - 1);
            assert(self.has_index(i, j, k));
            let top = self.offset(i, j, k);
            assert forall|a: int, b: int, c: int| self.has_index(a, b, c) implies #[trigger] self.offset(
                a,
                b,
                c,
            ) <= top by {
                offset_grows(a, i, self.strides@[0] as int);
                offset_grows(b, j, self.strides@[1] as int);
                offset_grows(c, k, self.strides@[2] as int);
            }
        }
        match last {
            Some(top) => top < count,
            None => false,
        }
    }

    /// Reads element `(i, j, k)`.
    pub fn get(&self, i: usize, j: usize, k: usize) -> (r: T)
        where T: Copy
        requires
            self.readable(),
            self.has_index(i as int, j as int, k as int),
        ensures
            r == self.at(i as int, j as int, k as int),
    {
        proof {
            assert(self.offset(i as int, j as int, k as int) < self.values.len());
            offset_grows(0, i as int, self.strides@[0] as int);
            offset_grows(0, j as int, self.strides@[1] as int);
            offset_grows(0, k as int, self.strides@[2] as int);
        }
        self.values[i * self.strides[0] + j * self.strides[1] + k * self.strides[2]]
    }
}

/// A step further along an axis is no step back through the values.
proof fn offset_grows(from: int, to: int, stride: int)
    by (nonlinear_arith)
    requires
        from <= to,
        0 <= stride,
    ensures
        from * stride <= to * stride,
        from == 0 ==> from * stride == 0,
{
}

/// Every element of a stack without gaps lies among its values.
proof fn stack_offset_in_range(planes: int, rows: int, columns: int, i: int, j: int, k: int)
    by (nonlinear_arith)
    requires
        0 <= i < planes,
        0 <= j < rows,
        0 <= k < columns,
    ensures
        0 <= i * (rows * columns) + j * columns + k < planes * rows * columns,
{
    assert((j + 1) * columns <= rows * columns);
    assert((i + 1) * (rows * columns) <= planes * (rows * columns));
    assert(planes * (rows * columns) == planes * rows * columns);
    assert(i * (rows * columns) >= 0);
    assert(j * columns >= 0);
}

/// Where element `(i, j, k)` lies, if machine arithmetic can tell.
fn last_offset(i: usize, j: usize, k: usize, strides: &Vec<usize>) -> (r: Option<usize>)
    requires
        strides@.len() == 3,
    ensures
        ({
            let offset = i * strides@[0] + j * strides@[1] + k * strides@[2];
            match r {
                Some(top) => top == offset,
                None => offset > usize::MAX,
            }
        }),
{
    proof {
        offset_grows(0, i as int, strides@[0] as int);
        offset_grows(0, j as int, strides@[1] as int);
        offset_grows(0, k as int, strides@[2] as int);
    }
    match (
        i.checked_mul(strides[0]),
        j.checked_mul(strides[1]),
        k.checked_mul(strides[2]),
    ) {
        (Some(a), Some(b), Some(c)) => match a.checked_add(b) {
            Some(sum) => sum.checked_add(c),
            None => None,
        },
        _ => None,
    }
}

/// An element stands as many strides along each axis as its index says.
pub proof fn elements_stand_at_their_strides<T>(tensor: DataBuffer<T>, i: int, j: int, k: int)
    ensures
        tensor.at(i, j, k) == tensor.values@[i * tensor.strides@[0] + j * tensor.strides@[1] + k
            * tensor.strides@[2]],
        tensor.has_three_axes() <==> tensor.shape@.len() == 3,
        tensor.has_index(i, j, k) <==> (0 <= i < tensor.shape@[0] && 0 <= j < tensor.shape@[1] && 0
            <= k < tensor.shape@[2]),
{
}

/// A tensor can be read exactly if it has three axes with a stride each and is
/// empty or has its last element among its values.
pub proof fn readable_to_the_last_element<T>(tensor: DataBuffer<T>)
    ensures
        tensor.readable() <==> {
            &&& tensor.shape@.len() == 3
            &&& tensor.strides@.len() == 3
            &&& {
                ||| tensor.shape@[0] == 0
                ||| tensor.shape@[1] == 0
                ||| tensor.shape@[2] == 0
                ||| (tensor.shape@[0] - 1) * tensor.strides@[0] + (tensor.shape@[1] - 1)
                    * tensor.strides@[1] + (tensor.shape@[2] - 1) * tensor.strides@[2]
                    < tensor.values@.len()
            }
        },
{
    if tensor.shape@.len() == 3 && tensor.strides@.len() == 3 && tensor.shape@[0] != 0
        && tensor.shape@[1] != 0 && tensor.shape@[2] != 0 {
        let (i, j, k) = (tensor.shape@[0] - 1, tensor.shape@[1] - 1, tensor.shape@[2] - 1);
        assert(tensor.has_index(i, j, k));
        let top = tensor.offset(i, j, k);
        assert forall|a: int, b: int, c: int|
            tensor.has_index(a, b, c) implies #[trigger] tensor.offset(a, b, c) <= top by {
            offset_grows(a, i, tensor.strides@[0] as int);
            offset_grows(b, j, tensor.strides@[1] as int);
            offset_grows(c, k, tensor.strides@[2] as int);
        }
    }
}

/// The values of a plane without gaps are its rows, one after the other.
pub proof fn planes_have_no_gaps<T>(tensor: DataBuffer<T>, rows: int, columns: int)
    ensures
        tensor.is_plane(rows, columns) <==> {
            &&& tensor.shape@.len() == 2 && tensor.shape@[0] == rows && tensor.shape@[1] == columns
            &&& tensor.strides@.len() == 2 && tensor.strides@[0] == columns && tensor.strides@[1]
                == 1
            &&& tensor.values@.len() == rows * columns
        },
{
}

/// The values of a stack without gaps are its planes, one after the other, each
/// with its rows one after the other.
pub proof fn stacks_have_no_gaps<T>(
    tensor: DataBuffer<T>,
    planes: int,
    rows: int,
    columns: int,
    i: int,
    j: int,
    k: int,
)
    requires
        tensor.is_stack(planes, rows, columns),
    ensures
        tensor.shape@.len() == 3,
        tensor.shape@[0] == planes,
        tensor.shape@[1] == rows,
        tensor.shape@[2] == columns,
        tensor.strides@.len() == 3,
        tensor.values@.len() == planes * rows * columns,
        tensor.at(i, j, k) == tensor.values@[(i * rows + j) * columns + k],
{
    let step = tensor.strides@[2] as int;
    assert(i * (rows * columns) + j * columns + k * step == (i * rows + j) * columns + k)
        by (nonlinear_arith)
        requires
            step == 1,
    ;
}

} // verus!
