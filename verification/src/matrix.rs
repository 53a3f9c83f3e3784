//! Dense matrices of fixed-point scalars, with the affine-transform
//! builders, transposition, multiplication, determinants by cofactor
//! expansion, and inversion by the adjugate-over-determinant rule.
//!
//! A matrix is viewed as a sequence of rows of integer (millionth)
//! values. The transform builders and multiplication work on the 4x4
//! shape; determinants handle the 2x2 to 4x4 shapes that cofactor
//! expansion from a 4x4 reaches.

use vstd::prelude::*;

verus! {

use vstd::math::abs;
use crate::scalar::{Scalar, SCALE, fits, s_mul, s_div};
use crate::tuple::{Tuple, TupleV};

#[derive(Clone, Debug, PartialEq)]
pub struct Matrix {
    width: usize,
    height: usize,
    m: Vec<Vec<Scalar>>,
}

impl View for Matrix {
    type V = Seq<Seq<int>>;

    closed spec fn view(&self) -> Seq<Seq<int>> {
        self.m@.map_values(|row: Vec<Scalar>| row@.map_values(|e: Scalar| e@))
    }
}

/// Every row is as long as the matrix is high.
pub open spec fn is_square(v: Seq<Seq<int>>) -> bool {
    forall|i: int| 0 <= i < v.len() ==> #[trigger] v[i].len() == v.len()
}

/// The matrix is `w` cells wide and `h` rows high.
pub open spec fn is_rect(v: Seq<Seq<int>>, w: int, h: int) -> bool {
    v.len() == h && forall|i: int| 0 <= i < v.len() ==> #[trigger] v[i].len() == w
}

/// Every entry's magnitude is at most `b`.
pub open spec fn entries_bounded(v: Seq<Seq<int>>, b: int) -> bool {
    forall|i: int, j: int|
        0 <= i < v.len() && 0 <= j < v[i].len() ==> abs(#[trigger] v[i][j]) <= b
}

/// The entry bound under which a determinant of a matrix up to 4x4
/// stays in range through every step of the cofactor expansion:
/// four hundred fifty units.
pub open spec fn entries_small(v: Seq<Seq<int>>) -> bool {
    entries_bounded(v, 450_000_000)
}

/// The identity transform.
pub open spec fn identity_v() -> Seq<Seq<int>> {
    seq![
        seq![SCALE as int, 0, 0, 0],
        seq![0, SCALE as int, 0, 0],
        seq![0, 0, SCALE as int, 0],
        seq![0, 0, 0, SCALE as int],
    ]
}

/// The translation by `(x, y, z)`.
pub open spec fn translation_v(x: int, y: int, z: int) -> Seq<Seq<int>> {
    seq![
        seq![SCALE as int, 0, 0, x],
        seq![0, SCALE as int, 0, y],
        seq![0, 0, SCALE as int, z],
        seq![0, 0, 0, SCALE as int],
    ]
}

/// The scaling by `(x, y, z)`.
pub open spec fn scale_v(x: int, y: int, z: int) -> Seq<Seq<int>> {
    seq![
        seq![x, 0, 0, 0],
        seq![0, y, 0, 0],
        seq![0, 0, z, 0],
        seq![0, 0, 0, SCALE as int],
    ]
}

/// The rotation about the x axis whose angle has sine `s` and cosine `c`.
pub open spec fn rot_x_v(s: int, c: int) -> Seq<Seq<int>> {
    seq![
        seq![SCALE as int, 0, 0, 0],
        seq![0, c, -s, 0],
        seq![0, s, c, 0],
        seq![0, 0, 0, SCALE as int],
    ]
}

/// The rotation about the y axis whose angle has sine `s` and cosine `c`.
pub open spec fn rot_y_v(s: int, c: int) -> Seq<Seq<int>> {
    seq![
        seq![c, 0, s, 0],
        seq![0, SCALE as int, 0, 0],
        seq![-s, 0, c, 0],
        seq![0, 0, 0, SCALE as int],
    ]
}

/// The rotation about the z axis whose angle has sine `s` and cosine `c`.
pub open spec fn rot_z_v(s: int, c: int) -> Seq<Seq<int>> {
    seq![
        seq![c, -s, 0, 0],
        seq![s, c, 0, 0],
        seq![0, 0, SCALE as int, 0],
        seq![0, 0, 0, SCALE as int],
    ]
}

/// The shear with the six proportions `xy, xz, yx, yz, zx, zy`.
pub open spec fn shearing_v(xy: int, xz: int, yx: int, yz: int, zx: int, zy: int) -> Seq<
    Seq<int>,
> {
    seq![
        seq![SCALE as int, xy, xz, 0],
        seq![yx, SCALE as int, yz, 0],
        seq![zx, zy, SCALE as int, 0],
        seq![0, 0, 0, SCALE as int],
    ]
}

impl Matrix {
    /// The shape and row lengths agree; every method keeps this.
    pub closed spec fn wf(&self) -> bool {
        &&& self.m@.len() == self.height
        &&& forall|i: int| 0 <= i < self.m@.len() ==> #[trigger] self.m@[i]@.len() == self.width
    }

    /// A `width` by `height` matrix of zeros.
    pub fn new(width: usize, height: usize) -> (r: Matrix)
        ensures
            r.wf(),
            is_rect(r@, width as int, height as int),
            forall|i: int, j: int|
                0 <= i < height && 0 <= j < width ==> #[trigger] r@[i][j] == 0,
    {
        let mut rows: Vec<Vec<Scalar>> = Vec::new();
        let mut i: usize = 0;
        while i < height
            invariant
                i <= height,
                rows@.len() == i,
                forall|a: int| 0 <= a < i ==> #[trigger] rows@[a]@.len() == width,
                forall|a: int, b: int|
                    0 <= a < i && 0 <= b < width ==> #[trigger] rows@[a]@[b]@ == 0,
            decreases height - i,
        {
            let mut row: Vec<Scalar> = Vec::new();
            let mut j: usize = 0;
            while j < width
                invariant
                    j <= width,
                    row@.len() == j,
                    forall|b: int| 0 <= b < j ==> #[trigger] row@[b]@ == 0,
                decreases width - j,
            {
                row.push(Scalar::zero());
                j = j + 1;
            }
            rows.push(row);
            i = i + 1;
        }
        Matrix { width, height, m: rows }
    }

    /// The matrix holding `data`, whose rows must match the shape.
    pub fn from(width: usize, height: usize, data: Vec<Vec<Scalar>>) -> (r: Matrix)
        requires
            data@.len() == height,
            forall|i: int| 0 <= i < data@.len() ==> #[trigger] data@[i]@.len() == width,
        ensures
            r.wf(),
            is_rect(r@, width as int, height as int),
            forall|i: int, j: int|
                0 <= i < height && 0 <= j < width ==> #[trigger] r@[i][j] == data@[i]@[j]@,
    {
        Matrix { width, height, m: data }
    }

    /// The entry in row `r`, column `c`.
    pub fn get(&self, r: usize, c: usize) -> (e: Scalar)
        requires
            self.wf(),
            r < self@.len(),
            c < self@[r as int].len(),
        ensures
            e@ == self@[r as int][c as int],
    {
        self.m[r][c]
    }

    pub fn identity() -> (r: Matrix)
        ensures
            r.wf(),
            r@ == identity_v(),
    {
        let o = Scalar::one();
        let z = Scalar::zero();
        let data: Vec<Vec<Scalar>> = vec![
            vec![o, z, z, z],
            vec![z, o, z, z],
            vec![z, z, o, z],
            vec![z, z, z, o],
        ];
        let r = Matrix { width: 4, height: 4, m: data };
        proof {
            assert(r@ =~~= identity_v());
        }
        r
    }

    pub fn translation(x: Scalar, y: Scalar, z: Scalar) -> (r: Matrix)
        ensures
            r.wf(),
            r@ == translation_v(x@, y@, z@),
    {
        let o = Scalar::one();
        let zz = Scalar::zero();
        let data: Vec<Vec<Scalar>> = vec![
            vec![o, zz, zz, x],
            vec![zz, o, zz, y],
            vec![zz, zz, o, z],
            vec![zz, zz, zz, o],
        ];
        let r = Matrix { width: 4, height: 4, m: data };
        proof {
            assert(r@ =~~= translation_v(x@, y@, z@));
        }
        r
    }

    pub fn scale(x: Scalar, y: Scalar, z: Scalar) -> (r: Matrix)
        ensures
            r.wf(),
            r@ == scale_v(x@, y@, z@),
    {
        let o = Scalar::one();
        let zz = Scalar::zero();
        let data: Vec<Vec<Scalar>> = vec![
            vec![x, zz, zz, zz],
            vec![zz, y, zz, zz],
            vec![zz, zz, z, zz],
            vec![zz, zz, zz, o],
        ];
        let r = Matrix { width: 4, height: 4, m: data };
        proof {
            assert(r@ =~~= scale_v(x@, y@, z@));
        }
        r
    }

    /// The rotation about the x axis, given the angle's sine and cosine.
    pub fn rot_x(sin_a: Scalar, cos_a: Scalar) -> (r: Matrix)
        requires
            fits(sin_a@),
        ensures
            r.wf(),
            r@ == rot_x_v(sin_a@, cos_a@),
    {
        let o = Scalar::one();
        let zz = Scalar::zero();
        let data: Vec<Vec<Scalar>> = vec![
            vec![o, zz, zz, zz],
            vec![zz, cos_a, sin_a.neg(), zz],
            vec![zz, sin_a, cos_a, zz],
            vec![zz, zz, zz, o],
        ];
        let r = Matrix { width: 4, height: 4, m: data };
        proof {
            assert(r@ =~~= rot_x_v(sin_a@, cos_a@));
        }
        r
    }

    /// The rotation about the y axis, given the angle's sine and cosine.
    pub fn rot_y(sin_a: Scalar, cos_a: Scalar) -> (r: Matrix)
        requires
            fits(sin_a@),
        ensures
            r.wf(),
            r@ == rot_y_v(sin_a@, cos_a@),
    {
        let o = Scalar::one();
        let zz = Scalar::zero();
        let data: Vec<Vec<Scalar>> = vec![
            vec![cos_a, zz, sin_a, zz],
            vec![zz, o, zz, zz],
            vec![sin_a.neg(), zz, cos_a, zz],
            vec![zz, zz, zz, o],
        ];
        let r = Matrix { width: 4, height: 4, m: data };
        proof {
            assert(r@ =~~= rot_y_v(sin_a@, cos_a@));
        }
        r
    }

    /// The rotation about the z axis, given the angle's sine and cosine.
    pub fn rot_z(sin_a: Scalar, cos_a: Scalar) -> (r: Matrix)
        requires
            fits(sin_a@),
        ensures
            r.wf(),
            r@ == rot_z_v(sin_a@, cos_a@),
    {
        let o = Scalar::one();
        let zz = Scalar::zero();
        let data: Vec<Vec<Scalar>> = vec![
            vec![cos_a, sin_a.neg(), zz, zz],
            vec![sin_a, cos_a, zz, zz],
            vec![zz, zz, o, zz],
            vec![zz, zz, zz, o],
        ];
        let r = Matrix { width: 4, height: 4, m: data };
        proof {
            assert(r@ =~~= rot_z_v(sin_a@, cos_a@));
        }
        r
    }

    pub fn shearing(
        xy: Scalar,
        xz: Scalar,
        yx: Scalar,
        yz: Scalar,
        zx: Scalar,
        zy: Scalar,
    ) -> (r: Matrix)
        ensures
            r.wf(),
            r@ == shearing_v(xy@, xz@, yx@, yz@, zx@, zy@),
    {
        let o = Scalar::one();
        let zz = Scalar::zero();
        let data: Vec<Vec<Scalar>> = vec![
            vec![o, xy, xz, zz],
            vec![yx, o, yz, zz],
            vec![zx, zy, o, zz],
            vec![zz, zz, zz, o],
        ];
        let r = Matrix { width: 4, height: 4, m: data };
        proof {
            assert(r@ =~~= shearing_v(xy@, xz@, yx@, yz@, zx@, zy@));
        }
        r
    }
    /// Rows and columns exchanged; the 4x4 shape only, as the
    /// transform pipeline uses it.
    pub fn transpose(&self) -> (r: Matrix)
        requires
            self.wf(),
            is_rect(self@, 4, 4),
        ensures
            r.wf(),
            is_rect(r@, 4, 4),
            r@ == transpose_v(self@),
            forall|i: int, j: int|
                0 <= i < 4 && 0 <= j < 4 ==> r@[i][j] == self@[j][i],
    {
        let mut rows: Vec<Vec<Scalar>> = Vec::new();
        let mut i: usize = 0;
        while i < 4
            invariant
                self.wf(),
                is_rect(self@, 4, 4),
                i <= 4,
                rows@.len() == i,
                forall|a: int| 0 <= a < i ==> #[trigger] rows@[a]@.len() == 4,
                forall|a: int, b: int|
                    0 <= a < i && 0 <= b < 4 ==> #[trigger] rows@[a]@[b]@ == self@[b][a],
            decreases 4 - i,
        {
            let mut row: Vec<Scalar> = Vec::new();
            let mut j: usize = 0;
            while j < 4
                invariant
                    self.wf(),
                    is_rect(self@, 4, 4),
                    i < 4,
                    j <= 4,
                    row@.len() == j,
                    forall|b: int| 0 <= b < j ==> #[trigger] row@[b]@ == self@[b][i as int],
                decreases 4 - j,
            {
                row.push(self.get(j, i));
                j = j + 1;
            }
            rows.push(row);
            i = i + 1;
        }
        let r = Matrix { width: 4, height: 4, m: rows };
        proof {
            assert(r@ =~~= transpose_v(self@));
        }
        r
    }

    /// An entry-for-entry copy, with the copy's view known to match.
    pub fn duplicate(&self) -> (r: Matrix)
        requires
            self.wf(),
        ensures
            r.wf(),
            r@ == self@,
    {
        let h = self.m.len();
        let mut rows: Vec<Vec<Scalar>> = Vec::new();
        let mut i: usize = 0;
        while i < h
            invariant
                self.wf(),
                h == self@.len(),
                i <= h,
                rows@.len() == i,
                forall|a: int| 0 <= a < i ==> #[trigger] rows@[a]@.len() == self@[a].len(),
                forall|a: int, b: int|
                    0 <= a < i && 0 <= b < rows@[a]@.len() ==> #[trigger] rows@[a]@[b]@
                        == self@[a][b],
            decreases h - i,
        {
            let w = self.m[i].len();
            let mut row: Vec<Scalar> = Vec::new();
            let mut j: usize = 0;
            while j < w
                invariant
                    self.wf(),
                    i < self@.len(),
                    w == self@[i as int].len(),
                    j <= w,
                    row@.len() == j,
                    forall|b: int| 0 <= b < j ==> #[trigger] row@[b]@ == self@[i as int][b],
                decreases w - j,
            {
                row.push(self.get(i, j));
                j = j + 1;
            }
            rows.push(row);
            i = i + 1;
        }
        let r = Matrix { width: self.width, height: self.height, m: rows };
        proof {
            assert(r@ =~~= self@);
        }
        r
    }

    /// One entry of a matrix product: the row-by-column inner product.
    fn mul_entry(&self, rhs: &Matrix, r: usize, c: usize) -> (e: Scalar)
        requires
            self.wf(),
            rhs.wf(),
            is_rect(self@, 4, 4),
            is_rect(rhs@, 4, 4),
            entries_bounded(self@, 500_000_000_000),
            entries_bounded(rhs@, 500_000_000_000),
            r < 4,
            c < 4,
        ensures
            e@ == mul_entry_v(self@, rhs@, r as int, c as int),
    {
        proof {
            lemma_mul_entry_fits(self@, rhs@, r as int, c as int);
        }
        self.get(r, 0).mul(rhs.get(0, c)).add(self.get(r, 1).mul(rhs.get(1, c))).add(
            self.get(r, 2).mul(rhs.get(2, c)),
        ).add(self.get(r, 3).mul(rhs.get(3, c)))
    }

    /// The matrix product, rows of `self` against columns of `rhs`.
    pub fn mul(&self, rhs: &Matrix) -> (r: Matrix)
        requires
            self.wf(),
            rhs.wf(),
            is_rect(self@, 4, 4),
            is_rect(rhs@, 4, 4),
            entries_bounded(self@, 500_000_000_000),
            entries_bounded(rhs@, 500_000_000_000),
        ensures
            r.wf(),
            r@ == mat_mul_v(self@, rhs@),
    {
        let mut rows: Vec<Vec<Scalar>> = Vec::new();
        let mut i: usize = 0;
        while i < 4
            invariant
                self.wf(),
                rhs.wf(),
                is_rect(self@, 4, 4),
                is_rect(rhs@, 4, 4),
                entries_bounded(self@, 500_000_000_000),
                entries_bounded(rhs@, 500_000_000_000),
                i <= 4,
                rows@.len() == i,
                forall|a: int| 0 <= a < i ==> #[trigger] rows@[a]@.len() == 4,
                forall|a: int, b: int|
                    0 <= a < i && 0 <= b < 4 ==> #[trigger] rows@[a]@[b]@ == mul_entry_v(
                        self@,
                        rhs@,
                        a,
                        b,
                    ),
            decreases 4 - i,
        {
            let mut row: Vec<Scalar> = Vec::new();
            let mut j: usize = 0;
            while j < 4
                invariant
                    self.wf(),
                    rhs.wf(),
                    is_rect(self@, 4, 4),
                    is_rect(rhs@, 4, 4),
                    entries_bounded(self@, 500_000_000_000),
                    entries_bounded(rhs@, 500_000_000_000),
                    i < 4,
                    j <= 4,
                    row@.len() == j,
                    forall|b: int|
                        0 <= b < j ==> #[trigger] row@[b]@ == mul_entry_v(
                            self@,
                            rhs@,
                            i as int,
                            b,
                        ),
                decreases 4 - j,
            {
                row.push(self.mul_entry(rhs, i, j));
                j = j + 1;
            }
            rows.push(row);
            i = i + 1;
        }
        let r = Matrix { width: 4, height: 4, m: rows };
        proof {
            assert(r@ =~~= mat_mul_v(self@, rhs@));
        }
        r
    }

    /// The matrix applied to a tuple, as a column vector.
    pub fn mul_tuple(&self, t: &Tuple) -> (r: Tuple)
        requires
            self.wf(),
            is_rect(self@, 4, 4),
            entries_bounded(self@, 500_000_000_000),
            tuple_bounded(t@, 500_000_000_000),
        ensures
            r@ == mul_tuple_v(self@, t@),
    {
        proof {
            lemma_row_dot_fits(self@, t@, 0);
            lemma_row_dot_fits(self@, t@, 1);
            lemma_row_dot_fits(self@, t@, 2);
            lemma_row_dot_fits(self@, t@, 3);
        }
        let x = self.get(0, 0).mul(t.x).add(self.get(0, 1).mul(t.y)).add(
            self.get(0, 2).mul(t.z),
        ).add(self.get(0, 3).mul(t.w));
        let y = self.get(1, 0).mul(t.x).add(self.get(1, 1).mul(t.y)).add(
            self.get(1, 2).mul(t.z),
        ).add(self.get(1, 3).mul(t.w));
        let z = self.get(2, 0).mul(t.x).add(self.get(2, 1).mul(t.y)).add(
            self.get(2, 2).mul(t.z),
        ).add(self.get(2, 3).mul(t.w));
        let w = self.get(3, 0).mul(t.x).add(self.get(3, 1).mul(t.y)).add(
            self.get(3, 2).mul(t.z),
        ).add(self.get(3, 3).mul(t.w));
        Tuple { x, y, z, w }
    }

    /// The matrix with row `r` and column `c` removed.
    pub fn submatrix(&self, r: usize, c: usize) -> (res: Matrix)
        requires
            self.wf(),
            is_square(self@),
            1 <= self@.len(),
            r < self@.len(),
            c < self@.len(),
        ensures
            res.wf(),
            res@ == submatrix_v(self@, r as int, c as int),
    {
        proof {
            lemma_submatrix_props(self@, r as int, c as int);
        }
        let n = self.m.len();
        let mut rows: Vec<Vec<Scalar>> = Vec::new();
        let mut i: usize = 0;
        while i < n
            invariant
                self.wf(),
                is_square(self@),
                n == self@.len(),
                r < n,
                c < n,
                i <= n,
                rows@.len() == if i <= r { i as int } else { i - 1 },
                forall|a: int, b: int|
                    0 <= a < rows@.len() && 0 <= b < n - 1 ==> #[trigger] rows@[a]@[b]@
                        == submatrix_v(self@, r as int, c as int)[a][b],
                forall|a: int| 0 <= a < rows@.len() ==> #[trigger] rows@[a]@.len() == n - 1,
            decreases n - i,
        {
            if i != r {
                let mut row: Vec<Scalar> = Vec::new();
                let mut j: usize = 0;
                while j < n
                    invariant
                        self.wf(),
                        is_square(self@),
                        n == self@.len(),
                        r < n,
                        c < n,
                        i < n,
                        i != r,
                        j <= n,
                        row@.len() == if j <= c { j as int } else { j - 1 },
                        forall|b: int|
                            0 <= b < row@.len() ==> #[trigger] row@[b]@ == self@[i as int][
                                if b < c { b } else { b + 1 }
                            ],
                    decreases n - j,
                {
                    if j != c {
                        row.push(self.get(i, j));
                    }
                    j = j + 1;
                }
                rows.push(row);
            }
            i = i + 1;
        }
        proof {
            lemma_submatrix_props(self@, r as int, c as int);
        }
        let res = Matrix { width: n - 1, height: n - 1, m: rows };
        proof {
            assert(res@ =~~= submatrix_v(self@, r as int, c as int));
        }
        res
    }

    /// The determinant, by the 2x2 base case and cofactor expansion
    /// along row zero.
    pub fn determinant(&self) -> (r: Scalar)
        requires
            self.wf(),
            is_square(self@),
            2 <= self@.len() <= 4,
            entries_small(self@),
        ensures
            r@ == det_v(self@),
        decreases self@.len(), 3int,
    {
        let n = self.m.len();
        if n == 2 {
            proof {
                vstd::arithmetic::mul::lemma_mul_upper_bound(
                    abs(self@[0][0]) as int,
                    450_000_000,
                    abs(self@[1][1]) as int,
                    450_000_000,
                );
                crate::scalar::lemma_s_mul_bound(self@[0][0], self@[1][1], 202_500_000_000);
                vstd::arithmetic::mul::lemma_mul_upper_bound(
                    abs(self@[1][0]) as int,
                    450_000_000,
                    abs(self@[0][1]) as int,
                    450_000_000,
                );
                crate::scalar::lemma_s_mul_bound(self@[1][0], self@[0][1], 202_500_000_000);
            }
            self.get(0, 0).mul(self.get(1, 1)).sub(self.get(1, 0).mul(self.get(0, 1)))
        } else {
            let mut acc = Scalar::zero();
            let mut x: usize = 0;
            while x < n
                invariant
                    self.wf(),
                    is_square(self@),
                    3 <= n <= 4,
                    n == self@.len(),
                    entries_small(self@),
                    x <= n,
                    acc@ == det_sum_v(self@, x as int),
                    abs(acc@) <= x * term_bound(self@.len()),
                decreases n - x,
            {
                let cf = self.cofactor(0, x);
                proof {
                    lemma_submatrix_props(self@, 0, x as int);
                    lemma_det_bound(submatrix_v(self@, 0, x as int));
                    assert(abs(cf@) <= det_bound((self@.len() - 1) as nat));
                    vstd::arithmetic::mul::lemma_mul_upper_bound(
                        abs(self@[0][x as int]) as int,
                        450_000_000,
                        abs(cf@) as int,
                        det_bound((self@.len() - 1) as nat),
                    );
                    if self@.len() == 3 {
                        crate::scalar::lemma_s_mul_bound(self@[0][x as int], cf@, 182_250_000_000_000);
                        assert(abs(acc@) <= x * 182_250_000_000_000);
                        assert((x + 1) * 182_250_000_000_000 == x * 182_250_000_000_000
                            + 182_250_000_000_000);
                    } else {
                        crate::scalar::lemma_s_mul_bound(
                            self@[0][x as int],
                            cf@,
                            246_037_500_000_000_000,
                        );
                        assert(abs(acc@) <= x * 246_037_500_000_000_000);
                        assert((x + 1) * 246_037_500_000_000_000 == x * 246_037_500_000_000_000
                            + 246_037_500_000_000_000);
                    }
                }
                let term = self.get(0, x).mul(cf);
                acc = acc.add(term);
                proof {
                    assert(acc@ == det_sum_v(self@, x as int + 1));
                }
                x = x + 1;
            }
            acc
        }
    }

    /// The determinant of the submatrix at `(r, c)`.
    pub fn minor(&self, r: usize, c: usize) -> (res: Scalar)
        requires
            self.wf(),
            is_square(self@),
            3 <= self@.len() <= 4,
            entries_small(self@),
            r < self@.len(),
            c < self@.len(),
        ensures
            res@ == minor_v(self@, r as int, c as int),
        decreases self@.len(), 1int,
    {
        proof {
            lemma_submatrix_props(self@, r as int, c as int);
        }
        let s = self.submatrix(r, c);
        s.determinant()
    }

    /// The minor, negated when `r + c` is odd.
    pub fn cofactor(&self, r: usize, c: usize) -> (res: Scalar)
        requires
            self.wf(),
            is_square(self@),
            3 <= self@.len() <= 4,
            entries_small(self@),
            r < self@.len(),
            c < self@.len(),
        ensures
            res@ == cof_v(self@, r as int, c as int),
        decreases self@.len(), 2int,
    {
        let m = self.minor(r, c);
        proof {
            lemma_submatrix_props(self@, r as int, c as int);
            lemma_det_bound(submatrix_v(self@, r as int, c as int));
        }
        if (r + c) % 2 == 1 {
            m.neg()
        } else {
            m
        }
    }

    /// Whether the determinant is exactly nonzero; no tolerance is
    /// applied.
    pub fn is_inversible(&self) -> (res: bool)
        requires
            self.wf(),
            is_square(self@),
            2 <= self@.len() <= 4,
            entries_small(self@),
        ensures
            res == (det_v(self@) != 0),
    {
        let d = self.determinant();
        !d.is_zero()
    }

    /// The inverse when the determinant is nonzero, else nothing.
    /// Cell `(col, row)` of the result is `cofactor(row, col)` over
    /// the determinant: the index swap is the built-in transpose of
    /// the adjugate rule.
    pub fn inverse(&self) -> (res: Option<Matrix>)
        requires
            self.wf(),
            is_square(self@),
            self@.len() == 4,
            entries_small(self@),
            det_v(self@) != 0 ==> inv_entries_fit(self@),
        ensures
            res is Some <==> det_v(self@) != 0,
            res matches Some(m) ==> m.wf() && m@ == inverse_v(self@),
    {
        if !self.is_inversible() {
            return None;
        }
        let det = self.determinant();
        proof {
            lemma_det_bound(self@);
        }
        let mut rows: Vec<Vec<Scalar>> = Vec::new();
        let mut i: usize = 0;
        while i < 4
            invariant
                self.wf(),
                is_square(self@),
                self@.len() == 4,
                entries_small(self@),
                inv_entries_fit(self@),
                det@ == det_v(self@),
                det@ != 0,
                abs(det@) <= det_bound(4),
                i <= 4,
                rows@.len() == i,
                forall|a: int| 0 <= a < i ==> #[trigger] rows@[a]@.len() == 4,
                forall|a: int, b: int|
                    0 <= a < i && 0 <= b < 4 ==> #[trigger] rows@[a]@[b]@ == s_div(
                        cof_v(self@, b, a),
                        det_v(self@),
                    ),
            decreases 4 - i,
        {
            let mut row: Vec<Scalar> = Vec::new();
            let mut j: usize = 0;
            while j < 4
                invariant
                    self.wf(),
                    is_square(self@),
                    self@.len() == 4,
                    entries_small(self@),
                    inv_entries_fit(self@),
                    det@ == det_v(self@),
                    det@ != 0,
                    abs(det@) <= det_bound(4),
                    i < 4,
                    j <= 4,
                    row@.len() == j,
                    forall|b: int|
                        0 <= b < j ==> #[trigger] row@[b]@ == s_div(
                            cof_v(self@, b, i as int),
                            det_v(self@),
                        ),
                decreases 4 - j,
            {
                let cf = self.cofactor(j, i);
                proof {
                    lemma_submatrix_props(self@, j as int, i as int);
                    lemma_det_bound(submatrix_v(self@, j as int, i as int));
                }
                row.push(cf.div(det));
                j = j + 1;
            }
            rows.push(row);
            i = i + 1;
        }
        let res = Matrix { width: 4, height: 4, m: rows };
        proof {
            assert(res@ =~~= inverse_v(self@));
        }
        Some(res)
    }
}

/// Every component's magnitude is at most `b`.
pub open spec fn tuple_bounded(t: TupleV, b: int) -> bool {
    abs(t.x) <= b && abs(t.y) <= b && abs(t.z) <= b && abs(t.w) <= b
}

/// One entry of a matrix product.
pub open spec fn mul_entry_v(a: Seq<Seq<int>>, b: Seq<Seq<int>>, r: int, c: int) -> int {
    s_mul(a[r][0], b[0][c]) + s_mul(a[r][1], b[1][c]) + s_mul(a[r][2], b[2][c]) + s_mul(
        a[r][3],
        b[3][c],
    )
}

/// The 4x4 matrix product.
pub open spec fn mat_mul_v(a: Seq<Seq<int>>, b: Seq<Seq<int>>) -> Seq<Seq<int>> {
    Seq::new(4, |r: int| Seq::new(4, |c: int| mul_entry_v(a, b, r, c)))
}

/// One row of a matrix applied to a tuple.
pub open spec fn row_dot_v(m: Seq<Seq<int>>, r: int, t: TupleV) -> int {
    s_mul(m[r][0], t.x) + s_mul(m[r][1], t.y) + s_mul(m[r][2], t.z) + s_mul(m[r][3], t.w)
}

/// A 4x4 matrix applied to a tuple.
pub open spec fn mul_tuple_v(m: Seq<Seq<int>>, t: TupleV) -> TupleV {
    TupleV {
        x: row_dot_v(m, 0, t),
        y: row_dot_v(m, 1, t),
        z: row_dot_v(m, 2, t),
        w: row_dot_v(m, 3, t),
    }
}

/// Each step of a product entry stays in range when both factors'
/// entries are bounded by half a million units.
proof fn lemma_bounded_product_step(a: int, b: int)
    requires
        abs(a) <= 500_000_000_000,
        abs(b) <= 500_000_000_000,
    ensures
        fits(s_mul(a, b)),
        abs(s_mul(a, b)) <= 250_000_000_000_000_000,
    {
        vstd::arithmetic::mul::lemma_mul_upper_bound(
            abs(a) as int,
            500_000_000_000,
            abs(b) as int,
            500_000_000_000,
        );
        crate::scalar::lemma_s_mul_bound(a, b, 250_000_000_000_000_000);
        crate::scalar::lemma_abs_mul(a, b);
    }

proof fn lemma_mul_entry_fits(a: Seq<Seq<int>>, b: Seq<Seq<int>>, r: int, c: int)
    requires
        is_rect(a, 4, 4),
        is_rect(b, 4, 4),
        entries_bounded(a, 500_000_000_000),
        entries_bounded(b, 500_000_000_000),
        0 <= r < 4,
        0 <= c < 4,
    ensures
        fits(s_mul(a[r][0], b[0][c])),
        fits(s_mul(a[r][1], b[1][c])),
        fits(s_mul(a[r][2], b[2][c])),
        fits(s_mul(a[r][3], b[3][c])),
        fits(s_mul(a[r][0], b[0][c]) + s_mul(a[r][1], b[1][c])),
        fits(s_mul(a[r][0], b[0][c]) + s_mul(a[r][1], b[1][c]) + s_mul(a[r][2], b[2][c])),
        fits(mul_entry_v(a, b, r, c)),
        abs(mul_entry_v(a, b, r, c)) <= 1_000_000_000_000_000_000,
    {
        lemma_bounded_product_step(a[r][0], b[0][c]);
        lemma_bounded_product_step(a[r][1], b[1][c]);
        lemma_bounded_product_step(a[r][2], b[2][c]);
        lemma_bounded_product_step(a[r][3], b[3][c]);
    }

proof fn lemma_row_dot_fits(m: Seq<Seq<int>>, t: TupleV, r: int)
    requires
        is_rect(m, 4, 4),
        entries_bounded(m, 500_000_000_000),
        tuple_bounded(t, 500_000_000_000),
        0 <= r < 4,
    ensures
        fits(s_mul(m[r][0], t.x)),
        fits(s_mul(m[r][1], t.y)),
        fits(s_mul(m[r][2], t.z)),
        fits(s_mul(m[r][3], t.w)),
        fits(s_mul(m[r][0], t.x) + s_mul(m[r][1], t.y)),
        fits(s_mul(m[r][0], t.x) + s_mul(m[r][1], t.y) + s_mul(m[r][2], t.z)),
        fits(row_dot_v(m, r, t)),
        abs(row_dot_v(m, r, t)) <= 1_000_000_000_000_000_000,
    {
        lemma_bounded_product_step(m[r][0], t.x);
        lemma_bounded_product_step(m[r][1], t.y);
        lemma_bounded_product_step(m[r][2], t.z);
        lemma_bounded_product_step(m[r][3], t.w);
    }

/// Rows and columns exchanged, for the 4x4 shape.
pub open spec fn transpose_v(v: Seq<Seq<int>>) -> Seq<Seq<int>> {
    Seq::new(4, |i: int| Seq::new(4, |j: int| v[j][i]))
}

/// The matrix with row `r` and column `c` removed.
pub open spec fn submatrix_v(v: Seq<Seq<int>>, r: int, c: int) -> Seq<Seq<int>> {
    v.remove(r).map_values(|row: Seq<int>| row.remove(c))
}

/// The determinant: the 2x2 base case, else Laplace expansion along
/// row zero.
pub open spec fn det_v(v: Seq<Seq<int>>) -> int
    decreases v.len(), v.len() as int + 1,
{
    if v.len() == 2 {
        s_mul(v[0][0], v[1][1]) - s_mul(v[1][0], v[0][1])
    } else {
        det_sum_v(v, v.len() as int)
    }
}

/// The first `k` terms of the Laplace expansion along row zero.
pub open spec fn det_sum_v(v: Seq<Seq<int>>, k: int) -> int
    decreases v.len(), k,
{
    if k <= 0 || v.len() == 0 {
        0
    } else {
        det_sum_v(v, k - 1) + s_mul(
            v[0][k - 1],
            if (k - 1) % 2 == 1 {
                -det_v(submatrix_v(v, 0, k - 1))
            } else {
                det_v(submatrix_v(v, 0, k - 1))
            },
        )
    }
}

/// The minor: the determinant of the submatrix.
pub open spec fn minor_v(v: Seq<Seq<int>>, r: int, c: int) -> int {
    det_v(submatrix_v(v, r, c))
}

/// The cofactor: the minor, negated on odd `r + c`.
pub open spec fn cof_v(v: Seq<Seq<int>>, r: int, c: int) -> int {
    if (r + c) % 2 == 1 {
        -minor_v(v, r, c)
    } else {
        minor_v(v, r, c)
    }
}

/// The inverse by the adjugate rule: cell `(i, j)` is the cofactor of
/// `(j, i)` over the determinant. Meaningful only when the determinant
/// is not zero.
pub open spec fn inverse_v(v: Seq<Seq<int>>) -> Seq<Seq<int>> {
    Seq::new(4, |i: int| Seq::new(4, |j: int| s_div(cof_v(v, j, i), det_v(v))))
}

/// Every cell of the inverse stays in range.
pub open spec fn inv_entries_fit(v: Seq<Seq<int>>) -> bool {
    forall|i: int, j: int|
        0 <= i < 4 && 0 <= j < 4 ==> #[trigger] fits(s_div(cof_v(v, j, i), det_v(v)))
}

/// What a determinant of an n-by-n matrix with small entries can reach.
pub open spec fn det_bound(n: nat) -> int {
    if n <= 2 {
        405_000_000_000
    } else if n == 3 {
        546_750_000_000_000
    } else {
        984_150_000_000_000_000
    }
}

/// What one term of the Laplace expansion of an n-by-n determinant can
/// reach.
pub open spec fn term_bound(n: nat) -> int {
    if n <= 3 {
        182_250_000_000_000
    } else {
        246_037_500_000_000_000
    }
}

/// Removing a row and a column keeps squareness, shrinks the size by
/// one, keeps entries small, and maps cells back to the original.
pub proof fn lemma_submatrix_props(v: Seq<Seq<int>>, r: int, c: int)
    requires
        is_square(v),
        1 <= v.len(),
        0 <= r < v.len(),
        0 <= c < v.len(),
    ensures
        submatrix_v(v, r, c).len() == v.len() - 1,
        is_square(submatrix_v(v, r, c)),
        forall|i: int, j: int|
            0 <= i < v.len() - 1 && 0 <= j < v.len() - 1 ==> #[trigger] submatrix_v(v, r, c)[i][j]
                == v[if i < r { i } else { i + 1 }][if j < c { j } else { j + 1 }],
        entries_small(v) ==> entries_small(submatrix_v(v, r, c)),
{
    let sub = submatrix_v(v, r, c);
    v.remove_ensures(r);
    assert forall|i: int| 0 <= i < v.len() - 1 implies #[trigger] sub[i] == v[if i < r {
        i
    } else {
        i + 1
    }].remove(c) by {
        assert(sub[i] == v.remove(r)[i].remove(c));
    }
    assert forall|i: int, j: int|
        0 <= i < v.len() - 1 && 0 <= j < v.len() - 1 implies #[trigger] sub[i][j] == v[
        if i < r {
            i
        } else {
            i + 1
        }][
        if j < c {
            j
        } else {
            j + 1
        }
    ] by {
        let row = v[if i < r { i } else { i + 1 }];
        assert(row.len() == v.len());
        row.remove_ensures(c);
    }
    assert forall|i: int| 0 <= i < sub.len() implies #[trigger] sub[i].len() == sub.len() by {
        let row = v[if i < r { i } else { i + 1 }];
        assert(row.len() == v.len());
        row.remove_ensures(c);
        assert(sub[i] == row.remove(c));
    }
    if entries_small(v) {
        assert forall|i: int, j: int|
            0 <= i < sub.len() && 0 <= j < sub[i].len() implies abs(#[trigger] sub[i][j])
            <= 450_000_000 by {
            assert(sub[i][j] == v[if i < r { i } else { i + 1 }][if j < c { j } else { j + 1 }]);
        }
    }
}

/// The determinant of a small-entry matrix up to 4x4 stays within
/// `det_bound` of its size.
pub proof fn lemma_det_bound(v: Seq<Seq<int>>)
    requires
        is_square(v),
        2 <= v.len() <= 4,
        entries_small(v),
    ensures
        abs(det_v(v)) <= det_bound(v.len()),
    decreases v.len(), v.len() as int + 1,
{
    if v.len() == 2 {
        vstd::arithmetic::mul::lemma_mul_upper_bound(
            abs(v[0][0]) as int,
            450_000_000,
            abs(v[1][1]) as int,
            450_000_000,
        );
        crate::scalar::lemma_s_mul_bound(v[0][0], v[1][1], 202_500_000_000);
        vstd::arithmetic::mul::lemma_mul_upper_bound(
            abs(v[1][0]) as int,
            450_000_000,
            abs(v[0][1]) as int,
            450_000_000,
        );
        crate::scalar::lemma_s_mul_bound(v[1][0], v[0][1], 202_500_000_000);
    } else {
        lemma_det_sum_bound(v, v.len() as int);
    }
}

/// Each partial Laplace sum is bounded by its term count.
proof fn lemma_det_sum_bound(v: Seq<Seq<int>>, k: int)
    requires
        is_square(v),
        3 <= v.len() <= 4,
        entries_small(v),
        0 <= k <= v.len(),
    ensures
        abs(det_sum_v(v, k)) <= k * term_bound(v.len()),
    decreases v.len(), k,
{
    if k > 0 {
        lemma_det_sum_bound(v, k - 1);
        lemma_submatrix_props(v, 0, k - 1);
        let sub = submatrix_v(v, 0, k - 1);
        lemma_det_bound(sub);
        let cof = if (k - 1) % 2 == 1 {
            -det_v(sub)
        } else {
            det_v(sub)
        };
        assert(abs(cof) <= det_bound((v.len() - 1) as nat));
        assert(abs(v[0][k - 1]) <= 450_000_000);
        vstd::arithmetic::mul::lemma_mul_upper_bound(
            abs(v[0][k - 1]) as int,
            450_000_000,
            abs(cof) as int,
            det_bound((v.len() - 1) as nat),
        );
        if v.len() == 3 {
            crate::scalar::lemma_s_mul_bound(v[0][k - 1], cof, 182_250_000_000_000);
            assert(term_bound(v.len()) == 182_250_000_000_000);
            assert(abs(det_sum_v(v, k - 1)) <= (k - 1) * 182_250_000_000_000);
            assert(abs(det_sum_v(v, k)) <= k * 182_250_000_000_000);
        } else {
            crate::scalar::lemma_s_mul_bound(v[0][k - 1], cof, 246_037_500_000_000_000);
            assert(term_bound(v.len()) == 246_037_500_000_000_000);
            assert(abs(det_sum_v(v, k - 1)) <= (k - 1) * 246_037_500_000_000_000);
            assert(abs(det_sum_v(v, k)) <= k * 246_037_500_000_000_000);
        }
    } else {
        assert(det_sum_v(v, k) == 0);
        assert(k * term_bound(v.len()) == 0) by (nonlinear_arith)
            requires
                k == 0,
        ;
    }
}

/// A three-by-three determinant, written out: the Laplace expansion
/// along row zero, with the two-by-two minors in closed form.
pub proof fn lemma_det3_formula(v: Seq<Seq<int>>)
    requires
        is_rect(v, 3, 3),
    ensures
        det_v(v) == s_mul(v[0][0], s_mul(v[1][1], v[2][2]) - s_mul(v[2][1], v[1][2])) - s_mul(
            v[0][1],
            s_mul(v[1][0], v[2][2]) - s_mul(v[2][0], v[1][2]),
        ) + s_mul(v[0][2], s_mul(v[1][0], v[2][1]) - s_mul(v[2][0], v[1][1])),
{
    assert(is_square(v));
    lemma_submatrix_props(v, 0, 0);
    lemma_submatrix_props(v, 0, 1);
    lemma_submatrix_props(v, 0, 2);
    let s0 = submatrix_v(v, 0, 0);
    let s1 = submatrix_v(v, 0, 1);
    let s2 = submatrix_v(v, 0, 2);
    assert(det_v(s0) == s_mul(v[1][1], v[2][2]) - s_mul(v[2][1], v[1][2]));
    assert(det_v(s1) == s_mul(v[1][0], v[2][2]) - s_mul(v[2][0], v[1][2]));
    assert(det_v(s2) == s_mul(v[1][0], v[2][1]) - s_mul(v[2][0], v[1][1]));
    assert(det_sum_v(v, 0) == 0);
    assert(det_sum_v(v, 1) == s_mul(v[0][0], det_v(s0)));
    assert(det_sum_v(v, 2) == det_sum_v(v, 1) + s_mul(v[0][1], -det_v(s1)));
    assert(det_sum_v(v, 3) == det_sum_v(v, 2) + s_mul(v[0][2], det_v(s2)));
    assert(det_v(v) == det_sum_v(v, 3));
    lemma_s_mul_neg_right(v[0][1], det_v(s1));
}

/// A four-by-four determinant, written out: the alternating Laplace
/// expansion along row zero.
pub proof fn lemma_det4_formula(v: Seq<Seq<int>>)
    requires
        is_rect(v, 4, 4),
    ensures
        det_v(v) == s_mul(v[0][0], det_v(submatrix_v(v, 0, 0))) - s_mul(
            v[0][1],
            det_v(submatrix_v(v, 0, 1)),
        ) + s_mul(v[0][2], det_v(submatrix_v(v, 0, 2))) - s_mul(
            v[0][3],
            det_v(submatrix_v(v, 0, 3)),
        ),
{
    let s0 = submatrix_v(v, 0, 0);
    let s1 = submatrix_v(v, 0, 1);
    let s2 = submatrix_v(v, 0, 2);
    let s3 = submatrix_v(v, 0, 3);
    assert(det_sum_v(v, 0) == 0);
    assert(det_sum_v(v, 1) == s_mul(v[0][0], det_v(s0)));
    assert(det_sum_v(v, 2) == det_sum_v(v, 1) + s_mul(v[0][1], -det_v(s1)));
    assert(det_sum_v(v, 3) == det_sum_v(v, 2) + s_mul(v[0][2], det_v(s2)));
    assert(det_sum_v(v, 4) == det_sum_v(v, 3) + s_mul(v[0][3], -det_v(s3)));
    assert(det_v(v) == det_sum_v(v, 4));
    lemma_s_mul_neg_right(v[0][1], det_v(s1));
    lemma_s_mul_neg_right(v[0][3], det_v(s3));
}

/// Negating one factor negates the truncated product.
pub proof fn lemma_s_mul_neg_right(a: int, b: int)
    ensures
        s_mul(a, -b) == -s_mul(a, b),
{
    crate::scalar::lemma_abs_mul(a, b);
    crate::scalar::lemma_abs_mul(a, -b);
    assert(a * -b == -(a * b)) by (nonlinear_arith);
    assert(abs(-b) == abs(b));
    if a * b == 0 {
        assert(abs(a * b) == 0);
        assert(abs(a) * abs(b) == 0);
    }
}

} // verus!
