//! The keys and values of the tokens that were evaluated on the host.
use vstd::prelude::*;
use vstd::slice::slice_subrange;

verus! {

/// For each layer the keys, and the values, of a whole context: one row for each position, with
/// all key/value heads side by side.
///
/// `T` is the type of a number. Nothing here computes with numbers; they are stored and handed
/// back.
pub struct KvCache<T> {
    pub k: Vec<Vec<T>>,
    pub v: Vec<Vec<T>>,
}

/// `whole` with `part` in place of what was there from index `start` on.
pub open spec fn overwritten<T>(whole: Seq<T>, start: int, part: Seq<T>) -> Seq<T> {
    Seq::new(
        whole.len(),
        |i: int|
            if start <= i < start + part.len() {
                part[i - start]
            } else {
                whole[i]
            },
    )
}

/// The numbers of one head in the row of position `p`.
pub open spec fn head_of<T>(
    layer: Seq<T>,
    p: int,
    kv_width: int,
    offset: int,
    head_dim: int,
) -> Seq<T> {
    layer.subrange(p * kv_width + offset, p * kv_width + offset + head_dim)
}

impl<T: Copy> KvCache<T> {
    /// There are `n_layers` layers with `size` numbers each.
    pub open spec fn holds(self, n_layers: nat, size: nat) -> bool {
        &&& self.k@.len() == n_layers
        &&& self.v@.len() == n_layers
        &&& forall|l: int| 0 <= l < n_layers ==> (#[trigger] self.k@[l])@.len() == size
        &&& forall|l: int| 0 <= l < n_layers ==> (#[trigger] self.v@[l])@.len() == size
    }

    /// A cache that holds nothing but zeros.
    pub fn new(
        n_layers: usize,
        n_ctx: usize,
        n_kv_heads: usize,
        head_dim: usize,
        zero: T,
    ) -> (cache: Self)
        requires
            n_ctx * n_kv_heads <= usize::MAX,
            n_ctx * n_kv_heads * head_dim <= usize::MAX,
        ensures
            cache.holds(n_layers as nat, (n_ctx * n_kv_heads * head_dim) as nat),
            forall|l: int, i: int|
                0 <= l < n_layers && 0 <= i < n_ctx * n_kv_heads * head_dim
                    ==> #[trigger] cache.k@[l]@[i] == zero,
            forall|l: int, i: int|
                0 <= l < n_layers && 0 <= i < n_ctx * n_kv_heads * head_dim
                    ==> #[trigger] cache.v@[l]@[i] == zero,
    {
        let size: usize = n_ctx * n_kv_heads * head_dim;
        KvCache { k: zeros(n_layers, size, zero), v: zeros(n_layers, size, zero) }
    }

    /// Stores the keys and values of a token in the row that begins at `start`.
    pub fn store(&mut self, layer: usize, start: usize, k: &Vec<T>, v: &Vec<T>)
        requires
            layer < old(self).k@.len(),
            layer < old(self).v@.len(),
            start + k@.len() <= old(self).k@[layer as int]@.len(),
            start + v@.len() <= old(self).v@[layer as int]@.len(),
        ensures
            final(self).k@.len() == old(self).k@.len(),
            final(self).v@.len() == old(self).v@.len(),
            final(self).k@[layer as int]@ == overwritten(
                old(self).k@[layer as int]@,
                start as int,
                k@,
            ),
            final(self).v@[layer as int]@ == overwritten(
                old(self).v@[layer as int]@,
                start as int,
                v@,
            ),
            forall|l: int|
                0 <= l < old(self).k@.len() && l != layer ==> #[trigger] final(self).k@[l]
                    == old(self).k@[l],
            forall|l: int|
                0 <= l < old(self).v@.len() && l != layer ==> #[trigger] final(self).v@[l]
                    == old(self).v@[l],
    {
        overwrite(&mut self.k, layer, start, k);
        overwrite(&mut self.v, layer, start, v);
    }

    /// The part of the key row of position `p` that belongs to the head that begins at `offset`
    /// within the row.
    pub fn key_head(
        &self,
        layer: usize,
        p: usize,
        kv_width: usize,
        offset: usize,
        head_dim: usize,
    ) -> (head: &[T])
        requires
            layer < self.k@.len(),
            p * kv_width + offset + head_dim <= self.k@[layer as int]@.len(),
        ensures
            head@ == head_of(
                self.k@[layer as int]@,
                p as int,
                kv_width as int,
                offset as int,
                head_dim as int,
            ),
    {
        let row = self.k[layer].as_slice();
        assert(row@.len() == row.len());
        let start: usize = p * kv_width + offset;
        slice_subrange(row, start, start + head_dim)
    }

    /// The part of the value row of position `p` that belongs to the head that begins at
    /// `offset` within the row.
    pub fn value_head(
        &self,
        layer: usize,
        p: usize,
        kv_width: usize,
        offset: usize,
        head_dim: usize,
    ) -> (head: &[T])
        requires
            layer < self.v@.len(),
            p * kv_width + offset + head_dim <= self.v@[layer as int]@.len(),
        ensures
            head@ == head_of(
                self.v@[layer as int]@,
                p as int,
                kv_width as int,
                offset as int,
                head_dim as int,
            ),
    {
        let row = self.v[layer].as_slice();
        assert(row@.len() == row.len());
        let start: usize = p * kv_width + offset;
        slice_subrange(row, start, start + head_dim)
    }
}

fn zeros<T: Copy>(n: usize, size: usize, zero: T) -> (rows: Vec<Vec<T>>)
    ensures
        rows@.len() == n,
        forall|l: int| 0 <= l < n ==> (#[trigger] rows@[l])@.len() == size,
        forall|l: int, i: int| 0 <= l < n && 0 <= i < size ==> #[trigger] rows@[l]@[i] == zero,
{
    let mut rows: Vec<Vec<T>> = Vec::new();
    let mut l: usize = 0;
    while l < n
        invariant
            l <= n,
            rows@.len() == l,
            forall|j: int| 0 <= j < l ==> (#[trigger] rows@[j])@.len() == size,
            forall|j: int, i: int|
                0 <= j < l && 0 <= i < size ==> #[trigger] rows@[j]@[i] == zero,
        decreases n - l,
    {
        let mut row: Vec<T> = Vec::new();
        let mut i: usize = 0;
        while i < size
            invariant
                i <= size,
                row@.len() == i,
                forall|j: int| 0 <= j < i ==> #[trigger] row@[j] == zero,
            decreases size - i,
        {
            row.push(zero);
            i += 1;
        }
        rows.push(row);
        l += 1;
    }
    rows
}

fn overwrite<T: Copy>(rows: &mut Vec<Vec<T>>, layer: usize, start: usize, part: &Vec<T>)
    requires
        layer < old(rows)@.len(),
        start + part@.len() <= old(rows)@[layer as int]@.len(),
    ensures
        final(rows)@.len() == old(rows)@.len(),
        final(rows)@[layer as int]@ == overwritten(
            old(rows)@[layer as int]@,
            start as int,
            part@,
        ),
        forall|l: int|
            0 <= l < old(rows)@.len() && l != layer ==> #[trigger] final(rows)@[l]
                == old(rows)@[l],
{
    let ghost before = rows@;
    let ghost whole = rows@[layer as int]@;
    let end: usize = rows[layer].len();
    let mut i: usize = 0;
    while i < part.len()
        invariant
            layer < rows@.len(),
            rows@.len() == before.len(),
            i <= part@.len(),
            whole == before[layer as int]@,
            start + part@.len() <= whole.len(),
            whole.len() == end,
            rows@[layer as int]@ == overwritten(whole, start as int, part@.take(i as int)),
            forall|l: int|
                0 <= l < before.len() && l != layer ==> #[trigger] rows@[l] == before[l],
        decreases part@.len() - i,
    {
        rows[layer][start + i] = part[i];
        i += 1;
        assert(rows@[layer as int]@ =~= overwritten(whole, start as int, part@.take(i as int)));
    }
    assert(part@.take(part@.len() as int) =~= part@);
}

/// What was stored for a position is read back for it.
pub proof fn law_stored_row_is_read<T>(
    layer: Seq<T>,
    row: Seq<T>,
    pos: int,
    offset: int,
    head_dim: int,
)
    requires
        0 <= pos,
        0 <= offset,
        0 <= head_dim,
        offset + head_dim <= row.len(),
        pos * row.len() + row.len() <= layer.len(),
    ensures
        head_of(
            overwritten(layer, pos * row.len(), row),
            pos,
            row.len() as int,
            offset,
            head_dim,
        ) == row.subrange(offset, offset + head_dim),
{
    assert(0 <= pos * row.len()) by (nonlinear_arith)
        requires
            0 <= pos,
    ;
    assert(head_of(
        overwritten(layer, pos * row.len(), row),
        pos,
        row.len() as int,
        offset,
        head_dim,
    ) =~= row.subrange(offset, offset + head_dim));
}

/// Storing the row of one position leaves what is read for every other position as it was.
pub proof fn law_other_rows_stay<T>(
    layer: Seq<T>,
    row: Seq<T>,
    pos: int,
    other: int,
    offset: int,
    head_dim: int,
)
    requires
        0 <= pos,
        0 <= other,
        other != pos,
        0 <= offset,
        0 <= head_dim,
        offset + head_dim <= row.len(),
        pos * row.len() + row.len() <= layer.len(),
        other * row.len() + row.len() <= layer.len(),
    ensures
        head_of(
            overwritten(layer, pos * row.len(), row),
            other,
            row.len() as int,
            offset,
            head_dim,
        ) == head_of(layer, other, row.len() as int, offset, head_dim),
{
    let n = row.len() as int;
    assert(other * n >= 0) by (nonlinear_arith)
        requires
            other >= 0,
            n >= 0,
    ;
    if other < pos {
        assert(other * n + n <= pos * n) by (nonlinear_arith)
            requires
                other + 1 <= pos,
                n >= 0,
        ;
    } else {
        assert(pos * n + n <= other * n) by (nonlinear_arith)
            requires
                pos + 1 <= other,
                n >= 0,
        ;
    }
    assert(head_of(overwritten(layer, pos * n, row), other, n, offset, head_dim) =~= head_of(
        layer,
        other,
        n,
        offset,
        head_dim,
    ));
}

} // verus!
