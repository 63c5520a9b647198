use vstd::prelude::*;

verus! {

/// A 128-bit value held as two 64-bit halves, `lo` and `hi`.
///
/// Every operation that reads or changes the cell goes through `cas128`,
/// a single compare-and-swap step. The step takes the cell by `&mut`, so no
/// other thread can see the cell while it runs. As a result no caller ever
/// sees the `lo` of one written value paired with the `hi` of another.
/// Equality is bit-for-bit equality of both halves.
#[derive(Clone, Copy, Debug, PartialEq, Eq, Structural)]
pub struct AtomicU128 {
    pub lo: u64,
    pub hi: u64,
}

/// The compare-and-swap step: if `src` holds `cmp`, replace it with `with`
/// and report success. Otherwise leave `src` as it is, report failure, and
/// write the value found in `src` back into `cmp`.
pub fn cas128(src: &mut AtomicU128, cmp: &mut AtomicU128, with: AtomicU128) -> (r: bool)
    ensures
        r == (*old(src) == *old(cmp)),
        *final(src) == cas_next(*old(src), *old(cmp), with),
        *final(cmp) == *old(src),
{
    if src.lo == cmp.lo && src.hi == cmp.hi {
        *src = with;
        true
    } else {
        *cmp = *src;
        false
    }
}

/// What the cell holds after a compare-and-swap of `expected` for `new`
/// on a cell that held `mem`.
pub open spec fn cas_next(mem: AtomicU128, expected: AtomicU128, new: AtomicU128) -> AtomicU128 {
    if mem == expected {
        new
    } else {
        mem
    }
}

/// One operation on the cell, as a history of operations records it.
pub enum Op {
    Load,
    Store(AtomicU128),
    Swap(AtomicU128),
    CompareAndSwap(AtomicU128, AtomicU128),
    CompareExchange(AtomicU128, AtomicU128),
}

/// What the cell holds after `op` runs on a cell that held `mem`.
pub open spec fn apply(mem: AtomicU128, op: Op) -> AtomicU128 {
    match op {
        Op::Load => mem,
        Op::Store(v) => v,
        Op::Swap(v) => v,
        Op::CompareAndSwap(expected, new) => cas_next(mem, expected, new),
        Op::CompareExchange(expected, new) => cas_next(mem, expected, new),
    }
}

/// What `compare_exchange` reports on a cell that held `mem`: success with
/// the prior value when it equals `expected`, otherwise failure with it.
pub open spec fn exchange_result(mem: AtomicU128, expected: AtomicU128) -> Result<
    AtomicU128,
    AtomicU128,
> {
    if mem == expected {
        Ok(mem)
    } else {
        Err(mem)
    }
}

/// Whether `op` installs the value `v` when it takes effect.
pub open spec fn installs(op: Op, v: AtomicU128) -> bool {
    match op {
        Op::Load => false,
        Op::Store(w) => w == v,
        Op::Swap(w) => w == v,
        Op::CompareAndSwap(_, new) => new == v,
        Op::CompareExchange(_, new) => new == v,
    }
}

/// What the cell holds after the operations of `ops` ran one after another,
/// starting from `init`.
pub open spec fn run(init: AtomicU128, ops: Seq<Op>) -> AtomicU128
    decreases ops.len(),
{
    if ops.len() == 0 {
        init
    } else {
        apply(run(init, ops.drop_last()), ops.last())
    }
}

/// A load right after `store(v)` returns exactly `v`: the store leaves `v`
/// in the cell, and a load returns what the cell holds without changing it.
pub proof fn lemma_store_then_load(cell: AtomicU128, v: AtomicU128)
    ensures
        apply(cell, Op::Store(v)) == v,
        apply(apply(cell, Op::Store(v)), Op::Load) == v,
{
}

/// `swap(v)` leaves `v` in the cell, so a following load returns `v`; its
/// own result is the value held before, as `swap`'s contract states.
pub proof fn lemma_swap_then_load(cell: AtomicU128, v: AtomicU128)
    ensures
        apply(cell, Op::Swap(v)) == v,
        apply(apply(cell, Op::Swap(v)), Op::Load) == v,
{
}

/// A compare-and-swap whose expected value is what the cell holds installs
/// `new`.
pub proof fn lemma_cas_when_expected(cell: AtomicU128, expected: AtomicU128, new: AtomicU128)
    requires
        cell == expected,
    ensures
        apply(cell, Op::CompareAndSwap(expected, new)) == new,
{
}

/// A compare-and-swap whose expected value differs from what the cell holds
/// leaves the cell unchanged.
pub proof fn lemma_cas_when_unexpected(cell: AtomicU128, expected: AtomicU128, new: AtomicU128)
    requires
        cell != expected,
    ensures
        apply(cell, Op::CompareAndSwap(expected, new)) == cell,
{
}

/// `compare_exchange` succeeds with the prior value exactly when that value
/// equals `expected`, and then installs `new`; otherwise it fails with the
/// value held and leaves the cell unchanged.
pub proof fn lemma_exchange(cell: AtomicU128, expected: AtomicU128, new: AtomicU128)
    ensures
        exchange_result(cell, expected) is Ok <==> cell == expected,
        exchange_result(cell, expected) == Ok::<AtomicU128, AtomicU128>(cell) ==> apply(
            cell,
            Op::CompareExchange(expected, new),
        ) == new,
        exchange_result(cell, expected) == Err::<AtomicU128, AtomicU128>(cell) ==> apply(
            cell,
            Op::CompareExchange(expected, new),
        ) == cell,
        exchange_result(cell, expected) == Ok::<AtomicU128, AtomicU128>(cell)
            || exchange_result(cell, expected) == Err::<AtomicU128, AtomicU128>(cell),
{
}

/// No torn values: whatever operations ran on the cell, in whatever order,
/// it holds either its initial value or a value that one of them installed
/// whole, as it stood right after that operation.
pub proof fn lemma_no_torn_values(init: AtomicU128, ops: Seq<Op>)
    ensures
        run(init, ops) == init || exists|i: int|
            0 <= i < ops.len() && installs(#[trigger] ops[i], run(init, ops)) && run(
                init,
                ops.take(i + 1),
            ) == run(init, ops),
    decreases ops.len(),
{
    if ops.len() > 0 {
        let pre = ops.drop_last();
        let last = ops.len() - 1;
        lemma_no_torn_values(init, pre);
        assert(ops.take(ops.len() as int) =~= ops);
        if run(init, ops) != run(init, pre) {
            assert(installs(ops[last], run(init, ops)));
        } else if run(init, pre) != init {
            let i = choose|i: int|
                0 <= i < pre.len() && installs(#[trigger] pre[i], run(init, pre)) && run(
                    init,
                    pre.take(i + 1),
                ) == run(init, pre);
            assert(pre.take(i + 1) =~= ops.take(i + 1));
            assert(installs(ops[i], run(init, ops)));
        }
    }
}

impl AtomicU128 {
    pub fn new(lo: u64, hi: u64) -> (r: Self)
        ensures
            r.lo == lo,
            r.hi == hi,
    {
        AtomicU128 { lo: lo, hi: hi }
    }

    pub fn zero() -> (r: Self)
        ensures
            r.lo == 0,
            r.hi == 0,
    {
        AtomicU128 { lo: 0, hi: 0 }
    }

    /// Reads the cell: a compare-and-swap of zero for zero, which leaves
    /// the cell as it is and reveals what it holds.
    pub fn load(&mut self) -> (r: Self)
        ensures
            r == *old(self),
            *final(self) == apply(*old(self), Op::Load),
    {
        let mut ret = Self::zero();
        cas128(self, &mut ret, Self::zero());
        ret
    }

    /// Installs `val`, retrying the compare-and-swap with the value that
    /// each failed attempt revealed.
    pub fn store(&mut self, val: AtomicU128)
        ensures
            *final(self) == apply(*old(self), Op::Store(val)),
    {
        let mut current = Self::zero();
        loop
            invariant_except_break
                *self == *old(self),
            ensures
                *self == val,
            decreases
                (if current == *self { 0int } else { 1int }),
        {
            if cas128(self, &mut current, val) {
                break;
            }
        }
    }

    /// Installs `val` and returns the value held just before.
    pub fn swap(&mut self, val: AtomicU128) -> (r: AtomicU128)
        ensures
            r == *old(self),
            *final(self) == apply(*old(self), Op::Swap(val)),
    {
        let mut prev = Self::zero();
        loop
            invariant_except_break
                *self == *old(self),
            ensures
                *self == val,
                prev == *old(self),
            decreases
                (if prev == *self { 0int } else { 1int }),
        {
            if cas128(self, &mut prev, val) {
                break;
            }
        }
        prev
    }

    /// One attempt to replace `current` with `new`. Returns the value the
    /// cell held at the attempt, whether or not it was replaced.
    pub fn compare_and_swap(&mut self, current: AtomicU128, new: AtomicU128) -> (r: AtomicU128)
        ensures
            r == *old(self),
            *final(self) == apply(*old(self), Op::CompareAndSwap(current, new)),
    {
        let mut current = current;
        cas128(self, &mut current, new);
        current
    }

    /// One attempt to replace `current` with `new`: `Ok` with the prior
    /// value on success, `Err` with the value found on failure.
    pub fn compare_exchange(&mut self, current: AtomicU128, new: AtomicU128) -> (r: Result<
        AtomicU128,
        AtomicU128,
    >)
        ensures
            r == exchange_result(*old(self), current),
            *final(self) == apply(*old(self), Op::CompareExchange(current, new)),
    {
        let mut current = current;
        if cas128(self, &mut current, new) {
            Ok(current)
        } else {
            Err(current)
        }
    }

    /// The same as `compare_exchange`: it never fails spuriously.
    pub fn compare_exchange_weak(&mut self, current: AtomicU128, new: AtomicU128) -> (r: Result<
        AtomicU128,
        AtomicU128,
    >)
        ensures
            r == exchange_result(*old(self), current),
            *final(self) == apply(*old(self), Op::CompareExchange(current, new)),
    {
        self.compare_exchange(current, new)
    }
}

impl Default for AtomicU128 {
    /// The zero value.
    fn default() -> (r: Self)
        ensures
            r == (AtomicU128 { lo: 0, hi: 0 }),
    {
        Self::zero()
    }
}

} // verus!
