use vstd::prelude::*;

verus! {

/// The concatenation of a sequence of batches.
pub open spec fn concat<T>(batches: Seq<Seq<T>>) -> Seq<T>
    decreases batches.len(),
{
    if batches.len() == 0 {
        Seq::empty()
    } else {
        concat(batches.drop_last()) + batches.last()
    }
}

/// The views of a sequence of batches.
pub open spec fn views<T>(batches: Seq<Vec<T>>) -> Seq<Seq<T>> {
    batches.map_values(|b: Vec<T>| b@)
}

/// The items of a sequence of batches, in order.
pub open spec fn flat<T>(batches: Seq<Vec<T>>) -> Seq<T> {
    concat(views(batches))
}

/// Batches of `batch_size` items, but for the last one, which holds the rest
/// and is never empty.
pub open spec fn well_batched<T>(batches: Seq<Seq<T>>, batch_size: nat) -> bool {
    &&& forall|i: int| 0 <= i < batches.len() ==> (#[trigger] batches[i]).len() > 0
    &&& forall|i: int| 0 <= i < batches.len() ==> (#[trigger] batches[i]).len() <= batch_size
    &&& forall|i: int| 0 <= i < batches.len() - 1 ==> (#[trigger] batches[i]).len() == batch_size
}

/// The items of `v` in reverse order.
pub fn reverse_vec<T>(v: Vec<T>) -> (r: Vec<T>)
    ensures
        r@.len() == v@.len(),
        forall|i: int| 0 <= i < v@.len() ==> #[trigger] r@[i] == v@[v@.len() - 1 - i],
{
    let ghost items = v@;
    let mut v = v;
    let mut r: Vec<T> = Vec::new();
    while v.len() > 0
        invariant
            r@.len() + v@.len() == items.len(),
            v@ == items.subrange(0, v@.len() as int),
            forall|i: int| 0 <= i < r@.len() ==> #[trigger] r@[i] == items[items.len() - 1 - i],
        decreases v@.len(),
    {
        let x = v.pop().unwrap();
        r.push(x);
    }
    r
}

/// Splits `rows` into consecutive batches of `batch_size` items; the last
/// batch holds the rest, and no batch is empty.
pub fn into_batches<T>(rows: Vec<T>, batch_size: usize) -> (batches: Vec<Vec<T>>)
    requires
        batch_size > 0,
    ensures
        concat(batches@.map_values(|b: Vec<T>| b@)) == rows@,
        well_batched(batches@.map_values(|b: Vec<T>| b@), batch_size as nat),
{
    let ghost items = rows@;
    let n = rows.len();
    let mut pending = reverse_vec(rows);
    let mut batches: Vec<Vec<T>> = Vec::new();
    let mut current: Vec<T> = Vec::new();
    let mut i: usize = 0;
    while i < n
        invariant
            n == items.len(),
            i <= n,
            pending@.len() == n - i,
            forall|j: int| 0 <= j < pending@.len() ==> #[trigger] pending@[j] == items[n - 1 - j],
            concat(batches@.map_values(|b: Vec<T>| b@)) + current@ == items.subrange(0, i as int),
            current@.len() < batch_size,
            forall|j: int| 0 <= j < batches@.len() ==> (#[trigger] batches@[j])@.len() == batch_size,
        decreases n - i,
    {
        let ghost before = batches@.map_values(|b: Vec<T>| b@);
        let ghost cur = current@;
        let x = pending.pop().unwrap();
        current.push(x);
        proof {
            assert(x == items[i as int]);
            assert(items.subrange(0, i + 1) =~= items.subrange(0, i as int).push(x));
            assert(concat(before) + current@ =~= items.subrange(0, i + 1));
        }
        if current.len() == batch_size {
            let mut full: Vec<T> = Vec::new();
            std::mem::swap(&mut full, &mut current);
            batches.push(full);
            proof {
                let after = batches@.map_values(|b: Vec<T>| b@);
                assert(after.drop_last() =~= before);
                assert(after.last() == full@);
                assert(concat(after) + current@ =~= concat(before) + full@);
            }
        }
        i = i + 1;
    }
    proof {
        assert(items.subrange(0, n as int) =~= items);
    }
    if current.len() > 0 {
        let ghost before = batches@.map_values(|b: Vec<T>| b@);
        let ghost cur = current@;
        batches.push(current);
        proof {
            let after = batches@.map_values(|b: Vec<T>| b@);
            assert(after.drop_last() =~= before);
            assert(after.last() == cur);
        }
    } else {
        proof {
            assert(concat(batches@.map_values(|b: Vec<T>| b@)) + Seq::<T>::empty() =~= concat(batches@.map_values(|b: Vec<T>| b@)));
        }
    }
    batches
}

} // verus!
