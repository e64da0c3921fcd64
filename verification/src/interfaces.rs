use vstd::prelude::*;
use crate::adapter::bytes_equal;

verus! {

/// The positions, in order, of the names among the first `n` of `names`
/// that equal `wanted`.
pub open spec fn named_positions(names: Seq<Seq<u8>>, wanted: Seq<u8>, n: nat) -> Seq<usize>
    decreases n,
{
    if n == 0 {
        Seq::empty()
    } else {
        let before = named_positions(names, wanted, (n - 1) as nat);
        if names[n - 1] == wanted {
            before.push((n - 1) as usize)
        } else {
            before
        }
    }
}

/// The positions, in order, of the interface entries whose name is `wanted`.
pub fn select_named(names: &Vec<Vec<u8>>, wanted: &[u8]) -> (r: Vec<usize>)
    ensures
        r@ == named_positions(names@.map_values(|v: Vec<u8>| v@), wanted@, names@.len()),
{
    let ghost view = names@.map_values(|v: Vec<u8>| v@);
    let mut picked: Vec<usize> = Vec::new();
    let mut i: usize = 0;
    while i < names.len()
        invariant
            i <= names@.len(),
            view == names@.map_values(|v: Vec<u8>| v@),
            picked@ == named_positions(view, wanted@, i as nat),
        decreases names.len() - i,
    {
        assert(view[i as int] == names@[i as int]@);
        if bytes_equal(names[i].as_slice(), wanted) {
            picked.push(i);
        }
        i = i + 1;
    }
    picked
}


/// The positions picked from the first `n` names are exactly those whose name
/// equals the wanted one, each once, in increasing order.
pub proof fn law_named_positions_exact(names: Seq<Seq<u8>>, wanted: Seq<u8>, n: nat)
    requires
        n <= names.len(),
        n <= usize::MAX,
    ensures
        forall|k: int| 0 <= k < named_positions(names, wanted, n).len() ==> {
            let i = #[trigger] named_positions(names, wanted, n)[k];
            &&& i < n
            &&& names[i as int] == wanted
        },
        forall|k: int, l: int| 0 <= k < l < named_positions(names, wanted, n).len() ==> #[trigger] named_positions(names, wanted, n)[k] < #[trigger] named_positions(names, wanted, n)[l],
        forall|i: int| 0 <= i < n && names[i] == wanted ==> named_positions(names, wanted, n).contains(i as usize),
    decreases n,
{
    if n > 0 {
        let m = (n - 1) as nat;
        law_named_positions_exact(names, wanted, m);
        let before = named_positions(names, wanted, m);
        if names[m as int] == wanted {
            let after = before.push(m as usize);
            assert(after[before.len() as int] == m as usize);
            assert forall|k: int, l: int| 0 <= k < l < after.len() implies #[trigger] after[k] < #[trigger] after[l] by {
                if l == before.len() {
                    assert(before[k] < m);
                } else {
                    assert(after[k] == before[k] && after[l] == before[l]);
                }
            }
            assert forall|i: int| 0 <= i < n && names[i] == wanted implies after.contains(i as usize) by {
                if i < m {
                    let k = choose|k: int| 0 <= k < before.len() && before[k] == i as usize;
                    assert(after[k] == before[k]);
                } else {
                    assert(after[before.len() as int] == i as usize);
                }
            }
        }
    }
}

} // verus!
