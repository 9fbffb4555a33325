//! The listing filter: which directory entries the `list` command
//! shows. An entry is shown exactly when its name has the extension
//! `json` — it ends in `.json` and the dot is not its first byte.
use vstd::prelude::*;

use crate::text::{byte_views, copy_bytes};

verus! {

/// The bytes of `.json`.
pub open spec fn ext_json() -> Seq<u8> {
    seq!['.' as u8, 'j' as u8, 's' as u8, 'o' as u8, 'n' as u8]
}

/// Whether a file name has the extension `json`: it ends in `.json`
/// and has at least one byte before the dot (a bare `.json` has no
/// extension, only a stem).
pub open spec fn is_json_name(n: Seq<u8>) -> bool {
    n.len() >= 6 && n.subrange(n.len() - 5, n.len() as int) == ext_json()
}

/// The names with extension `json`, in input order.
pub open spec fn json_names(ns: Seq<Seq<u8>>) -> Seq<Seq<u8>>
    decreases ns.len(),
{
    if ns.len() == 0 {
        Seq::empty()
    } else {
        (if is_json_name(ns[0]) {
            seq![ns[0]]
        } else {
            Seq::empty()
        }) + json_names(ns.skip(1))
    }
}

/// Extension test on one name.
fn has_json_ext(name: &Vec<u8>) -> (r: bool)
    ensures
        r == is_json_name(name@),
{
    if name.len() < 6 {
        return false;
    }
    let k = name.len() - 5;
    let ext: [u8; 5] = ['.' as u8, 'j' as u8, 's' as u8, 'o' as u8, 'n' as u8];
    assert(ext@ =~= ext_json());
    let mut m: usize = 0;
    while m < 5
        invariant
            0 <= m <= 5,
            k == name.len() - 5,
            name.len() >= 6,
            ext@ == ext_json(),
            forall|q: int| 0 <= q < m ==> name@[k + q] == ext_json()[q],
        decreases 5 - m,
    {
        if name[k + m] != ext[m] {
            assert(name@.subrange(name@.len() - 5, name@.len() as int)[m as int] != ext_json()[m as int]);
            return false;
        }
        m = m + 1;
    }
    assert(name@.subrange(name@.len() - 5, name@.len() as int) =~= ext_json());
    true
}

/// Keeps exactly the entries whose name has the extension `json`,
/// preserving their order.
pub fn filter_json_names(names: &Vec<Vec<u8>>) -> (r: Vec<Vec<u8>>)
    ensures
        byte_views(r@) == json_names(byte_views(names@)),
{
    let ghost all = byte_views(names@);
    let mut out: Vec<Vec<u8>> = Vec::new();
    let mut i: usize = 0;
    proof {
        assert(all.skip(0) =~= all);
        assert(byte_views(out@) + json_names(all) =~= json_names(all));
    }
    while i < names.len()
        invariant
            0 <= i <= names.len(),
            all == byte_views(names@),
            byte_views(out@) + json_names(all.skip(i as int)) == json_names(all),
        decreases names.len() - i,
    {
        let ghost out0 = out@;
        proof {
            assert(all.skip(i as int).len() > 0);
            assert(all.skip(i as int)[0] == all[i as int]);
            assert(all.skip(i as int).skip(1) =~= all.skip(i + 1));
            assert(all[i as int] == names@[i as int]@);
        }
        if has_json_ext(&names[i]) {
            let c = copy_bytes(&names[i]);
            out.push(c);
            proof {
                assert(out@.last()@ == names@[i as int]@);
                assert(byte_views(out@) + json_names(all.skip(i + 1)) =~~= json_names(all));
            }
        } else {
            assert(byte_views(out@) + json_names(all.skip(i + 1)) =~~= json_names(all));
        }
        i = i + 1;
    }
    proof {
        assert(all.skip(i as int) =~= Seq::<Seq<u8>>::empty());
        assert(byte_views(out@) =~~= json_names(all));
    }
    out
}

} // verus!
