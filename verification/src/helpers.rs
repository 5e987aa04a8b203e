//! Helpers shared by the device tasks: byte-string comparison and in-place
//! maintenance of built-in-test lists.

use vstd::prelude::*;

use crate::codec::views_of;
use crate::configuration::mote_to_host::BIT;
use crate::configuration::mote_to_host::BITResult;
use crate::configuration::mote_to_host::BITView;

verus! {

/// Whether two byte strings hold the same bytes.
pub fn bytes_eq(a: &[u8], b: &[u8]) -> (r: bool)
    ensures
        r == (a@ == b@),
{
    if a.len() != b.len() {
        return false;
    }
    let len = a.len();
    let mut i: usize = 0;
    while i < len
        invariant
            i <= len,
            len == a@.len(),
            len == b@.len(),
            forall|j: int| 0 <= j < i ==> a@[j] == b@[j],
        decreases len - i,
    {
        if a[i] != b[i] {
            return false;
        }
        i = i + 1;
    }
    proof {
        assert(a@ =~= b@);
    }
    true
}

/// Set the result of the first test named `name` in the list. The test must
/// be present; later entries and all names are left untouched.
pub fn update_bit_result(collection: &mut Vec<BIT>, name: &[u8], result: BITResult)
    requires
        exists|i: int|
            0 <= i < old(collection)@.len() && (#[trigger] old(collection)@[i])@.name == name@,
    ensures
        exists|i: int|
            {
                &&& 0 <= i < old(collection)@.len()
                &&& (#[trigger] old(collection)@[i])@.name == name@
                &&& (forall|j: int| 0 <= j < i ==> (#[trigger] old(collection)@[j])@.name != name@)
                &&& views_of(final(collection)@) == views_of(old(collection)@).update(
                    i,
                    BITView { name: name@, result },
                )
            },
{
    let len = collection.len();
    let mut i: usize = 0;
    while i < len
        invariant
            i <= len,
            len == collection@.len(),
            collection@ == old(collection)@,
            exists|k: int|
                i <= k < collection@.len() && (#[trigger] collection@[k])@.name == name@,
            forall|j: int| 0 <= j < i ==> (#[trigger] collection@[j])@.name != name@,
        decreases len - i,
    {
        let hit = bytes_eq(collection[i].name.as_slice(), name);
        if hit {
            let fresh_name = vstd::slice::slice_to_vec(name);
            collection.set(i, BIT { name: fresh_name, result });
            proof {
                assert(views_of(collection@) =~= views_of(old(collection)@).update(
                    i as int,
                    BITView { name: name@, result },
                ));
            }
            return ;
        }
        proof {
            let k = choose|k: int|
                i <= k < collection@.len() && (#[trigger] collection@[k])@.name == name@;
            assert(k > i);
        }
        i = i + 1;
    }
    proof {
        let k = choose|k: int|
            i <= k < collection@.len() && (#[trigger] collection@[k])@.name == name@;
        assert(false);
    }
}

/// A fresh built-in-test list: one entry per name, each still waiting.
pub fn waiting_bits(names: &Vec<Vec<u8>>) -> (r: Vec<BIT>)
    ensures
        views_of(r@).len() == names@.len(),
        forall|i: int|
            0 <= i < names@.len() ==> (#[trigger] views_of(r@)[i]) == (BITView {
                name: names@[i]@,
                result: BITResult::Waiting,
            }),
{
    let len = names.len();
    let mut r: Vec<BIT> = Vec::new();
    let mut i: usize = 0;
    while i < len
        invariant
            i <= len,
            len == names@.len(),
            r@.len() == i,
            forall|j: int|
                0 <= j < i ==> (#[trigger] views_of(r@)[j]) == (BITView {
                    name: names@[j]@,
                    result: BITResult::Waiting,
                }),
        decreases len - i,
    {
        let ghost r0 = r@;
        let name = vstd::slice::slice_to_vec(names[i].as_slice());
        r.push(BIT { name, result: BITResult::Waiting });
        proof {
            assert forall|j: int| 0 <= j < i + 1 implies (#[trigger] views_of(r@)[j]) == (BITView {
                name: names@[j]@,
                result: BITResult::Waiting,
            }) by {
                assert(views_of(r@)[j] == r@[j]@);
                if j < i {
                    assert(r@[j] == r0[j]);
                    assert(views_of(r0)[j] == r0[j]@);
                }
            }
        }
        i = i + 1;
    }
    r
}

} // verus!
