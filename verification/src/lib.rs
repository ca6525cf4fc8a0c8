//! Core of a line-delimited JSON RPC worker: the protocol codec, the
//! request dispatcher, the cancellation registry, and the content-addressed
//! result cache, each with verified contracts. The surrounding process
//! (standard input/output, task spawning, external media tools) drives these
//! components but holds no protocol logic of its own.
use vstd::prelude::*;

pub mod cache;
pub mod engine;
pub mod json;
pub mod registry;
pub mod rpc;
pub mod types;

verus! {

/// Compares two string slices character by character.
pub fn str_eq(a: &str, b: &str) -> (r: bool)
    ensures
        r == (a@ == b@),
{
    let alen = a.unicode_len();
    let blen = b.unicode_len();
    if alen != blen {
        proof {
            assert(a@ =~= b@ ==> a@.len() == b@.len());
        }
        return false;
    }
    let mut i: usize = 0;
    while i < alen
        invariant
            alen == a@.len(),
            blen == b@.len(),
            alen == blen,
            i <= alen,
            forall|j: int| 0 <= j < i ==> a@[j] == b@[j],
        decreases alen - i,
    {
        if a.get_char(i) != b.get_char(i) {
            proof {
                assert(a@[i as int] != b@[i as int]);
            }
            return false;
        }
        i += 1;
    }
    proof {
        assert(a@ =~= b@);
    }
    true
}

} // verus!
