//! The sharded concurrent map that backs the session and download-token
//! registries, declared to the verifier as an opaque type.
use vstd::prelude::*;

verus! {

/// dashmap's `DashMap`, opaque here: each registry names its contents and
/// wraps the methods it calls.
#[verifier::external_type_specification]
#[verifier::external_body]
#[verifier::reject_recursive_types(K)]
#[verifier::reject_recursive_types(V)]
#[verifier::reject_recursive_types(S)]
pub struct ExDashMap<K, V, S>(dashmap::DashMap<K, V, S>);

/// `keys` lists every key of `dom` exactly once (by view).
pub open spec fn lists_keys_once(keys: Seq<String>, dom: Set<Seq<char>>) -> bool {
    &&& forall|i: int| 0 <= i < keys.len() ==> dom.contains(#[trigger] keys[i]@)
    &&& forall|k: Seq<char>| dom.contains(k) ==> exists|i: int| 0 <= i < keys.len() && #[trigger] keys[i]@ == k
    &&& forall|i: int, j: int| 0 <= i < keys.len() && 0 <= j < keys.len() && i != j ==> #[trigger] keys[i]@ != #[trigger] keys[j]@
}

} // verus!
