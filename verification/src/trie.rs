//! The prefix index: a radix trie from path prefixes to servant numbers.

use radix_trie::Trie;
use vstd::prelude::*;

verus! {

/// The trie of the `radix_trie` crate, known by the keys it holds.
#[verifier::external_type_specification]
#[verifier::external_body]
#[verifier::reject_recursive_types(K)]
#[verifier::reject_recursive_types(V)]
pub struct ExTrie<K, V>(Trie<K, V>);

/// The trie of the prefix index: from a path prefix to a servant's number.
pub type RouteRadixTrie = Trie<String, usize>;

/// The keys of a trie, each with the value stored under it.
pub uninterp spec fn trie_entries(t: RouteRadixTrie) -> Map<Seq<char>, usize>;

/// The length of the longest beginning of `q`, of at most `n` characters,
/// that is a key of `m`.
pub open spec fn longest_prefix_len(m: Map<Seq<char>, usize>, q: Seq<char>, n: nat) -> Option<nat>
    decreases n,
{
    if m.contains_key(q.take(n as int)) {
        Some(n)
    } else if n == 0 {
        None
    } else {
        longest_prefix_len(m, q, (n - 1) as nat)
    }
}

/// The value under the longest key of `m` that `q` begins with.
pub open spec fn ancestor_value(m: Map<Seq<char>, usize>, q: Seq<char>) -> Option<usize> {
    match longest_prefix_len(m, q, q.len()) {
        Some(n) => Some(m[q.take(n as int)]),
        None => None,
    }
}

/// `Trie::new`: a trie without keys.
#[verifier::external_body]
pub(crate) fn trie_new() -> (t: RouteRadixTrie)
    ensures
        forall|k: Seq<char>| !trie_entries(t).contains_key(k),
{
    Trie::new()
}

/// `Trie::insert`: the key has the value afterwards, in place of any value
/// it had, and no other key changes.
#[verifier::external_body]
pub(crate) fn trie_insert(t: &mut RouteRadixTrie, key: String, value: usize)
    ensures
        trie_entries(*final(t)) == trie_entries(*old(t)).insert(key@, value),
{
    t.insert(key, value);
}

/// `Trie::get_ancestor_value`: the value under the longest key that the
/// query begins with, the query itself included; nothing where no key is
/// such a beginning. The trie compares the bytes of the two strings, and a
/// string's bytes begin with another's exactly when its characters do.
#[verifier::external_body]
pub(crate) fn trie_get_ancestor_value(t: &RouteRadixTrie, key: &str) -> (found: Option<usize>)
    ensures
        found == ancestor_value(trie_entries(*t), key@),
{
    t.get_ancestor_value(key).copied()
}

/// No key of the map that `q` begins with has more than `n` characters,
/// where `longest_prefix_len` finds none up to `n`; where it finds one, that
/// is the longest.
pub proof fn lemma_longest_prefix_len(m: Map<Seq<char>, usize>, q: Seq<char>, n: nat)
    requires
        n <= q.len(),
    ensures
        match longest_prefix_len(m, q, n) {
            Some(l) => l <= n && m.contains_key(q.take(l as int)) && forall|k: int|
                l < k <= n ==> !m.contains_key(#[trigger] q.take(k)),
            None => forall|k: int| 0 <= k <= n ==> !m.contains_key(#[trigger] q.take(k)),
        },
    decreases n,
{
    if !m.contains_key(q.take(n as int)) && n > 0 {
        lemma_longest_prefix_len(m, q, (n - 1) as nat);
    }
}

/// The prefix lookup finds a value exactly where some key is a beginning of
/// the query, and the value is that of the longest such key.
pub proof fn lemma_ancestor_is_longest_prefix(m: Map<Seq<char>, usize>, q: Seq<char>)
    ensures
        ancestor_value(m, q) is None <==> forall|k: Seq<char>|
            m.contains_key(k) ==> !k.is_prefix_of(q),
        ancestor_value(m, q) is Some ==> exists|k: Seq<char>|
            {
                &&& #[trigger] m.contains_key(k)
                &&& k.is_prefix_of(q)
                &&& ancestor_value(m, q) == Some(m[k])
                &&& forall|other: Seq<char>|
                    m.contains_key(other) && other.is_prefix_of(q) ==> other.len() <= k.len()
            },
{
    lemma_longest_prefix_len(m, q, q.len());
    assert forall|k: Seq<char>| k.is_prefix_of(q) implies q.take(k.len() as int) == k by {
        assert(q.take(k.len() as int) =~= q.subrange(0, k.len() as int));
    }
    match longest_prefix_len(m, q, q.len()) {
        Some(l) => {
            let k = q.take(l as int);
            assert(k.is_prefix_of(q)) by {
                assert(k =~= q.subrange(0, k.len() as int));
            }
            assert forall|other: Seq<char>|
                m.contains_key(other) && other.is_prefix_of(q) implies other.len() <= k.len() by {
                assert(q.take(other.len() as int) == other);
            }
        },
        None => {
            assert forall|k: Seq<char>| m.contains_key(k) implies !k.is_prefix_of(q) by {
                if k.is_prefix_of(q) {
                    assert(q.take(k.len() as int) == k);
                }
            }
        },
    }
}

} // verus!
