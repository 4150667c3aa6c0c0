//! The prefix tree of the `trie_rs` crate, as far as the shell uses it.
//!
//! The tree holds byte strings. What a builder or a tree holds is named by
//! [`builder_entries`] and [`trie_entries`]; the four functions at the end
//! of this file say what each call of the crate does to these sets. Their
//! contracts are not proved: they restate what the crate's source shows.
//! What is proved is that such a contract leaves no choice: a query has
//! one listing only.

use trie_rs::{Trie, TrieBuilder};
use vstd::prelude::*;

verus! {

/// `trie_rs::TrieBuilder`, which collects the entries of a tree.
#[verifier::external_type_specification]
#[verifier::external_body]
#[verifier::reject_recursive_types(Label)]
pub struct ExTrieBuilder<Label>(TrieBuilder<Label>);

/// `trie_rs::Trie`, a tree that is ready to be searched.
#[verifier::external_type_specification]
#[verifier::external_body]
#[verifier::reject_recursive_types(Label)]
pub struct ExTrie<Label>(Trie<Label>);

/// The entries that have been pushed to a builder.
pub uninterp spec fn builder_entries(builder: TrieBuilder<u8>) -> Set<Seq<u8>>;

/// The entries that a tree holds.
pub uninterp spec fn trie_entries(trie: Trie<u8>) -> Set<Seq<u8>>;

/// The byte strings that a vector of byte vectors holds, in order.
pub open spec fn byte_strings(items: Seq<Vec<u8>>) -> Seq<Seq<u8>> {
    Seq::new(items.len(), |i: int| items[i]@)
}

/// Whether `a` comes before `b` in the order of a dictionary, byte by byte:
/// at the first place where they differ `a` has the smaller byte, or `a`
/// ends there and `b` goes on.
pub open spec fn bytes_less(a: Seq<u8>, b: Seq<u8>) -> bool
    decreases a.len(),
{
    if b.len() == 0 {
        false
    } else if a.len() == 0 {
        true
    } else if a[0] != b[0] {
        a[0] < b[0]
    } else {
        bytes_less(a.skip(1), b.skip(1))
    }
}

/// Whether `postfixes` lists what can follow `query` in `entries`: each
/// item is the rest of an entry that starts with `query` and goes on, each
/// such rest is listed, and the items stand in ascending order, so none
/// stands twice.
pub open spec fn is_postfix_listing(
    entries: Set<Seq<u8>>,
    query: Seq<u8>,
    postfixes: Seq<Seq<u8>>,
) -> bool {
    &&& forall|i: int|
        0 <= i < postfixes.len() ==> (#[trigger] postfixes[i]).len() > 0 && entries.contains(
            query + postfixes[i],
        )
    &&& forall|postfix: Seq<u8>|
        postfix.len() > 0 && #[trigger] entries.contains(query + postfix) ==> postfixes.contains(
            postfix,
        )
    &&& is_ascending(postfixes)
}

/// No byte string comes before itself.
pub proof fn lemma_bytes_less_irreflexive(a: Seq<u8>)
    ensures
        !bytes_less(a, a),
    decreases a.len(),
{
    if a.len() > 0 {
        lemma_bytes_less_irreflexive(a.skip(1));
    }
}

/// The dictionary order is transitive.
pub proof fn lemma_bytes_less_transitive(a: Seq<u8>, b: Seq<u8>, c: Seq<u8>)
    requires
        bytes_less(a, b),
        bytes_less(b, c),
    ensures
        bytes_less(a, c),
    decreases a.len(),
{
    if a.len() > 0 && a[0] == b[0] && b[0] == c[0] {
        lemma_bytes_less_transitive(a.skip(1), b.skip(1), c.skip(1));
    }
}

/// Whether the items of `items` stand in ascending dictionary order.
pub open spec fn is_ascending(items: Seq<Seq<u8>>) -> bool {
    forall|i: int, j: int|
        0 <= i < j < items.len() ==> bytes_less(#[trigger] items[i], #[trigger] items[j])
}

/// Two ascending lists with the same items agree on their first `n` items.
proof fn lemma_ascending_lists_agree(a: Seq<Seq<u8>>, b: Seq<Seq<u8>>, n: int)
    requires
        is_ascending(a),
        is_ascending(b),
        forall|x: Seq<u8>| a.contains(x) <==> b.contains(x),
        0 <= n <= a.len(),
        n <= b.len(),
    ensures
        forall|k: int| 0 <= k < n ==> a[k] == b[k],
    decreases n,
{
    if n > 0 {
        lemma_ascending_lists_agree(a, b, n - 1);
        let i = n - 1;
        assert(a.contains(a[i]));
        assert(b.contains(b[i]));
        let j = choose|j: int| 0 <= j < b.len() && b[j] == a[i];
        let k = choose|k: int| 0 <= k < a.len() && a[k] == b[i];
        lemma_bytes_less_irreflexive(a[i]);
        lemma_bytes_less_irreflexive(b[i]);
        if j < i {
            assert(bytes_less(a[j], a[i]));
        } else if j > i {
            assert(bytes_less(b[i], b[j]));
            if k < i {
                assert(bytes_less(b[k], b[i]));
            } else if k > i {
                assert(bytes_less(a[i], a[k]));
                lemma_bytes_less_transitive(a[i], a[k], a[i]);
            }
        }
    }
}

/// There is one way only to list what can follow a query: two listings for
/// the same entries and the same query are the same list.
pub proof fn lemma_postfix_listing_is_unique(
    entries: Set<Seq<u8>>,
    query: Seq<u8>,
    a: Seq<Seq<u8>>,
    b: Seq<Seq<u8>>,
)
    requires
        is_postfix_listing(entries, query, a),
        is_postfix_listing(entries, query, b),
    ensures
        a == b,
{
    assert forall|x: Seq<u8>| a.contains(x) <==> b.contains(x) by {
        if a.contains(x) {
            let i = choose|i: int| 0 <= i < a.len() && a[i] == x;
            assert(entries.contains(query + a[i]));
        }
        if b.contains(x) {
            let i = choose|i: int| 0 <= i < b.len() && b[i] == x;
            assert(entries.contains(query + b[i]));
        }
    }
    let n = if a.len() <= b.len() {
        a.len() as int
    } else {
        b.len() as int
    };
    lemma_ascending_lists_agree(a, b, n);
    if a.len() < b.len() {
        assert(b.contains(b[n]));
        let k = choose|k: int| 0 <= k < a.len() && a[k] == b[n];
        assert(bytes_less(b[k], b[n]));
        lemma_bytes_less_irreflexive(b[n]);
    } else if b.len() < a.len() {
        assert(a.contains(a[n]));
        let k = choose|k: int| 0 <= k < b.len() && b[k] == a[n];
        assert(bytes_less(a[k], a[n]));
        lemma_bytes_less_irreflexive(a[n]);
    }
    assert(a =~= b);
}

/// `TrieBuilder::new`: a builder to which nothing has been pushed.
#[verifier::external_body]
pub(crate) fn new_builder() -> (builder: TrieBuilder<u8>)
    ensures
        builder_entries(builder) == Set::<Seq<u8>>::empty(),
{
    TrieBuilder::new()
}

/// `TrieBuilder::push`: the builder holds `entry` besides what it held. The
/// crate panics on an empty entry, so none is pushed.
#[verifier::external_body]
pub(crate) fn push_entry(builder: &mut TrieBuilder<u8>, entry: &[u8])
    requires
        entry@.len() > 0,
    ensures
        builder_entries(*final(builder)) == builder_entries(*old(builder)).insert(entry@),
{
    builder.push(entry)
}

/// `TrieBuilder::build`: the tree holds what was pushed to the builder.
#[verifier::external_body]
pub(crate) fn build_trie(builder: TrieBuilder<u8>) -> (trie: Trie<u8>)
    ensures
        trie_entries(trie) == builder_entries(builder),
{
    builder.build()
}

/// `Trie::postfix_search`, with each result collected as bytes: the rests
/// of all entries that start with `query` and go on behind it. The crate
/// walks the tree depth first with the children of a node in ascending
/// order of their byte, which gives the rests in dictionary order.
#[verifier::external_body]
pub(crate) fn postfix_search(trie: &Trie<u8>, query: &[u8]) -> (postfixes: Vec<Vec<u8>>)
    ensures
        is_postfix_listing(trie_entries(*trie), query@, byte_strings(postfixes@)),
{
    trie.postfix_search(query).collect()
}

} // verus!
