//! Key layout of the object store.
//!
//! Every persisted entry lives under a composite key. Objects are stored
//! under `objects:{namespace}:{id}` and roots under
//! `roots:{namespace}:{alias}`. A namespace, id or alias is a *component*;
//! a valid component is non-empty and free of the delimiter `:`, which is
//! what makes the layout unambiguous.

use vstd::prelude::*;
use vstd::string::*;

verus! {

/// The character that separates the parts of a composite key.
pub open spec fn delimiter() -> char {
    ':'
}

/// Whether `s` may stand as a namespace, an object id or an alias: it is
/// not empty and holds no delimiter.
pub open spec fn valid_component(s: Seq<char>) -> bool {
    s.len() > 0 && forall|i: int| 0 <= i < s.len() ==> s[i] != delimiter()
}

/// The leading part of every object key, delimiter included.
pub open spec fn objects_prefix() -> Seq<char> {
    seq!['o', 'b', 'j', 'e', 'c', 't', 's', ':']
}

/// The leading part of every root key, delimiter included.
pub open spec fn roots_prefix() -> Seq<char> {
    seq!['r', 'o', 'o', 't', 's', ':']
}

/// `prefix`, then `namespace`, the delimiter, and `name`.
pub open spec fn compose(prefix: Seq<char>, namespace: Seq<char>, name: Seq<char>) -> Seq<char> {
    prefix + namespace + seq![delimiter()] + name
}

/// The key under which object `id` of `namespace` is stored.
pub open spec fn object_key_spec(namespace: Seq<char>, id: Seq<char>) -> Seq<char> {
    compose(objects_prefix(), namespace, id)
}

/// The key under which root `alias` of `namespace` is stored.
pub open spec fn root_key_spec(namespace: Seq<char>, alias: Seq<char>) -> Seq<char> {
    compose(roots_prefix(), namespace, alias)
}

/// Tests whether `s` is a valid component.
pub fn is_valid_component(s: &str) -> (ok: bool)
    ensures
        ok == valid_component(s@),
{
    let n: usize = s.unicode_len();
    if n == 0 {
        return false;
    }
    let mut i: usize = 0;
    while i < n
        invariant
            n == s@.len(),
            i <= n,
            forall|j: int| 0 <= j < i ==> s@[j] != delimiter(),
        decreases n - i,
    {
        if s.get_char(i) == ':' {
            return false;
        }
        i += 1;
    }
    true
}

/// Builds the key of object `id` in `namespace`.
pub fn object_key(namespace: &str, id: &str) -> (key: String)
    ensures
        key@ == object_key_spec(namespace@, id@),
{
    proof {
        reveal_strlit("objects:");
        reveal_strlit(":");
    }
    let mut key = String::from_str("objects:");
    assert(key@ =~= objects_prefix());
    key.append(namespace);
    key.append(":");
    key.append(id);
    assert(key@ =~= object_key_spec(namespace@, id@));
    key
}

/// Builds the key of root `alias` in `namespace`.
pub fn root_key(namespace: &str, alias: &str) -> (key: String)
    ensures
        key@ == root_key_spec(namespace@, alias@),
{
    proof {
        reveal_strlit("roots:");
        reveal_strlit(":");
    }
    let mut key = String::from_str("roots:");
    assert(key@ =~= roots_prefix());
    key.append(namespace);
    key.append(":");
    key.append(alias);
    assert(key@ =~= root_key_spec(namespace@, alias@));
    key
}

/// Two composite keys with the same prefix and delimiter-free namespaces
/// are equal only if both their namespaces and their names are equal.
pub proof fn lemma_compose_injective(
    prefix: Seq<char>,
    ns1: Seq<char>,
    name1: Seq<char>,
    ns2: Seq<char>,
    name2: Seq<char>,
)
    requires
        valid_component(ns1),
        valid_component(ns2),
        compose(prefix, ns1, name1) == compose(prefix, ns2, name2),
    ensures
        ns1 == ns2,
        name1 == name2,
{
    let k1 = compose(prefix, ns1, name1);
    let k2 = compose(prefix, ns2, name2);
    let p = prefix.len() as int;
    if ns1.len() < ns2.len() {
        assert(k1[p + ns1.len()] == delimiter());
        assert(k2[p + ns1.len()] == ns2[ns1.len() as int]);
        assert(false);
    }
    if ns2.len() < ns1.len() {
        assert(k2[p + ns2.len()] == delimiter());
        assert(k1[p + ns2.len()] == ns1[ns2.len() as int]);
        assert(false);
    }
    assert forall|i: int| 0 <= i < ns1.len() implies ns1[i] == ns2[i] by {
        assert(k1[p + i] == ns1[i]);
        assert(k2[p + i] == ns2[i]);
    }
    assert(ns1 =~= ns2);
    let q = p + ns1.len() + 1;
    assert(k1.len() == q + name1.len());
    assert(k2.len() == q + name2.len());
    assert forall|i: int| 0 <= i < name1.len() implies name1[i] == name2[i] by {
        assert(k1[q + i] == name1[i]);
        assert(k2[q + i] == name2[i]);
    }
    assert(name1 =~= name2);
}

/// Distinct `(namespace, id)` pairs never share an object key, as long as
/// the namespaces are valid.
pub proof fn lemma_object_keys_distinct(
    ns1: Seq<char>,
    id1: Seq<char>,
    ns2: Seq<char>,
    id2: Seq<char>,
)
    requires
        valid_component(ns1),
        valid_component(ns2),
        ns1 != ns2 || id1 != id2,
    ensures
        object_key_spec(ns1, id1) != object_key_spec(ns2, id2),
{
    if object_key_spec(ns1, id1) == object_key_spec(ns2, id2) {
        lemma_compose_injective(objects_prefix(), ns1, id1, ns2, id2);
    }
}

/// Distinct `(namespace, alias)` pairs never share a root key, as long as
/// the namespaces are valid.
pub proof fn lemma_root_keys_distinct(
    ns1: Seq<char>,
    alias1: Seq<char>,
    ns2: Seq<char>,
    alias2: Seq<char>,
)
    requires
        valid_component(ns1),
        valid_component(ns2),
        ns1 != ns2 || alias1 != alias2,
    ensures
        root_key_spec(ns1, alias1) != root_key_spec(ns2, alias2),
{
    if root_key_spec(ns1, alias1) == root_key_spec(ns2, alias2) {
        lemma_compose_injective(roots_prefix(), ns1, alias1, ns2, alias2);
    }
}

/// No object key is a root key, whatever the components.
pub proof fn lemma_object_and_root_keys_disjoint(
    ns1: Seq<char>,
    id: Seq<char>,
    ns2: Seq<char>,
    alias: Seq<char>,
)
    ensures
        object_key_spec(ns1, id) != root_key_spec(ns2, alias),
{
    assert(object_key_spec(ns1, id)[0] == 'o');
    assert(root_key_spec(ns2, alias)[0] == 'r');
}

} // verus!
