//! The storage bridge: the four operations through which guest code
//! reaches persistent state.
//!
//! Every operation first checks the shape of its namespace, id and alias,
//! and rejects a malformed one before any transaction begins. A call that
//! passes becomes one `Command`, which a backend runs as a transaction of
//! its own. The `plan_*` functions stop there, for a backend that lives
//! outside this library; the operations named after the four calls run the
//! command on a `MemoryStore`.

use vstd::prelude::*;
use vstd::string::*;
use crate::keys::{
    is_valid_component, lemma_object_and_root_keys_disjoint, lemma_object_keys_distinct,
    lemma_root_keys_distinct, object_key, object_key_spec, root_key, root_key_spec,
    valid_component,
};
use crate::store::{Command, MemoryStore, StoreError};
use crate::table::{lookup, text_of};

verus! {

/// A malformed argument of a bridge call.
#[derive(Clone, Copy, Debug, PartialEq, Eq, Structural)]
pub enum BridgeError {
    /// The namespace is empty or holds a delimiter.
    InvalidNamespace,
    /// The object id is empty or holds a delimiter.
    InvalidId,
    /// The alias is empty or holds a delimiter.
    InvalidAlias,
}

/// Why a bridge operation failed.
#[derive(Clone, Copy, Debug, PartialEq, Eq, Structural)]
pub enum OpError {
    /// An argument was rejected; the store was not touched.
    Bridge(BridgeError),
    /// The store failed.
    Store(StoreError),
}

/// The fault in the arguments of an object operation, if any: the
/// namespace is looked at first, then the id.
pub open spec fn object_args_fault(namespace: Seq<char>, id: Seq<char>) -> Option<BridgeError> {
    if !valid_component(namespace) {
        Some(BridgeError::InvalidNamespace)
    } else if !valid_component(id) {
        Some(BridgeError::InvalidId)
    } else {
        None
    }
}

/// The fault in the arguments of `root_get`, if any: the namespace is
/// looked at first, then the alias.
pub open spec fn root_args_fault(namespace: Seq<char>, alias: Seq<char>) -> Option<BridgeError> {
    if !valid_component(namespace) {
        Some(BridgeError::InvalidNamespace)
    } else if !valid_component(alias) {
        Some(BridgeError::InvalidAlias)
    } else {
        None
    }
}

/// The fault in the arguments of `root_set`, if any: namespace, alias and
/// id are looked at in this order.
pub open spec fn root_set_args_fault(
    namespace: Seq<char>,
    alias: Seq<char>,
    id: Seq<char>,
) -> Option<BridgeError> {
    if !valid_component(namespace) {
        Some(BridgeError::InvalidNamespace)
    } else if !valid_component(alias) {
        Some(BridgeError::InvalidAlias)
    } else if !valid_component(id) {
        Some(BridgeError::InvalidId)
    } else {
        None
    }
}

/// The store's contents after object `id` of `namespace` was set to `value`.
pub open spec fn after_object_set(
    m: Map<Seq<char>, Seq<char>>,
    namespace: Seq<char>,
    id: Seq<char>,
    value: Seq<char>,
) -> Map<Seq<char>, Seq<char>> {
    m.insert(object_key_spec(namespace, id), value)
}

/// The payload of object `id` of `namespace` in a store that holds `m`.
pub open spec fn object_in(
    m: Map<Seq<char>, Seq<char>>,
    namespace: Seq<char>,
    id: Seq<char>,
) -> Option<Seq<char>> {
    lookup(m, object_key_spec(namespace, id))
}

/// The store's contents after root `alias` of `namespace` was bound to `id`.
pub open spec fn after_root_set(
    m: Map<Seq<char>, Seq<char>>,
    namespace: Seq<char>,
    alias: Seq<char>,
    id: Seq<char>,
) -> Map<Seq<char>, Seq<char>> {
    m.insert(root_key_spec(namespace, alias), id)
}

/// The id bound to root `alias` of `namespace` in a store that holds `m`.
pub open spec fn root_in(
    m: Map<Seq<char>, Seq<char>>,
    namespace: Seq<char>,
    alias: Seq<char>,
) -> Option<Seq<char>> {
    lookup(m, root_key_spec(namespace, alias))
}

fn check_object_args(namespace: &str, id: &str) -> (r: Option<BridgeError>)
    ensures
        r == object_args_fault(namespace@, id@),
{
    if !is_valid_component(namespace) {
        Some(BridgeError::InvalidNamespace)
    } else if !is_valid_component(id) {
        Some(BridgeError::InvalidId)
    } else {
        None
    }
}

fn check_root_args(namespace: &str, alias: &str) -> (r: Option<BridgeError>)
    ensures
        r == root_args_fault(namespace@, alias@),
{
    if !is_valid_component(namespace) {
        Some(BridgeError::InvalidNamespace)
    } else if !is_valid_component(alias) {
        Some(BridgeError::InvalidAlias)
    } else {
        None
    }
}

/// The command that sets object `id` of `namespace` to `value`, or the
/// fault for which the call is rejected.
pub fn plan_object_set(namespace: &str, id: &str, value: &str) -> (r: Result<Command, BridgeError>)
    ensures
        match object_args_fault(namespace@, id@) {
            Some(e) => r == Err::<Command, BridgeError>(e),
            None => r is Ok && r->Ok_0.writes(object_key_spec(namespace@, id@), value@),
        },
{
    match check_object_args(namespace, id) {
        Some(e) => Err(e),
        None => Ok(Command::Write { key: object_key(namespace, id), value: String::from_str(value) }),
    }
}

/// The command that reads object `id` of `namespace`, or the fault for
/// which the call is rejected.
pub fn plan_object_get(namespace: &str, id: &str) -> (r: Result<Command, BridgeError>)
    ensures
        match object_args_fault(namespace@, id@) {
            Some(e) => r == Err::<Command, BridgeError>(e),
            None => r is Ok && r->Ok_0.reads(object_key_spec(namespace@, id@)),
        },
{
    match check_object_args(namespace, id) {
        Some(e) => Err(e),
        None => Ok(Command::Read { key: object_key(namespace, id) }),
    }
}

/// The command that binds root `alias` of `namespace` to `id`, or the
/// fault for which the call is rejected.
pub fn plan_root_set(namespace: &str, alias: &str, id: &str) -> (r: Result<Command, BridgeError>)
    ensures
        match root_set_args_fault(namespace@, alias@, id@) {
            Some(e) => r == Err::<Command, BridgeError>(e),
            None => r is Ok && r->Ok_0.writes(root_key_spec(namespace@, alias@), id@),
        },
{
    match check_root_args(namespace, alias) {
        Some(e) => Err(e),
        None => {
            if !is_valid_component(id) {
                Err(BridgeError::InvalidId)
            } else {
                Ok(Command::Write { key: root_key(namespace, alias), value: String::from_str(id) })
            }
        },
    }
}

/// The command that reads root `alias` of `namespace`, or the fault for
/// which the call is rejected.
pub fn plan_root_get(namespace: &str, alias: &str) -> (r: Result<Command, BridgeError>)
    ensures
        match root_args_fault(namespace@, alias@) {
            Some(e) => r == Err::<Command, BridgeError>(e),
            None => r is Ok && r->Ok_0.reads(root_key_spec(namespace@, alias@)),
        },
{
    match check_root_args(namespace, alias) {
        Some(e) => Err(e),
        None => Ok(Command::Read { key: root_key(namespace, alias) }),
    }
}

/// The result of a set operation whose command the backend answered with
/// `reply`: a failure of the store is passed on, and nothing else is.
pub fn settle_write(reply: Result<Option<String>, StoreError>) -> (r: Result<(), OpError>)
    ensures
        r == match reply {
            Ok(_) => Ok::<(), OpError>(()),
            Err(e) => Err::<(), OpError>(OpError::Store(e)),
        },
{
    match reply {
        Ok(_) => Ok(()),
        Err(e) => Err(OpError::Store(e)),
    }
}

/// The result of a get operation whose command the backend answered with
/// `reply`: what was found, absence included, or the failure of the store.
pub fn settle_read(reply: Result<Option<String>, StoreError>) -> (r: Result<
    Option<String>,
    OpError,
>)
    ensures
        r == match reply {
            Ok(found) => Ok::<Option<String>, OpError>(found),
            Err(e) => Err::<Option<String>, OpError>(OpError::Store(e)),
        },
{
    match reply {
        Ok(found) => Ok(found),
        Err(e) => Err(OpError::Store(e)),
    }
}

/// Sets object `id` of `namespace` to `value`, overwriting the whole of
/// what was there. A malformed argument is rejected and leaves the store
/// untouched.
pub fn object_set(store: &mut MemoryStore, namespace: &str, id: &str, value: &str) -> (r: Result<
    (),
    OpError,
>)
    ensures
        match object_args_fault(namespace@, id@) {
            Some(e) => r == Err::<(), OpError>(OpError::Bridge(e)) && final(store)@ == old(store)@,
            None => r is Ok && final(store)@ == after_object_set(
                old(store)@,
                namespace@,
                id@,
                value@,
            ),
        },
{
    match plan_object_set(namespace, id, value) {
        Err(e) => Err(OpError::Bridge(e)),
        Ok(command) => settle_write(store.execute(command)),
    }
}

/// The payload of object `id` of `namespace`; `Ok(None)` where it was
/// never set. The store is left as it was.
pub fn object_get(store: &mut MemoryStore, namespace: &str, id: &str) -> (r: Result<
    Option<String>,
    OpError,
>)
    ensures
        final(store)@ == old(store)@,
        match object_args_fault(namespace@, id@) {
            Some(e) => r == Err::<Option<String>, OpError>(OpError::Bridge(e)),
            None => r is Ok && text_of(r->Ok_0) == object_in(old(store)@, namespace@, id@),
        },
{
    match plan_object_get(namespace, id) {
        Err(e) => Err(OpError::Bridge(e)),
        Ok(command) => settle_read(store.execute(command)),
    }
}

/// Binds root `alias` of `namespace` to object `id`, whether or not such
/// an object exists. A malformed argument is rejected and leaves the store
/// untouched.
pub fn root_set(store: &mut MemoryStore, namespace: &str, alias: &str, id: &str) -> (r: Result<
    (),
    OpError,
>)
    ensures
        match root_set_args_fault(namespace@, alias@, id@) {
            Some(e) => r == Err::<(), OpError>(OpError::Bridge(e)) && final(store)@ == old(store)@,
            None => r is Ok && final(store)@ == after_root_set(
                old(store)@,
                namespace@,
                alias@,
                id@,
            ),
        },
{
    match plan_root_set(namespace, alias, id) {
        Err(e) => Err(OpError::Bridge(e)),
        Ok(command) => settle_write(store.execute(command)),
    }
}

/// The object id bound to root `alias` of `namespace`; `Ok(None)` where
/// the alias was never bound. The store is left as it was.
pub fn root_get(store: &mut MemoryStore, namespace: &str, alias: &str) -> (r: Result<
    Option<String>,
    OpError,
>)
    ensures
        final(store)@ == old(store)@,
        match root_args_fault(namespace@, alias@) {
            Some(e) => r == Err::<Option<String>, OpError>(OpError::Bridge(e)),
            None => r is Ok && text_of(r->Ok_0) == root_in(old(store)@, namespace@, alias@),
        },
{
    match plan_root_get(namespace, alias) {
        Err(e) => Err(OpError::Bridge(e)),
        Ok(command) => settle_read(store.execute(command)),
    }
}

/// Round trip: an object that was set is read back exactly.
pub proof fn law_object_round_trip(
    m: Map<Seq<char>, Seq<char>>,
    namespace: Seq<char>,
    id: Seq<char>,
    value: Seq<char>,
)
    ensures
        object_in(after_object_set(m, namespace, id, value), namespace, id) == Some(value),
{
}

/// Round trip: a root that was bound resolves to the id it was bound to,
/// whether or not an object is stored under that id.
pub proof fn law_root_round_trip(
    m: Map<Seq<char>, Seq<char>>,
    namespace: Seq<char>,
    alias: Seq<char>,
    id: Seq<char>,
)
    ensures
        root_in(after_root_set(m, namespace, alias, id), namespace, alias) == Some(id),
{
}

/// Absence: in an empty store every object and every root is absent.
pub proof fn law_empty_store_holds_nothing(namespace: Seq<char>, name: Seq<char>)
    ensures
        object_in(Map::empty(), namespace, name) == None::<Seq<char>>,
        root_in(Map::empty(), namespace, name) == None::<Seq<char>>,
{
}

/// Isolation: setting one object changes no other object. Two objects are
/// different when their namespaces or their ids differ.
pub proof fn law_object_set_leaves_other_objects(
    m: Map<Seq<char>, Seq<char>>,
    ns1: Seq<char>,
    id1: Seq<char>,
    value: Seq<char>,
    ns2: Seq<char>,
    id2: Seq<char>,
)
    requires
        valid_component(ns1),
        valid_component(ns2),
        ns1 != ns2 || id1 != id2,
    ensures
        object_in(after_object_set(m, ns1, id1, value), ns2, id2) == object_in(m, ns2, id2),
{
    lemma_object_keys_distinct(ns1, id1, ns2, id2);
}

/// Isolation: binding one root changes no other root.
pub proof fn law_root_set_leaves_other_roots(
    m: Map<Seq<char>, Seq<char>>,
    ns1: Seq<char>,
    alias1: Seq<char>,
    id: Seq<char>,
    ns2: Seq<char>,
    alias2: Seq<char>,
)
    requires
        valid_component(ns1),
        valid_component(ns2),
        ns1 != ns2 || alias1 != alias2,
    ensures
        root_in(after_root_set(m, ns1, alias1, id), ns2, alias2) == root_in(m, ns2, alias2),
{
    lemma_root_keys_distinct(ns1, alias1, ns2, alias2);
}

/// Objects and roots live apart: setting an object changes no root, and
/// binding a root changes no object.
pub proof fn law_objects_and_roots_apart(
    m: Map<Seq<char>, Seq<char>>,
    ns1: Seq<char>,
    name1: Seq<char>,
    value: Seq<char>,
    ns2: Seq<char>,
    name2: Seq<char>,
)
    ensures
        root_in(after_object_set(m, ns1, name1, value), ns2, name2) == root_in(m, ns2, name2),
        object_in(after_root_set(m, ns1, name1, value), ns2, name2) == object_in(m, ns2, name2),
{
    lemma_object_and_root_keys_disjoint(ns1, name1, ns2, name2);
    lemma_object_and_root_keys_disjoint(ns2, name2, ns1, name1);
}

/// A write that the bridge accepted: an object that was set, or a root
/// that was bound.
pub enum Write {
    Object { namespace: Seq<char>, id: Seq<char>, value: Seq<char> },
    Root { namespace: Seq<char>, alias: Seq<char>, id: Seq<char> },
}

/// Whether the bridge accepts the arguments of `w`.
pub open spec fn accepted(w: Write) -> bool {
    match w {
        Write::Object { namespace, id, value } => object_args_fault(namespace, id) is None,
        Write::Root { namespace, alias, id } => root_set_args_fault(namespace, alias, id) is None,
    }
}

/// Whether `w` sets object `id` of `namespace`.
pub open spec fn sets_object(w: Write, namespace: Seq<char>, id: Seq<char>) -> bool {
    match w {
        Write::Object { namespace: n, id: i, value } => n == namespace && i == id,
        Write::Root { .. } => false,
    }
}

/// Whether `w` binds root `alias` of `namespace`.
pub open spec fn binds_root(w: Write, namespace: Seq<char>, alias: Seq<char>) -> bool {
    match w {
        Write::Object { .. } => false,
        Write::Root { namespace: n, alias: a, id } => n == namespace && a == alias,
    }
}

/// The store's contents after the write `w`.
pub open spec fn after_write(m: Map<Seq<char>, Seq<char>>, w: Write) -> Map<Seq<char>, Seq<char>> {
    match w {
        Write::Object { namespace, id, value } => after_object_set(m, namespace, id, value),
        Write::Root { namespace, alias, id } => after_root_set(m, namespace, alias, id),
    }
}

/// The store's contents after the writes of `history`, in order, on a
/// store that held `m`.
pub open spec fn after_history(
    m: Map<Seq<char>, Seq<char>>,
    history: Seq<Write>,
) -> Map<Seq<char>, Seq<char>>
    decreases history.len(),
{
    if history.len() == 0 {
        m
    } else {
        after_write(after_history(m, history.drop_last()), history.last())
    }
}

/// Absence: an object that no write of the history has set is absent
/// from a store that started empty, whatever else was written.
pub proof fn law_never_set_object_is_absent(
    history: Seq<Write>,
    namespace: Seq<char>,
    id: Seq<char>,
)
    requires
        valid_component(namespace),
        forall|i: int| 0 <= i < history.len() ==> accepted(#[trigger] history[i]),
        forall|i: int| 0 <= i < history.len() ==> !sets_object(#[trigger] history[i], namespace, id),
    ensures
        object_in(after_history(Map::empty(), history), namespace, id) == None::<Seq<char>>,
    decreases history.len(),
{
    if history.len() > 0 {
        let earlier = history.drop_last();
        assert forall|i: int| 0 <= i < earlier.len() implies accepted(#[trigger] earlier[i])
            && !sets_object(earlier[i], namespace, id) by {
            assert(earlier[i] == history[i]);
        }
        law_never_set_object_is_absent(earlier, namespace, id);
        let before = after_history(Map::empty(), earlier);
        let w = history[history.len() - 1];
        assert(accepted(w) && !sets_object(w, namespace, id));
        match w {
            Write::Object { namespace: n, id: i, value } => {
                law_object_set_leaves_other_objects(before, n, i, value, namespace, id);
            },
            Write::Root { namespace: n, alias, id: target } => {
                law_objects_and_roots_apart(before, n, alias, target, namespace, id);
            },
        }
    }
}

/// Absence: a root that no write of the history has bound is absent from
/// a store that started empty, whatever else was written.
pub proof fn law_never_bound_root_is_absent(
    history: Seq<Write>,
    namespace: Seq<char>,
    alias: Seq<char>,
)
    requires
        valid_component(namespace),
        forall|i: int| 0 <= i < history.len() ==> accepted(#[trigger] history[i]),
        forall|i: int| 0 <= i < history.len() ==> !binds_root(#[trigger] history[i], namespace, alias),
    ensures
        root_in(after_history(Map::empty(), history), namespace, alias) == None::<Seq<char>>,
    decreases history.len(),
{
    if history.len() > 0 {
        let earlier = history.drop_last();
        assert forall|i: int| 0 <= i < earlier.len() implies accepted(#[trigger] earlier[i])
            && !binds_root(earlier[i], namespace, alias) by {
            assert(earlier[i] == history[i]);
        }
        law_never_bound_root_is_absent(earlier, namespace, alias);
        let before = after_history(Map::empty(), earlier);
        let w = history[history.len() - 1];
        assert(accepted(w) && !binds_root(w, namespace, alias));
        match w {
            Write::Object { namespace: n, id, value } => {
                law_objects_and_roots_apart(before, n, id, value, namespace, alias);
            },
            Write::Root { namespace: n, alias: a, id } => {
                law_root_set_leaves_other_roots(before, n, a, id, namespace, alias);
            },
        }
    }
}

/// Last write wins: after any history on any store, an object holds the
/// value of the last write that set it, provided that every write was
/// accepted.
pub proof fn law_last_object_write_wins(
    m: Map<Seq<char>, Seq<char>>,
    history: Seq<Write>,
    k: int,
)
    requires
        forall|i: int| 0 <= i < history.len() ==> accepted(#[trigger] history[i]),
        0 <= k < history.len(),
        history[k] is Object,
        forall|i: int|
            k < i < history.len() ==> !sets_object(
                #[trigger] history[i],
                history[k]->Object_namespace,
                history[k]->Object_id,
            ),
    ensures
        object_in(
            after_history(m, history),
            history[k]->Object_namespace,
            history[k]->Object_id,
        ) == Some(history[k]->Object_value),
    decreases history.len(),
{
    let namespace = history[k]->Object_namespace;
    let id = history[k]->Object_id;
    let earlier = history.drop_last();
    let before = after_history(m, earlier);
    let w = history[history.len() - 1];
    assert(accepted(history[k]));
    if k == history.len() - 1 {
    } else {
        assert forall|i: int| 0 <= i < earlier.len() implies accepted(#[trigger] earlier[i]) by {
            assert(earlier[i] == history[i]);
        }
        assert forall|i: int| k < i < earlier.len() implies !sets_object(
            #[trigger] earlier[i],
            namespace,
            id,
        ) by {
            assert(earlier[i] == history[i]);
        }
        assert(earlier[k] == history[k]);
        law_last_object_write_wins(m, earlier, k);
        assert(accepted(w) && !sets_object(w, namespace, id));
        match w {
            Write::Object { namespace: n, id: i, value } => {
                law_object_set_leaves_other_objects(before, n, i, value, namespace, id);
            },
            Write::Root { namespace: n, alias, id: target } => {
                law_objects_and_roots_apart(before, n, alias, target, namespace, id);
            },
        }
    }
}

/// Namespace isolation: the same id set in two different namespaces gives
/// two objects, each read back with its own value, in whichever order they
/// were set.
pub proof fn law_namespaces_do_not_collide(
    m: Map<Seq<char>, Seq<char>>,
    ns1: Seq<char>,
    ns2: Seq<char>,
    id: Seq<char>,
    v1: Seq<char>,
    v2: Seq<char>,
)
    requires
        valid_component(ns1),
        valid_component(ns2),
        ns1 != ns2,
    ensures
        object_in(after_object_set(after_object_set(m, ns1, id, v1), ns2, id, v2), ns1, id) == Some(
            v1,
        ),
        object_in(after_object_set(after_object_set(m, ns1, id, v1), ns2, id, v2), ns2, id) == Some(
            v2,
        ),
{
    lemma_object_keys_distinct(ns1, id, ns2, id);
}

} // verus!
