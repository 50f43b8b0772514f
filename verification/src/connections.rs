//! Lists of connections, and how connections are taken off them.
use crate::address::SocketAddr;
use crate::connection::{ConnectionId, EcsConnection};
use vstd::prelude::*;

verus! {

/// Something by which connections are told apart.
pub trait ConnectionKey<P>: Sized {
    /// The key of a connection.
    spec fn of(connection: EcsConnection<P>) -> Self;

    /// Whether this is the key of `connection`.
    fn is_of(&self, connection: &EcsConnection<P>) -> (is: bool)
        ensures
            is == (Self::of(*connection) == *self),
    ;
}

impl<P> ConnectionKey<P> for SocketAddr {
    /// The address of the peer.
    open spec fn of(connection: EcsConnection<P>) -> SocketAddr {
        connection.peer_addr
    }

    fn is_of(&self, connection: &EcsConnection<P>) -> (is: bool) {
        connection.peer_addr() == *self
    }
}

impl<P> ConnectionKey<P> for ConnectionId {
    /// The id.
    open spec fn of(connection: EcsConnection<P>) -> ConnectionId {
        connection.id
    }

    fn is_of(&self, connection: &EcsConnection<P>) -> (is: bool) {
        connection.id() == *self
    }
}

/// The keys of `connections`.
pub open spec fn keys_of<P, K: ConnectionKey<P>>(connections: Seq<EcsConnection<P>>) -> Seq<K> {
    connections.map_values(|connection: EcsConnection<P>| K::of(connection))
}

/// What the connections are after those with one of `keys` were removed.
pub open spec fn without<P, K: ConnectionKey<P>>(
    connections: Seq<EcsConnection<P>>,
    keys: Seq<K>,
) -> Seq<EcsConnection<P>> {
    connections.filter(|connection: EcsConnection<P>| !keys.contains(K::of(connection)))
}

/// Removes the connections with `key`; the others stay, in their order.
pub fn remove<P, K: ConnectionKey<P>>(connections: &mut Vec<EcsConnection<P>>, key: K)
    ensures
        final(connections)@ == without(old(connections)@, seq![key]),
{
    let ghost all = connections@;
    let ghost keep = |connection: EcsConnection<P>| !seq![key].contains(K::of(connection));
    let ghost mut seen: int = 0;
    let mut kept: usize = 0;
    proof {
        assert(all.take(0).filter(keep) =~= Seq::empty()) by {
            reveal(Seq::filter);
        }
        assert(all.skip(0) =~= all);
    }
    while kept < connections.len()
        invariant
            0 <= seen <= all.len(),
            keep == (|connection: EcsConnection<P>| !seq![key].contains(K::of(connection))),
            kept == all.take(seen).filter(keep).len(),
            connections@ == all.take(seen).filter(keep) + all.skip(seen),
        decreases connections.len() - kept,
    {
        assert(connections@[kept as int] == all[seen]);
        proof {
            assert(all.take(seen + 1).drop_last() =~= all.take(seen));
            reveal(Seq::filter);
            assert(seq![key][0] == key);
        }
        if key.is_of(&connections[kept]) {
            connections.remove(kept);
        } else {
            kept = kept + 1;
        }
        proof {
            seen = seen + 1;
            assert(connections@ =~= all.take(seen).filter(keep) + all.skip(seen));
        }
    }
    assert(all.take(seen) =~= all);
    assert(connections@ =~= all.filter(keep));
}

/// Removing the connections with one key after those with others removes all of them.
pub proof fn law_removals_add_up<P, K: ConnectionKey<P>>(
    connections: Seq<EcsConnection<P>>,
    keys: Seq<K>,
    key: K,
)
    ensures
        without(without(connections, keys), seq![key]) == without(connections, keys.push(key)),
    decreases connections.len(),
{
    reveal(Seq::filter);
    if connections.len() > 0 {
        let rest = connections.drop_last();
        let last = K::of(connections.last());
        law_removals_add_up(rest, keys, key);
        assert(seq![key].contains(last) <==> last == key) by {
            assert(seq![key][0] == key);
        }
        assert(keys.push(key).contains(last) <==> keys.contains(last) || last == key) by {
            assert(keys.push(key)[keys.len() as int] == key);
            if keys.contains(last) {
                let i = choose|i: int| 0 <= i < keys.len() && keys[i] == last;
                assert(keys.push(key)[i] == last);
            }
        }
        if !keys.contains(last) {
            assert(without(connections, keys).drop_last() =~= without(rest, keys));
        }
    }
}

/// Nothing is removed where no connection has one of the keys.
pub proof fn law_nothing_else_is_removed<P, K: ConnectionKey<P>>(
    connections: Seq<EcsConnection<P>>,
    keys: Seq<K>,
)
    requires
        forall|i: int| 0 <= i < connections.len() ==> !keys.contains(
            K::of(#[trigger] connections[i]),
        ),
    ensures
        without(connections, keys) == connections,
    decreases connections.len(),
{
    reveal(Seq::filter);
    if connections.len() > 0 {
        law_nothing_else_is_removed(connections.drop_last(), keys);
        assert(connections.drop_last().push(connections.last()) =~= connections);
    }
}

/// After connections were removed none with one of the keys is left, and every other
/// connection still is there.
pub proof fn law_exactly_the_ended_connections_go<P, K: ConnectionKey<P>>(
    connections: Seq<EcsConnection<P>>,
    keys: Seq<K>,
    connection: EcsConnection<P>,
)
    ensures
        without(connections, keys).contains(connection) <==> connections.contains(connection)
            && !keys.contains(K::of(connection)),
{
    let keep = |connection: EcsConnection<P>| !keys.contains(K::of(connection));
    broadcast use vstd::seq_lib::group_filter_ensures;

    let left = without(connections, keys);
    if left.contains(connection) {
        let i = choose|i: int| 0 <= i < left.len() && left[i] == connection;
        assert(keep(connections.filter(keep)[i]));
        lemma_left_were_there(connections, keys, connection);
    }
    if connections.contains(connection) && keep(connection) {
        let i = choose|i: int| 0 <= i < connections.len() && connections[i] == connection;
        assert(connections.filter(keep).contains(connections[i]));
    }
}

proof fn lemma_left_were_there<P, K: ConnectionKey<P>>(
    connections: Seq<EcsConnection<P>>,
    keys: Seq<K>,
    connection: EcsConnection<P>,
)
    requires
        without(connections, keys).contains(connection),
    ensures
        connections.contains(connection),
    decreases connections.len(),
{
    reveal(Seq::filter);
    if connections.len() > 0 {
        let rest = connections.drop_last();
        let last = connections.last();
        let left = without(connections, keys);
        let i = choose|i: int| 0 <= i < left.len() && left[i] == connection;
        if connection == last {
            assert(connections[connections.len() - 1] == connection);
        } else {
            assert(without(rest, keys)[i] == connection);
            lemma_left_were_there(rest, keys, connection);
            let j = choose|j: int| 0 <= j < rest.len() && rest[j] == connection;
            assert(connections[j] == connection);
        }
    }
}

/// Connections that come and go leave no trace: where connections with other keys than
/// those before are added and removed, the list is what it was before.
pub proof fn law_ended_connections_leave_no_trace<P, K: ConnectionKey<P>>(
    before: Seq<EcsConnection<P>>,
    added: Seq<EcsConnection<P>>,
)
    requires
        forall|i: int| 0 <= i < before.len() ==> !keys_of::<P, K>(added).contains(
            K::of(#[trigger] before[i]),
        ),
    ensures
        without(before + added, keys_of::<P, K>(added)) == before,
{
    let keys = keys_of::<P, K>(added);
    let keep = |connection: EcsConnection<P>| !keys.contains(K::of(connection));
    Seq::filter_distributes_over_add(before, added, keep);
    law_nothing_else_is_removed(before, keys);
    assert(added.filter(keep) =~= Seq::empty()) by {
        broadcast use vstd::seq_lib::group_filter_ensures;

        if added.filter(keep).len() > 0 {
            let connection = added.filter(keep)[0];
            assert(keep(connection));
            assert(without(added, keys)[0] == connection);
            lemma_left_were_there(added, keys, connection);
            let j = choose|j: int| 0 <= j < added.len() && added[j] == connection;
            assert(keys[j] == K::of(connection));
        }
    }
    assert(before + Seq::empty() =~= before);
}

/// The connections that are left keep their order and their number: removing goes
/// connection by connection, and of each it leaves the connection itself, or nothing
/// where its key is among those to be removed.
pub proof fn law_removal_goes_connection_by_connection<P, K: ConnectionKey<P>>(
    first: Seq<EcsConnection<P>>,
    connection: EcsConnection<P>,
    second: Seq<EcsConnection<P>>,
    keys: Seq<K>,
)
    ensures
        without(first + second, keys) == without(first, keys) + without(second, keys),
        without(seq![connection], keys) == if keys.contains(K::of(connection)) {
            Seq::<EcsConnection<P>>::empty()
        } else {
            seq![connection]
        },
        without(Seq::<EcsConnection<P>>::empty(), keys) == Seq::<EcsConnection<P>>::empty(),
{
    let keep = |connection: EcsConnection<P>| !keys.contains(K::of(connection));
    Seq::filter_distributes_over_add(first, second, keep);
    reveal_with_fuel(Seq::filter, 2);
    assert(seq![connection].drop_last() =~= Seq::empty());
    assert(Seq::<EcsConnection<P>>::empty().push(connection) =~= seq![connection]);
}

/// Clients know their connections by the address of the peer, servers by the id.
pub proof fn law_keys_are_peers_and_ids<P>(connection: EcsConnection<P>)
    ensures
        <SocketAddr as ConnectionKey<P>>::of(connection) == connection.peer_addr,
        <ConnectionId as ConnectionKey<P>>::of(connection) == connection.id,
{
}

} // verus!
