//! What holds of rendered tables: which registrations show in them, and what
//! comes back when a rendered table is taken in and rendered again.

use vstd::prelude::*;

use crate::generator::{
    lemma_render_insert, normalized, render_table, settled, settled_table, slot_of, Registered,
    RouteId, RouteTable,
};
use crate::ingest::{ingest_table, ingested, stripped};
use crate::record::{HttpMethod, OperationView, PathItemView};

verus! {

/// Once an operation is registered for a path and a verb, the pair is taken,
/// whatever the operation was: a second registration for it is refused.
pub proof fn lemma_registered_is_taken(
    ops: Registered,
    path: Seq<char>,
    method: HttpMethod,
    op: OperationView,
)
    ensures
        ops.insert((path, method), normalized(op)).contains_key((path, method)),
{
}

/// A path can be registered under two different verbs, one after the other,
/// and the rendered table then holds each operation in the slot of its verb.
pub proof fn lemma_two_verbs_two_slots(
    ops: Registered,
    path: Seq<char>,
    first: HttpMethod,
    a: OperationView,
    second: HttpMethod,
    b: OperationView,
)
    requires
        first != second,
        first.has_slot(),
        second.has_slot(),
        !ops.contains_key((path, second)),
    ensures
        !ops.insert((path, first), a).contains_key((path, second)),
        render_table(ops.insert((path, first), a).insert((path, second), b)).contains_key(path),
        render_table(ops.insert((path, first), a).insert((path, second), b))[path].slot(first)
            == Some(a),
        render_table(ops.insert((path, first), a).insert((path, second), b))[path].slot(second)
            == Some(b),
{
    let both = ops.insert((path, first), a).insert((path, second), b);
    assert(both.contains_key((path, first)));
    assert(slot_of(both, path, first) == Some(a));
    assert(slot_of(both, path, second) == Some(b));
}

/// An operation under CONNECT does not show in the rendered table: with it
/// or without it the table is the same.
pub proof fn lemma_connect_is_dropped(ops: Registered, path: Seq<char>, op: OperationView)
    ensures
        render_table(ops.insert((path, HttpMethod::Connect), op)) == render_table(ops),
        render_table(ops.remove((path, HttpMethod::Connect))) == render_table(ops),
{
    lemma_render_insert(ops, path, HttpMethod::Connect, op);
    if ops.contains_key((path, HttpMethod::Connect)) {
        let less = ops.remove((path, HttpMethod::Connect));
        lemma_render_insert(less, path, HttpMethod::Connect, ops[(path, HttpMethod::Connect)]);
        assert(less.insert((path, HttpMethod::Connect), ops[(path, HttpMethod::Connect)]) =~= ops);
    } else {
        assert(ops.remove((path, HttpMethod::Connect)) =~= ops);
    }
}

/// No path of a rendered table has all its slots unset.
pub open spec fn no_empty_item(table: RouteTable) -> bool {
    forall|path: Seq<char>| #[trigger]
        table.contains_key(path) ==> table[path] != PathItemView::empty()
}

/// A rendered table has no path with all its slots unset.
pub proof fn lemma_rendered_has_no_empty_item(ops: Registered)
    ensures
        no_empty_item(render_table(ops)),
{
    assert forall|path: Seq<char>| #[trigger]
        render_table(ops).contains_key(path) implies render_table(ops)[path]
        != PathItemView::empty() by {
        let m = choose|m: HttpMethod| m.has_slot() && #[trigger] ops.contains_key((path, m));
        assert(render_table(ops)[path].slot(m) is Some);
        assert(PathItemView::empty().slot(m) is None);
    }
}

/// A slot as it is after it was taken in.
pub open spec fn ingested_slot(slot: Option<OperationView>) -> Option<OperationView> {
    match slot {
        Some(op) => Some(ingested(op)),
        None => None,
    }
}

/// The slots of a path as they are after they were taken in.
pub open spec fn ingested_item(item: PathItemView) -> PathItemView {
    PathItemView {
        get: ingested_slot(item.get),
        put: ingested_slot(item.put),
        post: ingested_slot(item.post),
        delete: ingested_slot(item.delete),
        options: ingested_slot(item.options),
        head: ingested_slot(item.head),
        patch: ingested_slot(item.patch),
        trace: ingested_slot(item.trace),
    }
}

/// A slot without the extensions that taking in strips.
pub open spec fn stripped_slot(slot: Option<OperationView>) -> Option<OperationView> {
    match slot {
        Some(op) => Some(stripped(op)),
        None => None,
    }
}

/// The slots of a path without the extensions that taking in strips.
pub open spec fn stripped_item(item: PathItemView) -> PathItemView {
    PathItemView {
        get: stripped_slot(item.get),
        put: stripped_slot(item.put),
        post: stripped_slot(item.post),
        delete: stripped_slot(item.delete),
        options: stripped_slot(item.options),
        head: stripped_slot(item.head),
        patch: stripped_slot(item.patch),
        trace: stripped_slot(item.trace),
    }
}

/// A table without the extensions that taking in strips.
pub open spec fn stripped_table(table: RouteTable) -> RouteTable {
    table.map_values(|item: PathItemView| stripped_item(item))
}

/// Taking a table in and rendering it again gives the paths that have a set
/// slot, each with its operations as they are taken in.
pub proof fn lemma_ingest_then_render(table: RouteTable)
    ensures
        render_table(ingest_table(table)) == Map::new(
            |path: Seq<char>| table.contains_key(path) && table[path] != PathItemView::empty(),
            |path: Seq<char>| ingested_item(table[path]),
        ),
{
    let ops = ingest_table(table);
    let back = render_table(ops);
    let target = Map::new(
        |path: Seq<char>| table.contains_key(path) && table[path] != PathItemView::empty(),
        |path: Seq<char>| ingested_item(table[path]),
    );
    assert forall|path: Seq<char>| back.contains_key(path) implies target.contains_key(path) by {
        let m = choose|m: HttpMethod| m.has_slot() && #[trigger] ops.contains_key((path, m));
        assert(table[path].slot(m) is Some);
        assert(PathItemView::empty().slot(m) is None);
    }
    assert forall|path: Seq<char>| target.contains_key(path) implies back.contains_key(path) by {
        let item = table[path];
        let m = if item.get is Some {
            HttpMethod::Get
        } else if item.put is Some {
            HttpMethod::Put
        } else if item.post is Some {
            HttpMethod::Post
        } else if item.delete is Some {
            HttpMethod::Delete
        } else if item.options is Some {
            HttpMethod::Options
        } else if item.head is Some {
            HttpMethod::Head
        } else if item.patch is Some {
            HttpMethod::Patch
        } else {
            HttpMethod::Trace
        };
        assert(item.slot(m) is Some);
        assert(ops.contains_key((path, m)));
    }
    assert forall|path: Seq<char>| back.contains_key(path) implies back[path] == target[path] by {
        assert forall|m: HttpMethod| m.has_slot() implies slot_of(ops, path, m) == ingested_slot(
            table[path].slot(m),
        ) by {}
    }
    assert(back =~= target);
}

/// Taking in a table that was rendered and rendering it again gives the
/// same table, but for the extensions that taking in strips.
pub proof fn lemma_round_trip(table: RouteTable)
    requires
        no_empty_item(table),
        settled_table(table),
    ensures
        render_table(ingest_table(table)) == stripped_table(table),
{
    lemma_ingest_then_render(table);
    let back = render_table(ingest_table(table));
    let target = stripped_table(table);
    assert forall|path: Seq<char>| back.contains_key(path) implies back[path] == target[path] by {
        let item = table[path];
        assert forall|m: HttpMethod| m.has_slot() implies ingested_slot(#[trigger] item.slot(m))
            == stripped_slot(item.slot(m)) by {
            if let Some(op) = item.slot(m) {
                assert(settled(op));
            }
        }
        assert(ingested_slot(item.slot(HttpMethod::Get)) == stripped_slot(item.get));
        assert(ingested_slot(item.slot(HttpMethod::Put)) == stripped_slot(item.put));
        assert(ingested_slot(item.slot(HttpMethod::Post)) == stripped_slot(item.post));
        assert(ingested_slot(item.slot(HttpMethod::Delete)) == stripped_slot(item.delete));
        assert(ingested_slot(item.slot(HttpMethod::Options)) == stripped_slot(item.options));
        assert(ingested_slot(item.slot(HttpMethod::Head)) == stripped_slot(item.head));
        assert(ingested_slot(item.slot(HttpMethod::Patch)) == stripped_slot(item.patch));
        assert(ingested_slot(item.slot(HttpMethod::Trace)) == stripped_slot(item.trace));
    }
    assert(back =~= target);
}

/// Rendering a registry, taking the table in and rendering again gives the
/// table of the first rendering, but for the extensions that taking in strips.
pub proof fn lemma_round_trip_of_rendered(ops: Registered)
    requires
        forall|k: RouteId| #[trigger] ops.contains_key(k) ==> settled(ops[k]),
    ensures
        render_table(ingest_table(render_table(ops))) == stripped_table(render_table(ops)),
{
    lemma_rendered_has_no_empty_item(ops);
    assert forall|path: Seq<char>, method: HttpMethod|
        render_table(ops).contains_key(path) && (#[trigger] render_table(ops)[path].slot(method))
            is Some implies settled(render_table(ops)[path].slot(method)->0) by {
        assert(ops.contains_key((path, method)));
    }
    lemma_round_trip(render_table(ops));
}

} // verus!
