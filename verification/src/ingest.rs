//! Taking a rendered table in again: each set slot of each path becomes a
//! registration, without the extensions that a rendered document cannot
//! carry back.

use vstd::prelude::*;

use crate::generator::{normalized, OperationInfo, Registered, RouteId, RouteTable};
use crate::payload::named;
use crate::record::{
    views, HttpMethod, Operation, OperationView, Parameter, ParameterView, PathItemView, RefOr,
    RefOrView, Responses, ResponsesView,
};

verus! {

/// A parameter as it is taken in from a rendered table: without its extensions.
pub open spec fn stripped_parameter(p: RefOrView<ParameterView>) -> RefOrView<ParameterView> {
    match p {
        RefOrView::Object(o) => RefOrView::Object(ParameterView { extensions: Seq::empty(), ..o }),
        RefOrView::Ref(r) => RefOrView::Ref(r),
    }
}

/// An operation as it is taken in from a rendered table: without the
/// extensions of its responses and of its parameters.
pub open spec fn stripped(op: OperationView) -> OperationView {
    OperationView {
        responses: ResponsesView { extensions: Seq::empty(), ..op.responses },
        parameters: op.parameters.map_values(|p: RefOrView<ParameterView>| stripped_parameter(p)),
        ..op
    }
}

/// The registration that a slot of a rendered table gives.
pub open spec fn ingested(op: OperationView) -> OperationView {
    normalized(stripped(op))
}

/// A slot as a list: the operation under its path and verb, or nothing.
pub open spec fn entry_of(path: Seq<char>, method: HttpMethod, slot: Option<OperationView>) -> Seq<
    (RouteId, OperationView),
> {
    match slot {
        Some(op) => seq![((path, method), op)],
        None => Seq::empty(),
    }
}

/// The slot of `method` in `item` as a list.
pub open spec fn slot_entry(path: Seq<char>, item: PathItemView, method: HttpMethod) -> Seq<
    (RouteId, OperationView),
> {
    entry_of(path, method, item.slot(method))
}

/// The set slots of a table, in the order GET, PUT, POST, DELETE, OPTIONS,
/// HEAD, PATCH, TRACE.
pub open spec fn populated_slots(path: Seq<char>, item: PathItemView) -> Seq<
    (RouteId, OperationView),
> {
    slot_entry(path, item, HttpMethod::Get) + slot_entry(path, item, HttpMethod::Put) + slot_entry(
        path,
        item,
        HttpMethod::Post,
    ) + slot_entry(path, item, HttpMethod::Delete) + slot_entry(path, item, HttpMethod::Options)
        + slot_entry(path, item, HttpMethod::Head) + slot_entry(path, item, HttpMethod::Patch)
        + slot_entry(path, item, HttpMethod::Trace)
}

/// The views of a list of operations with their paths and verbs.
pub open spec fn infos_view(infos: Seq<OperationInfo>) -> Seq<(RouteId, OperationView)> {
    infos.map_values(|i: OperationInfo| ((i.path@, i.method), i.operation@))
}

/// The registry that a rendered table gives: one registration for each set
/// slot of each path.
pub open spec fn ingest_table(table: RouteTable) -> Registered {
    Map::new(
        |k: RouteId| table.contains_key(k.0) && table[k.0].slot(k.1) is Some,
        |k: RouteId| ingested(table[k.0].slot(k.1)->0),
    )
}

/// `base` after the entries were taken in one after the other.
pub open spec fn register_all(base: Registered, entries: Seq<(RouteId, OperationView)>) -> Registered
    decreases entries.len(),
{
    if entries.len() == 0 {
        base
    } else {
        register_all(base, entries.drop_last()).insert(
            entries.last().0,
            ingested(entries.last().1),
        )
    }
}

/// `reg` after the slot of `method` was taken in.
pub open spec fn with_entry(
    reg: Registered,
    path: Seq<char>,
    method: HttpMethod,
    slot: Option<OperationView>,
) -> Registered {
    match slot {
        Some(op) => reg.insert((path, method), ingested(op)),
        None => reg,
    }
}

/// The place of a verb in the order of the slots.
pub open spec fn rank(method: HttpMethod) -> int {
    match method {
        HttpMethod::Get => 0,
        HttpMethod::Put => 1,
        HttpMethod::Post => 2,
        HttpMethod::Delete => 3,
        HttpMethod::Options => 4,
        HttpMethod::Head => 5,
        HttpMethod::Patch => 6,
        HttpMethod::Trace => 7,
        HttpMethod::Connect => 8,
    }
}

/// The entries are set slots of `item` under `path`, in the order of the
/// slots, all before the place `bound`.
pub open spec fn ranked_below(
    entries: Seq<(RouteId, OperationView)>,
    path: Seq<char>,
    item: PathItemView,
    bound: int,
) -> bool {
    &&& forall|i: int|
        0 <= i < entries.len() ==> (#[trigger] entries[i]).0.0 == path && rank(entries[i].0.1)
            < bound && item.slot(entries[i].0.1) == Some(entries[i].1)
    &&& forall|i: int, j: int|
        0 <= i < j < entries.len() ==> rank((#[trigger] entries[i]).0.1) < rank(
            (#[trigger] entries[j]).0.1,
        )
}

proof fn lemma_ranked_push(
    entries: Seq<(RouteId, OperationView)>,
    path: Seq<char>,
    item: PathItemView,
    method: HttpMethod,
)
    requires
        ranked_below(entries, path, item, rank(method)),
    ensures
        ranked_below(entries + slot_entry(path, item, method), path, item, rank(method) + 1),
{
    let more = entries + slot_entry(path, item, method);
    assert(forall|i: int| 0 <= i < entries.len() ==> more[i] == entries[i]);
}

/// The set slots of a table stand in the order of the slots, each once.
pub proof fn lemma_populated_ranked(path: Seq<char>, item: PathItemView)
    ensures
        ranked_below(populated_slots(path, item), path, item, 8),
{
    let e0 = Seq::<(RouteId, OperationView)>::empty();
    let e1 = e0 + slot_entry(path, item, HttpMethod::Get);
    let e2 = e1 + slot_entry(path, item, HttpMethod::Put);
    let e3 = e2 + slot_entry(path, item, HttpMethod::Post);
    let e4 = e3 + slot_entry(path, item, HttpMethod::Delete);
    let e5 = e4 + slot_entry(path, item, HttpMethod::Options);
    let e6 = e5 + slot_entry(path, item, HttpMethod::Head);
    let e7 = e6 + slot_entry(path, item, HttpMethod::Patch);
    let e8 = e7 + slot_entry(path, item, HttpMethod::Trace);
    lemma_ranked_push(e0, path, item, HttpMethod::Get);
    lemma_ranked_push(e1, path, item, HttpMethod::Put);
    lemma_ranked_push(e2, path, item, HttpMethod::Post);
    lemma_ranked_push(e3, path, item, HttpMethod::Delete);
    lemma_ranked_push(e4, path, item, HttpMethod::Options);
    lemma_ranked_push(e5, path, item, HttpMethod::Head);
    lemma_ranked_push(e6, path, item, HttpMethod::Patch);
    lemma_ranked_push(e7, path, item, HttpMethod::Trace);
    assert(e1 =~= slot_entry(path, item, HttpMethod::Get));
    assert(e8 == populated_slots(path, item));
}

/// Taking in the slot of one more verb.
proof fn lemma_register_push(
    base: Registered,
    entries: Seq<(RouteId, OperationView)>,
    path: Seq<char>,
    item: PathItemView,
    method: HttpMethod,
)
    ensures
        register_all(base, entries + slot_entry(path, item, method)) == with_entry(
            register_all(base, entries),
            path,
            method,
            item.slot(method),
        ),
{
    let more = entries + slot_entry(path, item, method);
    match item.slot(method) {
        Some(op) => {
            assert(more.drop_last() =~= entries);
            assert(more.last() == ((path, method), op));
        },
        None => {
            assert(more =~= entries);
        },
    }
}

/// A key of the registry after entries were taken in is a key it had before
/// or the key of one of the entries.
pub proof fn lemma_register_all_keys(
    base: Registered,
    entries: Seq<(RouteId, OperationView)>,
    k: RouteId,
)
    requires
        register_all(base, entries).contains_key(k),
    ensures
        base.contains_key(k) || exists|i: int|
            0 <= i < entries.len() && (#[trigger] entries[i]).0 == k,
    decreases entries.len(),
{
    if entries.len() > 0 {
        if entries.last().0 == k {
            assert(entries[entries.len() - 1].0 == k);
        } else {
            lemma_register_all_keys(base, entries.drop_last(), k);
            if !base.contains_key(k) {
                let i = choose|i: int|
                    0 <= i < entries.drop_last().len() && (#[trigger] entries.drop_last()[i]).0
                        == k;
                assert(entries[i].0 == k);
            }
        }
    }
}

/// `item` with the slot of `method` as `slot` has it, if it is set there.
pub open spec fn overlaid(item: PathItemView, method: HttpMethod, slot: Option<OperationView>) -> PathItemView {
    match slot {
        Some(op) => item.with_slot(method, op),
        None => item,
    }
}

/// Taking in one slot of a path is taking in the table with that slot set.
proof fn lemma_register_slot(
    seen: RouteTable,
    path: Seq<char>,
    item: PathItemView,
    method: HttpMethod,
    slot: Option<OperationView>,
)
    requires
        method.has_slot(),
    ensures
        with_entry(ingest_table(seen.insert(path, item)), path, method, slot) == ingest_table(
            seen.insert(path, overlaid(item, method, slot)),
        ),
{
    let before = seen.insert(path, item);
    let after = seen.insert(path, overlaid(item, method, slot));
    let lhs = with_entry(ingest_table(before), path, method, slot);
    let rhs = ingest_table(after);
    assert forall|k: RouteId| lhs.contains_key(k) <==> rhs.contains_key(k) by {
        if k.0 != path {
            assert(before[k.0] == after[k.0]);
        }
    }
    assert forall|k: RouteId| lhs.contains_key(k) implies lhs[k] == rhs[k] by {
        if k.0 != path {
            assert(before[k.0] == after[k.0]);
        }
    }
    assert(lhs =~= rhs);
}

/// Taking in the set slots of a path that the table lacks is taking in the
/// table with that path added.
pub proof fn lemma_register_slots(seen: RouteTable, path: Seq<char>, item: PathItemView)
    requires
        !seen.contains_key(path),
    ensures
        register_all(ingest_table(seen), populated_slots(path, item)) == ingest_table(
            seen.insert(path, item),
        ),
{
    let base = ingest_table(seen);
    let e0 = Seq::<(RouteId, OperationView)>::empty();
    let e1 = e0 + slot_entry(path, item, HttpMethod::Get);
    let e2 = e1 + slot_entry(path, item, HttpMethod::Put);
    let e3 = e2 + slot_entry(path, item, HttpMethod::Post);
    let e4 = e3 + slot_entry(path, item, HttpMethod::Delete);
    let e5 = e4 + slot_entry(path, item, HttpMethod::Options);
    let e6 = e5 + slot_entry(path, item, HttpMethod::Head);
    let e7 = e6 + slot_entry(path, item, HttpMethod::Patch);
    let e8 = e7 + slot_entry(path, item, HttpMethod::Trace);
    let i0 = PathItemView::empty();
    let i1 = overlaid(i0, HttpMethod::Get, item.get);
    let i2 = overlaid(i1, HttpMethod::Put, item.put);
    let i3 = overlaid(i2, HttpMethod::Post, item.post);
    let i4 = overlaid(i3, HttpMethod::Delete, item.delete);
    let i5 = overlaid(i4, HttpMethod::Options, item.options);
    let i6 = overlaid(i5, HttpMethod::Head, item.head);
    let i7 = overlaid(i6, HttpMethod::Patch, item.patch);
    let i8 = overlaid(i7, HttpMethod::Trace, item.trace);
    assert(register_all(base, e0) =~= ingest_table(seen.insert(path, i0)));
    lemma_register_push(base, e0, path, item, HttpMethod::Get);
    lemma_register_slot(seen, path, i0, HttpMethod::Get, item.get);
    lemma_register_push(base, e1, path, item, HttpMethod::Put);
    lemma_register_slot(seen, path, i1, HttpMethod::Put, item.put);
    lemma_register_push(base, e2, path, item, HttpMethod::Post);
    lemma_register_slot(seen, path, i2, HttpMethod::Post, item.post);
    lemma_register_push(base, e3, path, item, HttpMethod::Delete);
    lemma_register_slot(seen, path, i3, HttpMethod::Delete, item.delete);
    lemma_register_push(base, e4, path, item, HttpMethod::Options);
    lemma_register_slot(seen, path, i4, HttpMethod::Options, item.options);
    lemma_register_push(base, e5, path, item, HttpMethod::Head);
    lemma_register_slot(seen, path, i5, HttpMethod::Head, item.head);
    lemma_register_push(base, e6, path, item, HttpMethod::Patch);
    lemma_register_slot(seen, path, i6, HttpMethod::Patch, item.patch);
    lemma_register_push(base, e7, path, item, HttpMethod::Trace);
    lemma_register_slot(seen, path, i7, HttpMethod::Trace, item.trace);
    assert(e1 =~= slot_entry(path, item, HttpMethod::Get));
    assert(e8 == populated_slots(path, item));
    assert(i8 == item);
}

/// A parameter without its extensions.
pub fn strip_parameter(p: RefOr<Parameter>) -> (r: RefOr<Parameter>)
    ensures
        r@ == stripped_parameter(p@),
{
    match p {
        RefOr::Object(o) => {
            let Parameter {
                name,
                location,
                description,
                required,
                deprecated,
                allow_empty_value,
                style,
                explode,
                allow_reserved,
                schema,
                example,
                examples,
                extensions: _,
            } = o;
            let o = Parameter {
                name,
                location,
                description,
                required,
                deprecated,
                allow_empty_value,
                style,
                explode,
                allow_reserved,
                schema,
                example,
                examples,
                extensions: Vec::new(),
            };
            proof {
                assert(named(o.extensions@) =~= Seq::empty());
            }
            RefOr::Object(o)
        },
        RefOr::Ref(r) => RefOr::Ref(r),
    }
}

/// An operation without the extensions of its responses and of its parameters.
pub fn strip_extensions(op: Operation) -> (r: Operation)
    ensures
        r@ == stripped(op@),
{
    let Operation { operation_id, description, responses, request_body, parameters, extensions } =
        op;
    let Responses { responses: by_status, extensions: _ } = responses;
    let responses = Responses { responses: by_status, extensions: Vec::new() };
    proof {
        assert(named(responses.extensions@) =~= Seq::empty());
    }
    let ghost before = views(parameters@);
    let mut kept: Vec<RefOr<Parameter>> = Vec::new();
    for p in it: parameters
        invariant
            before == views(it.seq()),
            kept@.len() == it.index(),
            forall|i: int| 0 <= i < it.index() ==> kept@[i]@ == stripped_parameter(before[i]),
    {
        kept.push(strip_parameter(p));
    }
    proof {
        assert(views(kept@) =~= before.map_values(
            |p: RefOrView<ParameterView>| stripped_parameter(p),
        ));
    }
    Operation { operation_id, description, responses, request_body, parameters: kept, extensions }
}

} // verus!
