//! The registry of operations: it takes one operation for each pair of path
//! and verb, refuses a second one, and renders what it holds as the table of
//! paths with their method slots.

use vstd::prelude::*;

use crate::ingest::{
    entry_of, infos_view, ingest_table, lemma_populated_ranked, lemma_register_all_keys,
    lemma_register_slots, populated_slots, ranked_below, register_all, slot_entry,
    strip_extensions,
};
use crate::keyed::{Key, KeyedMap};
use crate::record::{opt_view, HttpMethod, Operation, OperationView, PathItem, PathItemView, RefOr};
use crate::text::{
    collapse_pairs, collapse_pairs_char, lemma_collapse_keeps_front,
    lemma_collapse_leaves_no_pair, lemma_collapse_without_pair, lemma_trim_start_done, trim_start,
    trim_start_char,
};
use crate::securityscheme::SecurityScheme;
use schemars::schema::SchemaObject;

verus! {

/// What identifies a registration: the URL of the path and the verb.
pub type RouteId = (Seq<char>, HttpMethod);

/// The operations of a registry, each under its path and verb.
pub type Registered = Map<RouteId, OperationView>;

/// The rendered table: the method slots of each path.
pub type RouteTable = Map<Seq<char>, PathItemView>;

/// The key of a registration.
#[derive(Debug, PartialEq, Eq)]
pub struct RouteKey {
    pub path: String,
    pub method: HttpMethod,
}

impl Key for RouteKey {
    type Id = RouteId;

    open spec fn id(&self) -> RouteId {
        (self.path@, self.method)
    }

    fn same(&self, other: &Self) -> (b: bool) {
        self.path == other.path && self.method == other.method
    }
}

/// One operation with the path and the verb under which it is to be registered.
#[derive(Debug, PartialEq)]
pub struct OperationInfo {
    pub path: String,
    pub method: HttpMethod,
    pub operation: Operation,
}

/// A registration that was refused because its path and verb are taken.
#[derive(Debug, PartialEq, Eq)]
pub struct Collision {
    pub path: String,
    pub method: HttpMethod,
}

/// How a refused registration is reported: with the verb and the path.
pub open spec fn collision_message(path: Seq<char>, method: HttpMethod) -> Seq<char> {
    "An OpenAPI operation has already been added for "@ + method.name() + " "@ + path
}

impl Collision {
    /// The report of the collision, for whoever registered the route twice.
    pub fn message(&self) -> (s: String)
        ensures
            s@ == collision_message(self.path@, self.method),
    {
        let mut s = String::from_str("An OpenAPI operation has already been added for ");
        s.append(self.method.as_str());
        s.append(" ");
        s.append(self.path.as_str());
        s
    }
}

/// An identifier as the registry keeps it: without leading `:`, and with `_`
/// in place of each `::`.
pub open spec fn normalize_operation_id(id: Seq<char>) -> Seq<char> {
    collapse_pairs(trim_start(id, ':'), ':', '_')
}

/// An operation as the registry keeps it: with its identifier normalized.
pub open spec fn normalized(op: OperationView) -> OperationView {
    OperationView {
        operation_id: match op.operation_id {
            Some(id) => Some(normalize_operation_id(id)),
            None => None,
        },
        ..op
    }
}

/// The registry would keep the operation as it is.
pub open spec fn settled(op: OperationView) -> bool {
    normalized(op) == op
}

/// Every operation of the table is as the registry would keep it.
pub open spec fn settled_table(table: RouteTable) -> bool {
    forall|path: Seq<char>, method: HttpMethod|
        table.contains_key(path) && (#[trigger] table[path].slot(method)) is Some ==> settled(
            table[path].slot(method)->0,
        )
}

/// Normalizing an identifier a second time changes nothing.
pub proof fn lemma_normalize_idempotent(id: Seq<char>)
    ensures
        normalize_operation_id(normalize_operation_id(id)) == normalize_operation_id(id),
{
    let trimmed = trim_start(id, ':');
    let kept = collapse_pairs(trimmed, ':', '_');
    lemma_trim_start_done(id, ':');
    lemma_collapse_keeps_front(trimmed, ':', '_');
    lemma_collapse_leaves_no_pair(trimmed, ':', '_');
    lemma_collapse_without_pair(kept, ':', '_');
}

/// What the registry keeps, it would keep as it is.
pub proof fn lemma_normalized_settled(op: OperationView)
    ensures
        settled(normalized(op)),
{
    if let Some(id) = op.operation_id {
        lemma_normalize_idempotent(id);
    }
}

/// What `ops` holds for `path` and `method`.
pub open spec fn slot_of(ops: Registered, path: Seq<char>, method: HttpMethod) -> Option<
    OperationView,
> {
    if ops.contains_key((path, method)) {
        Some(ops[(path, method)])
    } else {
        None
    }
}

/// The method slots of `path`, filled from `ops`.
pub open spec fn item_of(ops: Registered, path: Seq<char>) -> PathItemView {
    PathItemView {
        get: slot_of(ops, path, HttpMethod::Get),
        put: slot_of(ops, path, HttpMethod::Put),
        post: slot_of(ops, path, HttpMethod::Post),
        delete: slot_of(ops, path, HttpMethod::Delete),
        options: slot_of(ops, path, HttpMethod::Options),
        head: slot_of(ops, path, HttpMethod::Head),
        patch: slot_of(ops, path, HttpMethod::Patch),
        trace: slot_of(ops, path, HttpMethod::Trace),
    }
}

/// The table that `ops` renders to: a path is in it when `ops` holds an
/// operation for it under a verb that has a slot, and each slot holds the
/// operation registered for its verb.
pub open spec fn render_table(ops: Registered) -> RouteTable {
    Map::new(
        |path: Seq<char>|
            exists|m: HttpMethod| m.has_slot() && #[trigger] ops.contains_key((path, m)),
        |path: Seq<char>| item_of(ops, path),
    )
}

/// The views of the operations of a map.
pub open spec fn operation_views<K>(ops: Map<K, Operation>) -> Map<K, OperationView> {
    ops.map_values(|op: Operation| op@)
}

/// The views of the tables of a map.
pub open spec fn table_view(paths: Map<Seq<char>, PathItem>) -> RouteTable {
    paths.map_values(|item: PathItem| item@)
}

/// The slots of `path` in `table`, all unset where the table lacks the path.
pub open spec fn item_or_empty(table: RouteTable, path: Seq<char>) -> PathItemView {
    if table.contains_key(path) {
        table[path]
    } else {
        PathItemView::empty()
    }
}

/// One more registration sets one slot of the rendered table, or none if its
/// verb has no slot.
pub proof fn lemma_render_insert(
    ops: Registered,
    path: Seq<char>,
    method: HttpMethod,
    op: OperationView,
)
    ensures
        render_table(ops.insert((path, method), op)) == if method.has_slot() {
            render_table(ops).insert(
                path,
                item_or_empty(render_table(ops), path).with_slot(method, op),
            )
        } else {
            render_table(ops)
        },
{
    let more = ops.insert((path, method), op);
    let before = render_table(ops);
    let after = render_table(more);
    assert forall|q: Seq<char>, m: HttpMethod|
        slot_of(more, q, m) == if q == path && m == method {
            Some(op)
        } else {
            slot_of(ops, q, m)
        } by {}
    assert forall|q: Seq<char>| before.contains_key(q) implies after.contains_key(q) by {
        let m = choose|m: HttpMethod| m.has_slot() && #[trigger] ops.contains_key((q, m));
        assert(more.contains_key((q, m)));
    }
    if method.has_slot() {
        let item = item_or_empty(before, path).with_slot(method, op);
        let target = before.insert(path, item);
        assert(more.contains_key((path, method)));
        assert(after.contains_key(path));
        assert forall|q: Seq<char>| after.contains_key(q) implies target.contains_key(q) by {
            if q != path {
                let m = choose|m: HttpMethod| m.has_slot() && #[trigger] more.contains_key((q, m));
                assert(ops.contains_key((q, m)));
            }
        }
        if !before.contains_key(path) {
            assert forall|m: HttpMethod| m.has_slot() implies slot_of(ops, path, m) is None by {
                if ops.contains_key((path, m)) {
                    assert(before.contains_key(path));
                }
            }
        }
        assert(after[path] == item);
        assert(after =~= target);
    } else {
        assert forall|q: Seq<char>| after.contains_key(q) implies before.contains_key(q) by {
            let m = choose|m: HttpMethod| m.has_slot() && #[trigger] more.contains_key((q, m));
            assert(ops.contains_key((q, m)));
        }
        assert forall|q: Seq<char>| after.contains_key(q) implies after[q] == before[q] by {}
        assert(after =~= before);
    }
}

/// The identifier as the registry keeps it.
pub fn normalize_id(id: &str) -> (r: String)
    ensures
        r@ == normalize_operation_id(id@),
{
    let trimmed = trim_start_char(id, ':');
    collapse_pairs_char(trimmed.as_str(), ':', '_')
}

/// The operation as the registry keeps it.
pub fn normalize(op: Operation) -> (r: Operation)
    ensures
        r@ == normalized(op@),
{
    let Operation { operation_id, description, responses, request_body, parameters, extensions } =
        op;
    let operation_id = match operation_id {
        Some(id) => Some(normalize_id(id.as_str())),
        None => None,
    };
    Operation { operation_id, description, responses, request_body, parameters, extensions }
}

/// What a document says of the API as a whole.
#[derive(Debug, PartialEq, Eq)]
pub struct Info {
    /// The version of the API.
    pub version: String,
}

/// The security schemes of which a client must meet all, each by its name
/// with the scopes it needs.
pub type SecurityRequirement = Vec<(String, Vec<String>)>;

/// What a document holds beside its paths and schema definitions. The
/// registry keeps it and hands it on as it is.
#[derive(Debug, PartialEq)]
pub struct Passthrough {
    pub info: Info,
    pub security_schemes: Vec<(String, RefOr<SecurityScheme>)>,
    pub security: Vec<SecurityRequirement>,
}

/// The rendered document: its format tag, the table of paths, the named
/// schema definitions, and the rest.
#[derive(Debug)]
pub struct OpenApi {
    pub openapi: String,
    pub paths: KeyedMap<String, PathItem>,
    pub schemas: KeyedMap<String, SchemaObject>,
    pub rest: Passthrough,
}

/// The registry. It is made empty, grows by registrations, and is used up
/// when it is rendered.
#[derive(Debug)]
pub struct OpenApiGenerator {
    operations: KeyedMap<RouteKey, Operation>,
    definitions: KeyedMap<String, SchemaObject>,
    rest: Passthrough,
}

impl View for OpenApiGenerator {
    type V = Registered;

    closed spec fn view(&self) -> Registered {
        operation_views(self.operations@)
    }
}

impl OpenApiGenerator {
    #[verifier::type_invariant]
    spec fn wf(&self) -> bool {
        forall|k: RouteId| #[trigger]
            self.operations@.contains_key(k) ==> settled(self.operations@[k]@)
    }

    /// The named schema definitions that the registry holds.
    pub closed spec fn definitions(&self) -> Map<Seq<char>, SchemaObject> {
        self.definitions@
    }

    /// What the registry hands on as it is.
    pub closed spec fn rest(&self) -> Passthrough {
        self.rest
    }

    /// The empty registry.
    pub fn new() -> (g: Self)
        ensures
            g@ == Registered::empty(),
            g.definitions() == Map::<Seq<char>, SchemaObject>::empty(),
            g.rest().info.version@ == Seq::<char>::empty(),
            g.rest().security_schemes@.len() == 0,
            g.rest().security@.len() == 0,
    {
        let rest = Passthrough {
            info: Info { version: String::new() },
            security_schemes: Vec::new(),
            security: Vec::new(),
        };
        let g = OpenApiGenerator {
            operations: KeyedMap::new(),
            definitions: KeyedMap::new(),
            rest,
        };
        proof {
            assert(g@ =~= Registered::empty());
        }
        g
    }

    /// Whether an operation is registered for `path` and `method`.
    pub fn contains(&self, path: &str, method: HttpMethod) -> (b: bool)
        ensures
            b == self@.contains_key((path@, method)),
    {
        let key = RouteKey { path: path.to_owned(), method };
        self.operations.contains_key(&key)
    }

    /// Registers `op` under its path and verb, with its identifier
    /// normalized. The pair of path and verb must be free.
    pub fn add_operation(&mut self, op: OperationInfo)
        requires
            !old(self)@.contains_key((op.path@, op.method)),
        ensures
            final(self)@ == old(self)@.insert((op.path@, op.method), normalized(op.operation@)),
            final(self).definitions() == old(self).definitions(),
            final(self).rest() == old(self).rest(),
    {
        let OperationInfo { path, method, operation } = op;
        let operation = normalize(operation);
        let key = RouteKey { path, method };
        proof {
            use_type_invariant(&*self);
            lemma_normalized_settled(op.operation@);
            assert(operation_views(self.operations@.insert(key.id(), operation)) =~= operation_views(
                self.operations@,
            ).insert(key.id(), operation@));
        }
        let mut operations: KeyedMap<RouteKey, Operation> = KeyedMap::new();
        core::mem::swap(&mut self.operations, &mut operations);
        operations.insert(key, operation);
        self.operations = operations;
    }

    /// Registers `op` as `add_operation` does if its path and verb are free.
    /// If they are taken, leaves the registry as it is and reports them.
    pub fn try_add_operation(&mut self, op: OperationInfo) -> (r: Result<(), Collision>)
        ensures
            r is Err <==> old(self)@.contains_key((op.path@, op.method)),
            r is Ok ==> final(self)@ == old(self)@.insert(
                (op.path@, op.method),
                normalized(op.operation@),
            ),
            r matches Err(c) ==> final(self)@ == old(self)@ && c.path@ == op.path@ && c.method
                == op.method,
            final(self).definitions() == old(self).definitions(),
            final(self).rest() == old(self).rest(),
    {
        if self.contains(op.path.as_str(), op.method) {
            Err(Collision { path: op.path, method: op.method })
        } else {
            self.add_operation(op);
            Ok(())
        }
    }

    /// Keeps `schema` under `name`, in place of what was kept under that name.
    pub fn add_definition(&mut self, name: String, schema: SchemaObject)
        ensures
            final(self)@ == old(self)@,
            final(self).definitions() == old(self).definitions().insert(name@, schema),
            final(self).rest() == old(self).rest(),
    {
        proof {
            use_type_invariant(&*self);
        }
        let mut definitions: KeyedMap<String, SchemaObject> = KeyedMap::new();
        core::mem::swap(&mut self.definitions, &mut definitions);
        definitions.insert(name, schema);
        self.definitions = definitions;
    }

    /// Puts `op` into the slot of `method`, which must be unset. A verb
    /// without a slot leaves the table as it is.
    pub fn add_operation_to_path_item(path_item: &mut PathItem, method: &HttpMethod, op: Operation)
        requires
            old(path_item)@.slot(*method) is None,
        ensures
            final(path_item)@ == old(path_item)@.with_slot(*method, op@),
    {
        match method {
            HttpMethod::Get => {
                path_item.get = Some(op);
            },
            HttpMethod::Put => {
                path_item.put = Some(op);
            },
            HttpMethod::Post => {
                path_item.post = Some(op);
            },
            HttpMethod::Delete => {
                path_item.delete = Some(op);
            },
            HttpMethod::Options => {
                path_item.options = Some(op);
            },
            HttpMethod::Head => {
                path_item.head = Some(op);
            },
            HttpMethod::Patch => {
                path_item.patch = Some(op);
            },
            HttpMethod::Trace => {
                path_item.trace = Some(op);
            },
            HttpMethod::Connect => {},
        }
    }

    /// Renders the registry: each path with the operations registered for
    /// it, each in the slot of its verb, and the schema definitions beside
    /// them. An operation under CONNECT is left out.
    pub fn into_openapi(self) -> (doc: OpenApi)
        ensures
            doc.openapi@ == "3.0.0"@,
            table_view(doc.paths@) == render_table(self@),
            settled_table(table_view(doc.paths@)),
            doc.schemas@ == self.definitions(),
            doc.rest == self.rest(),
    {
        let ghost all = self@;
        proof {
            use_type_invariant(&self);
            assert forall|path: Seq<char>, method: HttpMethod|
                render_table(all).contains_key(path) && (#[trigger] render_table(all)[path].slot(
                    method,
                )) is Some implies settled(render_table(all)[path].slot(method)->0) by {
                assert(self.operations@.contains_key((path, method)));
            }
        }
        let mut operations = self.operations;
        let mut paths: KeyedMap<String, PathItem> = KeyedMap::new();
        let ghost mut done: Registered = Map::empty();
        proof {
            assert(table_view(paths@) =~= render_table(done));
        }
        while !operations.is_empty()
            invariant
                forall|k: RouteId|
                    #[trigger] all.contains_key(k) <==> operations@.contains_key(k)
                        || done.contains_key(k),
                forall|k: RouteId| #[trigger]
                    operations@.contains_key(k) ==> !done.contains_key(k) && all[k]
                        == operations@[k]@,
                forall|k: RouteId| #[trigger] done.contains_key(k) ==> all[k] == done[k],
                table_view(paths@) == render_table(done),
            decreases operations@.len(),
        {
            let ghost left = operations@;
            match operations.pop() {
                Some((key, op)) => {
                    let ghost table = table_view(paths@);
                    proof {
                        lemma_render_insert(done, key.path@, key.method, op@);
                    }
                    if key.method.is_supported() {
                        let mut item = match paths.remove(&key.path) {
                            Some(i) => i,
                            None => PathItem::default(),
                        };
                        proof {
                            assert(item@ == item_or_empty(table, key.path@));
                            assert(slot_of(done, key.path@, key.method) is None);
                            if table.contains_key(key.path@) {
                                assert(table[key.path@] == item_of(done, key.path@));
                            }
                        }
                        Self::add_operation_to_path_item(&mut item, &key.method, op);
                        paths.insert(key.path, item);
                        proof {
                            assert(table_view(paths@) =~= table.insert(key.path@, item@));
                        }
                    }
                    proof {
                        assert(left.contains_key(key.id()) && left[key.id()] == op);
                        assert(operations@ == left.remove(key.id()));
                        assert forall|k: RouteId| operations@.contains_key(k) implies !done.insert(
                            key.id(),
                            op@,
                        ).contains_key(k) && all[k] == operations@[k]@ by {
                            assert(left.contains_key(k));
                        }
                        done = done.insert(key.id(), op@);
                    }
                },
                None => {},
            }
        }
        proof {
            assert(done =~= all);
        }
        OpenApi {
            openapi: String::from_str("3.0.0"),
            paths,
            schemas: self.definitions,
            rest: self.rest,
        }
    }
}

impl OpenApiGenerator {
    /// Puts the slot under `path` and `method` at the end of `infos`, if it is set.
    fn push_slot(
        infos: &mut Vec<OperationInfo>,
        path: &String,
        method: HttpMethod,
        slot: Option<Operation>,
    )
        ensures
            infos_view(final(infos)@) == infos_view(old(infos)@) + entry_of(
                path@,
                method,
                opt_view(slot),
            ),
    {
        if let Some(operation) = slot {
            infos.push(OperationInfo { path: path.clone(), method, operation });
        }
        proof {
            assert(infos_view(infos@) =~= infos_view(old(infos)@) + entry_of(
                path@,
                method,
                opt_view(slot),
            ));
        }
    }

    /// The set slots of `path_item` as registrations under `path`, in the
    /// order GET, PUT, POST, DELETE, OPTIONS, HEAD, PATCH, TRACE.
    pub fn get_operation_infos_from_path_item(path: String, path_item: PathItem) -> (infos: Vec<
        OperationInfo,
    >)
        ensures
            infos_view(infos@) == populated_slots(path@, path_item@),
    {
        let ghost item = path_item@;
        let PathItem { get, put, post, delete, options, head, patch, trace } = path_item;
        let mut infos: Vec<OperationInfo> = Vec::new();
        proof {
            assert(infos_view(infos@) =~= Seq::empty());
        }
        Self::push_slot(&mut infos, &path, HttpMethod::Get, get);
        proof {
            assert(infos_view(infos@) =~= slot_entry(path@, item, HttpMethod::Get));
        }
        Self::push_slot(&mut infos, &path, HttpMethod::Put, put);
        Self::push_slot(&mut infos, &path, HttpMethod::Post, post);
        Self::push_slot(&mut infos, &path, HttpMethod::Delete, delete);
        Self::push_slot(&mut infos, &path, HttpMethod::Options, options);
        Self::push_slot(&mut infos, &path, HttpMethod::Head, head);
        Self::push_slot(&mut infos, &path, HttpMethod::Patch, patch);
        Self::push_slot(&mut infos, &path, HttpMethod::Trace, trace);
        infos
    }

    /// The registry that holds what a rendered document holds: one
    /// registration for each set slot of each path, without the extensions of
    /// its responses and of its parameters, and the schema definitions.
    pub fn from_openapi(openapi: OpenApi) -> (g: Self)
        ensures
            g@ == ingest_table(table_view(openapi.paths@)),
            g.definitions() == openapi.schemas@,
            g.rest() == openapi.rest,
    {
        let OpenApi { openapi: _, paths, schemas, rest } = openapi;
        let ghost whole = table_view(paths@);
        let mut paths = paths;
        let mut g = OpenApiGenerator { operations: KeyedMap::new(), definitions: schemas, rest };
        let ghost mut seen: RouteTable = Map::empty();
        proof {
            assert(g@ =~= ingest_table(seen));
        }
        while !paths.is_empty()
            invariant
                forall|p: Seq<char>| #[trigger]
                    whole.contains_key(p) <==> paths@.contains_key(p) || seen.contains_key(p),
                forall|p: Seq<char>| #[trigger]
                    paths@.contains_key(p) ==> !seen.contains_key(p) && whole[p] == paths@[p]@,
                forall|p: Seq<char>| #[trigger] seen.contains_key(p) ==> whole[p] == seen[p],
                g@ == ingest_table(seen),
                g.definitions() == schemas@,
                g.rest() == rest,
            decreases paths@.len(),
        {
            let ghost left = paths@;
            match paths.pop() {
                Some((path, item)) => {
                    let ghost base = g@;
                    let ghost slots = populated_slots(path@, item@);
                    let infos = Self::get_operation_infos_from_path_item(path, item);
                    proof {
                        lemma_populated_ranked(path@, item@);
                        assert(register_all(base, slots.take(0)) == base);
                    }
                    for info in it: infos
                        invariant
                            infos_view(it.seq()) == slots,
                            ranked_below(slots, path@, item@, 8),
                            !seen.contains_key(path@),
                            base == ingest_table(seen),
                            g@ == register_all(base, slots.take(it.index() as int)),
                            g.definitions() == schemas@,
                            g.rest() == rest,
                    {
                        let ghost i = it.index() as int;
                        let ghost key = (info.path@, info.method);
                        proof {
                            assert(slots[i] == (key, info.operation@));
                            if g@.contains_key(key) {
                                lemma_register_all_keys(base, slots.take(i), key);
                                let j = choose|j: int|
                                    0 <= j < slots.take(i).len() && (#[trigger] slots.take(i)[j]).0
                                        == key;
                                assert(slots[j].0 == slots[i].0);
                            }
                            assert(slots.take(i + 1).drop_last() =~= slots.take(i));
                        }
                        let OperationInfo { path: p, method, operation } = info;
                        let operation = strip_extensions(operation);
                        g.add_operation(OperationInfo { path: p, method, operation });
                    }
                    proof {
                        assert(slots.take(slots.len() as int) =~= slots);
                        lemma_register_slots(seen, path@, item@);
                        assert(left.contains_key(path@) && left[path@] == item);
                        assert forall|p: Seq<char>| #[trigger]
                            paths@.contains_key(p) implies !seen.insert(
                            path@,
                            item@,
                        ).contains_key(p) && whole[p] == paths@[p]@ by {
                            assert(left.contains_key(p));
                        }
                        seen = seen.insert(path@, item@);
                    }
                },
                None => {},
            }
        }
        proof {
            assert(seen =~= whole);
        }
        g
    }
}

} // verus!
