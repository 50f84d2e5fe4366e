//! When the URL of a path is well formed: it always begins with `/`, and it
//! holds `//` exactly when one of its segments brings it about.

use vstd::prelude::*;

use crate::apipath::{
    join_slash, lemma_join_push, opt_part, render_id, render_path, valid_path, ApiIdView, PathView,
};
use crate::text::{ends_with, starts_with};

verus! {

/// Two `/` stand next to each other somewhere in `s`.
pub open spec fn has_double_slash(s: Seq<char>) -> bool {
    exists|i: int| 0 <= i && i + 1 < s.len() && #[trigger] s[i] == '/' && s[i + 1] == '/'
}

/// The segments of a list of identifiers: collection, key, collection, key, ...
pub open spec fn id_segments(ids: Seq<ApiIdView>) -> Seq<Seq<char>>
    decreases ids.len(),
{
    if ids.len() == 0 {
        Seq::empty()
    } else {
        id_segments(ids.drop_last()).push(ids.last().document).push(ids.last().key)
    }
}

/// The texts that a path is made of, in the order in which they are written:
/// between any two of them the URL has one `/`.
pub open spec fn segments(p: PathView) -> Seq<Seq<char>> {
    opt_part(p.prefix) + id_segments(p.ids) + opt_part(p.token)
}

/// The segment at `i` brings a `//` into the URL: it holds one, it begins
/// with `/`, or it is not the last one and is empty or ends with `/`.
pub open spec fn segment_defect(parts: Seq<Seq<char>>, i: int) -> bool {
    ||| has_double_slash(parts[i])
    ||| starts_with(parts[i], '/')
    ||| (i + 1 < parts.len() && (parts[i].len() == 0 || ends_with(parts[i], '/')))
}

/// Some segment brings a `//` into the URL.
pub open spec fn slash_defect(parts: Seq<Seq<char>>) -> bool {
    exists|i: int| 0 <= i < parts.len() && #[trigger] segment_defect(parts, i)
}

/// `/` followed by the joined parts.
pub open spec fn rooted(parts: Seq<Seq<char>>) -> Seq<char> {
    seq!['/'] + join_slash(parts)
}

/// What stands before the `/` of the last part: nothing if it is the only part.
pub open spec fn before_last(parts: Seq<Seq<char>>) -> Seq<char> {
    if parts.len() == 0 {
        Seq::empty()
    } else {
        rooted(parts)
    }
}

/// Where the `//` of `a`, `/`, `x` written in a row can come from.
pub proof fn lemma_double_slash_across(a: Seq<char>, x: Seq<char>)
    ensures
        has_double_slash(a + seq!['/'] + x) <==> (has_double_slash(a) || ends_with(a, '/')
            || starts_with(x, '/') || has_double_slash(x)),
{
    let w = a + seq!['/'] + x;
    let n = a.len() as int;
    assert(w.len() == n + 1 + x.len());
    assert(w[n] == '/');
    assert(forall|k: int| 0 <= k < n ==> w[k] == a[k]);
    assert(forall|k: int| 0 <= k < x.len() ==> w[n + 1 + k] == x[k]);
    if has_double_slash(a) {
        let i = choose|i: int| 0 <= i && i + 1 < a.len() && #[trigger] a[i] == '/' && a[i + 1] == '/';
        assert(w[i] == '/' && w[i + 1] == '/');
    }
    if ends_with(a, '/') {
        assert(w[n - 1] == '/' && w[n - 1 + 1] == '/');
    }
    if starts_with(x, '/') {
        assert(w[n + 1 + 0] == x[0]);
        assert(w[n] == '/' && w[n + 1] == '/');
    }
    if has_double_slash(x) {
        let j = choose|j: int| 0 <= j && j + 1 < x.len() && #[trigger] x[j] == '/' && x[j + 1] == '/';
        assert(w[n + 1 + j] == '/' && w[n + 1 + (j + 1)] == '/');
        assert(w[n + 1 + j] == '/' && w[(n + 1 + j) + 1] == '/');
    }
    if has_double_slash(w) {
        let i = choose|i: int| 0 <= i && i + 1 < w.len() && #[trigger] w[i] == '/' && w[i + 1] == '/';
        if i + 1 < n {
            assert(a[i] == '/' && a[i + 1] == '/');
        } else if i + 1 == n {
            assert(a[n - 1] == '/');
        } else if i == n {
            assert(w[n + 1 + 0] == x[0]);
        } else {
            let j = i - n - 1;
            assert(w[n + 1 + j] == x[j]);
            assert(w[n + 1 + (j + 1)] == x[j + 1]);
            assert(x[j] == '/' && x[j + 1] == '/');
        }
    }
}

/// With one more part, the URL is what stood before, `/`, and the part.
pub proof fn lemma_rooted_push(parts: Seq<Seq<char>>, x: Seq<char>)
    ensures
        rooted(parts.push(x)) == before_last(parts) + seq!['/'] + x,
{
    lemma_join_push(parts, x);
    assert(rooted(parts.push(x)) =~= before_last(parts) + seq!['/'] + x);
}

/// The URL of some parts ends with `/` exactly when the last part is empty
/// or ends with `/`.
pub proof fn lemma_rooted_ends_with_slash(parts: Seq<Seq<char>>)
    requires
        parts.len() > 0,
    ensures
        ends_with(rooted(parts), '/') <==> (parts.last().len() == 0 || ends_with(
            parts.last(),
            '/',
        )),
{
    let x = parts.last();
    let front = parts.drop_last();
    assert(parts =~= front.push(x));
    lemma_rooted_push(front, x);
    let w = before_last(front) + seq!['/'] + x;
    let n = before_last(front).len() as int;
    assert(w[n] == '/');
    if x.len() > 0 {
        assert(w[n + 1 + (x.len() - 1)] == x[x.len() - 1]);
    }
}

/// The URL of some parts holds `//` exactly when one of the parts brings it about.
pub proof fn lemma_rooted_double_slash(parts: Seq<Seq<char>>)
    ensures
        has_double_slash(rooted(parts)) <==> slash_defect(parts),
    decreases parts.len(),
{
    if parts.len() == 0 {
        assert(rooted(parts) =~= seq!['/']);
    } else {
        let x = parts.last();
        let front = parts.drop_last();
        let last = parts.len() - 1;
        assert(parts =~= front.push(x));
        lemma_rooted_push(front, x);
        lemma_double_slash_across(before_last(front), x);
        lemma_rooted_double_slash(front);
        if front.len() > 0 {
            lemma_rooted_ends_with_slash(front);
        }
        assert(forall|k: int| 0 <= k < front.len() ==> parts[k] == front[k]);
        let joint = front.len() > 0 && (front.last().len() == 0 || ends_with(front.last(), '/'));
        if slash_defect(parts) {
            let i = choose|i: int| 0 <= i < parts.len() && #[trigger] segment_defect(parts, i);
            if i < last {
                if !joint {
                    assert(segment_defect(front, i));
                }
            }
            assert(slash_defect(front) || joint || starts_with(x, '/') || has_double_slash(x));
        }
        if slash_defect(front) {
            let i = choose|i: int| 0 <= i < front.len() && #[trigger] segment_defect(front, i);
            assert(segment_defect(parts, i));
        }
        if joint {
            assert(segment_defect(parts, last - 1));
        }
        if starts_with(x, '/') || has_double_slash(x) {
            assert(segment_defect(parts, last));
        }
    }
}

/// Joining two lists in a row joins each and puts a `/` between them, unless
/// one of them is empty.
pub proof fn lemma_join_concat(a: Seq<Seq<char>>, b: Seq<Seq<char>>)
    ensures
        join_slash(a + b) == if a.len() == 0 {
            join_slash(b)
        } else if b.len() == 0 {
            join_slash(a)
        } else {
            join_slash(a) + seq!['/'] + join_slash(b)
        },
    decreases b.len(),
{
    if b.len() == 0 {
        assert(a + b =~= a);
    } else if a.len() == 0 {
        assert(a + b =~= b);
    } else {
        let x = b.last();
        let front = b.drop_last();
        assert(b =~= front.push(x));
        assert(a + b =~= (a + front).push(x));
        lemma_join_concat(a, front);
        lemma_join_push(a + front, x);
        lemma_join_push(front, x);
        if front.len() == 0 {
            assert(a + front =~= a);
        } else {
            assert(join_slash(a + b) =~= join_slash(a) + seq!['/'] + join_slash(b));
        }
    }
}

/// The segments of `ids` are two for each identifier: its collection, then its key.
pub proof fn lemma_id_segments_index(ids: Seq<ApiIdView>)
    ensures
        id_segments(ids).len() == 2 * ids.len(),
        forall|i: int|
            0 <= i < ids.len() ==> id_segments(ids)[2 * i] == (#[trigger] ids[i]).document
                && id_segments(ids)[2 * i + 1] == ids[i].key,
    decreases ids.len(),
{
    if ids.len() > 0 {
        lemma_id_segments_index(ids.drop_last());
        assert forall|i: int| 0 <= i < ids.len() implies id_segments(ids)[2 * i] == (
        #[trigger] ids[i]).document && id_segments(ids)[2 * i + 1] == ids[i].key by {
            if i < ids.len() - 1 {
                assert(ids.drop_last()[i] == ids[i]);
            }
        }
    }
}

/// Joining the identifiers as they are written is joining their segments.
pub proof fn lemma_join_ids(ids: Seq<ApiIdView>)
    ensures
        join_slash(ids.map_values(|id: ApiIdView| render_id(id))) == join_slash(id_segments(ids)),
    decreases ids.len(),
{
    let written = ids.map_values(|id: ApiIdView| render_id(id));
    if ids.len() == 0 {
        assert(written =~= Seq::empty());
    } else {
        let front = ids.drop_last();
        let id = ids.last();
        let front_written = front.map_values(|id: ApiIdView| render_id(id));
        lemma_join_ids(front);
        lemma_id_segments_index(front);
        assert(written =~= front_written.push(render_id(id)));
        lemma_join_push(front_written, render_id(id));
        lemma_join_push(id_segments(front), id.document);
        lemma_join_push(id_segments(front).push(id.document), id.key);
        if front.len() == 0 {
            assert(join_slash(id_segments(ids)) =~= render_id(id));
        } else {
            assert(join_slash(id_segments(ids)) =~= join_slash(written));
        }
    }
}

/// The URL of a path is `/` followed by its segments joined with `/`.
pub proof fn lemma_render_by_segments(p: PathView)
    ensures
        render_path(p) == rooted(segments(p)),
{
    let written = p.ids.map_values(|id: ApiIdView| render_id(id));
    let segs = id_segments(p.ids);
    lemma_join_ids(p.ids);
    lemma_id_segments_index(p.ids);
    lemma_join_concat(opt_part(p.prefix), written);
    lemma_join_concat(opt_part(p.prefix), segs);
    lemma_join_concat(opt_part(p.prefix) + written, opt_part(p.token));
    lemma_join_concat(opt_part(p.prefix) + segs, opt_part(p.token));
}

/// The URL of every path begins with `/`.
pub proof fn lemma_render_starts_with_slash(p: PathView)
    ensures
        starts_with(render_path(p), '/'),
{
}

/// The URL of a path holds `//` exactly when one of its segments brings it about.
pub proof fn lemma_render_double_slash(p: PathView)
    ensures
        has_double_slash(render_path(p)) <==> slash_defect(segments(p)),
{
    lemma_render_by_segments(p);
    lemma_rooted_double_slash(segments(p));
}

/// The URL of a valid path none of whose segments brings a `//` about begins
/// with `/` and holds no `//`.
pub proof fn lemma_render_is_absolute(p: PathView)
    requires
        valid_path(p),
        !slash_defect(segments(p)),
    ensures
        starts_with(render_path(p), '/'),
        !has_double_slash(render_path(p)),
{
    lemma_render_double_slash(p);
}

/// An identifier brings a `//` about when its collection has no name or its
/// key holds `//`.
pub open spec fn id_defect(id: ApiIdView) -> bool {
    id.document.len() == 0 || has_double_slash(id.key)
}

/// What brings a `//` into the URL of a valid path: a `//` in the prefix, in
/// a key or in the token; an identifier whose collection has no name; a
/// prefix that is empty or ends with `/` and is followed by something.
pub open spec fn path_defect(p: PathView) -> bool {
    ||| (p.prefix matches Some(x) && (has_double_slash(x) || ((x.len() == 0 || ends_with(x, '/'))
        && (p.ids.len() > 0 || p.token is Some))))
    ||| (exists|i: int| 0 <= i < p.ids.len() && id_defect(#[trigger] p.ids[i]))
    ||| (p.token matches Some(t) && has_double_slash(t))
}

/// For a valid path, the segments that bring a `//` about are those that
/// `path_defect` names.
pub proof fn lemma_valid_path_defect(p: PathView)
    requires
        valid_path(p),
    ensures
        slash_defect(segments(p)) <==> path_defect(p),
{
    let segs = segments(p);
    let off = opt_part(p.prefix).len() as int;
    let n = p.ids.len() as int;
    lemma_id_segments_index(p.ids);
    assert(segs.len() == off + 2 * n + opt_part(p.token).len());
    assert(forall|j: int| 0 <= j < 2 * n ==> segs[off + j] == id_segments(p.ids)[j]);
    assert forall|i: int| 0 <= i < n implies segs[off + 2 * i] == (#[trigger] p.ids[i]).document
        && segs[off + 2 * i + 1] == p.ids[i].key by {
        assert(segs[off + 2 * i] == id_segments(p.ids)[2 * i]);
        assert(segs[off + (2 * i + 1)] == id_segments(p.ids)[2 * i + 1]);
    }
    assert forall|i: int| 0 <= i < n implies {
        let d = (#[trigger] p.ids[i]).document;
        let k = p.ids[i].key;
        &&& !has_double_slash(d)
        &&& !starts_with(d, '/')
        &&& !ends_with(d, '/')
        &&& !starts_with(k, '/')
        &&& !ends_with(k, '/')
        &&& k.len() > 0
    } by {
        let d = p.ids[i].document;
        if has_double_slash(d) {
            let w = choose|w: int| 0 <= w && w + 1 < d.len() && #[trigger] d[w] == '/' && d[w + 1] == '/';
            assert(d.contains('/'));
        }
        if starts_with(d, '/') {
            assert(d[0] == '/');
            assert(d.contains('/'));
        }
        if ends_with(d, '/') {
            assert(d[d.len() - 1] == '/');
            assert(d.contains('/'));
        }
    }
    if slash_defect(segs) {
        let k = choose|k: int| 0 <= k < segs.len() && #[trigger] segment_defect(segs, k);
        if k < off {
            assert(segs[k] == p.prefix->0);
        } else if k < off + 2 * n {
            let j = k - off;
            let i = j / 2;
            assert(0 <= i < n);
            if j % 2 == 0 {
                assert(j == 2 * i);
                assert(segs[k] == p.ids[i].document);
                assert(id_defect(p.ids[i]));
            } else {
                assert(j == 2 * i + 1);
                assert(segs[k] == p.ids[i].key);
                assert(id_defect(p.ids[i]));
            }
        } else {
            assert(segs[k] == p.token->0);
        }
        assert(path_defect(p));
    }
    if path_defect(p) {
        let by_prefix = p.prefix matches Some(x) && (has_double_slash(x) || ((x.len() == 0
            || ends_with(x, '/')) && (p.ids.len() > 0 || p.token is Some)));
        if by_prefix {
            assert(segs[0] == p.prefix->0);
            assert(segment_defect(segs, 0));
        } else if exists|i: int| 0 <= i < p.ids.len() && id_defect(#[trigger] p.ids[i]) {
            let i = choose|i: int| 0 <= i < p.ids.len() && id_defect(#[trigger] p.ids[i]);
            if p.ids[i].document.len() == 0 {
                assert(segs[off + 2 * i] == p.ids[i].document);
                assert(segment_defect(segs, off + 2 * i));
            } else {
                assert(segs[off + 2 * i + 1] == p.ids[i].key);
                assert(segment_defect(segs, off + 2 * i + 1));
            }
        } else {
            assert(segs[off + 2 * n] == p.token->0);
            assert(segment_defect(segs, off + 2 * n));
        }
        assert(slash_defect(segs));
    }
}

/// The URL of a valid path begins with `/`, and it holds `//` exactly when
/// `path_defect` names a cause.
pub proof fn lemma_render_of_valid_path(p: PathView)
    requires
        valid_path(p),
    ensures
        starts_with(render_path(p), '/'),
        has_double_slash(render_path(p)) <==> path_defect(p),
{
    lemma_render_double_slash(p);
    lemma_valid_path_defect(p);
}

} // verus!
