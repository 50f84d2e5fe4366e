//! Route templates: resource identifiers, the paths composed of them, and
//! how a path is written as a URL.

use vstd::prelude::*;

use crate::payload::{clone_text_opt, text_opt};
use crate::queryparam::QueryParamBuilder;
use crate::record::{clone_parameters, parameters_view, Parameter, ParameterView};
use crate::text::{contains_char, starts_with, starts_with_char, to_chars};

verus! {

/// Why a resource identifier or a path was refused.
#[derive(Clone, Copy, Debug, PartialEq, Eq)]
pub enum PathError {
    /// The collection name holds a `/`.
    DocumentHasSlash,
    /// The key is not of the form `{...}` with something between the braces.
    KeyNotPlaceholder,
    /// The prefix begins with `/`.
    PrefixLeadingSlash,
    /// The prefix holds `{` or `}`.
    PrefixHasBrace,
    /// The token begins with `/`.
    TokenLeadingSlash,
    /// The token holds `{` or `}`.
    TokenHasBrace,
}

/// What an `ApiId` holds: the name of a collection and the placeholder for
/// the key of one of its documents.
pub struct ApiIdView {
    pub document: Seq<char>,
    pub key: Seq<char>,
}

/// What an `ApiPath` holds.
pub struct PathView {
    pub prefix: Option<Seq<char>>,
    pub ids: Seq<ApiIdView>,
    pub token: Option<Seq<char>>,
    pub query_params: Seq<ParameterView>,
}

/// A collection name is one path segment: it holds no `/`.
pub open spec fn valid_document(s: Seq<char>) -> bool {
    !s.contains('/')
}

/// A key is a placeholder: `{`, at least one more character, `}`.
pub open spec fn valid_key(s: Seq<char>) -> bool {
    s.len() > 2 && s[0] == '{' && s[s.len() - 1] == '}'
}

/// An identifier is valid when its collection name and its key are.
pub open spec fn valid_id(id: ApiIdView) -> bool {
    valid_document(id.document) && valid_key(id.key)
}

/// A prefix or token is literal text: no leading `/`, no brace.
pub open spec fn valid_literal(s: Seq<char>) -> bool {
    !starts_with(s, '/') && !s.contains('{') && !s.contains('}')
}

/// A prefix or token that is present is literal text.
pub open spec fn valid_literal_opt(o: Option<Seq<char>>) -> bool {
    o matches Some(s) ==> valid_literal(s)
}

/// A path is valid when its prefix, its identifiers and its token are.
pub open spec fn valid_path(p: PathView) -> bool {
    &&& valid_literal_opt(p.prefix)
    &&& forall|i: int| 0 <= i < p.ids.len() ==> valid_id(#[trigger] p.ids[i])
    &&& valid_literal_opt(p.token)
}

/// An identifier is written as its collection name, `/`, and its key.
pub open spec fn render_id(id: ApiIdView) -> Seq<char> {
    id.document + seq!['/'] + id.key
}

/// The parts written one after the other with a `/` between neighbours.
pub open spec fn join_slash(parts: Seq<Seq<char>>) -> Seq<char>
    decreases parts.len(),
{
    if parts.len() == 0 {
        Seq::empty()
    } else if parts.len() == 1 {
        parts[0]
    } else {
        parts[0] + seq!['/'] + join_slash(parts.drop_first())
    }
}

/// An optional text as a list of no part or one.
pub open spec fn opt_part(o: Option<Seq<char>>) -> Seq<Seq<char>> {
    match o {
        Some(s) => seq![s],
        None => Seq::empty(),
    }
}

/// The parts of a path in the order in which they are written: the prefix,
/// the identifiers, the token.
pub open spec fn components(p: PathView) -> Seq<Seq<char>> {
    opt_part(p.prefix) + p.ids.map_values(|id: ApiIdView| render_id(id)) + opt_part(p.token)
}

/// A path is written as `/` followed by its parts joined with `/`.
pub open spec fn render_path(p: PathView) -> Seq<char> {
    seq!['/'] + join_slash(components(p))
}

/// Joining one more part adds a `/` and the part, unless it is the first.
pub proof fn lemma_join_push(parts: Seq<Seq<char>>, x: Seq<char>)
    ensures
        join_slash(parts.push(x)) == if parts.len() == 0 {
            x
        } else {
            join_slash(parts) + seq!['/'] + x
        },
    decreases parts.len(),
{
    let all = parts.push(x);
    if parts.len() == 0 {
        assert(all[0] == x);
    } else if parts.len() == 1 {
        assert(all.drop_first() =~= seq![x]);
        assert(join_slash(all.drop_first()) == x);
        assert(all[0] == parts[0]);
    } else {
        lemma_join_push(parts.drop_first(), x);
        assert(all.drop_first() =~= parts.drop_first().push(x));
        assert(all[0] == parts[0]);
        assert(join_slash(all) == parts[0] + seq!['/'] + join_slash(all.drop_first()));
        assert(join_slash(parts) == parts[0] + seq!['/'] + join_slash(parts.drop_first()));
        assert(join_slash(all) =~= join_slash(parts) + seq!['/'] + x);
    }
}

/// One segment pair of a nested resource path: a collection and the
/// placeholder for the key of a document in it.
#[derive(Debug, PartialEq, Eq)]
pub struct ApiId {
    document: String,
    key: String,
}

impl View for ApiId {
    type V = ApiIdView;

    closed spec fn view(&self) -> ApiIdView {
        ApiIdView { document: self.document@, key: self.key@ }
    }
}

/// Whether `document` can name a collection.
pub fn is_valid_document(document: &str) -> (b: bool)
    ensures
        b == valid_document(document@),
{
    !contains_char(document, '/')
}

/// Whether `key` is a placeholder.
pub fn is_valid_key(key: &str) -> (b: bool)
    ensures
        b == valid_key(key@),
{
    let v = to_chars(key);
    v.len() > 2 && v[0] == '{' && v[v.len() - 1] == '}'
}

/// Whether `s` can be the prefix or the token of a path.
pub fn is_valid_literal(s: &str) -> (b: bool)
    ensures
        b == valid_literal(s@),
{
    !starts_with_char(s, '/') && !contains_char(s, '{') && !contains_char(s, '}')
}

impl ApiId {
    /// Every `ApiId` that a constructor returned is well formed.
    pub open spec fn wf(&self) -> bool {
        valid_id(self@)
    }

    /// The identifier of the collection `document` with the placeholder `key`.
    pub fn new(document: &str, key: &str) -> (id: Self)
        requires
            valid_document(document@),
            valid_key(key@),
        ensures
            id.wf(),
            id@ == (ApiIdView { document: document@, key: key@ }),
    {
        ApiId { document: document.to_owned(), key: key.to_owned() }
    }

    /// As `new`, for arguments that have not been checked: refuses a
    /// collection name with a `/` in it, and then a key that is no placeholder.
    pub fn try_new(document: &str, key: &str) -> (r: Result<Self, PathError>)
        ensures
            match r {
                Ok(id) => valid_document(document@) && valid_key(key@) && id.wf() && id@ == (
                ApiIdView { document: document@, key: key@ }),
                Err(PathError::DocumentHasSlash) => !valid_document(document@),
                Err(PathError::KeyNotPlaceholder) => valid_document(document@) && !valid_key(key@),
                Err(_) => false,
            },
    {
        if !is_valid_document(document) {
            Err(PathError::DocumentHasSlash)
        } else if !is_valid_key(key) {
            Err(PathError::KeyNotPlaceholder)
        } else {
            Ok(ApiId::new(document, key))
        }
    }

    /// The name of the collection.
    pub fn document(&self) -> (s: &str)
        ensures
            s@ == self@.document,
    {
        self.document.as_str()
    }

    /// The placeholder of the key.
    pub fn key(&self) -> (s: &str)
        ensures
            s@ == self@.key,
    {
        self.key.as_str()
    }

    /// The identifier as it stands in a URL: `collection/{key}`.
    pub fn to_string(&self) -> (s: String)
        ensures
            s@ == render_id(self@),
    {
        let mut s = self.document.clone();
        s.push('/');
        s.append(self.key.as_str());
        s
    }
}

impl Clone for ApiId {
    fn clone(&self) -> (r: Self)
        ensures
            r@ == self@,
    {
        ApiId { document: self.document.clone(), key: self.key.clone() }
    }
}

/// The views of a list of identifiers, in order.
pub open spec fn ids_view(ids: Seq<ApiId>) -> Seq<ApiIdView> {
    ids.map_values(|id: ApiId| id@)
}

/// One addressable route: an optional literal prefix, the chain of resource
/// identifiers from the outermost to the innermost, an optional trailing
/// token that names an action, and the query parameters of the route.
#[derive(Debug)]
pub struct ApiPath {
    prefix: Option<String>,
    ids: Vec<ApiId>,
    token: Option<String>,
    query_params: Vec<Parameter>,
}

/// The views of the declarations that a list of builders holds, in order.
pub open spec fn builders_view(builders: Seq<QueryParamBuilder>) -> Seq<ParameterView> {
    builders.map_values(|b: QueryParamBuilder| b@)
}

/// Which rule, if any, the prefix and the token of a path break. The prefix
/// is judged first, and a leading `/` before a brace.
pub open spec fn literal_fault(prefix: Option<Seq<char>>, token: Option<Seq<char>>) -> Option<
    PathError,
> {
    if prefix matches Some(p) && starts_with(p, '/') {
        Some(PathError::PrefixLeadingSlash)
    } else if prefix matches Some(p) && (p.contains('{') || p.contains('}')) {
        Some(PathError::PrefixHasBrace)
    } else if token matches Some(t) && starts_with(t, '/') {
        Some(PathError::TokenLeadingSlash)
    } else if token matches Some(t) && (t.contains('{') || t.contains('}')) {
        Some(PathError::TokenHasBrace)
    } else {
        None
    }
}

/// Checks the prefix and the token of a path.
pub fn check_literals(prefix: &Option<String>, token: &Option<String>) -> (r: Result<
    (),
    PathError,
>)
    ensures
        r is Ok <==> valid_literal_opt(text_opt(*prefix)) && valid_literal_opt(text_opt(*token)),
        r matches Err(e) ==> literal_fault(text_opt(*prefix), text_opt(*token)) == Some(e),
{
    if let Some(p) = prefix {
        if starts_with_char(p.as_str(), '/') {
            return Err(PathError::PrefixLeadingSlash);
        }
        if contains_char(p.as_str(), '{') || contains_char(p.as_str(), '}') {
            return Err(PathError::PrefixHasBrace);
        }
    }
    if let Some(t) = token {
        if starts_with_char(t.as_str(), '/') {
            return Err(PathError::TokenLeadingSlash);
        }
        if contains_char(t.as_str(), '{') || contains_char(t.as_str(), '}') {
            return Err(PathError::TokenHasBrace);
        }
    }
    Ok(())
}

impl View for ApiPath {
    type V = PathView;

    closed spec fn view(&self) -> PathView {
        PathView {
            prefix: text_opt(self.prefix),
            ids: ids_view(self.ids@),
            token: text_opt(self.token),
            query_params: parameters_view(self.query_params@),
        }
    }
}

impl ApiPath {
    /// Every `ApiPath` that a constructor returned is well formed.
    pub open spec fn wf(&self) -> bool {
        valid_path(self@)
    }

    /// The path made of `prefix`, `ids` and `token`, without query
    /// parameters. `/api/testdoc` is the prefix `api` with the token
    /// `testdoc`; `/api/user/{uid}/testdoc` has the identifier
    /// `("user", "{uid}")` between them.
    pub fn new(prefix: Option<String>, ids: Vec<ApiId>, token: Option<String>) -> (p: Self)
        requires
            valid_literal_opt(text_opt(prefix)),
            forall|i: int| 0 <= i < ids.len() ==> (#[trigger] ids[i]).wf(),
            valid_literal_opt(text_opt(token)),
        ensures
            p.wf(),
            p@ == (PathView {
                prefix: text_opt(prefix),
                ids: ids_view(ids@),
                token: text_opt(token),
                query_params: Seq::empty(),
            }),
    {
        let p = ApiPath { prefix, ids, token, query_params: Vec::new() };
        proof {
            assert(parameters_view(p.query_params@) =~= Seq::empty());
        }
        p
    }

    /// As `new`, with the query parameters that `qpbuilders` have built, in
    /// their order.
    pub fn with_queries(
        prefix: Option<String>,
        ids: Vec<ApiId>,
        token: Option<String>,
        qpbuilders: Vec<QueryParamBuilder>,
    ) -> (p: Self)
        requires
            valid_literal_opt(text_opt(prefix)),
            forall|i: int| 0 <= i < ids.len() ==> (#[trigger] ids[i]).wf(),
            valid_literal_opt(text_opt(token)),
        ensures
            p.wf(),
            p@ == (PathView {
                prefix: text_opt(prefix),
                ids: ids_view(ids@),
                token: text_opt(token),
                query_params: builders_view(qpbuilders@),
            }),
    {
        let mut query_params: Vec<Parameter> = Vec::new();
        let mut i: usize = 0;
        while i < qpbuilders.len()
            invariant
                i <= qpbuilders.len(),
                query_params.len() == i,
                forall|j: int| 0 <= j < i ==> query_params@[j]@ == qpbuilders@[j]@,
            decreases qpbuilders.len() - i,
        {
            query_params.push(qpbuilders[i].build());
            i += 1;
        }
        proof {
            assert(parameters_view(query_params@) =~= builders_view(qpbuilders@));
        }
        ApiPath { prefix, ids, token, query_params }
    }

    /// As `new`, for a prefix and a token that have not been checked.
    pub fn try_new(prefix: Option<String>, ids: Vec<ApiId>, token: Option<String>) -> (r: Result<
        Self,
        PathError,
    >)
        requires
            forall|i: int| 0 <= i < ids.len() ==> (#[trigger] ids[i]).wf(),
        ensures
            r is Ok <==> valid_literal_opt(text_opt(prefix)) && valid_literal_opt(text_opt(token)),
            r matches Ok(p) ==> p.wf() && p@ == (PathView {
                prefix: text_opt(prefix),
                ids: ids_view(ids@),
                token: text_opt(token),
                query_params: Seq::empty(),
            }),
            r matches Err(e) ==> literal_fault(text_opt(prefix), text_opt(token)) == Some(e),
    {
        match check_literals(&prefix, &token) {
            Ok(()) => Ok(ApiPath::new(prefix, ids, token)),
            Err(e) => Err(e),
        }
    }

    /// As `with_queries`, for a prefix and a token that have not been checked.
    pub fn try_with_queries(
        prefix: Option<String>,
        ids: Vec<ApiId>,
        token: Option<String>,
        qpbuilders: Vec<QueryParamBuilder>,
    ) -> (r: Result<Self, PathError>)
        requires
            forall|i: int| 0 <= i < ids.len() ==> (#[trigger] ids[i]).wf(),
        ensures
            r is Ok <==> valid_literal_opt(text_opt(prefix)) && valid_literal_opt(text_opt(token)),
            r matches Ok(p) ==> p.wf() && p@ == (PathView {
                prefix: text_opt(prefix),
                ids: ids_view(ids@),
                token: text_opt(token),
                query_params: builders_view(qpbuilders@),
            }),
            r matches Err(e) ==> literal_fault(text_opt(prefix), text_opt(token)) == Some(e),
    {
        match check_literals(&prefix, &token) {
            Ok(()) => Ok(ApiPath::with_queries(prefix, ids, token, qpbuilders)),
            Err(e) => Err(e),
        }
    }

    /// The literal prefix, if there is one.
    pub fn prefix(&self) -> (o: &Option<String>)
        ensures
            text_opt(*o) == self@.prefix,
    {
        &self.prefix
    }

    /// The resource identifiers, outermost first.
    pub fn ids(&self) -> (ids: &Vec<ApiId>)
        ensures
            ids_view(ids@) == self@.ids,
    {
        &self.ids
    }

    /// The trailing token, if there is one.
    pub fn token(&self) -> (o: &Option<String>)
        ensures
            text_opt(*o) == self@.token,
    {
        &self.token
    }

    /// The query parameters of the route.
    pub fn query_params(&self) -> (ps: &Vec<Parameter>)
        ensures
            parameters_view(ps@) == self@.query_params,
    {
        &self.query_params
    }

    /// The path as it stands in a URL: `/`, then the prefix, the identifiers
    /// and the token with `/` between them.
    pub fn to_string(&self) -> (s: String)
        ensures
            s@ == render_path(self@),
    {
        let mut out = String::new();
        out.push('/');
        let mut any = false;
        let ghost mut done: Seq<Seq<char>> = Seq::empty();
        if let Some(p) = &self.prefix {
            out.append(p.as_str());
            any = true;
            proof {
                done = seq![p@];
                assert(out@ =~= seq!['/'] + join_slash(done));
            }
        }
        let ghost rendered = self@.ids.map_values(|id: ApiIdView| render_id(id));
        let mut i: usize = 0;
        proof {
            assert(done =~= opt_part(self@.prefix) + rendered.take(0));
            assert(out@ =~= seq!['/'] + join_slash(done));
        }
        while i < self.ids.len()
            invariant
                i <= self.ids.len(),
                rendered == self@.ids.map_values(|id: ApiIdView| render_id(id)),
                self@.ids == ids_view(self.ids@),
                done == opt_part(self@.prefix) + rendered.take(i as int),
                any == (done.len() > 0),
                out@ == seq!['/'] + join_slash(done),
            decreases self.ids.len() - i,
        {
            if any {
                out.push('/');
            }
            let id = &self.ids[i];
            out.append(id.document.as_str());
            out.push('/');
            out.append(id.key.as_str());
            proof {
                let x = render_id(id@);
                assert(rendered[i as int] == x);
                lemma_join_push(done, x);
                assert(rendered.take(i + 1) =~= rendered.take(i as int).push(x));
                assert(opt_part(self@.prefix) + rendered.take(i + 1) =~= done.push(x));
                assert(out@ =~= seq!['/'] + join_slash(done.push(x)));
                done = done.push(x);
            }
            any = true;
            i += 1;
        }
        proof {
            assert(rendered.take(i as int) =~= rendered);
        }
        if let Some(t) = &self.token {
            if any {
                out.push('/');
            }
            out.append(t.as_str());
            proof {
                lemma_join_push(done, t@);
                assert(out@ =~= seq!['/'] + join_slash(done.push(t@)));
                done = done.push(t@);
            }
        }
        proof {
            assert(done =~= components(self@));
        }
        out
    }
}

impl Clone for ApiPath {
    fn clone(&self) -> (r: Self)
        ensures
            r@ == self@,
    {
        let mut ids: Vec<ApiId> = Vec::new();
        let mut i: usize = 0;
        while i < self.ids.len()
            invariant
                i <= self.ids.len(),
                ids.len() == i,
                forall|j: int| 0 <= j < i ==> ids@[j]@ == self.ids@[j]@,
            decreases self.ids.len() - i,
        {
            ids.push(self.ids[i].clone());
            i += 1;
        }
        proof {
            assert(ids_view(ids@) =~= ids_view(self.ids@));
        }
        ApiPath {
            prefix: clone_text_opt(&self.prefix),
            ids,
            token: clone_text_opt(&self.token),
            query_params: clone_parameters(&self.query_params),
        }
    }
}

} // verus!
