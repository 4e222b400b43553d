//! Request descriptors: relative path, HTTP method, headers, query
//! parameters and an optional JSON-object body, together with the fluent
//! builder that produces them and the credential-injection operations.

use crate::kv;
use crate::APIPlace;
use vstd::prelude::*;
use vstd::string::StringExecFns;

verus! {

/// Declares serde_json::Value so that the serialized body payload can
/// appear in signatures; the value itself stays opaque.
#[verifier::external_type_specification]
#[verifier::external_body]
pub struct ExValue(serde_json::Value);

/// The JSON object value that serde_json builds from a mapping of string
/// fields.  Its exact shape is left to serde_json; contracts only carry
/// the name.
pub uninterp spec fn json_object_of(fields: Map<Seq<char>, Seq<char>>) -> serde_json::Value;

/// An HTTP method a descriptor can carry.
#[derive(Clone, Copy, PartialEq, Eq, Structural, Debug)]
pub enum Method {
    GET,
    POST,
    PUT,
    DELETE,
    PATCH,
}

impl Method {
    /// The lowercase name used at dispatch time and in error reports.
    pub open spec fn name_spec(self) -> Seq<char> {
        match self {
            Method::GET => "get"@,
            Method::POST => "post"@,
            Method::PUT => "put"@,
            Method::DELETE => "delete"@,
            Method::PATCH => "patch"@,
        }
    }

    /// The methods the dispatch layer knows how to issue.
    pub open spec fn is_supported(self) -> bool {
        self is GET || self is POST || self is PUT || self is DELETE
    }

    pub fn as_str(&self) -> (r: &'static str)
        ensures
            r@ == self.name_spec(),
    {
        match *self {
            Method::GET => "get",
            Method::POST => "post",
            Method::PUT => "put",
            Method::DELETE => "delete",
            Method::PATCH => "patch",
        }
    }
}

/// One header entry, as accumulated by the builder.
#[derive(Clone)]
pub struct Header {
    pub key: String,
    pub value: String,
}

impl Header {
    pub fn new(key: &str, value: &str) -> (r: Header)
        ensures
            r.key@ == key@,
            r.value@ == value@,
    {
        Header { key: key.to_owned(), value: value.to_owned() }
    }
}

/// One query parameter, as accumulated by the builder.
#[derive(Clone)]
pub struct QueryParam {
    pub key: String,
    pub value: String,
}

impl QueryParam {
    pub fn new(key: &str, value: &str) -> (r: QueryParam)
        ensures
            r.key@ == key@,
            r.value@ == value@,
    {
        QueryParam { key: key.to_owned(), value: value.to_owned() }
    }
}

/// The header entries of a builder as plain string pairs, in order.
pub open spec fn header_pairs(s: Seq<Header>) -> Seq<(String, String)> {
    s.map_values(|h: Header| (h.key, h.value))
}

/// The query-parameter entries of a builder as plain string pairs, in order.
pub open spec fn qp_pairs(s: Seq<QueryParam>) -> Seq<(String, String)> {
    s.map_values(|q: QueryParam| (q.key, q.value))
}

/// The `key=value` token of one entry, as it appears in a rendered
/// query string.
pub open spec fn pair_token(p: (String, String)) -> Seq<char> {
    p.0@ + "="@ + p.1@
}

/// The entries joined with `&`, each rendered as `key=value`.
pub open spec fn rendered_pairs(s: Seq<(String, String)>) -> Seq<char>
    decreases s.len(),
{
    if s.len() == 0 {
        Seq::empty()
    } else if s.len() == 1 {
        s[0].0@ + "="@ + s[0].1@
    } else {
        rendered_pairs(s.drop_last()) + "&"@ + s.last().0@ + "="@ + s.last().1@
    }
}

/// The rendered query string: empty for no entries, otherwise `?` followed
/// by the joined entries.
pub open spec fn rendered_query(s: Seq<(String, String)>) -> Seq<char> {
    if s.len() == 0 {
        Seq::empty()
    } else {
        "?"@ + rendered_pairs(s)
    }
}

/// An unordered mapping of query-parameter keys to values.
#[derive(Clone)]
pub struct QuerySlice {
    pub slice: Vec<(String, String)>,
}

impl View for QuerySlice {
    type V = Map<Seq<char>, Seq<char>>;

    open spec fn view(&self) -> Map<Seq<char>, Seq<char>> {
        kv::map_of(self.slice@)
    }
}

impl QuerySlice {
    /// Entries carry pairwise distinct keys.
    pub open spec fn wf(self) -> bool {
        kv::unique_keys(self.slice@)
    }

    /// Collapses a parameter list into a collection; on duplicate keys the
    /// last occurrence wins.
    pub fn from(query_params: Vec<QueryParam>) -> (r: QuerySlice)
        ensures
            r.wf(),
            r@ == kv::map_of(qp_pairs(query_params@)),
    {
        let entries = qp_entries(&query_params);
        QuerySlice { slice: kv::collapsed(&entries) }
    }

    pub fn get<'a>(&'a self, key: &str) -> (r: Option<&'a String>)
        requires
            self.wf(),
        ensures
            match r {
                Some(v) => self@.contains_key(key@) && self@[key@] == v@,
                None => !self@.contains_key(key@),
            },
    {
        let k = key.to_owned();
        kv::lookup(&self.slice, &k)
    }

    /// Overwrite-or-add.
    pub fn insert(&mut self, key: &str, value: &str)
        requires
            old(self).wf(),
        ensures
            final(self).wf(),
            final(self)@ == old(self)@.insert(key@, value@),
    {
        kv::upsert(&mut self.slice, key.to_owned(), value.to_owned());
    }

    /// No-op when the key is absent.
    pub fn remove(&mut self, key: &str)
        requires
            old(self).wf(),
        ensures
            final(self).wf(),
            final(self)@ == old(self)@.remove(key@),
    {
        let k = key.to_owned();
        kv::remove_key(&mut self.slice, &k);
    }

    /// Renders the collection: the empty string when it is empty, otherwise
    /// `?` followed by the `key=value` tokens joined with `&`.  No escaping
    /// is performed; callers supply already-safe tokens.
    pub fn build_query_string(&self) -> (r: String)
        ensures
            r@ == rendered_query(self.slice@),
    {
        let n = self.slice.len();
        if n == 0 {
            return String::new();
        }
        let mut out = String::from_str("?");
        let mut i: usize = 0;
        while i < n
            invariant
                n == self.slice@.len(),
                0 < n,
                i <= n,
                i == 0 ==> out@ == "?"@,
                i > 0 ==> out@ == "?"@ + rendered_pairs(self.slice@.take(i as int)),
            decreases n - i,
        {
            if i > 0 {
                out.append("&");
            }
            let e = &self.slice[i];
            out.append(e.0.as_str());
            out.append("=");
            out.append(e.1.as_str());
            proof {
                let s = self.slice@;
                let t = s.take(i as int + 1);
                assert(t.drop_last() =~= s.take(i as int));
                assert(t.last() == s[i as int]);
                assert(out@ =~= "?"@ + rendered_pairs(t));
            }
            i = i + 1;
        }
        proof {
            assert(self.slice@.take(n as int) =~= self.slice@);
        }
        out
    }
}

/// Law: a rendered non-empty collection starts with the `?` marker.
pub proof fn lemma_rendered_query_starts_with_marker(s: Seq<(String, String)>)
    requires
        s.len() > 0,
    ensures
        rendered_query(s).len() > 0,
        rendered_query(s)[0] == '?',
{
    reveal_strlit("?");
}

/// The token occurs in the string at the given offset.
pub open spec fn token_at(full: Seq<char>, off: int, tok: Seq<char>) -> bool {
    &&& 0 <= off
    &&& off + tok.len() <= full.len()
    &&& full.subrange(off, off + tok.len() as int) == tok
}

/// Law: every entry's `key=value` token occurs in the joined entries.
proof fn lemma_rendered_pairs_has_entry(s: Seq<(String, String)>, i: int)
    requires
        0 <= i < s.len(),
    ensures
        exists|off: int| token_at(rendered_pairs(s), off, pair_token(s[i])),
    decreases s.len(),
{
    let tok = pair_token(s[i]);
    if s.len() == 1 {
        assert(rendered_pairs(s).subrange(0, tok.len() as int) =~= tok);
        assert(token_at(rendered_pairs(s), 0, tok));
    } else if i == s.len() - 1 {
        let off = (rendered_pairs(s.drop_last()).len() + "&"@.len()) as int;
        assert(rendered_pairs(s).subrange(off, off + tok.len() as int) =~= tok);
        assert(token_at(rendered_pairs(s), off, tok));
    } else {
        let d = s.drop_last();
        assert(d[i] == s[i]);
        lemma_rendered_pairs_has_entry(d, i);
        let off = choose|off: int| token_at(rendered_pairs(d), off, pair_token(d[i]));
        assert(rendered_pairs(s).subrange(off, off + tok.len() as int) =~= rendered_pairs(
            d,
        ).subrange(off, off + tok.len() as int));
        assert(token_at(rendered_pairs(s), off, tok));
    }
}

/// Law: every entry of a non-empty collection appears in the rendered
/// query string as its `key=value` token.
pub proof fn lemma_rendered_query_has_entry(s: Seq<(String, String)>, i: int)
    requires
        0 <= i < s.len(),
    ensures
        exists|off: int| token_at(rendered_query(s), off, pair_token(s[i])),
{
    let tok = pair_token(s[i]);
    lemma_rendered_pairs_has_entry(s, i);
    let off = choose|off: int| token_at(rendered_pairs(s), off, pair_token(s[i]));
    let shifted = off + "?"@.len();
    assert(rendered_query(s).subrange(shifted as int, shifted + tok.len() as int)
        =~= rendered_pairs(s).subrange(off, off + tok.len() as int));
    assert(token_at(rendered_query(s), shifted as int, tok));
}

/// A JSON object value with string fields, kept as a unique-key field
/// list so that, by construction, it always denotes a JSON object.
pub struct Body {
    fields: Vec<(String, String)>,
}

impl View for Body {
    type V = Map<Seq<char>, Seq<char>>;

    closed spec fn view(&self) -> Map<Seq<char>, Seq<char>> {
        kv::map_of(self.fields@)
    }
}

impl Body {
    /// Field keys are pairwise distinct.
    pub closed spec fn wf(self) -> bool {
        kv::unique_keys(self.fields@)
    }

    /// Builds a body from initial fields; on duplicate keys the last
    /// occurrence wins.
    pub fn new(fields: Vec<(String, String)>) -> (r: Body)
        ensures
            r.wf(),
            r@ == kv::map_of(fields@),
    {
        Body { fields: kv::collapsed(&fields) }
    }

    /// Inserts or overwrites one string field.
    pub fn push_value(&mut self, key: &str, value: &str)
        requires
            old(self).wf(),
        ensures
            final(self).wf(),
            final(self)@ == old(self)@.insert(key@, value@),
    {
        kv::upsert(&mut self.fields, key.to_owned(), value.to_owned());
    }

    /// The serialized payload, used at dispatch time.
    ///
    /// Relies on serde_json::Map::insert and serde_json::Value::Object:
    /// the returned value is the JSON object holding exactly these string
    /// fields, and is determined by them alone.
    #[verifier::external_body]
    pub fn get(&self) -> (r: serde_json::Value)
        ensures
            r == json_object_of(self@),
    {
        let mut m = serde_json::Map::new();
        for (k, v) in self.fields.iter() {
            m.insert(k.clone(), serde_json::Value::String(v.clone()));
        }
        serde_json::Value::Object(m)
    }
}

/// Law: inserting twice under one key overwrites rather than duplicates;
/// only the second value survives.
pub proof fn lemma_push_value_overwrites(
    m: Map<Seq<char>, Seq<char>>,
    k: Seq<char>,
    v1: Seq<char>,
    v2: Seq<char>,
)
    ensures
        m.insert(k, v1).insert(k, v2) == m.insert(k, v2),
{
    assert(m.insert(k, v1).insert(k, v2) =~= m.insert(k, v2));
}

/// A fully specified request template: relative path, method, headers,
/// optional JSON body and query parameters.
pub struct Path {
    pub path: String,
    pub body: Option<Body>,
    pub method: Method,
    pub headers: Vec<(String, String)>,
    pub query_slice: QuerySlice,
}

impl Path {
    /// Header keys are pairwise distinct, the query collection and the
    /// body (when present) are well formed.
    pub open spec fn wf(self) -> bool {
        &&& kv::unique_keys(self.headers@)
        &&& self.query_slice.wf()
        &&& (self.body matches Some(b) ==> b.wf())
    }

    /// The mapping the header entries denote.
    pub open spec fn headers_map(self) -> Map<Seq<char>, Seq<char>> {
        kv::map_of(self.headers@)
    }

    /// Writes a credential into the place the policy selects.  Header and
    /// body injection echo the value back; query injection and a skipped
    /// injection return nothing.  Body injection on a descriptor without a
    /// body is a silent no-op.
    pub fn insert_api_key(&mut self, k: &str, v: &str, where_to_insert: APIPlace) -> (r: Option<
        String,
    >)
        requires
            old(self).wf(),
        ensures
            final(self).wf(),
            final(self).path == old(self).path,
            final(self).method == old(self).method,
            match where_to_insert {
                APIPlace::Header => {
                    &&& final(self).headers_map() == old(self).headers_map().insert(k@, v@)
                    &&& final(self).query_slice == old(self).query_slice
                    &&& final(self).body == old(self).body
                    &&& r matches Some(s) && s@ == v@
                },
                APIPlace::QueryParam => {
                    &&& final(self).query_slice@ == old(self).query_slice@.insert(k@, v@)
                    &&& final(self).query_slice.wf()
                    &&& final(self).headers == old(self).headers
                    &&& final(self).body == old(self).body
                    &&& r is None
                },
                APIPlace::Body => {
                    &&& final(self).headers == old(self).headers
                    &&& final(self).query_slice == old(self).query_slice
                    &&& match old(self).body {
                        Some(b) => {
                            &&& final(self).body matches Some(nb) && nb@ == b@.insert(k@, v@)
                            &&& r matches Some(s) && s@ == v@
                        },
                        None => final(self).body is None && r is None,
                    }
                },
                APIPlace::Nowhere => *final(self) == *old(self) && r is None,
            },
    {
        match where_to_insert {
            APIPlace::Header => {
                kv::upsert(&mut self.headers, k.to_owned(), v.to_owned());
                Some(v.to_owned())
            },
            APIPlace::QueryParam => {
                self.query_slice.insert(k, v);
                None
            },
            APIPlace::Body => {
                let b = self.body.take();
                match b {
                    Some(mut body) => {
                        body.push_value(k, v);
                        self.body = Some(body);
                        Some(v.to_owned())
                    },
                    None => None,
                }
            },
            APIPlace::Nowhere => None,
        }
    }

    /// Direct, always-succeeding query mutation, bypassing the placement
    /// policy.
    pub fn insert_query_param(&mut self, k: &str, v: &str)
        requires
            old(self).wf(),
        ensures
            final(self).wf(),
            final(self).query_slice@ == old(self).query_slice@.insert(k@, v@),
            final(self).path == old(self).path,
            final(self).method == old(self).method,
            final(self).headers == old(self).headers,
            final(self).body == old(self).body,
    {
        self.query_slice.insert(k, v);
    }

    /// Direct, always-succeeding header mutation, bypassing the placement
    /// policy.
    pub fn insert_header(&mut self, k: &str, v: &str)
        requires
            old(self).wf(),
        ensures
            final(self).wf(),
            final(self).headers_map() == old(self).headers_map().insert(k@, v@),
            final(self).path == old(self).path,
            final(self).method == old(self).method,
            final(self).query_slice == old(self).query_slice,
            final(self).body == old(self).body,
    {
        kv::upsert(&mut self.headers, k.to_owned(), v.to_owned());
    }

    pub fn get_body(&self) -> (r: Option<&Body>)
        ensures
            match r {
                Some(b) => self.body matches Some(inner) && *b == inner,
                None => self.body is None,
            },
    {
        match self.body {
            Some(ref body) => Some(body),
            None => None,
        }
    }

    pub fn get_headers(&self) -> (r: &Vec<(String, String)>)
        ensures
            r@ == self.headers@,
    {
        &self.headers
    }

    pub fn get_query_slice(&self) -> (r: &QuerySlice)
        ensures
            *r == self.query_slice,
    {
        &self.query_slice
    }

    pub fn get_path(&self) -> (r: &str)
        ensures
            r@ == self.path@,
    {
        self.path.as_str()
    }
}

/// Fluent, consuming builder for a request descriptor.
pub struct PathBuilder {
    pub path: String,
    pub body: Option<Body>,
    pub headers: Vec<Header>,
    pub query_params: Vec<QueryParam>,
    pub method: Method,
}

impl PathBuilder {
    pub fn new(path: &str, method: Method) -> (r: PathBuilder)
        ensures
            r.path@ == path@,
            r.body is None,
            r.headers@.len() == 0,
            r.query_params@.len() == 0,
            r.method == method,
    {
        PathBuilder {
            path: path.to_owned(),
            body: None,
            headers: Vec::new(),
            query_params: Vec::new(),
            method,
        }
    }

    pub fn with_body(self, body: Body) -> (r: PathBuilder)
        ensures
            r.path == self.path,
            r.body == Some(body),
            r.headers == self.headers,
            r.query_params == self.query_params,
            r.method == self.method,
    {
        let mut s = self;
        s.body = Some(body);
        s
    }

    pub fn with_header(self, header: Header) -> (r: PathBuilder)
        ensures
            r.path == self.path,
            r.body == self.body,
            r.headers@ == self.headers@.push(header),
            r.query_params == self.query_params,
            r.method == self.method,
    {
        let mut s = self;
        s.headers.push(header);
        s
    }

    pub fn with_query_param(self, query_param: QueryParam) -> (r: PathBuilder)
        ensures
            r.path == self.path,
            r.body == self.body,
            r.headers == self.headers,
            r.query_params@ == self.query_params@.push(query_param),
            r.method == self.method,
    {
        let mut s = self;
        s.query_params.push(query_param);
        s
    }

    /// Finalizes the descriptor: the accumulated header and query lists
    /// are collapsed into key-unique mappings where the last occurrence
    /// of a key wins.
    pub fn build(self) -> (r: Path)
        requires
            self.body matches Some(b) ==> b.wf(),
        ensures
            r.wf(),
            r.path == self.path,
            r.method == self.method,
            r.body == self.body,
            r.headers_map() == kv::map_of(header_pairs(self.headers@)),
            r.query_slice@ == kv::map_of(qp_pairs(self.query_params@)),
    {
        let entries = header_entries(&self.headers);
        let headers = kv::collapsed(&entries);
        let query_slice = QuerySlice::from(self.query_params);
        Path { path: self.path, body: self.body, method: self.method, headers, query_slice }
    }
}

/// Law: building keeps, for every key, the value of the last occurrence
/// of that key in the builder's header list.
pub proof fn lemma_build_header_last_wins(hs: Seq<Header>, i: int)
    requires
        0 <= i < hs.len(),
        forall|j: int| i < j < hs.len() ==> hs[j].key@ != hs[i].key@,
    ensures
        kv::map_of(header_pairs(hs)).contains_key(hs[i].key@),
        kv::map_of(header_pairs(hs))[hs[i].key@] == hs[i].value@,
{
    let ps = header_pairs(hs);
    assert(ps[i] == (hs[i].key, hs[i].value));
    assert forall|j: int| i < j < ps.len() implies ps[j].0@ != ps[i].0@ by {
        assert(ps[j] == (hs[j].key, hs[j].value));
    }
    kv::lemma_map_of_index(ps, i);
}

fn header_entries(hs: &Vec<Header>) -> (r: Vec<(String, String)>)
    ensures
        r@ == header_pairs(hs@),
{
    let mut r: Vec<(String, String)> = Vec::new();
    let n = hs.len();
    let mut i: usize = 0;
    while i < n
        invariant
            n == hs@.len(),
            i <= n,
            r@.len() == i,
            forall|j: int| 0 <= j < i ==> r@[j] == (hs@[j].key, hs@[j].value),
        decreases n - i,
    {
        let h = &hs[i];
        r.push((h.key.clone(), h.value.clone()));
        i = i + 1;
    }
    proof {
        assert(r@ =~= header_pairs(hs@));
    }
    r
}

fn qp_entries(qs: &Vec<QueryParam>) -> (r: Vec<(String, String)>)
    ensures
        r@ == qp_pairs(qs@),
{
    let mut r: Vec<(String, String)> = Vec::new();
    let n = qs.len();
    let mut i: usize = 0;
    while i < n
        invariant
            n == qs@.len(),
            i <= n,
            r@.len() == i,
            forall|j: int| 0 <= j < i ==> r@[j] == (qs@[j].key, qs@[j].value),
        decreases n - i,
    {
        let q = &qs[i];
        r.push((q.key.clone(), q.value.clone()));
        i = i + 1;
    }
    proof {
        assert(r@ =~= qp_pairs(qs@));
    }
    r
}

} // verus!
