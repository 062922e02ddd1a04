//! Requests to the model gateway, before they are sent.
use vstd::prelude::*;
use vstd::string::{StrSliceExecFns, StringExecFns};

verus! {

/// The method of an HTTP request.
#[derive(Debug, Clone, Copy, PartialEq, Eq, Structural)]
pub enum Method {
    Get,
    Post,
    Put,
    Patch,
    Delete,
}

/// An HTTP request to the model gateway, before it is sent: the method, what
/// follows the gateway's address in the URL, the headers, each name once, and
/// the body, if there is one.
#[derive(Debug)]
pub struct Req {
    method: Method,
    url_suffix: String,
    headers: Vec<(String, String)>,
    body: Option<String>,
}

/// What a request holds, as the value that contracts speak of.
pub struct ReqView {
    pub method: Method,
    pub url_suffix: Seq<char>,
    pub headers: Map<Seq<char>, Seq<char>>,
    pub body: Option<Seq<char>>,
}

/// No name occurs twice among the headers.
pub open spec fn names_once(headers: Seq<(String, String)>) -> bool {
    forall|i: int, j: int|
        0 <= i < j < headers.len() ==> (#[trigger] headers[i]).0@ != (#[trigger] headers[j]).0@
}

/// `name` is the name of the header at index `i`.
pub open spec fn named_at(headers: Seq<(String, String)>, name: Seq<char>, i: int) -> bool {
    0 <= i < headers.len() && headers[i].0@ == name
}

/// The headers as a map from each name to its value.
pub open spec fn header_map(headers: Seq<(String, String)>) -> Map<Seq<char>, Seq<char>> {
    Map::new(
        |name: Seq<char>| exists|i: int| named_at(headers, name, i),
        |name: Seq<char>| headers[choose|i: int| named_at(headers, name, i)].1@,
    )
}

/// The address of the model gateway.
pub open spec fn gateway() -> Seq<char> {
    "https://api.openai.com"@
}

/// The URL for what follows the gateway's address: the two with exactly one
/// slash between them, which is added where the suffix does not bring it.
pub open spec fn url_of(url_suffix: Seq<char>) -> Seq<char> {
    if url_suffix.len() > 0 && url_suffix[0] == '/' {
        gateway() + url_suffix
    } else {
        gateway() + "/"@ + url_suffix
    }
}

/// Putting a header behind headers that do not name it adds it to the map.
proof fn lemma_header_added(headers: Seq<(String, String)>, name: String, value: String)
    requires
        names_once(headers),
        forall|i: int| 0 <= i < headers.len() ==> (#[trigger] headers[i]).0@ != name@,
    ensures
        names_once(headers.push((name, value))),
        header_map(headers.push((name, value))) == header_map(headers).insert(name@, value@),
{
    let grown = headers.push((name, value));
    let last = headers.len() as int;
    assert(named_at(grown, name@, last));
    assert forall|key: Seq<char>| #[trigger]
        header_map(grown).dom().contains(key) <==> header_map(headers).insert(
            name@,
            value@,
        ).dom().contains(key) by {
        if header_map(grown).dom().contains(key) {
            let i = choose|i: int| named_at(grown, key, i);
            if i < last {
                assert(named_at(headers, key, i));
            }
        }
        if header_map(headers).dom().contains(key) {
            let i = choose|i: int| named_at(headers, key, i);
            assert(named_at(grown, key, i));
        }
    }
    assert forall|key: Seq<char>| #[trigger]
        header_map(grown).dom().contains(key) implies header_map(grown)[key] == header_map(
        headers,
    ).insert(name@, value@)[key] by {
        let i = choose|i: int| named_at(grown, key, i);
        let j = choose|j: int| named_at(headers, key, j);
        assert(key != name@ ==> i == j);
    }
}

/// Giving the header at index `at` a new value under its old name changes
/// the map at that name and nowhere else.
proof fn lemma_header_replaced(
    headers: Seq<(String, String)>,
    at: int,
    name: String,
    value: String,
)
    requires
        names_once(headers),
        0 <= at < headers.len(),
        headers[at].0@ == name@,
    ensures
        names_once(headers.update(at, (name, value))),
        header_map(headers.update(at, (name, value))) == header_map(headers).insert(
            name@,
            value@,
        ),
{
    let changed = headers.update(at, (name, value));
    assert forall|i: int, j: int| 0 <= i < j < changed.len() implies (#[trigger] changed[i]).0@ != (
    #[trigger] changed[j]).0@ by {}
    assert forall|key: Seq<char>, i: int| named_at(changed, key, i) <==> named_at(
        headers,
        key,
        i,
    ) by {}
    assert(named_at(changed, name@, at));
    assert forall|key: Seq<char>| #[trigger]
        header_map(changed).dom().contains(key) implies header_map(changed)[key] == header_map(
        headers,
    ).insert(name@, value@)[key] by {
        let i = choose|i: int| named_at(changed, key, i);
        let j = choose|j: int| named_at(headers, key, j);
        assert(i == j);
    }
}

impl View for Req {
    type V = ReqView;

    closed spec fn view(&self) -> ReqView {
        ReqView {
            method: self.method,
            url_suffix: self.url_suffix@,
            headers: header_map(self.headers@),
            body: match self.body {
                Some(text) => Some(text@),
                None => None,
            },
        }
    }
}

impl Req {
    #[verifier::type_invariant]
    spec fn names_stay_unique(self) -> bool {
        names_once(self.headers@)
    }

    /// A request without headers and without a body.
    pub fn new(method: Method, url_suffix: &str) -> (req: Req)
        ensures
            req@ == (ReqView {
                method,
                url_suffix: url_suffix@,
                headers: Map::empty(),
                body: None,
            }),
    {
        let req = Req {
            method,
            url_suffix: String::from_str(url_suffix),
            headers: Vec::new(),
            body: None,
        };
        proof {
            assert(header_map(req.headers@) =~= Map::empty());
        }
        req
    }

    /// The request with the header `key` set to `value`, in place of the
    /// value that it had, if it had one.
    pub fn header(self, key: &str, value: &str) -> (req: Req)
        ensures
            req@ == (ReqView { headers: self@.headers.insert(key@, value@), ..self@ }),
    {
        proof {
            use_type_invariant(&self);
        }
        let Req { method, url_suffix, headers, body } = self;
        let mut headers = headers;
        let name = String::from_str(key);
        let content = String::from_str(value);
        let ghost before = headers@;
        let mut i: usize = 0;
        while i < headers.len() && !(headers[i].0 == name)
            invariant
                i <= headers.len(),
                headers@ == before,
                forall|j: int| 0 <= j < i ==> (#[trigger] before[j]).0@ != name@,
            decreases headers.len() - i,
        {
            i += 1;
        }
        if i < headers.len() {
            proof {
                lemma_header_replaced(before, i as int, name, content);
            }
            headers.set(i, (name, content));
        } else {
            proof {
                lemma_header_added(before, name, content);
            }
            headers.push((name, content));
        }
        Req { method, url_suffix, headers, body }
    }

    /// The request with `body` as its body: the JSON text of what is sent.
    pub fn json(self, body: String) -> (req: Req)
        ensures
            req@ == (ReqView { body: Some(body@), ..self@ }),
    {
        proof {
            use_type_invariant(&self);
        }
        let Req { method, url_suffix, headers, body: _ } = self;
        Req { method, url_suffix, headers, body: Some(body) }
    }

    /// The method of the request.
    pub fn method(&self) -> (method: Method)
        ensures
            method == self@.method,
    {
        self.method
    }

    /// What follows the gateway's address in the URL.
    pub fn url_suffix(&self) -> (url_suffix: &str)
        ensures
            url_suffix@ == self@.url_suffix,
    {
        self.url_suffix.as_str()
    }

    /// The headers, each name once.
    pub fn headers(&self) -> (headers: &Vec<(String, String)>)
        ensures
            names_once(headers@),
            header_map(headers@) == self@.headers,
    {
        proof {
            use_type_invariant(self);
        }
        &self.headers
    }

    /// The body, if there is one.
    pub fn body(&self) -> (body: Option<&str>)
        ensures
            match body {
                Some(text) => self@.body == Some(text@),
                None => self@.body is None,
            },
    {
        match &self.body {
            Some(text) => Some(text.as_str()),
            None => None,
        }
    }

    /// The URL that the request goes to.
    pub fn url(&self) -> (url: String)
        ensures
            url@ == url_of(self@.url_suffix),
    {
        endpoint_url(self.url_suffix.as_str())
    }
}

/// The URL for what follows the gateway's address.
pub fn endpoint_url(url_suffix: &str) -> (url: String)
    ensures
        url@ == url_of(url_suffix@),
{
    let mut url = String::from_str("https://api.openai.com");
    if url_suffix.is_empty() || url_suffix.get_char(0) != '/' {
        url.append("/");
    }
    url.append(url_suffix);
    url
}

/// The request that posts `body`, the JSON text of an edit request, to the
/// "edits" endpoint.
pub fn edits_endpoint(body: String) -> (req: Req)
    ensures
        req@ == (ReqView {
            method: Method::Post,
            url_suffix: "/v1/edits"@,
            headers: Map::<Seq<char>, Seq<char>>::empty().insert(
                "Content-Type"@,
                "application/json"@,
            ),
            body: Some(body@),
        }),
{
    Req::new(Method::Post, "/v1/edits").header("Content-Type", "application/json").json(body)
}

/// The request that posts `body`, the JSON text of a chat completion
/// request, to the "chat/completions" endpoint.
pub fn chat_completions_endpoint(body: String) -> (req: Req)
    ensures
        req@ == (ReqView {
            method: Method::Post,
            url_suffix: "/v1/chat/completions"@,
            headers: Map::<Seq<char>, Seq<char>>::empty().insert(
                "Content-Type"@,
                "application/json"@,
            ),
            body: Some(body@),
        }),
{
    Req::new(Method::Post, "/v1/chat/completions").header(
        "Content-Type",
        "application/json",
    ).json(body)
}

} // verus!
