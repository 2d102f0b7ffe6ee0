//! The outbound half of the request translator: from the payload of an event
//! to the HTTP request that the dispatcher sends.
//!
//! The payload fields that shape a request are `url`, `path`, `method`,
//! `headers` and `body`.

use crate::headers::{headers_view, Header};
use crate::json::{members_view, Json, JsonView};
use crate::text::{
    ascii_upper_seq, eq_ignore_ascii_case, opt_str_view, opt_string_view,
    same_ignoring_ascii_case, trim_end, trim_end_matches,
};
use vstd::prelude::*;
use vstd::string::*;

verus! {

/// The methods that the dispatcher can send.
#[derive(Clone, Copy, Debug, PartialEq, Eq, Structural)]
pub enum Method {
    Get,
    Post,
    Put,
    Delete,
    Patch,
}

/// The payload names neither a `url` nor a `path` that is a string.
#[derive(Clone, Copy, Debug, PartialEq, Eq, Structural)]
pub struct MissingTarget;

/// What to send for one event. It is made for one dispatch and kept no
/// longer.
#[derive(Clone, Debug, PartialEq, Eq)]
pub struct RequestSpec {
    /// The target, as the payload gave it.
    pub url: String,
    pub method: Method,
    /// The headers to add, in the order in which they are added.
    pub headers: Vec<Header>,
    /// What is sent as JSON; without one the request has no body.
    pub body: Option<Json>,
}

/// The mathematical value of a [`RequestSpec`].
pub struct RequestSpecView {
    pub url: Seq<char>,
    pub method: Method,
    pub headers: Seq<(Seq<char>, Seq<char>)>,
    pub body: Option<JsonView>,
}

impl View for RequestSpec {
    type V = RequestSpecView;

    open spec fn view(&self) -> RequestSpecView {
        RequestSpecView {
            url: self.url@,
            method: self.method,
            headers: headers_view(self.headers@),
            body: match self.body {
                Some(b) => Some(b@),
                None => None,
            },
        }
    }
}

/// The view of a translation's outcome.
pub open spec fn outcome_view(r: Result<RequestSpec, MissingTarget>) -> Result<
    RequestSpecView,
    MissingTarget,
> {
    match r {
        Ok(spec) => Ok(spec@),
        Err(e) => Err(e),
    }
}

/// A path behind a base URL: the base loses every `/` at its end, and the
/// path follows as it is.
pub open spec fn join_url(base: Seq<char>, path: Seq<char>) -> Seq<char> {
    trim_end(base, '/') + path
}

/// The target of a payload. A `url` that is a string is used as it is.
/// Failing that, a `path` that is a string is put behind the base URL, or
/// used as it is where no base is configured.
pub open spec fn target_of(payload: JsonView, base_url: Option<Seq<char>>) -> Option<Seq<char>> {
    match payload.text_at("url"@) {
        Some(url) => Some(url),
        None => match payload.text_at("path"@) {
            Some(path) => match base_url {
                Some(base) => Some(join_url(base, path)),
                None => Some(path),
            },
            None => None,
        },
    }
}

/// The method that a name stands for: the name is compared in upper case,
/// and whatever is none of the five methods means `POST`. Only ASCII letters
/// are raised; a name with any other character is none of the five.
pub open spec fn method_named(name: Seq<char>) -> Method {
    let upper = ascii_upper_seq(name);
    if upper == "GET"@ {
        Method::Get
    } else if upper == "PUT"@ {
        Method::Put
    } else if upper == "DELETE"@ {
        Method::Delete
    } else if upper == "PATCH"@ {
        Method::Patch
    } else {
        Method::Post
    }
}

/// The method of a payload: that of its `method` if it is a string, else
/// `POST`.
pub open spec fn method_of(payload: JsonView) -> Method {
    match payload.text_at("method"@) {
        Some(name) => method_named(name),
        None => Method::Post,
    }
}

/// Whether every member holds a string.
pub open spec fn all_text(members: Seq<(Seq<char>, JsonView)>) -> bool {
    forall|i: int| 0 <= i < members.len() ==> (#[trigger] members[i]).1 is Text
}

/// The members as pairs of name and text.
pub open spec fn text_pairs(members: Seq<(Seq<char>, JsonView)>) -> Seq<(Seq<char>, Seq<char>)> {
    Seq::new(members.len(), |i: int| (members[i].0, members[i].1->Text_0))
}

/// The extra headers of a payload: the members of its `headers`, in their
/// order, where that is an object whose values are all strings; none
/// otherwise.
pub open spec fn headers_of(payload: JsonView) -> Seq<(Seq<char>, Seq<char>)> {
    match payload.get("headers"@) {
        Some(JsonView::Object(members)) => if all_text(members) {
            text_pairs(members)
        } else {
            Seq::empty()
        },
        _ => Seq::empty(),
    }
}

/// The body of a payload: its `body` where that is present and not null,
/// else the whole payload.
pub open spec fn body_of(payload: JsonView) -> JsonView {
    match payload.get("body"@) {
        Some(body) => if body is Null {
            payload
        } else {
            body
        },
        None => payload,
    }
}

/// The request that a payload asks for, or `MissingTarget`.
pub open spec fn request_of(payload: JsonView, base_url: Option<Seq<char>>) -> Result<
    RequestSpecView,
    MissingTarget,
> {
    match target_of(payload, base_url) {
        Some(url) => Ok(
            RequestSpecView {
                url,
                method: method_of(payload),
                headers: headers_of(payload),
                body: Some(body_of(payload)),
            },
        ),
        None => Err(MissingTarget),
    }
}

impl Method {
    /// The method's name as HTTP writes it.
    pub open spec fn name(self) -> Seq<char> {
        match self {
            Method::Get => "GET"@,
            Method::Post => "POST"@,
            Method::Put => "PUT"@,
            Method::Delete => "DELETE"@,
            Method::Patch => "PATCH"@,
        }
    }

    /// The method's name as HTTP writes it.
    pub fn as_str(&self) -> (name: &'static str)
        ensures
            name@ == self.name(),
    {
        match self {
            Method::Get => "GET",
            Method::Post => "POST",
            Method::Put => "PUT",
            Method::Delete => "DELETE",
            Method::Patch => "PATCH",
        }
    }

    /// The method that `name` stands for.
    pub fn from_name(name: &str) -> (method: Method)
        ensures
            method == method_named(name@),
    {
        proof {
            reveal_strlit("GET");
            reveal_strlit("PUT");
            reveal_strlit("DELETE");
            reveal_strlit("PATCH");
            assert(ascii_upper_seq("GET"@) =~= "GET"@);
            assert(ascii_upper_seq("PUT"@) =~= "PUT"@);
            assert(ascii_upper_seq("DELETE"@) =~= "DELETE"@);
            assert(ascii_upper_seq("PATCH"@) =~= "PATCH"@);
        }
        if eq_ignore_ascii_case(name, "GET") {
            Method::Get
        } else if eq_ignore_ascii_case(name, "PUT") {
            Method::Put
        } else if eq_ignore_ascii_case(name, "DELETE") {
            Method::Delete
        } else if eq_ignore_ascii_case(name, "PATCH") {
            Method::Patch
        } else {
            Method::Post
        }
    }
}

/// Extracts the target URL from the payload of an event.
pub fn extract_url(payload: &Json, base_url: Option<&str>) -> (url: Option<String>)
    ensures
        opt_string_view(url) == target_of(payload@, opt_str_view(base_url)),
{
    if let Some(url) = payload.text_at("url") {
        return Some(String::from_str(url));
    }
    if let Some(path) = payload.text_at("path") {
        if let Some(base) = base_url {
            return Some(trim_end_matches(base, '/').concat(path));
        }
        return Some(String::from_str(path));
    }
    None
}

/// The method of a payload.
pub fn resolve_method(payload: &Json) -> (method: Method)
    ensures
        method == method_of(payload@),
{
    match payload.text_at("method") {
        Some(name) => Method::from_name(name),
        None => Method::Post,
    }
}

/// The extra headers of a payload.
pub fn resolve_headers(payload: &Json) -> (headers: Vec<Header>)
    ensures
        headers_view(headers@) == headers_of(payload@),
{
    let mut headers: Vec<Header> = Vec::new();
    assert(headers_view(headers@) =~= Seq::empty());
    let members = match payload.get("headers") {
        Some(value) => match value.as_object() {
            Some(members) => members,
            None => {
                return headers;
            },
        },
        None => {
            return headers;
        },
    };
    let ghost views = members_view(members@);
    let mut i: usize = 0;
    while i < members.len()
        invariant
            i <= members.len(),
            views == members_view(members@),
            payload@.get("headers"@) == Some(JsonView::Object(views)),
            headers@.len() == i,
            forall|j: int| 0 <= j < i ==> (#[trigger] views[j]).1 is Text,
            forall|j: int| 0 <= j < i ==> (#[trigger] headers@[j])@ == text_pairs(views)[j],
        decreases members.len() - i,
    {
        match members[i].value.as_str() {
            Some(text) => {
                headers.push(
                    Header { name: members[i].name.clone(), value: String::from_str(text) },
                );
            },
            None => {
                assert(!(views[i as int].1 is Text));
                let none: Vec<Header> = Vec::new();
                assert(headers_view(none@) =~= Seq::empty());
                return none;
            },
        }
        i += 1;
    }
    assert(all_text(views));
    assert(headers_view(headers@) =~= text_pairs(views));
    headers
}

/// The body of a payload.
pub fn resolve_body(payload: &Json) -> (body: Json)
    ensures
        body@ == body_of(payload@),
{
    match payload.get("body") {
        Some(body) => if body.is_null() {
            payload.clone()
        } else {
            body.clone()
        },
        None => payload.clone(),
    }
}

/// Translates the payload of an event into the request to send. It fails
/// exactly when the payload has no `url` and no `path` that is a string.
pub fn to_request(payload: &Json, base_url: Option<&str>) -> (out: Result<
    RequestSpec,
    MissingTarget,
>)
    ensures
        outcome_view(out) == request_of(payload@, opt_str_view(base_url)),
{
    match extract_url(payload, base_url) {
        Some(url) => Ok(
            RequestSpec {
                url,
                method: resolve_method(payload),
                headers: resolve_headers(payload),
                body: Some(resolve_body(payload)),
            },
        ),
        None => Err(MissingTarget),
    }
}

/// A run of `n` slashes.
pub open spec fn slashes(n: nat) -> Seq<char> {
    Seq::new(n, |i: int| '/')
}

/// Trimming takes off a run of slashes that was put behind a text.
pub proof fn lemma_trim_end_slashes(base: Seq<char>, n: nat)
    ensures
        trim_end(base + slashes(n), '/') == trim_end(base, '/'),
    decreases n,
{
    if n == 0 {
        assert(base + slashes(0) =~= base);
    } else {
        let longer = base + slashes(n);
        assert(longer.last() == '/');
        assert(longer.drop_last() =~= base + slashes((n - 1) as nat));
        lemma_trim_end_slashes(base, (n - 1) as nat);
    }
}

/// The target of a payload does not depend on how many slashes end the base
/// URL.
pub proof fn law_trailing_slashes_ignored(payload: JsonView, base: Seq<char>, n: nat)
    ensures
        target_of(payload, Some(base + slashes(n))) == target_of(payload, Some(base)),
{
    lemma_trim_end_slashes(base, n);
}

/// Where the payload has a `path` and no `url` that is a string, and the
/// base URL is `base` followed by any number of slashes, `base` itself not
/// ending in one, the target is `base` followed by the path.
pub proof fn law_path_joins_base(payload: JsonView, base: Seq<char>, path: Seq<char>, n: nat)
    requires
        payload.text_at("url"@) is None,
        payload.text_at("path"@) == Some(path),
        base.len() == 0 || base.last() != '/',
    ensures
        target_of(payload, Some(base + slashes(n))) == Some(base + path),
{
    lemma_trim_end_slashes(base, n);
}

/// Each method is the one that its own name stands for.
pub proof fn law_method_names_round_trip(method: Method)
    ensures
        method_named(method.name()) == method,
{
    reveal_strlit("GET");
    reveal_strlit("POST");
    reveal_strlit("PUT");
    reveal_strlit("DELETE");
    reveal_strlit("PATCH");
    assert(ascii_upper_seq(method.name()) =~= method.name());
    assert("GET"@[0] != "PUT"@[0]);
    assert("GET"@.len() == 3 && "PUT"@.len() == 3 && "POST"@.len() == 4 && "PATCH"@.len() == 5
        && "DELETE"@.len() == 6);
}

/// Translation fails exactly when the payload has neither a `url` nor a
/// `path` that is a string; the base URL plays no part in that.
pub proof fn law_missing_target(payload: JsonView, base_url: Option<Seq<char>>)
    ensures
        request_of(payload, base_url) is Err <==> payload.text_at("url"@) is None
            && payload.text_at("path"@) is None,
{
}

/// A payload without a `method` is sent with `POST`.
pub proof fn law_method_defaults_to_post(payload: JsonView)
    requires
        payload.get("method"@) is None,
    ensures
        method_of(payload) == Method::Post,
{
}

/// The case of the letters of a method's name makes no difference.
pub proof fn law_method_ignores_case(a: Seq<char>, b: Seq<char>)
    requires
        same_ignoring_ascii_case(a, b),
    ensures
        method_named(a) == method_named(b),
{
}

/// Translation is a function of the payload and the base URL: two
/// translations of the same input are the same request, or both fail.
pub proof fn law_translation_deterministic(
    payload: JsonView,
    base_url: Option<Seq<char>>,
    first: Result<RequestSpec, MissingTarget>,
    second: Result<RequestSpec, MissingTarget>,
)
    requires
        outcome_view(first) == request_of(payload, base_url),
        outcome_view(second) == request_of(payload, base_url),
    ensures
        outcome_view(first) == outcome_view(second),
{
}

} // verus!
