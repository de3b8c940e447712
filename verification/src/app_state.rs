//! The state of the application: the request that is being edited, the
//! response to the last one, and the requests that were sent.

use crate::response::Response;
use crate::utf8::same_text;
use vstd::prelude::*;
use vstd::string::StringExecFns;

verus! {

/// The methods by which a request can be sent.
#[derive(Clone, Copy, Debug, PartialEq, Eq, Structural)]
pub enum HttpMethod {
    /// GET.
    Get,
    /// POST.
    Post,
    /// PUT.
    Put,
    /// DELETE.
    Delete,
    /// PATCH.
    Patch,
}

/// The method that a name stands for. A name that is none of POST, PUT,
/// DELETE and PATCH stands for GET.
pub open spec fn method_of(name: Seq<char>) -> HttpMethod {
    if name == "POST"@ {
        HttpMethod::Post
    } else if name == "PUT"@ {
        HttpMethod::Put
    } else if name == "DELETE"@ {
        HttpMethod::Delete
    } else if name == "PATCH"@ {
        HttpMethod::Patch
    } else {
        HttpMethod::Get
    }
}

/// The name of the method that the method selector shows after the
/// method named `name`: GET, POST, PUT, DELETE and PATCH in a circle, and
/// GET after any other name.
pub open spec fn method_after(name: Seq<char>) -> Seq<char> {
    if name == "GET"@ {
        "POST"@
    } else if name == "POST"@ {
        "PUT"@
    } else if name == "PUT"@ {
        "DELETE"@
    } else if name == "DELETE"@ {
        "PATCH"@
    } else {
        "GET"@
    }
}

/// The method that the name `name` stands for.
pub fn http_method(name: &str) -> (method: HttpMethod)
    ensures
        method == method_of(name@),
{
    if same_text(name, "POST") {
        HttpMethod::Post
    } else if same_text(name, "PUT") {
        HttpMethod::Put
    } else if same_text(name, "DELETE") {
        HttpMethod::Delete
    } else if same_text(name, "PATCH") {
        HttpMethod::Patch
    } else {
        HttpMethod::Get
    }
}

/// The name of the method that comes after the method named `name`.
pub fn next_method(name: &str) -> (next: &'static str)
    ensures
        next@ == method_after(name@),
{
    if same_text(name, "GET") {
        "POST"
    } else if same_text(name, "POST") {
        "PUT"
    } else if same_text(name, "PUT") {
        "DELETE"
    } else if same_text(name, "DELETE") {
        "PATCH"
    } else {
        "GET"
    }
}

/// The line that the history keeps of a request: its method, a space,
/// and its address.
pub fn history_entry(method: &str, url: &str) -> (entry: String)
    ensures
        entry@ == method@ + " "@ + url@,
{
    let mut entry = String::from_str(method);
    entry.append(" ");
    entry.append(url);
    entry
}

/// Tells whether a request carries its body: every request but a GET
/// does, if the body is not empty.
pub fn sends_body(method: &str, body: &str) -> (b: bool)
    ensures
        b == (method@ != "GET"@ && body@.len() > 0),
{
    !same_text(method, "GET") && !body.is_empty()
}

/// The rows of `rows` with a key that is not empty, in their order.
pub open spec fn filled(rows: Seq<(String, String)>) -> Seq<(String, String)> {
    rows.filter(|row: (String, String)| row.0@.len() > 0)
}

/// A copy of the rows with a key that is not empty, in their order.
pub fn filled_rows(rows: &Vec<(String, String)>) -> (kept: Vec<(String, String)>)
    ensures
        kept@ == filled(rows@),
{
    let mut kept: Vec<(String, String)> = Vec::new();
    let n = rows.len();
    let mut i: usize = 0;
    proof {
        assert(rows@.take(0) =~= Seq::<(String, String)>::empty());
    }
    while i < n
        invariant
            n == rows@.len(),
            0 <= i <= n,
            kept@ == filled(rows@.take(i as int)),
        decreases n - i,
    {
        let row = &rows[i];
        proof {
            let keep = |row: (String, String)| row.0@.len() > 0;
            assert(rows@.take(i + 1).drop_last() =~= rows@.take(i as int));
            reveal(Seq::filter);
        }
        if !row.0.as_str().is_empty() {
            kept.push((row.0.clone(), row.1.clone()));
        }
        i = i + 1;
    }
    proof {
        assert(rows@.take(n as int) =~= rows@);
    }
    kept
}

/// The last `limit` entries of `history`, the newest first.
pub open spec fn newest(history: Seq<String>, limit: int) -> Seq<String> {
    Seq::new(
        (if history.len() <= limit {
            history.len()
        } else {
            limit as nat
        }),
        |i: int| history[history.len() - 1 - i],
    )
}

/// What is to be sent: the work that `AppState::send_request` leaves to
/// whoever talks to the network.
#[derive(Clone, Debug)]
pub struct RequestPlan {
    /// The method.
    pub method: HttpMethod,
    /// The address, as it was typed.
    pub url: String,
    /// The parameters to add to the query of the address.
    pub queries: Vec<(String, String)>,
    /// The header fields.
    pub headers: Vec<(String, String)>,
    /// The body, if the request carries one.
    pub body: Option<String>,
}

/// The request that is being edited, the response to the last request,
/// and the history of the requests that were sent.
#[derive(Clone, Debug)]
pub struct AppState {
    /// The address.
    pub url: String,
    /// The name of the method.
    pub method: String,
    /// One line for each request that was sent, the oldest first.
    pub history: Vec<String>,
    /// The response to the last request, once it came.
    pub response: Option<Response>,
    /// The body.
    pub body: String,
    /// The header fields.
    pub headers: Vec<(String, String)>,
    /// The parameters of the query.
    pub queries: Vec<(String, String)>,
}

/// A copy of `rows`.
fn copy_rows(rows: &Vec<(String, String)>) -> (copy: Vec<(String, String)>)
    ensures
        copy@ == rows@,
{
    let mut copy: Vec<(String, String)> = Vec::new();
    let n = rows.len();
    let mut i: usize = 0;
    while i < n
        invariant
            n == rows@.len(),
            0 <= i <= n,
            copy@ == rows@.take(i as int),
        decreases n - i,
    {
        let row = &rows[i];
        copy.push((row.0.clone(), row.1.clone()));
        proof {
            assert(copy@ =~= rows@.take(i + 1));
        }
        i = i + 1;
    }
    proof {
        assert(rows@.take(n as int) =~= rows@);
    }
    copy
}

impl AppState {
    /// The state in which the application starts.
    pub fn new() -> (state: Self)
        ensures
            state.url@ == "https://api.github.com"@,
            state.method@ == "GET"@,
            state.history@.len() == 0,
            state.response is None,
            state.body@.len() == 0,
            state.headers@.len() == 0,
            state.queries@.len() == 0,
    {
        AppState {
            url: String::from_str("https://api.github.com"),
            method: String::from_str("GET"),
            history: Vec::new(),
            response: None,
            body: String::new(),
            headers: Vec::new(),
            queries: Vec::new(),
        }
    }

    /// Begins a request: the last response is forgotten, the history
    /// gets a line, and what is to be sent is handed out.
    pub fn send_request(&mut self) -> (plan: RequestPlan)
        ensures
            final(self).response is None,
            final(self).history@.len() == old(self).history@.len() + 1,
            final(self).history@.drop_last() == old(self).history@,
            final(self).history@.last()@ == old(self).method@ + " "@ + old(self).url@,
            final(self).url == old(self).url,
            final(self).method == old(self).method,
            final(self).body == old(self).body,
            final(self).headers == old(self).headers,
            final(self).queries == old(self).queries,
            plan.method == method_of(old(self).method@),
            plan.url@ == old(self).url@,
            plan.queries@ == old(self).queries@,
            plan.headers@ == old(self).headers@,
            match plan.body {
                Some(body) => body@ == old(self).body@ && old(self).method@ != "GET"@
                    && old(self).body@.len() > 0,
                None => old(self).method@ == "GET"@ || old(self).body@.len() == 0,
            },
    {
        self.response = None;
        let body = if sends_body(self.method.as_str(), self.body.as_str()) {
            Some(self.body.clone())
        } else {
            None
        };
        let plan = RequestPlan {
            method: http_method(self.method.as_str()),
            url: self.url.clone(),
            queries: copy_rows(&self.queries),
            headers: copy_rows(&self.headers),
            body,
        };
        let entry = history_entry(self.method.as_str(), self.url.as_str());
        self.history.push(entry);
        proof {
            assert(final(self).history@.drop_last() =~= old(self).history@);
        }
        plan
    }

    /// Keeps the response to the request that was sent.
    pub fn receive(&mut self, response: Response)
        ensures
            final(self).response == Some(response),
            final(self).url == old(self).url,
            final(self).method == old(self).method,
            final(self).history == old(self).history,
            final(self).body == old(self).body,
            final(self).headers == old(self).headers,
            final(self).queries == old(self).queries,
    {
        self.response = Some(response);
    }

    /// The last `limit` lines of the history, the newest first.
    pub fn recent_history(&self, limit: usize) -> (lines: Vec<String>)
        ensures
            lines@ == newest(self.history@, limit as int),
    {
        let mut lines: Vec<String> = Vec::new();
        let n = self.history.len();
        let count = if n <= limit {
            n
        } else {
            limit
        };
        let mut i: usize = 0;
        while i < count
            invariant
                n == self.history@.len(),
                count <= n,
                0 <= i <= count,
                lines@.len() == i,
                forall|j: int| 0 <= j < i ==> lines@[j] == self.history@[n - 1 - j],
            decreases count - i,
        {
            lines.push(self.history[n - 1 - i].clone());
            i = i + 1;
        }
        proof {
            assert(lines@ =~= newest(self.history@, limit as int));
        }
        lines
    }

    /// Sets the address.
    pub fn update_url(&mut self, url: String)
        ensures
            *final(self) == (AppState { url, ..*old(self) }),
    {
        self.url = url;
    }

    /// Sets the name of the method.
    pub fn update_method(&mut self, method: String)
        ensures
            *final(self) == (AppState { method, ..*old(self) }),
    {
        self.method = method;
    }

    /// Sets the body.
    pub fn update_body(&mut self, body: String)
        ensures
            *final(self) == (AppState { body, ..*old(self) }),
    {
        self.body = body;
    }

    /// Sets the header fields.
    pub fn update_headers(&mut self, headers: Vec<(String, String)>)
        ensures
            *final(self) == (AppState { headers, ..*old(self) }),
    {
        self.headers = headers;
    }

    /// Sets the parameters of the query.
    pub fn update_queries(&mut self, queries: Vec<(String, String)>)
        ensures
            *final(self) == (AppState { queries, ..*old(self) }),
    {
        self.queries = queries;
    }
}

} // verus!
