//! Request shaping. Each source describes one HTTP round-trip as a plain
//! value: method, URL, query parameters, headers and form fields. The caller
//! that owns the HTTP client performs the round-trip.

use vstd::prelude::*;

verus! {

/// The HTTP verb of a request.
pub enum HttpMethod {
    Get,
    Post,
}

/// One HTTP round-trip, described as plain values.
pub struct HttpRequest {
    pub method: HttpMethod,
    pub url: String,
    /// Query-string parameters, in order.
    pub params: Vec<(String, String)>,
    /// Request headers, in order.
    pub headers: Vec<(String, String)>,
    /// Form fields of a POST body, in order.
    pub form: Vec<(String, String)>,
}

/// The view of a list of string pairs.
pub open spec fn pairs_view(v: Seq<(String, String)>) -> Seq<(Seq<char>, Seq<char>)> {
    v.map_values(|p: (String, String)| (p.0@, p.1@))
}

impl HttpRequest {
    /// The view of the query parameters.
    pub open spec fn params_view(&self) -> Seq<(Seq<char>, Seq<char>)> {
        pairs_view(self.params@)
    }

    /// The view of the headers.
    pub open spec fn headers_view(&self) -> Seq<(Seq<char>, Seq<char>)> {
        pairs_view(self.headers@)
    }

    /// The view of the form fields.
    pub open spec fn form_view(&self) -> Seq<(Seq<char>, Seq<char>)> {
        pairs_view(self.form@)
    }

    /// A fresh GET request for `url`, with no parameters yet.
    pub fn get(url: String) -> (r: HttpRequest)
        ensures
            r.method is Get,
            r.url@ == url@,
            r.params_view() == Seq::<(Seq<char>, Seq<char>)>::empty(),
            r.headers_view() == Seq::<(Seq<char>, Seq<char>)>::empty(),
            r.form_view() == Seq::<(Seq<char>, Seq<char>)>::empty(),
    {
        let r = HttpRequest {
            method: HttpMethod::Get,
            url,
            params: Vec::new(),
            headers: Vec::new(),
            form: Vec::new(),
        };
        proof {
            assert(r.params_view() =~= Seq::<(Seq<char>, Seq<char>)>::empty());
            assert(r.headers_view() =~= Seq::<(Seq<char>, Seq<char>)>::empty());
            assert(r.form_view() =~= Seq::<(Seq<char>, Seq<char>)>::empty());
        }
        r
    }

    /// A fresh POST request for `url`, with no fields yet.
    pub fn post(url: String) -> (r: HttpRequest)
        ensures
            r.method is Post,
            r.url@ == url@,
            r.params_view() == Seq::<(Seq<char>, Seq<char>)>::empty(),
            r.headers_view() == Seq::<(Seq<char>, Seq<char>)>::empty(),
            r.form_view() == Seq::<(Seq<char>, Seq<char>)>::empty(),
    {
        let r = HttpRequest {
            method: HttpMethod::Post,
            url,
            params: Vec::new(),
            headers: Vec::new(),
            form: Vec::new(),
        };
        proof {
            assert(r.params_view() =~= Seq::<(Seq<char>, Seq<char>)>::empty());
            assert(r.headers_view() =~= Seq::<(Seq<char>, Seq<char>)>::empty());
            assert(r.form_view() =~= Seq::<(Seq<char>, Seq<char>)>::empty());
        }
        r
    }

    /// Append one query parameter.
    pub fn param(&mut self, k: &str, v: String)
        ensures
            final(self).method == old(self).method,
            final(self).url == old(self).url,
            final(self).params_view() == old(self).params_view().push((k@, v@)),
            final(self).headers_view() == old(self).headers_view(),
            final(self).form_view() == old(self).form_view(),
    {
        let ghost pre = self.params_view();
        self.params.push((k.to_owned(), v));
        proof {
            assert(self.params_view() =~= pre.push((k@, v@)));
        }
    }

    /// Append one header.
    pub fn header(&mut self, k: &str, v: String)
        ensures
            final(self).method == old(self).method,
            final(self).url == old(self).url,
            final(self).params_view() == old(self).params_view(),
            final(self).headers_view() == old(self).headers_view().push((k@, v@)),
            final(self).form_view() == old(self).form_view(),
    {
        let ghost pre = self.headers_view();
        self.headers.push((k.to_owned(), v));
        proof {
            assert(self.headers_view() =~= pre.push((k@, v@)));
        }
    }

    /// Append one form field.
    pub fn form_field(&mut self, k: &str, v: String)
        ensures
            final(self).method == old(self).method,
            final(self).url == old(self).url,
            final(self).params_view() == old(self).params_view(),
            final(self).headers_view() == old(self).headers_view(),
            final(self).form_view() == old(self).form_view().push((k@, v@)),
    {
        let ghost pre = self.form_view();
        self.form.push((k.to_owned(), v));
        proof {
            assert(self.form_view() =~= pre.push((k@, v@)));
        }
    }
}

/// The default headers every client carries: content negotiation for HTML,
/// US English, and gzip compression.
pub fn defaults_headers() -> (r: Vec<(String, String)>)
    ensures
        pairs_view(r@) == seq![
            ("Accept"@, "text/html,application/xhtml+xml,application/xml;q=0.9,image/webp,*/*;q=0.8"@),
            ("Accept-Language"@, "en-US,en;q=0.8"@),
            ("Accept-Encoding"@, "gzip"@),
        ],
{
    let mut r: Vec<(String, String)> = Vec::new();
    r.push(
        (
            "Accept".to_owned(),
            "text/html,application/xhtml+xml,application/xml;q=0.9,image/webp,*/*;q=0.8".to_owned(),
        ),
    );
    r.push(("Accept-Language".to_owned(), "en-US,en;q=0.8".to_owned()));
    r.push(("Accept-Encoding".to_owned(), "gzip".to_owned()));
    proof {
        assert(pairs_view(r@) =~= seq![
            ("Accept"@, "text/html,application/xhtml+xml,application/xml;q=0.9,image/webp,*/*;q=0.8"@),
            ("Accept-Language"@, "en-US,en;q=0.8"@),
            ("Accept-Encoding"@, "gzip"@),
        ]);
    }
    r
}

} // verus!
