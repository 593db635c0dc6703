//! A plain model of an HTTP response: status code, ordered headers, and body
//! bytes. Stored idempotency records replay these byte for byte, so the type
//! carries an exact mathematical view.

use vstd::prelude::*;

verus! {

/// The mathematical value of an [`HttpResponse`].
pub ghost struct RespModel {
    pub status: u16,
    pub headers: Seq<(Seq<char>, Seq<char>)>,
    pub body: Seq<u8>,
}

/// An HTTP response as handed back to the transport layer: a status code, an
/// ordered list of header name/value pairs, and the body bytes.
#[derive(Debug)]
pub struct HttpResponse {
    pub status: u16,
    pub headers: Vec<(String, String)>,
    pub body: Vec<u8>,
}

impl View for HttpResponse {
    type V = RespModel;

    open spec fn view(&self) -> RespModel {
        RespModel { status: self.status, headers: self.headers.deep_view(), body: self.body@ }
    }
}

impl HttpResponse {
    /// A response with the given status code, no headers and an empty body.
    pub fn with_status(status: u16) -> (r: HttpResponse)
        ensures
            r@ == (RespModel { status, headers: Seq::<(Seq<char>, Seq<char>)>::empty(), body: Seq::<u8>::empty() }),
    {
        let r = HttpResponse { status, headers: Vec::new(), body: Vec::new() };
        proof {
            assert(r@.headers =~= Seq::<(Seq<char>, Seq<char>)>::empty());
        }
        r
    }

    /// Appends one header pair.
    pub fn push_header(&mut self, name: &str, value: &str)
        ensures
            final(self)@.status == old(self)@.status,
            final(self)@.body == old(self)@.body,
            final(self)@.headers == old(self)@.headers.push((name@, value@)),
    {
        self.headers.push((String::from_str(name), String::from_str(value)));
        proof {
            assert(self@.headers =~= old(self)@.headers.push((name@, value@)));
        }
    }

    /// An exact copy: the copy's view equals the original's.
    pub fn duplicate(&self) -> (r: HttpResponse)
        ensures
            r@ == self@,
    {
        let mut headers: Vec<(String, String)> = Vec::new();
        let n = self.headers.len();
        let mut i: usize = 0;
        while i < n
            invariant
                n == self.headers@.len(),
                i <= n,
                headers@.len() == i,
                forall|j: int| 0 <= j < i ==> (#[trigger] headers@[j]).0@ == self.headers@[j].0@
                    && headers@[j].1@ == self.headers@[j].1@,
            decreases n - i,
        {
            let pair = &self.headers[i];
            headers.push((String::from_str(pair.0.as_str()), String::from_str(pair.1.as_str())));
            i = i + 1;
        }
        let r = HttpResponse {
            status: self.status,
            headers,
            body: vstd::slice::slice_to_vec(self.body.as_slice()),
        };
        proof {
            assert forall|j: int| 0 <= j < n implies r@.headers[j] == self@.headers[j] by {
                assert(r@.headers[j] == r.headers@[j].deep_view());
                assert(self@.headers[j] == self.headers@[j].deep_view());
            }
            assert(r@.headers =~= self@.headers);
        }
        r
    }

    /// Compares two responses for byte-identical replay: same status, same
    /// headers in the same order, same body.
    pub fn same_as(&self, other: &HttpResponse) -> (r: bool)
        ensures
            r == (self@ == other@),
    {
        if self.status != other.status {
            return false;
        }
        if self.headers.len() != other.headers.len() {
            proof {
                assert(self@.headers.len() != other@.headers.len());
            }
            return false;
        }
        let n = self.headers.len();
        let mut i: usize = 0;
        while i < n
            invariant
                n == self.headers@.len(),
                n == other.headers@.len(),
                i <= n,
                forall|j: int| 0 <= j < i ==> (#[trigger] self.headers@[j]).0@ == other.headers@[j].0@
                    && self.headers@[j].1@ == other.headers@[j].1@,
            decreases n - i,
        {
            let a = &self.headers[i];
            let b = &other.headers[i];
            if !crate::text::str_eq(a.0.as_str(), b.0.as_str()) {
                proof {
                    assert(self@.headers[i as int] == self.headers@[i as int].deep_view());
                    assert(other@.headers[i as int] == other.headers@[i as int].deep_view());
                    assert(self@.headers[i as int] != other@.headers[i as int]);
                }
                return false;
            }
            if !crate::text::str_eq(a.1.as_str(), b.1.as_str()) {
                proof {
                    assert(self@.headers[i as int] == self.headers@[i as int].deep_view());
                    assert(other@.headers[i as int] == other.headers@[i as int].deep_view());
                    assert(self@.headers[i as int] != other@.headers[i as int]);
                }
                return false;
            }
            i = i + 1;
        }
        let body_len = self.body.len();
        if body_len != other.body.len() {
            return false;
        }
        let mut i: usize = 0;
        while i < body_len
            invariant
                body_len == self.body@.len(),
                body_len == other.body@.len(),
                i <= body_len,
                forall|j: int| 0 <= j < i ==> self.body@[j] == other.body@[j],
            decreases body_len - i,
        {
            if self.body[i] != other.body[i] {
                return false;
            }
            i = i + 1;
        }
        proof {
            assert forall|j: int| 0 <= j < n implies self@.headers[j] == other@.headers[j] by {
                assert(self@.headers[j] == self.headers@[j].deep_view());
                assert(other@.headers[j] == other.headers@[j].deep_view());
            }
            assert(self@.headers =~= other@.headers);
            assert(self@.body =~= other@.body);
        }
        true
    }
}

} // verus!
