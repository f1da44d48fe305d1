//! The two fixed routes of the demonstration server: which page a request
//! line asks for, and the bytes of the answer. Reading the request and the
//! page and sending the answer are the caller's.
use vstd::prelude::*;

verus! {

/// What a request is answered with.
#[derive(Clone, Copy, Debug, PartialEq, Eq, Structural)]
pub enum Route {
    /// The greeting page, at once.
    Hello,
    /// The greeting page, after a pause.
    SlowHello,
    /// The page for everything else.
    NotFound,
}

/// The bytes of `GET / HTTP/1.1` and its line end.
pub open spec fn root_line() -> Seq<u8> {
    seq![
        71u8, 69u8, 84u8, 32u8, 47u8, 32u8, 72u8, 84u8, 84u8, 80u8, 47u8, 49u8, 46u8, 49u8, 13u8,
        10u8,
    ]
}

/// The bytes of `GET /sleep HTTP/1.1` and its line end.
pub open spec fn sleep_line() -> Seq<u8> {
    seq![
        71u8, 69u8, 84u8, 32u8, 47u8, 115u8, 108u8, 101u8, 101u8, 112u8, 32u8, 72u8, 84u8, 84u8,
        80u8, 47u8, 49u8, 46u8, 49u8, 13u8, 10u8,
    ]
}

/// The route that a request of these bytes is given.
pub open spec fn route_of(request: Seq<u8>) -> Route {
    if root_line().is_prefix_of(request) {
        Route::Hello
    } else if sleep_line().is_prefix_of(request) {
        Route::SlowHello
    } else {
        Route::NotFound
    }
}

/// Whether `buffer` begins with `prefix`.
pub fn starts_with(buffer: &[u8], prefix: &[u8]) -> (result: bool)
    ensures
        result == prefix@.is_prefix_of(buffer@),
{
    if prefix.len() > buffer.len() {
        return false;
    }
    let mut k: usize = 0;
    while k < prefix.len()
        invariant
            k <= prefix@.len() <= buffer@.len(),
            forall|j: int| 0 <= j < k ==> prefix@[j] == buffer@[j],
        decreases prefix@.len() - k,
    {
        if prefix[k] != buffer[k] {
            assert(buffer@.subrange(0, prefix@.len() as int)[k as int] != prefix@[k as int]);
            return false;
        }
        k = k + 1;
    }
    assert(buffer@.subrange(0, prefix@.len() as int) =~= prefix@);
    true
}

/// The route for a request, read off the start of its bytes.
pub fn route(request: &[u8]) -> (result: Route)
    ensures
        result == route_of(request@),
{
    let root: Vec<u8> = vec![
        71u8, 69u8, 84u8, 32u8, 47u8, 32u8, 72u8, 84u8, 84u8, 80u8, 47u8, 49u8, 46u8, 49u8, 13u8,
        10u8,
    ];
    let sleep: Vec<u8> = vec![
        71u8, 69u8, 84u8, 32u8, 47u8, 115u8, 108u8, 101u8, 101u8, 112u8, 32u8, 72u8, 84u8, 84u8,
        80u8, 47u8, 49u8, 46u8, 49u8, 13u8, 10u8,
    ];
    assert(root@ =~= root_line());
    assert(sleep@ =~= sleep_line());
    if starts_with(request, root.as_slice()) {
        Route::Hello
    } else if starts_with(request, sleep.as_slice()) {
        Route::SlowHello
    } else {
        Route::NotFound
    }
}

impl Route {
    /// The status line of the answer.
    pub fn status_line(&self) -> (result: &'static str)
        ensures
            result@ == match *self {
                Route::Hello | Route::SlowHello => "HTTP/1.1 200 OK"@,
                Route::NotFound => "HTTP/1.1 404 NOT FOUND"@,
            },
    {
        match self {
            Route::Hello | Route::SlowHello => "HTTP/1.1 200 OK",
            Route::NotFound => "HTTP/1.1 404 NOT FOUND",
        }
    }

    /// The file that holds the page.
    pub fn file_name(&self) -> (result: &'static str)
        ensures
            result@ == match *self {
                Route::Hello | Route::SlowHello => "hello.html"@,
                Route::NotFound => "404.html"@,
            },
    {
        match self {
            Route::Hello | Route::SlowHello => "hello.html",
            Route::NotFound => "404.html",
        }
    }

    /// The seconds to wait before the answer is made.
    pub fn pause_seconds(&self) -> (result: u64)
        ensures
            result == match *self {
                Route::SlowHello => 5u64,
                Route::Hello | Route::NotFound => 0u64,
            },
    {
        match self {
            Route::SlowHello => 5,
            Route::Hello | Route::NotFound => 0,
        }
    }
}

/// The digits of `n` in base ten, most significant first, as ASCII bytes.
pub open spec fn decimal(n: nat) -> Seq<u8>
    decreases n,
{
    if n < 10 {
        seq![(48 + n) as u8]
    } else {
        decimal(n / 10).push((48 + n % 10) as u8)
    }
}

/// The bytes of a carriage return and a line feed.
pub open spec fn line_end() -> Seq<u8> {
    seq![13u8, 10u8]
}

/// The bytes of `Content-Length: `, with its blank.
pub open spec fn length_label() -> Seq<u8> {
    seq![
        67u8, 111u8, 110u8, 116u8, 101u8, 110u8, 116u8, 45u8, 76u8, 101u8, 110u8, 103u8, 116u8,
        104u8, 58u8, 32u8,
    ]
}

/// The answer to a request: the status line, the length of the body in
/// bytes as the only header, an empty line, and the body.
pub open spec fn response_of(status: Seq<u8>, body: Seq<u8>) -> Seq<u8> {
    status + line_end() + length_label() + decimal(body.len()) + line_end() + line_end() + body
}

/// Writes `n` in base ten.
pub fn decimal_digits(n: usize) -> (out: Vec<u8>)
    ensures
        out@ == decimal(n as nat),
    decreases n,
{
    if n < 10 {
        let digit: u8 = 48u8 + (n as u8);
        let mut out: Vec<u8> = Vec::new();
        out.push(digit);
        assert(out@ =~= decimal(n as nat));
        out
    } else {
        let digit: u8 = 48u8 + ((n % 10) as u8);
        let mut out = decimal_digits(n / 10);
        out.push(digit);
        out
    }
}

/// Puts `bytes` behind what `out` holds.
pub fn push_all(out: &mut Vec<u8>, bytes: &[u8])
    ensures
        final(out)@ == old(out)@ + bytes@,
{
    let mut k: usize = 0;
    while k < bytes.len()
        invariant
            k <= bytes@.len(),
            out@ == old(out)@ + bytes@.take(k as int),
        decreases bytes@.len() - k,
    {
        out.push(bytes[k]);
        assert(out@ =~= old(out)@ + bytes@.take(k + 1));
        k = k + 1;
    }
    assert(bytes@.take(k as int) =~= bytes@);
}

/// Builds the answer to a request from its status line and its body.
pub fn response(status: &[u8], body: &[u8]) -> (out: Vec<u8>)
    ensures
        out@ == response_of(status@, body@),
{
    let end: Vec<u8> = vec![13u8, 10u8];
    let label: Vec<u8> = vec![
        67u8, 111u8, 110u8, 116u8, 101u8, 110u8, 116u8, 45u8, 76u8, 101u8, 110u8, 103u8, 116u8,
        104u8, 58u8, 32u8,
    ];
    assert(end@ =~= line_end());
    assert(label@ =~= length_label());
    let digits = decimal_digits(body.len());
    let mut out: Vec<u8> = Vec::new();
    push_all(&mut out, status);
    push_all(&mut out, end.as_slice());
    push_all(&mut out, label.as_slice());
    push_all(&mut out, digits.as_slice());
    push_all(&mut out, end.as_slice());
    push_all(&mut out, end.as_slice());
    push_all(&mut out, body);
    assert(out@ =~= response_of(status@, body@));
    out
}

} // verus!
