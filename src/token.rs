use vstd::prelude::*;

use crate::context::RequestContext;

verus! {

/// Turns the raw value of a request's Authorization header into the identity
/// of the caller: `Some(id)` where the token is currently valid, `None`
/// otherwise (malformed, expired, revoked, or the lookup failed).
pub trait TokenChecker {
    fn get_user_id(&self, request_token: &str) -> Option<u32>;
}

/// An inbound request, as the guard sees it.
pub struct Request {
    /// The raw bytes of the Authorization header, `None` where it is absent.
    pub authorization: Option<Vec<u8>>,
    /// The per-request store that the stages behind the guard read.
    pub context: RequestContext,
}

/// A byte that may stand in header text: visible ASCII, space, or tab.
pub open spec fn is_header_byte(b: u8) -> bool {
    (32 <= b && b < 127) || b == 9
}

/// The text of a header value made of `bytes`: one character per byte, where
/// every byte may stand in header text; `None` otherwise.
pub open spec fn header_text(bytes: Seq<u8>) -> Option<Seq<char>> {
    if forall|i: int| 0 <= i < bytes.len() ==> is_header_byte(#[trigger] bytes[i]) {
        Some(bytes.map_values(|b: u8| b as char))
    } else {
        None
    }
}

/// The token that `req` presents: the text of its Authorization header,
/// `None` where the header is absent or cannot be read as text.
pub open spec fn token_of(req: Request) -> Option<Seq<char>> {
    match req.authorization {
        Some(bytes) => header_text(bytes@),
        None => None,
    }
}

/// The token that a header value `authorization` presents: its text, `None`
/// where there is no header or it cannot be read as text.
pub open spec fn header_token(authorization: Option<&[u8]>) -> Option<Seq<char>> {
    match authorization {
        Some(bytes) => header_text(bytes@),
        None => None,
    }
}

/// `verdict` is what `checker` may answer about `token`: an answer of its
/// `get_user_id` on that very text where the token is present and not empty;
/// `None`, without asking, where it is absent or empty.
pub open spec fn verdict_for<F: TokenChecker>(
    checker: F,
    token: Option<Seq<char>>,
    verdict: Option<u32>,
) -> bool {
    match token {
        Some(t) => if t.len() > 0 {
            exists|s: &str| #[trigger] call_ensures(F::get_user_id, (&checker, s), verdict) && s@ == t
        } else {
            verdict is None
        },
        None => verdict is None,
    }
}

/// Relies on std::str::from_utf8: bytes below 128 are valid UTF-8, and each
/// of them is the one character of that code.
#[verifier::external_body]
fn ascii_str(bytes: &[u8]) -> (r: Option<&str>)
    requires
        forall|i: int| 0 <= i < bytes@.len() ==> #[trigger] bytes@[i] < 128,
    ensures
        r is Some,
        r->Some_0@ == bytes@.map_values(|b: u8| b as char),
{
    std::str::from_utf8(bytes).ok()
}

/// Reads a header value as text: succeeds exactly where every byte is
/// visible ASCII, a space or a tab, and then keeps every byte as it is.
pub fn header_str(bytes: &[u8]) -> (r: Option<&str>)
    ensures
        r matches Some(s) ==> header_text(bytes@) == Some(s@),
        r is None <==> header_text(bytes@) is None,
{
    let mut i: usize = 0;
    while i < bytes.len()
        invariant
            0 <= i <= bytes@.len(),
            forall|k: int| 0 <= k < i ==> is_header_byte(#[trigger] bytes@[k]),
        decreases bytes@.len() - i,
    {
        let b = bytes[i];
        if !((32 <= b && b < 127) || b == 9) {
            assert(!is_header_byte(bytes@[i as int]));
            return None;
        }
        i = i + 1;
    }
    ascii_str(bytes)
}

/// The one failure of the guard: a fixed, non-parameterized rejection.
pub struct Unauthorized;

/// The body of every rejection.
pub open spec fn unauthorized_message() -> Seq<char> {
    seq!['n', 'o', 't', ' ', 'a', 'u', 't', 'h', 'o', 'r', 'i', 'z', 'e', 'd']
}

impl Unauthorized {
    /// The HTTP status of a rejection.
    pub fn status(&self) -> (r: u16)
        ensures
            r == 401,
    {
        401
    }

    /// The body of a rejection.
    pub fn message(&self) -> (r: &'static str)
        ensures
            r@ == unauthorized_message(),
    {
        proof {
            reveal_strlit("not authorized");
        }
        let r = "not authorized";
        assert(r@ =~= unauthorized_message());
        r
    }
}

/// `q` is `req` as it is handed on once the caller is known to be `id`: the
/// same header, and `id` as the identity in its context.
pub open spec fn forwarded_as(q: Request, req: Request, id: u32) -> bool {
    &&& q.authorization == req.authorization
    &&& q.context@ == Some(id)
}

/// What the guard returns for `req` once the verifier has answered `verdict`:
/// for `Some(id)`, the result of `next` on `req` with `id` in its context;
/// for `None`, the rejection, and `next` is not run.
pub open spec fn settled<R, N: FnOnce(Request) -> R>(
    req: Request,
    verdict: Option<u32>,
    next: N,
    r: Result<R, Unauthorized>,
) -> bool {
    match verdict {
        Some(id) => {
            &&& r is Ok
            &&& exists|q: Request| #[trigger]
                call_ensures(next, (q,), r->Ok_0) && forwarded_as(q, req, id)
        },
        None => r is Err,
    }
}

/// Settles `req` on the verifier's answer: forwards it to `next` with the
/// identity stored in its context, or rejects it without running `next`.
pub fn settle<R, N: FnOnce(Request) -> R>(req: Request, verdict: Option<u32>, next: N) -> (r: Result<
    R,
    Unauthorized,
>)
    requires
        forall|q: Request| q.context@ is Some ==> #[trigger] call_requires(next, (q,)),
    ensures
        settled(req, verdict, next, r),
{
    match verdict {
        Some(id) => {
            let ghost before = req;
            let mut q = req;
            q.context.insert(id);
            let ghost handed = q;
            let v = next(q);
            let ghost r = Ok::<R, Unauthorized>(v);
            assert(r->Ok_0 == v && forwarded_as(handed, before, id));
            Ok(v)
        },
        None => Err(Unauthorized),
    }
}

/// Requests settled side by side do not see one another's identities: each
/// request that reaches `next` carries exactly the identity of its own
/// verdict, and so none of the identities that the other requests' verdicts
/// gave.
pub proof fn lemma_no_cross_request_leakage<R, N: FnOnce(Request) -> R>(
    reqs: Seq<Request>,
    ids: Seq<u32>,
    next: N,
    rs: Seq<Result<R, Unauthorized>>,
)
    requires
        reqs.len() == ids.len(),
        rs.len() == ids.len(),
        forall|i: int, j: int| 0 <= i < j < ids.len() ==> ids[i] != ids[j],
        forall|i: int| 0 <= i < ids.len() ==> #[trigger] settled(reqs[i], Some(ids[i]), next, rs[i]),
    ensures
        forall|i: int| 0 <= i < ids.len() ==> (#[trigger] rs[i]) is Ok,
        forall|i: int| #![trigger rs[i]] 0 <= i < ids.len() ==> exists|q: Request| {
            &&& #[trigger] call_ensures(next, (q,), rs[i]->Ok_0)
            &&& q.authorization == reqs[i].authorization
            &&& q.context@ == Some(ids[i])
            &&& forall|j: int| 0 <= j < ids.len() && j != i ==> q.context@ != Some(#[trigger] ids[j])
        },
{
    assert forall|i: int| #![trigger rs[i]] 0 <= i < ids.len() implies exists|q: Request| {
        &&& #[trigger] call_ensures(next, (q,), rs[i]->Ok_0)
        &&& q.authorization == reqs[i].authorization
        &&& q.context@ == Some(ids[i])
        &&& forall|j: int| 0 <= j < ids.len() && j != i ==> q.context@ != Some(#[trigger] ids[j])
    } by {
        assert(settled(reqs[i], Some(ids[i]), next, rs[i]));
        let q = choose|q: Request| #[trigger]
            call_ensures(next, (q,), rs[i]->Ok_0) && forwarded_as(q, reqs[i], ids[i]);
        assert forall|j: int| 0 <= j < ids.len() && j != i implies q.context@ != Some(
            #[trigger] ids[j],
        ) by {
            if j < i {
                assert(ids[j] != ids[i]);
            } else {
                assert(ids[i] != ids[j]);
            }
        }
    }
    assert forall|i: int| 0 <= i < ids.len() implies (#[trigger] rs[i]) is Ok by {
        assert(settled(reqs[i], Some(ids[i]), next, rs[i]));
    }
}

/// Settling the same request twice on the same verdict classifies it the same
/// way both times: forwarded both times where the verdict names a caller,
/// rejected both times where it does not.
pub proof fn lemma_same_verdict_same_outcome<R, N: FnOnce(Request) -> R>(
    req: Request,
    verdict: Option<u32>,
    next: N,
    first: Result<R, Unauthorized>,
    second: Result<R, Unauthorized>,
)
    requires
        settled(req, verdict, next, first),
        settled(req, verdict, next, second),
    ensures
        first is Ok <==> second is Ok,
        first is Ok <==> verdict is Some,
{
}

/// The middleware factory: holds the verifier that every guard it builds
/// shares.
#[derive(Clone, Default)]
pub struct TokenAuth<F>(F);

impl<F: TokenChecker> TokenAuth<F> {
    /// The verifier that the guards built from this factory consult.
    pub closed spec fn checker(&self) -> F {
        self.0
    }

    /// A factory whose guards consult `finder`.
    pub fn new(finder: F) -> (r: Self)
        ensures
            r.checker() == finder,
    {
        TokenAuth(finder)
    }

    /// Builds the guard in front of `service`, with a clone of the verifier.
    pub fn new_transform<S>(&self, service: S) -> (r: TokenAuthMiddleware<S, F>) where F: Clone
        ensures
            r.next() == service,
            cloned(self.checker(), r.checker()),
    {
        TokenAuthMiddleware { service, token_finder: self.0.clone() }
    }
}

/// The guard in front of one pipeline stage: it forwards a request to
/// `service` only once its header has been verified.
pub struct TokenAuthMiddleware<S, F> {
    service: S,
    token_finder: F,
}

impl<S, F: TokenChecker> TokenAuthMiddleware<S, F> {
    /// The stage behind the guard.
    pub closed spec fn next(&self) -> S {
        self.service
    }

    /// The verifier the guard consults.
    pub closed spec fn checker(&self) -> F {
        self.token_finder
    }

    /// The stage behind the guard.
    pub fn service(&self) -> (r: &S)
        ensures
            *r == self.next(),
    {
        &self.service
    }

    /// The verifier the guard consults.
    pub fn token_finder(&self) -> (r: &F)
        ensures
            *r == self.checker(),
    {
        &self.token_finder
    }

    /// Asks the verifier about the token in the header value `authorization`,
    /// handed to it verbatim. Where there is no header, it cannot be read as
    /// text, or its text is empty, the verifier is not asked and the answer is
    /// `None`.
    pub fn identify(&self, authorization: Option<&[u8]>) -> (r: Option<u32>)
        ensures
            verdict_for(self.checker(), header_token(authorization), r),
    {
        match authorization {
            Some(bytes) => match header_str(bytes) {
                Some(token) => {
                    if token.is_empty() {
                        None
                    } else {
                        let r = self.token_finder.get_user_id(token);
                        assert(call_ensures(F::get_user_id, (&self.checker(), token), r));
                        r
                    }
                },
                None => None,
            },
            None => None,
        }
    }

    /// Guards `req`: forwards it to the stage behind the guard, with the
    /// caller's identity in its context, where the verifier accepts the
    /// token of its header; rejects it otherwise, without running that stage.
    pub fn call<R>(&self, req: Request) -> (r: Result<R, Unauthorized>) where S: Fn(Request) -> R
        requires
            forall|q: Request| q.context@ is Some ==> #[trigger] call_requires(self.next(), (q,)),
        ensures
            exists|verdict: Option<u32>|
                #[trigger] settled(req, verdict, self.next(), r) && verdict_for(
                    self.checker(),
                    token_of(req),
                    verdict,
                ),
    {
        let verdict = match &req.authorization {
            Some(bytes) => self.identify(Some(bytes.as_slice())),
            None => None,
        };
        let ghost before = req;
        let next = |q: Request| -> (v: R)
            requires
                call_requires(self.next(), (q,)),
            ensures
                call_ensures(self.next(), (q,), v),
            { (self.service)(q) };
        let r = settle(req, verdict, next);
        proof {
            if let Some(id) = verdict {
                let q = choose|q: Request| #[trigger]
                    call_ensures(next, (q,), r->Ok_0) && forwarded_as(q, before, id);
                assert(call_ensures(self.next(), (q,), r->Ok_0));
            }
            assert(settled(before, verdict, self.next(), r));
        }
        r
    }
}

} // verus!
