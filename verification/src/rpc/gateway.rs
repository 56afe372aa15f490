use vstd::prelude::*;
use crate::rpc::{RpcPolicy, RpcRequest, RpcResponse};
use crate::text::str_eq;
use crate::rpc::json::{json_object, json_object_text};

verus! {

/// The compact JSON text of the object `{"error": message}`.
pub open spec fn json_error_body(message: Seq<char>) -> Seq<char> {
    json_object(seq![("error"@, message)])
}

/// Whether a response is the error `message` with `status`.
pub open spec fn is_error_response(r: RpcResponse, status: u16, message: Seq<char>) -> bool {
    r.status == status && r.body@ == json_error_body(message)
}

/// An error answer: the status, and a JSON body naming the error.
pub fn error_response(status: u16, message: &str) -> (out: RpcResponse)
    ensures
        is_error_response(out, status, message@),
{
    let entries = vec![("error", message)];
    assert(entries@.map_values(|e: (&str, &str)| (e.0@, e.1@)) =~= seq![("error"@, message@)]);
    RpcResponse { status, body: json_object_text(entries.as_slice()) }
}

/// What answers the requests a gateway lets through.
pub trait RpcHandler {
    /// The answer the handler in this state gives `request`.
    spec fn response_to(&self, request: RpcRequest) -> RpcResponse;

    fn handle_mut(&mut self, request: &RpcRequest) -> (out: RpcResponse)
        ensures
            out == old(self).response_to(*request);
}

/// The requests counted for `client`: those of its first entry, or none.
pub open spec fn count_for(counts: Seq<(String, u64)>, client: Seq<char>) -> u64
    decreases counts.len(),
{
    if counts.len() == 0 {
        0
    } else if counts[0].0@ == client {
        counts[0].1
    } else {
        count_for(counts.drop_first(), client)
    }
}

/// Whether a request carries the token a policy demands, if any.
pub open spec fn token_accepted(policy: RpcPolicy, auth_token: Option<Seq<char>>) -> bool {
    match policy.auth_token {
        None => true,
        Some(required) => auth_token == Some(required@),
    }
}

/// The text of an optional token.
pub open spec fn token_text(t: Option<&str>) -> Option<Seq<char>> {
    match t {
        Some(s) => Some(s@),
        None => None,
    }
}

/// A gateway in front of a node: it refuses oversized bodies, requests
/// without the demanded token, and clients past their request budget.
pub struct RpcGateway<N> {
    pub node: N,
    pub policy: RpcPolicy,
    pub request_counts: Vec<(String, u64)>,
}

impl<N> RpcGateway<N> {
    /// The requests counted for each client.
    pub open spec fn count_of(&self, client: Seq<char>) -> u64 {
        count_for(self.request_counts@, client)
    }

    pub fn new(node: N, policy: RpcPolicy) -> (out: Self)
        ensures
            out.node == node,
            out.policy == policy,
            forall|c: Seq<char>| #[trigger] out.count_of(c) == 0,
    {
        RpcGateway { node, policy, request_counts: Vec::new() }
    }

    /// The requests admitted so far for `client_id`.
    pub fn request_count(&self, client_id: &str) -> (out: u64)
        ensures
            out == self.count_of(client_id@),
    {
        let mut i: usize = 0;
        assert(self.request_counts@.skip(0) =~= self.request_counts@);
        while i < self.request_counts.len()
            invariant
                i <= self.request_counts@.len(),
                count_for(self.request_counts@, client_id@) == count_for(self.request_counts@.skip(i as int), client_id@),
            decreases self.request_counts@.len() - i,
        {
            proof {
                assert(self.request_counts@.skip(i as int)[0] == self.request_counts@[i as int]);
                assert(self.request_counts@.skip(i as int).drop_first() =~= self.request_counts@.skip(i + 1));
            }
            if str_eq(self.request_counts[i].0.as_str(), client_id) {
                return self.request_counts[i].1;
            }
            i += 1;
        }
        assert(self.request_counts@.skip(i as int) =~= Seq::<(String, u64)>::empty());
        0
    }

    /// Admits a request or says why not: `401` without the demanded token,
    /// `429` once the client has used its budget; an admitted request is
    /// counted for its client.
    pub fn authorize_request(&mut self, client_id: &str, auth_token: Option<&str>) -> (out: Option<RpcResponse>)
        ensures
            final(self).node == old(self).node,
            final(self).policy == old(self).policy,
            !token_accepted(old(self).policy, token_text(auth_token)) ==> (out matches Some(r)
                && is_error_response(r, 401, "unauthorized"@)
                && forall|c: Seq<char>| #[trigger] final(self).count_of(c) == old(self).count_of(c)),
            token_accepted(old(self).policy, token_text(auth_token))
                && old(self).count_of(client_id@) >= old(self).policy.max_requests_per_client ==> (out matches Some(r)
                && is_error_response(r, 429, "rate limit exceeded"@)
                && forall|c: Seq<char>| #[trigger] final(self).count_of(c) == old(self).count_of(c)),
            token_accepted(old(self).policy, token_text(auth_token))
                && old(self).count_of(client_id@) < old(self).policy.max_requests_per_client ==> (out is None
                && forall|c: Seq<char>| #[trigger] final(self).count_of(c) == if c == client_id@ {
                    (old(self).count_of(c) + 1) as u64
                } else {
                    old(self).count_of(c)
                }),
    {
        let accepted = match &self.policy.auth_token {
            None => true,
            Some(required) => match auth_token {
                Some(token) => str_eq(token, required.as_str()),
                None => false,
            },
        };
        if !accepted {
            return Some(error_response(401, "unauthorized"));
        }
        let ghost counts = self.request_counts@;
        let mut i: usize = 0;
        assert(counts.skip(0) =~= counts);
        while i < self.request_counts.len() && !str_eq(self.request_counts[i].0.as_str(), client_id)
            invariant
                counts == self.request_counts@,
                i <= counts.len(),
                count_for(counts, client_id@) == count_for(counts.skip(i as int), client_id@),
                forall|j: int| 0 <= j < i ==> (#[trigger] counts[j]).0@ != client_id@,
            decreases counts.len() - i,
        {
            proof {
                assert(counts.skip(i as int)[0] == counts[i as int]);
                assert(counts.skip(i as int).drop_first() =~= counts.skip(i + 1));
            }
            i += 1;
        }
        if i == self.request_counts.len() {
            assert(counts.skip(i as int) =~= Seq::<(String, u64)>::empty());
            if self.policy.max_requests_per_client == 0 {
                return Some(error_response(429, "rate limit exceeded"));
            }
            let entry = (client_id.to_owned(), 1u64);
            let ghost pushed = entry;
            self.request_counts.push(entry);
            proof {
                assert forall|c: Seq<char>| #[trigger] count_for(self.request_counts@, c)
                    == if c == client_id@ { 1u64 } else { count_for(counts, c) } by {
                    lemma_count_for_push(counts, pushed, c);
                }
                lemma_count_for_absent(counts, client_id@);
            }
            return None;
        }
        assert(counts.skip(i as int)[0] == counts[i as int]);
        let count = self.request_counts[i].1;
        if count >= self.policy.max_requests_per_client {
            return Some(error_response(429, "rate limit exceeded"));
        }
        let name = self.request_counts[i].0.clone();
        proof {
            assert(name@ == counts[i as int].0@);
        }
        self.request_counts[i] = (name, count + 1);
        proof {
            assert forall|c: Seq<char>| #[trigger] count_for(self.request_counts@, c)
                == if c == client_id@ { (count + 1) as u64 } else { count_for(counts, c) } by {
                lemma_count_for_update(counts, i as int, self.request_counts@[i as int], c);
            }
        }
        None
    }
}

proof fn lemma_count_for_push(counts: Seq<(String, u64)>, e: (String, u64), c: Seq<char>)
    requires
        forall|j: int| 0 <= j < counts.len() ==> (#[trigger] counts[j]).0@ != e.0@,
    ensures
        count_for(counts.push(e), c) == if c == e.0@ { e.1 } else { count_for(counts, c) },
    decreases counts.len(),
{
    if counts.len() > 0 {
        let p = counts.push(e);
        assert(p[0] == counts[0]);
        assert(p.drop_first() =~= counts.drop_first().push(e));
        assert forall|j: int| 0 <= j < counts.drop_first().len() implies (#[trigger] counts.drop_first()[j]).0@ != e.0@ by {
            assert(counts.drop_first()[j] == counts[j + 1]);
        }
        lemma_count_for_push(counts.drop_first(), e, c);
        assert(counts[0].0@ != e.0@);
        if counts[0].0@ == c {
            assert(count_for(p, c) == counts[0].1);
            assert(count_for(counts, c) == counts[0].1);
            assert(c != e.0@);
        } else {
            assert(count_for(p, c) == count_for(p.drop_first(), c));
            assert(count_for(counts, c) == count_for(counts.drop_first(), c));
            assert(count_for(p.drop_first(), c) == count_for(counts.drop_first().push(e), c));
        }
    } else {
        let p = counts.push(e);
        assert(p[0] == e);
        assert(p.drop_first() =~= Seq::<(String, u64)>::empty());
        assert(count_for(p.drop_first(), c) == 0);
        if e.0@ == c {
            assert(count_for(p, c) == e.1);
        } else {
            assert(count_for(p, c) == 0);
        }
    }
}

proof fn lemma_count_for_absent(counts: Seq<(String, u64)>, c: Seq<char>)
    requires
        forall|j: int| 0 <= j < counts.len() ==> (#[trigger] counts[j]).0@ != c,
    ensures
        count_for(counts, c) == 0,
    decreases counts.len(),
{
    if counts.len() > 0 {
        assert forall|j: int| 0 <= j < counts.drop_first().len() implies (#[trigger] counts.drop_first()[j]).0@ != c by {
            assert(counts.drop_first()[j] == counts[j + 1]);
        }
        lemma_count_for_absent(counts.drop_first(), c);
    }
}

proof fn lemma_count_for_update(counts: Seq<(String, u64)>, i: int, e: (String, u64), c: Seq<char>)
    requires
        0 <= i < counts.len(),
        e.0@ == counts[i].0@,
        forall|j: int| 0 <= j < i ==> (#[trigger] counts[j]).0@ != e.0@,
    ensures
        count_for(counts.update(i, e), c) == if c == e.0@ { e.1 } else { count_for(counts, c) },
    decreases counts.len(),
{
    let n = counts.update(i, e);
    if i == 0 {
        assert(n[0] == e);
        assert(n.drop_first() =~= counts.drop_first());
    } else {
        assert(n[0] == counts[0]);
        assert(n.drop_first() =~= counts.drop_first().update(i - 1, e));
        assert forall|j: int| 0 <= j < i - 1 implies (#[trigger] counts.drop_first()[j]).0@ != e.0@ by {
            assert(counts.drop_first()[j] == counts[j + 1]);
        }
        lemma_count_for_update(counts.drop_first(), i - 1, e, c);
    }
}

impl<N: RpcHandler> RpcGateway<N> {
    /// Answers a request: `413` for a body over the limit, then the
    /// refusals of `authorize_request`; an admitted request goes to the
    /// node. A refused request leaves the node untouched.
    pub fn handle(&mut self, client_id: &str, auth_token: Option<&str>, request: &RpcRequest) -> (out: RpcResponse)
        ensures
            final(self).policy == old(self).policy,
            request.body@.len() > old(self).policy.max_body_bytes ==> is_error_response(out, 413, "request body too large"@)
                && final(self).node == old(self).node
                && forall|c: Seq<char>| #[trigger] final(self).count_of(c) == old(self).count_of(c),
            request.body@.len() <= old(self).policy.max_body_bytes
                && !token_accepted(old(self).policy, token_text(auth_token)) ==> is_error_response(out, 401, "unauthorized"@)
                && final(self).node == old(self).node
                && forall|c: Seq<char>| #[trigger] final(self).count_of(c) == old(self).count_of(c),
            request.body@.len() <= old(self).policy.max_body_bytes
                && token_accepted(old(self).policy, token_text(auth_token))
                && old(self).count_of(client_id@) >= old(self).policy.max_requests_per_client
                ==> is_error_response(out, 429, "rate limit exceeded"@)
                && final(self).node == old(self).node
                && forall|c: Seq<char>| #[trigger] final(self).count_of(c) == old(self).count_of(c),
            request.body@.len() <= old(self).policy.max_body_bytes
                && token_accepted(old(self).policy, token_text(auth_token))
                && old(self).count_of(client_id@) < old(self).policy.max_requests_per_client
                ==> out == old(self).node.response_to(*request)
                && forall|c: Seq<char>| #[trigger] final(self).count_of(c) == if c == client_id@ {
                    (old(self).count_of(c) + 1) as u64
                } else {
                    old(self).count_of(c)
                },
    {
        if request.body.len() > self.policy.max_body_bytes {
            return error_response(413, "request body too large");
        }
        match self.authorize_request(client_id, auth_token) {
            Some(response) => response,
            None => {
                let ghost mid = self.request_counts@;
                let ghost mid_self = *self;
                assert(mid_self.node == old(self).node);
                let out = self.node.handle_mut(request);
                assert(self.request_counts@ == mid);
                assert forall|c: Seq<char>| #[trigger] self.count_of(c) == mid_self.count_of(c) by {}
                out
            },
        }
    }
}

} // verus!
