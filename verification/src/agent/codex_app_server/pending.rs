//! Requests of the app server that wait for an answer from the chat.

use vstd::prelude::*;

use crate::agent::codex_app_server::client::{
    accept_body, answers_body, deny_body, kind_of, server_request_accept_result,
    server_request_answer_result, server_request_deny_result, user_answers, RequestKind,
};
use crate::error::{error_text, ErrorV, GatewayError};
use crate::ids::{is_simple_uuid_text, new_simple_uuid};
use crate::json::{Json, JsonV};
use crate::strs::{concat2, concat3, same, texts, texts_push};
use crate::table::{
    held, held_lookup, held_with, held_without, keys_differ, lookup, lookup_is_an_entry, pairs,
    with_entry, without_entry, Table,
};

verus! {

/// A request that waits.
#[derive(Debug)]
pub struct PendingServerRequest {
    pub im_session_id: String,
    pub method: String,
    pub params: Json,
}

/// What a waiting request holds.
#[verifier::ext_equal]
pub struct PendingV {
    pub im_session_id: Seq<char>,
    pub method: Seq<char>,
    pub params: JsonV,
}

impl View for PendingServerRequest {
    type V = PendingV;

    open spec fn view(&self) -> PendingV {
        PendingV {
            im_session_id: self.im_session_id@,
            method: self.method@,
            params: self.params@,
        }
    }
}

impl DeepView for PendingServerRequest {
    type V = PendingV;

    open spec fn deep_view(&self) -> PendingV {
        self@
    }
}

/// The requests that wait, by id.
pub struct PendingServerRequests {
    pub inner: Table<PendingServerRequest>,
}

impl View for PendingServerRequests {
    type V = Seq<(Seq<char>, PendingV)>;

    open spec fn view(&self) -> Seq<(Seq<char>, PendingV)> {
        held(self.inner@)
    }
}

/// The id of a new request.
pub fn new_request_id() -> (r: String)
    ensures
        r@.len() == "req_"@.len() + 32,
        r@.take("req_"@.len() as int) == "req_"@,
        is_simple_uuid_text(r@.skip("req_"@.len() as int)),
{
    let id: String = new_simple_uuid();
    let r: String = concat2("req_", id.as_str());
    assert(r@.take("req_"@.len() as int) == "req_"@);
    assert(r@.skip("req_"@.len() as int) == id@);
    r
}

/// The ids of the requests of a session.
pub open spec fn ids_for(m: Seq<(Seq<char>, PendingV)>, session: Seq<char>) -> Seq<Seq<char>>
    decreases m.len(),
{
    if m.len() == 0 {
        Seq::empty()
    } else if m.last().1.im_session_id == session {
        ids_for(m.drop_last(), session).push(m.last().0)
    } else {
        ids_for(m.drop_last(), session)
    }
}

/// Which request a session means: the one with the given id, if it is its own, or its only one.
pub open spec fn meant(
    m: Seq<(Seq<char>, PendingV)>,
    session: Seq<char>,
    request_id: Option<Seq<char>>,
) -> Result<Seq<char>, ErrorV> {
    match request_id {
        Some(id) => match lookup(m, id) {
            None => Err(ErrorV::Other("pending Codex request not found: "@ + id)),
            Some(p) => if p.im_session_id != session {
                Err(
                    ErrorV::Other("pending Codex request belongs to another IM session: "@ + id),
                )
            } else {
                Ok(id)
            },
        },
        None => {
            let ids = ids_for(m, session);
            if ids.len() == 0 {
                Err(ErrorV::Other("no pending Codex request for this IM session"@))
            } else if ids.len() == 1 {
                Ok(ids[0])
            } else {
                Err(ErrorV::Other("multiple pending Codex requests; pass requestId"@))
            }
        },
    }
}

proof fn ids_are_entries(m: Seq<(Seq<char>, PendingV)>, session: Seq<char>)
    ensures
        forall|k: int|
            0 <= k < ids_for(m, session).len() ==> lookup(
                m,
                #[trigger] ids_for(m, session)[k],
            ) is Some,
    decreases m.len(),
{
    if m.len() > 0 {
        ids_are_entries(m.drop_last(), session);
        assert forall|k: int| 0 <= k < ids_for(m, session).len() implies lookup(
            m,
            #[trigger] ids_for(m, session)[k],
        ) is Some by {
            let id = ids_for(m, session)[k];
            lookup_is_an_entry(m, id);
            lookup_is_an_entry(m.drop_last(), id);
            if k < ids_for(m.drop_last(), session).len() {
                assert(id == ids_for(m.drop_last(), session)[k]);
                let v = lookup(m.drop_last(), id)->0;
                let i = choose|i: int|
                    0 <= i < m.drop_last().len() && #[trigger] m.drop_last()[i] == (id, v);
                assert(m[i] == m.drop_last()[i]);
            } else {
                assert(m[m.len() - 1].0 == id);
            }
        }
    }
}

/// How the chat responds to a request.
pub enum PendingResponse {
    Approve,
    Deny,
    Answer(String),
}

/// The reply that a response makes to a request; `None` where the request does not take it.
pub open spec fn response_body(p: PendingV, response: PendingResponse) -> Option<JsonV> {
    match response {
        PendingResponse::Approve => accept_body(p.method),
        PendingResponse::Deny => deny_body(p.method),
        PendingResponse::Answer(text) => if kind_of(p.method) == Some(RequestKind::UserInput) {
            Some(answers_body(user_answers(p.params, text@)))
        } else {
            None
        },
    }
}

impl PendingServerRequests {
    /// Nothing waits.
    pub fn new() -> (r: PendingServerRequests)
        ensures
            r@ == Seq::<(Seq<char>, PendingV)>::empty(),
    {
        let r: PendingServerRequests = PendingServerRequests { inner: Table::new() };
        assert(r@ =~= Seq::<(Seq<char>, PendingV)>::empty());
        r
    }

    /// A request begins to wait.
    pub fn insert(&mut self, request_id: String, request: PendingServerRequest)
        ensures
            final(self)@ == with_entry(old(self)@, request_id@, request@),
    {
        proof {
            held_with(self.inner@, request_id@, request);
        }
        self.inner.insert(request_id, request);
    }

    /// A request no longer waits.
    pub fn remove(&mut self, request_id: &str)
        ensures
            final(self)@ == without_entry(old(self)@, request_id@),
    {
        proof {
            held_without(self.inner@, request_id@);
        }
        let _ = self.inner.remove(request_id);
    }

    /// A request waits again.
    pub fn put_back(&mut self, request_id: String, request: PendingServerRequest)
        ensures
            final(self)@ == with_entry(old(self)@, request_id@, request@),
    {
        self.insert(request_id, request)
    }

    fn ids_for_session(&self, im_session_id: &str) -> (r: Vec<String>)
        ensures
            texts(r@) == ids_for(self@, im_session_id@),
    {
        let ghost all = self@;
        let mut out: Vec<String> = Vec::new();
        let mut i: usize = 0;
        assert(all.take(0) == Seq::<(Seq<char>, PendingV)>::empty());
        assert(texts(out@) =~= Seq::<Seq<char>>::empty());
        let es: &Vec<(String, PendingServerRequest)> = self.inner.entries();
        while i < es.len()
            invariant
                i <= es@.len(),
                pairs(es@) == self.inner@,
                all == self@,
                texts(out@) == ids_for(all.take(i as int), im_session_id@),
            decreases es@.len() - i,
        {
            let e: &(String, PendingServerRequest) = &es[i];
            proof {
                assert(all.take(i + 1).drop_last() == all.take(i as int));
                assert(all.take(i + 1).last() == (e.0@, e.1@));
            }
            if same(e.1.im_session_id.as_str(), im_session_id) {
                let ghost before = out@;
                let id: String = e.0.clone();
                out.push(id);
                proof {
                    texts_push(before, id);
                }
            }
            i = i + 1;
        }
        assert(all.take(all.len() as int) == all);
        out
    }

    /// Which request a session means.
    pub fn find_for_session(&self, im_session_id: &str, request_id: Option<&str>) -> (r: Result<
        String,
        GatewayError,
    >)
        ensures
            match r {
                Ok(id) => meant(self@, im_session_id@, request_id.deep_view()) == Ok::<
                    Seq<char>,
                    ErrorV,
                >(id@) && lookup(self@, id@) is Some,
                Err(e) => meant(self@, im_session_id@, request_id.deep_view()) == Err::<
                    Seq<char>,
                    ErrorV,
                >(e@),
            },
    {
        match request_id {
            Some(id) => {
                proof {
                    held_lookup(self.inner@, id@);
                }
                match self.inner.get(id) {
                    None => Err(
                        GatewayError::Other(concat2("pending Codex request not found: ", id)),
                    ),
                    Some(p) => if same(p.im_session_id.as_str(), im_session_id) {
                        Ok(id.to_owned())
                    } else {
                        Err(
                            GatewayError::Other(
                                concat2(
                                    "pending Codex request belongs to another IM session: ",
                                    id,
                                ),
                            ),
                        )
                    },
                }
            },
            None => {
                let ids: Vec<String> = self.ids_for_session(im_session_id);
                proof {
                    ids_are_entries(self@, im_session_id@);
                    assert(texts(ids@).len() == ids@.len());
                }
                if ids.len() == 0 {
                    return Err(
                        GatewayError::other("no pending Codex request for this IM session"),
                    );
                }
                if ids.len() > 1 {
                    return Err(
                        GatewayError::other("multiple pending Codex requests; pass requestId"),
                    );
                }
                assert(texts(ids@)[0] == ids@[0]@);
                Ok(ids[0].clone())
            },
        }
    }

    /// Takes the request that a session means. A request of another session stays.
    pub fn take_for_session(&mut self, im_session_id: &str, request_id: Option<&str>) -> (r: Result<
        (String, PendingServerRequest),
        GatewayError,
    >)
        ensures
            match r {
                Ok((id, p)) => {
                    &&& meant(old(self)@, im_session_id@, request_id.deep_view()) == Ok::<
                        Seq<char>,
                        ErrorV,
                    >(id@)
                    &&& lookup(old(self)@, id@) == Some(p@)
                    &&& final(self)@ == without_entry(old(self)@, id@)
                },
                Err(e) => {
                    &&& meant(old(self)@, im_session_id@, request_id.deep_view()) == Err::<
                        Seq<char>,
                        ErrorV,
                    >(e@)
                    &&& final(self)@ == old(self)@
                },
            },
    {
        match self.find_for_session(im_session_id, request_id) {
            Err(e) => Err(e),
            Ok(id) => {
                proof {
                    held_lookup(self.inner@, id@);
                    held_without(self.inner@, id@);
                }
                let p: PendingServerRequest = self.inner.remove(id.as_str()).unwrap();
                Ok((id, p))
            },
        }
    }

    /// Responds to the request that a session means: the id and the reply to hand over. A request
    /// that does not take the response keeps waiting.
    pub fn respond(
        &mut self,
        im_session_id: &str,
        request_id: Option<&str>,
        response: &PendingResponse,
    ) -> (r: Result<(String, Json), String>)
        ensures
            match meant(old(self)@, im_session_id@, request_id.deep_view()) {
                Err(e) => r matches Err(text) && text@ == error_text(e)
                    && final(self)@ == old(self)@,
                Ok(id) => lookup(old(self)@, id) matches Some(p) && match response_body(
                    p,
                    *response,
                ) {
                    Some(body) => r matches Ok((i, b)) && i@ == id && b@ == body && final(self)@
                        == without_entry(old(self)@, id),
                    None => r matches Err(text) && text@ == "pending Codex request `"@ + id
                        + "` does not accept this response"@ && final(self)@ == old(self)@,
                },
            },
    {
        let id: String = match self.find_for_session(im_session_id, request_id) {
            Ok(id) => id,
            Err(e) => {
                return Err(e.message());
            },
        };
        proof {
            held_lookup(self.inner@, id@);
            held_without(self.inner@, id@);
        }
        let result: Option<Json> = match self.inner.get(id.as_str()) {
            Some(p) => match response {
                PendingResponse::Approve => server_request_accept_result(p.method.as_str()),
                PendingResponse::Deny => server_request_deny_result(p.method.as_str()),
                PendingResponse::Answer(text) => server_request_answer_result(
                    p.method.as_str(),
                    &p.params,
                    text.as_str(),
                ),
            },
            None => None,
        };
        match result {
            Some(body) => {
                let _ = self.inner.remove(id.as_str());
                Ok((id, body))
            },
            None => Err(
                concat3(
                    "pending Codex request `",
                    id.as_str(),
                    "` does not accept this response",
                ),
            ),
        }
    }
}

/// A request can be taken only by the session that it belongs to.
pub proof fn sessions_are_isolated(
    m: Seq<(Seq<char>, PendingV)>,
    session: Seq<char>,
    request_id: Option<Seq<char>>,
)
    requires
        keys_differ(m),
    ensures
        meant(m, session, request_id) matches Ok(id) ==> (lookup(m, id) matches Some(p)
            && p.im_session_id == session),
{
    match request_id {
        Some(_) => {},
        None => {
            if ids_for(m, session).len() == 1 {
                id_of_session(m, session, 0);
            }
        },
    }
}

proof fn id_of_session(m: Seq<(Seq<char>, PendingV)>, session: Seq<char>, k: int)
    requires
        keys_differ(m),
        0 <= k < ids_for(m, session).len(),
    ensures
        lookup(m, ids_for(m, session)[k]) matches Some(p) && p.im_session_id == session,
    decreases m.len(),
{
    let id = ids_for(m, session)[k];
    let front = m.drop_last();
    lookup_is_an_entry(m, id);
    if k < ids_for(front, session).len() {
        assert forall|i: int, j: int| 0 <= i < j < front.len() implies (#[trigger] front[i]).0 != (
        #[trigger] front[j]).0 by {
            assert(m[i].0 != m[j].0);
        }
        id_of_session(front, session, k);
        lookup_is_an_entry(front, id);
        let p = lookup(front, id)->0;
        let i = choose|i: int| 0 <= i < front.len() && #[trigger] front[i] == (id, p);
        assert(m[i] == (id, p));
    } else {
        assert(m[m.len() - 1].0 == id);
    }
}

} // verus!
