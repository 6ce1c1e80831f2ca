//! The request forwarder's decisions: hop-by-hop header sanitization, the
//! outbound target, success classification and frame-by-frame body relaying.
//! The application performs the outbound HTTP call itself and hands every
//! value through these functions.

use vstd::prelude::*;

use crate::text::{eq_ascii_ci, eq_ignore_ascii_case, push_decimal, push_str, decimal};

verus! {

/// The status the proxy answers with when the backend cannot be made ready.
pub const SERVICE_UNAVAILABLE: u16 = 503;

/// A header name is hop-by-hop when it equals, up to ASCII case, one of the
/// fixed denylist of connection-scoped names (plus `host`, which the proxy
/// always rewrites). Such headers are never forwarded, in either direction.
pub open spec fn is_hop_by_hop(name: Seq<char>) -> bool {
    ||| eq_ascii_ci(name, "connection"@)
    ||| eq_ascii_ci(name, "keep-alive"@)
    ||| eq_ascii_ci(name, "proxy-authenticate"@)
    ||| eq_ascii_ci(name, "proxy-authorization"@)
    ||| eq_ascii_ci(name, "te"@)
    ||| eq_ascii_ci(name, "trailers"@)
    ||| eq_ascii_ci(name, "transfer-encoding"@)
    ||| eq_ascii_ci(name, "upgrade"@)
    ||| eq_ascii_ci(name, "host"@)
}

/// Whether a header by this name must be stripped before forwarding.
pub fn is_hop_by_hop_header(name: &str) -> (r: bool)
    ensures
        r == is_hop_by_hop(name@),
{
    eq_ignore_ascii_case(name, "connection") || eq_ignore_ascii_case(name, "keep-alive")
        || eq_ignore_ascii_case(name, "proxy-authenticate") || eq_ignore_ascii_case(
        name,
        "proxy-authorization",
    ) || eq_ignore_ascii_case(name, "te") || eq_ignore_ascii_case(name, "trailers")
        || eq_ignore_ascii_case(name, "transfer-encoding") || eq_ignore_ascii_case(name, "upgrade")
        || eq_ignore_ascii_case(name, "host")
}

/// One HTTP header, as the forwarder sees it: a name and the raw bytes of its
/// value.
pub struct Header {
    pub name: String,
    pub value: Vec<u8>,
}

impl View for Header {
    type V = (Seq<char>, Seq<u8>);

    open spec fn view(&self) -> (Seq<char>, Seq<u8>) {
        (self.name@, self.value@)
    }
}

/// The headers that survive sanitization: exactly the input headers whose
/// names are not hop-by-hop, with values untouched and order kept.
pub open spec fn sanitized(headers: Seq<(Seq<char>, Seq<u8>)>) -> Seq<(Seq<char>, Seq<u8>)> {
    headers.filter(|h: (Seq<char>, Seq<u8>)| !is_hop_by_hop(h.0))
}

/// Copy every header except the hop-by-hop denylist, in order, in both
/// directions of the proxy.
pub fn filter_headers(headers: Vec<Header>) -> (r: Vec<Header>)
    ensures
        r@.map_values(|h: Header| h@) == sanitized(headers@.map_values(|h: Header| h@)),
{
    let ghost all = headers@.map_values(|h: Header| h@);
    let mut rest = headers;
    let mut kept: Vec<Header> = Vec::new();
    let ghost mut done: int = 0;
    proof {
        assert(all.take(0) =~= Seq::<(Seq<char>, Seq<u8>)>::empty());
        assert(sanitized(all.take(0)) =~= Seq::<(Seq<char>, Seq<u8>)>::empty()) by {
            reveal_with_fuel(Seq::filter, 2);
        }
    }
    while rest.len() > 0
        invariant
            0 <= done <= all.len(),
            rest@.map_values(|h: Header| h@) =~= all.skip(done),
            kept@.map_values(|h: Header| h@) == sanitized(all.take(done)),
        decreases rest.len(),
    {
        let ghost prev_kept = kept@.map_values(|h: Header| h@);
        let ghost old_rest = rest@;
        let h = rest.remove(0);
        proof {
            let old_views = old_rest.map_values(|hh: Header| hh@);
            assert(old_views.len() == old_rest.len());
            assert(all.skip(done).len() == all.len() - done);
            assert(h@ == all[done]) by {
                assert(old_views[0] == h@);
                assert(all.skip(done)[0] == all[done]);
            }
            assert(rest@ =~= old_rest.subrange(1, old_rest.len() as int));
            assert(rest@.map_values(|hh: Header| hh@) =~= all.skip(done + 1)) by {
                assert forall|j: int|
                    0 <= j < rest@.len() implies rest@.map_values(|hh: Header| hh@)[j] == #[trigger] all.skip(
                    done + 1,
                )[j] by {
                    assert(rest@[j] == old_rest[j + 1]);
                    assert(old_views[j + 1] == old_rest[j + 1]@);
                    assert(all.skip(done)[j + 1] == all[done + 1 + j]);
                    assert(all.skip(done + 1)[j] == all[done + 1 + j]);
                }
            }
        }
        let keep = !is_hop_by_hop_header(h.name.as_str());
        if keep {
            kept.push(h);
        }
        proof {
            assert(all.take(done + 1).drop_last() =~= all.take(done));
            assert(all.take(done + 1).last() == all[done]);
            reveal_with_fuel(Seq::filter, 2);
            if !is_hop_by_hop(all[done].0) {
                assert(kept@.map_values(|hh: Header| hh@) =~= prev_kept.push(all[done]));
                assert(sanitized(all.take(done + 1)) =~= sanitized(all.take(done)).push(
                    all[done],
                ));
            } else {
                assert(kept@.map_values(|hh: Header| hh@) =~= prev_kept);
                assert(sanitized(all.take(done + 1)) =~= sanitized(all.take(done)));
            }
            done = done + 1;
        }
    }
    proof {
        assert(all.take(done) =~= all);
    }
    kept
}

/// What sanitization guarantees, for any inbound header set: no hop-by-hop
/// name — whatever its casing — survives, and every other header comes
/// through with name and value untouched.
pub proof fn lemma_sanitized_headers(headers: Seq<(Seq<char>, Seq<u8>)>)
    ensures
        forall|i: int|
            0 <= i < sanitized(headers).len() ==> !is_hop_by_hop(
                #[trigger] sanitized(headers)[i].0,
            ),
        forall|i: int|
            0 <= i < headers.len() && !is_hop_by_hop(headers[i].0) ==> sanitized(
                headers,
            ).contains(#[trigger] headers[i]),
{
    let pred = |h: (Seq<char>, Seq<u8>)| !is_hop_by_hop(h.0);
    assert forall|i: int| 0 <= i < sanitized(headers).len() implies !is_hop_by_hop(
        #[trigger] sanitized(headers)[i].0,
    ) by {
        headers.lemma_filter_pred(pred, i);
    }
    assert forall|i: int|
        0 <= i < headers.len() && !is_hop_by_hop(headers[i].0) implies sanitized(
        headers,
    ).contains(#[trigger] headers[i]) by {
        headers.lemma_filter_contains(pred, i);
    }
}

/// The outbound target for one proxied request: the fixed local scheme, host
/// and port, followed by the inbound path and query.
pub open spec fn local_target(port: u16, path_and_query: Seq<char>) -> Seq<char> {
    "http://127.0.0.1:"@ + decimal(port as nat) + path_and_query
}

/// Build the outbound URI text for a proxied request. A request whose URI
/// carries no path and query is forwarded to the root.
pub fn proxy_target(port: u16, path_and_query: Option<&str>) -> (r: String)
    ensures
        match path_and_query {
            Some(p) => r@ == local_target(port, p@),
            None => r@ == local_target(port, "/"@),
        },
{
    let mut out = String::new();
    push_str(&mut out, "http://127.0.0.1:");
    push_decimal(&mut out, port as u64);
    match path_and_query {
        Some(p) => push_str(&mut out, p),
        None => push_str(&mut out, "/"),
    }
    proof {
        assert(out@ =~= local_target(
            port,
            match path_and_query {
                Some(p) => p@,
                None => "/"@,
            },
        ));
    }
    out
}

/// Build the health-probe URI: the fixed local base followed by the
/// configured health-check path.
pub fn health_target(port: u16, health_path: &str) -> (r: String)
    ensures
        r@ == local_target(port, health_path@),
{
    let mut out = String::new();
    push_str(&mut out, "http://127.0.0.1:");
    push_decimal(&mut out, port as u64);
    push_str(&mut out, health_path);
    proof {
        assert(out@ =~= local_target(port, health_path@));
    }
    out
}

/// How a health probe's response is classified: any status in the success
/// class counts as healthy.
pub fn is_success_status(code: u16) -> (r: bool)
    ensures
        r == (200 <= code < 300),
{
    200 <= code && code < 300
}

/// What the proxy answers when readiness could not be established: a
/// service-unavailable status with the error's description as the body. No
/// process is torn down on this path.
pub fn unavailable_response(e: &crate::supervisor::StartupError) -> (r: (u16, String))
    ensures
        r.0 == SERVICE_UNAVAILABLE,
        r.1@ == e.message_spec(),
{
    (SERVICE_UNAVAILABLE, e.message())
}

/// The streamed-body relay. The proxy never materializes a body: each frame
/// is handed through by value, one at a time, and the ghost history records
/// that what went out is byte-for-byte what came in.
pub struct BodyRelay {
    /// Every byte relayed so far, in order.
    pub forwarded: Ghost<Seq<u8>>,
}

impl BodyRelay {
    /// A relay that has forwarded nothing yet.
    pub fn new() -> (r: BodyRelay)
        ensures
            r.forwarded@ == Seq::<u8>::empty(),
    {
        BodyRelay { forwarded: Ghost(Seq::empty()) }
    }

    /// Forward one frame: the output is exactly the input, and the history
    /// grows by exactly those bytes. The frame is moved, not copied — the
    /// relay holds at most this one frame at a time.
    pub fn relay_frame(&mut self, frame: Vec<u8>) -> (out: Vec<u8>)
        ensures
            out@ == frame@,
            final(self).forwarded@ == old(self).forwarded@ + frame@,
    {
        proof {
            self.forwarded@ = self.forwarded@ + frame@;
        }
        frame
    }
}

/// A body arrives as a sequence of frames; flattening them is the whole body.
pub open spec fn flatten_frames(frames: Seq<Seq<u8>>) -> Seq<u8>
    decreases frames.len(),
{
    if frames.len() == 0 {
        Seq::empty()
    } else {
        frames[0] + flatten_frames(frames.drop_first())
    }
}

/// The history a relay holds after forwarding `frames` in order, starting
/// from `start`: each `relay_frame` call appends one frame's bytes, exactly
/// as its postcondition states.
pub open spec fn forwarded_after(start: Seq<u8>, frames: Seq<Seq<u8>>) -> Seq<u8>
    decreases frames.len(),
{
    if frames.len() == 0 {
        start
    } else {
        forwarded_after(start + frames[0], frames.drop_first())
    }
}

/// The streaming round trip: a relay that starts empty and forwards the
/// frames of a body one by one, each moved through whole and alone, ends
/// having forwarded exactly the body's bytes — whatever the body's size.
pub proof fn lemma_relay_round_trip(frames: Seq<Seq<u8>>)
    ensures
        forwarded_after(Seq::<u8>::empty(), frames) == flatten_frames(frames),
{
    lemma_forwarded_after(Seq::<u8>::empty(), frames);
    assert(Seq::<u8>::empty() + flatten_frames(frames) =~= flatten_frames(frames));
}

proof fn lemma_forwarded_after(start: Seq<u8>, frames: Seq<Seq<u8>>)
    ensures
        forwarded_after(start, frames) == start + flatten_frames(frames),
    decreases frames.len(),
{
    if frames.len() == 0 {
        assert(start + flatten_frames(frames) =~= start);
    } else {
        lemma_forwarded_after(start + frames[0], frames.drop_first());
        assert((start + frames[0]) + flatten_frames(frames.drop_first()) =~= start + (frames[0]
            + flatten_frames(frames.drop_first())));
    }
}

} // verus!
