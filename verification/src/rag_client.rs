//! How the agent's tools address the retrieval service: its base URL, and
//! what a failed query is reported as.
use vstd::prelude::*;

use crate::settings::ends_with;
use crate::text::{chars_of, concat, decimal, decimal_string, owned, push_str, string_of};

verus! {

/// The service address used when none is configured.
pub open spec fn default_base_url() -> Seq<char> {
    "http://127.0.0.1:8787"@
}

/// The base URL of the service: the configured one (else the default), with
/// a trailing slash so that endpoint paths join below it.
pub open spec fn base_url_spec(configured: Option<Seq<char>>) -> Seq<char> {
    let raw = match configured {
        Some(u) => u,
        None => default_base_url(),
    };
    if ends_with(raw, "/"@) {
        raw
    } else {
        raw + "/"@
    }
}

/// The base URL of the service; `configured` is what `CLAW_RAG_SERVICE_URL`
/// holds, if anything.
pub fn rag_service_base_url_from_env(configured: Option<String>) -> (r: String)
    ensures
        r@ == base_url_spec(crate::graph::opt_view(configured)),
{
    let raw = match configured {
        Some(u) => u,
        None => owned("http://127.0.0.1:8787"),
    };
    let v = chars_of(raw.as_str());
    proof {
        reveal_strlit("/");
    }
    if v.len() > 0 && v[v.len() - 1] == '/' {
        assert(v@.skip(v@.len() - 1) =~= "/"@);
        raw
    } else {
        assert(!ends_with(raw@, "/"@)) by {
            if raw@.len() >= 1 {
                assert(raw@.skip(raw@.len() - 1)[0] == raw@[raw@.len() - 1]);
            }
        }
        concat(raw.as_str(), "/")
    }
}

/// A text without its trailing slashes.
pub open spec fn trim_slashes(s: Seq<char>) -> Seq<char>
    decreases s.len(),
{
    if s.len() > 0 && s.last() == '/' {
        trim_slashes(s.drop_last())
    } else {
        s
    }
}

fn trim_slashes_exec(s: &str) -> (r: String)
    ensures
        r@ == trim_slashes(s@),
{
    let v = chars_of(s);
    let mut end: usize = v.len();
    assert(v@.take(end as int) =~= v@);
    while end > 0 && v[end - 1] == '/'
        invariant
            end <= v.len(),
            trim_slashes(v@) == trim_slashes(v@.take(end as int)),
        decreases end,
    {
        assert(v@.take(end as int).drop_last() =~= v@.take(end - 1));
        end = end - 1;
    }
    let t = crate::document_text::slice_chars(&v, 0, end);
    assert(v@.take(end as int) =~= v@.subrange(0, end as int));
    string_of(&t)
}

/// What a query that could not reach the service is reported as.
pub open spec fn unreachable_spec(base_url: Seq<char>, details: Seq<char>) -> Seq<char> {
    "claw-rag-service is not reachable at "@ + trim_slashes(base_url)
        + ". Start it with `cargo run --manifest-path .\\rust\\Cargo.toml -p claw-rag-service -- serve --db .\\beifeng\\data\\wind.sqlite`. Details: "@
        + details
}

/// What a query that could not reach the service is reported as.
pub fn unreachable_message(base_url: &str, details: &str) -> (r: String)
    ensures
        r@ == unreachable_spec(base_url@, details@),
{
    let mut m = concat("claw-rag-service is not reachable at ", trim_slashes_exec(base_url).as_str());
    push_str(
        &mut m,
        ". Start it with `cargo run --manifest-path .\\rust\\Cargo.toml -p claw-rag-service -- serve --db .\\beifeng\\data\\wind.sqlite`. Details: ",
    );
    push_str(&mut m, details);
    m
}

/// What a query answered with an HTTP status is reported as: nothing for a
/// success (2xx); that the service is not reachable for a gateway error
/// (502, 503, 504); else the status, with the query URL and the body.
pub open spec fn query_failure_spec(status: u16, base_url: Seq<char>, query_url: Seq<char>, body: Seq<char>) -> Option<
    Seq<char>,
> {
    if 200 <= status <= 299 {
        None
    } else if status == 502 || status == 503 || status == 504 {
        Some(
            "claw-rag-service is not reachable at "@ + trim_slashes(base_url) + " (HTTP "@ + decimal(
                status as nat,
            ) + " from "@ + query_url + "): "@ + body,
        )
    } else {
        Some(
            "claw-rag-service returned HTTP "@ + decimal(status as nat) + " from "@ + query_url
                + ": "@ + body,
        )
    }
}

/// What a query answered with an HTTP status is reported as, if it failed.
pub fn rag_query_failure(status: u16, base_url: &str, query_url: &str, body: &str) -> (r: Option<
    String,
>)
    ensures
        crate::graph::opt_view(r) == query_failure_spec(status, base_url@, query_url@, body@),
{
    if 200 <= status && status <= 299 {
        return None;
    }
    let code = decimal_string(status as u64);
    if status == 502 || status == 503 || status == 504 {
        let mut m = concat("claw-rag-service is not reachable at ", trim_slashes_exec(base_url).as_str());
        push_str(&mut m, " (HTTP ");
        push_str(&mut m, code.as_str());
        push_str(&mut m, " from ");
        push_str(&mut m, query_url);
        push_str(&mut m, "): ");
        push_str(&mut m, body);
        Some(m)
    } else {
        let mut m = concat("claw-rag-service returned HTTP ", code.as_str());
        push_str(&mut m, " from ");
        push_str(&mut m, query_url);
        push_str(&mut m, ": ");
        push_str(&mut m, body);
        Some(m)
    }
}

} // verus!
