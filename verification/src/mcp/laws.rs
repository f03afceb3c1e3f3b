//! What holds of the MCP registries, tool exposure and pending requests.
use vstd::prelude::*;
use crate::mcp::error::{answer_for, code_number, Error, ErrorCode};
use crate::mcp::registry::{
    allows, key_pos, keys, lemma_absent, lookup, named, put, ExposurePolicy, ToolDescriptor, ToolExposure,
};
use crate::mcp::server::{exposed, route_of, Route};
use crate::text::{lemma_first_at, lemma_first_from, lemma_not_before};

verus! {

/// The MCP codes fall in their bands: transient (retryable) codes in
/// `-32199..=-32100`, permanent ones in `-32299..=-32200`, degraded ones in
/// `-32399..=-32300`.
pub proof fn law_error_bands(c: ErrorCode)
    ensures
        (c == ErrorCode::Timeout || c == ErrorCode::ToolBusy || c == ErrorCode::UpstreamUnavailable)
            ==> -32199 <= code_number(c) <= -32100,
        (c == ErrorCode::AccessDenied || c == ErrorCode::SchemaViolation || c == ErrorCode::UnknownTool)
            ==> -32299 <= code_number(c) <= -32200,
        (c == ErrorCode::PartialResult || c == ErrorCode::StaleCache) ==> -32399 <= code_number(c) <= -32300,
{
}

/// Reading a name just registered gives what was registered.
pub proof fn law_register_then_lookup<V>(s: Seq<(String, V)>, k: String, v: V)
    ensures
        lookup(put(s, k, v), k@) == Some(v),
{
    lemma_first_from(s, named::<V>(k@), 0);
    let p = key_pos(s, k@);
    let t = put(s, k, v);
    if p >= 0 {
        assert forall|m: int| 0 <= m < p implies !named::<V>(k@)(#[trigger] t[m]) by {
            assert(t[m] == s[m]);
            if named::<V>(k@)(s[m]) {
                lemma_not_before(s, named::<V>(k@), 0, m);
            }
        }
        lemma_first_at(t, named::<V>(k@), 0, p);
    } else {
        assert forall|m: int| 0 <= m < s.len() implies !named::<V>(k@)(#[trigger] t[m]) by {
            lemma_absent(s, k@, 0, m);
            assert(t[m] == s[m]);
        }
        lemma_first_at(t, named::<V>(k@), 0, s.len() as int);
    }
}

/// Registering one name leaves every other name's entry as it was.
pub proof fn law_register_keeps_others<V>(s: Seq<(String, V)>, k: String, v: V, other: Seq<char>)
    requires
        other != k@,
    ensures
        lookup(put(s, k, v), other) == lookup(s, other),
{
    lemma_first_from(s, named::<V>(k@), 0);
    lemma_first_from(s, named::<V>(other), 0);
    let p = key_pos(s, k@);
    let q = key_pos(s, other);
    let t = put(s, k, v);
    if q >= 0 {
        assert forall|m: int| 0 <= m < q implies !named::<V>(other)(#[trigger] t[m]) by {
            if m != p && m < s.len() {
                assert(t[m] == s[m]);
                if named::<V>(other)(s[m]) {
                    lemma_not_before(s, named::<V>(other), 0, m);
                }
            } else if m == p {
                assert(s[p].0@ == k@);
            }
        }
        assert(t[q] == s[q] || q == p);
        if q == p {
            assert(s[p].0@ == k@);
        }
        lemma_first_at(t, named::<V>(other), 0, q);
    } else {
        lemma_first_from(t, named::<V>(other), 0);
        if key_pos(t, other) >= 0 {
            let r = key_pos(t, other);
            if r < s.len() && r != p {
                assert(t[r] == s[r]);
                lemma_absent(s, other, 0, r);
            }
        }
    }
}

/// A name can be looked up exactly when it is listed.
pub proof fn law_listed_iff_found<V>(s: Seq<(String, V)>, k: Seq<char>)
    ensures
        lookup(s, k) is Some <==> keys(s).contains(k),
{
    lemma_first_from(s, named::<V>(k), 0);
    if lookup(s, k) is Some {
        let p = key_pos(s, k);
        assert(keys(s)[p] == k);
    }
    if keys(s).contains(k) {
        let m = choose|m: int| 0 <= m < keys(s).len() && keys(s)[m] == k;
        assert(named::<V>(k)(s[m]));
        lemma_not_before(s, named::<V>(k), 0, m);
    }
}

/// A read-only deployment offers no writing tool; offering everything keeps every
/// tool.
pub proof fn law_exposure<T>(s: Seq<(String, ToolDescriptor<T>)>)
    ensures
        forall|i: int| 0 <= i < exposed(s, ExposurePolicy::ReadOnlyOnly).len() ==> (#[trigger] exposed(
            s,
            ExposurePolicy::ReadOnlyOnly,
        )[i]).1.exposure == ToolExposure::ReadOnly,
        exposed(s, ExposurePolicy::All) == s,
    decreases s.len(),
{
    if s.len() > 0 {
        law_exposure(s.drop_last());
        assert(s.drop_last().push(s.last()) =~= s);
        let r = exposed(s.drop_last(), ExposurePolicy::ReadOnlyOnly);
        assert forall|i: int| 0 <= i < exposed(s, ExposurePolicy::ReadOnlyOnly).len() implies (#[trigger] exposed(
            s,
            ExposurePolicy::ReadOnlyOnly,
        )[i]).1.exposure == ToolExposure::ReadOnly by {
            if i < r.len() {
                assert(exposed(s, ExposurePolicy::ReadOnlyOnly)[i] == r[i]);
            }
        }
    }
}

/// Every tool a policy allows is offered.
pub proof fn law_allowed_tools_offered<T>(s: Seq<(String, ToolDescriptor<T>)>, policy: ExposurePolicy, i: int)
    requires
        0 <= i < s.len(),
        allows(policy, s[i].1.exposure),
    ensures
        exposed(s, policy).contains(s[i]),
    decreases s.len(),
{
    if i < s.len() - 1 {
        law_allowed_tools_offered(s.drop_last(), policy, i);
        let r = exposed(s.drop_last(), policy);
        let w = choose|w: int| 0 <= w < r.len() && r[w] == s.drop_last()[i];
        assert(exposed(s, policy)[w] == r[w]);
    } else {
        assert(exposed(s, policy).last() == s.last());
    }
}

/// A waiter registered under a fresh id is the one taken for that id, and once
/// taken the waiters are as they were before it.
pub proof fn law_register_then_take<V>(w: Map<i64, V>, next: i64, v: V)
    requires
        forall|k: i64| #[trigger] w.contains_key(k) ==> k < next,
    ensures
        !w.contains_key(next),
        w.insert(next, v).contains_key(next),
        w.insert(next, v)[next] == v,
        w.insert(next, v).remove(next) == w,
{
    assert(w.insert(next, v).remove(next) =~= w);
}

/// A protocol failure is answered with its own code and message.
pub proof fn law_protocol_error_answer(code: i32, message: String)
    ensures
        answer_for(Error::Protocol { code, message }) == (code, message@),
{
}

/// The MCP method each route serves (none for `Unsupported`).
pub open spec fn method_of(r: Route) -> Seq<char> {
    match r {
        Route::Initialize => "initialize"@,
        Route::Ping => "ping"@,
        Route::ToolsList => "tools/list"@,
        Route::ToolsCall => "tools/call"@,
        Route::ResourcesList => "resources/list"@,
        Route::ResourcesRead => "resources/read"@,
        Route::PromptsList => "prompts/list"@,
        Route::PromptsGet => "prompts/get"@,
        Route::SetLogLevel => "logging/setLevel"@,
        Route::Complete => "completion/complete"@,
        Route::Unsupported => Seq::empty(),
    }
}

/// Routing by name and the methods routes serve agree: each method the server
/// implements is routed to its own route, and a name is routed anywhere but
/// `Unsupported` only when it is the method of the route it gets.
pub proof fn law_route_round_trip(r: Route, m: Seq<char>)
    ensures
        r != Route::Unsupported ==> route_of(method_of(r)) == r,
        route_of(m) != Route::Unsupported ==> method_of(route_of(m)) == m,
{
    reveal_strlit("initialize");
    reveal_strlit("ping");
    reveal_strlit("tools/list");
    reveal_strlit("tools/call");
    reveal_strlit("resources/list");
    reveal_strlit("resources/read");
    reveal_strlit("prompts/list");
    reveal_strlit("prompts/get");
    reveal_strlit("logging/setLevel");
    reveal_strlit("completion/complete");
    assert("tools/list"@[0] != "initialize"@[0]);
    assert("tools/call"@[0] != "initialize"@[0]);
    assert("tools/call"@[6] != "tools/list"@[6]);
    assert("resources/read"@[10] != "resources/list"@[10]);
    let ms = seq![
        "initialize"@,
        "ping"@,
        "tools/list"@,
        "tools/call"@,
        "resources/list"@,
        "resources/read"@,
        "prompts/list"@,
        "prompts/get"@,
        "logging/setLevel"@,
        "completion/complete"@,
    ];
    assert forall|a: int, b: int| 0 <= a < b < 10 implies #[trigger] ms[a] != #[trigger] ms[b] by {
        if ms[a].len() == ms[b].len() {
            if a == 0 {
                assert(ms[a][0] != ms[b][0]);
            } else if a == 2 {
                assert(ms[a][6] != ms[b][6]);
            } else {
                assert(ms[a][10] != ms[b][10]);
            }
        }
    }
    assert(ms[0] == method_of(Route::Initialize));
    match r {
        Route::Initialize => {},
        Route::Ping => { assert(ms[0] != ms[1]); },
        Route::ToolsList => { assert(ms[0] != ms[2] && ms[1] != ms[2]); },
        Route::ToolsCall => { assert(ms[0] != ms[3] && ms[1] != ms[3] && ms[2] != ms[3]); },
        Route::ResourcesList => { assert(ms[0] != ms[4] && ms[1] != ms[4] && ms[2] != ms[4] && ms[3] != ms[4]); },
        Route::ResourcesRead => {
            assert(ms[0] != ms[5] && ms[1] != ms[5] && ms[2] != ms[5] && ms[3] != ms[5] && ms[4] != ms[5]);
        },
        Route::PromptsList => {
            assert(ms[0] != ms[6] && ms[1] != ms[6] && ms[2] != ms[6] && ms[3] != ms[6] && ms[4] != ms[6] && ms[5]
                != ms[6]);
        },
        Route::PromptsGet => {
            assert(ms[0] != ms[7] && ms[1] != ms[7] && ms[2] != ms[7] && ms[3] != ms[7] && ms[4] != ms[7] && ms[5]
                != ms[7] && ms[6] != ms[7]);
        },
        Route::SetLogLevel => {
            assert(ms[0] != ms[8] && ms[1] != ms[8] && ms[2] != ms[8] && ms[3] != ms[8] && ms[4] != ms[8] && ms[5]
                != ms[8] && ms[6] != ms[8] && ms[7] != ms[8]);
        },
        Route::Complete => {
            assert(ms[0] != ms[9] && ms[1] != ms[9] && ms[2] != ms[9] && ms[3] != ms[9] && ms[4] != ms[9] && ms[5]
                != ms[9] && ms[6] != ms[9] && ms[7] != ms[9] && ms[8] != ms[9]);
        },
        Route::Unsupported => {},
    }
}

} // verus!
