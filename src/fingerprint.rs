use vstd::prelude::*;
use crate::headers::{decoded, find_header, header_text, lookup, Header};

verus! {

/// Header carrying the HTTP-stack fingerprint; consumed by the builder.
pub open spec fn http_name() -> Seq<char> {
    "x-http-fingerprint"@
}

/// Header carrying the TLS client-hello fingerprint; consumed by the builder.
pub open spec fn tls_name() -> Seq<char> {
    "x-tls-fingerprint"@
}

/// Header carrying a digest of the TLS fingerprint; consumed by the builder.
pub open spec fn tls_hash_name() -> Seq<char> {
    "x-tls-fingerprint-hash"@
}

/// The User-Agent header; read but left in place.
pub open spec fn user_agent_name() -> Seq<char> {
    "user-agent"@
}

pub open spec fn is_fingerprint_header(name: Seq<char>) -> bool {
    name == http_name() || name == tls_name() || name == tls_hash_name()
}

/// A consumed header: absent stays absent; a value that is not text becomes
/// the empty string.
pub open spec fn consumed_field(hs: Seq<Header>, name: Seq<char>) -> Option<Seq<char>> {
    match lookup(hs, name) {
        None => None,
        Some(v) => match decoded(v) {
            Some(t) => Some(t),
            None => Some(Seq::empty()),
        },
    }
}

/// The User-Agent field: absent when the header is absent or is not text.
pub open spec fn user_agent_field(hs: Seq<Header>) -> Option<Seq<char>> {
    match lookup(hs, user_agent_name()) {
        None => None,
        Some(v) => decoded(v),
    }
}

/// Names of the headers that remain once the three fingerprint headers are
/// taken out, in arrival order, repeats kept.
pub open spec fn residual_names(hs: Seq<Header>) -> Seq<Seq<char>>
    decreases hs.len(),
{
    if hs.len() == 0 {
        Seq::empty()
    } else {
        let before = residual_names(hs.drop_last());
        if is_fingerprint_header(hs.last().name@) {
            before
        } else {
            before.push(hs.last().name@)
        }
    }
}

pub open spec fn opt_chars(o: Option<String>) -> Option<Seq<char>> {
    match o {
        Some(s) => Some(s@),
        None => None,
    }
}

/// The identification signals taken from one request.
pub struct PassiveFingerprint {
    pub http: Option<String>,
    pub ja3: Option<String>,
    pub ja3_hash: Option<String>,
    pub user_agent: Option<String>,
    pub headers: Vec<String>,
}

pub ghost struct PassiveFingerprintView {
    pub http: Option<Seq<char>>,
    pub ja3: Option<Seq<char>>,
    pub ja3_hash: Option<Seq<char>>,
    pub user_agent: Option<Seq<char>>,
    pub headers: Seq<Seq<char>>,
}

impl View for PassiveFingerprint {
    type V = PassiveFingerprintView;

    open spec fn view(&self) -> PassiveFingerprintView {
        PassiveFingerprintView {
            http: opt_chars(self.http),
            ja3: opt_chars(self.ja3),
            ja3_hash: opt_chars(self.ja3_hash),
            user_agent: opt_chars(self.user_agent),
            headers: self.headers@.map_values(|s: String| s@),
        }
    }
}

/// The fingerprint that a header list gives.
pub open spec fn passive_of(hs: Seq<Header>) -> PassiveFingerprintView {
    PassiveFingerprintView {
        http: consumed_field(hs, http_name()),
        ja3: consumed_field(hs, tls_name()),
        ja3_hash: consumed_field(hs, tls_hash_name()),
        user_agent: user_agent_field(hs),
        headers: residual_names(hs),
    }
}

/// An instant, as nanoseconds since the Unix epoch (UTC).
#[derive(Clone, Copy, PartialEq, Eq, Debug)]
pub struct Timestamp {
    pub unix_nanos: i128,
}

/// One capture event: the signals and when they were taken.
pub struct Fingerprint {
    pub fingerprint: PassiveFingerprint,
    pub timestamp: Timestamp,
}

fn consume(hs: &Vec<Header>, name: String) -> (r: Option<String>)
    ensures
        opt_chars(r) == consumed_field(hs@, name@),
{
    match find_header(hs, &name) {
        None => None,
        Some(i) => match header_text(&hs[i].value) {
            Some(t) => Some(t),
            None => Some(String::new()),
        },
    }
}

fn read_user_agent(hs: &Vec<Header>) -> (r: Option<String>)
    ensures
        opt_chars(r) == user_agent_field(hs@),
{
    match find_header(hs, &"user-agent".to_owned()) {
        None => None,
        Some(i) => header_text(&hs[i].value),
    }
}

fn is_fingerprint_name(name: &String) -> (r: bool)
    ensures
        r == is_fingerprint_header(name@),
{
    *name == "x-http-fingerprint".to_owned() || *name == "x-tls-fingerprint".to_owned() || *name
        == "x-tls-fingerprint-hash".to_owned()
}

fn residual(hs: &Vec<Header>) -> (r: Vec<String>)
    ensures
        r@.map_values(|s: String| s@) == residual_names(hs@),
{
    let mut out: Vec<String> = Vec::new();
    let mut i: usize = 0;
    while i < hs.len()
        invariant
            i <= hs@.len(),
            out@.map_values(|s: String| s@) == residual_names(hs@.subrange(0, i as int)),
        decreases hs@.len() - i,
    {
        let ghost prev = out@;
        proof {
            let next = hs@.subrange(0, i + 1);
            assert(next.drop_last() =~= hs@.subrange(0, i as int));
            assert(next.last() == hs@[i as int]);
        }
        if !is_fingerprint_name(&hs[i].name) {
            out.push(hs[i].name.clone());
            assert(out@.map_values(|s: String| s@) =~= prev.map_values(|s: String| s@).push(
                hs@[i as int].name@,
            ));
        }
        i = i + 1;
    }
    assert(hs@.subrange(0, hs@.len() as int) =~= hs@);
    out
}

/// Builds the fingerprint of a request from its headers, stamped with `at`.
/// The three fingerprint headers are read as consumed; the User-Agent is read
/// in place.
pub fn build_fingerprint_at(headers: &Vec<Header>, at: Timestamp) -> (r: Fingerprint)
    ensures
        r.fingerprint@ == passive_of(headers@),
        r.timestamp == at,
{
    let http = consume(headers, "x-http-fingerprint".to_owned());
    let ja3 = consume(headers, "x-tls-fingerprint".to_owned());
    let ja3_hash = consume(headers, "x-tls-fingerprint-hash".to_owned());
    let user_agent = read_user_agent(headers);
    let names = residual(headers);
    Fingerprint {
        fingerprint: PassiveFingerprint { http, ja3, ja3_hash, user_agent, headers: names },
        timestamp: at,
    }
}

/// Relies on time::OffsetDateTime::now_utc for the wall-clock instant.
#[verifier::external_body]
fn now_unix_nanos() -> i128 {
    time::OffsetDateTime::now_utc().unix_timestamp_nanos()
}

/// Builds the fingerprint of a request, stamped with the current instant.
pub fn build_fingerprint(headers: &Vec<Header>) -> (r: Fingerprint)
    ensures
        r.fingerprint@ == passive_of(headers@),
{
    build_fingerprint_at(headers, Timestamp { unix_nanos: now_unix_nanos() })
}

/// How many headers of `hs` are named `name`.
pub open spec fn header_count(hs: Seq<Header>, name: Seq<char>) -> nat
    decreases hs.len(),
{
    if hs.len() == 0 {
        0
    } else {
        header_count(hs.drop_last(), name) + if hs.last().name@ == name {
            1nat
        } else {
            0nat
        }
    }
}

/// How many times `name` occurs in `names`.
pub open spec fn name_count(names: Seq<Seq<char>>, name: Seq<char>) -> nat
    decreases names.len(),
{
    if names.len() == 0 {
        0
    } else {
        name_count(names.drop_last(), name) + if names.last() == name {
            1nat
        } else {
            0nat
        }
    }
}

proof fn lemma_lookup_absent(hs: Seq<Header>, name: Seq<char>)
    requires
        forall|i: int| 0 <= i < hs.len() ==> #[trigger] hs[i].name@ != name,
    ensures
        lookup(hs, name) is None,
    decreases hs.len(),
{
    if hs.len() > 0 {
        assert(hs[0].name@ != name);
        lemma_lookup_absent(hs.drop_first(), name);
    }
}

proof fn lemma_lookup_unique(hs: Seq<Header>, k: int, name: Seq<char>)
    requires
        0 <= k < hs.len(),
        hs[k].name@ == name,
        forall|i: int| 0 <= i < hs.len() && i != k ==> #[trigger] hs[i].name@ != name,
    ensures
        lookup(hs, name) == Some(hs[k].value@),
    decreases hs.len(),
{
    if k > 0 {
        assert(hs[0].name@ != name);
        let t = hs.drop_first();
        assert forall|i: int| 0 <= i < t.len() && i != k - 1 implies #[trigger] t[i].name@
            != name by {
            assert(t[i] == hs[i + 1]);
        }
        lemma_lookup_unique(t, k - 1, name);
    }
}

proof fn lemma_single_header(hs: Seq<Header>, name: Seq<char>) -> (k: int)
    requires
        header_count(hs, name) == 1,
    ensures
        0 <= k < hs.len(),
        hs[k].name@ == name,
        forall|i: int| 0 <= i < hs.len() && i != k ==> #[trigger] hs[i].name@ != name,
    decreases hs.len(),
{
    let init = hs.drop_last();
    if hs.last().name@ == name {
        assert(header_count(init, name) == 0);
        lemma_no_header(init, name);
        assert forall|i: int| 0 <= i < hs.len() && i != hs.len() - 1 implies #[trigger] hs[i].name@
            != name by {
            assert(hs[i] == init[i]);
        }
        hs.len() - 1
    } else {
        let k = lemma_single_header(init, name);
        assert forall|i: int| 0 <= i < hs.len() && i != k implies #[trigger] hs[i].name@
            != name by {
            if i < hs.len() - 1 {
                assert(hs[i] == init[i]);
            }
        }
        k
    }
}

proof fn lemma_no_header(hs: Seq<Header>, name: Seq<char>)
    requires
        header_count(hs, name) == 0,
    ensures
        forall|i: int| 0 <= i < hs.len() ==> #[trigger] hs[i].name@ != name,
    decreases hs.len(),
{
    if hs.len() > 0 {
        let init = hs.drop_last();
        lemma_no_header(init, name);
        assert forall|i: int| 0 <= i < hs.len() implies #[trigger] hs[i].name@ != name by {
            if i < hs.len() - 1 {
                assert(hs[i] == init[i]);
            }
        }
    }
}

/// No name left in the residual header list is one of the three fingerprint
/// headers, whatever headers the request carried.
pub proof fn lemma_residual_has_no_fingerprint_header(hs: Seq<Header>)
    ensures
        forall|i: int|
            0 <= i < residual_names(hs).len() ==> !is_fingerprint_header(
                #[trigger] residual_names(hs)[i],
            ),
    decreases hs.len(),
{
    if hs.len() > 0 {
        let init = hs.drop_last();
        lemma_residual_has_no_fingerprint_header(init);
        let before = residual_names(init);
        let after = residual_names(hs);
        assert forall|i: int| 0 <= i < after.len() implies !is_fingerprint_header(
            #[trigger] after[i],
        ) by {
            if i < before.len() {
                assert(after[i] == before[i]);
            }
        }
    }
}

/// A header that is not a fingerprint header keeps all its occurrences in the
/// residual list.
pub proof fn lemma_residual_keeps_count(hs: Seq<Header>, name: Seq<char>)
    requires
        !is_fingerprint_header(name),
    ensures
        name_count(residual_names(hs), name) == header_count(hs, name),
    decreases hs.len(),
{
    if hs.len() > 0 {
        lemma_residual_keeps_count(hs.drop_last(), name);
        let before = residual_names(hs.drop_last());
        if !is_fingerprint_header(hs.last().name@) {
            assert(before.push(hs.last().name@).drop_last() =~= before);
        }
    }
}

/// A request that sends one User-Agent header has that name exactly once in
/// the residual list, and the User-Agent field is its value decoded as text
/// (absent when the value is not text).
pub proof fn lemma_user_agent_kept(hs: Seq<Header>)
    requires
        header_count(hs, user_agent_name()) == 1,
    ensures
        name_count(passive_of(hs).headers, user_agent_name()) == 1,
        lookup(hs, user_agent_name()) matches Some(v) && passive_of(hs).user_agent == decoded(v),
{
    reveal_strlit("user-agent");
    reveal_strlit("x-http-fingerprint");
    reveal_strlit("x-tls-fingerprint");
    reveal_strlit("x-tls-fingerprint-hash");
    assert(user_agent_name().len() != http_name().len());
    assert(user_agent_name().len() != tls_name().len());
    assert(user_agent_name().len() != tls_hash_name().len());
    lemma_residual_keeps_count(hs, user_agent_name());
    let k = lemma_single_header(hs, user_agent_name());
    lemma_lookup_unique(hs, k, user_agent_name());
}

/// Without any fingerprint header the three fingerprint fields are absent and
/// the residual list is the names of all headers sent, in order.
pub proof fn lemma_no_fingerprint_headers(hs: Seq<Header>)
    requires
        forall|i: int| 0 <= i < hs.len() ==> !is_fingerprint_header(#[trigger] hs[i].name@),
    ensures
        passive_of(hs).http is None,
        passive_of(hs).ja3 is None,
        passive_of(hs).ja3_hash is None,
        passive_of(hs).user_agent == user_agent_field(hs),
        passive_of(hs).headers == hs.map_values(|h: Header| h.name@),
    decreases hs.len(),
{
    lemma_lookup_absent(hs, http_name());
    lemma_lookup_absent(hs, tls_name());
    lemma_lookup_absent(hs, tls_hash_name());
    if hs.len() > 0 {
        let init = hs.drop_last();
        assert forall|i: int| 0 <= i < init.len() implies !is_fingerprint_header(
            #[trigger] init[i].name@,
        ) by {
            assert(init[i] == hs[i]);
        }
        lemma_no_fingerprint_headers(init);
        assert(hs.map_values(|h: Header| h.name@) =~= init.map_values(|h: Header| h.name@).push(
            hs.last().name@,
        ));
    } else {
        assert(hs.map_values(|h: Header| h.name@) =~= Seq::<Seq<char>>::empty());
    }
}

} // verus!
