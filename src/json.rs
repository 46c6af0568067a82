use vstd::prelude::*;
use vstd::string::*;
use crate::fingerprint::{Fingerprint, PassiveFingerprint, PassiveFingerprintView};

verus! {

/// The JSON string literal (quoted and escaped) that serde_json writes for `s`.
pub uninterp spec fn json_string_of(s: Seq<char>) -> Seq<char>;

/// The RFC 3339 text that the time crate writes for an instant given as
/// nanoseconds since the Unix epoch, in UTC.
pub uninterp spec fn rfc3339_of(unix_nanos: int) -> Seq<char>;

/// First instant of year 0, in nanoseconds since the Unix epoch.
pub const EARLIEST_NANOS: i128 = -62167219200000000000;

/// First instant of year 10000, in nanoseconds since the Unix epoch.
pub const END_NANOS: i128 = 253402300800000000000;

/// RFC 3339 writes four-digit years only: instants from year 0 to year 9999.
pub open spec fn has_rfc3339_form(unix_nanos: int) -> bool {
    EARLIEST_NANOS <= unix_nanos < END_NANOS
}

/// serde_json's error type, carried opaquely.
#[verifier::external_type_specification]
#[verifier::external_body]
pub struct ExJsonError(serde_json::Error);

/// Relies on serde_json::to_string on a `str`: it writes the quoted, escaped
/// literal into a `Vec`, which cannot fail.
#[verifier::external_body]
fn json_quote(s: &str) -> (r: Result<String, serde_json::Error>)
    ensures
        r is Ok,
        r matches Ok(t) ==> t@ == json_string_of(s@),
{
    serde_json::to_string(s)
}

/// Relies on time::OffsetDateTime::from_unix_timestamp_nanos and on its
/// `format` with `Rfc3339`: the conversion succeeds from year -9999 on, and
/// the formatting then fails exactly outside years 0 to 9999 (a UTC offset
/// is always accepted).
#[verifier::external_body]
fn format_rfc3339(unix_nanos: i128) -> (r: Option<String>)
    ensures
        r is Some <==> has_rfc3339_form(unix_nanos as int),
        r matches Some(t) ==> t@ == rfc3339_of(unix_nanos as int),
{
    let dt = time::OffsetDateTime::from_unix_timestamp_nanos(unix_nanos).ok()?;
    dt.format(&time::format_description::well_known::Rfc3339).ok()
}

pub open spec fn json_opt(o: Option<Seq<char>>) -> Seq<char> {
    match o {
        Some(s) => json_string_of(s),
        None => "null"@,
    }
}

/// The elements of a JSON array of strings, comma-separated.
pub open spec fn json_items(names: Seq<Seq<char>>) -> Seq<char>
    decreases names.len(),
{
    if names.len() == 0 {
        Seq::empty()
    } else if names.len() == 1 {
        json_string_of(names[0])
    } else {
        json_items(names.drop_last()) + ","@ + json_string_of(names.last())
    }
}

pub open spec fn json_list(names: Seq<Seq<char>>) -> Seq<char> {
    "["@ + json_items(names) + "]"@
}

/// The JSON object of a passive fingerprint, fields in declaration order,
/// absent values as `null`, no whitespace.
pub open spec fn passive_json(p: PassiveFingerprintView) -> Seq<char> {
    "{\"http\":"@ + json_opt(p.http) + ",\"ja3\":"@ + json_opt(p.ja3) + ",\"ja3_hash\":"@
        + json_opt(p.ja3_hash) + ",\"user_agent\":"@ + json_opt(p.user_agent) + ",\"headers\":"@
        + json_list(p.headers) + "}"@
}

/// The JSON object of a capture: the fingerprint, then the timestamp text.
pub open spec fn fingerprint_json(p: PassiveFingerprintView, stamp: Seq<char>) -> Seq<char> {
    "{\"fingerprint\":"@ + passive_json(p) + ",\"timestamp\":"@ + json_string_of(stamp) + "}"@
}

fn quote(s: &str) -> (r: String)
    ensures
        r@ == json_string_of(s@),
{
    match json_quote(s) {
        Ok(t) => t,
        Err(_) => {
            proof {
                assert(false);
            }
            String::new()
        },
    }
}

fn push_opt(out: &mut String, o: &Option<String>)
    ensures
        final(out)@ == old(out)@ + json_opt(
            match o {
                Some(s) => Some(s@),
                None => None,
            },
        ),
{
    match o {
        Some(s) => {
            let q = quote(s.as_str());
            out.append(q.as_str());
        },
        None => out.append("null"),
    }
}

fn push_list(out: &mut String, names: &Vec<String>)
    ensures
        final(out)@ == old(out)@ + json_list(names@.map_values(|s: String| s@)),
{
    let ghost start = out@;
    let ghost all = names@.map_values(|s: String| s@);
    let mut items = String::new();
    let mut i: usize = 0;
    while i < names.len()
        invariant
            i <= names@.len(),
            all == names@.map_values(|s: String| s@),
            items@ == json_items(all.subrange(0, i as int)),
        decreases names@.len() - i,
    {
        let ghost before = items@;
        if i > 0 {
            items.append(",");
        }
        let q = quote(names[i].as_str());
        items.append(q.as_str());
        proof {
            let next = all.subrange(0, i + 1);
            assert(next.drop_last() =~= all.subrange(0, i as int));
            assert(next.last() == names@[i as int]@);
            if i == 0 {
                assert(before =~= Seq::<char>::empty());
                assert(items@ =~= json_string_of(next[0]));
            }
        }
        i = i + 1;
    }
    assert(all.subrange(0, names@.len() as int) =~= all);
    out.append("[");
    out.append(items.as_str());
    out.append("]");
    assert(out@ =~= start + json_list(all));
}

/// The JSON text of a capture whose timestamp is already written as `stamp`.
pub fn fingerprint_json_with_stamp(p: &PassiveFingerprint, stamp: &str) -> (r: String)
    ensures
        r@ == fingerprint_json(p@, stamp@),
{
    let mut inner = String::new();
    inner.append("{\"http\":");
    push_opt(&mut inner, &p.http);
    inner.append(",\"ja3\":");
    push_opt(&mut inner, &p.ja3);
    inner.append(",\"ja3_hash\":");
    push_opt(&mut inner, &p.ja3_hash);
    inner.append(",\"user_agent\":");
    push_opt(&mut inner, &p.user_agent);
    inner.append(",\"headers\":");
    push_list(&mut inner, &p.headers);
    inner.append("}");
    let mut out = String::new();
    out.append("{\"fingerprint\":");
    out.append(inner.as_str());
    out.append(",\"timestamp\":");
    let q = quote(stamp);
    out.append(q.as_str());
    out.append("}");
    assert(inner@ =~= passive_json(p@));
    assert(out@ =~= fingerprint_json(p@, stamp@));
    out
}

/// The JSON text of a capture, or `None` when its instant has no RFC 3339
/// form (outside years 0 to 9999).
pub fn serialize_fingerprint(fp: &Fingerprint) -> (r: Option<String>)
    ensures
        r is Some <==> has_rfc3339_form(fp.timestamp.unix_nanos as int),
        r matches Some(t) ==> t@ == fingerprint_json(
            fp.fingerprint@,
            rfc3339_of(fp.timestamp.unix_nanos as int),
        ),
{
    match format_rfc3339(fp.timestamp.unix_nanos) {
        Some(stamp) => Some(fingerprint_json_with_stamp(&fp.fingerprint, stamp.as_str())),
        None => None,
    }
}

} // verus!
