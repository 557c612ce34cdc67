//! Validation of what the user types when creating a job.

use vstd::prelude::*;
use vstd::string::*;

use crate::dashboard::error::RegistryError;
use crate::dashboard::types::UiRegistry;
use crate::text::{decimal, decimal_string, joined, owned, strip_prefix_chars, trim_white, trim_white_str};

verus! {

/// Longest job type, in bytes of UTF-8.
pub const MAX_JOB_TYPE_BYTES: usize = 50;

/// What `char::is_alphanumeric` says of `c`.
pub uninterp spec fn alphanumeric(c: char) -> bool;

/// Relies on `char::is_alphanumeric`: whether `c` is Unicode `Alphabetic`
/// or `Numeric`, which depends on `c` alone.
#[verifier::external_body]
fn is_alphanumeric(c: char) -> (r: bool)
    ensures
        r == alphanumeric(c),
{
    c.is_alphanumeric()
}

/// A character allowed in a job type.
pub open spec fn job_type_char(c: char) -> bool {
    alphanumeric(c) || c == '_' || c == '-'
}

/// Bytes that `c` takes in UTF-8.
pub open spec fn utf8_width(c: char) -> nat {
    let u = c as u32;
    if u < 0x80 {
        1
    } else if u < 0x800 {
        2
    } else if u < 0x10000 {
        3
    } else {
        4
    }
}

/// Bytes that `s` takes in UTF-8.
pub open spec fn utf8_len(s: Seq<char>) -> nat
    decreases s.len(),
{
    if s.len() == 0 {
        0
    } else {
        utf8_len(s.drop_last()) + utf8_width(s.last())
    }
}

proof fn lemma_utf8_len_prefix(s: Seq<char>, i: int)
    requires
        0 <= i <= s.len(),
    ensures
        utf8_len(s.take(i)) <= utf8_len(s),
    decreases s.len() - i,
{
    if i < s.len() {
        lemma_utf8_len_prefix(s, i + 1);
        assert(s.take(i + 1).drop_last() =~= s.take(i));
    } else {
        assert(s.take(i) =~= s);
    }
}

/// Whether `s` takes more than `max` bytes in UTF-8.
fn utf8_longer_than(s: &str, max: usize) -> (r: bool)
    ensures
        r == (utf8_len(s@) > max),
{
    let n = s.unicode_len();
    let mut total: usize = 0;
    let mut i: usize = 0;
    while i < n
        invariant
            n == s@.len(),
            i <= n,
            total == utf8_len(s@.take(i as int)),
            total <= max,
        decreases n - i,
    {
        let u = s.get_char(i) as u32;
        let w: usize = if u < 0x80 {
            1
        } else if u < 0x800 {
            2
        } else if u < 0x10000 {
            3
        } else {
            4
        };
        proof {
            assert(s@.take(i + 1).drop_last() =~= s@.take(i as int));
            assert(s@.take(i + 1).last() == s@[i as int]);
        }
        if w > max - total {
            proof {
                lemma_utf8_len_prefix(s@, i + 1);
            }
            return true;
        }
        total = total + w;
        i = i + 1;
    }
    assert(s@.take(n as int) =~= s@);
    false
}

/// What `validate_job_type` says of `s`: white space around it is ignored;
/// what remains must be non-empty, at most the byte limit long, and made of
/// letters, digits, `_` and `-`.
pub open spec fn job_type_verdict(s: Seq<char>) -> Result<(), Seq<char>> {
    let t = trim_white(s);
    if t.len() == 0 {
        Err("Job type cannot be empty"@)
    } else if utf8_len(t) > MAX_JOB_TYPE_BYTES {
        Err("Job type too long (max 50 chars)"@)
    } else if !(forall|i: int| 0 <= i < t.len() ==> job_type_char(#[trigger] t[i])) {
        Err("Job type must be alphanumeric (underscores/hyphens allowed)"@)
    } else {
        Ok(())
    }
}

/// Checks a job type before it is submitted.
pub fn validate_job_type(job_type: &str) -> (r: Result<(), String>)
    ensures
        match job_type_verdict(job_type@) {
            Ok(()) => r is Ok,
            Err(m) => r is Err && r->Err_0@ == m,
        },
{
    let trimmed = trim_white_str(job_type);
    let n = trimmed.unicode_len();
    if n == 0 {
        return Err(owned("Job type cannot be empty"));
    }
    if utf8_longer_than(trimmed, MAX_JOB_TYPE_BYTES) {
        return Err(owned("Job type too long (max 50 chars)"));
    }
    let mut i: usize = 0;
    while i < n
        invariant
            n == trimmed@.len(),
            n > 0,
            trimmed@ == trim_white(job_type@),
            utf8_len(trimmed@) <= MAX_JOB_TYPE_BYTES,
            i <= n,
            forall|j: int| 0 <= j < i ==> job_type_char(#[trigger] trimmed@[j]),
        decreases n - i,
    {
        let c = trimmed.get_char(i);
        if !(is_alphanumeric(c) || c == '_' || c == '-') {
            assert(!job_type_char(trimmed@[i as int]));
            return Err(owned("Job type must be alphanumeric (underscores/hyphens allowed)"));
        }
        i = i + 1;
    }
    Ok(())
}

/// A registry error as its category (0 not found, 1 malformed, 2 invalid
/// entry) and its text.
pub open spec fn registry_error_view(e: RegistryError) -> (nat, Seq<char>) {
    match e {
        RegistryError::NotFound(m) => (0, m@),
        RegistryError::Malformed(m) => (1, m@),
        RegistryError::InvalidEntry(m) => (2, m@),
    }
}

/// The first entry of `entries` that is unusable, as the error it gives.
pub open spec fn entry_problem(entries: Seq<crate::dashboard::types::UiEntry>) -> Option<(nat, Seq<char>)>
    decreases entries.len(),
{
    if entries.len() == 0 {
        None
    } else {
        let e = entries[0];
        if e.port == 0 {
            Some((2nat, "Invalid port "@ + decimal(e.port as nat) + " for "@ + e.id@))
        } else if e.id@.len() == 0 || e.name@.len() == 0 {
            Some((2nat, "Entry missing id or name"@))
        } else {
            entry_problem(entries.skip(1))
        }
    }
}

/// What is wrong with a loaded registry, if anything: it needs entries,
/// each with a port, an id and a name, and a base address starting with
/// `http`.
pub open spec fn registry_problem(reg: UiRegistry) -> Option<(nat, Seq<char>)> {
    if reg.entries@.len() == 0 {
        Some((2nat, "Registry has no entries"@))
    } else if entry_problem(reg.entries@) is Some {
        entry_problem(reg.entries@)
    } else if !("http"@.is_prefix_of(reg.base_url@)) {
        Some((1nat, "baseUrl must start with http: "@ + reg.base_url@))
    } else {
        None
    }
}

/// Checks a registry that was read and parsed.
pub fn validate_ui_registry(registry: &UiRegistry) -> (r: Result<(), RegistryError>)
    ensures
        match registry_problem(*registry) {
            None => r is Ok,
            Some(p) => r is Err && registry_error_view(r->Err_0) == p,
        },
{
    let n = registry.entries.len();
    if n == 0 {
        return Err(RegistryError::InvalidEntry(owned("Registry has no entries")));
    }
    let ghost es = registry.entries@;
    let mut i: usize = 0;
    assert(es.skip(0) =~= es);
    while i < n
        invariant
            n == es.len(),
            es == registry.entries@,
            i <= n,
            entry_problem(es) == entry_problem(es.skip(i as int)),
        decreases n - i,
    {
        let e = &registry.entries[i];
        assert(es.skip(i as int)[0] == es[i as int]);
        assert(es.skip(i as int).skip(1) =~= es.skip(i + 1));
        if e.port == 0 {
            let mut m = owned("Invalid port ");
            let digits = decimal_string(e.port as u64);
            m.append(digits.as_str());
            m.append(" for ");
            m.append(e.id.as_str());
            return Err(RegistryError::InvalidEntry(m));
        }
        if e.id.as_str().unicode_len() == 0 || e.name.as_str().unicode_len() == 0 {
            return Err(RegistryError::InvalidEntry(owned("Entry missing id or name")));
        }
        i = i + 1;
    }
    assert(es.skip(n as int) =~= Seq::<crate::dashboard::types::UiEntry>::empty());
    if strip_prefix_chars(registry.base_url.as_str(), "http").is_none() {
        return Err(RegistryError::Malformed(joined("baseUrl must start with http: ", registry.base_url.as_str())));
    }
    Ok(())
}

} // verus!
