//! Replica naming and labeling.
//!
//! Every spawned replica gets a globally-unique name — the service name plus
//! a random suffix — and a fixed label set that records the service it
//! belongs to, the component managing it, and the image version it was
//! created from. The version label is what later ticks read back to detect
//! drift.

use vstd::prelude::*;
use vstd::string::StringExecFns;

verus! {

/// Relies on `uuid::Uuid::new_v4` and its `Display` form: a fresh random
/// identifier rendered hyphenated, always exactly 36 characters.
#[verifier::external_body]
fn fresh_suffix() -> (s: String)
    ensures
        s@.len() == 36,
{
    uuid::Uuid::new_v4().to_string()
}

/// A fresh, globally-unique replica name: the service name, a hyphen, and a
/// random 36-character suffix.
pub fn fresh_replica_name(service: &str) -> (name: String)
    ensures
        name@.len() == service@.len() + 37,
        name@.subrange(0, service@.len() as int) == service@,
        name@[service@.len() as int] == '-',
{
    let mut name = service.to_owned();
    name.append("-");
    let suffix = fresh_suffix();
    name.append(suffix.as_str());
    proof {
        reveal_strlit("-");
        assert(name@.subrange(0, service@.len() as int) =~= service@);
    }
    name
}

/// The label set attached to every spawned replica: its service, the
/// component managing it, and a version label holding the desired image
/// reference, which later ticks compare against to detect drift.
pub fn replica_labels(service: &str, image: &str) -> (labels: Vec<(String, String)>)
    ensures
        labels@.len() == 3,
        labels@[0].0@ == "service"@ && labels@[0].1@ == service@,
        labels@[1].0@ == "managed-by"@ && labels@[1].1@ == "bollard-orchestrator"@,
        labels@[2].0@ == "version"@ && labels@[2].1@ == image@,
{
    let mut labels: Vec<(String, String)> = Vec::new();
    labels.push(("service".to_owned(), service.to_owned()));
    labels.push(("managed-by".to_owned(), "bollard-orchestrator".to_owned()));
    labels.push(("version".to_owned(), image.to_owned()));
    labels
}

} // verus!
