use vstd::prelude::*;

use crate::catalog::Config;
use crate::time::{parse_rfc3339_millis, rfc3339_millis};

verus! {

/// A stored service as the pipeline sees it: plain strings, the id in the
/// storage layer's hexadecimal form.
#[derive(Debug, Clone)]
pub struct MyServiceView {
    pub service_id: Option<String>,
    pub name: String,
    pub description: Option<String>,
    pub onboarded_datetime: Option<String>,
}

/// Why a service's identity could not be resolved; the service is excluded
/// from the current cycle's fan-out, siblings are unaffected.
#[derive(Clone, Copy, Debug, PartialEq, Eq, Structural)]
pub enum IdentityResolutionError {
    CreationFailed,
    InvalidOnboardingTime,
}

/// A storage-ready service record: what the pipeline asks the storage
/// layer to create, its onboarding time resolved to UTC epoch
/// milliseconds.
#[derive(Debug, Clone)]
pub struct MyService {
    pub name: String,
    pub description: Option<String>,
    pub onboarded_millis: i64,
}

impl MyService {
    /// Converts a proposed service view into a storage-ready record,
    /// resolving its onboarding timestamp; conversion succeeds exactly
    /// when the view carries a well-formed timestamp.
    pub fn try_from_view(item: &MyServiceView) -> (r: Result<MyService, IdentityResolutionError>)
        ensures
            match r {
                Ok(rec) => {
                    &&& match item.onboarded_datetime {
                        Some(t) => rfc3339_millis(t@) == Some(rec.onboarded_millis),
                        None => false,
                    }
                    &&& rec.name@ == item.name@
                    &&& rec.description.deep_view() == item.description.deep_view()
                },
                Err(e) => {
                    &&& e == IdentityResolutionError::InvalidOnboardingTime
                    &&& match item.onboarded_datetime {
                        Some(t) => rfc3339_millis(t@) is None,
                        None => true,
                    }
                },
            },
    {
        match &item.onboarded_datetime {
            Some(t) => match parse_rfc3339_millis(t.as_str()) {
                Some(ms) => Ok(
                    MyService {
                        name: item.name.clone(),
                        description: match &item.description {
                            Some(d) => Some(d.clone()),
                            None => None,
                        },
                        onboarded_millis: ms,
                    },
                ),
                None => Err(IdentityResolutionError::InvalidOnboardingTime),
            },
            None => Err(IdentityResolutionError::InvalidOnboardingTime),
        }
    }
}

/// The description a freshly onboarded service record is given.
pub open spec fn placeholder_description() -> Seq<char> {
    "Micro service applciation"@
}

/// The first stored service whose name equals `name`.
pub open spec fn first_match(services: Seq<MyServiceView>, name: Seq<char>) -> Option<
    MyServiceView,
>
    decreases services.len(),
{
    if services.len() == 0 {
        None
    } else if services[0].name@ == name {
        Some(services[0])
    } else {
        first_match(services.drop_first(), name)
    }
}

/// What identity resolution decides for one catalog entry: reuse a stored
/// service's id, or propose creating a new record.
#[derive(Debug)]
pub enum ResolveOutcome {
    Matched { service_id: Option<String> },
    NeedsCreation { record: MyServiceView },
}

/// One step of identity resolution for a single catalog entry: the first
/// stored service with the same name contributes its id; when none exists,
/// a fresh record is proposed, named after the application, described with
/// the standard placeholder, and onboarded at the given time. A name that
/// is already known never proposes a creation.
pub fn resolve_config(config: &Config, services: &Vec<MyServiceView>, now: &String) -> (r:
    ResolveOutcome)
    ensures
        match first_match(services@, config.application_name@) {
            Some(s) => r matches ResolveOutcome::Matched { service_id }
                && service_id.deep_view() == s.service_id.deep_view(),
            None => r matches ResolveOutcome::NeedsCreation { record } && {
                &&& record.service_id is None
                &&& record.name@ == config.application_name@
                &&& record.description matches Some(d) && d@ == placeholder_description()
                &&& record.onboarded_datetime matches Some(t) && t@ == now@
            },
        },
{
    let n: usize = services.len();
    let mut i: usize = 0;
    proof {
        assert(services@.subrange(0, n as int) =~= services@);
    }
    while i < n
        invariant
            i <= n,
            n == services@.len(),
            first_match(services@, config.application_name@) == first_match(
                services@.subrange(i as int, n as int),
                config.application_name@,
            ),
        decreases n - i,
    {
        let ghost tail = services@.subrange(i as int, n as int);
        if services[i].name == config.application_name {
            proof {
                assert(tail[0] == services@[i as int]);
                assert(first_match(tail, config.application_name@) == Some(services@[i as int]));
            }
            let found: Option<String> = match &services[i].service_id {
                Some(id) => Some(id.clone()),
                None => None,
            };
            return ResolveOutcome::Matched { service_id: found };
        }
        proof {
            assert(tail[0] == services@[i as int]);
            assert(tail.drop_first() =~= services@.subrange(i + 1, n as int));
        }
        i += 1;
    }
    proof {
        assert(services@.subrange(n as int, n as int) =~= Seq::<MyServiceView>::empty());
    }
    ResolveOutcome::NeedsCreation {
        record: MyServiceView {
            service_id: None,
            name: config.application_name.clone(),
            description: Some("Micro service applciation".to_owned()),
            onboarded_datetime: Some(now.clone()),
        },
    }
}

/// Writes a resolution result back into the catalog entry: a produced id
/// is stored; when creation failed and no id came back, the entry keeps its
/// previous id, and its caller leaves it out of the cycle.
pub fn apply_resolved_id(config: &mut Config, id: Option<String>)
    ensures
        final (config).application_name@ == old(config).application_name@,
        final (config).log_location@ == old(config).log_location@,
        match id {
            Some(v) => final (config).service_id matches Some(w) && w@ == v@,
            None => final (config).service_id == old(config).service_id,
        },
{
    match id {
        Some(v) => {
            config.service_id = Some(v);
        },
        None => {},
    }
}

/// Identity resolution is idempotent for a name that is already stored: a
/// match exists, so resolution reuses it and no new service record is
/// proposed.
pub proof fn lemma_resolution_idempotent(services: Seq<MyServiceView>, name: Seq<char>)
    requires
        exists|i: int| 0 <= i < services.len() && (#[trigger] services[i]).name@ == name,
    ensures
        first_match(services, name) is Some,
    decreases services.len(),
{
    if services.len() > 0 && services[0].name@ != name {
        let i = choose|i: int| 0 <= i < services.len() && (#[trigger] services[i]).name@ == name;
        assert(services.drop_first()[i - 1] == services[i]);
        lemma_resolution_idempotent(services.drop_first(), name);
    }
}

} // verus!
