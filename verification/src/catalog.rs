use vstd::prelude::*;

verus! {

/// One catalog entry: an application's name, where its log files live, and,
/// once identity resolution has run, the stored service it belongs to.
#[derive(Debug, Clone)]
pub struct Config {
    pub application_name: String,
    pub log_location: String,
    pub service_id: Option<String>,
}

/// Why the catalog cannot be used at all; the process must not start
/// without a valid one.
#[derive(Clone, Copy, Debug, PartialEq, Eq, Structural)]
pub enum ConfigError {
    Unreadable,
    Malformed,
    DuplicateApplicationName,
}

/// No two catalog entries share an application name: the name is the
/// catalog's unique key.
pub open spec fn names_unique(configs: Seq<Config>) -> bool {
    forall|i: int, j: int|
        0 <= i < j < configs.len() ==> (#[trigger] configs[i]).application_name@ != (
        #[trigger] configs[j]).application_name@
}

/// Accepts a catalog exactly when every application name is distinct.
pub fn validate_catalog(configs: &Vec<Config>) -> (r: Result<(), ConfigError>)
    ensures
        r is Ok <==> names_unique(configs@),
        r is Err ==> r == Err::<(), ConfigError>(ConfigError::DuplicateApplicationName),
{
    let n: usize = configs.len();
    let mut i: usize = 0;
    while i < n
        invariant
            i <= n,
            n == configs@.len(),
            forall|a: int, b: int|
                0 <= a < b < configs@.len() && a < i ==> (#[trigger] configs@[a]).application_name@
                    != (#[trigger] configs@[b]).application_name@,
        decreases n - i,
    {
        let mut j: usize = i + 1;
        while j < n
            invariant
                i < j <= n,
                n == configs@.len(),
                forall|b: int|
                    i < b < j ==> configs@[i as int].application_name@ != (
                    #[trigger] configs@[b]).application_name@,
            decreases n - j,
        {
            if configs[i].application_name == configs[j].application_name {
                return Err(ConfigError::DuplicateApplicationName);
            }
            j += 1;
        }
        i += 1;
    }
    Ok(())
}

} // verus!
