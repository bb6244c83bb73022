//! Configuration data: the per-app deployment paths and the jenkins block
//! that accompanies them in the configuration file.

use vstd::prelude::*;

verus! {

/// One local application checkout, identified by exact name match.
pub struct AppConfig {
    pub exploed_war_path: String,
    pub home_path: String,
    pub name: String,
}

/// Jenkins connection settings; loaded alongside the apps but not consumed
/// by this pipeline.
pub struct JenkinsConfig {
    pub jenkins_server_url: String,
    pub jenkins_user_name: String,
    pub jenkins_api_token: String,
    pub file_server_url: String,
    pub replace_file_parent_dir: String,
}

/// The whole configuration: a jenkins block and the list of known apps.
pub struct Config {
    pub jenkins: JenkinsConfig,
    pub apps: Vec<AppConfig>,
}

/// The first app entry whose name is exactly `name`, if any.
pub open spec fn find_app_spec(apps: Seq<AppConfig>, name: Seq<char>) -> Option<AppConfig>
    decreases apps.len(),
{
    if apps.len() == 0 {
        None
    } else if apps[0].name@ == name {
        Some(apps[0])
    } else {
        find_app_spec(apps.drop_first(), name)
    }
}

proof fn lemma_find_app_none(apps: Seq<AppConfig>, name: Seq<char>)
    requires
        forall|k: int| 0 <= k < apps.len() ==> apps[k].name@ != name,
    ensures
        find_app_spec(apps, name) is None,
    decreases apps.len(),
{
    if apps.len() > 0 {
        lemma_find_app_none(apps.drop_first(), name);
    }
}

proof fn lemma_find_app_first(apps: Seq<AppConfig>, name: Seq<char>, i: int)
    requires
        0 <= i < apps.len(),
        apps[i].name@ == name,
        forall|k: int| 0 <= k < i ==> apps[k].name@ != name,
    ensures
        find_app_spec(apps, name) == Some(apps[i]),
    decreases i,
{
    if i > 0 {
        lemma_find_app_first(apps.drop_first(), name, i - 1);
    }
}

/// Resolve an app name against the configuration: the first entry whose
/// name matches exactly, or `None` when the name is absent.
pub fn find_app<'a>(apps: &'a Vec<AppConfig>, name: &str) -> (r: Option<&'a AppConfig>)
    ensures
        match r {
            Some(a) => find_app_spec(apps@, name@) == Some(*a),
            None => find_app_spec(apps@, name@) is None,
        },
{
    let mut i: usize = 0;
    while i < apps.len()
        invariant
            0 <= i <= apps@.len(),
            forall|k: int| 0 <= k < i ==> apps@[k].name@ != name@,
        decreases apps@.len() - i,
    {
        if crate::text::str_eq(apps[i].name.as_str(), name) {
            proof {
                lemma_find_app_first(apps@, name@, i as int);
            }
            return Some(&apps[i]);
        }
        i += 1;
    }
    proof {
        lemma_find_app_none(apps@, name@);
    }
    None
}

} // verus!
