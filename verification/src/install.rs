//! Installer: route each extracted file to the destination pair its name
//! selects, under the configured directories of a named app.

use vstd::prelude::*;
use crate::error::PipelineError;
use crate::model::{AppConfig, Config, find_app, find_app_spec};
use crate::text::{contains_seq, contains_str};

verus! {

/// One planned copy: the cache file `file_name` is copied to the full
/// destination path `dest_path`, which ends in that same file name.
pub struct CopyAction {
    pub file_name: String,
    pub dest_path: String,
}

impl View for CopyAction {
    type V = (Seq<char>, Seq<char>);

    open spec fn view(&self) -> (Seq<char>, Seq<char>) {
        (self.file_name@, self.dest_path@)
    }
}

impl DeepView for CopyAction {
    type V = (Seq<char>, Seq<char>);

    open spec fn deep_view(&self) -> (Seq<char>, Seq<char>) {
        self.view()
    }
}

/// The destination directory pair for files whose name contains `h5`.
pub open spec fn h5_dirs(app: AppConfig) -> (Seq<char>, Seq<char>) {
    (app.home_path@ + "/src/main/webapp/sysapp/h5/"@, app.exploed_war_path@ + "/sysapp/h5/"@)
}

/// The destination directory pair for every other file.
pub open spec fn web_dirs(app: AppConfig) -> (Seq<char>, Seq<char>) {
    (
        app.home_path@ + "/src/main/webapp/sysapp/react/web/"@,
        app.exploed_war_path@ + "/sysapp/react/web/"@,
    )
}

/// The two copies planned for one file: into both directories of the pair
/// that the file name selects, preserving the file name. A name containing
/// `h5` as a substring selects the h5 pair; any other name the react/web
/// pair.
pub open spec fn copies_for_file(app: AppConfig, name: Seq<char>) -> Seq<(Seq<char>, Seq<char>)> {
    let dirs = if contains_seq(name, "h5"@) {
        h5_dirs(app)
    } else {
        web_dirs(app)
    };
    seq![(name, dirs.0 + name), (name, dirs.1 + name)]
}

/// All copies planned for a list of file names, two per file, in order.
pub open spec fn install_spec(app: AppConfig, names: Seq<Seq<char>>) -> Seq<
    (Seq<char>, Seq<char>),
>
    decreases names.len(),
{
    if names.len() == 0 {
        Seq::empty()
    } else {
        copies_for_file(app, names[0]) + install_spec(app, names.drop_first())
    }
}

/// Appending one file name extends the plan by that file's two copies.
proof fn lemma_install_push(app: AppConfig, names: Seq<Seq<char>>, name: Seq<char>)
    ensures
        install_spec(app, names.push(name)) == install_spec(app, names) + copies_for_file(
            app,
            name,
        ),
    decreases names.len(),
{
    if names.len() == 0 {
        assert(names.push(name)[0] == name);
        assert(names.push(name).drop_first() =~= names);
        assert(install_spec(app, names.push(name)) =~~= install_spec(app, names)
            + copies_for_file(app, name));
    } else {
        assert(names.push(name)[0] == names[0]);
        assert(names.push(name).drop_first() =~= names.drop_first().push(name));
        lemma_install_push(app, names.drop_first(), name);
        assert(install_spec(app, names.push(name)) =~~= install_spec(app, names)
            + copies_for_file(app, name));
    }
}

/// The routing law: the plan holds exactly two copies per file, in file
/// order, and the pair for the file at position `j` is the one its name
/// selects — the h5 destinations when the name contains `h5`, the
/// react/web destinations otherwise, the file name preserved in both.
pub proof fn lemma_install_pairs(app: AppConfig, names: Seq<Seq<char>>)
    ensures
        install_spec(app, names).len() == 2 * names.len(),
        forall|j: int| 0 <= j < names.len() ==> install_spec(app, names).subrange(
            2 * j,
            2 * j + 2,
        ) == copies_for_file(app, #[trigger] names[j]),
    decreases names.len(),
{
    if names.len() > 0 {
        lemma_install_pairs(app, names.drop_first());
        assert forall|j: int| 0 <= j < names.len() implies install_spec(app, names).subrange(
            2 * j,
            2 * j + 2,
        ) == copies_for_file(app, #[trigger] names[j]) by {
            let full = install_spec(app, names);
            let rest = install_spec(app, names.drop_first());
            if j == 0 {
                assert(full.subrange(0, 2) =~~= copies_for_file(app, names[0]));
            } else {
                assert(names.drop_first()[j - 1] == names[j]);
                assert(rest.subrange(2 * (j - 1), 2 * (j - 1) + 2) == copies_for_file(
                    app,
                    names.drop_first()[j - 1],
                ));
                assert(full.subrange(2 * j, 2 * j + 2) =~~= rest.subrange(2 * j - 2, 2 * j));
            }
        }
    }
}

/// Plan the installation of the named files for the app called `app`:
/// resolve the app against the configuration, then, for each file name in
/// order, plan its copy into both directories of the destination pair the
/// name selects. An app name absent from the configuration is a
/// `ConfigError`, and no copy at all is planned for it.
pub fn install_page(file_names: &Vec<String>, app: &str, config: &Config) -> (r: Result<
    Vec<CopyAction>,
    PipelineError,
>)
    ensures
        match r {
            Ok(actions) => {
                &&& find_app_spec(config.apps@, app@) is Some
                &&& actions.deep_view() == install_spec(
                    find_app_spec(config.apps@, app@).unwrap(),
                    file_names.deep_view(),
                )
            },
            Err(e) => {
                &&& e == PipelineError::ConfigError
                &&& find_app_spec(config.apps@, app@) is None
            },
        },
{
    let app_config = match find_app(&config.apps, app) {
        Some(app_config) => app_config,
        None => {
            return Err(PipelineError::ConfigError);
        },
    };
    let ghost app_model = find_app_spec(config.apps@, app@).unwrap();
    let ghost names = file_names.deep_view();
    let mut actions: Vec<CopyAction> = Vec::new();
    let mut i: usize = 0;
    while i < file_names.len()
        invariant
            *app_config == app_model,
            find_app_spec(config.apps@, app@) == Some(app_model),
            names == file_names.deep_view(),
            0 <= i <= file_names@.len(),
            actions.deep_view() == install_spec(app_model, names.take(i as int)),
        decreases file_names@.len() - i,
    {
        proof {
            assert(names.take(i + 1) =~= names.take(i as int).push(names[i as int]));
            lemma_install_push(app_model, names.take(i as int), names[i as int]);
        }
        let name = &file_names[i];
        let is_h5 = contains_str(name.as_str(), "h5");
        let mut home_dest = String::from_str(app_config.home_path.as_str());
        let mut war_dest = String::from_str(app_config.exploed_war_path.as_str());
        if is_h5 {
            home_dest.append("/src/main/webapp/sysapp/h5/");
            war_dest.append("/sysapp/h5/");
        } else {
            home_dest.append("/src/main/webapp/sysapp/react/web/");
            war_dest.append("/sysapp/react/web/");
        }
        home_dest.append(name.as_str());
        war_dest.append(name.as_str());
        actions.push(CopyAction { file_name: name.clone(), dest_path: home_dest });
        actions.push(CopyAction { file_name: name.clone(), dest_path: war_dest });
        proof {
            assert(actions.deep_view() =~~= install_spec(app_model, names.take(i + 1)));
        }
        i += 1;
    }
    proof {
        assert(names.take(file_names@.len() as int) =~= names);
    }
    Ok(actions)
}

} // verus!
