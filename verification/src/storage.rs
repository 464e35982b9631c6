//! What is kept between two runs: the settings, and where they and the cookies are stored.

use directories::ProjectDirs;
use std::path::PathBuf;
use vstd::prelude::*;

verus! {

/// What the user has entered and is asked for no more. The password is not among it.
#[derive(Debug)]
pub struct SavedSettings {
    pub base_url: String,
    pub language: String,
    pub username: String,
    pub insert_form_url_override: String,
}

/// The content of `SavedSettings`.
#[verifier::ext_equal]
pub struct SavedSettingsView {
    pub base_url: Seq<char>,
    pub language: Seq<char>,
    pub username: Seq<char>,
    pub insert_form_url_override: Seq<char>,
}

impl DeepView for SavedSettings {
    type V = SavedSettingsView;

    open spec fn deep_view(&self) -> SavedSettingsView {
        SavedSettingsView {
            base_url: self.base_url@,
            language: self.language@,
            username: self.username@,
            insert_form_url_override: self.insert_form_url_override@,
        }
    }
}

impl Clone for SavedSettings {
    fn clone(&self) -> (r: SavedSettings)
        ensures
            r.deep_view() == self.deep_view(),
    {
        SavedSettings {
            base_url: self.base_url.clone(),
            language: self.language.clone(),
            username: self.username.clone(),
            insert_form_url_override: self.insert_form_url_override.clone(),
        }
    }
}

impl SavedSettingsView {
    /// The settings before anything is entered: the pages are asked for in Italian.
    pub open spec fn initial() -> SavedSettingsView {
        SavedSettingsView {
            base_url: Seq::empty(),
            language: "it"@,
            username: Seq::empty(),
            insert_form_url_override: Seq::empty(),
        }
    }
}

impl Default for SavedSettings {
    fn default() -> (r: SavedSettings)
        ensures
            r.deep_view() == SavedSettingsView::initial(),
    {
        SavedSettings {
            base_url: String::new(),
            language: "it".to_owned(),
            username: String::new(),
            insert_form_url_override: String::new(),
        }
    }
}

/// The settings to start with, from those that were stored, if they could be read.
pub fn settings_or_default(stored: Option<SavedSettings>) -> (r: SavedSettings)
    ensures
        r.deep_view() == (match stored {
            Some(settings) => settings.deep_view(),
            None => SavedSettingsView::initial(),
        }),
{
    match stored {
        Some(settings) => settings,
        None => SavedSettings::default(),
    }
}

/// `std::path::PathBuf`, a path in the form of the operating system.
#[verifier::external_type_specification]
#[verifier::external_body]
pub struct ExPathBuf(std::path::PathBuf);

/// A file by its directory and its name there.
#[derive(Debug)]
pub struct StoredFile {
    pub directory: PathBuf,
    pub name: String,
}

/// `directories::ProjectDirs::from`, then `config_dir`: the directory in which the user's account
/// keeps the configuration of an application, if the account has one. It is asked for this
/// application alone. The answer depends on the system and on the environment, so nothing is said
/// of it.
#[verifier::external_body]
fn project_config_dir(qualifier: &str, organization: &str, application: &str) -> (r: Option<
    PathBuf,
>)
    requires
        qualifier@ == "com"@,
        organization@ == "libemin"@,
        application@ == "libemin"@,
{
    ProjectDirs::from(qualifier, organization, application).map(
        |dirs| dirs.config_dir().to_path_buf(),
    )
}

/// A file in the configuration directory, once that directory is known or known to be missing.
pub fn file_in(directory: Option<PathBuf>, name: &str) -> (r: Result<StoredFile, String>)
    ensures
        directory matches Some(found) ==> r is Ok && r->Ok_0.directory == found
            && r->Ok_0.name@ == name@,
        directory is None ==> r is Err && r->Err_0@
            == "failed to resolve an app configuration directory"@,
{
    match directory {
        Some(directory) => Ok(StoredFile { directory, name: name.to_owned() }),
        None => Err("failed to resolve an app configuration directory".to_owned()),
    }
}

/// Where the settings are stored.
pub fn settings_path() -> (r: Result<StoredFile, String>)
    ensures
        r matches Ok(file) ==> file.name@ == "settings.json"@,
        r matches Err(message) ==> message@
            == "failed to resolve an app configuration directory"@,
{
    file_in(project_config_dir("com", "libemin", "libemin"), "settings.json")
}

/// Where the cookies are stored.
pub fn cookie_store_path() -> (r: Result<StoredFile, String>)
    ensures
        r matches Ok(file) ==> file.name@ == "cookies.json"@,
        r matches Err(message) ==> message@
            == "failed to resolve an app configuration directory"@,
{
    file_in(project_config_dir("com", "libemin", "libemin"), "cookies.json")
}

/// Whether cookies were stored, from whether their file exists, if it can be told where it is.
pub fn has_cookie_store(exists: Option<bool>) -> (r: bool)
    ensures
        r == (exists == Some(true)),
{
    match exists {
        Some(found) => found,
        None => false,
    }
}

/// Before anything is entered, the pages are asked for in Italian and nothing else is known: no
/// site, no user and no address of a form.
pub proof fn law_initial_settings()
    ensures
        SavedSettingsView::initial().language == "it"@,
        SavedSettingsView::initial().base_url.len() == 0,
        SavedSettingsView::initial().username.len() == 0,
        SavedSettingsView::initial().insert_form_url_override.len() == 0,
{
}

} // verus!
