use vstd::prelude::*;

use crate::error::GitProfileError;

verus! {

/// The directory that holds one `<name>.gitconfig` file for each profile.
pub trait GitProfileDir {
    /// The directory's path.
    spec fn path_view(&self) -> Seq<char>;

    /// The directory's path.
    fn path(&self) -> (r: &str)
        ensures
            r@ == self.path_view(),
    ;
}

/// The profile directory of a user: `git-profile` in the user's configuration
/// directory.
#[derive(Debug)]
pub struct DefaultGitProfileDir {
    path: String,
}

/// The profile directory for the values of `XDG_CONFIG_HOME` and `HOME`:
/// `$XDG_CONFIG_HOME/git-profile` where the first is set, else
/// `$HOME/.config/git-profile`.
pub open spec fn default_profile_dir(
    xdg_config_home: Option<Seq<char>>,
    home: Option<Seq<char>>,
) -> Option<Seq<char>> {
    match xdg_config_home {
        Some(x) => Some(x + "/git-profile"@),
        None => match home {
            Some(h) => Some(h + "/.config"@ + "/git-profile"@),
            None => None,
        },
    }
}

/// The characters of an environment variable's value, where it is set.
pub open spec fn env_view(v: Option<&str>) -> Option<Seq<char>> {
    match v {
        Some(x) => Some(x@),
        None => None,
    }
}

impl DefaultGitProfileDir {
    /// Resolves the directory from the values of the environment variables
    /// `XDG_CONFIG_HOME` and `HOME` (`None` where one is not set). Fails with
    /// an `Environment` error naming `HOME` where neither is set.
    pub fn new(xdg_config_home: Option<&str>, home: Option<&str>) -> (r: Result<Self, GitProfileError>)
        ensures
            default_profile_dir(env_view(xdg_config_home), env_view(home)) matches Some(d) ==> (
            r matches Ok(p) && p.path_view() == d),
            xdg_config_home is None && home is None ==> (r matches Err(
                GitProfileError::Environment { variable },
            ) && variable@ == "HOME"@),
    {
        let base = match xdg_config_home {
            Some(x) => String::from_str(x),
            None => match home {
                Some(h) => {
                    let mut b = String::from_str(h);
                    b.append("/.config");
                    b
                },
                None => {
                    return Err(GitProfileError::Environment { variable: String::from_str("HOME") });
                },
            },
        };
        let mut path = base;
        path.append("/git-profile");
        Ok(DefaultGitProfileDir { path })
    }

    /// The directory at `path`.
    pub fn from_path(path: &str) -> (r: Self)
        ensures
            r.path_view() == path@,
    {
        DefaultGitProfileDir { path: String::from_str(path) }
    }
}

impl GitProfileDir for DefaultGitProfileDir {
    closed spec fn path_view(&self) -> Seq<char> {
        self.path@
    }

    fn path(&self) -> (r: &str) {
        self.path.as_str()
    }
}

/// The same profile directory under the name that the program uses.
pub type ConfigDirGitProfile = DefaultGitProfileDir;

} // verus!
