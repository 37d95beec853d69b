//! The settings of one run, taken from the command line.
use vstd::prelude::*;

use crate::search::Mode;

verus! {

/// The settings of one run.
pub struct Config {
    pub query: String,
    pub filename: String,
    pub is_sensitive: bool,
    pub exists_ignore_option: bool,
}

/// Whether `option` stands among the arguments after the query and the file name.
pub open spec fn has_option(args: Seq<String>, option: Seq<char>) -> bool {
    exists|i: int| 3 <= i < args.len() && #[trigger] args[i]@ == option
}

/// Whether `option` stands among `args` from the fourth on.
fn find_option(args: &[String], option: &str) -> (r: bool)
    ensures
        r == has_option(args@, option@),
{
    let wanted = option.to_owned();
    let mut i: usize = 3;
    while i < args.len()
        invariant
            wanted@ == option@,
            3 <= i,
            forall|j: int| 3 <= j < i && j < args@.len() ==> #[trigger] args@[j]@ != option@,
        decreases args.len() - i,
    {
        if args[i] == wanted {
            return true;
        }
        i = i + 1;
    }
    false
}

impl Config {
    /// Reads the settings from the program's arguments (`args[0]` is the
    /// program's name): the query, the file name, then any options.
    /// `--insensitive`, or else `insensitive_env` (the environment asks for
    /// it), turns off case sensitivity; `--ignore` reports the lines that do
    /// not match.
    pub fn new(args: &[String], insensitive_env: bool) -> (r: Result<Config, &'static str>)
        ensures
            r is Err <==> args@.len() < 3,
            r is Err ==> r->Err_0@ == "Not enough arguments!"@,
            r is Ok ==> ({
                let c = r->Ok_0;
                &&& c.query@ == args@[1]@
                &&& c.filename@ == args@[2]@
                &&& c.is_sensitive == !(has_option(args@, "--insensitive"@) || insensitive_env)
                &&& c.exists_ignore_option == has_option(args@, "--ignore"@)
            }),
    {
        if args.len() < 3 {
            return Err("Not enough arguments!");
        }
        let query = args[1].clone();
        let filename = args[2].clone();
        let is_sensitive = if find_option(args, "--insensitive") {
            false
        } else {
            !insensitive_env
        };
        let exists_ignore_option = find_option(args, "--ignore");
        Ok(Config { query, filename, is_sensitive, exists_ignore_option })
    }

    /// The way this run reports lines.
    pub fn mode(&self) -> (m: Mode)
        ensures
            m.is_case_sensitive() == self.is_sensitive,
            m.is_inverted() == self.exists_ignore_option,
    {
        Mode::new(self.is_sensitive, self.exists_ignore_option)
    }
}

} // verus!
