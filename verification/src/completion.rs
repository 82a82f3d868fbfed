//! Completion scripts for the shells, filled with the catalog.

use crate::client::list_templates;
use crate::client::listing;
use crate::client::text_view;
use crate::client::Reply;
use crate::client::ReplyView;
use crate::error::ErrorView;
use crate::error::Result;
use crate::text::join;
use crate::text::joined;
use crate::text::replace;
use crate::text::replaced;
use vstd::prelude::*;
use vstd::string::StringExecFns;

verus! {

/// A shell for which a completion script can be made.
#[derive(Debug, Copy, Clone, PartialEq, Eq, PartialOrd, Ord)]
pub enum Shell {
    Bash,
    Fish,
}

/// The script for bash, with a place for the names of the templates.
pub const BASH_COMPLETION_TEMPLATE: &'static str = "\
#!/usr/bin/env bash
complete -W \"{all_templates}\" gi
";

/// The script for fish, with a place for the names of the templates and one
/// for the names of the shells.
pub const FISH_COMPLETION_TEMPLATE: &'static str = "\
complete -c gi -f
complete -c gi -a '{all_templates}'
complete -c gi -s h -l help -d 'Print a short help text and exit'
complete -c gi -s v -l version -d 'Print a short version string and exit'
complete -c gi -l no-pager -d 'Do not pipe output into a pager'
complete -c gi -l completion -a '{all_shells}' -d 'Generate shell completion file'
";

/// The script for bash that offers `names`: they stand, with blanks between
/// them, wherever the template has its place for them.
pub open spec fn bash_script(names: Seq<Seq<char>>) -> Seq<char> {
    replaced(BASH_COMPLETION_TEMPLATE@, "{all_templates}"@, joined(names, " "@))
}

/// The script for fish that offers `names`. The names are put in first and
/// the shells after them, so a place for the shells that the names
/// themselves spell out is filled as well.
pub open spec fn fish_script(names: Seq<Seq<char>>) -> Seq<char> {
    replaced(
        replaced(FISH_COMPLETION_TEMPLATE@, "{all_templates}"@, joined(names, " "@)),
        "{all_shells}"@,
        joined(Shell::names(), " "@),
    )
}

/// The script for `shell` that the reply to a request for the catalog comes
/// to: the script that offers the catalog, or the failure to fetch it.
pub open spec fn completion(reply: ReplyView, shell: Shell) -> std::result::Result<
    Seq<char>,
    ErrorView,
> {
    match listing(reply) {
        Ok(names) => Ok(shell.script(names)),
        Err(e) => Err(e),
    }
}

impl Shell {
    /// The shell's name as a title.
    pub open spec fn title(self) -> Seq<char> {
        match self {
            Shell::Bash => "Bash"@,
            Shell::Fish => "Fish"@,
        }
    }

    /// The shell's name as it is typed.
    pub open spec fn name(self) -> Seq<char> {
        match self {
            Shell::Bash => "bash"@,
            Shell::Fish => "fish"@,
        }
    }

    /// The names of all shells, as they are typed.
    pub open spec fn names() -> Seq<Seq<char>> {
        seq![Shell::Bash.name(), Shell::Fish.name()]
    }

    /// The script for this shell that offers `names`.
    pub open spec fn script(self, names: Seq<Seq<char>>) -> Seq<char> {
        match self {
            Shell::Bash => bash_script(names),
            Shell::Fish => fish_script(names),
        }
    }

    /// The completion script for this shell; `reply` is the service's reply
    /// to a request for the catalog.
    pub fn generate_completion_str(&self, reply: Reply) -> (r: Result<String>)
        ensures
            text_view(r) == completion(reply@, *self),
    {
        match self {
            Shell::Bash => bash_completion(reply),
            Shell::Fish => fish_completion(reply),
        }
    }

    /// The names of all shells, as they are typed.
    pub fn iter() -> (names: Vec<String>)
        ensures
            names.deep_view() == Shell::names(),
    {
        let shells = [Shell::Bash, Shell::Fish];
        let mut names: Vec<String> = Vec::new();
        let mut i: usize = 0;
        while i < 2
            invariant
                i <= 2,
                shells@ == seq![Shell::Bash, Shell::Fish],
                names.deep_view() == Shell::names().take(i as int),
            decreases 2 - i,
        {
            let ghost before = names.deep_view();
            let name = match shells[i] {
                Shell::Bash => String::from_str("bash"),
                Shell::Fish => String::from_str("fish"),
            };
            names.push(name);
            assert(names.deep_view() =~= before.push(shells[i as int].name()));
            assert(Shell::names().take(i + 1) =~= Shell::names().take(i as int).push(
                shells[i as int].name(),
            ));
            i += 1;
        }
        assert(Shell::names().take(2) =~= Shell::names());
        names
    }

    /// The shell's name as a title.
    pub fn to_string(&self) -> (s: String)
        ensures
            s@ == self.title(),
    {
        match self {
            Shell::Bash => String::from_str("Bash"),
            Shell::Fish => String::from_str("Fish"),
        }
    }
}

/// The completion script for bash; `reply` is the service's reply to a
/// request for the catalog.
pub fn bash_completion(reply: Reply) -> (r: Result<String>)
    ensures
        text_view(r) == completion(reply@, Shell::Bash),
{
    match list_templates(reply) {
        Ok(all_templates) => {
            let names = join(all_templates.as_slice(), " ");
            Ok(replace(BASH_COMPLETION_TEMPLATE, "{all_templates}", names.as_str()))
        },
        Err(e) => Err(e),
    }
}

/// The completion script for fish; `reply` is the service's reply to a
/// request for the catalog.
pub fn fish_completion(reply: Reply) -> (r: Result<String>)
    ensures
        text_view(r) == completion(reply@, Shell::Fish),
{
    match list_templates(reply) {
        Ok(all_templates) => {
            let all_shells = Shell::iter();
            let names = join(all_templates.as_slice(), " ");
            let shells = join(all_shells.as_slice(), " ");
            let filled = replace(FISH_COMPLETION_TEMPLATE, "{all_templates}", names.as_str());
            Ok(replace(filled.as_str(), "{all_shells}", shells.as_str()))
        },
        Err(e) => Err(e),
    }
}

/// Every shell is among the names that are listed.
pub proof fn lemma_names_hold_every_shell(shell: Shell)
    ensures
        Shell::names().contains(shell.name()),
{
    match shell {
        Shell::Bash => assert(Shell::names()[0] == shell.name()),
        Shell::Fish => assert(Shell::names()[1] == shell.name()),
    }
}

} // verus!
