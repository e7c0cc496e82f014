//! The shared command-symlink generator, in its two layouts: flat links
//! named with the reserved generated-file prefix, or plain-named links under
//! a tool-owned subdirectory.

use vstd::prelude::*;

use crate::command_reader::{
    check_command_symlinks_in_subdir_in_sync, check_command_symlinks_in_sync,
    create_command_symlinks, create_command_symlinks_in_subdir, get_command_gitignore_patterns,
    spec_command_links_in_sync, spec_flat_command_links, spec_subdir_command_links,
    spec_subdir_command_links_in_sync, CommandFile,
};
use crate::constants::GENERATED_FILE_PREFIX;
use crate::markdown_based::opt_view;

verus! {

/// Creates one command symlink per authored command document.
pub struct ExternalCommandsGenerator {
    pub target_dir: String,
    /// The tool-owned subdirectory; a flat layout with prefix-named links
    /// when absent.
    pub subdir: Option<String>,
}

impl ExternalCommandsGenerator {
    /// The flat layout: links named with the reserved prefix, directly in
    /// the target directory.
    pub fn new(target_dir: &str) -> (r: ExternalCommandsGenerator)
        ensures
            r.target_dir@ == target_dir@,
            r.subdir is None,
    {
        ExternalCommandsGenerator { target_dir: target_dir.to_owned(), subdir: None }
    }

    /// The subdirectory layout: plain-named links under a tool-owned
    /// subdirectory.
    pub fn with_subdir(target_dir: &str, subdir: &str) -> (r: ExternalCommandsGenerator)
        ensures
            r.target_dir@ == target_dir@,
            opt_view(r.subdir) == Some(subdir@),
    {
        ExternalCommandsGenerator {
            target_dir: target_dir.to_owned(),
            subdir: Some(subdir.to_owned()),
        }
    }

    /// The planned symlinks for the authored commands.
    pub fn generate_command_symlinks(&self, commands: &Vec<CommandFile>) -> (r: Vec<
        (String, String),
    >)
        ensures
            crate::body_generator::entry_views(r@) == match opt_view(self.subdir) {
                Some(sub) => spec_subdir_command_links(
                    commands@.map_values(|c: CommandFile| c@),
                    self.target_dir@,
                    sub,
                ),
                None => spec_flat_command_links(
                    commands@.map_values(|c: CommandFile| c@),
                    self.target_dir@,
                ),
            },
    {
        match &self.subdir {
            Some(sub) => create_command_symlinks_in_subdir(
                commands,
                self.target_dir.as_str(),
                sub.as_str(),
            ),
            None => create_command_symlinks(commands, self.target_dir.as_str()),
        }
    }

    /// What the cleaner removes in the flat layout: exactly the link names
    /// carrying the reserved prefix. In the subdirectory layout the whole
    /// tool-owned subdirectory goes instead, so nothing is selected here.
    pub fn clean_commands(&self, link_names: &Vec<String>) -> (r: Vec<String>)
        ensures
            self.subdir is None ==> crate::file_utils::string_views(r@)
                == crate::cleaner::spec_prefixed(
                crate::file_utils::string_views(link_names@),
                GENERATED_FILE_PREFIX@,
            ),
            self.subdir is Some ==> r@.len() == 0,
    {
        match &self.subdir {
            Some(_) => Vec::new(),
            None => crate::cleaner::select_generated_names(link_names),
        }
    }

    /// Whether the command links are in sync, in this generator's layout:
    /// the flat layout is judged over the tool-owned (prefix-named) links,
    /// the subdirectory layout over every entry of the subdirectory.
    pub fn check_commands(&self, commands: &Vec<CommandFile>, links: &Vec<(String, String)>) -> (r:
        bool)
        ensures
            r == match opt_view(self.subdir) {
                Some(_) => spec_subdir_command_links_in_sync(
                    commands@.map_values(|c: CommandFile| c@),
                    crate::body_generator::entry_views(links@),
                ),
                None => spec_command_links_in_sync(
                    commands@.map_values(|c: CommandFile| c@),
                    crate::body_generator::entry_views(links@),
                ),
            },
    {
        match &self.subdir {
            Some(_) => check_command_symlinks_in_subdir_in_sync(commands, links),
            None => check_command_symlinks_in_sync(commands, links),
        }
    }

    pub fn command_gitignore_patterns(&self) -> (r: Vec<String>)
        ensures
            r@.len() == 1,
            r@[0]@ == match opt_view(self.subdir) {
                Some(sub) => self.target_dir@ + "/"@ + sub + "/"@,
                None => self.target_dir@ + "/"@ + GENERATED_FILE_PREFIX@ + "*.md"@,
            },
    {
        match &self.subdir {
            Some(sub) => {
                let mut p = self.target_dir.clone();
                p.append("/");
                p.append(sub.as_str());
                p.append("/");
                let mut v: Vec<String> = Vec::new();
                v.push(p);
                v
            },
            None => get_command_gitignore_patterns(self.target_dir.as_str()),
        }
    }
}

} // verus!
