use crate::cli::Cli;
use crate::stats::Stats;
use vstd::prelude::*;

verus! {

/// The type of a directory entry.
#[derive(Debug, Clone, Copy, PartialEq, Eq, Structural)]
pub enum FileType {
    File,
    Dir,
    SymLink,
}

impl FileType {
    pub fn is_file(&self) -> (r: bool)
        ensures
            r == (*self is File),
    {
        matches!(self, FileType::File)
    }

    pub fn is_dir(&self) -> (r: bool)
        ensures
            r == (*self is Dir),
    {
        matches!(self, FileType::Dir)
    }

    pub fn is_symlink(&self) -> (r: bool)
        ensures
            r == (*self is SymLink),
    {
        matches!(self, FileType::SymLink)
    }
}

/// Whether the options select entries of type `file_type` for renaming.
pub fn is_selected(file_type: FileType, opts: &Cli) -> (r: bool)
    ensures
        r == ((file_type is File && opts.file) || (file_type is Dir && opts.directory) || (
        file_type is SymLink && opts.symlink)),
{
    (file_type.is_file() && opts.file) || (file_type.is_dir() && opts.directory) || (
    file_type.is_symlink() && opts.symlink)
}

/// What becomes of the result of a step.
pub enum Flow<T, E> {
    /// The value goes on to the next step.
    Pass(T),
    /// The error ends the run.
    Stop(E),
    /// The error is reported and its entry skipped.
    Skip(E),
}

/// Routes the result of a step: a value goes on; an error ends the run, or,
/// with `continue_on_error`, is counted, reported and its entry skipped.
pub fn handle_error_to_user<T, E>(res: Result<T, E>, continue_on_error: bool, stats: &mut Stats) -> (r: Flow<T, E>)
    ensures
        match res {
            Ok(v) => r == Flow::<T, E>::Pass(v) && *final(stats) == *old(stats),
            Err(e) => if continue_on_error {
                &&& r == Flow::<T, E>::Skip(e)
                &&& *final(stats) == old(stats).counted_error()
            } else {
                &&& r == Flow::<T, E>::Stop(e)
                &&& *final(stats) == *old(stats)
            },
        },
{
    match res {
        Ok(value) => Flow::Pass(value),
        Err(error) => {
            if continue_on_error {
                stats.error();
                Flow::Skip(error)
            } else {
                Flow::Stop(error)
            }
        },
    }
}

} // verus!
