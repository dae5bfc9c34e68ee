use crate::cli::Cli;
use crate::fs::FileType;
use vstd::prelude::*;

verus! {

/// A row of the summary report.
#[derive(Debug, Clone, Copy, PartialEq, Eq, Structural)]
pub enum SummaryItem {
    Errors,
    Files,
    Directories,
    Symlinks,
    /// Shown, with a count of zero, when nothing else is.
    Actions,
}

/// `n + 1`, saturating.
pub open spec fn bumped(n: u32) -> u32 {
    if n < u32::MAX {
        (n + 1) as u32
    } else {
        n
    }
}

fn bump(n: u32) -> (r: u32)
    ensures
        r == bumped(n),
{
    n.saturating_add(1)
}

/// What a run reports: which renames are shown, the counts for the summary, and
/// the texts and layout of the report.
pub struct Stats {
    pub show_renames: bool,
    pub show_summary: bool,
    pub operation_mode: String,
    pub base_path: String,
    pub errors: u32,
    pub renamed_files: u32,
    pub renamed_directories: u32,
    pub renamed_symlinks: u32,
    /// The column at which the arrows of shown renames line up at most.
    pub middle_col: usize,
    /// The longest old path shown so far.
    pub max_indent: usize,
    pub rename_arrow: String,
    pub error_icon: String,
    pub file_icon: String,
    pub dir_icon: String,
    pub symlink_icon: String,
}

/// The middle column of a terminal `width` columns wide, two columns in.
pub open spec fn middle_col_of(width: Option<u16>) -> usize {
    match width {
        Some(w) => if w / 2 >= 2 {
            (w / 2 - 2) as usize
        } else {
            0
        },
        None => 0,
    }
}

/// The padding before the arrow of a shown rename whose old path is `len`
/// long: the shorter of the longest old path and the middle column, less
/// `len`, saturating at zero.
pub open spec fn padding(max_indent: usize, middle_col: usize, len: usize) -> usize {
    let column = if max_indent <= middle_col {
        max_indent
    } else {
        middle_col
    };
    if column >= len {
        (column - len) as usize
    } else {
        0
    }
}

impl Stats {
    /// Nothing shown, nothing counted, plain texts; the arrows of shown renames
    /// line up at most at the middle of a terminal `terminal_width` wide.
    pub fn new(terminal_width: Option<u16>) -> (s: Stats)
        ensures
            !s.show_renames && !s.show_summary,
            s.errors == 0 && s.renamed_files == 0 && s.renamed_directories == 0
                && s.renamed_symlinks == 0,
            s.middle_col == middle_col_of(terminal_width),
            s.max_indent == 0,
            s.operation_mode@.len() == 0 && s.base_path@.len() == 0,
            s.rename_arrow@ == "=>"@,
            s.error_icon@.len() == 0 && s.file_icon@.len() == 0 && s.dir_icon@.len() == 0
                && s.symlink_icon@.len() == 0,
    {
        let middle_col: usize = match terminal_width {
            Some(w) => ((w / 2) as usize).saturating_sub(2),
            None => 0,
        };
        Stats {
            show_renames: false,
            show_summary: false,
            operation_mode: String::new(),
            base_path: String::new(),
            errors: 0,
            renamed_files: 0,
            renamed_directories: 0,
            renamed_symlinks: 0,
            rename_arrow: "=>".to_owned(),
            middle_col,
            max_indent: 0,
            error_icon: String::new(),
            file_icon: String::new(),
            dir_icon: String::new(),
            symlink_icon: String::new(),
        }
    }

    /// Takes over what the options ask to be shown.
    pub fn set_cli_opts(&mut self, opts: &Cli)
        ensures
            final(self).show_renames == (opts.verbose >= 2),
            final(self).show_summary == (opts.verbose >= 1),
            final(self).base_path@ == opts.base_path@,
            final(self).operation_mode@ == if opts.run {
                "RUN"@
            } else if opts.dry_run {
                "DRY-RUN"@
            } else {
                old(self).operation_mode@
            },
            opts.icons ==> {
                &&& final(self).rename_arrow@ == "\u{21d2}"@
                &&& final(self).error_icon@ == "\u{f00d} "@
                &&& final(self).file_icon@ == "\u{f15b} "@
                &&& final(self).dir_icon@ == "\u{f07c} "@
                &&& final(self).symlink_icon@ == "\u{f481} "@
            },
            !opts.icons ==> {
                &&& final(self).rename_arrow == old(self).rename_arrow
                &&& final(self).error_icon == old(self).error_icon
                &&& final(self).file_icon == old(self).file_icon
                &&& final(self).dir_icon == old(self).dir_icon
                &&& final(self).symlink_icon == old(self).symlink_icon
            },
            final(self).errors == old(self).errors,
            final(self).renamed_files == old(self).renamed_files,
            final(self).renamed_directories == old(self).renamed_directories,
            final(self).renamed_symlinks == old(self).renamed_symlinks,
            final(self).middle_col == old(self).middle_col,
            final(self).max_indent == old(self).max_indent,
    {
        self.show_renames = opts.verbose >= 2;
        self.show_summary = opts.verbose >= 1;
        self.base_path = opts.base_path.clone();
        if opts.run {
            self.operation_mode = "RUN".to_owned();
        } else if opts.dry_run {
            self.operation_mode = "DRY-RUN".to_owned();
        }
        if opts.icons {
            self.rename_arrow = "\u{21d2}".to_owned();
            self.error_icon = "\u{f00d} ".to_owned();
            self.file_icon = "\u{f15b} ".to_owned();
            self.dir_icon = "\u{f07c} ".to_owned();
            self.symlink_icon = "\u{f481} ".to_owned();
        }
    }

    /// The counts after one more error.
    pub open spec fn counted_error(self) -> Stats {
        if self.show_summary {
            Stats { errors: bumped(self.errors), ..self }
        } else {
            self
        }
    }

    /// Counts an error, where a summary is shown.
    pub fn error(&mut self)
        ensures
            *final(self) == old(self).counted_error(),
    {
        if self.show_summary {
            self.errors = bump(self.errors);
        }
    }

    /// The counts and layout after a rename of an entry of type `file_type`
    /// whose old path is `old_path_len` long.
    pub open spec fn counted_rename(self, old_path_len: usize, file_type: FileType) -> Stats {
        let shown = if self.show_renames && old_path_len > self.max_indent {
            Stats { max_indent: old_path_len, ..self }
        } else {
            self
        };
        if !self.show_summary {
            shown
        } else {
            match file_type {
                FileType::File => Stats { renamed_files: bumped(self.renamed_files), ..shown },
                FileType::Dir => Stats {
                    renamed_directories: bumped(self.renamed_directories),
                    ..shown
                },
                FileType::SymLink => Stats { renamed_symlinks: bumped(self.renamed_symlinks), ..shown },
            }
        }
    }

    /// Records a rename. Where renames are shown, returns the padding that
    /// lines its arrow up with the others: the shorter of the middle column and
    /// the longest old path so far, less the length of this old path.
    pub fn rename(&mut self, old_path_len: usize, file_type: FileType) -> (indent: Option<usize>)
        ensures
            *final(self) == old(self).counted_rename(old_path_len, file_type),
            old(self).show_renames ==> indent == Some(
                padding(final(self).max_indent, old(self).middle_col, old_path_len),
            ),
            !old(self).show_renames ==> indent is None,
    {
        let mut indent = None;
        if self.show_renames {
            if old_path_len > self.max_indent {
                self.max_indent = old_path_len;
            }
            let column = if self.max_indent <= self.middle_col {
                self.max_indent
            } else {
                self.middle_col
            };
            indent = Some(column.saturating_sub(old_path_len));
        }
        if self.show_summary {
            match file_type {
                FileType::File => self.renamed_files = bump(self.renamed_files),
                FileType::Dir => self.renamed_directories = bump(self.renamed_directories),
                FileType::SymLink => self.renamed_symlinks = bump(self.renamed_symlinks),
            }
        }
        indent
    }

    /// Whether anything was written before the summary: an error, or a shown
    /// rename.
    pub fn has_output(&self) -> (r: bool)
        ensures
            r == (self.errors != 0 || (self.show_renames && (self.renamed_files
                + self.renamed_directories + self.renamed_symlinks) != 0)),
    {
        self.errors != 0 || (self.show_renames && (self.renamed_files != 0
            || self.renamed_directories != 0 || self.renamed_symlinks != 0))
    }

    /// The rows of the summary: each non-zero count, in the order errors,
    /// files, directories, symlinks; a single row of no actions where all are
    /// zero.
    pub open spec fn summary_rows(self) -> Seq<(SummaryItem, u32)> {
        let rows = (if self.errors != 0 {
            seq![(SummaryItem::Errors, self.errors)]
        } else {
            seq![]
        }) + (if self.renamed_files != 0 {
            seq![(SummaryItem::Files, self.renamed_files)]
        } else {
            seq![]
        }) + (if self.renamed_directories != 0 {
            seq![(SummaryItem::Directories, self.renamed_directories)]
        } else {
            seq![]
        }) + (if self.renamed_symlinks != 0 {
            seq![(SummaryItem::Symlinks, self.renamed_symlinks)]
        } else {
            seq![]
        });
        if rows.len() == 0 {
            seq![(SummaryItem::Actions, 0u32)]
        } else {
            rows
        }
    }

    pub fn summary(&self) -> (r: Vec<(SummaryItem, u32)>)
        ensures
            r@ == self.summary_rows(),
    {
        let mut rows: Vec<(SummaryItem, u32)> = Vec::new();
        if self.errors != 0 {
            rows.push((SummaryItem::Errors, self.errors));
        }
        if self.renamed_files != 0 {
            rows.push((SummaryItem::Files, self.renamed_files));
        }
        if self.renamed_directories != 0 {
            rows.push((SummaryItem::Directories, self.renamed_directories));
        }
        if self.renamed_symlinks != 0 {
            rows.push((SummaryItem::Symlinks, self.renamed_symlinks));
        }
        if rows.len() == 0 {
            rows.push((SummaryItem::Actions, 0));
        }
        proof {
            assert(rows@ =~= self.summary_rows());
        }
        rows
    }
}

} // verus!
