use vstd::prelude::*;

verus! {

/// Why the options cannot be completed.
#[derive(Debug)]
pub enum Error {
    /// Both a run and a dry run were asked for.
    MultipleOperationModes,
    /// The default-operation variable holds neither `RUN` nor `DRY-RUN`.
    UnknownEnvVarContent { var_name: String, content: String },
}

/// The name of the variable that sets the default operation.
pub open spec fn default_op_var() -> Seq<char> {
    "FRS_DEFAULT_OP"@
}

/// The upper-case form of `s`, as `str::to_uppercase` gives it.
pub uninterp spec fn upper_of(s: Seq<char>) -> Seq<char>;

/// Relies on str::to_uppercase: the result depends on the characters alone.
#[verifier::external_body]
fn uppercase(s: &str) -> (r: String)
    ensures
        r@ == upper_of(s@),
{
    s.to_uppercase()
}

/// The command-line options.
#[derive(Debug)]
pub struct Cli {
    pub dry_run: bool,
    pub run: bool,
    pub verbose: u8,
    pub continue_on_error: bool,
    pub traverse_tree: bool,
    pub file: bool,
    pub directory: bool,
    pub symlink: bool,
    pub case_insensetive: bool,
    pub icons: bool,
    pub search_pattern: String,
    pub replace_pattern: String,
    pub base_path: String,
}

/// Options with every flag off and every text empty.
pub fn empty_cli() -> (c: Cli)
    ensures
        !c.dry_run && !c.run && c.verbose == 0 && !c.continue_on_error && !c.traverse_tree,
        !c.file && !c.directory && !c.symlink && !c.case_insensetive && !c.icons,
        c.search_pattern@.len() == 0 && c.replace_pattern@.len() == 0 && c.base_path@.len() == 0,
{
    Cli {
        run: false,
        dry_run: false,
        continue_on_error: false,
        case_insensetive: false,
        file: false,
        directory: false,
        symlink: false,
        traverse_tree: false,
        icons: false,
        verbose: 0,
        search_pattern: String::new(),
        replace_pattern: String::new(),
        base_path: String::new(),
    }
}

impl Cli {
    /// The default operation, upper-cased, that the variable's value `var`
    /// asks for; a dry run where the variable is unset.
    pub open spec fn default_mode(var: Option<String>) -> Seq<char> {
        upper_of(
            match var {
                Some(v) => v@,
                None => "DRY-RUN"@,
            },
        )
    }

    /// The options once the default operation `mode` is applied: it turns on
    /// its own mode unless the other one was asked for.
    pub open spec fn with_mode(self, mode: Seq<char>) -> Cli {
        if mode == "RUN"@ {
            Cli { run: self.run || !self.dry_run, ..self }
        } else if mode == "DRY-RUN"@ {
            Cli { dry_run: self.dry_run || !self.run, ..self }
        } else {
            self
        }
    }

    /// A dry run shows at least a summary.
    pub open spec fn with_verbosity(self) -> Cli {
        Cli {
            verbose: if self.dry_run && self.verbose == 0 {
                1
            } else {
                self.verbose
            },
            ..self
        }
    }

    /// Where no entry type is chosen, all are, except directories when the
    /// tree is traversed.
    pub open spec fn with_types(self) -> Cli {
        let none = !(self.file || self.directory || self.symlink);
        Cli {
            file: self.file || none,
            directory: self.directory || (none && !self.traverse_tree),
            symlink: self.symlink || none,
            ..self
        }
    }

    /// Whether `r` is the error for the unknown default operation `mode`.
    pub open spec fn is_unknown_mode_error(r: Result<(), Error>, mode: Seq<char>) -> bool {
        match r {
            Err(Error::UnknownEnvVarContent { var_name, content }) => {
                var_name@ == default_op_var() && content@ == mode
            },
            _ => false,
        }
    }

    /// Completes the options after parsing: the operation mode, given the
    /// value `default_op` of the default-operation variable (`None` when
    /// unset), then the verbosity, then the entry types.
    pub fn post_automations(&mut self, default_op: Option<String>) -> (r: Result<(), Error>)
        ensures
            old(self).run && old(self).dry_run ==> r matches Err(Error::MultipleOperationModes),
            !(old(self).run && old(self).dry_run) ==> {
                let mode = Self::default_mode(default_op);
                if mode == "RUN"@ || mode == "DRY-RUN"@ {
                    &&& r is Ok
                    &&& *final(self) == old(self).with_mode(mode).with_verbosity().with_types()
                } else {
                    Self::is_unknown_mode_error(r, mode)
                }
            },
    {
        match self.set_operation_mode(default_op) {
            Ok(()) => {},
            Err(error) => {
                return Err(error);
            },
        }
        self.set_verbosity();
        self.set_types();
        Ok(())
    }

    /// Applies the default operation given by `default_op`, the value of the
    /// default-operation variable (`None` when unset).
    pub fn set_operation_mode(&mut self, default_op: Option<String>) -> (r: Result<(), Error>)
        ensures
            old(self).run && old(self).dry_run ==> {
                &&& r matches Err(Error::MultipleOperationModes)
                &&& *final(self) == *old(self)
            },
            !(old(self).run && old(self).dry_run) ==> {
                let mode = Self::default_mode(default_op);
                if mode == "RUN"@ || mode == "DRY-RUN"@ {
                    &&& r is Ok
                    &&& *final(self) == old(self).with_mode(mode)
                } else {
                    &&& Self::is_unknown_mode_error(r, mode)
                    &&& *final(self) == *old(self)
                }
            },
    {
        if self.run && self.dry_run {
            return Err(Error::MultipleOperationModes);
        }
        let value = match default_op {
            Some(v) => v,
            None => "DRY-RUN".to_owned(),
        };
        let mode = uppercase(value.as_str());
        let run_word = "RUN".to_owned();
        let dry_run_word = "DRY-RUN".to_owned();
        if mode == run_word {
            if !self.dry_run {
                self.run = true;
            }
        } else if mode == dry_run_word {
            if !self.run {
                self.dry_run = true;
            }
        } else {
            return Err(
                Error::UnknownEnvVarContent { var_name: "FRS_DEFAULT_OP".to_owned(), content: mode },
            );
        }
        Ok(())
    }

    /// A dry run sets a verbosity of at least one.
    pub fn set_verbosity(&mut self)
        ensures
            *final(self) == old(self).with_verbosity(),
    {
        if self.dry_run && self.verbose == 0 {
            self.verbose = 1;
        }
    }

    /// Where no entry type is chosen, all are selected, except directories
    /// when the tree is traversed.
    pub fn set_types(&mut self)
        ensures
            *final(self) == old(self).with_types(),
    {
        let no_type_selected = !(self.file || self.directory || self.symlink);
        self.file = self.file || no_type_selected;
        self.directory = self.directory || (no_type_selected && !self.traverse_tree);
        self.symlink = self.symlink || no_type_selected;
    }
}

} // verus!
