use vstd::prelude::*;

use crate::text::str_eq;

verus! {

/// The command-line flags the server recognises.
#[derive(Debug)]
pub struct CliFlags {
    pub data_dir: Option<String>,
    pub config_path: Option<String>,
}

/// Flags read from `args[i..]`, starting from the values found so far: a
/// flag takes the next argument as its value (a later flag wins), a flag
/// with nothing after it is ignored, and other arguments are skipped.
pub open spec fn flags_from(
    args: Seq<Seq<char>>,
    i: nat,
    data_dir: Option<Seq<char>>,
    config: Option<Seq<char>>,
) -> (Option<Seq<char>>, Option<Seq<char>>)
    decreases args.len() - i,
{
    if i >= args.len() {
        (data_dir, config)
    } else if args[i as int] == "--data-dir"@ && i + 1 < args.len() {
        flags_from(args, i + 2, Some(args[(i + 1) as int]), config)
    } else if args[i as int] == "--config"@ && i + 1 < args.len() {
        flags_from(args, i + 2, data_dir, Some(args[(i + 1) as int]))
    } else {
        flags_from(args, i + 1, data_dir, config)
    }
}

pub open spec fn opt_view(o: Option<String>) -> Option<Seq<char>> {
    match o {
        Some(s) => Some(s@),
        None => None,
    }
}

impl CliFlags {
    /// Reads the flags from the arguments that follow the program name.
    pub fn parse(args: &Vec<String>) -> (r: CliFlags)
        ensures
            (opt_view(r.data_dir), opt_view(r.config_path)) == flags_from(
                args@.map_values(|s: String| s@),
                0,
                None,
                None,
            ),
    {
        let ghost views = args@.map_values(|s: String| s@);
        let mut data_dir: Option<String> = None;
        let mut config_path: Option<String> = None;
        let mut i: usize = 0;
        while i < args.len()
            invariant
                views == args@.map_values(|s: String| s@),
                0 <= i <= args@.len() + 1,
                flags_from(views, i as nat, opt_view(data_dir), opt_view(config_path)) == flags_from(
                    views,
                    0,
                    None,
                    None,
                ),
            decreases args@.len() + 1 - i,
        {
            let arg = args[i].as_str();
            if str_eq(arg, "--data-dir") && i + 1 < args.len() {
                data_dir = Some(args[i + 1].clone());
                i += 2;
            } else if str_eq(arg, "--config") && i + 1 < args.len() {
                config_path = Some(args[i + 1].clone());
                i += 2;
            } else {
                i += 1;
            }
        }
        CliFlags { data_dir, config_path }
    }

    pub fn data_dir(&self) -> (r: Option<&str>)
        ensures
            r is Some <==> self.data_dir is Some,
            r is Some ==> r->Some_0@ == self.data_dir->Some_0@,
    {
        match &self.data_dir {
            Some(d) => Some(d.as_str()),
            None => None,
        }
    }

    pub fn config_path(&self) -> (r: Option<&str>)
        ensures
            r is Some <==> self.config_path is Some,
            r is Some ==> r->Some_0@ == self.config_path->Some_0@,
    {
        match &self.config_path {
            Some(c) => Some(c.as_str()),
            None => None,
        }
    }
}

/// Lifecycle of a pipeline as the manager reports it.
#[derive(Debug, Clone, Copy, PartialEq, Eq, Structural)]
pub enum PipelineStatus {
    Created,
    Running,
}

/// The label a status is shown with.
pub open spec fn status_text(status: PipelineStatus) -> Seq<char> {
    match status {
        PipelineStatus::Created => "created"@,
        PipelineStatus::Running => "running"@,
    }
}

pub fn status_label(status: PipelineStatus) -> (r: String)
    ensures
        r@ == status_text(status),
        status is Created ==> r@ == "created"@,
        status is Running ==> r@ == "running"@,
{
    match status {
        PipelineStatus::Created => "created".to_string(),
        PipelineStatus::Running => "running".to_string(),
    }
}

} // verus!
