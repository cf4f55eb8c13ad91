//! Command-line configuration of the line search.
use vstd::prelude::*;

verus! {

/// What to search for, where, and whether case matters.
#[derive(Debug, PartialEq)]
pub struct Config {
    pub query: String,
    pub filename: String,
    pub ignore_case: bool,
}

/// Message when the query argument is missing.
pub const MISSING_QUERY: &'static str = "Please provide a query string";

/// Message when the file name argument is missing.
pub const MISSING_FILENAME: &'static str = "Please provide a filename";

impl Config {
    /// Builds the configuration from the command-line arguments (the first is
    /// the program name, then the query, then the file name; later ones are
    /// ignored) and from whether case is to be ignored.
    pub fn build(args: Vec<String>, ignore_case: bool) -> (r: Result<Config, &'static str>)
        ensures
            args.len() < 2 ==> r == Err::<Config, &'static str>(MISSING_QUERY),
            args.len() == 2 ==> r == Err::<Config, &'static str>(MISSING_FILENAME),
            args.len() > 2 <==> r is Ok,
            r matches Ok(c) ==> c.query@ == args@[1]@ && c.filename@ == args@[2]@
                && c.ignore_case == ignore_case,
    {
        if args.len() < 2 {
            return Err(MISSING_QUERY);
        }
        if args.len() < 3 {
            return Err(MISSING_FILENAME);
        }
        let query = args[1].clone();
        let filename = args[2].clone();
        Ok(Config { query, filename, ignore_case })
    }
}

} // verus!
