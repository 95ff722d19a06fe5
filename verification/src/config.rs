//! The run's configuration, built once from the process arguments.

use vstd::prelude::*;

verus! {

/// The paths of the two input files of a run.
pub struct Config {
    pub unicode_data_path: String,
    pub template_path: String,
}

impl Config {
    /// Builds the configuration from the process arguments: argument 1 is
    /// the character-database path and argument 2 the template path, each
    /// falling back to its conventional default file name.
    pub fn new(arguments: Vec<String>) -> (c: Config)
        ensures
            arguments@.len() > 1 ==> c.unicode_data_path@ == arguments@[1]@,
            arguments@.len() <= 1 ==> c.unicode_data_path@ == "UnicodeData.txt"@,
            arguments@.len() > 2 ==> c.template_path@ == arguments@[2]@,
            arguments@.len() <= 2 ==> c.template_path@ == "template.uc"@,
    {
        let unicode_data_path = if arguments.len() > 1 {
            arguments[1].clone()
        } else {
            String::from_str("UnicodeData.txt")
        };
        let template_path = if arguments.len() > 2 {
            arguments[2].clone()
        } else {
            String::from_str("template.uc")
        };
        Config { unicode_data_path, template_path }
    }
}

} // verus!
