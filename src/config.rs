use vstd::prelude::*;
use vstd::string::*;

verus! {

/// What a run needs: where to start and where to write.
#[derive(Clone, Debug)]
pub struct GenerateConfig {
    pub input: Input,
    pub output: Output,
}

#[derive(Clone, Debug)]
pub struct Input {
    /// The entry module; everything is resolved relative to it.
    pub index_file: String,
}

#[derive(Clone, Debug)]
pub struct Output {
    /// The directory the binding files go to.
    pub directory: String,
}

impl Default for Input {
    fn default() -> (r: Input)
        ensures
            r.index_file@ == "ts/index.ts"@,
    {
        Input { index_file: String::from_str("ts/index.ts") }
    }
}

impl Default for Output {
    fn default() -> (r: Output)
        ensures
            r.directory@ == "output"@,
    {
        Output { directory: String::from_str("output") }
    }
}

impl Default for GenerateConfig {
    fn default() -> (r: GenerateConfig)
        ensures
            r.input.index_file@ == "ts/index.ts"@,
            r.output.directory@ == "output"@,
    {
        GenerateConfig { input: Input::default(), output: Output::default() }
    }
}

} // verus!
