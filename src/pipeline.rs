use vstd::prelude::*;

use crate::mapper::{map_module, module_binding};
use crate::paths::{comps, output_path, output_path_of};
use crate::render::{block_text, render_block};
use crate::types::{BindingDescriptor, MappingError, SourceModule};

verus! {

/// A module of the resolved graph, with its path as components.
#[derive(Clone, Debug)]
pub struct ParsedModule {
    pub path: Vec<String>,
    pub module: SourceModule,
}

/// One binding file to write: where, and the items of its foreign block.
#[derive(Clone, Debug)]
pub struct OutputFile {
    pub path: Vec<String>,
    pub text: String,
}

#[derive(Clone, Debug)]
pub enum GenerateError {
    Mapping(MappingError),
    /// A module that does not lie below the entry's directory.
    OutsideBase(Vec<String>),
}

/// The module maps without error and has an output path.
pub open spec fn module_ok(m: ParsedModule, base: Seq<Seq<char>>, out: Seq<Seq<char>>) -> bool {
    module_binding(m.module.items@) is Ok && output_path_of(comps(m.path@), base, out) is Some
}

/// The output file of a module that maps without error.
pub open spec fn file_of(m: ParsedModule, base: Seq<Seq<char>>, out: Seq<Seq<char>>, f: OutputFile) -> bool {
    output_path_of(comps(m.path@), base, out) == Some(comps(f.path@)) && (module_binding(
        m.module.items@,
    ) matches Ok(ds) && f.text@ == block_text(ds))
}

/// Maps every module and places its binding file under `out_root`, before
/// anything is written: either every module gets its file, or the first
/// module that fails is reported.
pub fn generate(modules: &Vec<ParsedModule>, base_dir: &Vec<String>, out_root: &Vec<String>) -> (r:
    Result<Vec<OutputFile>, GenerateError>)
    ensures
        r is Ok <==> forall|i: int|
            0 <= i < modules@.len() ==> module_ok(
                #[trigger] modules@[i],
                comps(base_dir@),
                comps(out_root@),
            ),
        r matches Ok(fs) ==> fs@.len() == modules@.len() && forall|i: int|
            0 <= i < modules@.len() ==> file_of(
                #[trigger] modules@[i],
                comps(base_dir@),
                comps(out_root@),
                fs@[i],
            ),
        r matches Err(GenerateError::Mapping(e)) ==> exists|i: int|
            0 <= i < modules@.len() && module_binding(#[trigger] modules@[i].module.items@) == Err::<
                Seq<(Seq<char>, Seq<Seq<(Seq<char>, crate::types::BindingType)>>)>,
                _,
            >((e.class_name@, e.param_name@)),
        r matches Err(GenerateError::OutsideBase(p)) ==> exists|i: int|
            0 <= i < modules@.len() && comps(#[trigger] modules@[i].path@) == comps(p@)
                && output_path_of(comps(p@), comps(base_dir@), comps(out_root@)) is None,
{
    let ghost base = comps(base_dir@);
    let ghost out = comps(out_root@);
    let mut files: Vec<OutputFile> = Vec::new();
    let mut i: usize = 0;
    while i < modules.len()
        invariant
            i <= modules@.len(),
            base == comps(base_dir@),
            out == comps(out_root@),
            files@.len() == i,
            forall|k: int| 0 <= k < i ==> module_ok(#[trigger] modules@[k], base, out),
            forall|k: int| 0 <= k < i ==> file_of(#[trigger] modules@[k], base, out, files@[k]),
        decreases modules@.len() - i,
    {
        let m = &modules[i];
        let ds: Vec<BindingDescriptor> = match map_module(&m.module) {
            Ok(ds) => ds,
            Err(e) => {
                assert(!module_ok(modules@[i as int], base, out));
                return Err(GenerateError::Mapping(e));
            },
        };
        let path = match output_path(&m.path, base_dir, out_root) {
            Some(p) => p,
            None => {
                assert(!module_ok(modules@[i as int], base, out));
                return Err(GenerateError::OutsideBase(m.path.clone()));
            },
        };
        let text = render_block(&ds);
        files.push(OutputFile { path, text });
        assert(file_of(modules@[i as int], base, out, files@[i as int]));
        i = i + 1;
    }
    Ok(files)
}

} // verus!
