//! The per-entry step of the analysis run: gate one walked entry by its
//! extension, analyze it, and fold its nodes into the accumulating node set.

use vstd::prelude::*;

use crate::estimator::complexity_spec;
use crate::hierarchy::AnalyzedFile;
use crate::hierarchy::NodeSet;
use crate::hierarchy::SpecEntry;
use crate::hierarchy::add_entry_model;
use crate::lang::classify_spec;
use crate::lang::is_file_extension_valid;
use crate::lang::profile_view;
use crate::lang::valid_extension;
use crate::parser::FileParser;
use crate::parser::FileParserError;
use crate::paths::spec_split;
use crate::strutil::views_of;

verus! {

/// The entry an analyzed file contributes to the node set: its components
/// relative to (and including) its topmost analyzed ancestor, its complexity
/// score, and the line count the statistics service reported.
pub open spec fn entry_of(
    path: Seq<char>,
    depth: int,
    lines: Seq<Seq<char>>,
    nloc: u64,
) -> SpecEntry {
    let parts = spec_split(path);
    SpecEntry {
        comps: parts.skip(parts.len() - depth - 1),
        cc: complexity_spec(
            lines,
            profile_view(classify_spec(parts.last())->Some_0),
        ) as u64,
        nloc: nloc,
    }
}

/// Process one walked entry.
///
/// An entry whose name does not end in a recognized extension produces no
/// node: the node set is left untouched and `Ok(false)` comes back. A
/// recognized entry is analyzed from its lines and the line count the
/// statistics service reported (`None` when it had no data); on success its
/// file node and any missing ancestor-directory nodes are folded into the
/// node set and `Ok(true)` comes back. A per-file error leaves the node set
/// untouched, so the caller can log it and continue the walk.
pub fn process_entry(
    ns: &mut NodeSet,
    path: &str,
    depth: usize,
    lines: &Vec<String>,
    nloc: Option<u64>,
) -> (r: Result<bool, FileParserError>)
    requires
        old(ns).wf(),
        depth + 1 <= spec_split(path@).len(),
        lines@.len() * 4 <= u64::MAX,
    ensures
        final(ns).wf(),
        ({
            let parts = spec_split(path@);
            let name = parts.last();
            match r {
                Ok(added) => {
                    &&& (added == false ==> !valid_extension(name) && final(ns).nodes() == old(
                        ns,
                    ).nodes())
                    &&& (added == true ==> {
                        &&& valid_extension(name)
                        &&& classify_spec(name) is Some
                        &&& nloc is Some
                        &&& final(ns).nodes() == add_entry_model(
                            old(ns).nodes(),
                            entry_of(path@, depth as int, views_of(lines@), nloc->Some_0),
                        )
                    })
                },
                Err(FileParserError::BadFileExtension { file }) => {
                    &&& valid_extension(name)
                    &&& classify_spec(name) is None
                    &&& file@ == name
                    &&& final(ns).nodes() == old(ns).nodes()
                },
                Err(FileParserError::StatisticsUnavailable { file }) => {
                    &&& valid_extension(name)
                    &&& classify_spec(name) is Some
                    &&& nloc is None
                    &&& file@ == name
                    &&& final(ns).nodes() == old(ns).nodes()
                },
            }
        }),
{
    let mut fp = FileParser::new(path, depth);
    if !is_file_extension_valid(fp.filename.as_str()) {
        return Ok(false);
    }
    match fp.file_walk(lines, nloc) {
        Ok(()) => {},
        Err(e) => {
            return Err(e);
        },
    }
    let cc = match fp.cc {
        Some(c) => c,
        None => {
            proof {
                assert(false);
            }
            0
        },
    };
    let nloc_val = match fp.nloc {
        Some(n) => n,
        None => {
            proof {
                assert(false);
            }
            0
        },
    };
    /* copy out the components under the analysis root, ancestors first */
    let len = fp.path_components.len();
    let start = len - depth - 1;
    let mut components: Vec<String> = Vec::new();
    proof {
        assert(views_of(components@) =~~= fp.comp_views().subrange(
            start as int,
            start as int,
        ));
    }
    for k in start..len
        invariant
            start == len - depth - 1,
            len == fp.comp_views().len(),
            len == fp.path_components@.len(),
            views_of(components@) == fp.comp_views().subrange(start as int, k as int),
    {
        let ghost prev = components@;
        components.push(fp.path_components[k].clone());
        proof {
            assert(views_of(components@) =~~= views_of(prev).push(fp.comp_views()[k as int]));
            assert(views_of(components@) =~~= fp.comp_views().subrange(start as int, k + 1));
        }
    }
    let file = AnalyzedFile { components, cc, nloc: nloc_val };
    proof {
        assert(file@.comps =~= fp.comp_views().skip(fp.comp_views().len() - depth - 1));
    }
    ns.add_entry(&file);
    Ok(true)
}

} // verus!
