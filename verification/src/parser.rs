//! Per-file analysis: classify one walked file, score its complexity, attach
//! the externally supplied line count, and derive its treemap label and
//! parent from its path.

use vstd::prelude::*;

use crate::estimator::complexity_spec;
use crate::estimator::get_file_complexity;
use crate::lang::classify;
use crate::lang::classify_spec;
use crate::lang::profile_for;
use crate::lang::profile_view;
use crate::paths::spec_join;
use crate::paths::spec_split;
use crate::paths::join_range;
use crate::paths::split_slash;
use crate::strutil::views_of;

verus! {

/// This error is returned if a file is unable to be parsed due to an unknown
/// extension, or if the line-statistics service reported no count for it.
/// It should never get to this point as there is layered parsing, but just in
/// case.
pub enum FileParserError {
    BadFileExtension { file: String },
    StatisticsUnavailable { file: String },
}

/// Struct representing a valid file to be parsed.
pub struct FileParser {
    /// The name of the file being parsed, without the directories.
    pub filename: String,
    /// The file's path from the walk root, split at the separator.
    pub path_components: Vec<String>,
    /// Number of directory levels between the walk root and the file.
    pub depth: usize,
    /// Complexity score for the file. Used for the treemap.
    pub cc: Option<u64>,
    /// Number of lines of code for the file. Used for the treemap.
    pub nloc: Option<u64>,
    /// The parent directory that the file is in. Used for the treemap.
    pub parent: Option<String>,
    /// The path to the file from the root, including filename. Used for the
    /// treemap.
    pub label: Option<String>,
}

impl FileParser {
    /// The file's path components as character sequences.
    pub open spec fn comp_views(&self) -> Seq<Seq<char>> {
        views_of(self.path_components@)
    }

    /// The components that stand under the analysis root: the file's topmost
    /// analyzed ancestor through the filename itself.
    pub open spec fn rel_views(&self) -> Seq<Seq<char>> {
        self.comp_views().skip(self.comp_views().len() - self.depth - 1)
    }

    /// Prepare a parser for the entry at `path`, `depth` directory levels
    /// below the analysis root.
    pub fn new(path: &str, depth: usize) -> (p: FileParser)
        ensures
            p.comp_views() == spec_split(path@),
            p.filename@ == spec_split(path@).last(),
            p.depth == depth,
            p.cc is None,
            p.nloc is None,
            p.parent is None,
            p.label is None,
    {
        let path_components = split_slash(path);
        let filename = path_components[path_components.len() - 1].clone();
        FileParser { filename, path_components, depth, cc: None, nloc: None, parent: None, label: None }
    }

    /// Walk through a file's lines, retrieving the cumulative complexity, and
    /// attach the line count the statistics service reported (`None` when it
    /// had no data). Also parses the file path to extract the label and
    /// parent values for the treemap, returning successfully if this is
    /// successful and returning an error if the file is otherwise unable to
    /// be parsed.
    pub fn file_walk(&mut self, lines: &Vec<String>, nloc: Option<u64>) -> (r: Result<
        (),
        FileParserError,
    >)
        requires
            old(self).depth < old(self).comp_views().len(),
            lines@.len() * 4 <= u64::MAX,
        ensures
            final(self).filename == old(self).filename,
            final(self).path_components == old(self).path_components,
            final(self).depth == old(self).depth,
            match r {
                Ok(()) => {
                    &&& classify_spec(old(self).filename@) is Some
                    &&& nloc is Some
                    &&& final(self).cc == Some(
                        complexity_spec(
                            views_of(lines@),
                            profile_view(classify_spec(old(self).filename@)->Some_0),
                        ) as u64,
                    )
                    &&& final(self).nloc == nloc
                    &&& final(self).label is Some
                    &&& final(self).label->Some_0@ == spec_join(old(self).rel_views())
                    &&& final(self).parent is Some
                    &&& final(self).parent->Some_0@ == spec_join(
                        old(self).rel_views().drop_last(),
                    )
                },
                Err(FileParserError::BadFileExtension { file }) => {
                    &&& classify_spec(old(self).filename@) is None
                    &&& file@ == old(self).filename@
                    &&& *final(self) == *old(self)
                },
                Err(FileParserError::StatisticsUnavailable { file }) => {
                    &&& classify_spec(old(self).filename@) is Some
                    &&& nloc is None
                    &&& file@ == old(self).filename@
                    &&& final(self).cc == Some(
                        complexity_spec(
                            views_of(lines@),
                            profile_view(classify_spec(old(self).filename@)->Some_0),
                        ) as u64,
                    )
                    &&& final(self).nloc == old(self).nloc
                    &&& final(self).label == old(self).label
                    &&& final(self).parent == old(self).parent
                },
            },
    {
        /* first get the complexity score for the file */
        let tag = match classify(self.filename.as_str()) {
            Some(tag) => tag,
            None => {
                return Err(FileParserError::BadFileExtension { file: self.filename.clone() });
            },
        };
        let profile = profile_for(tag);
        proof {
            crate::lang::lemma_ops_small(tag);
            assert(lines@.len() * (profile@.logical_ops.len() + 1) <= lines@.len() * 4)
                by (nonlinear_arith)
                requires
                    profile@.logical_ops.len() + 1 <= 4,
                    0 <= lines@.len(),
            ;
        }
        self.cc = Some(get_file_complexity(lines, &profile));

        /* then attach the nloc the statistics service reported for the file */
        match nloc {
            Some(n) => {
                self.nloc = Some(n);
            },
            None => {
                return Err(
                    FileParserError::StatisticsUnavailable { file: self.filename.clone() },
                );
            },
        }

        /* finally derive the treemap label and parent from the path */
        let len = self.path_components.len();
        let depth = self.depth;

        /* the label is path/to/file.c, relative to the analysis root */
        let label = join_range(&self.path_components, len - depth - 1, len);

        /* the parent is path/to */
        let parent = join_range(&self.path_components, len - depth - 1, len - 1);

        proof {
            assert(self.comp_views().subrange(
                self.comp_views().len() - depth - 1,
                self.comp_views().len() as int,
            ) =~= self.rel_views());
            assert(self.comp_views().subrange(
                self.comp_views().len() - depth - 1,
                self.comp_views().len() - 1,
            ) =~= self.rel_views().drop_last());
        }
        self.label = Some(label);
        self.parent = Some(parent);
        Ok(())
    }
}

} // verus!
