//! What the candidates of configuration discovery come to.
use super::layers::{LayeredConfig, PathOrigins};
use super::load::ConfigError;
use super::toml_value::TomlModel;
use vstd::prelude::*;

verus! {

/// What was found at the path of a candidate.
#[derive(Debug)]
pub enum CandidateFile {
    /// There is no such file.
    Missing,
    /// The path cannot be followed to a file.
    Inaccessible(String),
    /// The file at the canonical path cannot be read.
    Unreadable { canonical: String, detail: String },
    /// The file at the canonical path, and the directory that it is in.
    Present { canonical: String, directory: Option<String>, source: String },
}

/// A place where a layer was looked for.
#[derive(Debug)]
pub struct Candidate {
    pub path: String,
    pub file: CandidateFile,
}

/// What the layers read so far come to.
pub struct LayersModel {
    pub effective: Map<Seq<char>, TomlModel>,
    pub sources: Seq<String>,
    pub origins: PathOrigins,
}

/// Why discovery fails.
pub enum DiscoveryFault {
    Unreadable { path: String, detail: String },
    Malformed { path: String, source: Seq<char> },
    NoParent,
}

/// What reading candidates comes to.
pub enum Discovery {
    Read(LayersModel),
    Failed(DiscoveryFault),
}

/// A path is among those that were read.
pub open spec fn read_before(sources: Seq<String>, path: Seq<char>) -> bool {
    exists|i: int| 0 <= i < sources.len() && (#[trigger] sources[i])@ == path
}

/// A layer laid over the earlier ones.
pub open spec fn with_layer(
    before: LayersModel,
    path: String,
    directory: String,
    layer: Map<Seq<char>, TomlModel>,
) -> LayersModel {
    LayersModel {
        effective: super::layers::layered(before.effective, layer),
        sources: before.sources.push(path),
        origins: PathOrigins {
            history: if super::layers::declares_history(layer) {
                Some(directory)
            } else {
                before.origins.history
            },
            audio_cues: if super::layers::declares_cues(layer) {
                Some(directory)
            } else {
                before.origins.audio_cues
            },
        },
    }
}

/// What one candidate comes to. A missing one is skipped, and so is a file that
/// was read before under another path. Any other has to be a layer.
pub open spec fn after_candidate(before: LayersModel, candidate: Candidate) -> Discovery {
    match candidate.file {
        CandidateFile::Missing => Discovery::Read(before),
        CandidateFile::Inaccessible(detail) => Discovery::Failed(
            DiscoveryFault::Unreadable { path: candidate.path, detail },
        ),
        CandidateFile::Unreadable { canonical, detail } => if read_before(
            before.sources,
            canonical@,
        ) {
            Discovery::Read(before)
        } else {
            Discovery::Failed(DiscoveryFault::Unreadable { path: canonical, detail })
        },
        CandidateFile::Present { canonical, directory, source } => if read_before(
            before.sources,
            canonical@,
        ) {
            Discovery::Read(before)
        } else {
            match super::layers::document(source@) {
                None => Discovery::Failed(
                    DiscoveryFault::Malformed { path: canonical, source: source@ },
                ),
                Some(layer) => match directory {
                    None => Discovery::Failed(DiscoveryFault::NoParent),
                    Some(directory) => Discovery::Read(
                        with_layer(before, canonical, directory, layer),
                    ),
                },
            }
        },
    }
}

/// What candidates come to, lowest priority first. The first that fails ends
/// discovery.
pub open spec fn after_candidates(before: LayersModel, candidates: Seq<Candidate>) -> Discovery
    decreases candidates.len(),
{
    if candidates.len() == 0 {
        Discovery::Read(before)
    } else {
        match after_candidates(before, candidates.drop_last()) {
            Discovery::Failed(fault) => Discovery::Failed(fault),
            Discovery::Read(next) => after_candidate(next, candidates.last()),
        }
    }
}

/// The error that reports a fault.
pub open spec fn reports(error: ConfigError, fault: DiscoveryFault) -> bool {
    match fault {
        DiscoveryFault::Unreadable { path, detail } => error matches ConfigError::LayerRead {
            path: named,
            source,
        } && named == path && source == detail,
        DiscoveryFault::Malformed { path, source } => error matches ConfigError::LayerParse {
            path: named,
            source: refusal,
        } && named == path && super::load::error_text(refusal) == super::layers::document_fault(
            source,
        ),
        DiscoveryFault::NoParent => error is MissingParent,
    }
}

impl LayeredConfig {
    pub open spec fn layers_model(&self) -> LayersModel {
        LayersModel {
            effective: self.effective_model(),
            sources: self.source_list(),
            origins: self.origins_view(),
        }
    }

    /// Look at one candidate.
    fn read_candidate(&mut self, candidate: &Candidate) -> (result: Result<(), ConfigError>)
        requires
            old(self).well_formed(),
        ensures
            final(self).well_formed(),
            match after_candidate(old(self).layers_model(), *candidate) {
                Discovery::Read(next) => result is Ok && final(self).layers_model() == next,
                Discovery::Failed(fault) => result matches Err(error) && reports(error, fault),
            },
    {
        match &candidate.file {
            CandidateFile::Missing => Ok(()),
            CandidateFile::Inaccessible(detail) => Err(
                ConfigError::LayerRead { path: candidate.path.clone(), source: detail.clone() },
            ),
            CandidateFile::Unreadable { canonical, detail } => if self.is_loaded(
                canonical.as_str(),
            ) {
                Ok(())
            } else {
                Err(ConfigError::LayerRead { path: canonical.clone(), source: detail.clone() })
            },
            CandidateFile::Present { canonical, directory, source } => {
                let directory = match directory {
                    Some(directory) => Some(directory.clone()),
                    None => None,
                };
                self.add_layer(canonical.clone(), directory, source.as_str())
            },
        }
    }

    /// Read candidates in order, lowest priority first, and lay each layer over
    /// the earlier ones.
    pub fn read_candidates(self, candidates: &Vec<Candidate>) -> (result: Result<
        Self,
        ConfigError,
    >)
        requires
            self.well_formed(),
        ensures
            match after_candidates(self.layers_model(), candidates@) {
                Discovery::Read(layers) => {
                    &&& result matches Ok(config)
                    &&& config.well_formed()
                    &&& config.layers_model() == layers
                },
                Discovery::Failed(fault) => result matches Err(error) && reports(error, fault),
            },
    {
        let ghost before = self.layers_model();
        let mut config = self;
        let mut i: usize = 0;
        assert(candidates@.take(0) =~= Seq::empty());
        while i < candidates.len()
            invariant
                i <= candidates@.len(),
                config.well_formed(),
                after_candidates(before, candidates@.take(i as int)) == Discovery::Read(
                    config.layers_model(),
                ),
                before == self.layers_model(),
            decreases candidates@.len() - i,
        {
            assert(candidates@.take(i + 1).drop_last() =~= candidates@.take(i as int));
            assert(candidates@.take(i + 1).last() == candidates@[i as int]);
            if let Err(error) = config.read_candidate(&candidates[i]) {
                proof {
                    lemma_failure_stays(before, candidates@, i + 1);
                }
                return Err(error);
            }
            i += 1;
        }
        assert(candidates@.take(i as int) =~= candidates@);
        Ok(config)
    }
}

/// What failed is not mended by later candidates.
proof fn lemma_failure_stays(before: LayersModel, candidates: Seq<Candidate>, count: int)
    requires
        0 <= count <= candidates.len(),
        after_candidates(before, candidates.take(count)) is Failed,
    ensures
        after_candidates(before, candidates) == after_candidates(before, candidates.take(count)),
    decreases candidates.len() - count,
{
    if count < candidates.len() {
        assert(candidates.take(count + 1).drop_last() =~= candidates.take(count));
        lemma_failure_stays(before, candidates, count + 1);
    } else {
        assert(candidates.take(count) =~= candidates);
    }
}

/// The canonical path of a candidate, where a file was found.
pub open spec fn canonical_path(candidate: Candidate) -> Option<Seq<char>> {
    match candidate.file {
        CandidateFile::Unreadable { canonical, .. } => Some(canonical@),
        CandidateFile::Present { canonical, .. } => Some(canonical@),
        _ => None,
    }
}

/// Every path that was read was known before or is that of a candidate.
proof fn lemma_sources(before: LayersModel, candidates: Seq<Candidate>, path: Seq<char>)
    requires
        after_candidates(before, candidates) is Read,
        read_before(after_candidates(before, candidates)->Read_0.sources, path),
        !read_before(before.sources, path),
    ensures
        exists|i: int|
            0 <= i < candidates.len() && canonical_path(#[trigger] candidates[i]) == Some(path),
    decreases candidates.len(),
{
    if candidates.len() > 0 {
        let earlier = after_candidates(before, candidates.drop_last())->Read_0;
        let last = candidates.last();
        if read_before(earlier.sources, path) {
            lemma_sources(before, candidates.drop_last(), path);
            let i = choose|i: int|
                0 <= i < candidates.drop_last().len() && canonical_path(
                    #[trigger] candidates.drop_last()[i],
                ) == Some(path);
            assert(candidates[i] == candidates.drop_last()[i]);
        } else {
            let sources = after_candidates(before, candidates)->Read_0.sources;
            let at = choose|at: int| 0 <= at < sources.len() && (#[trigger] sources[at])@ == path;
            if at < earlier.sources.len() {
                assert(earlier.sources[at]@ == path);
            }
            assert(canonical_path(candidates[candidates.len() - 1]) == Some(path));
        }
    }
}

/// A candidate that is there and is no layer: its path leads nowhere, its file
/// cannot be read, or what it holds is not TOML.
pub open spec fn is_no_layer(candidate: Candidate) -> bool {
    match candidate.file {
        CandidateFile::Missing => false,
        CandidateFile::Inaccessible(_) => true,
        CandidateFile::Unreadable { .. } => true,
        CandidateFile::Present { source, .. } => super::layers::document(source@) is None,
    }
}

/// A candidate that is there and is no layer fails discovery: nothing falls back
/// to a partial policy. A file that another candidate leads to as well is looked
/// at once.
pub proof fn law_bad_layer_fails_discovery(
    before: LayersModel,
    candidates: Seq<Candidate>,
    at: int,
)
    requires
        0 <= at < candidates.len(),
        is_no_layer(candidates[at]),
        canonical_path(candidates[at]) matches Some(path) ==> !read_before(before.sources, path)
            && forall|i: int|
            0 <= i < at ==> canonical_path(#[trigger] candidates[i]) != Some(path),
    ensures
        after_candidates(before, candidates) is Failed,
{
    let earlier = candidates.take(at);
    assert(candidates.take(at + 1).drop_last() =~= earlier);
    if after_candidates(before, earlier) is Read {
        if let Some(path) = canonical_path(candidates[at]) {
            if read_before(after_candidates(before, earlier)->Read_0.sources, path) {
                lemma_sources(before, earlier, path);
                let i = choose|i: int|
                    0 <= i < earlier.len() && canonical_path(#[trigger] earlier[i]) == Some(path);
                assert(canonical_path(candidates[i]) == Some(path));
            }
        }
    }
    lemma_failure_stays(before, candidates, at + 1);
}

/// Where every candidate is missing, nothing was read.
pub proof fn law_missing_candidates_change_nothing(
    before: LayersModel,
    candidates: Seq<Candidate>,
)
    requires
        forall|i: int| 0 <= i < candidates.len() ==> (#[trigger] candidates[i]).file is Missing,
    ensures
        after_candidates(before, candidates) == Discovery::Read(before),
    decreases candidates.len(),
{
    if candidates.len() > 0 {
        assert forall|i: int| 0 <= i < candidates.drop_last().len() implies (
        #[trigger] candidates.drop_last()[i]).file is Missing by {
            assert(candidates.drop_last()[i] == candidates[i]);
        }
        law_missing_candidates_change_nothing(before, candidates.drop_last());
        assert(candidates[candidates.len() - 1].file is Missing);
    }
}

/// A file is read once, however many candidates lead to it.
pub proof fn law_each_file_is_read_once(before: LayersModel, candidates: Seq<Candidate>)
    requires
        forall|i: int, j: int|
            0 <= i < j < before.sources.len() ==> (#[trigger] before.sources[i])@ != (
            #[trigger] before.sources[j])@,
    ensures
        after_candidates(before, candidates) matches Discovery::Read(layers) ==> forall|
            i: int,
            j: int,
        |
            0 <= i < j < layers.sources.len() ==> (#[trigger] layers.sources[i])@ != (
            #[trigger] layers.sources[j])@,
    decreases candidates.len(),
{
    if candidates.len() > 0 {
        law_each_file_is_read_once(before, candidates.drop_last());
    }
}

} // verus!
