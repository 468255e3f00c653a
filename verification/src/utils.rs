//! The steps of a derivation that need no file and no process: how sources fall into
//! groups by compiler version, and which files of a compiler's answer are in scope.

use crate::artifacts::{
    create_standard_json_for_ast, is_ast_settings, standard_json_form, standard_json_of,
    Remapping, SolcInput, Sources,
};
use crate::builder::{ProjectConfigInputBuilder, Survey};
use crate::error::DerivationError;
use crate::input::{ProjectConfigInput, SolcCompilerConfigInput};
use crate::output::{SolcCompilerOutput, VersionedAstOutputs};
use crate::solc::Solc;
use crate::text::{
    contains_text, dedup, first_occurrences, lemma_first_occurrences, lemma_texts_push, texts,
};
use crate::version::{Version, VersionView};
use foundry_compilers::artifacts::StandardJsonCompilerInput;
use vstd::prelude::*;

verus! {

/// The entries of a list in the opposite order.
pub fn reversed<T>(list: Vec<T>) -> (r: Vec<T>)
    ensures
        r@ == list@.reverse(),
{
    let ghost whole = list@;
    let mut list = list;
    let mut out: Vec<T> = Vec::new();
    while list.len() > 0
        invariant
            list@.len() <= whole.len(),
            list@ == whole.take(list@.len() as int),
            out@.len() == whole.len() - list@.len(),
            forall|k: int| 0 <= k < out@.len() ==> out@[k] == whole[whole.len() - 1 - k],
        decreases list.len(),
    {
        let ghost before = list@;
        let last = list.pop().unwrap();
        assert(last == whole[before.len() - 1]);
        out.push(last);
        assert(list@ =~= whole.take(list@.len() as int));
    }
    assert(out@ =~= whole.reverse());
    out
}

/// The sources of one compiler version, as the resolution of the imports gave them.
#[derive(Debug)]
pub struct VersionedSources {
    /// The compiler version.
    pub version: Version,
    /// The sources that this version compiles.
    pub sources: Sources,
    /// Why the binary of this version could not be had; `None` where it could.
    pub install_failure: Option<String>,
}

/// What the resolution of the imports of the sources gave.
#[derive(Debug)]
pub enum Resolution {
    /// The imports could not be resolved; this is why.
    Failed(String),
    /// There is no Solidity source at all.
    NoSources,
    /// The sources, by compiler version.
    Resolved(Vec<VersionedSources>),
}

/// The request for one compiler version.
#[derive(Debug)]
pub struct VersionGroup {
    /// The compiler version.
    pub version: Version,
    /// The request that goes to the compiler of that version.
    pub input: SolcInput,
}

/// Whether the version occurs in the list.
pub open spec fn has_version(list: Seq<VersionedSources>, version: VersionView) -> bool {
    exists|i: int| 0 <= i < list.len() && (#[trigger] list[i]).version@ == version
}

/// The entries of the list whose version does not occur again later in the list, in
/// their order: one entry per version, the last one.
pub open spec fn last_per_version(list: Seq<VersionedSources>) -> Seq<VersionedSources>
    decreases list.len(),
{
    if list.len() == 0 {
        list
    } else {
        let later = last_per_version(list.drop_first());
        if has_version(list.drop_first(), list[0].version@) {
            later
        } else {
            seq![list[0]] + later
        }
    }
}

/// No version occurs twice in the list.
pub open spec fn distinct_versions(list: Seq<VersionedSources>) -> bool {
    forall|i: int, j: int|
        0 <= i < list.len() && 0 <= j < list.len() && i != j ==> (#[trigger] list[i]).version@
            != (#[trigger] list[j]).version@
}

/// `last_per_version` holds every version of the list, once.
pub proof fn lemma_last_per_version(list: Seq<VersionedSources>)
    ensures
        forall|v: VersionView| has_version(last_per_version(list), v) == has_version(list, v),
        distinct_versions(last_per_version(list)),
        last_per_version(list).len() <= list.len(),
    decreases list.len(),
{
    if list.len() > 0 {
        let rest = list.drop_first();
        let later = last_per_version(rest);
        let kept = last_per_version(list);
        lemma_last_per_version(rest);
        assert forall|v: VersionView| has_version(kept, v) implies has_version(list, v) by {
            let i = choose|i: int| 0 <= i < kept.len() && (#[trigger] kept[i]).version@ == v;
            if has_version(rest, list[0].version@) {
                assert(later[i].version@ == v);
                assert(has_version(later, v));
            } else if i == 0 {
                assert(list[0].version@ == v);
            } else {
                assert(later[i - 1].version@ == v);
                assert(has_version(later, v));
            }
            if has_version(rest, v) {
                let j = choose|j: int| 0 <= j < rest.len() && (#[trigger] rest[j]).version@ == v;
                assert(list[j + 1].version@ == v);
            }
        }
        assert forall|v: VersionView| has_version(list, v) implies has_version(kept, v) by {
            let i = choose|i: int| 0 <= i < list.len() && (#[trigger] list[i]).version@ == v;
            if i > 0 {
                assert(rest[i - 1].version@ == v);
                assert(has_version(rest, v));
            }
            if has_version(rest, v) {
                assert(has_version(later, v));
                let j = choose|j: int| 0 <= j < later.len() && (#[trigger] later[j]).version@
                    == v;
                if has_version(rest, list[0].version@) {
                    assert(kept[j].version@ == v);
                } else {
                    assert(kept[j + 1].version@ == v);
                }
            } else {
                assert(i == 0);
                assert(kept[0].version@ == v);
            }
        }
        assert forall|i: int, j: int|
            0 <= i < kept.len() && 0 <= j < kept.len() && i != j implies (#[trigger] kept[i]).version@
            != (#[trigger] kept[j]).version@ by {
            if has_version(rest, list[0].version@) {
            } else {
                if i == 0 {
                    assert(kept[j] == later[j - 1]);
                    if kept[j].version@ == list[0].version@ {
                        assert(has_version(later, list[0].version@));
                    }
                } else if j == 0 {
                    assert(kept[i] == later[i - 1]);
                    if kept[i].version@ == list[0].version@ {
                        assert(has_version(later, list[0].version@));
                    }
                } else {
                    assert(kept[i] == later[i - 1]);
                    assert(kept[j] == later[j - 1]);
                }
            }
        }
    }
}

/// Every entry of `last_per_version` is an entry of the list.
pub proof fn lemma_last_per_version_entries(list: Seq<VersionedSources>)
    ensures
        forall|k: int|
            0 <= k < last_per_version(list).len() ==> list.contains(
                #[trigger] last_per_version(list)[k],
            ),
    decreases list.len(),
{
    if list.len() > 0 {
        let rest = list.drop_first();
        let later = last_per_version(rest);
        let kept = last_per_version(list);
        lemma_last_per_version_entries(rest);
        assert forall|k: int| 0 <= k < kept.len() implies list.contains(#[trigger] kept[k]) by {
            if !has_version(rest, list[0].version@) && k == 0 {
                assert(kept[0] == list[0]);
            } else {
                let j = if has_version(rest, list[0].version@) {
                    k
                } else {
                    k - 1
                };
                assert(kept[k] == later[j]);
                assert(rest.contains(later[j]));
                let i = choose|i: int| 0 <= i < rest.len() && rest[i] == later[j];
                assert(list[i + 1] == kept[k]);
            }
        }
    }
}

impl Resolution {
    /// No source map of the resolution holds a path twice.
    pub open spec fn wf(&self) -> bool {
        self matches Resolution::Resolved(list) ==> forall|i: int|
            0 <= i < list@.len() ==> (#[trigger] list@[i]).sources.wf()
    }
}

/// A list without a repeated version is its own `last_per_version`.
pub proof fn lemma_last_per_version_of_distinct(list: Seq<VersionedSources>)
    requires
        distinct_versions(list),
    ensures
        last_per_version(list) == list,
    decreases list.len(),
{
    if list.len() > 0 {
        let rest = list.drop_first();
        assert forall|i: int, j: int|
            0 <= i < rest.len() && 0 <= j < rest.len() && i != j implies (#[trigger] rest[i]).version@
            != (#[trigger] rest[j]).version@ by {
            assert(rest[i] == list[i + 1]);
            assert(rest[j] == list[j + 1]);
        }
        lemma_last_per_version_of_distinct(rest);
        if has_version(rest, list[0].version@) {
            let j = choose|j: int|
                0 <= j < rest.len() && (#[trigger] rest[j]).version@ == list[0].version@;
            assert(rest[j] == list[j + 1]);
            assert(list[j + 1].version@ == list[0].version@);
        }
        assert(seq![list[0]] + rest =~= list);
    }
}

/// Why the first entry of the list whose binary could not be had failed, if one did.
pub open spec fn first_install_failure(list: Seq<VersionedSources>) -> Option<String>
    decreases list.len(),
{
    if list.len() == 0 {
        None
    } else if list[0].install_failure is Some {
        list[0].install_failure
    } else {
        first_install_failure(list.drop_first())
    }
}

/// Whether the groups are the requests for the entries of `kept`, one for one: the
/// same version, the same sources, and settings that ask for syntax trees only, carry
/// the given remappings and are sanitized for the version.
pub open spec fn groups_match(
    groups: Seq<VersionGroup>,
    kept: Seq<VersionedSources>,
    remappings: Seq<Remapping>,
) -> bool {
    &&& groups.len() == kept.len()
    &&& forall|k: int|
        0 <= k < groups.len() ==> {
            &&& (#[trigger] groups[k]).version == kept[k].version
            &&& groups[k].input.sources == kept[k].sources
            &&& is_ast_settings(groups[k].input.settings, remappings, groups[k].version@)
        }
}

/// No version occurs twice among the groups.
pub open spec fn distinct_groups(groups: Seq<VersionGroup>) -> bool {
    forall|i: int, j: int|
        0 <= i < groups.len() && 0 <= j < groups.len() && i != j ==> (#[trigger] groups[i]).version@
            != (#[trigger] groups[j]).version@
}

/// Why the first entry of the list whose binary could not be had failed, if one did.
fn find_install_failure(list: &Vec<VersionedSources>) -> (r: Option<String>)
    ensures
        r == first_install_failure(list@),
{
    let mut i: usize = 0;
    assert(list@.subrange(0, list@.len() as int) =~= list@);
    while i < list.len()
        invariant
            i <= list.len(),
            first_install_failure(list@) == first_install_failure(list@.subrange(
                i as int,
                list@.len() as int,
            )),
        decreases list.len() - i,
    {
        let ghost rest = list@.subrange(i as int, list@.len() as int);
        assert(rest[0] == list@[i as int]);
        assert(rest.drop_first() =~= list@.subrange(i as int + 1, list@.len() as int));
        match &list[i].install_failure {
            Some(why) => {
                return Some(why.clone());
            },
            None => {},
        }
        i += 1;
    }
    assert(list@.subrange(list@.len() as int, list@.len() as int) =~= Seq::<
        VersionedSources,
    >::empty());
    None
}

/// Whether one of the groups is for the version.
fn group_has_version(groups: &Vec<VersionGroup>, version: &Version) -> (r: bool)
    ensures
        r == exists|k: int| 0 <= k < groups@.len() && (#[trigger] groups@[k]).version@ == version@,
{
    let mut i: usize = 0;
    while i < groups.len()
        invariant
            i <= groups.len(),
            forall|k: int| 0 <= k < i ==> (#[trigger] groups@[k]).version@ != version@,
        decreases groups.len() - i,
    {
        if groups[i].version.same(version) {
            return true;
        }
        i += 1;
    }
    false
}

/// The requests for the entries of the list, one per version: of the entries of one
/// version the last one counts.
fn group_by_version(list: Vec<VersionedSources>, remappings: &Vec<Remapping>) -> (r: Vec<
    VersionGroup,
>)
    ensures
        groups_match(r@, last_per_version(list@), remappings@),
        distinct_groups(r@),
{
    let ghost whole = list@;
    let ghost n = whole.len() as int;
    let mut list = list;
    let mut out: Vec<VersionGroup> = Vec::new();
    assert(whole.subrange(n, n) =~= Seq::<VersionedSources>::empty());
    while list.len() > 0
        invariant
            n == whole.len(),
            list@.len() <= n,
            list@ == whole.take(list@.len() as int),
            out@.len() == last_per_version(whole.subrange(list@.len() as int, n)).len(),
            forall|k: int|
                0 <= k < out@.len() ==> {
                    let kept = last_per_version(whole.subrange(list@.len() as int, n));
                    &&& (#[trigger] out@[k]).version == kept[kept.len() - 1 - k].version
                    &&& out@[k].input.sources == kept[kept.len() - 1 - k].sources
                    &&& is_ast_settings(out@[k].input.settings, remappings@, out@[k].version@)
                },
        decreases list.len(),
    {
        let ghost i = list@.len() as int;
        let ghost later = whole.subrange(i, n);
        let ghost kept = last_per_version(later);
        let ghost here = whole.subrange(i - 1, n);
        let entry = list.pop().unwrap();
        assert(entry == whole[i - 1]);
        assert(list@ =~= whole.take(i - 1));
        assert(here[0] == entry);
        assert(here.drop_first() =~= later);
        proof {
            lemma_last_per_version(later);
        }
        let seen = group_has_version(&out, &entry.version);
        proof {
            if seen {
                let k = choose|k: int|
                    0 <= k < out@.len() && (#[trigger] out@[k]).version@ == entry.version@;
                assert(kept[kept.len() - 1 - k].version@ == entry.version@);
                assert(has_version(kept, entry.version@));
            }
            if has_version(later, entry.version@) {
                assert(has_version(kept, entry.version@));
                let j = choose|j: int|
                    0 <= j < kept.len() && (#[trigger] kept[j]).version@ == entry.version@;
                assert(out@[kept.len() - 1 - j].version@ == entry.version@);
            }
            assert(seen == has_version(later, entry.version@));
        }
        if !seen {
            let VersionedSources { version, sources, install_failure: _ } = entry;
            let input = create_standard_json_for_ast(sources, remappings, &version);
            let ghost before = out@;
            out.push(VersionGroup { version, input });
            assert(last_per_version(here) == seq![entry] + kept);
            assert forall|k: int| 0 <= k < out@.len() implies {
                let now = last_per_version(here);
                &&& (#[trigger] out@[k]).version == now[now.len() - 1 - k].version
                &&& out@[k].input.sources == now[now.len() - 1 - k].sources
                &&& is_ast_settings(out@[k].input.settings, remappings@, out@[k].version@)
            } by {
                let now = last_per_version(here);
                if k < before.len() {
                    assert(out@[k] == before[k]);
                    assert(now[now.len() - 1 - k] == kept[kept.len() - 1 - k]);
                } else {
                    assert(now[0] == entry);
                }
            }
        } else {
            assert(last_per_version(here) == kept);
        }
    }
    assert(whole.subrange(0, n) =~= whole);
    let ghost kept = last_per_version(whole);
    let groups = reversed(out);
    proof {
        lemma_last_per_version(whole);
        assert forall|k: int| 0 <= k < groups@.len() implies {
            &&& (#[trigger] groups@[k]).version == kept[k].version
            &&& groups@[k].input.sources == kept[k].sources
            &&& is_ast_settings(groups@[k].input.settings, remappings@, groups@[k].version@)
        } by {
            assert(groups@[k] == out@[out@.len() - 1 - k]);
        }
        assert forall|i: int, j: int|
            0 <= i < groups@.len() && 0 <= j < groups@.len() && i != j implies (
        #[trigger] groups@[i]).version@ != (#[trigger] groups@[j]).version@ by {
            assert(groups@[i].version == kept[i].version);
            assert(groups@[j].version == kept[j].version);
        }
    }
    groups
}

/// The request for one compiler version, in standard JSON form.
#[derive(Debug)]
pub struct StandardJsonGroup {
    /// The compiler version.
    pub version: Version,
    /// The request that goes to the compiler of that version.
    pub input: StandardJsonCompilerInput,
}

impl ProjectConfigInput {
    /// Why no requests can be made, if none can: the imports could not be resolved,
    /// or the binary of a version could not be had. With a pinned compiler neither
    /// can happen.
    pub open spec fn grouping_failure(&self, resolution: Resolution) -> Option<DerivationError> {
        match self.solc_compiler {
            SolcCompilerConfigInput::Specific(_) => None,
            SolcCompilerConfigInput::AutoDetect => match resolution {
                Resolution::Failed(why) => Some(DerivationError::GraphResolution(why)),
                Resolution::NoSources => None,
                Resolution::Resolved(list) => match first_install_failure(list@) {
                    Some(why) => Some(DerivationError::CompilerInstall(why)),
                    None => None,
                },
            },
        }
    }

    /// Whether `groups` are the requests of the project: with a pinned compiler one
    /// request, of its version, for all of `sources`; else one request per version of
    /// the resolution, for the sources that the resolution gave that version, and
    /// none where there is no Solidity source. The settings of every request ask for
    /// syntax trees only, carry the remappings of the project and are sanitized for
    /// the version of the request.
    pub open spec fn grouped(
        &self,
        sources: Sources,
        resolution: Resolution,
        groups: Seq<VersionGroup>,
    ) -> bool {
        match self.solc_compiler {
            SolcCompilerConfigInput::Specific(solc) => groups.len() == 1 && groups[0].version@
                == solc.version@ && groups[0].input.sources == sources && is_ast_settings(
                groups[0].input.settings,
                self.project_paths.remappings@,
                solc.version@,
            ),
            SolcCompilerConfigInput::AutoDetect => match resolution {
                Resolution::Resolved(list) => groups_match(
                    groups,
                    last_per_version(list@),
                    self.project_paths.remappings@,
                ),
                _ => groups.len() == 0,
            },
        }
    }

    /// The compiler versions of the requests of the project, in their order.
    pub open spec fn group_versions(&self, resolution: Resolution) -> Seq<VersionView> {
        match self.solc_compiler {
            SolcCompilerConfigInput::Specific(solc) => seq![solc.version@],
            SolcCompilerConfigInput::AutoDetect => match resolution {
                Resolution::Resolved(list) => last_per_version(list@).map_values(
                    |e: VersionedSources| e.version@,
                ),
                _ => Seq::<VersionView>::empty(),
            },
        }
    }

    /// The requests to the compilers, one per compiler version. With a pinned
    /// compiler there is one request, for all of `sources`, and `resolution` is not
    /// read. Else the requests follow the resolution of the imports: none where
    /// there is no Solidity source; and the call fails if the imports could not be
    /// resolved, or if the binary of a version could not be had.
    pub fn solc_input_for_ast_generation(&self, sources: Sources, resolution: Resolution) -> (r:
        Result<Vec<VersionGroup>, DerivationError>)
        ensures
            r matches Ok(groups) ==> sources.wf() && resolution.wf() ==> forall|k: int|
                0 <= k < groups@.len() ==> (#[trigger] groups@[k]).input.sources.wf(),
            r matches Ok(groups) ==> sources.wf() && (self.solc_compiler is AutoDetect
                ==> resolution_splits(resolution, sources.paths())) ==> is_partition(
                group_paths(groups@),
                sources.paths(),
            ),
            match self.grouping_failure(resolution) {
                Some(why) => r == Err::<Vec<VersionGroup>, DerivationError>(why),
                None => r matches Ok(groups) && self.grouped(sources, resolution, groups@)
                    && distinct_groups(groups@) && groups@.map_values(
                    |g: VersionGroup| g.version@,
                ) == self.group_versions(resolution),
            },
    {
        match &self.solc_compiler {
            SolcCompilerConfigInput::AutoDetect => {
                let list = match resolution {
                    Resolution::Failed(why) => {
                        return Err(DerivationError::GraphResolution(why));
                    },
                    Resolution::NoSources => {
                        let groups: Vec<VersionGroup> = Vec::new();
                        assert(groups@.map_values(|g: VersionGroup| g.version@)
                            =~= self.group_versions(resolution));
                        proof {
                            if sources.wf() && resolution_splits(resolution, sources.paths()) {
                                lemma_groups_partition(*self, sources, resolution, groups@);
                            }
                        }
                        return Ok(groups);
                    },
                    Resolution::Resolved(list) => list,
                };
                match find_install_failure(&list) {
                    Some(why) => {
                        return Err(DerivationError::CompilerInstall(why));
                    },
                    None => {},
                }
                let ghost entries = list@;
                let groups = group_by_version(list, &self.project_paths.remappings);
                assert(groups@.map_values(|g: VersionGroup| g.version@)
                    =~= self.group_versions(resolution));
                proof {
                    lemma_last_per_version_entries(entries);
                    if resolution.wf() {
                        assert forall|k: int| 0 <= k < groups@.len() implies (
                        #[trigger] groups@[k]).input.sources.wf() by {
                            let kept = last_per_version(entries)[k];
                            assert(entries.contains(kept));
                            let i = choose|i: int| 0 <= i < entries.len() && entries[i] == kept;
                            assert(entries[i].sources.wf());
                        }
                    }
                    if sources.wf() && resolution_splits(resolution, sources.paths()) {
                        lemma_groups_partition(*self, sources, resolution, groups@);
                    }
                }
                Ok(groups)
            },
            SolcCompilerConfigInput::Specific(solc) => {
                let version = solc.version.clone();
                let input = create_standard_json_for_ast(
                    sources,
                    &self.project_paths.remappings,
                    &version,
                );
                let groups = vec![VersionGroup { version, input }];
                assert(groups@.map_values(|g: VersionGroup| g.version@)
                    =~= self.group_versions(resolution));
                proof {
                    if sources.wf() {
                        lemma_groups_partition(*self, sources, resolution, groups@);
                    }
                }
                Ok(groups)
            },
        }
    }

    /// Whether `list` holds the standard JSON forms of the requests `groups`, one for
    /// one: the same version, and the form of the sources and settings of the
    /// request.
    pub open spec fn forms_of(list: Seq<StandardJsonGroup>, groups: Seq<VersionGroup>) -> bool {
        &&& list.len() == groups.len()
        &&& forall|k: int|
            0 <= k < list.len() ==> {
                &&& (#[trigger] list[k]).version == groups[k].version
                &&& list[k].input == standard_json_form(
                    groups[k].input.sources.entries(),
                    groups[k].input.settings,
                )
            }
    }

    /// The requests to the compilers in standard JSON form, one per compiler
    /// version: the forms of the requests that `solc_input_for_ast_generation` gives,
    /// in their order; the call fails where that one fails, with the same failure.
    pub fn standard_json_for_ast_generation(&self, sources: Sources, resolution: Resolution) -> (r:
        Result<Vec<StandardJsonGroup>, DerivationError>)
        ensures
            match self.grouping_failure(resolution) {
                Some(why) => r == Err::<Vec<StandardJsonGroup>, DerivationError>(why),
                None => r matches Ok(list) && list@.map_values(
                    |g: StandardJsonGroup| g.version@,
                ) == self.group_versions(resolution) && exists|groups: Seq<VersionGroup>| #[trigger]
                    self.grouped(sources, resolution, groups) && Self::forms_of(list@, groups),
            },
    {
        let groups = match self.solc_input_for_ast_generation(sources, resolution) {
            Ok(groups) => groups,
            Err(why) => {
                return Err(why);
            },
        };
        let ghost whole = groups@;
        let ghost n = whole.len() as int;
        let mut rest = reversed(groups);
        let mut out: Vec<StandardJsonGroup> = Vec::new();
        while rest.len() > 0
            invariant
                n == whole.len(),
                rest@.len() + out@.len() == n,
                forall|k: int| 0 <= k < rest@.len() ==> rest@[k] == whole[n - 1 - k],
                forall|k: int|
                    0 <= k < out@.len() ==> {
                        &&& (#[trigger] out@[k]).version == whole[k].version
                        &&& out@[k].input == standard_json_form(
                            whole[k].input.sources.entries(),
                            whole[k].input.settings,
                        )
                    },
            decreases rest.len(),
        {
            let ghost i = out@.len() as int;
            let group = rest.pop().unwrap();
            assert(group == whole[i]);
            let VersionGroup { version, input } = group;
            out.push(StandardJsonGroup { version, input: standard_json_of(input) });
        }
        assert(Self::forms_of(out@, whole));
        assert(out@.map_values(|g: StandardJsonGroup| g.version@) =~= whole.map_values(
            |g: VersionGroup| g.version@,
        ));
        Ok(out)
    }

    /// The binary as it is started for this project: from the resolved root, with
    /// the include and allow paths of the project, each list without repetitions and
    /// else in the order of the project.
    pub fn prepare_solc(&self, solc: Solc) -> (r: Solc)
        ensures
            r.solc == solc.solc,
            r.version == solc.version,
            r.extra_args == solc.extra_args,
            r.base_path matches Some(base) && base@ == self.canonical_root@,
            texts(r.include_paths@) == first_occurrences(texts(self.project_paths.include_paths@)),
            texts(r.allow_paths@) == first_occurrences(texts(self.project_paths.allowed_paths@)),
            texts(self.project_paths.include_paths@).no_duplicates() ==> texts(r.include_paths@)
                == texts(self.project_paths.include_paths@),
            texts(self.project_paths.allowed_paths@).no_duplicates() ==> texts(r.allow_paths@)
                == texts(self.project_paths.allowed_paths@),
            r.wf(),
    {
        solc.with_paths(
            self.canonical_root.clone(),
            &self.project_paths.include_paths,
            &self.project_paths.allowed_paths,
        )
    }
}

impl CompilerRun {
    /// The request and the answer each hold no path twice.
    pub open spec fn wf(&self) -> bool {
        &&& self.solc_input.sources.wf()
        &&& self.outcome matches Ok(output) ==> output.wf()
    }
}

/// One compiler run: what went to the compiler, and what came of it.
#[derive(Debug)]
pub struct CompilerRun {
    /// The compiler version.
    pub version: Version,
    /// The request that went to the compiler.
    pub solc_input: SolcInput,
    /// The compiler's answer, or why there is none: the binary could not be had, the
    /// compiler failed, or its output could not be read.
    pub outcome: Result<SolcCompilerOutput, DerivationError>,
    /// The paths of the answer that a skip pattern of the configuration matches.
    pub skipped: Vec<String>,
}

impl ProjectConfigInput {
    /// The paths of `paths` that are in scope, in their order; a path counts as
    /// matched by a skip pattern if it is one of `skipped`.
    pub open spec fn in_scope_paths(&self, paths: Seq<Seq<char>>, skipped: Seq<Seq<char>>) -> Seq<
        Seq<char>,
    >
        decreases paths.len(),
    {
        if paths.len() == 0 {
            Seq::<Seq<char>>::empty()
        } else {
            let before = self.in_scope_paths(paths.drop_last(), skipped);
            if self.included(paths.last(), skipped.contains(paths.last())) {
                before.push(paths.last())
            } else {
                before
            }
        }
    }

    /// The first path of `paths` that has no path relative to the root where the
    /// rules ask for it, if there is one.
    pub open spec fn first_outside_root(&self, paths: Seq<Seq<char>>, skipped: Seq<Seq<char>>)
        -> Option<Seq<char>>
        decreases paths.len(),
    {
        if paths.len() == 0 {
            None
        } else if !self.relative_known(paths[0], skipped.contains(paths[0])) {
            Some(paths[0])
        } else {
            self.first_outside_root(paths.drop_first(), skipped)
        }
    }

    /// The path of the answer of the run at which its files cannot be told in scope
    /// or out of it, if there is an answer and such a path.
    pub open spec fn stray_of(&self, run: CompilerRun) -> Option<Seq<char>> {
        match run.outcome {
            Ok(output) => self.first_outside_root(output.paths(), texts(run.skipped@)),
            Err(_) => None,
        }
    }

    /// Whether the run has no outcome: it gave no answer, or a file of its answer is
    /// in scope by its place and does not lie under the resolved root.
    pub open spec fn run_fails(&self, run: CompilerRun) -> bool {
        run.outcome is Err || self.stray_of(run) is Some
    }

    /// Whether `why` is the failure of the run: the failure that the run itself
    /// ended with, or else the first file of its answer that is in scope by its place
    /// and does not lie under the resolved root.
    pub open spec fn run_failure(&self, run: CompilerRun, why: DerivationError) -> bool {
        match run.outcome {
            Err(failure) => why == failure,
            Ok(_) => why matches DerivationError::OutsideRoot(text) && Some(text@)
                == self.stray_of(run),
        }
    }

    /// Whether `tagged` is the outcome of the run: the run does not fail, and
    /// `tagged` holds its version, its answer, the sources that went to the compiler,
    /// and the files of the answer that are in scope, each once, in the order of the
    /// answer.
    pub open spec fn run_tagged(&self, run: CompilerRun, tagged: VersionedAstOutputs) -> bool {
        &&& !self.run_fails(run)
        &&& texts(tagged.included_files@).no_duplicates()
        &&& tagged.version == run.version
        &&& tagged.compiler_output == run.outcome->Ok_0
        &&& tagged.sources == run.solc_input.sources
        &&& texts(tagged.included_files@) == first_occurrences(
            self.in_scope_paths(run.outcome->Ok_0.paths(), texts(run.skipped@)),
        )
    }

    /// The outcome of one compiler run: the compiler's answer, with the files of it
    /// that are in scope. A run without an answer fails the call with its own
    /// failure, and so does a file of the answer that is in scope by its place and
    /// does not lie under the resolved root.
    pub fn make_ast(&self, run: CompilerRun) -> (r: Result<VersionedAstOutputs, DerivationError>)
        ensures
            r is Err == self.run_fails(run),
            self.rooted() && run.outcome is Ok ==> r is Ok,
            r matches Ok(tagged) ==> run.wf() ==> tagged.wf(),
            match r {
                Ok(tagged) => self.run_tagged(run, tagged),
                Err(why) => self.run_failure(run, why),
            },
    {
        let CompilerRun { version, solc_input, outcome, skipped } = run;
        let output = match outcome {
            Ok(output) => output,
            Err(why) => {
                return Err(why);
            },
        };
        let ghost paths = output.paths();
        let ghost skips = texts(skipped@);
        let ghost n = paths.len() as int;
        let mut found: Vec<String> = Vec::new();
        let mut i: usize = 0;
        assert(paths.take(0) =~= Seq::<Seq<char>>::empty());
        assert(texts(found@) =~= Seq::<Seq<char>>::empty());
        assert(paths.subrange(0, n) =~= paths);
        while i < output.sources.len()
            invariant
                i <= output.sources@.len(),
                n == paths.len(),
                paths == output.paths(),
                skips == texts(skipped@),
                run.outcome == Ok::<SolcCompilerOutput, DerivationError>(output),
                run.skipped == skipped,
                texts(found@) == self.in_scope_paths(paths.take(i as int), skips),
                self.first_outside_root(paths, skips) == self.first_outside_root(
                    paths.subrange(i as int, n),
                    skips,
                ),
            decreases output.sources.len() - i,
        {
            let ghost rest = paths.subrange(i as int, n);
            let ghost upto = paths.take(i as int + 1);
            assert(rest[0] == output.sources@[i as int].path@);
            assert(rest.drop_first() =~= paths.subrange(i as int + 1, n));
            assert(upto.drop_last() =~= paths.take(i as int));
            assert(upto.last() == output.sources@[i as int].path@);
            let path = &output.sources[i].path;
            let skip_matched = contains_text(&skipped, path);
            match self.try_is_included(path.as_str(), skip_matched) {
                None => {
                    assert(!self.relative_known(rest[0], skips.contains(rest[0])));
                    assert(self.first_outside_root(rest, skips) == Some(rest[0]));
                    return Err(DerivationError::OutsideRoot(path.clone()));
                },
                Some(true) => {
                    let kept = path.clone();
                    proof {
                        lemma_texts_push(found@, kept);
                    }
                    found.push(kept);
                },
                Some(false) => {},
            }
            i += 1;
        }
        assert(paths.take(n) =~= paths);
        assert(paths.subrange(n, n) =~= Seq::<Seq<char>>::empty());
        proof {
            lemma_first_occurrences(self.in_scope_paths(paths, skips));
        }
        Ok(
            VersionedAstOutputs {
                version,
                compiler_output: output,
                included_files: dedup(found),
                sources: solc_input.sources,
            },
        )
    }

    /// The outcomes of all compiler runs, in the order of the runs; or the failure of
    /// the first run that has no outcome, if there is such a run. With a sources
    /// directory under the resolved root, the call succeeds where every run has an
    /// answer.
    pub fn make_asts(&self, runs: Vec<CompilerRun>) -> (r: Result<
        Vec<VersionedAstOutputs>,
        DerivationError,
    >)
        ensures
            self.rooted() && (forall|k: int|
                0 <= k < runs@.len() ==> (#[trigger] runs@[k]).outcome is Ok) ==> r is Ok,
            r matches Ok(asts) ==> forall|k: int|
                0 <= k < asts@.len() && runs@[k].wf() ==> (#[trigger] asts@[k]).wf(),
            match r {
                Ok(asts) => asts@.len() == runs@.len() && forall|k: int|
                    0 <= k < asts@.len() ==> self.run_tagged(runs@[k], #[trigger] asts@[k]),
                Err(why) => exists|i: int|
                    0 <= i < runs@.len() && #[trigger] self.run_fails(runs@[i])
                        && self.run_failure(runs@[i], why) && forall|k: int|
                        0 <= k < i ==> !self.run_fails(runs@[k]),
            },
    {
        let ghost whole = runs@;
        let ghost n = whole.len() as int;
        let mut rest = reversed(runs);
        let mut asts: Vec<VersionedAstOutputs> = Vec::new();
        while rest.len() > 0
            invariant
                n == whole.len(),
                whole == runs@,
                rest@.len() + asts@.len() == n,
                forall|k: int| 0 <= k < rest@.len() ==> rest@[k] == whole[n - 1 - k],
                forall|k: int|
                    0 <= k < asts@.len() ==> self.run_tagged(whole[k], #[trigger] asts@[k]),
                forall|k: int| 0 <= k < asts@.len() && whole[k].wf() ==> (#[trigger] asts@[k]).wf(),
            decreases rest.len(),
        {
            let ghost i = asts@.len() as int;
            let run = rest.pop().unwrap();
            assert(run == whole[i]);
            match self.make_ast(run) {
                Ok(ast) => {
                    asts.push(ast);
                },
                Err(why) => {
                    assert(self.run_fails(whole[i]));
                    assert forall|k: int| 0 <= k < i implies !self.run_fails(whole[k]) by {
                        assert(self.run_tagged(whole[k], asts@[k]));
                    }
                    return Err(why);
                },
            }
        }
        Ok(asts)
    }
}

/// Whether the source maps `parts` split the files `whole`: every path of `whole`
/// lies in exactly one of the maps, once, and the maps hold no other path.
pub open spec fn is_partition(parts: Seq<Seq<Seq<char>>>, whole: Seq<Seq<char>>) -> bool {
    &&& forall|i: int, a: int|
        0 <= i < parts.len() && 0 <= a < parts[i].len() ==> whole.contains(#[trigger] parts[i][a])
    &&& forall|p: Seq<char>|
        whole.contains(p) ==> exists|i: int, a: int|
            0 <= i < parts.len() && 0 <= a < parts[i].len() && #[trigger] parts[i][a] == p
    &&& forall|i: int, a: int, j: int, b: int|
        0 <= i < parts.len() && 0 <= a < parts[i].len() && 0 <= j < parts.len() && 0 <= b
            < parts[j].len() && #[trigger] parts[i][a] == #[trigger] parts[j][b] ==> i == j && a
            == b
}

/// The paths of the source maps of the groups, group by group.
pub open spec fn group_paths(groups: Seq<VersionGroup>) -> Seq<Seq<Seq<char>>> {
    groups.map_values(|g: VersionGroup| g.input.sources.paths())
}

/// The paths of the source maps that a resolution gave, version by version.
pub open spec fn resolved_paths(list: Seq<VersionedSources>) -> Seq<Seq<Seq<char>>> {
    list.map_values(|e: VersionedSources| e.sources.paths())
}

/// Whether the resolution splits the files `whole` among distinct versions; without
/// any Solidity source there is no file to split.
pub open spec fn resolution_splits(resolution: Resolution, whole: Seq<Seq<char>>) -> bool {
    match resolution {
        Resolution::Resolved(list) => distinct_versions(list@) && is_partition(
            resolved_paths(list@),
            whole,
        ),
        Resolution::NoSources => whole.len() == 0,
        Resolution::Failed(_) => false,
    }
}

/// The requests of a project split the files that were read: every file goes to
/// exactly one request, and the requests hold no other file. With a pinned compiler
/// this holds of any sources without a repeated path; else it holds wherever it holds
/// of the resolution of the imports, whose source maps go into the requests as they
/// are. A resolution that gives one imported file to two versions does not split the
/// files, and neither do the requests made from it.
pub proof fn lemma_groups_partition(
    config: ProjectConfigInput,
    sources: Sources,
    resolution: Resolution,
    groups: Seq<VersionGroup>,
)
    requires
        sources.wf(),
        config.grouped(sources, resolution, groups),
        config.solc_compiler is AutoDetect ==> resolution_splits(resolution, sources.paths()),
    ensures
        is_partition(group_paths(groups), sources.paths()),
{
    let parts = group_paths(groups);
    let whole = sources.paths();
    match config.solc_compiler {
        SolcCompilerConfigInput::Specific(_) => {
            assert(parts.len() == 1);
            assert(parts[0] == whole);
            assert forall|p: Seq<char>| whole.contains(p) implies exists|i: int, a: int|
                0 <= i < parts.len() && 0 <= a < parts[i].len() && #[trigger] parts[i][a]
                    == p by {
                let a = choose|a: int| 0 <= a < whole.len() && whole[a] == p;
                assert(parts[0][a] == p);
            }
        },
        SolcCompilerConfigInput::AutoDetect => {
            match resolution {
                Resolution::Resolved(list) => {
                    lemma_last_per_version_of_distinct(list@);
                    assert(parts =~= resolved_paths(list@));
                },
                _ => {
                    assert forall|p: Seq<char>| !whole.contains(p) by {}
                },
            }
        },
    }
}

/// A pinned version owns all sources: the configuration that a builder with a pinned
/// version builds has one request, for that version and for all sources that were
/// read, whatever the resolution of the imports says.
pub proof fn lemma_pinned_version_owns_all(
    builder: ProjectConfigInputBuilder,
    survey: Survey,
    built: ProjectConfigInput,
    sources: Sources,
    resolution: Resolution,
    groups: Seq<VersionGroup>,
)
    requires
        builder.solc_version is Specific,
        builder.compiler_chosen(survey, built.solc_compiler),
        built.grouped(sources, resolution, groups),
    ensures
        built.grouping_failure(resolution) is None,
        groups.len() == 1,
        groups[0].version@ == builder.solc_version->Specific_0@,
        groups[0].input.sources == sources,
{
}

} // verus!
