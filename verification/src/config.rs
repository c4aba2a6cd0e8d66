//! The participants an engine is started with.

use vstd::prelude::*;
use vstd::set_lib::{lemma_int_range, lemma_len_subset, set_int_range};

verus! {

/// A plugin that runs on a thread of the engine's process.
#[derive(Clone, Debug)]
pub struct PluginDescriptor {
    /// Identifies the plugin among all participants.
    pub id: u32,
    /// The topics the plugin wants to receive, by name.
    pub subscriptions: Vec<String>,
}

/// A participant that runs elsewhere and meets the engine at the barrier.
#[derive(Clone, Copy, Debug, PartialEq, Eq, Hash, Structural)]
pub struct ExternalParticipantDescriptor {
    /// Identifies the participant among all participants.
    pub id: u32,
}

/// Why a set of participants was refused.
#[derive(Clone, Copy, Debug, PartialEq, Eq, Hash, Structural)]
pub enum ConfigError {
    /// Two participants share `id`.
    DuplicateId { id: u32 },
}

/// The number of identifiers there are, and so the largest number of
/// participants an engine can have.
pub const MAX_PARTICIPANTS: u64 = 0x1_0000_0000;

/// The identifiers of all participants: the plugins first, each list in its
/// own order.
pub open spec fn participant_ids(
    plugins: Seq<PluginDescriptor>,
    externals: Seq<ExternalParticipantDescriptor>,
) -> Seq<u32> {
    plugins.map_values(|plugin: PluginDescriptor| plugin.id) + externals.map_values(
        |external: ExternalParticipantDescriptor| external.id,
    )
}

/// Whether `ids[at]` occurs at an earlier position too.
pub open spec fn repeats_at(ids: Seq<u32>, at: int) -> bool {
    exists|earlier: int| 0 <= earlier < at && #[trigger] ids[earlier] == ids[at]
}

/// Whether `at` is the first position of `ids` that repeats an earlier one.
pub open spec fn first_repeat(ids: Seq<u32>, at: int) -> bool {
    &&& 0 <= at < ids.len()
    &&& repeats_at(ids, at)
    &&& forall|before: int| 0 <= before < at ==> !repeats_at(ids, before)
}

/// Whether the participants can be started together: no identifier is used
/// twice.
pub open spec fn admissible(
    plugins: Seq<PluginDescriptor>,
    externals: Seq<ExternalParticipantDescriptor>,
) -> bool {
    participant_ids(plugins, externals).no_duplicates()
}

/// Participants that all have different identifiers are no more than there
/// are identifiers.
pub proof fn lemma_distinct_ids_are_few(ids: Seq<u32>)
    requires
        ids.no_duplicates(),
    ensures
        ids.len() <= MAX_PARTICIPANTS,
{
    let numbers = ids.map_values(|id: u32| id as int);
    assert(numbers.no_duplicates()) by {
        assert forall|i: int, j: int|
            0 <= i < numbers.len() && 0 <= j < numbers.len() && i != j implies numbers[i]
            != numbers[j] by {
            assert(ids[i] != ids[j]);
        }
    }
    numbers.unique_seq_to_set();
    lemma_int_range(0, 0x1_0000_0000);
    assert(numbers.to_set().subset_of(set_int_range(0, 0x1_0000_0000))) by {
        assert forall|number: int| numbers.to_set().contains(number) implies set_int_range(
            0,
            0x1_0000_0000,
        ).contains(number) by {
            let at = choose|at: int| 0 <= at < numbers.len() && numbers[at] == number;
            assert(number == ids[at] as int);
        }
    }
    lemma_len_subset(numbers.to_set(), set_int_range(0, 0x1_0000_0000));
}

/// The participants of one engine, fixed before it starts.
#[derive(Clone, Debug)]
pub struct EngineConfig {
    plugins: Vec<PluginDescriptor>,
    externals: Vec<ExternalParticipantDescriptor>,
}

/// Collects the identifiers of all participants.
fn collect_ids(
    plugins: &Vec<PluginDescriptor>,
    externals: &Vec<ExternalParticipantDescriptor>,
) -> (ids: Vec<u32>)
    ensures
        ids@ == participant_ids(plugins@, externals@),
{
    let mut ids: Vec<u32> = Vec::new();
    let mut i: usize = 0;
    while i < plugins.len()
        invariant
            i <= plugins@.len(),
            ids@ == plugins@.take(i as int).map_values(|plugin: PluginDescriptor| plugin.id),
        decreases plugins@.len() - i,
    {
        ids.push(plugins[i].id);
        assert(plugins@.take(i + 1) =~= plugins@.take(i as int).push(plugins@[i as int]));
        assert(ids@ =~= plugins@.take(i + 1).map_values(|plugin: PluginDescriptor| plugin.id));
        i += 1;
    }
    assert(plugins@.take(i as int) =~= plugins@);
    let ghost first = ids@;
    let mut j: usize = 0;
    while j < externals.len()
        invariant
            j <= externals@.len(),
            first == plugins@.map_values(|plugin: PluginDescriptor| plugin.id),
            ids@ == first + externals@.take(j as int).map_values(
                |external: ExternalParticipantDescriptor| external.id,
            ),
        decreases externals@.len() - j,
    {
        ids.push(externals[j].id);
        assert(externals@.take(j + 1) =~= externals@.take(j as int).push(externals@[j as int]));
        assert(ids@ =~= first + externals@.take(j + 1).map_values(
            |external: ExternalParticipantDescriptor| external.id,
        ));
        j += 1;
    }
    assert(externals@.take(j as int) =~= externals@);
    ids
}

/// Finds the first identifier that repeats an earlier one.
fn find_repeat(ids: &Vec<u32>) -> (found: Option<u32>)
    ensures
        found is None <==> ids@.no_duplicates(),
        found matches Some(id) ==> exists|at: int| first_repeat(ids@, at) && ids@[at] == id,
{
    let mut at: usize = 0;
    while at < ids.len()
        invariant
            at <= ids@.len(),
            forall|before: int| 0 <= before < at ==> !repeats_at(ids@, before),
        decreases ids@.len() - at,
    {
        let mut earlier: usize = 0;
        while earlier < at
            invariant
                at < ids@.len(),
                earlier <= at,
                forall|before: int| 0 <= before < at ==> !repeats_at(ids@, before),
                forall|k: int| 0 <= k < earlier ==> ids@[k] != ids@[at as int],
            decreases at - earlier,
        {
            if ids[earlier] == ids[at] {
                assert(repeats_at(ids@, at as int));
                assert(first_repeat(ids@, at as int));
                return Some(ids[at]);
            }
            earlier += 1;
        }
        assert(!repeats_at(ids@, at as int));
        at += 1;
    }
    proof {
        assert forall|i: int, j: int|
            0 <= i < ids@.len() && 0 <= j < ids@.len() && i != j implies ids@[i] != ids@[j] by {
            if i < j {
                assert(!repeats_at(ids@, j));
            } else {
                assert(!repeats_at(ids@, i));
            }
        }
    }
    None
}

impl EngineConfig {
    /// The in-process plugins, in launch order.
    pub closed spec fn spec_plugins(&self) -> Seq<PluginDescriptor> {
        self.plugins@
    }

    /// The external participants.
    pub closed spec fn spec_externals(&self) -> Seq<ExternalParticipantDescriptor> {
        self.externals@
    }

    /// Every configuration that exists is admissible.
    pub open spec fn wf(&self) -> bool {
        admissible(self.spec_plugins(), self.spec_externals())
    }

    /// The number of participants the barrier waits for.
    pub open spec fn spec_participant_count(&self) -> nat {
        self.spec_plugins().len() + self.spec_externals().len()
    }

    /// Accepts the participants if no identifier is used twice. Otherwise
    /// names the first identifier, plugins before externals, that an earlier
    /// participant has too.
    pub fn new(
        plugins: Vec<PluginDescriptor>,
        externals: Vec<ExternalParticipantDescriptor>,
    ) -> (made: Result<EngineConfig, ConfigError>)
        ensures
            made is Ok <==> admissible(plugins@, externals@),
            made matches Ok(config) ==> config.wf() && config.spec_plugins() == plugins@
                && config.spec_externals() == externals@,
            made matches Err(ConfigError::DuplicateId { id }) ==> exists|at: int|
                first_repeat(participant_ids(plugins@, externals@), at) && participant_ids(
                    plugins@,
                    externals@,
                )[at] == id,
    {
        let ids = collect_ids(&plugins, &externals);
        match find_repeat(&ids) {
            Some(id) => Err(ConfigError::DuplicateId { id }),
            None => Ok(EngineConfig { plugins, externals }),
        }
    }

    /// The number of participants the barrier waits for: plugins and
    /// external participants together.
    pub fn participant_count(&self) -> (count: u64)
        requires
            self.wf(),
        ensures
            count == self.spec_participant_count(),
            count <= MAX_PARTICIPANTS,
    {
        proof {
            lemma_distinct_ids_are_few(participant_ids(self.plugins@, self.externals@));
        }
        self.plugins.len() as u64 + self.externals.len() as u64
    }

    /// The in-process plugins, in launch order.
    pub fn plugins(&self) -> (plugins: &Vec<PluginDescriptor>)
        ensures
            plugins@ == self.spec_plugins(),
    {
        &self.plugins
    }

    /// The external participants.
    pub fn externals(&self) -> (externals: &Vec<ExternalParticipantDescriptor>)
        ensures
            externals@ == self.spec_externals(),
    {
        &self.externals
    }

    /// Gives the two lists back.
    pub fn into_parts(self) -> (parts: (Vec<PluginDescriptor>, Vec<ExternalParticipantDescriptor>))
        ensures
            parts.0@ == self.spec_plugins(),
            parts.1@ == self.spec_externals(),
    {
        (self.plugins, self.externals)
    }
}

} // verus!
