//! Game states and the decisions taken while loading.

use crate::config::{SpawnChunkGenerated, WorldReady};
use vstd::prelude::*;

verus! {

/// The phases of the game.
#[derive(Clone, Copy, Debug, PartialEq, Eq, Hash, Structural)]
pub enum GameState {
    AppLoading,
    GameLoading,
    MainMenu,
    InGame,
}

impl Default for GameState {
    /// The game starts by loading its assets.
    fn default() -> (state: Self)
        ensures
            state == GameState::AppLoading,
    {
        GameState::AppLoading
    }
}

/// While the game loads: once the spawn chunk is generated, the world becomes
/// ready and the game moves on to `InGame` (returned as the next state). Does
/// nothing once the world is ready, or while the spawn chunk is missing.
pub fn loading_update(world_ready: &mut WorldReady, generated: &SpawnChunkGenerated) -> (next: Option<GameState>)
    ensures
        old(world_ready).0 ==> next is None && final(world_ready).0,
        !old(world_ready).0 && generated.0 ==> next == Some(GameState::InGame) && final(world_ready).0,
        !old(world_ready).0 && !generated.0 ==> next is None && !final(world_ready).0,
{
    if world_ready.0 {
        return None;
    }
    if generated.0 {
        world_ready.0 = true;
        return Some(GameState::InGame);
    }
    None
}

/// Where an asset stands in loading.
#[derive(Clone, Copy, Debug, PartialEq, Eq, Structural)]
pub enum AssetLoadState {
    Pending,
    Loaded,
    Failed,
}

/// The assets the application waits for before its menu, by name.
pub struct LoadingAssets<H> {
    pub handles: Vec<(String, H)>,
}

/// How many of `states` are `Loaded`.
pub open spec fn loaded_count(states: Seq<AssetLoadState>) -> nat
    decreases states.len(),
{
    if states.len() == 0 {
        0
    } else {
        loaded_count(states.drop_last()) + if states.last() == AssetLoadState::Loaded {
            1nat
        } else {
            0nat
        }
    }
}

/// The names whose state is `Failed`, in order.
pub open spec fn failed_names(names: Seq<Seq<char>>, states: Seq<AssetLoadState>) -> Seq<Seq<char>>
    decreases states.len(),
{
    if states.len() == 0 || names.len() == 0 {
        Seq::empty()
    } else {
        let before = failed_names(names.drop_last(), states.drop_last());
        if states.last() == AssetLoadState::Failed {
            before.push(names.last())
        } else {
            before
        }
    }
}

/// The progress of loading: how many assets are loaded out of how many, the
/// names of those that failed, and the state to move to once all are loaded.
pub struct LoadingReport {
    pub loaded: usize,
    pub total: usize,
    pub failed: Vec<String>,
    pub next: Option<GameState>,
}

impl<H> Default for LoadingAssets<H> {
    /// Nothing awaited yet.
    fn default() -> (assets: Self)
        ensures
            assets.handles@ == Seq::<(String, H)>::empty(),
    {
        Self::new()
    }
}

impl<H> LoadingAssets<H> {
    /// The names of the awaited assets, in order.
    pub open spec fn names(&self) -> Seq<Seq<char>> {
        self.handles@.map_values(|entry: (String, H)| entry.0@)
    }

    /// Nothing awaited yet.
    pub fn new() -> (assets: Self)
        ensures
            assets.handles@ == Seq::<(String, H)>::empty(),
    {
        LoadingAssets { handles: Vec::new() }
    }

    /// Awaits one more asset, under `name`.
    pub fn add(&mut self, name: String, handle: H)
        ensures
            final(self).handles@ == old(self).handles@.push((name, handle)),
    {
        self.handles.push((name, handle));
    }

    /// The progress of loading, given the state of each awaited asset (in the
    /// order they were added). Once every asset is loaded, the next state is
    /// the main menu.
    pub fn report(&self, states: &Vec<AssetLoadState>) -> (report: LoadingReport)
        requires
            states@.len() == self.handles@.len(),
        ensures
            report.loaded == loaded_count(states@),
            report.total == self.handles@.len(),
            report.failed@.map_values(|s: String| s@) == failed_names(self.names(), states@),
            report.next == (if report.loaded >= report.total {
                Some(GameState::MainMenu)
            } else {
                None::<GameState>
            }),
    {
        let total = self.handles.len();
        let mut loaded: usize = 0;
        let mut failed: Vec<String> = Vec::new();
        let mut i: usize = 0;
        while i < total
            invariant
                i <= total,
                total == self.handles@.len(),
                states@.len() == total,
                loaded == loaded_count(states@.take(i as int)),
                loaded <= i,
                failed@.map_values(|s: String| s@) == failed_names(
                    self.names().take(i as int),
                    states@.take(i as int),
                ),
            decreases total - i,
        {
            assert(states@.take(i as int + 1).drop_last() =~= states@.take(i as int));
            assert(self.names().take(i as int + 1).drop_last() =~= self.names().take(i as int));
            let state = states[i];
            if state == AssetLoadState::Loaded {
                loaded = loaded + 1;
            } else if state == AssetLoadState::Failed {
                let name = self.handles[i].0.clone();
                let ghost before = failed@;
                failed.push(name);
                assert(failed@.map_values(|s: String| s@) =~= before.map_values(|s: String| s@).push(
                    self.names()[i as int],
                ));
            }
            i = i + 1;
        }
        assert(states@.take(total as int) =~= states@);
        assert(self.names().take(total as int) =~= self.names());
        let next = if loaded >= total {
            Some(GameState::MainMenu)
        } else {
            None
        };
        LoadingReport { loaded, total, failed, next }
    }
}

/// The loaded assets never outnumber the assets, and they are as many exactly
/// when every asset is loaded: loading moves on to the menu exactly then.
pub proof fn law_all_loaded_iff_count(states: Seq<AssetLoadState>)
    ensures
        loaded_count(states) <= states.len(),
        loaded_count(states) == states.len() <==> forall|i: int|
            0 <= i < states.len() ==> #[trigger] states[i] == AssetLoadState::Loaded,
    decreases states.len(),
{
    if states.len() > 0 {
        let rest = states.drop_last();
        law_all_loaded_iff_count(rest);
        if loaded_count(states) == states.len() {
            assert forall|i: int| 0 <= i < states.len() implies #[trigger] states[i] == AssetLoadState::Loaded by {
                if i < rest.len() {
                    assert(rest[i] == states[i]);
                }
            }
        }
        if forall|i: int| 0 <= i < states.len() ==> #[trigger] states[i] == AssetLoadState::Loaded {
            assert forall|i: int| 0 <= i < rest.len() implies #[trigger] rest[i] == AssetLoadState::Loaded by {
                assert(states[i] == AssetLoadState::Loaded);
            }
            assert(states[states.len() - 1] == AssetLoadState::Loaded);
        }
    }
}

/// Whether an asset state is `Loaded`.
pub open spec fn is_loaded() -> spec_fn(AssetLoadState) -> bool {
    |state: AssetLoadState| state == AssetLoadState::Loaded
}

/// One more asset adds one to the loaded count exactly when it is loaded,
/// whatever came before it.
pub proof fn law_loaded_count_push(states: Seq<AssetLoadState>, state: AssetLoadState)
    ensures
        loaded_count(states.push(state)) == loaded_count(states) + if state == AssetLoadState::Loaded {
            1int
        } else {
            0int
        },
{
    assert(states.push(state).drop_last() =~= states);
}

/// The loaded count is the number of positions whose state is `Loaded`.
pub proof fn law_loaded_count_counts_loaded(states: Seq<AssetLoadState>)
    ensures
        loaded_count(states) == states.filter(is_loaded()).len(),
    decreases states.len(),
{
    reveal(Seq::filter);
    if states.len() > 0 {
        law_loaded_count_counts_loaded(states.drop_last());
    }
}

/// One more asset adds its name to the failed names exactly when it failed,
/// whatever came before it.
pub proof fn law_failed_names_push(
    names: Seq<Seq<char>>,
    states: Seq<AssetLoadState>,
    name: Seq<char>,
    state: AssetLoadState,
)
    ensures
        failed_names(names.push(name), states.push(state)) == if state == AssetLoadState::Failed {
            failed_names(names, states).push(name)
        } else {
            failed_names(names, states)
        },
{
    assert(names.push(name).drop_last() =~= names);
    assert(states.push(state).drop_last() =~= states);
}

/// Whether `name` is the name of an asset whose state is `Failed`.
pub open spec fn is_failed_name(names: Seq<Seq<char>>, states: Seq<AssetLoadState>, name: Seq<char>) -> bool {
    exists|i: int| 0 <= i < states.len() && states[i] == AssetLoadState::Failed && #[trigger] names[i] == name
}

/// The failed name at position `j` is the name of an asset that failed.
pub proof fn lemma_failed_name_source(names: Seq<Seq<char>>, states: Seq<AssetLoadState>, j: int) -> (i: int)
    requires
        names.len() == states.len(),
        0 <= j < failed_names(names, states).len(),
    ensures
        0 <= i < states.len(),
        states[i] == AssetLoadState::Failed,
        names[i] === failed_names(names, states)[j],
    decreases states.len(),
{
    let n0 = names.drop_last();
    let s0 = states.drop_last();
    let before = failed_names(n0, s0);
    let now = failed_names(names, states);
    let last = states.len() - 1;
    if states[last] == AssetLoadState::Failed {
        assert(now == before.push(names[last]));
    } else {
        assert(now == before);
    }
    if j < before.len() {
        let i = lemma_failed_name_source(n0, s0, j);
        assert(now[j] == before[j]);
        assert(states[i] == s0[i]);
        assert(names[i] == n0[i]);
        i
    } else {
        last
    }
}

/// Every asset that failed is named among the failed names, and every failed
/// name is the name of an asset that failed.
pub proof fn law_failed_names_are_the_failures(names: Seq<Seq<char>>, states: Seq<AssetLoadState>)
    requires
        names.len() == states.len(),
    ensures
        forall|i: int|
            0 <= i < states.len() && states[i] == AssetLoadState::Failed ==> #[trigger] failed_names(
                names,
                states,
            ).contains(names[i]),
        forall|j: int|
            0 <= j < failed_names(names, states).len() ==> is_failed_name(
                names,
                states,
                #[trigger] failed_names(names, states)[j],
            ),
    decreases states.len(),
{
    if states.len() > 0 {
        let n0 = names.drop_last();
        let s0 = states.drop_last();
        law_failed_names_are_the_failures(n0, s0);
        let before = failed_names(n0, s0);
        let now = failed_names(names, states);
        let last = states.len() - 1;
        assert forall|i: int| 0 <= i < states.len() && states[i] == AssetLoadState::Failed implies #[trigger] failed_names(
            names,
            states,
        ).contains(names[i]) by {
            if i == last {
                assert(now[now.len() - 1] == names[i]);
            } else {
                assert(s0[i] == states[i]);
                assert(n0[i] == names[i]);
                assert(before.contains(n0[i]));
                let k = choose|k: int| 0 <= k < before.len() && before[k] == n0[i];
                assert(now[k] == before[k]);
            }
        }
    }
    assert forall|j: int| 0 <= j < failed_names(names, states).len() implies is_failed_name(
        names,
        states,
        #[trigger] failed_names(names, states)[j],
    ) by {
        let i = lemma_failed_name_source(names, states, j);
        assert(names[i] === failed_names(names, states)[j]);
    }
}

} // verus!
