//! What the player has achieved, and which levels that opens.

use crate::text;
use crate::time::Duration;
use vstd::prelude::*;

verus! {

/// What the player has achieved on a level.
#[derive(Debug, Clone, Copy, PartialEq, Eq, Structural)]
pub struct LevelProgress {
    pub cleared: bool,
    pub best_time_ms: Option<u128>,
    pub best_commands: Option<usize>,
}

impl LevelProgress {
    /// Nothing yet.
    pub open spec fn none() -> LevelProgress {
        LevelProgress { cleared: false, best_time_ms: None, best_commands: None }
    }

    /// The level has been cleared in `time_ms` with `commands`. Of the times and of the
    /// numbers of commands, the least stays.
    pub open spec fn improved(self, time_ms: u128, commands: usize) -> LevelProgress {
        LevelProgress {
            cleared: true,
            best_time_ms: Some(
                match self.best_time_ms {
                    Some(best) if best <= time_ms => best,
                    _ => time_ms,
                },
            ),
            best_commands: Some(
                match self.best_commands {
                    Some(best) if best <= commands => best,
                    _ => commands,
                },
            ),
        }
    }
}

impl Default for LevelProgress {
    fn default() -> (progress: Self)
        ensures
            progress == LevelProgress::none(),
    {
        Self { cleared: false, best_time_ms: None, best_commands: None }
    }
}

/// The progress on the level with a given identifier.
#[derive(Debug)]
pub struct LevelEntry {
    pub id: String,
    pub progress: LevelProgress,
}

/// The progress that `entries` hold for the level `id`.
pub open spec fn entry_of(entries: Seq<LevelEntry>, id: Seq<char>) -> Option<LevelProgress>
    decreases entries.len(),
{
    if entries.len() == 0 {
        None
    } else if entries.first().id@ == id {
        Some(entries.first().progress)
    } else {
        entry_of(entries.drop_first(), id)
    }
}

/// All that is remembered between two games.
#[derive(Debug)]
pub struct Progress {
    pub levels: Vec<LevelEntry>,
    pub last_played: Option<String>,
    pub color_intense: bool,
    pub menu_arrows: bool,
}

/// What a [`Progress`] holds.
#[verifier::ext_equal]
pub struct ProgressView {
    pub levels: Map<Seq<char>, LevelProgress>,
    pub last_played: Option<Seq<char>>,
    pub color_intense: bool,
    pub menu_arrows: bool,
}

impl View for Progress {
    type V = ProgressView;

    open spec fn view(&self) -> ProgressView {
        ProgressView {
            levels: Map::new(
                |id: Seq<char>| entry_of(self.levels@, id) is Some,
                |id: Seq<char>| entry_of(self.levels@, id)->0,
            ),
            last_played: match self.last_played {
                Some(id) => Some(id@),
                None => None,
            },
            color_intense: self.color_intense,
            menu_arrows: self.menu_arrows,
        }
    }
}

impl ProgressView {
    /// The progress on a level, which is none where nothing is remembered.
    pub open spec fn on_level(self, id: Seq<char>) -> LevelProgress {
        if self.levels.contains_key(id) {
            self.levels[id]
        } else {
            LevelProgress::none()
        }
    }

    /// The level has been cleared.
    pub open spec fn cleared(self, id: Seq<char>) -> bool {
        self.on_level(id).cleared
    }

    /// The level can be played: those of the first lesson always, those of a later
    /// one once the level that stands for the lesson before has been cleared.
    pub open spec fn unlocked(self, id: Seq<char>) -> bool {
        if "1-"@.is_prefix_of(id) {
            true
        } else if "2-"@.is_prefix_of(id) {
            self.cleared("1-2"@)
        } else {
            "3-"@.is_prefix_of(id) && self.cleared("2-2"@)
        }
    }

    /// A level has been cleared in `time_ms` with `commands`.
    pub open spec fn recorded(self, id: Seq<char>, time_ms: u128, commands: usize) -> ProgressView {
        ProgressView {
            levels: self.levels.insert(id, self.on_level(id).improved(time_ms, commands)),
            last_played: Some(id),
            ..self
        }
    }
}

proof fn lemma_entry_before(entries: Seq<LevelEntry>, id: Seq<char>, i: int)
    requires
        0 <= i <= entries.len(),
        forall|j: int| 0 <= j < i ==> (#[trigger] entries[j]).id@ != id,
    ensures
        entry_of(entries, id) == entry_of(entries.skip(i), id),
    decreases i,
{
    if i == 0 {
        assert(entries.skip(0) =~= entries);
    } else {
        assert(entries.drop_first().skip(i - 1) =~= entries.skip(i));
        assert forall|j: int| 0 <= j < i - 1 implies (#[trigger] entries.drop_first()[j]).id@
            != id by {
            assert(entries.drop_first()[j] == entries[j + 1]);
        }
        lemma_entry_before(entries.drop_first(), id, i - 1);
    }
}

/// A changed entry is found in the place of the old one.
proof fn lemma_entry_updated(entries: Seq<LevelEntry>, i: int, entry: LevelEntry, id: Seq<char>)
    requires
        0 <= i < entries.len(),
        forall|j: int| 0 <= j < i ==> (#[trigger] entries[j]).id@ != entry.id@,
        entries[i].id@ == entry.id@,
    ensures
        entry_of(entries.update(i, entry), id) == if id == entry.id@ {
            Some(entry.progress)
        } else {
            entry_of(entries, id)
        },
    decreases i,
{
    let changed = entries.update(i, entry);
    if i == 0 {
        assert(changed.drop_first() =~= entries.drop_first());
    } else {
        assert(changed.drop_first() =~= entries.drop_first().update(i - 1, entry));
        assert forall|j: int| 0 <= j < i - 1 implies (#[trigger] entries.drop_first()[j]).id@
            != entry.id@ by {
            assert(entries.drop_first()[j] == entries[j + 1]);
        }
        lemma_entry_updated(entries.drop_first(), i - 1, entry, id);
        assert(entries[0].id@ != entry.id@);
    }
}

/// A new entry is found behind the others.
proof fn lemma_entry_pushed(entries: Seq<LevelEntry>, entry: LevelEntry, id: Seq<char>)
    requires
        forall|j: int| 0 <= j < entries.len() ==> (#[trigger] entries[j]).id@ != entry.id@,
    ensures
        entry_of(entries.push(entry), id) == if id == entry.id@ {
            Some(entry.progress)
        } else {
            entry_of(entries, id)
        },
    decreases entries.len(),
{
    let longer = entries.push(entry);
    if entries.len() == 0 {
        assert(longer.drop_first() =~= entries);
    } else {
        assert(longer.drop_first() =~= entries.drop_first().push(entry));
        assert forall|j: int| 0 <= j < entries.drop_first().len() implies (
        #[trigger] entries.drop_first()[j]).id@ != entry.id@ by {
            assert(entries.drop_first()[j] == entries[j + 1]);
        }
        lemma_entry_pushed(entries.drop_first(), entry, id);
        assert(entries[0].id@ != entry.id@);
    }
}

impl Default for Progress {
    fn default() -> (progress: Self)
        ensures
            progress@ == (ProgressView {
                levels: Map::empty(),
                last_played: None,
                color_intense: false,
                menu_arrows: false,
            }),
            progress.wf(),
    {
        let progress: Progress = Self {
            levels: Vec::new(),
            last_played: None,
            color_intense: false,
            menu_arrows: false,
        };
        assert(progress@.levels =~= Map::empty());
        progress
    }
}

impl Progress {
    /// No level has two entries.
    pub open spec fn wf(&self) -> bool {
        forall|i: int, j: int|
            0 <= i < j < self.levels@.len() ==> (#[trigger] self.levels@[i]).id@ != (
            #[trigger] self.levels@[j]).id@
    }

    /// The progress of a new player: none, in bright colours and with arrow keys.
    pub fn new() -> (progress: Self)
        ensures
            progress@ == (ProgressView {
                levels: Map::empty(),
                last_played: None,
                color_intense: true,
                menu_arrows: true,
            }),
            progress.wf(),
    {
        let mut progress: Progress = Progress::default();
        progress.color_intense = true;
        progress.menu_arrows = true;
        progress
    }

    /// The number of the entry of a level, or the number of entries.
    fn entry_index(&self, level_id: &str) -> (index: usize)
        ensures
            index <= self.levels@.len(),
            forall|j: int| 0 <= j < index ==> (#[trigger] self.levels@[j]).id@ != level_id@,
            index < self.levels@.len() ==> self.levels@[index as int].id@ == level_id@,
    {
        let mut i: usize = 0;
        while i < self.levels.len()
            invariant
                i <= self.levels@.len(),
                forall|j: int| 0 <= j < i ==> (#[trigger] self.levels@[j]).id@ != level_id@,
            decreases self.levels@.len() - i,
        {
            if text::same_text(self.levels[i].id.as_str(), level_id) {
                return i;
            }
            i += 1;
        }
        i
    }

    /// What is remembered of a level, if anything is.
    pub fn level(&self, level_id: &str) -> (progress: Option<LevelProgress>)
        ensures
            progress is Some == self@.levels.contains_key(level_id@),
            progress matches Some(progress) ==> progress == self@.levels[level_id@],
    {
        let i: usize = self.entry_index(level_id);
        proof {
            lemma_entry_before(self.levels@, level_id@, i as int);
        }
        if i < self.levels.len() {
            assert(self.levels@.skip(i as int).first() == self.levels@[i as int]);
            Some(self.levels[i].progress)
        } else {
            None
        }
    }

    /// Whether a level can be played.
    pub fn is_unlocked(&self, level_id: &str) -> (unlocked: bool)
        ensures
            unlocked == self@.unlocked(level_id@),
    {
        if text::has_prefix(level_id, "1-") {
            return true;
        }
        if text::has_prefix(level_id, "2-") {
            return self.is_cleared("1-2");
        }
        if text::has_prefix(level_id, "3-") {
            return self.is_cleared("2-2");
        }
        false
    }

    /// Whether a level has been cleared.
    pub fn is_cleared(&self, level_id: &str) -> (cleared: bool)
        ensures
            cleared == self@.cleared(level_id@),
    {
        match self.level(level_id) {
            Some(progress) => progress.cleared,
            None => false,
        }
    }

    /// Remembers that a level was cleared, and the better of the old and the new
    /// time and number of commands.
    pub fn record_clear(&mut self, level_id: &str, elapsed: Duration, commands: usize)
        ensures
            final(self)@ == old(self)@.recorded(level_id@, elapsed.millis() as u128, commands),
            old(self).wf() ==> final(self).wf(),
    {
        let elapsed_ms: u128 = elapsed.as_millis();
        let before: LevelProgress = match self.level(level_id) {
            Some(progress) => progress,
            None => LevelProgress::default(),
        };
        let progress: LevelProgress = LevelProgress {
            cleared: true,
            best_time_ms: Some(
                match before.best_time_ms {
                    Some(best) => best.min(elapsed_ms),
                    None => elapsed_ms,
                },
            ),
            best_commands: Some(
                match before.best_commands {
                    Some(best) => best.min(commands),
                    None => commands,
                },
            ),
        };
        let i: usize = self.entry_index(level_id);
        let entry: LevelEntry = LevelEntry { id: level_id.to_string(), progress };
        let ghost entries = self.levels@;
        let ghost added = entry;
        if i < self.levels.len() {
            self.levels[i] = entry;
            assert forall|id: Seq<char>| #[trigger]
                entry_of(self.levels@, id) == if id == level_id@ {
                    Some(progress)
                } else {
                    entry_of(entries, id)
                } by {
                lemma_entry_updated(entries, i as int, added, id);
            }
        } else {
            self.levels.push(entry);
            assert forall|id: Seq<char>| #[trigger]
                entry_of(self.levels@, id) == if id == level_id@ {
                    Some(progress)
                } else {
                    entry_of(entries, id)
                } by {
                lemma_entry_pushed(entries, added, id);
            }
        }
        self.last_played = Some(level_id.to_string());
        assert(self@.levels =~= old(self)@.recorded(
            level_id@,
            elapsed.millis() as u128,
            commands,
        ).levels);
    }
}

/// A clear never locks a level again, nor takes another clear back.
pub proof fn progress_is_never_lost(
    p: ProgressView,
    cleared: Seq<char>,
    time_ms: u128,
    commands: usize,
    id: Seq<char>,
)
    ensures
        p.unlocked(id) ==> p.recorded(cleared, time_ms, commands).unlocked(id),
        p.cleared(id) ==> p.recorded(cleared, time_ms, commands).cleared(id),
        p.recorded(cleared, time_ms, commands).cleared(cleared),
{
}

/// The best time and the best number of commands never get worse, and are no worse
/// than those of the clear just recorded. Other levels and the settings stay as they
/// are.
pub proof fn bests_only_improve(
    p: ProgressView,
    cleared: Seq<char>,
    time_ms: u128,
    commands: usize,
    other: Seq<char>,
)
    requires
        other != cleared,
    ensures
        ({
            let after = p.recorded(cleared, time_ms, commands);
            &&& after.on_level(cleared).best_time_ms matches Some(best) && best <= time_ms && (
            p.on_level(cleared).best_time_ms matches Some(old_best) ==> best <= old_best)
            &&& after.on_level(cleared).best_commands matches Some(best) && best <= commands && (
            p.on_level(cleared).best_commands matches Some(old_best) ==> best <= old_best)
            &&& after.on_level(other) == p.on_level(other)
            &&& after.color_intense == p.color_intense
            &&& after.menu_arrows == p.menu_arrows
        }),
{
}

/// The order of two clears makes no difference to the bests.
pub proof fn clears_can_be_reordered(
    p: ProgressView,
    a: Seq<char>,
    a_ms: u128,
    a_commands: usize,
    b: Seq<char>,
    b_ms: u128,
    b_commands: usize,
)
    ensures
        p.recorded(a, a_ms, a_commands).recorded(b, b_ms, b_commands).levels == p.recorded(
            b,
            b_ms,
            b_commands,
        ).recorded(a, a_ms, a_commands).levels,
{
    assert(p.recorded(a, a_ms, a_commands).recorded(b, b_ms, b_commands).levels =~= p.recorded(
        b,
        b_ms,
        b_commands,
    ).recorded(a, a_ms, a_commands).levels);
}

/// Each of the later lessons opens with the clear of one level of the lesson before,
/// and with no other.
pub proof fn lessons_open_one_after_the_other(
    p: ProgressView,
    level: Seq<char>,
    cleared: Seq<char>,
    time_ms: u128,
    commands: usize,
)
    ensures
        p.unlocked("1-"@ + level),
        p.recorded("1-2"@, time_ms, commands).unlocked("2-"@ + level),
        p.recorded("2-2"@, time_ms, commands).unlocked("3-"@ + level),
        cleared != "1-2"@ && !p.unlocked("2-"@ + level) ==> !p.recorded(
            cleared,
            time_ms,
            commands,
        ).unlocked("2-"@ + level),
        cleared != "2-2"@ && !p.unlocked("3-"@ + level) ==> !p.recorded(
            cleared,
            time_ms,
            commands,
        ).unlocked("3-"@ + level),
{
    reveal_strlit("1-");
    reveal_strlit("2-");
    reveal_strlit("3-");
    assert(("1-"@ + level)[0] == '1');
    assert(("2-"@ + level)[0] == '2');
    assert(("3-"@ + level)[0] == '3');
    assert("1-"@.is_prefix_of("1-"@ + level));
    assert("2-"@.is_prefix_of("2-"@ + level));
    assert("3-"@.is_prefix_of("3-"@ + level));
}

/// A level is cleared when it is remembered as such. Which levels are unlocked goes by the
/// two characters that their identifiers begin with.
pub proof fn unlocking_goes_by_the_lesson(p: ProgressView, id: Seq<char>)
    ensures
        p.cleared(id) <==> p.levels.contains_key(id) && p.levels[id].cleared,
        p.unlocked(id) <==> id.len() >= 2 && id[1] == '-' && (id[0] == '1' || (id[0] == '2'
            && p.cleared("1-2"@)) || (id[0] == '3' && p.cleared("2-2"@))),
{
    reveal_strlit("1-");
    reveal_strlit("2-");
    reveal_strlit("3-");
    if id.len() >= 2 {
        assert(id.subrange(0, 2) =~= seq![id[0], id[1]]);
        assert("1-"@ =~= seq!['1', '-']);
        assert("2-"@ =~= seq!['2', '-']);
        assert("3-"@ =~= seq!['3', '-']);
        assert(seq!['1', '-'][0] == '1' && seq!['1', '-'][1] == '-');
        assert(seq!['2', '-'][0] == '2' && seq!['2', '-'][1] == '-');
        assert(seq!['3', '-'][0] == '3' && seq!['3', '-'][1] == '-');
        assert(seq![id[0], id[1]][0] == id[0] && seq![id[0], id[1]][1] == id[1]);
    }
}

/// A first clear is remembered as it was, and a further one lowers the time and the number of
/// commands to its own where those are less. It is noted as the level last played, and
/// nothing else changes.
pub proof fn a_clear_is_remembered(
    p: ProgressView,
    id: Seq<char>,
    time_ms: u128,
    commands: usize,
)
    ensures
        ({
            let after = p.recorded(id, time_ms, commands);
            let before = p.levels[id];
            let known = p.levels.contains_key(id);
            &&& after.levels.contains_key(id)
            &&& after.levels[id].cleared
            &&& after.levels[id].best_time_ms == Some(
                if known && (before.best_time_ms matches Some(best) && best < time_ms) {
                    before.best_time_ms->0
                } else {
                    time_ms
                },
            )
            &&& after.levels[id].best_commands == Some(
                if known && (before.best_commands matches Some(best) && best < commands) {
                    before.best_commands->0
                } else {
                    commands
                },
            )
            &&& forall|other: Seq<char>|
                other != id ==> (#[trigger] after.levels.contains_key(other)
                    <==> p.levels.contains_key(other))
            &&& forall|other: Seq<char>|
                other != id && p.levels.contains_key(other) ==> #[trigger] after.levels[other]
                    == p.levels[other]
            &&& after.last_played == Some(id)
            &&& after.color_intense == p.color_intense
            &&& after.menu_arrows == p.menu_arrows
        }),
{
}

/// What is remembered of the levels is what the entries say, one for each level.
pub proof fn entries_are_what_is_remembered(p: Progress, i: int)
    requires
        p.wf(),
    ensures
        0 <= i < p.levels@.len() ==> p@.levels.contains_key(p.levels@[i].id@)
            && p@.levels[p.levels@[i].id@] == p.levels@[i].progress,
        forall|id: Seq<char>| #[trigger]
            p@.levels.contains_key(id) ==> exists|j: int|
                0 <= j < p.levels@.len() && (#[trigger] p.levels@[j]).id@ == id,
{
    if 0 <= i < p.levels@.len() {
        lemma_entry_before(p.levels@, p.levels@[i].id@, i);
        assert(p.levels@.skip(i).first() == p.levels@[i]);
    }
    assert forall|id: Seq<char>| #[trigger] p@.levels.contains_key(id) implies exists|j: int|
        0 <= j < p.levels@.len() && (#[trigger] p.levels@[j]).id@ == id by {
        if forall|j: int| 0 <= j < p.levels@.len() ==> (#[trigger] p.levels@[j]).id@ != id {
            lemma_entry_before(p.levels@, id, p.levels@.len() as int);
        }
    }
}

} // verus!
