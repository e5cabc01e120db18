//! The catalogue of lessons: finding a level, and the one to play next.

use crate::lessons;
use crate::level::{Lesson, LessonView, Level, LevelView};
use crate::progress::{Progress, ProgressView};
use crate::text;
use vstd::prelude::*;

verus! {

/// All lessons.
#[derive(Debug)]
pub struct Catalog {
    pub lessons: Vec<Lesson>,
}

/// What a [`Catalog`] holds.
#[verifier::ext_equal]
pub struct CatalogView {
    pub lessons: Seq<LessonView>,
}

/// What each lesson holds.
pub open spec fn lessons_view(lessons: Seq<Lesson>) -> Seq<LessonView> {
    Seq::new(lessons.len(), |i: int| lessons[i]@)
}

/// What each borrowed level holds.
pub open spec fn borrowed_view(levels: Seq<&Level>) -> Seq<LevelView> {
    Seq::new(levels.len(), |i: int| levels[i]@)
}

impl View for Catalog {
    type V = CatalogView;

    open spec fn view(&self) -> CatalogView {
        CatalogView { lessons: lessons_view(self.lessons@) }
    }
}

/// The levels of `lessons`, lesson after lesson.
pub open spec fn levels_of(lessons: Seq<LessonView>) -> Seq<LevelView>
    decreases lessons.len(),
{
    if lessons.len() == 0 {
        Seq::empty()
    } else {
        levels_of(lessons.drop_last()) + lessons.last().levels
    }
}

/// The first of `levels` that is wanted, if any is.
pub open spec fn first_wanted(levels: Seq<LevelView>, wanted: spec_fn(LevelView) -> bool) -> Option<
    LevelView,
>
    decreases levels.len(),
{
    if levels.len() == 0 {
        None
    } else if wanted(levels.first()) {
        Some(levels.first())
    } else {
        first_wanted(levels.drop_first(), wanted)
    }
}

/// The level has this identifier.
pub open spec fn named(id: Seq<char>) -> spec_fn(LevelView) -> bool {
    |level: LevelView| level.id == id
}

/// The level can be played.
pub open spec fn playable(progress: ProgressView) -> spec_fn(LevelView) -> bool {
    |level: LevelView| progress.unlocked(level.id)
}

/// The level can be played, and has not been cleared.
pub open spec fn still_open(progress: ProgressView) -> spec_fn(LevelView) -> bool {
    |level: LevelView| progress.unlocked(level.id) && !progress.cleared(level.id)
}

impl CatalogView {
    /// The three lessons.
    pub open spec fn full() -> CatalogView {
        CatalogView { lessons: seq![LessonView::one(), LessonView::two(), LessonView::three()] }
    }

    /// All levels, lesson after lesson.
    pub open spec fn levels(self) -> Seq<LevelView> {
        levels_of(self.lessons)
    }

    /// The level with this identifier, if there is one.
    pub open spec fn find(self, id: Seq<char>) -> Option<LevelView> {
        first_wanted(self.levels(), named(id))
    }

    /// The level to play next: the first playable one that has not been cleared, or
    /// the first playable one.
    pub open spec fn recommended(self, progress: ProgressView) -> Option<LevelView> {
        match first_wanted(self.levels(), still_open(progress)) {
            Some(level) => Some(level),
            None => first_wanted(self.levels(), playable(progress)),
        }
    }

    /// There is a level, and each level can be played.
    pub open spec fn wf(self) -> bool {
        &&& self.levels().len() > 0
        &&& forall|i: int| 0 <= i < self.levels().len() ==> (#[trigger] self.levels()[i]).kind.wf()
    }
}

proof fn lemma_first_wanted(levels: Seq<LevelView>, wanted: spec_fn(LevelView) -> bool, i: int)
    requires
        0 <= i <= levels.len(),
        forall|j: int| 0 <= j < i ==> !wanted(#[trigger] levels[j]),
        i < levels.len() ==> wanted(levels[i]),
    ensures
        first_wanted(levels, wanted) == if i < levels.len() {
            Some(levels[i])
        } else {
            None
        },
    decreases i,
{
    if i > 0 {
        assert(!wanted(levels[0]));
        assert forall|j: int| 0 <= j < i - 1 implies !wanted(
            #[trigger] levels.drop_first()[j],
        ) by {
            assert(levels.drop_first()[j] == levels[j + 1]);
        }
        lemma_first_wanted(levels.drop_first(), wanted, i - 1);
    }
}

proof fn lemma_found(levels: Seq<LevelView>, wanted: spec_fn(LevelView) -> bool)
    ensures
        match first_wanted(levels, wanted) {
            Some(level) => levels.contains(level) && wanted(level),
            None => forall|i: int| 0 <= i < levels.len() ==> !wanted(#[trigger] levels[i]),
        },
    decreases levels.len(),
{
    if levels.len() > 0 {
        if wanted(levels.first()) {
            assert(levels[0] == levels.first());
        } else {
            lemma_found(levels.drop_first(), wanted);
            assert forall|i: int| 0 < i < levels.len() implies levels[i]
                == #[trigger] levels.drop_first()[i - 1] by {}
            match first_wanted(levels.drop_first(), wanted) {
                Some(level) => {
                    let i = choose|i: int|
                        0 <= i < levels.drop_first().len() && levels.drop_first()[i] == level;
                    assert(levels[i + 1] == level);
                },
                None => {
                    assert forall|i: int| 0 <= i < levels.len() implies !wanted(
                        #[trigger] levels[i],
                    ) by {
                        if i > 0 {
                            assert(levels[i] == levels.drop_first()[i - 1]);
                        }
                    }
                },
            }
        }
    }
}

impl Clone for Catalog {
    fn clone(&self) -> (copy: Self)
        ensures
            copy@ == self@,
    {
        let mut lessons: Vec<Lesson> = Vec::new();
        let mut i: usize = 0;
        while i < self.lessons.len()
            invariant
                i <= self.lessons@.len(),
                lessons@.len() == i,
                forall|j: int| 0 <= j < i ==> lessons@[j]@ == self.lessons@[j]@,
            decreases self.lessons@.len() - i,
        {
            lessons.push(self.lessons[i].clone());
            i += 1;
        }
        assert(lessons_view(lessons@) =~= lessons_view(self.lessons@));
        Self { lessons }
    }
}

impl Catalog {
    /// The catalogue of the game.
    pub fn new() -> (catalog: Self)
        ensures
            catalog@ == CatalogView::full(),
            catalog@.wf(),
    {
        let catalog: Catalog = Self {
            lessons: vec![lessons::lesson_one(), lessons::lesson_two(), lessons::lesson_three()],
        };
        assert(catalog@ =~= CatalogView::full());
        proof {
            every_level_can_be_played();
        }
        catalog
    }

    /// All levels, lesson after lesson.
    pub fn all_levels(&self) -> (levels: Vec<&Level>)
        ensures
            borrowed_view(levels@) == self@.levels(),
    {
        let mut levels: Vec<&Level> = Vec::new();
        assert(borrowed_view(levels@) =~= levels_of(self@.lessons.take(0)));
        let mut i: usize = 0;
        while i < self.lessons.len()
            invariant
                i <= self.lessons@.len(),
                borrowed_view(levels@) == levels_of(self@.lessons.take(i as int)),
            decreases self.lessons@.len() - i,
        {
            let lesson: &Lesson = &self.lessons[i];
            let mut j: usize = 0;
            while j < lesson.levels.len()
                invariant
                    j <= lesson.levels@.len(),
                    borrowed_view(levels@) == levels_of(self@.lessons.take(i as int))
                        + lesson@.levels.take(j as int),
                decreases lesson.levels@.len() - j,
            {
                let ghost before = borrowed_view(levels@);
                levels.push(&lesson.levels[j]);
                assert(borrowed_view(levels@) =~= before.push(lesson@.levels[j as int]));
                assert(lesson@.levels.take(j + 1) =~= lesson@.levels.take(j as int).push(
                    lesson@.levels[j as int],
                ));
                j += 1;
            }
            i += 1;
            assert(lesson@.levels.take(j as int) =~= lesson@.levels);
            assert(self@.lessons.take(i as int).drop_last() =~= self@.lessons.take(i - 1));
        }
        assert(self@.lessons.take(i as int) =~= self@.lessons);
        levels
    }

    /// The level with this identifier, if there is one.
    pub fn level(&self, id: &str) -> (level: Option<&Level>)
        ensures
            match level {
                Some(level) => self@.find(id@) == Some(level@),
                None => self@.find(id@) is None,
            },
    {
        let levels: Vec<&Level> = self.all_levels();
        let mut i: usize = 0;
        while i < levels.len()
            invariant
                i <= levels@.len(),
                borrowed_view(levels@) == self@.levels(),
                forall|j: int| 0 <= j < i ==> (#[trigger] self@.levels()[j]).id != id@,
            decreases levels@.len() - i,
        {
            let level: &Level = levels[i];
            assert(level@ == self@.levels()[i as int]);
            if text::same_text(level.id.as_str(), id) {
                proof {
                    lemma_first_wanted(self@.levels(), named(id@), i as int);
                }
                return Some(level);
            }
            i += 1;
        }
        proof {
            lemma_first_wanted(self@.levels(), named(id@), i as int);
        }
        None
    }

    /// The level to play next, if any can be played.
    pub fn next_recommended(&self, progress: &Progress) -> (level: Option<&Level>)
        ensures
            match level {
                Some(level) => self@.recommended(progress@) == Some(level@),
                None => self@.recommended(progress@) is None,
            },
    {
        let levels: Vec<&Level> = self.all_levels();
        let mut i: usize = 0;
        while i < levels.len()
            invariant
                i <= levels@.len(),
                borrowed_view(levels@) == self@.levels(),
                forall|j: int|
                    0 <= j < i ==> !still_open(progress@)(#[trigger] self@.levels()[j]),
            decreases levels@.len() - i,
        {
            let level: &Level = levels[i];
            assert(level@ == self@.levels()[i as int]);
            if progress.is_unlocked(level.id.as_str()) && !progress.is_cleared(level.id.as_str()) {
                proof {
                    lemma_first_wanted(self@.levels(), still_open(progress@), i as int);
                }
                return Some(level);
            }
            i += 1;
        }
        proof {
            lemma_first_wanted(self@.levels(), still_open(progress@), i as int);
        }
        let mut k: usize = 0;
        while k < levels.len()
            invariant
                k <= levels@.len(),
                borrowed_view(levels@) == self@.levels(),
                first_wanted(self@.levels(), still_open(progress@)) is None,
                forall|j: int| 0 <= j < k ==> !playable(progress@)(#[trigger] self@.levels()[j]),
            decreases levels@.len() - k,
        {
            let level: &Level = levels[k];
            assert(level@ == self@.levels()[k as int]);
            if progress.is_unlocked(level.id.as_str()) {
                proof {
                    lemma_first_wanted(self@.levels(), playable(progress@), k as int);
                }
                return Some(level);
            }
            k += 1;
        }
        proof {
            lemma_first_wanted(self@.levels(), playable(progress@), k as int);
        }
        None
    }
}

/// The levels of the catalogue, one by one.
pub proof fn levels_in_order()
    ensures
        CatalogView::full().levels() == seq![
            LevelView::warm_floor(),
            LevelView::count_crates(),
            LevelView::rising_lava_vault(),
            LevelView::ember_sprint(),
            LevelView::token_tracks(),
            LevelView::symbol_switchyard(),
            LevelView::refactor_route(),
            LevelView::stack_trace_chase(),
            LevelView::first_patch(),
            LevelView::bug_clinic(),
            LevelView::broken_build_bay(),
            LevelView::undo_lab(),
        ],
{
    let full = CatalogView::full().lessons;
    let two = full.drop_last();
    let one = two.drop_last();
    assert(levels_of(one.drop_last()) =~= Seq::empty());
    assert(levels_of(one) =~= LessonView::one().levels);
    assert(levels_of(two) =~= LessonView::one().levels + LessonView::two().levels);
    assert(levels_of(full) =~= LessonView::one().levels + LessonView::two().levels
        + LessonView::three().levels);
}

/// There is a level, and each level of the catalogue can be played.
pub proof fn every_level_can_be_played()
    ensures
        CatalogView::full().wf(),
{
    levels_in_order();
    reveal_strlit("    let mesage = \"ship\";");
    reveal_strlit("    retun patch.count()");
    reveal_strlit("fn mainn() {");
    reveal_strlit("let target = \"wrong\";");
}

/// The level to play next is always there, and can be played.
pub proof fn something_is_recommended(progress: ProgressView)
    ensures
        CatalogView::full().recommended(progress) matches Some(level)
            && CatalogView::full().levels().contains(level) && progress.unlocked(level.id),
{
    levels_in_order();
    let levels = CatalogView::full().levels();
    recommended_is_playable(CatalogView::full(), progress);
    lemma_found(levels, playable(progress));
    reveal_strlit("1-0");
    reveal_strlit("1-");
    assert("1-"@.is_prefix_of("1-0"@));
    assert(playable(progress)(levels[0]));
}

/// A recommended level is one of the catalogue, and can be played.
pub proof fn recommended_is_playable(catalog: CatalogView, progress: ProgressView)
    ensures
        catalog.recommended(progress) matches Some(level) ==> catalog.levels().contains(level)
            && progress.unlocked(level.id),
{
    lemma_found(catalog.levels(), still_open(progress));
    lemma_found(catalog.levels(), playable(progress));
}

/// No cleared level is recommended as long as a playable one has not been cleared.
pub proof fn open_levels_come_first(catalog: CatalogView, progress: ProgressView, i: int)
    requires
        0 <= i < catalog.levels().len(),
        progress.unlocked(catalog.levels()[i].id),
        !progress.cleared(catalog.levels()[i].id),
    ensures
        catalog.recommended(progress) matches Some(level) && !progress.cleared(level.id),
{
    lemma_found(catalog.levels(), still_open(progress));
    assert(still_open(progress)(catalog.levels()[i]));
}

/// Looking a level up gives one with that identifier, and gives one whenever there
/// is one.
pub proof fn lookup_finds_what_is_there(catalog: CatalogView, id: Seq<char>)
    ensures
        match catalog.find(id) {
            Some(level) => catalog.levels().contains(level) && level.id == id,
            None => forall|i: int|
                0 <= i < catalog.levels().len() ==> (#[trigger] catalog.levels()[i]).id != id,
        },
{
    lemma_found(catalog.levels(), named(id));
    if catalog.find(id) is None {
        assert forall|i: int| 0 <= i < catalog.levels().len() implies (
        #[trigger] catalog.levels()[i]).id != id by {
            assert(!named(id)(catalog.levels()[i]));
        }
    }
}

/// The levels of lessons stand one lesson after the other, each with its levels in order.
pub proof fn lessons_follow_one_another(lessons: Seq<LessonView>, last: LessonView)
    ensures
        levels_of(Seq::empty()) == Seq::<LevelView>::empty(),
        levels_of(lessons.push(last)) == levels_of(lessons) + last.levels,
{
    assert(lessons.push(last).drop_last() =~= lessons);
}

/// Looking an identifier up gives the first level that has it.
pub proof fn lookup_gives_the_first(catalog: CatalogView, id: Seq<char>, i: int)
    requires
        0 <= i < catalog.levels().len(),
        catalog.levels()[i].id == id,
        forall|j: int| 0 <= j < i ==> (#[trigger] catalog.levels()[j]).id != id,
    ensures
        catalog.find(id) == Some(catalog.levels()[i]),
{
    assert forall|j: int| 0 <= j < i implies !named(id)(#[trigger] catalog.levels()[j]) by {}
    lemma_first_wanted(catalog.levels(), named(id), i);
}

/// The level to play next is the first that can be played and has not been cleared.
pub proof fn the_first_open_level_comes_next(catalog: CatalogView, progress: ProgressView, i: int)
    requires
        0 <= i < catalog.levels().len(),
        progress.unlocked(catalog.levels()[i].id),
        !progress.cleared(catalog.levels()[i].id),
        forall|j: int|
            0 <= j < i ==> !progress.unlocked((#[trigger] catalog.levels()[j]).id)
                || progress.cleared(catalog.levels()[j].id),
    ensures
        catalog.recommended(progress) == Some(catalog.levels()[i]),
{
    assert forall|j: int| 0 <= j < i implies !still_open(progress)(
        #[trigger] catalog.levels()[j],
    ) by {}
    lemma_first_wanted(catalog.levels(), still_open(progress), i);
}

/// Where every level that can be played has been cleared, the first of them comes next, and
/// where none can be played, none does.
pub proof fn a_cleared_game_starts_over(catalog: CatalogView, progress: ProgressView, i: int)
    requires
        0 <= i <= catalog.levels().len(),
        forall|j: int|
            0 <= j < catalog.levels().len() ==> !progress.unlocked(
                (#[trigger] catalog.levels()[j]).id,
            ) || progress.cleared(catalog.levels()[j].id),
        forall|j: int| 0 <= j < i ==> !progress.unlocked((#[trigger] catalog.levels()[j]).id),
        i < catalog.levels().len() ==> progress.unlocked(catalog.levels()[i].id),
    ensures
        i < catalog.levels().len() ==> catalog.recommended(progress) == Some(catalog.levels()[i]),
        i == catalog.levels().len() ==> catalog.recommended(progress) is None,
{
    let levels = catalog.levels();
    assert forall|j: int| 0 <= j < levels.len() implies !still_open(progress)(
        #[trigger] levels[j],
    ) by {}
    lemma_first_wanted(levels, still_open(progress), levels.len() as int);
    assert forall|j: int| 0 <= j < i implies !playable(progress)(#[trigger] levels[j]) by {}
    lemma_first_wanted(levels, playable(progress), i);
}

} // verus!
