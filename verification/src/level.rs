//! What a level is made of, before it is played.

use crate::command::CommandSet;
use crate::pos::Pos;
use crate::text;
use vstd::prelude::*;

verus! {

/// A grid of floor and walls to cross.
#[derive(Debug, Clone, Copy, PartialEq, Eq, Structural)]
pub struct GridSpec {
    pub width: usize,
    pub height: usize,
    pub start: Pos,
    pub goal: Pos,
    pub command_budget: usize,
    pub lava: bool,
    pub lava_interval_ms: Option<u64>,
    pub generated: bool,
    pub mastery: bool,
}

impl GridSpec {
    /// Start and goal lie on the grid, and a generated one has room to carve.
    pub open spec fn wf(self) -> bool {
        &&& self.start.x < self.width && self.start.y < self.height
        &&& self.goal.x < self.width && self.goal.y < self.height
        &&& self.generated ==> self.width >= 2 && self.height >= 2
    }
}

/// A text with targets to visit in order, each given as row and column.
#[derive(Debug)]
pub struct TokenSpec {
    pub lines: Vec<&'static str>,
    pub targets: Vec<(usize, usize)>,
    pub command_budget: usize,
    pub timer_seconds: Option<u64>,
    pub generated: bool,
}

/// What a [`TokenSpec`] holds.
#[verifier::ext_equal]
pub struct TokenSpecView {
    pub lines: Seq<Seq<char>>,
    pub targets: Seq<(usize, usize)>,
    pub command_budget: usize,
    pub timer_seconds: Option<u64>,
    pub generated: bool,
}

impl View for TokenSpec {
    type V = TokenSpecView;

    open spec fn view(&self) -> TokenSpecView {
        TokenSpecView {
            lines: text::strs_view(self.lines@),
            targets: self.targets@,
            command_budget: self.command_budget,
            timer_seconds: self.timer_seconds,
            generated: self.generated,
        }
    }
}

impl Clone for TokenSpec {
    fn clone(&self) -> (copy: Self)
        ensures
            copy@ == self@,
    {
        let lines: Vec<&'static str> = copy_strs(&self.lines);
        let targets: Vec<(usize, usize)> = copy_pairs(&self.targets);
        Self {
            lines,
            targets,
            command_budget: self.command_budget,
            timer_seconds: self.timer_seconds,
            generated: self.generated,
        }
    }
}

/// A text to turn into another one.
#[derive(Debug)]
pub struct EditSpec {
    pub start: Vec<&'static str>,
    pub expected: Vec<&'static str>,
    pub cursor: Pos,
    pub command_budget: usize,
    pub timer_seconds: Option<u64>,
}

/// What an [`EditSpec`] holds.
#[verifier::ext_equal]
pub struct EditSpecView {
    pub start: Seq<Seq<char>>,
    pub expected: Seq<Seq<char>>,
    pub cursor: Pos,
    pub command_budget: usize,
    pub timer_seconds: Option<u64>,
}

impl EditSpecView {
    /// The cursor starts on a line, at most just past its end.
    pub open spec fn wf(self) -> bool {
        &&& self.cursor.y < self.start.len()
        &&& self.cursor.x <= self.start[self.cursor.y as int].len()
    }
}

impl View for EditSpec {
    type V = EditSpecView;

    open spec fn view(&self) -> EditSpecView {
        EditSpecView {
            start: text::strs_view(self.start@),
            expected: text::strs_view(self.expected@),
            cursor: self.cursor,
            command_budget: self.command_budget,
            timer_seconds: self.timer_seconds,
        }
    }
}

impl Clone for EditSpec {
    fn clone(&self) -> (copy: Self)
        ensures
            copy@ == self@,
    {
        Self {
            start: copy_strs(&self.start),
            expected: copy_strs(&self.expected),
            cursor: self.cursor,
            command_budget: self.command_budget,
            timer_seconds: self.timer_seconds,
        }
    }
}

/// The three kinds of level.
#[derive(Debug)]
pub enum LevelKind {
    Grid(GridSpec),
    Token(TokenSpec),
    Edit(EditSpec),
}

/// What a [`LevelKind`] holds.
#[verifier::ext_equal]
pub enum LevelKindView {
    Grid(GridSpec),
    Token(TokenSpecView),
    Edit(EditSpecView),
}

impl LevelKindView {
    /// The level can be set up: a grid has its start and goal on it.
    pub open spec fn can_start(self) -> bool {
        self matches LevelKindView::Grid(spec) ==> spec.wf()
    }

    /// The level can be set up and played.
    pub open spec fn wf(self) -> bool {
        match self {
            LevelKindView::Grid(spec) => spec.wf(),
            LevelKindView::Token(_) => true,
            LevelKindView::Edit(spec) => spec.wf(),
        }
    }
}

impl View for LevelKind {
    type V = LevelKindView;

    open spec fn view(&self) -> LevelKindView {
        match self {
            LevelKind::Grid(spec) => LevelKindView::Grid(*spec),
            LevelKind::Token(spec) => LevelKindView::Token(spec@),
            LevelKind::Edit(spec) => LevelKindView::Edit(spec@),
        }
    }
}

impl Clone for LevelKind {
    fn clone(&self) -> (copy: Self)
        ensures
            copy@ == self@,
    {
        match self {
            LevelKind::Grid(spec) => LevelKind::Grid(*spec),
            LevelKind::Token(spec) => LevelKind::Token(spec.clone()),
            LevelKind::Edit(spec) => LevelKind::Edit(spec.clone()),
        }
    }
}

/// A level of a lesson.
#[derive(Debug)]
pub struct Level {
    pub id: String,
    pub title: &'static str,
    pub lesson: u8,
    pub kind: LevelKind,
    pub required_to_unlock_next: bool,
}

/// What a [`Level`] holds.
#[verifier::ext_equal]
pub struct LevelView {
    pub id: Seq<char>,
    pub title: Seq<char>,
    pub lesson: u8,
    pub kind: LevelKindView,
    pub required_to_unlock_next: bool,
}

impl View for Level {
    type V = LevelView;

    open spec fn view(&self) -> LevelView {
        LevelView {
            id: self.id@,
            title: self.title@,
            lesson: self.lesson,
            kind: self.kind@,
            required_to_unlock_next: self.required_to_unlock_next,
        }
    }
}

impl Clone for Level {
    fn clone(&self) -> (copy: Self)
        ensures
            copy@ == self@,
    {
        Self {
            id: self.id.clone(),
            title: self.title,
            lesson: self.lesson,
            kind: self.kind.clone(),
            required_to_unlock_next: self.required_to_unlock_next,
        }
    }
}

/// A lesson: a vocabulary and the levels that practise it.
#[derive(Debug)]
pub struct Lesson {
    pub number: u8,
    pub title: &'static str,
    pub commands: CommandSet,
    pub levels: Vec<Level>,
}

/// What a [`Lesson`] holds.
#[verifier::ext_equal]
pub struct LessonView {
    pub number: u8,
    pub title: Seq<char>,
    pub commands: CommandSet,
    pub levels: Seq<LevelView>,
}

/// What each level holds.
pub open spec fn levels_view(levels: Seq<Level>) -> Seq<LevelView> {
    Seq::new(levels.len(), |i: int| levels[i]@)
}

impl View for Lesson {
    type V = LessonView;

    open spec fn view(&self) -> LessonView {
        LessonView {
            number: self.number,
            title: self.title@,
            commands: self.commands,
            levels: levels_view(self.levels@),
        }
    }
}

impl Clone for Lesson {
    fn clone(&self) -> (copy: Self)
        ensures
            copy@ == self@,
    {
        let mut levels: Vec<Level> = Vec::new();
        let mut i: usize = 0;
        while i < self.levels.len()
            invariant
                i <= self.levels@.len(),
                levels@.len() == i,
                forall|j: int| 0 <= j < i ==> levels@[j]@ == self.levels@[j]@,
            decreases self.levels@.len() - i,
        {
            levels.push(self.levels[i].clone());
            i += 1;
        }
        assert(levels_view(levels@) =~= levels_view(self.levels@));
        Self { number: self.number, title: self.title, commands: self.commands, levels }
    }
}

fn copy_strs(lines: &Vec<&'static str>) -> (copy: Vec<&'static str>)
    ensures
        copy@ == lines@,
{
    let mut copy: Vec<&'static str> = Vec::new();
    let mut i: usize = 0;
    while i < lines.len()
        invariant
            i <= lines@.len(),
            copy@ == lines@.take(i as int),
        decreases lines@.len() - i,
    {
        copy.push(lines[i]);
        i += 1;
    }
    copy
}

fn copy_pairs(pairs: &Vec<(usize, usize)>) -> (copy: Vec<(usize, usize)>)
    ensures
        copy@ == pairs@,
{
    let mut copy: Vec<(usize, usize)> = Vec::new();
    let mut i: usize = 0;
    while i < pairs.len()
        invariant
            i <= pairs@.len(),
            copy@ == pairs@.take(i as int),
        decreases pairs@.len() - i,
    {
        copy.push(pairs[i]);
        i += 1;
    }
    copy
}

} // verus!
