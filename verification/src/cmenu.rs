//! The context menu: sets of options, each drawn as a range of frames of
//! one graphic (the first frame with nothing selected, then one frame per
//! option with that option reversed), the selection moving round a set's
//! frames, and the option chosen by its number.
use vstd::prelude::*;

verus! {

/// A set's range of frames: the frame with nothing selected, and the last.
#[derive(Clone, Copy, Debug, PartialEq, Eq, Structural)]
pub struct FrameSet {
    pub starting_frame: usize,
    pub last_frame: usize,
}

/// The frame after `current`: round the frames that select an option;
/// a set without options stays on its only frame.
pub open spec fn spec_next_frame(s: FrameSet, current: int) -> int {
    if s.starting_frame == s.last_frame {
        s.starting_frame as int
    } else if current >= s.last_frame {
        s.starting_frame + 1
    } else {
        current + 1
    }
}

/// The frame before `current`: round the frames that select an option;
/// a set without options stays on its only frame.
pub open spec fn spec_prev_frame(s: FrameSet, current: int) -> int {
    if s.starting_frame == s.last_frame {
        s.starting_frame as int
    } else if current <= s.starting_frame + 1 {
        s.last_frame as int
    } else {
        current - 1
    }
}

impl FrameSet {
    pub fn next_frame(&self, current: usize) -> (r: usize)
        requires
            self.starting_frame <= self.last_frame,
        ensures
            r == spec_next_frame(*self, current as int),
    {
        if self.starting_frame == self.last_frame {
            self.starting_frame
        } else if current >= self.last_frame {
            self.starting_frame + 1
        } else {
            current + 1
        }
    }

    pub fn prev_frame(&self, current: usize) -> (r: usize)
        requires
            self.starting_frame <= self.last_frame,
        ensures
            r == spec_prev_frame(*self, current as int),
    {
        if self.starting_frame == self.last_frame {
            self.starting_frame
        } else if current <= self.starting_frame + 1 {
            self.last_frame
        } else {
            current - 1
        }
    }
}

/// On a frame that selects an option, a step down is undone by a step up,
/// and a step up by a step down.
pub proof fn lemma_frame_steps_undo(s: FrameSet, current: int)
    requires
        s.starting_frame < s.last_frame,
        s.starting_frame < current <= s.last_frame,
    ensures
        spec_prev_frame(s, spec_next_frame(s, current)) == current,
        spec_next_frame(s, spec_prev_frame(s, current)) == current,
{
}

/// What a key asks of the menu shown.
#[derive(Clone, Copy, Debug, PartialEq, Eq, Structural)]
pub enum MenuKey {
    Up,
    Down,
    /// Choose the option selected.
    Choose,
    /// Close with no choice.
    Escape,
    Other,
}

/// The context menu: its graphic and size, the set shown, the last set's
/// id, and the sets by id.
#[derive(Debug)]
pub struct CMenu {
    pub g_id: usize,
    pub width: usize,
    pub height: usize,
    pub current_set: FrameSet,
    pub last_defined_set: usize,
    pub defined_sets: Vec<FrameSet>,
}

/// The set shown for id `id`: the set of that id, the empty set 0 for an
/// id not defined.
pub open spec fn set_for(m: CMenu, id: int) -> FrameSet {
    if id > m.last_defined_set {
        m.defined_sets@[0]
    } else {
        m.defined_sets@[id]
    }
}

/// The characters that a row of the menu shows for an option's text: its
/// first characters, the rest of the row blank.
pub open spec fn row_chars(width: int, text: Seq<char>) -> Seq<Option<char>> {
    Seq::new(width as nat, |x: int| if x < text.len() { Some(text[x]) } else { None })
}

impl CMenu {
    /// The sets are the ids `0..=last_defined_set`, each a range of frames.
    pub open spec fn wf(&self) -> bool {
        &&& self.defined_sets@.len() == self.last_defined_set + 1
        &&& forall|i: int| 0 <= i < self.defined_sets@.len() ==> (#[trigger] self.defined_sets@[i]).starting_frame
            <= self.defined_sets@[i].last_frame
        &&& self.current_set.starting_frame <= self.current_set.last_frame
    }

    /// A menu of 15 by 8 cells on graphic `g_id`, with only the empty set 0.
    pub fn new(g_id: usize) -> (m: CMenu)
        ensures
            m.wf(),
            m.g_id == g_id,
            m.width == 15,
            m.height == 8,
            m.last_defined_set == 0,
            m.defined_sets@ == seq![FrameSet { starting_frame: 0, last_frame: 0 }],
            m.current_set == (FrameSet { starting_frame: 0, last_frame: 0 }),
    {
        let mut defined_sets: Vec<FrameSet> = Vec::new();
        defined_sets.push(FrameSet { starting_frame: 0, last_frame: 0 });
        CMenu {
            g_id,
            width: 15,
            height: 8,
            current_set: FrameSet { starting_frame: 0, last_frame: 0 },
            last_defined_set: 0,
            defined_sets,
        }
    }

    /// Shows set `id` (see `set_for`): the frame to show first.
    pub fn choose_set(&mut self, id: usize) -> (frame: usize)
        requires
            old(self).wf(),
        ensures
            final(self).wf(),
            final(self).current_set == set_for(*old(self), id as int),
            frame == final(self).current_set.starting_frame,
            final(self).defined_sets == old(self).defined_sets,
            final(self).last_defined_set == old(self).last_defined_set,
    {
        self.current_set = if id > self.last_defined_set {
            self.defined_sets[0]
        } else {
            self.defined_sets[id]
        };
        self.current_set.starting_frame
    }

    /// Answers a key while the set shown is on frame `selection`: the next
    /// frame to show, and, when the menu closes, the number of the option
    /// chosen (0 for none).
    pub fn menu_key(&self, selection: usize, key: MenuKey) -> (r: (usize, Option<usize>))
        requires
            self.wf(),
            self.current_set.starting_frame <= selection,
        ensures
            match key {
                MenuKey::Up => r == (spec_prev_frame(self.current_set, selection as int) as usize, None::<usize>),
                MenuKey::Down => r == (spec_next_frame(self.current_set, selection as int) as usize, None::<usize>),
                MenuKey::Choose => r == (0usize, Some((selection - self.current_set.starting_frame) as usize)),
                MenuKey::Escape => r == (0usize, Some(0usize)),
                MenuKey::Other => r == (selection, None::<usize>),
            },
    {
        match key {
            MenuKey::Up => (self.current_set.prev_frame(selection), None),
            MenuKey::Down => (self.current_set.next_frame(selection), None),
            MenuKey::Choose => (0, Some(selection - self.current_set.starting_frame)),
            MenuKey::Escape => (0, Some(0)),
            MenuKey::Other => (selection, None),
        }
    }

    /// Whether a set of `n` options gets frames: it needs at least one
    /// option and no more than the menu's rows.
    pub fn takes_options(&self, n: usize) -> (b: bool)
        ensures
            b == (n > 0 && n <= self.height),
    {
        n > 0 && n <= self.height
    }

    /// Records the frames made for a new set, which gets the next id.
    pub fn register_set(&mut self, starting_frame: usize, last_frame: usize) -> (id: usize)
        requires
            old(self).wf(),
            starting_frame <= last_frame,
            old(self).last_defined_set < usize::MAX,
        ensures
            final(self).wf(),
            id == old(self).last_defined_set + 1,
            final(self).last_defined_set == id,
            final(self).defined_sets@ == old(self).defined_sets@.push(FrameSet { starting_frame, last_frame }),
            final(self).current_set == old(self).current_set,
    {
        self.last_defined_set = self.last_defined_set + 1;
        self.defined_sets.push(FrameSet { starting_frame, last_frame });
        self.last_defined_set
    }

    /// The characters of a row for an option's text (see `row_chars`).
    pub fn row_glyphs(&self, text: &Vec<char>) -> (r: Vec<Option<char>>)
        ensures
            r@ == row_chars(self.width as int, text@),
    {
        let mut r: Vec<Option<char>> = Vec::new();
        let mut x: usize = 0;
        while x < self.width
            invariant
                x <= self.width,
                r@ == row_chars(x as int, text@),
            decreases self.width - x,
        {
            if x < text.len() {
                r.push(Some(text[x]));
            } else {
                r.push(None);
            }
            x = x + 1;
            proof {
                assert(r@ =~= row_chars(x as int, text@));
            }
        }
        r
    }
}

} // verus!
