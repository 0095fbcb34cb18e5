//! Menu and entry button logic of the forum screen: which menu is shown,
//! which button is selected, and what pressing Enter asks the forum to do.
use crate::button::{Button, ButtonCmd, ButtonOp};
use vstd::prelude::*;
use vstd::string::*;

verus! {

/// The menus the forum screen can show.
#[derive(Clone, Copy, Debug, PartialEq, Eq, Structural)]
pub enum MenuType {
    Main,
    Topic,
    Settings,
    Requests,
    RunningPolicies,
    RunningCapabilities,
    RunningByteSets,
    StoredPolicies,
    StoredCapabilities,
    StoredByteSets,
    Capability,
}

/// How many menus there are.
pub const MENU_COUNT: usize = 11;

/// How many menu buttons a menu has.
pub const MENU_BUTTONS: usize = 7;

/// How many entry buttons a screen of `rows` rows holds: one on every
/// other row below the four rows of the menu.
pub fn entries_for_rows(rows: usize) -> (n: usize)
    requires
        rows >= 4,
    ensures
        n == (rows - 4) / 2,
{
    (rows - 4) / 2
}

/// Where entry button `i` stands on a screen `cols` wide: its size (the
/// width but two columns, one row) and its position (column 1, every other
/// row from row 4).
pub fn entry_button_place(cols: usize, i: usize) -> (r: ((usize, usize), (usize, usize)))
    requires
        cols >= 2,
        4 + 2 * i <= usize::MAX,
    ensures
        r == (((cols - 2) as usize, 1usize), (1usize, (4 + 2 * i) as usize)),
{
    ((cols - 2, 1), (1, 4 + 2 * i))
}

/// The slot of a menu in the configuration table.
pub open spec fn menu_index(m: MenuType) -> int {
    match m {
        MenuType::Main => 0,
        MenuType::Topic => 1,
        MenuType::Settings => 2,
        MenuType::Requests => 3,
        MenuType::RunningPolicies => 4,
        MenuType::RunningCapabilities => 5,
        MenuType::RunningByteSets => 6,
        MenuType::StoredPolicies => 7,
        MenuType::StoredCapabilities => 8,
        MenuType::StoredByteSets => 9,
        MenuType::Capability => 10,
    }
}

pub fn menu_index_of(m: MenuType) -> (r: usize)
    ensures
        r == menu_index(m),
        r < MENU_COUNT,
{
    match m {
        MenuType::Main => 0,
        MenuType::Topic => 1,
        MenuType::Settings => 2,
        MenuType::Requests => 3,
        MenuType::RunningPolicies => 4,
        MenuType::RunningCapabilities => 5,
        MenuType::RunningByteSets => 6,
        MenuType::StoredPolicies => 7,
        MenuType::StoredCapabilities => 8,
        MenuType::StoredByteSets => 9,
        MenuType::Capability => 10,
    }
}

/// Whether a button is shown, and with which label.
#[derive(Debug)]
pub enum ButtonState {
    Hide,
    Show(String),
}

impl ButtonState {
    pub open spec fn is_show(&self) -> bool {
        self is Show
    }

    /// The label as characters, `None` for a hidden button.
    pub open spec fn label(&self) -> Option<Seq<char>> {
        match self {
            ButtonState::Hide => None,
            ButtonState::Show(s) => Some(s@),
        }
    }
}

/// What pressing Enter on an entry of a fixed list does.
#[derive(Clone, Copy, Debug, PartialEq, Eq, Structural)]
pub enum EntryAction {
    NoAction,
    RunningPolicies,
    RunningCapabilities,
    RunningByteSets,
    StoredPolicies,
    StoredCapabilities,
    StoredByteSets,
    EditDescription,
    Query,
}

/// Which listing the forum logic is asked to fill the entries with.
#[derive(Clone, Copy, Debug, PartialEq, Eq, Structural)]
pub enum QueryType {
    AllTopics,
    Topic(u8),
    AllPosts,
    Post(u8),
    ActivePolicy,
    ActiveCapability,
    ActiveByteSet,
    StoredPolicy,
    StoredCapability,
    StoredByteSet,
}

/// How the entry buttons of a menu are filled.
#[derive(Debug)]
pub enum EntriesState {
    HideAll,
    Fixed(Vec<(ButtonState, EntryAction)>),
    QueryLogic(QueryType),
}

/// The look of one menu: its seven menu buttons and its entries.
#[derive(Debug)]
pub struct MenuConfig {
    pub menu: [ButtonState; 7],
    pub entries: EntriesState,
}

impl MenuConfig {
    pub fn new(menu: [ButtonState; 7], entries: EntriesState) -> (c: MenuConfig)
        ensures
            c.menu == menu,
            c.entries == entries,
    {
        MenuConfig { menu, entries }
    }

    /// The action of entry `id`: a query for listings filled by the forum
    /// logic, the listed action for a fixed list, and no action otherwise.
    pub open spec fn spec_entry_action(&self, id: int) -> EntryAction {
        match self.entries {
            EntriesState::HideAll => EntryAction::NoAction,
            EntriesState::QueryLogic(_) => EntryAction::Query,
            EntriesState::Fixed(list) => {
                if 0 <= id < list@.len() {
                    list@[id].1
                } else {
                    EntryAction::NoAction
                }
            },
        }
    }

    pub fn entry_action(&self, id: usize) -> (a: EntryAction)
        ensures
            a == self.spec_entry_action(id as int),
    {
        match &self.entries {
            EntriesState::HideAll => EntryAction::NoAction,
            EntriesState::QueryLogic(_qt) => EntryAction::Query,
            EntriesState::Fixed(list) => {
                if id < list.len() {
                    list[id].1
                } else {
                    EntryAction::NoAction
                }
            },
        }
    }
}

/// What the forum screen asks the forum logic to do after Enter.
#[derive(Clone, Copy, Debug, PartialEq, Eq)]
pub enum MenuAction {
    AddNew(bool),
    Delete(u16),
    Edit(u16),
    Query(u16),
    Run(Option<usize>),
    MainMenu,
    Settings,
    RunningPolicies,
    StoredPolicies,
    RunningCapabilities,
    StoredCapabilities,
    ByteSets(bool),
    /// Go back to the village of the local user.
    FollowVillage,
}

/// What pressing Enter on menu button `b` of menu `menu` yields: the action
/// and the menu that becomes active, if any. `sel_entry` is the selected
/// entry and `entry_id` the id shown on it.
pub open spec fn menu_button_outcome(menu: MenuType, b: int, sel_entry: usize, entry_id: u16) -> (
    Option<MenuAction>,
    Option<MenuType>,
) {
    let back = if b == 0 {
        (Some(MenuAction::Settings), Some(MenuType::Settings))
    } else if b == 1 {
        (Some(MenuAction::MainMenu), Some(MenuType::Main))
    } else {
        (None, None)
    };
    match menu {
        MenuType::Main => {
            if b == 2 {
                (Some(MenuAction::AddNew(false)), None)
            } else if b == 3 {
                (Some(MenuAction::Settings), Some(MenuType::Settings))
            } else if b == 4 {
                (Some(MenuAction::FollowVillage), None)
            } else {
                (None, None)
            }
        },
        MenuType::Topic => {
            if b == 0 {
                (Some(MenuAction::AddNew(false)), None)
            } else if b == 1 {
                (Some(MenuAction::Edit(sel_entry as u16)), None)
            } else if b == 3 {
                (Some(MenuAction::MainMenu), Some(MenuType::Main))
            } else {
                (None, None)
            }
        },
        MenuType::Settings => {
            if b == 0 {
                (Some(MenuAction::MainMenu), Some(MenuType::Main))
            } else if b == 1 {
                (Some(MenuAction::Edit(0)), Some(MenuType::Requests))
            } else if b == 2 {
                (Some(MenuAction::Edit(1)), None)
            } else {
                (None, None)
            }
        },
        MenuType::Requests => {
            if b == 0 {
                (Some(MenuAction::Edit(0)), Some(MenuType::Settings))
            } else if b == 1 {
                (Some(MenuAction::Delete(0)), Some(MenuType::Main))
            } else if b == 2 {
                (Some(MenuAction::Settings), Some(MenuType::Settings))
            } else {
                (None, None)
            }
        },
        MenuType::RunningCapabilities => {
            if b == 2 {
                (Some(MenuAction::AddNew(false)), None)
            } else {
                back
            }
        },
        MenuType::RunningByteSets => {
            if b == 2 {
                (Some(MenuAction::AddNew(false)), None)
            } else if b == 3 {
                (Some(MenuAction::AddNew(true)), None)
            } else if b == 4 {
                (Some(MenuAction::Run(Some(sel_entry))), None)
            } else {
                back
            }
        },
        MenuType::Capability => {
            if b == 0 {
                (Some(MenuAction::Settings), Some(MenuType::Settings))
            } else if b == 2 {
                (Some(MenuAction::AddNew(false)), None)
            } else if b == 3 {
                (Some(MenuAction::Query(entry_id)), None)
            } else if b == 4 {
                (Some(MenuAction::Delete(entry_id)), None)
            } else if b == 5 {
                (Some(MenuAction::Run(None)), None)
            } else {
                (None, None)
            }
        },
        _ => back,
    }
}

/// What pressing Enter on an entry with action `act` yields in menu `cur`:
/// the action and the menu that becomes active, if any.
pub open spec fn entry_outcome(cur: MenuType, act: EntryAction, entry_id: u16) -> (
    Option<MenuAction>,
    Option<MenuType>,
) {
    match act {
        EntryAction::Query => (
            Some(MenuAction::Query(entry_id)),
            if cur == MenuType::RunningCapabilities {
                Some(MenuType::Capability)
            } else {
                None
            },
        ),
        EntryAction::RunningPolicies => (
            Some(MenuAction::RunningPolicies),
            Some(MenuType::RunningPolicies),
        ),
        EntryAction::RunningCapabilities => (
            Some(MenuAction::RunningCapabilities),
            Some(MenuType::RunningCapabilities),
        ),
        EntryAction::RunningByteSets => (
            Some(MenuAction::ByteSets(true)),
            Some(MenuType::RunningByteSets),
        ),
        EntryAction::StoredPolicies => (
            Some(MenuAction::StoredPolicies),
            Some(MenuType::StoredPolicies),
        ),
        EntryAction::StoredCapabilities => (
            Some(MenuAction::StoredCapabilities),
            Some(MenuType::StoredCapabilities),
        ),
        EntryAction::StoredByteSets => (
            Some(MenuAction::ByteSets(false)),
            Some(MenuType::StoredByteSets),
        ),
        EntryAction::EditDescription => (Some(MenuAction::Query(0)), Some(MenuType::Main)),
        EntryAction::NoAction => (None, None),
    }
}

/// `(sel + k) mod n`: the k-th position after `sel` on a ring of `n` buttons.
pub open spec fn fwd(sel: int, k: int, n: int) -> int {
    (sel + k) % n
}

/// `(sel - k) mod n`: the k-th position before `sel` on a ring of `n` buttons.
pub open spec fn bwd(sel: int, k: int, n: int) -> int {
    (sel + n - k) % n
}

/// `r` is the first visible button after `sel` going forward around the
/// ring, or `sel` itself when no button is visible.
pub open spec fn is_next_visible(vis: Seq<bool>, sel: int, r: int) -> bool {
    let n = vis.len() as int;
    ||| exists|k: int|
        1 <= k <= n && vis[#[trigger] fwd(sel, k, n)] && r == fwd(sel, k, n) && forall|j: int|
            1 <= j < k ==> !vis[#[trigger] fwd(sel, j, n)]
    ||| (forall|j: int| 1 <= j <= n ==> !vis[#[trigger] fwd(sel, j, n)]) && r == sel
}

/// `r` is the first visible button before `sel` going backward around the
/// ring, or `sel` itself when no button is visible.
pub open spec fn is_prev_visible(vis: Seq<bool>, sel: int, r: int) -> bool {
    let n = vis.len() as int;
    ||| exists|k: int|
        1 <= k <= n && vis[#[trigger] bwd(sel, k, n)] && r == bwd(sel, k, n) && forall|j: int|
            1 <= j < k ==> !vis[#[trigger] bwd(sel, j, n)]
    ||| (forall|j: int| 1 <= j <= n ==> !vis[#[trigger] bwd(sel, j, n)]) && r == sel
}

/// `r` is the last visible button, or 0 when none is visible.
pub open spec fn is_last_visible(vis: Seq<bool>, r: int) -> bool {
    ||| 0 <= r < vis.len() && vis[r] && forall|j: int| r < j < vis.len() ==> !#[trigger] vis[j]
    ||| (forall|j: int| 0 <= j < vis.len() ==> !#[trigger] vis[j]) && r == 0
}

/// The drawing requests that give button `b` the state `st`.
pub open spec fn state_cmds(b: Button, st: ButtonState) -> Seq<ButtonCmd> {
    match st {
        ButtonState::Hide => seq![ButtonCmd { button: b, op: ButtonOp::Hide }],
        ButtonState::Show(text) => seq![
            ButtonCmd { button: b, op: ButtonOp::Hide },
            ButtonCmd { button: b, op: ButtonOp::Rename(text) },
            ButtonCmd { button: b, op: ButtonOp::Show },
        ],
    }
}

/// The drawing requests that give the first `i` menu buttons their states.
pub open spec fn menu_cmds(buttons: Seq<(Button, bool)>, menu: Seq<ButtonState>, i: int) -> Seq<
    ButtonCmd,
>
    decreases i,
{
    if i <= 0 {
        seq![]
    } else {
        menu_cmds(buttons, menu, i - 1) + state_cmds(buttons[i - 1].0, menu[i - 1])
    }
}

/// The state entry button `k` gets from entries `e`.
pub open spec fn entry_state_at(e: EntriesState, k: int) -> Option<ButtonState> {
    match e {
        EntriesState::Fixed(list) => {
            if 0 <= k < list@.len() {
                Some(list@[k].0)
            } else {
                None
            }
        },
        _ => None,
    }
}

/// The drawing requests for entry button `k`: its fixed state, or hidden.
pub open spec fn entry_cmd_at(e: EntriesState, b: Button, k: int) -> Seq<ButtonCmd> {
    match entry_state_at(e, k) {
        Some(st) => state_cmds(b, st),
        None => seq![ButtonCmd { button: b, op: ButtonOp::Hide }],
    }
}

/// The drawing requests for the first `i` entry buttons.
pub open spec fn entry_cmds(buttons: Seq<(Button, bool, u16)>, e: EntriesState, i: int) -> Seq<
    ButtonCmd,
>
    decreases i,
{
    if i <= 0 {
        seq![]
    } else {
        entry_cmds(buttons, e, i - 1) + entry_cmd_at(e, buttons[i - 1].0, i - 1)
    }
}

/// The visibility of entry button `k` after switching to entries `e`.
pub open spec fn entry_visible_after(e: EntriesState, k: int) -> bool {
    match entry_state_at(e, k) {
        Some(st) => st.is_show(),
        None => false,
    }
}

/// The forum screen's buttons: seven menu buttons and a column of entries.
pub struct ButtonsLogic {
    pub menu_buttons: Vec<(Button, bool)>,
    pub entry_buttons: Vec<(Button, bool, u16)>,
    pub configs: Vec<MenuConfig>,
    pub current_config_id: MenuType,
    pub is_menu_active: bool,
    pub selected_menu_button: usize,
    pub selected_entry_button: usize,
}

impl ButtonsLogic {
    /// Seven menu buttons, the entries (none on a screen too low for
    /// them), a configuration for every menu, and both selections on
    /// existing buttons (the first entry's place when there is none).
    pub open spec fn wf(&self) -> bool {
        &&& self.menu_buttons.len() == MENU_BUTTONS
        &&& self.entry_buttons.len() < usize::MAX / 2
        &&& self.configs.len() == MENU_COUNT
        &&& self.selected_menu_button < MENU_BUTTONS
        &&& (self.selected_entry_button < self.entry_buttons.len() || (self.entry_buttons.len() == 0
            && self.selected_entry_button == 0))
    }

    pub open spec fn menu_vis(&self) -> Seq<bool> {
        self.menu_buttons@.map_values(|b: (Button, bool)| b.1)
    }

    pub open spec fn entry_vis(&self) -> Seq<bool> {
        self.entry_buttons@.map_values(|b: (Button, bool, u16)| b.1)
    }

    pub open spec fn config_of(&self, m: MenuType) -> MenuConfig {
        self.configs@[menu_index(m)]
    }

    /// The id shown on the selected entry.
    pub open spec fn selected_entry_id(&self) -> u16 {
        self.entry_buttons@[self.selected_entry_button as int].2
    }

    /// A logic over the given buttons, showing the main menu with its first
    /// button selected; every entry starts visible with the placeholder id 255.
    pub fn new(menu_buttons: Vec<Button>, entry_buttons: Vec<Button>) -> (bl: ButtonsLogic)
        requires
            menu_buttons.len() == MENU_BUTTONS,
            entry_buttons.len() < usize::MAX / 2,
        ensures
            bl.wf(),
            bl.current_config_id == MenuType::Main,
            bl.is_menu_active,
            bl.selected_menu_button == 0,
            bl.selected_entry_button == 0,
            forall|i: int|
                0 <= i < MENU_BUTTONS ==> #[trigger] bl.menu_buttons@[i] == (menu_buttons@[i], true),
            bl.entry_buttons.len() == entry_buttons.len(),
            forall|i: int|
                0 <= i < entry_buttons.len() ==> #[trigger] bl.entry_buttons@[i] == (
                    entry_buttons@[i],
                    true,
                    255u16,
                ),
            default_configs_hold(bl.configs@),
    {
        let mut mb: Vec<(Button, bool)> = Vec::new();
        let mut i: usize = 0;
        while i < menu_buttons.len()
            invariant
                i <= menu_buttons.len(),
                mb.len() == i,
                forall|j: int| 0 <= j < i ==> #[trigger] mb@[j] == (menu_buttons@[j], true),
            decreases menu_buttons.len() - i,
        {
            mb.push((menu_buttons[i], true));
            i = i + 1;
        }
        let mut eb: Vec<(Button, bool, u16)> = Vec::new();
        let mut k: usize = 0;
        while k < entry_buttons.len()
            invariant
                k <= entry_buttons.len(),
                eb.len() == k,
                forall|j: int| 0 <= j < k ==> #[trigger] eb@[j] == (entry_buttons@[j], true, 255u16),
            decreases entry_buttons.len() - k,
        {
            eb.push((entry_buttons[k], true, 255));
            k = k + 1;
        }
        ButtonsLogic {
            menu_buttons: mb,
            entry_buttons: eb,
            configs: default_configs(),
            current_config_id: MenuType::Main,
            is_menu_active: true,
            selected_menu_button: 0,
            selected_entry_button: 0,
        }
    }

    /// The logic of a forum screen of `cols` by `rows` cells: the menu
    /// buttons given, and one entry button for each of the screen's entry
    /// rows (see `entries_for_rows`), drawn by the graphics `entry_ids` and
    /// sized as `entry_button_place` says; then as `new` says.
    pub fn for_screen(menu_buttons: Vec<Button>, entry_ids: &Vec<usize>, cols: usize, rows: usize) -> (bl:
        ButtonsLogic)
        requires
            menu_buttons.len() == MENU_BUTTONS,
            rows >= 4,
            cols >= 2,
            rows < usize::MAX / 2,
            entry_ids.len() >= (rows - 4) / 2,
        ensures
            bl.wf(),
            bl.current_config_id == MenuType::Main,
            bl.is_menu_active,
            bl.selected_menu_button == 0,
            bl.selected_entry_button == 0,
            forall|i: int|
                0 <= i < MENU_BUTTONS ==> #[trigger] bl.menu_buttons@[i] == (menu_buttons@[i], true),
            bl.entry_buttons.len() == (rows - 4) / 2,
            forall|i: int|
                0 <= i < bl.entry_buttons.len() ==> #[trigger] bl.entry_buttons@[i] == (
                    (Button { g_id: entry_ids@[i], size: ((cols - 2) as usize, 1usize) }),
                    true,
                    255u16,
                ),
            default_configs_hold(bl.configs@),
    {
        let n = entries_for_rows(rows);
        let mut entries: Vec<Button> = Vec::new();
        let mut i: usize = 0;
        while i < n
            invariant
                n == (rows - 4) / 2,
                i <= n,
                n <= entry_ids.len(),
                cols >= 2,
                entries.len() == i,
                forall|j: int|
                    0 <= j < i ==> #[trigger] entries@[j] == (Button {
                        g_id: entry_ids@[j],
                        size: ((cols - 2) as usize, 1usize),
                    }),
            decreases n - i,
        {
            let place = entry_button_place(cols, i);
            entries.push(Button::new(entry_ids[i], place.0));
            i = i + 1;
        }
        ButtonsLogic::new(menu_buttons, entries)
    }

    pub fn is_current_config_equal(&self, conf_id: MenuType) -> (r: bool)
        ensures
            r == (self.current_config_id == conf_id),
    {
        self.current_config_id == conf_id
    }

    /// Moves the menu selection to the next visible menu button, around the ring.
    pub fn select_next_menu(&mut self)
        requires
            old(self).wf(),
        ensures
            final(self).wf(),
            is_next_visible(
                old(self).menu_vis(),
                old(self).selected_menu_button as int,
                final(self).selected_menu_button as int,
            ),
            final(self).menu_buttons == old(self).menu_buttons,
            final(self).entry_buttons == old(self).entry_buttons,
            final(self).configs == old(self).configs,
            final(self).current_config_id == old(self).current_config_id,
            final(self).is_menu_active == old(self).is_menu_active,
            final(self).selected_entry_button == old(self).selected_entry_button,
    {
        let n = self.menu_buttons.len();
        let sel = self.selected_menu_button;
        let ghost vis = self.menu_vis();
        let mut i: usize = 1;
        let mut result: usize = sel;
        while i <= n
            invariant_except_break
                result == sel,
                forall|j: int| 1 <= j < i ==> !vis[#[trigger] fwd(sel as int, j, n as int)],
            invariant
                n == self.menu_buttons.len() == MENU_BUTTONS,
                vis == self.menu_vis(),
                sel < n,
                1 <= i <= n + 1,
            ensures
                is_next_visible(vis, sel as int, result as int),
                result < n,
            decreases n + 1 - i,
        {
            let next_id = (sel + i) % n;
            assert(next_id == fwd(sel as int, i as int, n as int));
            if self.menu_buttons[next_id].1 {
                result = next_id;
                proof {
                    let k = i as int;
                    assert(1 <= k <= n && vis[fwd(sel as int, k, n as int)] && result == fwd(sel as int, k, n as int)
                        && forall|j: int| 1 <= j < k ==> !vis[#[trigger] fwd(sel as int, j, n as int)]);
                }
                break;
            }
            i = i + 1;
        }
        self.selected_menu_button = result;
    }

    /// Moves the menu selection to the previous visible menu button, around the ring.
    pub fn select_prev_menu(&mut self)
        requires
            old(self).wf(),
        ensures
            final(self).wf(),
            is_prev_visible(
                old(self).menu_vis(),
                old(self).selected_menu_button as int,
                final(self).selected_menu_button as int,
            ),
            final(self).menu_buttons == old(self).menu_buttons,
            final(self).entry_buttons == old(self).entry_buttons,
            final(self).configs == old(self).configs,
            final(self).current_config_id == old(self).current_config_id,
            final(self).is_menu_active == old(self).is_menu_active,
            final(self).selected_entry_button == old(self).selected_entry_button,
    {
        let n = self.menu_buttons.len();
        let sel = self.selected_menu_button;
        let ghost vis = self.menu_vis();
        let mut i: usize = 1;
        let mut result: usize = sel;
        while i <= n
            invariant_except_break
                result == sel,
                forall|j: int| 1 <= j < i ==> !vis[#[trigger] bwd(sel as int, j, n as int)],
            invariant
                n == self.menu_buttons.len() == MENU_BUTTONS,
                vis == self.menu_vis(),
                sel < n,
                1 <= i <= n + 1,
            ensures
                is_prev_visible(vis, sel as int, result as int),
                result < n,
            decreases n + 1 - i,
        {
            let next_id = (sel + n - i) % n;
            assert(next_id == bwd(sel as int, i as int, n as int));
            if self.menu_buttons[next_id].1 {
                result = next_id;
                proof {
                    let k = i as int;
                    assert(1 <= k <= n && vis[bwd(sel as int, k, n as int)] && result == bwd(sel as int, k, n as int)
                        && forall|j: int| 1 <= j < k ==> !vis[#[trigger] bwd(sel as int, j, n as int)]);
                }
                break;
            }
            i = i + 1;
        }
        self.selected_menu_button = result;
    }

    /// Moves the entry selection to the next visible entry, around the ring;
    /// true when the selection lands on the first entry.
    pub fn select_next_entry(&mut self) -> (wrapped: bool)
        requires
            old(self).wf(),
        ensures
            final(self).wf(),
            is_next_visible(
                old(self).entry_vis(),
                old(self).selected_entry_button as int,
                final(self).selected_entry_button as int,
            ),
            wrapped == (final(self).selected_entry_button == 0),
            final(self).menu_buttons == old(self).menu_buttons,
            final(self).entry_buttons == old(self).entry_buttons,
            final(self).configs == old(self).configs,
            final(self).current_config_id == old(self).current_config_id,
            final(self).is_menu_active == old(self).is_menu_active,
            final(self).selected_menu_button == old(self).selected_menu_button,
    {
        let n = self.entry_buttons.len();
        let sel = self.selected_entry_button;
        let ghost vis = self.entry_vis();
        if n == 0 {
            return sel == 0;
        }
        let mut i: usize = 1;
        let mut result: usize = sel;
        while i <= n
            invariant_except_break
                result == sel,
                forall|j: int| 1 <= j < i ==> !vis[#[trigger] fwd(sel as int, j, n as int)],
            invariant
                n == self.entry_buttons.len(),
                1 <= n < usize::MAX / 2,
                vis == self.entry_vis(),
                sel < n,
                1 <= i <= n + 1,
            ensures
                is_next_visible(vis, sel as int, result as int),
                result < n,
            decreases n + 1 - i,
        {
            let next_id = (sel + i) % n;
            assert(next_id == fwd(sel as int, i as int, n as int));
            if self.entry_buttons[next_id].1 {
                result = next_id;
                proof {
                    let k = i as int;
                    assert(1 <= k <= n && vis[fwd(sel as int, k, n as int)] && result == fwd(sel as int, k, n as int)
                        && forall|j: int| 1 <= j < k ==> !vis[#[trigger] fwd(sel as int, j, n as int)]);
                }
                break;
            }
            i = i + 1;
        }
        self.selected_entry_button = result;
        self.selected_entry_button == 0
    }

    /// Moves the entry selection to the previous visible entry, around the
    /// ring; true when the selection lands on the last visible entry.
    pub fn select_prev_entry(&mut self) -> (wrapped: bool)
        requires
            old(self).wf(),
        ensures
            final(self).wf(),
            is_prev_visible(
                old(self).entry_vis(),
                old(self).selected_entry_button as int,
                final(self).selected_entry_button as int,
            ),
            wrapped == is_last_visible(
                old(self).entry_vis(),
                final(self).selected_entry_button as int,
            ),
            final(self).menu_buttons == old(self).menu_buttons,
            final(self).entry_buttons == old(self).entry_buttons,
            final(self).configs == old(self).configs,
            final(self).current_config_id == old(self).current_config_id,
            final(self).is_menu_active == old(self).is_menu_active,
            final(self).selected_menu_button == old(self).selected_menu_button,
    {
        let n = self.entry_buttons.len();
        let sel = self.selected_entry_button;
        let ghost vis = self.entry_vis();
        if n == 0 {
            return true;
        }
        let mut i: usize = 1;
        let mut result: usize = sel;
        while i <= n
            invariant_except_break
                result == sel,
                forall|j: int| 1 <= j < i ==> !vis[#[trigger] bwd(sel as int, j, n as int)],
            invariant
                n == self.entry_buttons.len(),
                1 <= n < usize::MAX / 2,
                vis == self.entry_vis(),
                sel < n,
                1 <= i <= n + 1,
            ensures
                is_prev_visible(vis, sel as int, result as int),
                result < n,
            decreases n + 1 - i,
        {
            let prev_id = (sel + n - i) % n;
            assert(prev_id == bwd(sel as int, i as int, n as int));
            if self.entry_buttons[prev_id].1 {
                result = prev_id;
                proof {
                    let k = i as int;
                    assert(1 <= k <= n && vis[bwd(sel as int, k, n as int)] && result == bwd(sel as int, k, n as int)
                        && forall|j: int| 1 <= j < k ==> !vis[#[trigger] bwd(sel as int, j, n as int)]);
                }
                break;
            }
            i = i + 1;
        }
        self.selected_entry_button = result;
        let last = self.last_visible_button_idx();
        proof {
            lemma_last_visible_unique(vis, last as int, self.selected_entry_button as int);
        }
        self.selected_entry_button == last
    }

    /// The last visible entry, or 0 when none is visible.
    pub fn last_visible_button_idx(&self) -> (r: usize)
        requires
            self.wf(),
        ensures
            is_last_visible(self.entry_vis(), r as int),
            r < self.entry_buttons.len() || (self.entry_buttons.len() == 0 && r == 0),
    {
        let n = self.entry_buttons.len();
        let ghost vis = self.entry_vis();
        let mut i: usize = n;
        while i > 0
            invariant
                n == self.entry_buttons.len(),
                vis == self.entry_vis(),
                i <= n,
                forall|j: int| i <= j < n ==> !#[trigger] vis[j],
            decreases i,
        {
            i = i - 1;
            if self.entry_buttons[i].1 {
                assert(vis[i as int]);
                return i;
            }
        }
        0
    }
}


/// Activating reads the selected entry's id only where an entry is there:
/// a selected entry, or the query and delete buttons of the capability
/// menu.
pub open spec fn activate_allowed(b: ButtonsLogic) -> bool {
    ||| b.entry_buttons.len() > 0
    ||| b.is_menu_active && !(b.current_config_id == MenuType::Capability && (b.selected_menu_button == 3
        || b.selected_menu_button == 4))
}

/// The state after switching to menu `m`: the menu is active with its first
/// button selected, the menu buttons show as the configuration says, and each
/// entry shows as the configuration's entries say.
pub open spec fn activated(old: ButtonsLogic, new: ButtonsLogic, m: MenuType) -> bool {
    let cfg = old.config_of(m);
    &&& new.is_menu_active
    &&& new.current_config_id == m
    &&& new.selected_menu_button == 0
    &&& new.selected_entry_button == 0
    &&& new.configs == old.configs
    &&& new.menu_buttons.len() == old.menu_buttons.len()
    &&& forall|i: int|
        0 <= i < MENU_BUTTONS ==> #[trigger] new.menu_buttons@[i] == (
            old.menu_buttons@[i].0,
            cfg.menu@[i].is_show(),
        )
    &&& new.entry_buttons.len() == old.entry_buttons.len()
    &&& forall|k: int|
        0 <= k < old.entry_buttons.len() ==> #[trigger] new.entry_buttons@[k] == (
            old.entry_buttons@[k].0,
            entry_visible_after(cfg.entries, k),
            old.entry_buttons@[k].2,
        )
}

/// The drawing requests of switching to menu `m`: every menu button gets its
/// state, the first menu button is selected, then every entry gets its state.
pub open spec fn activation_cmds(old: ButtonsLogic, m: MenuType) -> Seq<ButtonCmd> {
    let cfg = old.config_of(m);
    menu_cmds(old.menu_buttons@, cfg.menu@, MENU_BUTTONS as int) + seq![
        ButtonCmd { button: old.menu_buttons@[0].0, op: ButtonOp::Select(false) },
    ] + entry_cmds(old.entry_buttons@, cfg.entries, old.entry_buttons.len() as int)
}

/// The drawing requests of showing the first `i` entries of a new list:
/// a listed entry is hidden, renamed and shown, any other entry is hidden.
pub open spec fn update_cmds(
    buttons: Seq<(Button, bool, u16)>,
    list: Seq<(u16, String)>,
    i: int,
) -> Seq<ButtonCmd>
    decreases i,
{
    if i <= 0 {
        seq![]
    } else {
        update_cmds(buttons, list, i - 1) + if i - 1 < list.len() {
            seq![
                ButtonCmd { button: buttons[i - 1].0, op: ButtonOp::Hide },
                ButtonCmd { button: buttons[i - 1].0, op: ButtonOp::Rename(list[i - 1].1) },
                ButtonCmd { button: buttons[i - 1].0, op: ButtonOp::Show },
            ]
        } else {
            seq![ButtonCmd { button: buttons[i - 1].0, op: ButtonOp::Hide }]
        }
    }
}

/// Only the selections and the active part changed.
pub open spec fn same_buttons(old: ButtonsLogic, new: ButtonsLogic) -> bool {
    &&& new.menu_buttons == old.menu_buttons
    &&& new.entry_buttons == old.entry_buttons
    &&& new.configs == old.configs
    &&& new.current_config_id == old.current_config_id
}

/// Whether leaving the entries in this menu draws the entry with the
/// alternative frame set.
pub open spec fn uses_alt_frames(m: MenuType) -> bool {
    m == MenuType::Capability || m == MenuType::RunningByteSets
}

pub fn cmd(b: Button, op: ButtonOp) -> (c: ButtonCmd)
    ensures
        c == (ButtonCmd { button: b, op: op }),
{
    ButtonCmd { button: b, op }
}

/// The executable form of [`menu_button_outcome`].
pub fn menu_outcome(menu: MenuType, b: usize, sel_entry: usize, entry_id: u16) -> (r: (
    Option<MenuAction>,
    Option<MenuType>,
))
    ensures
        r == menu_button_outcome(menu, b as int, sel_entry, entry_id),
{
    let back = if b == 0 {
        (Some(MenuAction::Settings), Some(MenuType::Settings))
    } else if b == 1 {
        (Some(MenuAction::MainMenu), Some(MenuType::Main))
    } else {
        (None, None)
    };
    match menu {
        MenuType::Main => {
            if b == 2 {
                (Some(MenuAction::AddNew(false)), None)
            } else if b == 3 {
                (Some(MenuAction::Settings), Some(MenuType::Settings))
            } else if b == 4 {
                (Some(MenuAction::FollowVillage), None)
            } else {
                (None, None)
            }
        },
        MenuType::Topic => {
            if b == 0 {
                (Some(MenuAction::AddNew(false)), None)
            } else if b == 1 {
                (Some(MenuAction::Edit(sel_entry as u16)), None)
            } else if b == 3 {
                (Some(MenuAction::MainMenu), Some(MenuType::Main))
            } else {
                (None, None)
            }
        },
        MenuType::Settings => {
            if b == 0 {
                (Some(MenuAction::MainMenu), Some(MenuType::Main))
            } else if b == 1 {
                (Some(MenuAction::Edit(0)), Some(MenuType::Requests))
            } else if b == 2 {
                (Some(MenuAction::Edit(1)), None)
            } else {
                (None, None)
            }
        },
        MenuType::Requests => {
            if b == 0 {
                (Some(MenuAction::Edit(0)), Some(MenuType::Settings))
            } else if b == 1 {
                (Some(MenuAction::Delete(0)), Some(MenuType::Main))
            } else if b == 2 {
                (Some(MenuAction::Settings), Some(MenuType::Settings))
            } else {
                (None, None)
            }
        },
        MenuType::RunningCapabilities => {
            if b == 2 {
                (Some(MenuAction::AddNew(false)), None)
            } else {
                back
            }
        },
        MenuType::RunningByteSets => {
            if b == 2 {
                (Some(MenuAction::AddNew(false)), None)
            } else if b == 3 {
                (Some(MenuAction::AddNew(true)), None)
            } else if b == 4 {
                (Some(MenuAction::Run(Some(sel_entry))), None)
            } else {
                back
            }
        },
        MenuType::Capability => {
            if b == 0 {
                (Some(MenuAction::Settings), Some(MenuType::Settings))
            } else if b == 2 {
                (Some(MenuAction::AddNew(false)), None)
            } else if b == 3 {
                (Some(MenuAction::Query(entry_id)), None)
            } else if b == 4 {
                (Some(MenuAction::Delete(entry_id)), None)
            } else if b == 5 {
                (Some(MenuAction::Run(None)), None)
            } else {
                (None, None)
            }
        },
        _ => back,
    }
}

/// The executable form of [`entry_outcome`].
pub fn entry_outcome_of(cur: MenuType, act: EntryAction, entry_id: u16) -> (r: (
    Option<MenuAction>,
    Option<MenuType>,
))
    ensures
        r == entry_outcome(cur, act, entry_id),
{
    match act {
        EntryAction::Query => (
            Some(MenuAction::Query(entry_id)),
            if cur == MenuType::RunningCapabilities {
                Some(MenuType::Capability)
            } else {
                None
            },
        ),
        EntryAction::RunningPolicies => (
            Some(MenuAction::RunningPolicies),
            Some(MenuType::RunningPolicies),
        ),
        EntryAction::RunningCapabilities => (
            Some(MenuAction::RunningCapabilities),
            Some(MenuType::RunningCapabilities),
        ),
        EntryAction::RunningByteSets => (
            Some(MenuAction::ByteSets(true)),
            Some(MenuType::RunningByteSets),
        ),
        EntryAction::StoredPolicies => (
            Some(MenuAction::StoredPolicies),
            Some(MenuType::StoredPolicies),
        ),
        EntryAction::StoredCapabilities => (
            Some(MenuAction::StoredCapabilities),
            Some(MenuType::StoredCapabilities),
        ),
        EntryAction::StoredByteSets => (
            Some(MenuAction::ByteSets(false)),
            Some(MenuType::StoredByteSets),
        ),
        EntryAction::EditDescription => (Some(MenuAction::Query(0)), Some(MenuType::Main)),
        EntryAction::NoAction => (None, None),
    }
}

impl ButtonsLogic {
    /// Switches to menu `cfg_idx`, returning the drawing requests that show it.
    pub fn activate_menu(&mut self, cfg_idx: MenuType) -> (cmds: Vec<ButtonCmd>)
        requires
            old(self).wf(),
        ensures
            final(self).wf(),
            activated(*old(self), *final(self), cfg_idx),
            cmds@ == activation_cmds(*old(self), cfg_idx),
    {
        let ghost old_self = *self;
        let idx = menu_index_of(cfg_idx);
        self.is_menu_active = true;
        self.current_config_id = cfg_idx;
        self.selected_menu_button = 0;
        self.selected_entry_button = 0;
        let mut cmds: Vec<ButtonCmd> = Vec::new();
        let mut i: usize = 0;
        while i < MENU_BUTTONS
            invariant
                i <= MENU_BUTTONS,
                idx == menu_index(cfg_idx),
                self.configs == old_self.configs,
                self.configs.len() == MENU_COUNT,
                self.menu_buttons.len() == MENU_BUTTONS,
                self.entry_buttons == old_self.entry_buttons,
                self.is_menu_active,
                self.current_config_id == cfg_idx,
                self.selected_menu_button == 0,
                self.selected_entry_button == 0,
                old_self.menu_buttons.len() == MENU_BUTTONS,
                forall|j: int|
                    0 <= j < i ==> #[trigger] self.menu_buttons@[j] == (
                        old_self.menu_buttons@[j].0,
                        old_self.config_of(cfg_idx).menu@[j].is_show(),
                    ),
                forall|j: int|
                    i <= j < MENU_BUTTONS ==> #[trigger] self.menu_buttons@[j]
                        == old_self.menu_buttons@[j],
                cmds@ == menu_cmds(
                    old_self.menu_buttons@,
                    old_self.config_of(cfg_idx).menu@,
                    i as int,
                ),
            decreases MENU_BUTTONS - i,
        {
            let b = self.menu_buttons[i].0;
            let text_opt: Option<String> = match &self.configs[idx].menu[i] {
                ButtonState::Hide => None,
                ButtonState::Show(text) => Some(text.clone()),
            };
            match text_opt {
                None => {
                    cmds.push(cmd(b, ButtonOp::Hide));
                    self.menu_buttons.set(i, (b, false));
                },
                Some(text) => {
                    cmds.push(cmd(b, ButtonOp::Hide));
                    cmds.push(cmd(b, ButtonOp::Rename(text)));
                    cmds.push(cmd(b, ButtonOp::Show));
                    self.menu_buttons.set(i, (b, true));
                },
            }
            i = i + 1;
        }
        let b0 = self.menu_buttons[0].0;
        cmds.push(cmd(b0, ButtonOp::Select(false)));
        let ghost menu_part = cmds@;
        let n = self.entry_buttons.len();
        let mut k: usize = 0;
        while k < n
            invariant
                k <= n,
                n == self.entry_buttons.len() == old_self.entry_buttons.len(),
                idx == menu_index(cfg_idx),
                self.configs == old_self.configs,
                self.configs.len() == MENU_COUNT,
                self.menu_buttons.len() == MENU_BUTTONS,
                self.is_menu_active,
                self.current_config_id == cfg_idx,
                self.selected_menu_button == 0,
                self.selected_entry_button == 0,
                forall|j: int|
                    0 <= j < MENU_BUTTONS ==> #[trigger] self.menu_buttons@[j] == (
                        old_self.menu_buttons@[j].0,
                        old_self.config_of(cfg_idx).menu@[j].is_show(),
                    ),
                forall|j: int|
                    0 <= j < k ==> #[trigger] self.entry_buttons@[j] == (
                        old_self.entry_buttons@[j].0,
                        entry_visible_after(old_self.config_of(cfg_idx).entries, j),
                        old_self.entry_buttons@[j].2,
                    ),
                forall|j: int|
                    k <= j < n ==> #[trigger] self.entry_buttons@[j] == old_self.entry_buttons@[j],
                cmds@ == menu_part + entry_cmds(
                    old_self.entry_buttons@,
                    old_self.config_of(cfg_idx).entries,
                    k as int,
                ),
            decreases n - k,
        {
            let (b, _v, id) = self.entry_buttons[k];
            let text_opt: Option<Option<String>> = match &self.configs[idx].entries {
                EntriesState::Fixed(list) => {
                    if k < list.len() {
                        match &list[k].0 {
                            ButtonState::Hide => Some(None),
                            ButtonState::Show(text) => Some(Some(text.clone())),
                        }
                    } else {
                        None
                    }
                },
                _ => None,
            };
            let ghost before = cmds@;
            match text_opt {
                Some(Some(text)) => {
                    cmds.push(cmd(b, ButtonOp::Hide));
                    cmds.push(cmd(b, ButtonOp::Rename(text)));
                    cmds.push(cmd(b, ButtonOp::Show));
                    self.entry_buttons.set(k, (b, true, id));
                },
                _ => {
                    cmds.push(cmd(b, ButtonOp::Hide));
                    self.entry_buttons.set(k, (b, false, id));
                },
            }
            proof {
                assert(cmds@ =~= before + entry_cmd_at(
                    old_self.config_of(cfg_idx).entries,
                    old_self.entry_buttons@[k as int].0,
                    k as int,
                ));
            }
            k = k + 1;
        }
        proof {
            assert(cmds@ =~= activation_cmds(old_self, cfg_idx));
        }
        cmds
    }

    /// Handles Enter: on a menu button or an entry, returns the action for the
    /// forum logic and, when the press switches menus, the drawing requests.
    pub fn activate(&mut self) -> (r: (Option<MenuAction>, Vec<ButtonCmd>))
        requires
            old(self).wf(),
            activate_allowed(*old(self)),
        ensures
            final(self).wf(),
            ({
                let out = if old(self).is_menu_active {
                    menu_button_outcome(
                        old(self).current_config_id,
                        old(self).selected_menu_button as int,
                        old(self).selected_entry_button,
                        old(self).selected_entry_id(),
                    )
                } else {
                    entry_outcome(
                        old(self).current_config_id,
                        old(self).config_of(old(self).current_config_id).spec_entry_action(
                            old(self).selected_entry_button as int,
                        ),
                        old(self).selected_entry_id(),
                    )
                };
                &&& r.0 == out.0
                &&& match out.1 {
                    Some(m) => activated(*old(self), *final(self), m) && r.1@ == activation_cmds(
                        *old(self),
                        m,
                    ),
                    None => *final(self) == *old(self) && r.1@ == Seq::<ButtonCmd>::empty(),
                }
            }),
    {
        let sel_e = self.selected_entry_button;
        let entry_id = if sel_e < self.entry_buttons.len() {
            self.entry_buttons[sel_e].2
        } else {
            0
        };
        let out = if self.is_menu_active {
            menu_outcome(self.current_config_id, self.selected_menu_button, sel_e, entry_id)
        } else {
            let idx = menu_index_of(self.current_config_id);
            let a = self.configs[idx].entry_action(sel_e);
            entry_outcome_of(self.current_config_id, a, entry_id)
        };
        let (action, switch_to) = out;
        let cmds = match switch_to {
            Some(m) => self.activate_menu(m),
            None => Vec::new(),
        };
        (action, cmds)
    }

    /// Shows a new page of entries: the listed ones take the ids and labels
    /// of the list, the remaining entries are hidden.
    pub fn update_entries(&mut self, new_list: Vec<(u16, String)>) -> (cmds: Vec<ButtonCmd>)
        requires
            old(self).wf(),
        ensures
            final(self).wf(),
            final(self).entry_buttons.len() == old(self).entry_buttons.len(),
            forall|k: int|
                0 <= k < old(self).entry_buttons.len() ==> #[trigger] final(self).entry_buttons@[k]
                    == if k < new_list.len() {
                    (old(self).entry_buttons@[k].0, true, new_list@[k].0)
                } else {
                    (old(self).entry_buttons@[k].0, false, old(self).entry_buttons@[k].2)
                },
            final(self).menu_buttons == old(self).menu_buttons,
            final(self).configs == old(self).configs,
            final(self).current_config_id == old(self).current_config_id,
            final(self).is_menu_active == old(self).is_menu_active,
            final(self).selected_menu_button == old(self).selected_menu_button,
            final(self).selected_entry_button == old(self).selected_entry_button,
            cmds@ == update_cmds(
                old(self).entry_buttons@,
                new_list@,
                old(self).entry_buttons.len() as int,
            ),
    {
        let ghost old_self = *self;
        let n = self.entry_buttons.len();
        let mut cmds: Vec<ButtonCmd> = Vec::new();
        let mut k: usize = 0;
        while k < n
            invariant
                k <= n,
                n == self.entry_buttons.len() == old_self.entry_buttons.len(),
                self.menu_buttons == old_self.menu_buttons,
                self.configs == old_self.configs,
                self.current_config_id == old_self.current_config_id,
                self.is_menu_active == old_self.is_menu_active,
                self.selected_menu_button == old_self.selected_menu_button,
                self.selected_entry_button == old_self.selected_entry_button,
                forall|j: int|
                    0 <= j < k ==> #[trigger] self.entry_buttons@[j] == if j < new_list.len() {
                        (old_self.entry_buttons@[j].0, true, new_list@[j].0)
                    } else {
                        (old_self.entry_buttons@[j].0, false, old_self.entry_buttons@[j].2)
                    },
                forall|j: int|
                    k <= j < n ==> #[trigger] self.entry_buttons@[j] == old_self.entry_buttons@[j],
                cmds@ == update_cmds(old_self.entry_buttons@, new_list@, k as int),
            decreases n - k,
        {
            let (b, _v, id) = self.entry_buttons[k];
            let ghost before = cmds@;
            if k < new_list.len() {
                let new_id = new_list[k].0;
                let text = new_list[k].1.clone();
                cmds.push(cmd(b, ButtonOp::Hide));
                cmds.push(cmd(b, ButtonOp::Rename(text)));
                cmds.push(cmd(b, ButtonOp::Show));
                self.entry_buttons.set(k, (b, true, new_id));
            } else {
                cmds.push(cmd(b, ButtonOp::Hide));
                self.entry_buttons.set(k, (b, false, id));
            }
            proof {
                assert(cmds@ =~= update_cmds(old_self.entry_buttons@, new_list@, k + 1));
            }
            k = k + 1;
        }
        cmds
    }

    /// Up: from the menu, moves into the entries; within the entries, moves
    /// to the previous visible entry. True when the entry selection wrapped
    /// to the last visible entry, meaning the previous page is wanted.
    pub fn up(&mut self) -> (r: (bool, Vec<ButtonCmd>))
        requires
            old(self).wf(),
            old(self).entry_buttons.len() > 0,
        ensures
            final(self).wf(),
            same_buttons(*old(self), *final(self)),
            final(self).selected_menu_button == old(self).selected_menu_button,
            !final(self).is_menu_active,
            old(self).is_menu_active ==> {
                &&& !r.0
                &&& final(self).selected_entry_button == old(self).selected_entry_button
                &&& r.1@ == seq![
                    ButtonCmd {
                        button: old(self).menu_buttons@[old(self).selected_menu_button as int].0,
                        op: ButtonOp::Deselect(false),
                    },
                    ButtonCmd {
                        button: old(self).entry_buttons@[old(self).selected_entry_button as int].0,
                        op: ButtonOp::Select(false),
                    },
                ]
            },
            !old(self).is_menu_active ==> {
                &&& is_prev_visible(
                    old(self).entry_vis(),
                    old(self).selected_entry_button as int,
                    final(self).selected_entry_button as int,
                )
                &&& r.0 == is_last_visible(
                    old(self).entry_vis(),
                    final(self).selected_entry_button as int,
                )
                &&& r.1@ == seq![
                    ButtonCmd {
                        button: old(self).entry_buttons@[old(self).selected_entry_button as int].0,
                        op: ButtonOp::Deselect(false),
                    },
                    ButtonCmd {
                        button: old(self).entry_buttons@[final(self).selected_entry_button as int].0,
                        op: ButtonOp::Select(false),
                    },
                ]
            },
    {
        let mut cmds: Vec<ButtonCmd> = Vec::new();
        let mut prev_page = false;
        if self.is_menu_active {
            self.is_menu_active = false;
            cmds.push(cmd(self.menu_buttons[self.selected_menu_button].0, ButtonOp::Deselect(false)));
            cmds.push(cmd(self.entry_buttons[self.selected_entry_button].0, ButtonOp::Select(false)));
        } else {
            cmds.push(cmd(self.entry_buttons[self.selected_entry_button].0, ButtonOp::Deselect(false)));
            prev_page = self.select_prev_entry();
            cmds.push(cmd(self.entry_buttons[self.selected_entry_button].0, ButtonOp::Select(false)));
        }
        (prev_page, cmds)
    }

    /// Down: from the menu, moves into the entries; within the entries, moves
    /// to the next visible entry. True when the entry selection wrapped to
    /// the first entry, meaning the next page is wanted.
    pub fn down(&mut self) -> (r: (bool, Vec<ButtonCmd>))
        requires
            old(self).wf(),
            old(self).entry_buttons.len() > 0,
        ensures
            final(self).wf(),
            same_buttons(*old(self), *final(self)),
            final(self).selected_menu_button == old(self).selected_menu_button,
            !final(self).is_menu_active,
            old(self).is_menu_active ==> {
                &&& !r.0
                &&& final(self).selected_entry_button == old(self).selected_entry_button
                &&& r.1@ == seq![
                    ButtonCmd {
                        button: old(self).menu_buttons@[old(self).selected_menu_button as int].0,
                        op: ButtonOp::Deselect(false),
                    },
                    ButtonCmd {
                        button: old(self).entry_buttons@[old(self).selected_entry_button as int].0,
                        op: ButtonOp::Select(false),
                    },
                ]
            },
            !old(self).is_menu_active ==> {
                &&& is_next_visible(
                    old(self).entry_vis(),
                    old(self).selected_entry_button as int,
                    final(self).selected_entry_button as int,
                )
                &&& r.0 == (final(self).selected_entry_button == 0)
                &&& r.1@ == seq![
                    ButtonCmd {
                        button: old(self).entry_buttons@[old(self).selected_entry_button as int].0,
                        op: ButtonOp::Deselect(false),
                    },
                    ButtonCmd {
                        button: old(self).entry_buttons@[final(self).selected_entry_button as int].0,
                        op: ButtonOp::Select(false),
                    },
                ]
            },
    {
        let mut cmds: Vec<ButtonCmd> = Vec::new();
        let mut next_page = false;
        if self.is_menu_active {
            self.is_menu_active = false;
            cmds.push(cmd(self.menu_buttons[self.selected_menu_button].0, ButtonOp::Deselect(false)));
            cmds.push(cmd(self.entry_buttons[self.selected_entry_button].0, ButtonOp::Select(false)));
        } else {
            cmds.push(cmd(self.entry_buttons[self.selected_entry_button].0, ButtonOp::Deselect(false)));
            next_page = self.select_next_entry();
            cmds.push(cmd(self.entry_buttons[self.selected_entry_button].0, ButtonOp::Select(false)));
        }
        (next_page, cmds)
    }

    /// Left: within the menu, moves to the previous visible menu button;
    /// from the entries, returns to the menu.
    pub fn left(&mut self) -> (cmds: Vec<ButtonCmd>)
        requires
            old(self).wf(),
            !old(self).is_menu_active ==> old(self).entry_buttons.len() > 0,
        ensures
            final(self).wf(),
            same_buttons(*old(self), *final(self)),
            final(self).is_menu_active,
            final(self).selected_entry_button == old(self).selected_entry_button,
            old(self).is_menu_active ==> {
                &&& is_prev_visible(
                    old(self).menu_vis(),
                    old(self).selected_menu_button as int,
                    final(self).selected_menu_button as int,
                )
                &&& cmds@ == seq![
                    ButtonCmd {
                        button: old(self).menu_buttons@[old(self).selected_menu_button as int].0,
                        op: ButtonOp::Deselect(false),
                    },
                    ButtonCmd {
                        button: old(self).menu_buttons@[final(self).selected_menu_button as int].0,
                        op: ButtonOp::Select(false),
                    },
                ]
            },
            !old(self).is_menu_active ==> {
                &&& final(self).selected_menu_button == old(self).selected_menu_button
                &&& cmds@ == seq![
                    ButtonCmd {
                        button: old(self).entry_buttons@[old(self).selected_entry_button as int].0,
                        op: ButtonOp::Deselect(uses_alt_frames(old(self).current_config_id)),
                    },
                    ButtonCmd {
                        button: old(self).menu_buttons@[old(self).selected_menu_button as int].0,
                        op: ButtonOp::Select(false),
                    },
                ]
            },
    {
        let mut cmds: Vec<ButtonCmd> = Vec::new();
        if self.is_menu_active {
            cmds.push(cmd(self.menu_buttons[self.selected_menu_button].0, ButtonOp::Deselect(false)));
            self.select_prev_menu();
            cmds.push(cmd(self.menu_buttons[self.selected_menu_button].0, ButtonOp::Select(false)));
        } else {
            self.is_menu_active = true;
            let set_to_alt = self.current_config_id == MenuType::Capability
                || self.current_config_id == MenuType::RunningByteSets;
            cmds.push(cmd(self.entry_buttons[self.selected_entry_button].0, ButtonOp::Deselect(set_to_alt)));
            cmds.push(cmd(self.menu_buttons[self.selected_menu_button].0, ButtonOp::Select(false)));
        }
        cmds
    }

    /// Right: within the menu, moves to the next visible menu button;
    /// from the entries, returns to the menu.
    pub fn right(&mut self) -> (cmds: Vec<ButtonCmd>)
        requires
            old(self).wf(),
            !old(self).is_menu_active ==> old(self).entry_buttons.len() > 0,
        ensures
            final(self).wf(),
            same_buttons(*old(self), *final(self)),
            final(self).is_menu_active,
            final(self).selected_entry_button == old(self).selected_entry_button,
            old(self).is_menu_active ==> {
                &&& is_next_visible(
                    old(self).menu_vis(),
                    old(self).selected_menu_button as int,
                    final(self).selected_menu_button as int,
                )
                &&& cmds@ == seq![
                    ButtonCmd {
                        button: old(self).menu_buttons@[old(self).selected_menu_button as int].0,
                        op: ButtonOp::Deselect(false),
                    },
                    ButtonCmd {
                        button: old(self).menu_buttons@[final(self).selected_menu_button as int].0,
                        op: ButtonOp::Select(false),
                    },
                ]
            },
            !old(self).is_menu_active ==> {
                &&& final(self).selected_menu_button == old(self).selected_menu_button
                &&& cmds@ == seq![
                    ButtonCmd {
                        button: old(self).entry_buttons@[old(self).selected_entry_button as int].0,
                        op: ButtonOp::Deselect(uses_alt_frames(old(self).current_config_id)),
                    },
                    ButtonCmd {
                        button: old(self).menu_buttons@[old(self).selected_menu_button as int].0,
                        op: ButtonOp::Select(false),
                    },
                ]
            },
    {
        let mut cmds: Vec<ButtonCmd> = Vec::new();
        if self.is_menu_active {
            cmds.push(cmd(self.menu_buttons[self.selected_menu_button].0, ButtonOp::Deselect(false)));
            self.select_next_menu();
            cmds.push(cmd(self.menu_buttons[self.selected_menu_button].0, ButtonOp::Select(false)));
        } else {
            self.is_menu_active = true;
            let set_to_alt = self.current_config_id == MenuType::Capability
                || self.current_config_id == MenuType::RunningByteSets;
            cmds.push(cmd(self.entry_buttons[self.selected_entry_button].0, ButtonOp::Deselect(set_to_alt)));
            cmds.push(cmd(self.menu_buttons[self.selected_menu_button].0, ButtonOp::Select(false)));
        }
        cmds
    }
}

/// `is_last_visible` names at most one index for a sequence.
pub proof fn lemma_last_visible_unique(vis: Seq<bool>, a: int, b: int)
    requires
        is_last_visible(vis, a),
    ensures
        is_last_visible(vis, b) <==> a == b,
{
    if is_last_visible(vis, b) {
        if a != b {
            if 0 <= a < vis.len() && vis[a] {
                if 0 <= b < vis.len() && vis[b] {
                    if a < b {
                        assert(!vis[b]);
                    } else {
                        assert(!vis[a]);
                    }
                } else {
                    assert(!vis[a]);
                }
            } else {
                assert(!vis[b]);
            }
        }
    }
}

/// Whether a menu configuration table is the one the forum screen starts with.
pub open spec fn default_configs_hold(c: Seq<MenuConfig>) -> bool {
    &&& c.len() == MENU_COUNT
    &&& forall|m: MenuType| #[trigger] default_config_holds(m, c[menu_index(m)])
}

/// The label every menu button of menu `m` has (`None` when hidden) and how
/// its entries are filled.
pub open spec fn default_config_holds(m: MenuType, c: MenuConfig) -> bool {
    let labels = c.menu@.map_values(|b: ButtonState| b.label());
    let back: Seq<Option<Seq<char>>> = seq![Some("←Setings"@), Some("← Forum"@)];
    match m {
        MenuType::Main => labels == seq![
            Some("CatFlter"@),
            Some("Filter"@),
            Some("+ Topic"@),
            Some("Options"@),
            Some("→ Village"@),
            None,
            None,
        ] && c.entries == EntriesState::QueryLogic(QueryType::AllTopics),
        MenuType::Topic => labels == seq![
            Some("New post"@),
            Some("Edit"@),
            None,
            Some("← Forum"@),
            None,
            None,
            None,
        ] && c.entries == EntriesState::QueryLogic(QueryType::AllPosts),
        MenuType::Settings => labels == seq![
            Some("← Forum"@),
            Some("Requests"@),
            Some("+Categry"@),
            None,
            None,
            None,
            None,
        ] && settings_entries_hold(c.entries),
        MenuType::Requests => labels == seq![
            Some("Approve"@),
            Some("Reject"@),
            Some("← Settings"@),
            None,
            None,
            None,
            None,
        ] && c.entries == EntriesState::QueryLogic(QueryType::AllTopics),
        MenuType::RunningPolicies => labels == back + seq![None, None, None, None, None]
            && c.entries == EntriesState::QueryLogic(QueryType::ActivePolicy),
        MenuType::RunningCapabilities => labels == back + seq![
            Some("Add Cap"@),
            None,
            None,
            None,
            None,
        ] && c.entries == EntriesState::QueryLogic(QueryType::ActiveCapability),
        MenuType::RunningByteSets => labels == back + seq![
            Some("New 1Bte"@),
            Some("New 2Bts"@),
            Some("Run"@),
            Some("Store"@),
            None,
        ] && c.entries == EntriesState::QueryLogic(QueryType::ActiveByteSet),
        MenuType::StoredPolicies => labels == back + seq![None, None, None, None, None]
            && c.entries == EntriesState::QueryLogic(QueryType::StoredPolicy),
        MenuType::StoredCapabilities => labels == back + seq![None, None, None, None, None]
            && c.entries == EntriesState::QueryLogic(QueryType::StoredCapability),
        MenuType::StoredByteSets => labels == back + seq![None, None, None, None, None]
            && c.entries == EntriesState::QueryLogic(QueryType::StoredByteSet),
        MenuType::Capability => labels == seq![
            Some("←Setings"@),
            Some("Filter"@),
            Some("Add"@),
            Some("Modify"@),
            Some("Delete"@),
            Some("Run"@),
            Some("Store"@),
        ] && c.entries == EntriesState::QueryLogic(QueryType::StoredByteSet),
    }
}

/// The fixed entries of the settings menu: one per listing plus editing
/// the forum's description.
pub open spec fn settings_entries_hold(e: EntriesState) -> bool {
    match e {
        EntriesState::Fixed(list) => list@.map_values(
            |p: (ButtonState, EntryAction)| (p.0.label(), p.1),
        ) == seq![
            (Some("Running Policies"@), EntryAction::RunningPolicies),
            (Some("Running Capabilities"@), EntryAction::RunningCapabilities),
            (Some("Running Byte Sets"@), EntryAction::RunningByteSets),
            (Some("Stored Policies"@), EntryAction::StoredPolicies),
            (Some("Stored Capabilities"@), EntryAction::StoredCapabilities),
            (Some("Stored Byte Sets"@), EntryAction::StoredByteSets),
            (Some("Change Forum's description"@), EntryAction::EditDescription),
        ],
        _ => false,
    }
}

fn show(s: &str) -> (b: ButtonState)
    ensures
        b.label() == Some(s@),
{
    ButtonState::Show(String::from_str(s))
}

fn config(labels: [ButtonState; 7], entries: EntriesState) -> (c: MenuConfig)
    ensures
        c.menu == labels,
        c.entries == entries,
{
    MenuConfig::new(labels, entries)
}

/// The configuration table the forum screen starts with, one entry per menu.
pub fn default_configs() -> (c: Vec<MenuConfig>)
    ensures
        default_configs_hold(c@),
{
    let mut c: Vec<MenuConfig> = Vec::new();
    c.push(
        config(
            [
                show("CatFlter"),
                show("Filter"),
                show("+ Topic"),
                show("Options"),
                show("→ Village"),
                ButtonState::Hide,
                ButtonState::Hide,
            ],
            EntriesState::QueryLogic(QueryType::AllTopics),
        ),
    );
    c.push(
        config(
            [
                show("New post"),
                show("Edit"),
                ButtonState::Hide,
                show("← Forum"),
                ButtonState::Hide,
                ButtonState::Hide,
                ButtonState::Hide,
            ],
            EntriesState::QueryLogic(QueryType::AllPosts),
        ),
    );
    let mut fixed: Vec<(ButtonState, EntryAction)> = Vec::new();
    fixed.push((show("Running Policies"), EntryAction::RunningPolicies));
    fixed.push((show("Running Capabilities"), EntryAction::RunningCapabilities));
    fixed.push((show("Running Byte Sets"), EntryAction::RunningByteSets));
    fixed.push((show("Stored Policies"), EntryAction::StoredPolicies));
    fixed.push((show("Stored Capabilities"), EntryAction::StoredCapabilities));
    fixed.push((show("Stored Byte Sets"), EntryAction::StoredByteSets));
    fixed.push((show("Change Forum's description"), EntryAction::EditDescription));
    c.push(
        config(
            [
                show("← Forum"),
                show("Requests"),
                show("+Categry"),
                ButtonState::Hide,
                ButtonState::Hide,
                ButtonState::Hide,
                ButtonState::Hide,
            ],
            EntriesState::Fixed(fixed),
        ),
    );
    c.push(
        config(
            [
                show("Approve"),
                show("Reject"),
                show("← Settings"),
                ButtonState::Hide,
                ButtonState::Hide,
                ButtonState::Hide,
                ButtonState::Hide,
            ],
            EntriesState::QueryLogic(QueryType::AllTopics),
        ),
    );
    c.push(
        config(
            [
                show("←Setings"),
                show("← Forum"),
                ButtonState::Hide,
                ButtonState::Hide,
                ButtonState::Hide,
                ButtonState::Hide,
                ButtonState::Hide,
            ],
            EntriesState::QueryLogic(QueryType::ActivePolicy),
        ),
    );
    c.push(
        config(
            [
                show("←Setings"),
                show("← Forum"),
                show("Add Cap"),
                ButtonState::Hide,
                ButtonState::Hide,
                ButtonState::Hide,
                ButtonState::Hide,
            ],
            EntriesState::QueryLogic(QueryType::ActiveCapability),
        ),
    );
    c.push(
        config(
            [
                show("←Setings"),
                show("← Forum"),
                show("New 1Bte"),
                show("New 2Bts"),
                show("Run"),
                show("Store"),
                ButtonState::Hide,
            ],
            EntriesState::QueryLogic(QueryType::ActiveByteSet),
        ),
    );
    c.push(
        config(
            [
                show("←Setings"),
                show("← Forum"),
                ButtonState::Hide,
                ButtonState::Hide,
                ButtonState::Hide,
                ButtonState::Hide,
                ButtonState::Hide,
            ],
            EntriesState::QueryLogic(QueryType::StoredPolicy),
        ),
    );
    c.push(
        config(
            [
                show("←Setings"),
                show("← Forum"),
                ButtonState::Hide,
                ButtonState::Hide,
                ButtonState::Hide,
                ButtonState::Hide,
                ButtonState::Hide,
            ],
            EntriesState::QueryLogic(QueryType::StoredCapability),
        ),
    );
    c.push(
        config(
            [
                show("←Setings"),
                show("← Forum"),
                ButtonState::Hide,
                ButtonState::Hide,
                ButtonState::Hide,
                ButtonState::Hide,
                ButtonState::Hide,
            ],
            EntriesState::QueryLogic(QueryType::StoredByteSet),
        ),
    );
    c.push(
        config(
            [
                show("←Setings"),
                show("Filter"),
                show("Add"),
                show("Modify"),
                show("Delete"),
                show("Run"),
                show("Store"),
            ],
            EntriesState::QueryLogic(QueryType::StoredByteSet),
        ),
    );
    proof {
        let back: Seq<Option<Seq<char>>> = seq![Some("←Setings"@), Some("← Forum"@)];
        assert(c@[0].menu@.map_values(|b: ButtonState| b.label()) =~= seq![Some("CatFlter"@), Some("Filter"@), Some("+ Topic"@), Some("Options"@), Some("→ Village"@), None, None]);
        assert(c@[1].menu@.map_values(|b: ButtonState| b.label()) =~= seq![Some("New post"@), Some("Edit"@), None, Some("← Forum"@), None, None, None]);
        assert(c@[2].menu@.map_values(|b: ButtonState| b.label()) =~= seq![Some("← Forum"@), Some("Requests"@), Some("+Categry"@), None, None, None, None]);
        assert(c@[3].menu@.map_values(|b: ButtonState| b.label()) =~= seq![Some("Approve"@), Some("Reject"@), Some("← Settings"@), None, None, None, None]);
        assert(c@[4].menu@.map_values(|b: ButtonState| b.label()) =~= seq![Some("←Setings"@), Some("← Forum"@), None, None, None, None, None]);
        assert(seq![Some("←Setings"@), Some("← Forum"@), None, None, None, None, None] =~= back + seq![None, None, None, None, None]);
        assert(c@[5].menu@.map_values(|b: ButtonState| b.label()) =~= seq![Some("←Setings"@), Some("← Forum"@), Some("Add Cap"@), None, None, None, None]);
        assert(seq![Some("←Setings"@), Some("← Forum"@), Some("Add Cap"@), None, None, None, None] =~= back + seq![Some("Add Cap"@), None, None, None, None]);
        assert(c@[6].menu@.map_values(|b: ButtonState| b.label()) =~= seq![Some("←Setings"@), Some("← Forum"@), Some("New 1Bte"@), Some("New 2Bts"@), Some("Run"@), Some("Store"@), None]);
        assert(seq![Some("←Setings"@), Some("← Forum"@), Some("New 1Bte"@), Some("New 2Bts"@), Some("Run"@), Some("Store"@), None] =~= back + seq![Some("New 1Bte"@), Some("New 2Bts"@), Some("Run"@), Some("Store"@), None]);
        assert(c@[7].menu@.map_values(|b: ButtonState| b.label()) =~= seq![Some("←Setings"@), Some("← Forum"@), None, None, None, None, None]);
        assert(seq![Some("←Setings"@), Some("← Forum"@), None, None, None, None, None] =~= back + seq![None, None, None, None, None]);
        assert(c@[8].menu@.map_values(|b: ButtonState| b.label()) =~= seq![Some("←Setings"@), Some("← Forum"@), None, None, None, None, None]);
        assert(seq![Some("←Setings"@), Some("← Forum"@), None, None, None, None, None] =~= back + seq![None, None, None, None, None]);
        assert(c@[9].menu@.map_values(|b: ButtonState| b.label()) =~= seq![Some("←Setings"@), Some("← Forum"@), None, None, None, None, None]);
        assert(seq![Some("←Setings"@), Some("← Forum"@), None, None, None, None, None] =~= back + seq![None, None, None, None, None]);
        assert(c@[10].menu@.map_values(|b: ButtonState| b.label()) =~= seq![Some("←Setings"@), Some("Filter"@), Some("Add"@), Some("Modify"@), Some("Delete"@), Some("Run"@), Some("Store"@)]);
        match c@[2].entries {
            EntriesState::Fixed(list) => {
                assert(list@.map_values(|p: (ButtonState, EntryAction)| (p.0.label(), p.1)) =~= seq![
                    (Some("Running Policies"@), EntryAction::RunningPolicies),
                    (Some("Running Capabilities"@), EntryAction::RunningCapabilities),
                    (Some("Running Byte Sets"@), EntryAction::RunningByteSets),
                    (Some("Stored Policies"@), EntryAction::StoredPolicies),
                    (Some("Stored Capabilities"@), EntryAction::StoredCapabilities),
                    (Some("Stored Byte Sets"@), EntryAction::StoredByteSets),
                    (Some("Change Forum's description"@), EntryAction::EditDescription),
                ]);
            },
            _ => {},
        }
        assert forall|m: MenuType| #[trigger] default_config_holds(m, c@[menu_index(m)]) by {
        }
    }
    c
}

} // verus!
