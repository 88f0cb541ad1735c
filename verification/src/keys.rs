use vstd::prelude::*;

use crate::types::Counter;

verus! {

/// The screens of the terminal.
#[derive(Clone, Copy, Debug, PartialEq, Eq, Structural)]
pub enum AppState {
    Error,
    Loading,
    Pool,
    Watchlist,
    WatchlistPool,
}

impl Default for AppState {
    fn default() -> (r: Self)
        ensures
            r == AppState::Loading,
    {
        AppState::Loading
    }
}

/// Whether a screen shows the watchlist.
pub open spec fn shows_watchlist(s: AppState) -> bool {
    s == AppState::Watchlist || s == AppState::WatchlistPool
}

/// Whether a screen shows one pool.
pub open spec fn shows_pool(s: AppState) -> bool {
    s == AppState::Pool || s == AppState::WatchlistPool
}

/// What a change of screen does: leaving the watchlist remembers it as the
/// screen to go back to; leaving a pool drops the candlesticks; coming to a
/// watchlist screen from elsewhere reloads the watchlist; coming to a pool
/// screen reloads that pool.
#[derive(Clone, Copy, Debug, PartialEq, Eq, Structural)]
pub struct Transition {
    pub remember_watchlist: bool,
    pub clear_klines: bool,
    pub refresh_watchlist: bool,
    pub refresh_pool: bool,
}

impl AppState {
    /// The work that going from this screen to `next` calls for; none when
    /// the screen stays the same.
    pub fn transition(self, next: AppState) -> (r: Transition)
        ensures
            self == next ==> !r.remember_watchlist && !r.clear_klines && !r.refresh_watchlist && !r.refresh_pool,
            self != next ==> {
                &&& r.remember_watchlist == (self == AppState::Watchlist)
                &&& r.clear_klines == shows_pool(self)
                &&& r.refresh_watchlist == (shows_watchlist(next) && !shows_watchlist(self))
                &&& r.refresh_pool == shows_pool(next)
            },
    {
        if self == next {
            return Transition {
                remember_watchlist: false,
                clear_klines: false,
                refresh_watchlist: false,
                refresh_pool: false,
            };
        }
        let from_watch = self == AppState::Watchlist || self == AppState::WatchlistPool;
        let to_watch = next == AppState::Watchlist || next == AppState::WatchlistPool;
        Transition {
            remember_watchlist: self == AppState::Watchlist,
            clear_klines: self == AppState::Pool || self == AppState::WatchlistPool,
            refresh_watchlist: to_watch && !from_watch,
            refresh_pool: next == AppState::Pool || next == AppState::WatchlistPool,
        }
    }
}

/// A key of the keyboard.
#[derive(Clone, Copy, Debug, PartialEq, Eq, Structural)]
pub enum KeyCode {
    Char(char),
    Up,
    Down,
    Left,
    Right,
    Tab,
    BackTab,
    Enter,
    Esc,
    Other,
}

/// The modifier bit of the shift key.
pub const SHIFT: u8 = 0b1;

/// The modifier bit of the control key.
pub const CONTROL: u8 = 0b10;

/// A key event: the key, the bits of the modifiers held, and whether it is a
/// plain press (a press with no lock or keypad state).
#[derive(Clone, Copy, Debug, PartialEq, Eq, Structural)]
pub struct KeyInput {
    pub code: KeyCode,
    pub modifiers: u8,
    pub plain_press: bool,
}

/// The key pressed with no modifier.
pub open spec fn is_key(k: KeyInput, code: KeyCode) -> bool {
    k.code == code && k.modifiers == 0 && k.plain_press
}

/// The key pressed with shift alone.
pub open spec fn is_shift(k: KeyInput, code: KeyCode) -> bool {
    k.code == code && k.modifiers == SHIFT && k.plain_press
}

/// The key pressed with control alone.
pub open spec fn is_ctrl(k: KeyInput, code: KeyCode) -> bool {
    k.code == code && k.modifiers == CONTROL && k.plain_press
}

/// The key pressed with no modifier or with shift.
pub open spec fn is_key_or_shift(k: KeyInput, code: KeyCode) -> bool {
    is_key(k, code) || is_shift(k, code)
}

/// A move or a choice handed to the screen shown.
#[derive(Clone, Copy, Debug, PartialEq, Eq, Structural)]
pub enum Key {
    Up,
    Down,
    Left,
    Right,
    Tab,
    BackTab,
    Enter,
}

/// The row selected after a move down a list of `len` rows: the first where
/// none was selected, and round from the last to the first.
pub open spec fn next_row_spec(selected: Option<usize>, len: usize) -> Option<usize> {
    if len == 0 {
        None
    } else {
        match selected {
            Some(i) => Some(((i + 1) % (len as int)) as usize),
            None => Some(0),
        }
    }
}

/// The row selected after a move up a list of `len` rows: the last where none
/// was selected, and round from the first to the last.
pub open spec fn prev_row_spec(selected: Option<usize>, len: usize) -> Option<usize> {
    if len == 0 {
        None
    } else {
        match selected {
            Some(i) => Some(if i == 0 { (len - 1) as usize } else { (i - 1) as usize }),
            None => Some((len - 1) as usize),
        }
    }
}

/// The selection after a move down a list (see `next_row_spec`).
pub fn next_row(selected: Option<usize>, len: usize) -> (r: Option<usize>)
    ensures
        r == next_row_spec(selected, len),
{
    if len == 0 {
        return None;
    }
    match selected {
        Some(i) => {
            let m = i % len;
            proof {
                vstd::arithmetic::div_mod::lemma_add_mod_noop(i as int, 1, len as int);
                vstd::arithmetic::div_mod::lemma_mod_twice(i as int, len as int);
                if len > 1 {
                    vstd::arithmetic::div_mod::lemma_small_mod(1, len as nat);
                }
            }
            Some((m + 1) % len)
        },
        None => Some(0),
    }
}

/// The selection after a move up a list (see `prev_row_spec`).
pub fn prev_row(selected: Option<usize>, len: usize) -> (r: Option<usize>)
    ensures
        r == prev_row_spec(selected, len),
{
    if len == 0 {
        return None;
    }
    match selected {
        Some(i) => if i == 0 {
            Some(len - 1)
        } else {
            Some(i - 1)
        },
        None => Some(len - 1),
    }
}

/// What a key does to the watchlist table of `len` rows: the selection after
/// it, and the row it opens. Up and Down move the selection round the table;
/// Enter opens the selected row where there is one; other keys do nothing.
pub fn watchlist_key(key: Key, selected: Option<usize>, len: usize) -> (r: (Option<usize>, Option<usize>))
    ensures
        key == Key::Down ==> r == (next_row_spec(selected, len), None::<usize>),
        key == Key::Up ==> r == (prev_row_spec(selected, len), None::<usize>),
        key == Key::Enter ==> r == (selected, match selected {
            Some(i) => if i < len { Some(i) } else { None },
            None => None,
        }),
        key != Key::Down && key != Key::Up && key != Key::Enter ==> r == (selected, None::<usize>),
{
    match key {
        Key::Down => (next_row(selected, len), None),
        Key::Up => (prev_row(selected, len), None),
        Key::Enter => match selected {
            Some(i) => if i < len {
                (selected, Some(i))
            } else {
                (selected, None)
            },
            None => (selected, None),
        },
        _ => (selected, None),
    }
}

/// What a key does to a popup's list: the search and group popups, whose
/// rows can be selected and chosen, and whose text input takes other keys.
#[derive(Clone, Copy, Debug, PartialEq, Eq, Structural)]
pub enum ListKey {
    /// Esc: the popup hides with nothing chosen.
    Hide,
    /// Enter on a selected row: that row is chosen; the popup hides and its
    /// input, selection and results start over.
    Choose(usize),
    /// Up or Down: the selection moves to this.
    Select(Option<usize>),
    /// Any other key goes to the text input.
    Edit,
    /// Enter with no row selected: nothing happens.
    Nothing,
}

/// What a key does to a popup's list of `shown` rows with `selected` selected.
pub open spec fn list_key_spec(k: KeyInput, selected: Option<usize>, shown: usize) -> ListKey {
    if is_key(k, KeyCode::Esc) {
        ListKey::Hide
    } else if is_key(k, KeyCode::Enter) {
        match selected {
            Some(i) => ListKey::Choose(i),
            None => ListKey::Nothing,
        }
    } else if is_key(k, KeyCode::Up) {
        ListKey::Select(prev_row_spec(selected, shown))
    } else if is_key(k, KeyCode::Down) {
        ListKey::Select(next_row_spec(selected, shown))
    } else {
        ListKey::Edit
    }
}

/// What a key does to a popup's list (see `list_key_spec`).
pub fn popup_list_key(k: KeyInput, selected: Option<usize>, shown: usize) -> (r: ListKey)
    ensures
        r == list_key_spec(k, selected, shown),
{
    if key_is(k, KeyCode::Esc) {
        ListKey::Hide
    } else if key_is(k, KeyCode::Enter) {
        match selected {
            Some(i) => ListKey::Choose(i),
            None => ListKey::Nothing,
        }
    } else if key_is(k, KeyCode::Up) {
        ListKey::Select(prev_row(selected, shown))
    } else if key_is(k, KeyCode::Down) {
        ListKey::Select(next_row(selected, shown))
    } else {
        ListKey::Edit
    }
}

/// The pool shown on the pool screens.
#[derive(Clone, Debug)]
pub struct PoolDetail(pub Counter);

/// What must be drawn again.
#[derive(Clone, Copy, Debug, PartialEq, Eq, Structural)]
pub enum Redraw {
    All,
    Watchlist,
    PoolDetail,
    PoolDetailAndWatchlist,
    PopupWatchlist,
    PopupHelp,
    PopupSearch,
}

/// What a key does on a screen where no popup is open.
#[derive(Clone, Copy, Debug, PartialEq, Eq, Structural)]
pub enum GlobalAction {
    /// Leave the terminal.
    Exit,
    /// Switch to a screen.
    Goto(AppState),
    /// Open the popup that picks a watchlist group.
    OpenWatchlistGroups,
    /// Show the pool of the footer's index at that position.
    ShowIndex(usize),
    RefreshWatchlist,
    RefreshPool,
    RefreshPoolAndWatchlist,
    OpenHelp,
    OpenSearch,
    /// Hand a move or a choice to the screen.
    Nav(Key),
    Nothing,
}

/// The part a move redraws: the watchlist on a watchlist screen, the pool on
/// the pool screen, everything elsewhere.
pub open spec fn vertical_redraw(state: AppState) -> Redraw {
    match state {
        AppState::Watchlist | AppState::WatchlistPool => Redraw::Watchlist,
        AppState::Pool => Redraw::PoolDetail,
        _ => Redraw::All,
    }
}

/// The part a sideways move redraws: the pool on the pool screen, everything
/// elsewhere.
pub open spec fn sideways_redraw(state: AppState) -> Redraw {
    match state {
        AppState::Pool => Redraw::PoolDetail,
        _ => Redraw::All,
    }
}

/// What a key does on a screen with no popup, and what it redraws (`None`:
/// nothing). `last_state` is the screen left last.
pub open spec fn global_key_spec(k: KeyInput, state: AppState, last_state: AppState) -> (GlobalAction, Option<Redraw>) {
    if is_ctrl(k, KeyCode::Char('c')) {
        (GlobalAction::Exit, None)
    } else if is_key(k, KeyCode::Char('1')) && state != AppState::Watchlist {
        (GlobalAction::Goto(AppState::Watchlist), Some(Redraw::All))
    } else if (is_key(k, KeyCode::Char('g')) || is_key(k, KeyCode::Char('G'))) && (state == AppState::Watchlist
        || state == AppState::WatchlistPool) {
        (GlobalAction::OpenWatchlistGroups, Some(Redraw::PopupWatchlist))
    } else if is_key_or_shift(k, KeyCode::Char('Q')) {
        (GlobalAction::ShowIndex(0), Some(Redraw::PoolDetailAndWatchlist))
    } else if is_key_or_shift(k, KeyCode::Char('W')) {
        (GlobalAction::ShowIndex(1), Some(Redraw::PoolDetailAndWatchlist))
    } else if is_key_or_shift(k, KeyCode::Char('E')) {
        (GlobalAction::ShowIndex(2), Some(Redraw::PoolDetailAndWatchlist))
    } else if is_key_or_shift(k, KeyCode::Char('t')) {
        if state == AppState::Pool {
            (GlobalAction::Goto(AppState::WatchlistPool), Some(Redraw::PoolDetailAndWatchlist))
        } else if state == AppState::WatchlistPool {
            (GlobalAction::Goto(AppState::Pool), Some(Redraw::PoolDetailAndWatchlist))
        } else {
            (GlobalAction::Nothing, None)
        }
    } else if is_key_or_shift(k, KeyCode::Char('R')) {
        match state {
            AppState::Watchlist => (GlobalAction::RefreshWatchlist, Some(Redraw::Watchlist)),
            AppState::WatchlistPool => (GlobalAction::RefreshPoolAndWatchlist, Some(Redraw::PoolDetailAndWatchlist)),
            AppState::Pool => (GlobalAction::RefreshPool, Some(Redraw::PoolDetail)),
            _ => (GlobalAction::Nothing, None),
        }
    } else if is_key(k, KeyCode::Char('?')) {
        (GlobalAction::OpenHelp, Some(Redraw::PopupHelp))
    } else if is_key(k, KeyCode::Char('/')) {
        (GlobalAction::OpenSearch, Some(Redraw::PopupSearch))
    } else if is_key(k, KeyCode::Esc) || is_key(k, KeyCode::Char('q')) {
        if last_state != state {
            (GlobalAction::Goto(last_state), Some(Redraw::All))
        } else {
            (GlobalAction::Nothing, None)
        }
    } else if is_key(k, KeyCode::Up) || is_key_or_shift(k, KeyCode::Char('k')) {
        (GlobalAction::Nav(Key::Up), Some(vertical_redraw(state)))
    } else if is_key(k, KeyCode::Down) || is_key_or_shift(k, KeyCode::Char('j')) {
        (GlobalAction::Nav(Key::Down), Some(vertical_redraw(state)))
    } else if is_key(k, KeyCode::Left) || is_key_or_shift(k, KeyCode::Char('h')) {
        (GlobalAction::Nav(Key::Left), Some(sideways_redraw(state)))
    } else if is_key(k, KeyCode::Right) || is_key_or_shift(k, KeyCode::Char('l')) {
        (GlobalAction::Nav(Key::Right), Some(sideways_redraw(state)))
    } else if is_key(k, KeyCode::Tab) {
        (GlobalAction::Nav(Key::Tab), Some(sideways_redraw(state)))
    } else if is_key(k, KeyCode::Enter) {
        (GlobalAction::Nav(Key::Enter), Some(Redraw::All))
    } else if is_shift(k, KeyCode::BackTab) {
        (GlobalAction::Nav(Key::BackTab), Some(sideways_redraw(state)))
    } else {
        (GlobalAction::Nothing, None)
    }
}

fn key_is(k: KeyInput, code: KeyCode) -> (r: bool)
    ensures
        r == is_key(k, code),
{
    k.code == code && k.modifiers == 0 && k.plain_press
}

fn shift_is(k: KeyInput, code: KeyCode) -> (r: bool)
    ensures
        r == is_shift(k, code),
{
    k.code == code && k.modifiers == SHIFT && k.plain_press
}

fn ctrl_is(k: KeyInput, code: KeyCode) -> (r: bool)
    ensures
        r == is_ctrl(k, code),
{
    k.code == code && k.modifiers == CONTROL && k.plain_press
}

fn key_or_shift_is(k: KeyInput, code: KeyCode) -> (r: bool)
    ensures
        r == is_key_or_shift(k, code),
{
    key_is(k, code) || shift_is(k, code)
}

fn vertical_redraw_of(state: AppState) -> (r: Redraw)
    ensures
        r == vertical_redraw(state),
{
    match state {
        AppState::Watchlist | AppState::WatchlistPool => Redraw::Watchlist,
        AppState::Pool => Redraw::PoolDetail,
        _ => Redraw::All,
    }
}

fn sideways_redraw_of(state: AppState) -> (r: Redraw)
    ensures
        r == sideways_redraw(state),
{
    match state {
        AppState::Pool => Redraw::PoolDetail,
        _ => Redraw::All,
    }
}

/// What a key does on a screen with no popup open, and what it redraws.
pub fn handle_global_keys(k: KeyInput, state: AppState, last_state: AppState) -> (r: (GlobalAction, Option<Redraw>))
    ensures
        r == global_key_spec(k, state, last_state),
{
    if ctrl_is(k, KeyCode::Char('c')) {
        (GlobalAction::Exit, None)
    } else if key_is(k, KeyCode::Char('1')) && state != AppState::Watchlist {
        (GlobalAction::Goto(AppState::Watchlist), Some(Redraw::All))
    } else if (key_is(k, KeyCode::Char('g')) || key_is(k, KeyCode::Char('G'))) && (state == AppState::Watchlist
        || state == AppState::WatchlistPool) {
        (GlobalAction::OpenWatchlistGroups, Some(Redraw::PopupWatchlist))
    } else if key_or_shift_is(k, KeyCode::Char('Q')) {
        (GlobalAction::ShowIndex(0), Some(Redraw::PoolDetailAndWatchlist))
    } else if key_or_shift_is(k, KeyCode::Char('W')) {
        (GlobalAction::ShowIndex(1), Some(Redraw::PoolDetailAndWatchlist))
    } else if key_or_shift_is(k, KeyCode::Char('E')) {
        (GlobalAction::ShowIndex(2), Some(Redraw::PoolDetailAndWatchlist))
    } else if key_or_shift_is(k, KeyCode::Char('t')) {
        if state == AppState::Pool {
            (GlobalAction::Goto(AppState::WatchlistPool), Some(Redraw::PoolDetailAndWatchlist))
        } else if state == AppState::WatchlistPool {
            (GlobalAction::Goto(AppState::Pool), Some(Redraw::PoolDetailAndWatchlist))
        } else {
            (GlobalAction::Nothing, None)
        }
    } else if key_or_shift_is(k, KeyCode::Char('R')) {
        match state {
            AppState::Watchlist => (GlobalAction::RefreshWatchlist, Some(Redraw::Watchlist)),
            AppState::WatchlistPool => (GlobalAction::RefreshPoolAndWatchlist, Some(Redraw::PoolDetailAndWatchlist)),
            AppState::Pool => (GlobalAction::RefreshPool, Some(Redraw::PoolDetail)),
            _ => (GlobalAction::Nothing, None),
        }
    } else if key_is(k, KeyCode::Char('?')) {
        (GlobalAction::OpenHelp, Some(Redraw::PopupHelp))
    } else if key_is(k, KeyCode::Char('/')) {
        (GlobalAction::OpenSearch, Some(Redraw::PopupSearch))
    } else if key_is(k, KeyCode::Esc) || key_is(k, KeyCode::Char('q')) {
        if last_state != state {
            (GlobalAction::Goto(last_state), Some(Redraw::All))
        } else {
            (GlobalAction::Nothing, None)
        }
    } else if key_is(k, KeyCode::Up) || key_or_shift_is(k, KeyCode::Char('k')) {
        (GlobalAction::Nav(Key::Up), Some(vertical_redraw_of(state)))
    } else if key_is(k, KeyCode::Down) || key_or_shift_is(k, KeyCode::Char('j')) {
        (GlobalAction::Nav(Key::Down), Some(vertical_redraw_of(state)))
    } else if key_is(k, KeyCode::Left) || key_or_shift_is(k, KeyCode::Char('h')) {
        (GlobalAction::Nav(Key::Left), Some(sideways_redraw_of(state)))
    } else if key_is(k, KeyCode::Right) || key_or_shift_is(k, KeyCode::Char('l')) {
        (GlobalAction::Nav(Key::Right), Some(sideways_redraw_of(state)))
    } else if key_is(k, KeyCode::Tab) {
        (GlobalAction::Nav(Key::Tab), Some(sideways_redraw_of(state)))
    } else if key_is(k, KeyCode::Enter) {
        (GlobalAction::Nav(Key::Enter), Some(Redraw::All))
    } else if shift_is(k, KeyCode::BackTab) {
        (GlobalAction::Nav(Key::BackTab), Some(sideways_redraw_of(state)))
    } else {
        (GlobalAction::Nothing, None)
    }
}

/// A key never switches to the screen already shown.
pub proof fn lemma_no_switch_to_current(k: KeyInput, state: AppState, last_state: AppState)
    ensures
        global_key_spec(k, state, last_state).0 matches GlobalAction::Goto(s) ==> s != state,
{
}

/// Control-c leaves from every screen.
pub proof fn lemma_ctrl_c_exits(k: KeyInput, state: AppState, last_state: AppState)
    requires
        is_ctrl(k, KeyCode::Char('c')),
    ensures
        global_key_spec(k, state, last_state).0 == GlobalAction::Exit,
{
}

/// `t` takes the pool screen to the watchlist's pool screen, and that one
/// back to the pool screen.
pub proof fn lemma_t_toggles(k: KeyInput, last_state: AppState)
    requires
        is_key_or_shift(k, KeyCode::Char('t')),
    ensures
        global_key_spec(k, AppState::Pool, last_state).0 == GlobalAction::Goto(AppState::WatchlistPool),
        global_key_spec(k, AppState::WatchlistPool, last_state).0 == GlobalAction::Goto(AppState::Pool),
{
}

/// Escape goes back to the screen left last, where that is another one.
pub proof fn lemma_escape_goes_back(k: KeyInput, state: AppState, last_state: AppState)
    requires
        is_key(k, KeyCode::Esc),
        state != last_state,
    ensures
        global_key_spec(k, state, last_state).0 == GlobalAction::Goto(last_state),
{
}

// ---------------------------------------------------------------------------
// Popups and the event loop
// ---------------------------------------------------------------------------

/// The popup bit of the help.
pub const POPUP_HELP: u8 = 0b1;

/// The popup bit of the pool search.
pub const POPUP_SEARCH: u8 = 0b10;

/// The popup bit of the watchlist groups.
pub const POPUP_WATCHLIST: u8 = 0b100;

/// Where a key goes.
#[derive(Clone, Copy, Debug, PartialEq, Eq, Structural)]
pub enum KeyRoute {
    /// Show or hide the log panel.
    ToggleLog,
    /// To the popup open.
    Popup,
    /// Leave the terminal.
    Quit,
    /// Nowhere.
    Ignore,
    /// To the screen shown (see `handle_global_keys`).
    Global,
}

/// Where a key goes: the backquote (with no modifier) shows or hides the log
/// panel; with a popup open, to the popup; on the error screen any key
/// leaves; while loading, control-c or `q` leaves and other keys are
/// ignored; on the other screens, to the screen.
pub open spec fn route_key_spec(k: KeyInput, popup: u8, state: AppState) -> KeyRoute {
    if k.code == KeyCode::Char('`') && k.modifiers == 0 {
        KeyRoute::ToggleLog
    } else if popup != 0 {
        KeyRoute::Popup
    } else {
        match state {
            AppState::Error => KeyRoute::Quit,
            AppState::Loading => if is_ctrl(k, KeyCode::Char('c')) || is_key(k, KeyCode::Char('q')) {
                KeyRoute::Quit
            } else {
                KeyRoute::Ignore
            },
            _ => KeyRoute::Global,
        }
    }
}

/// Where a key goes (see `route_key_spec`).
pub fn route_key(k: KeyInput, popup: u8, state: AppState) -> (r: KeyRoute)
    ensures
        r == route_key_spec(k, popup, state),
{
    if k.code == KeyCode::Char('`') && k.modifiers == 0 {
        KeyRoute::ToggleLog
    } else if popup != 0 {
        KeyRoute::Popup
    } else {
        match state {
            AppState::Error => KeyRoute::Quit,
            AppState::Loading => if ctrl_is(k, KeyCode::Char('c')) || key_is(k, KeyCode::Char('q')) {
                KeyRoute::Quit
            } else {
                KeyRoute::Ignore
            },
            _ => KeyRoute::Global,
        }
    }
}

/// What follows a key handed to a popup: whether the popup closes, and
/// whether the item chosen is used.
#[derive(Clone, Copy, Debug, PartialEq, Eq, Structural)]
pub struct PopupOutcome {
    pub close: bool,
    pub use_choice: bool,
    pub next_state: Option<AppState>,
}

/// A key handed to the popup `popup` that the popup's search answered with
/// `hidden` and a choice (`chosen`): the help closes on any key; a search
/// closes when hidden or when a choice is made; a chosen watchlist group is
/// used; a chosen pool is shown on the pool screen where that is the screen,
/// on the watchlist's pool screen otherwise.
pub open spec fn popup_outcome_spec(popup: u8, state: AppState, hidden: bool, chosen: bool) -> PopupOutcome {
    if popup == POPUP_WATCHLIST {
        PopupOutcome { close: hidden || chosen, use_choice: chosen, next_state: None }
    } else if popup == POPUP_SEARCH {
        PopupOutcome {
            close: hidden || chosen,
            use_choice: chosen,
            next_state: if chosen {
                Some(if state == AppState::Pool { AppState::Pool } else { AppState::WatchlistPool })
            } else {
                None
            },
        }
    } else if popup == POPUP_HELP {
        PopupOutcome { close: true, use_choice: false, next_state: None }
    } else {
        PopupOutcome { close: false, use_choice: false, next_state: None }
    }
}

/// What follows a key handed to a popup (see `popup_outcome_spec`).
pub fn handle_popup_input(popup: u8, state: AppState, hidden: bool, chosen: bool) -> (r: PopupOutcome)
    ensures
        r == popup_outcome_spec(popup, state, hidden, chosen),
{
    if popup == POPUP_WATCHLIST {
        PopupOutcome { close: hidden || chosen, use_choice: chosen, next_state: None }
    } else if popup == POPUP_SEARCH {
        PopupOutcome {
            close: hidden || chosen,
            use_choice: chosen,
            next_state: if chosen {
                Some(
                    if state == AppState::Pool {
                        AppState::Pool
                    } else {
                        AppState::WatchlistPool
                    },
                )
            } else {
                None
            },
        }
    } else if popup == POPUP_HELP {
        PopupOutcome { close: true, use_choice: false, next_state: None }
    } else {
        PopupOutcome { close: false, use_choice: false, next_state: None }
    }
}

} // verus!
