use surflux_terminal::keys::{
    handle_global_keys, handle_popup_input, route_key, AppState, GlobalAction, KeyCode, KeyInput,
    KeyRoute, Key, PopupOutcome, Redraw, CONTROL, POPUP_HELP, POPUP_SEARCH, POPUP_WATCHLIST,
    SHIFT, Transition, watchlist_key, popup_list_key, ListKey,
};

fn key(c: char) -> KeyInput {
    KeyInput { code: KeyCode::Char(c), modifiers: 0, plain_press: true }
}

fn code(code: KeyCode, modifiers: u8) -> KeyInput {
    KeyInput { code, modifiers, plain_press: true }
}

#[test]
fn control_c_exits_everywhere() {
    for s in [AppState::Pool, AppState::Watchlist, AppState::WatchlistPool] {
        assert_eq!(
            handle_global_keys(code(KeyCode::Char('c'), CONTROL), s, AppState::Watchlist),
            (GlobalAction::Exit, None)
        );
    }
}

#[test]
fn screen_switches() {
    assert_eq!(
        handle_global_keys(key('1'), AppState::Pool, AppState::Watchlist),
        (GlobalAction::Goto(AppState::Watchlist), Some(Redraw::All))
    );
    assert_eq!(
        handle_global_keys(key('1'), AppState::Watchlist, AppState::Watchlist),
        (GlobalAction::Nothing, None)
    );
    assert_eq!(
        handle_global_keys(key('t'), AppState::Pool, AppState::Watchlist).0,
        GlobalAction::Goto(AppState::WatchlistPool)
    );
    assert_eq!(
        handle_global_keys(code(KeyCode::Char('t'), SHIFT), AppState::WatchlistPool, AppState::Watchlist).0,
        GlobalAction::Goto(AppState::Pool)
    );
    assert_eq!(handle_global_keys(key('t'), AppState::Watchlist, AppState::Pool), (GlobalAction::Nothing, None));
    assert_eq!(
        handle_global_keys(code(KeyCode::Esc, 0), AppState::Pool, AppState::Watchlist),
        (GlobalAction::Goto(AppState::Watchlist), Some(Redraw::All))
    );
    assert_eq!(handle_global_keys(key('q'), AppState::Pool, AppState::Pool), (GlobalAction::Nothing, None));
}

#[test]
fn popups_indexes_refresh() {
    assert_eq!(
        handle_global_keys(key('g'), AppState::Watchlist, AppState::Watchlist),
        (GlobalAction::OpenWatchlistGroups, Some(Redraw::PopupWatchlist))
    );
    assert_eq!(handle_global_keys(key('g'), AppState::Pool, AppState::Watchlist), (GlobalAction::Nothing, None));
    assert_eq!(
        handle_global_keys(code(KeyCode::Char('W'), SHIFT), AppState::Pool, AppState::Watchlist),
        (GlobalAction::ShowIndex(1), Some(Redraw::PoolDetailAndWatchlist))
    );
    assert_eq!(handle_global_keys(key('E'), AppState::Pool, AppState::Pool).0, GlobalAction::ShowIndex(2));
    assert_eq!(
        handle_global_keys(key('R'), AppState::Watchlist, AppState::Pool),
        (GlobalAction::RefreshWatchlist, Some(Redraw::Watchlist))
    );
    assert_eq!(handle_global_keys(key('R'), AppState::Pool, AppState::Pool).0, GlobalAction::RefreshPool);
    assert_eq!(
        handle_global_keys(key('R'), AppState::WatchlistPool, AppState::Pool).0,
        GlobalAction::RefreshPoolAndWatchlist
    );
    assert_eq!(handle_global_keys(key('?'), AppState::Pool, AppState::Pool).0, GlobalAction::OpenHelp);
    assert_eq!(handle_global_keys(key('/'), AppState::Pool, AppState::Pool).0, GlobalAction::OpenSearch);
}

#[test]
fn moves_go_to_the_screen() {
    assert_eq!(
        handle_global_keys(code(KeyCode::Up, 0), AppState::Watchlist, AppState::Pool),
        (GlobalAction::Nav(Key::Up), Some(Redraw::Watchlist))
    );
    assert_eq!(
        handle_global_keys(code(KeyCode::Char('j'), SHIFT), AppState::Pool, AppState::Pool),
        (GlobalAction::Nav(Key::Down), Some(Redraw::PoolDetail))
    );
    assert_eq!(
        handle_global_keys(key('h'), AppState::Watchlist, AppState::Pool),
        (GlobalAction::Nav(Key::Left), Some(Redraw::All))
    );
    assert_eq!(
        handle_global_keys(code(KeyCode::Tab, 0), AppState::Pool, AppState::Pool),
        (GlobalAction::Nav(Key::Tab), Some(Redraw::PoolDetail))
    );
    assert_eq!(
        handle_global_keys(code(KeyCode::BackTab, SHIFT), AppState::Pool, AppState::Pool).0,
        GlobalAction::Nav(Key::BackTab)
    );
    assert_eq!(
        handle_global_keys(code(KeyCode::Enter, 0), AppState::Pool, AppState::Pool),
        (GlobalAction::Nav(Key::Enter), Some(Redraw::All))
    );
    let released = KeyInput { code: KeyCode::Up, modifiers: 0, plain_press: false };
    assert_eq!(handle_global_keys(released, AppState::Pool, AppState::Pool), (GlobalAction::Nothing, None));
}

#[test]
fn keys_are_routed() {
    assert_eq!(route_key(key('`'), POPUP_HELP, AppState::Pool), KeyRoute::ToggleLog);
    assert_eq!(route_key(key('x'), POPUP_SEARCH, AppState::Pool), KeyRoute::Popup);
    assert_eq!(route_key(key('x'), 0, AppState::Error), KeyRoute::Quit);
    assert_eq!(route_key(key('q'), 0, AppState::Loading), KeyRoute::Quit);
    assert_eq!(route_key(key('x'), 0, AppState::Loading), KeyRoute::Ignore);
    assert_eq!(route_key(key('x'), 0, AppState::Watchlist), KeyRoute::Global);
}

#[test]
fn popup_outcomes() {
    assert_eq!(
        handle_popup_input(POPUP_HELP, AppState::Pool, false, false),
        PopupOutcome { close: true, use_choice: false, next_state: None }
    );
    assert_eq!(
        handle_popup_input(POPUP_SEARCH, AppState::Pool, true, true),
        PopupOutcome { close: true, use_choice: true, next_state: Some(AppState::Pool) }
    );
    assert_eq!(
        handle_popup_input(POPUP_SEARCH, AppState::Watchlist, false, true).next_state,
        Some(AppState::WatchlistPool)
    );
    assert_eq!(
        handle_popup_input(POPUP_WATCHLIST, AppState::Watchlist, false, false),
        PopupOutcome { close: false, use_choice: false, next_state: None }
    );
    assert_eq!(
        handle_popup_input(POPUP_WATCHLIST, AppState::Watchlist, true, false),
        PopupOutcome { close: true, use_choice: false, next_state: None }
    );
    assert_eq!(AppState::default(), AppState::Loading);
}

#[test]
fn screen_changes_do_their_work() {
    let none = Transition { remember_watchlist: false, clear_klines: false, refresh_watchlist: false, refresh_pool: false };
    assert_eq!(AppState::Pool.transition(AppState::Pool), none);
    assert_eq!(
        AppState::Loading.transition(AppState::Watchlist),
        Transition { refresh_watchlist: true, ..none }
    );
    assert_eq!(
        AppState::Watchlist.transition(AppState::WatchlistPool),
        Transition { remember_watchlist: true, refresh_pool: true, ..none }
    );
    assert_eq!(
        AppState::Pool.transition(AppState::WatchlistPool),
        Transition { clear_klines: true, refresh_watchlist: true, refresh_pool: true, ..none }
    );
    assert_eq!(
        AppState::WatchlistPool.transition(AppState::Watchlist),
        Transition { clear_klines: true, ..none }
    );
}

#[test]
fn watchlist_rows_wrap_and_open() {
    assert_eq!(watchlist_key(Key::Down, None, 3), (Some(0), None));
    assert_eq!(watchlist_key(Key::Down, Some(2), 3), (Some(0), None));
    assert_eq!(watchlist_key(Key::Down, Some(0), 3), (Some(1), None));
    assert_eq!(watchlist_key(Key::Up, None, 3), (Some(2), None));
    assert_eq!(watchlist_key(Key::Up, Some(0), 3), (Some(2), None));
    assert_eq!(watchlist_key(Key::Up, Some(2), 3), (Some(1), None));
    assert_eq!(watchlist_key(Key::Down, Some(1), 0), (None, None));
    assert_eq!(watchlist_key(Key::Enter, Some(1), 3), (Some(1), Some(1)));
    assert_eq!(watchlist_key(Key::Enter, Some(5), 3), (Some(5), None));
    assert_eq!(watchlist_key(Key::Enter, None, 3), (None, None));
    assert_eq!(watchlist_key(Key::Left, Some(1), 3), (Some(1), None));
}

#[test]
fn popup_list_keys() {
    assert_eq!(popup_list_key(code(KeyCode::Esc, 0), Some(1), 3), ListKey::Hide);
    assert_eq!(popup_list_key(code(KeyCode::Enter, 0), Some(1), 3), ListKey::Choose(1));
    assert_eq!(popup_list_key(code(KeyCode::Enter, 0), None, 3), ListKey::Nothing);
    assert_eq!(popup_list_key(code(KeyCode::Up, 0), None, 3), ListKey::Select(Some(2)));
    assert_eq!(popup_list_key(code(KeyCode::Down, 0), Some(2), 3), ListKey::Select(Some(0)));
    assert_eq!(popup_list_key(code(KeyCode::Down, 0), None, 0), ListKey::Select(None));
    assert_eq!(popup_list_key(key('a'), Some(1), 3), ListKey::Edit);
    assert_eq!(popup_list_key(code(KeyCode::Up, SHIFT), Some(1), 3), ListKey::Edit);
}
