use y4music::config::{
    database_path, database_url, eq_hifi_filter, on_event, test_guild_id, ytdlp_extra_args, Route,
};
use y4music::discord::{ActionRow, Button, Colour};
use y4music::eq::default_hifi_profile;
use y4music::pagination::ids::{next, prev, target_page};
use y4music::pagination::{
    build_components, build_embed, handle_component_interaction, new_sessions, page_count, register,
    send_paginated, sweep_stale, total_pages, young, ListPress, ListSession, ListSessions, Listing,
};
use y4music::time::Duration;

fn lines(n: usize) -> Vec<String> {
    (0..n).map(|i| format!("line {i}")).collect()
}

fn session(n: usize, created_at: Duration) -> ListSession {
    ListSession {
        title: "List".to_string(),
        color: Colour::Purple,
        lines: lines(n),
        footer: "Total".to_string(),
        created_at,
    }
}

fn buttons(rows: &[ActionRow]) -> &Vec<Button> {
    match rows {
        [ActionRow::Buttons(buttons)] => buttons,
        _ => panic!("one row of buttons"),
    }
}

#[test]
fn ids_name_their_page() {
    assert_eq!(prev(3), "listpage:prev:3");
    assert_eq!(next(12), "listpage:next:12");
    for n in [0, 1, 99, usize::MAX] {
        assert_eq!(target_page(&prev(n)), Some(n));
        assert_eq!(target_page(&next(n)), Some(n));
        assert_ne!(prev(n), next(n));
    }
    assert_eq!(target_page("listpage:noop"), None);
    assert_eq!(target_page("listpage:next:x"), None);
    assert_eq!(target_page("listpage:next:"), None);
    assert_eq!(target_page("search:next:1"), None);
}

#[test]
fn pages_are_counted() {
    assert_eq!(total_pages(&lines(0)), 1);
    assert_eq!(total_pages(&lines(1)), 1);
    assert_eq!(total_pages(&lines(10)), 1);
    assert_eq!(total_pages(&lines(11)), 2);
    assert_eq!(page_count(usize::MAX), usize::MAX / 10 + 1);
}

#[test]
fn pages_show_their_lines() {
    let list = session(25, Duration::zero());
    let all: Vec<String> =
        (0..3).map(|page| build_embed(&list, page).description).collect();
    assert_eq!(all.join("\n"), lines(25).join("\n"));
    assert_eq!(build_embed(&list, 1).description.lines().count(), 10);
    assert_eq!(build_embed(&list, 99).description, build_embed(&list, 2).description);
    let embed = build_embed(&list, 0);
    assert_eq!(embed.title, "List");
    assert_eq!(embed.footer.as_deref(), Some("Total"));
    assert_eq!(embed.colour, Colour::Purple);
    assert_eq!(build_embed(&session(0, Duration::zero()), 0).description, "This playlist is empty.");
}

#[test]
fn buttons_stop_at_the_ends() {
    let first = build_components(&lines(25), 0);
    let ids: Vec<&str> = buttons(&first).iter().map(|b| b.custom_id.as_str()).collect();
    assert_eq!(ids, ["listpage:prev:0", "listpage:noop", "listpage:next:1"]);
    assert!(buttons(&first)[0].disabled && !buttons(&first)[2].disabled);
    assert_eq!(buttons(&first)[1].label.as_deref(), Some("Page 1/3"));
    assert!(buttons(&first)[1].disabled);
    let last = build_components(&lines(25), 7);
    let ids: Vec<&str> = buttons(&last).iter().map(|b| b.custom_id.as_str()).collect();
    assert_eq!(ids, ["listpage:prev:1", "listpage:noop", "listpage:next:2"]);
    assert!(!buttons(&last)[0].disabled && buttons(&last)[2].disabled);
    assert_eq!(buttons(&last)[1].label.as_deref(), Some("Page 3/3"));
}

#[test]
fn a_single_page_has_distinct_ids() {
    for n in [0, 1, 10] {
        let rows = build_components(&lines(n), 0);
        let b = buttons(&rows);
        assert_ne!(b[0].custom_id, b[2].custom_id);
        assert!(b[0].disabled && b[2].disabled);
    }
}

fn shown(press: ListPress) -> String {
    match press {
        ListPress::Update(page) => page.embed.description,
        other => panic!("a page, not {other:?}"),
    }
}

#[test]
fn presses_turn_the_pages_of_registered_lists() {
    let mut sessions: ListSessions = new_sessions();
    assert_eq!(handle_component_interaction(&next(1), 7, &sessions), ListPress::Acknowledge);
    let (list, page) = send_paginated(
        Listing {
            title: "List".to_string(),
            color: Colour::Blue,
            lines: lines(25),
            footer: "Total".to_string(),
            ephemeral: false,
        },
        Duration::from_secs(5),
    );
    assert_eq!(page.embed.description, lines(10).join("\n"));
    assert_eq!(list.created_at, Duration::from_secs(5));
    register(&mut sessions, 7, list);
    register(&mut sessions, 8, session(3, Duration::zero()));
    assert!(shown(handle_component_interaction(&next(1), 7, &sessions)).starts_with("line 10\n"));
    assert!(shown(handle_component_interaction(&prev(0), 7, &sessions)).starts_with("line 0\n"));
    assert_eq!(shown(handle_component_interaction(&next(4), 8, &sessions)), lines(3).join("\n"));
    assert_eq!(handle_component_interaction("listpage:noop", 7, &sessions), ListPress::Ignore);
    assert_eq!(handle_component_interaction(&next(1), 9, &sessions), ListPress::Acknowledge);
}

#[test]
fn registering_again_replaces_a_list() {
    let mut sessions = new_sessions();
    register(&mut sessions, 7, session(1, Duration::zero()));
    register(&mut sessions, 7, session(2, Duration::zero()));
    assert_eq!(shown(handle_component_interaction(&next(0), 7, &sessions)), lines(2).join("\n"));
}

#[test]
fn stale_lists_are_swept() {
    let mut sessions = new_sessions();
    register(&mut sessions, 1, session(1, Duration::from_secs(0)));
    register(&mut sessions, 2, session(1, Duration::from_secs(1)));
    register(&mut sessions, 3, session(1, Duration::from_secs(950)));
    sweep_stale(&mut sessions, Duration::from_secs(900));
    assert_eq!(handle_component_interaction(&next(0), 1, &sessions), ListPress::Acknowledge);
    assert_eq!(shown(handle_component_interaction(&next(0), 2, &sessions)), "line 0");
    assert_eq!(shown(handle_component_interaction(&next(0), 3, &sessions)), "line 0");
    assert!(young(Duration::from_secs(10), Duration::new(909, 999_999_999)));
    assert!(!young(Duration::from_secs(10), Duration::from_secs(910)));
}

#[test]
fn controls_are_routed_by_their_prefix() {
    assert_eq!(on_event("search:select"), Route::Search);
    assert_eq!(on_event("search:prev:3"), Route::Search);
    assert_eq!(on_event("listpage:next:1"), Route::List);
    assert_eq!(on_event("listpage:noop"), Route::List);
    assert_eq!(on_event("np:skip"), Route::Panel);
    assert_eq!(on_event("anything else"), Route::Panel);
}

#[test]
fn the_environment_configures_the_bot() {
    assert_eq!(database_url(None), "sqlite:///var/lib/y4music-rs/data.db");
    assert_eq!(database_url(Some("sqlite://x.db".to_string())), "sqlite://x.db");
    assert_eq!(database_path("sqlite:///var/x.db").as_deref(), Some("/var/x.db"));
    assert_eq!(database_path("postgres://x"), None);
    assert_eq!(test_guild_id(Some("123456789012345678")), Some(123456789012345678));
    assert_eq!(test_guild_id(Some(" 1")), None);
    assert_eq!(test_guild_id(None), None);
    assert_eq!(ytdlp_extra_args(Some("  --cookies c.txt\t-4 ")), ["--cookies", "c.txt", "-4"]);
    assert!(ytdlp_extra_args(None).is_empty());
    assert_eq!(eq_hifi_filter(Some("anull".to_string())), "anull");
    assert_eq!(eq_hifi_filter(None), default_hifi_profile().render());
}
