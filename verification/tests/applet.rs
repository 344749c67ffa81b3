use site_health::app::AppModel;
use site_health::config::{Config, DEFAULT_CHECK_INTERVAL_SECS, DEFAULT_SITES};
use site_health::message::{Action, Message};
use site_health::site_url::{parse_site_url, SiteUrl};
use site_health::view::{
    input_changed, interval_changed, popup_layout, status_text, PopupPart, INTERVAL_MAX_MINUTES,
};
use site_health::watch::{check_result, WatchEvent, WatchStep};

fn config(sites: &[&str]) -> Config {
    Config { sites: sites.iter().map(|s| s.to_string()).collect(), check_interval_secs: 300 }
}

fn running(sites: &[&str]) -> AppModel {
    AppModel::init(Some(Ok(config(sites))))
}

fn check(app: &mut AppModel, domain: &str, up: bool) -> Action {
    app.update(Message::CheckResult(domain.to_string(), up))
}

#[test]
fn default_settings() {
    let config = Config::default();
    assert_eq!(config.sites, vec!["captainslounge.nl", "draityachts.nl", "dedrait.com"]);
    assert_eq!(config.sites, DEFAULT_SITES);
    assert_eq!(config.check_interval_secs, 300);
    assert_eq!(DEFAULT_CHECK_INTERVAL_SECS, 300);
    assert_eq!(config.clone(), config);
}

#[test]
fn a_default_model_watches_nothing() {
    let app = AppModel::default();
    assert!(app.domain_list().is_empty());
    assert_eq!(app.config, Config::default());
    assert!(app.popup.is_none() && !app.can_persist && app.new_site_input.is_empty());
}

#[test]
fn starts_without_settings() {
    let app = AppModel::init(None);
    assert_eq!(app.domain_list(), DEFAULT_SITES);
    assert_eq!(app.config, Config::default());
    assert!(!app.can_persist);
    assert!(app.sites.iter().all(|site| site.up.is_none()));
}

#[test]
fn starts_from_stored_settings() {
    let stored = config(&["http://https://a.nl/", " b.nl"]);
    let app = AppModel::init(Some(Ok(stored.clone())));
    assert_eq!(app.domain_list(), vec!["a.nl", "b.nl"]);
    assert_eq!(app.config, stored);
    assert!(app.can_persist);
    let partly = AppModel::init(Some(Err(stored)));
    assert_eq!(partly.domain_list(), vec!["a.nl", "b.nl"]);
    assert!(partly.can_persist);
}

#[test]
fn first_check_is_announced_only_if_down() {
    let mut app = running(&["a.nl", "b.nl"]);
    assert!(matches!(check(&mut app, "a.nl", true), Action::Nothing));
    match check(&mut app, "b.nl", false) {
        Action::Notify(n) => {
            assert_eq!(n.urgency, "critical");
            assert_eq!(n.summary, "🔴 b.nl is DOWN");
            assert_eq!(n.body, "HTTPS check failed");
        }
        other => panic!("{other:?}"),
    }
    assert_eq!(app.sites[0].up, Some(true));
    assert_eq!(app.sites[1].up, Some(false));
}

#[test]
fn changes_are_announced_once() {
    let mut app = running(&["a.nl"]);
    assert!(matches!(check(&mut app, "a.nl", false), Action::Notify(_)));
    assert!(matches!(check(&mut app, "a.nl", false), Action::Nothing));
    match check(&mut app, "a.nl", true) {
        Action::Notify(n) => {
            assert_eq!(n.urgency, "normal");
            assert_eq!(n.summary, "🟢 a.nl is back UP");
            assert_eq!(n.body, "Site is responding normally again");
        }
        other => panic!("{other:?}"),
    }
    assert!(matches!(check(&mut app, "a.nl", true), Action::Nothing));
}

#[test]
fn results_for_unknown_sites_are_ignored() {
    let mut app = running(&["a.nl"]);
    assert!(matches!(check(&mut app, "b.nl", false), Action::Nothing));
    assert_eq!(app.sites[0].up, None);
    assert_eq!(app.sites.len(), 1);
}

#[test]
fn of_repeated_sites_the_first_is_updated() {
    let mut app = running(&["a.nl", "a.nl"]);
    check(&mut app, "a.nl", true);
    assert_eq!(app.sites[0].up, Some(true));
    assert_eq!(app.sites[1].up, None);
}

#[test]
fn adding_a_site_saves_the_list() {
    let mut app = running(&["a.nl"]);
    app.update(Message::SiteInputChanged("https://B.nl/x".to_string()));
    assert_eq!(app.new_site_input, "https://B.nl/x");
    let url = parse_site_url(&app.new_site_input).unwrap();
    match app.update(Message::AddSite(url.clone())) {
        Action::SaveSites(sites) => assert_eq!(sites, vec!["a.nl", "b.nl"]),
        other => panic!("{other:?}"),
    }
    assert_eq!(app.new_site_input, "");
    assert_eq!(app.config.sites, vec!["a.nl", "b.nl"]);
    assert_eq!(app.sites[1].up, None);
    app.update(Message::SiteInputChanged("b.nl".to_string()));
    assert!(matches!(app.update(Message::AddSite(url)), Action::Nothing));
    assert_eq!(app.new_site_input, "");
    assert_eq!(app.domain_list(), vec!["a.nl", "b.nl"]);
}

#[test]
fn a_url_without_a_host_adds_nothing() {
    let mut app = running(&["a.nl"]);
    app.new_site_input = "x".to_string();
    let url = SiteUrl {
        text: "data:x".to_string(),
        scheme: "data".to_string(), 
        host: None,
        host_str: None,
    };
    assert!(matches!(app.update(Message::AddSite(url)), Action::Nothing));
    assert_eq!(app.new_site_input, "");
    assert_eq!(app.domain_list(), vec!["a.nl"]);
}

#[test]
fn removing_a_site_drops_every_copy() {
    let mut app = running(&["a.nl", "b.nl", "a.nl", "c.nl"]);
    check(&mut app, "c.nl", true);
    match app.update(Message::RemoveSite("a.nl".to_string())) {
        Action::SaveSites(sites) => assert_eq!(sites, vec!["b.nl", "c.nl"]),
        other => panic!("{other:?}"),
    }
    assert_eq!(app.sites[1].up, Some(true));
    assert_eq!(app.config.sites, vec!["b.nl", "c.nl"]);
    assert!(matches!(
        app.update(Message::RemoveSite("zz.nl".to_string())),
        Action::SaveSites(sites) if sites == vec!["b.nl", "c.nl"]
    ));
}

#[test]
fn removing_undoes_adding() {
    let mut app = running(&["a.nl"]);
    app.update(Message::AddSite(parse_site_url("b.nl").unwrap()));
    app.update(Message::RemoveSite("b.nl".to_string()));
    assert_eq!(app.domain_list(), vec!["a.nl"]);
}

#[test]
fn nothing_is_saved_without_settings() {
    let mut app = AppModel::init(None);
    assert!(matches!(app.update(Message::RemoveSite("dedrait.com".to_string())), Action::Nothing));
    assert_eq!(app.config.sites, vec!["captainslounge.nl", "draityachts.nl"]);
    assert!(matches!(app.update(Message::SetIntervalMinutes(2)), Action::Nothing));
    assert_eq!(app.config.check_interval_secs, 120);
    assert!(matches!(
        app.update(Message::AddSite(parse_site_url("b.nl").unwrap())),
        Action::Nothing
    ));
}

#[test]
fn persisting_by_hand() {
    let mut app = running(&["https://a.nl"]);
    assert!(matches!(app.persist_sites(), Action::SaveSites(sites) if sites == vec!["a.nl"]));
    assert_eq!(app.config.sites, vec!["a.nl"]);
    assert!(matches!(app.persist_interval(7), Action::SaveInterval(7)));
    assert_eq!(app.config.check_interval_secs, 7);
}

#[test]
fn saved_lists_survive_a_restart() {
    let mut app = running(&["a.nl"]);
    app.update(Message::AddSite(parse_site_url("http://[::1]").unwrap()));
    check(&mut app, "a.nl", true);
    let next = AppModel::init(Some(Ok(app.config.clone())));
    assert_eq!(next.domain_list(), app.domain_list());
    assert_eq!(next.sites[0].up, None);
}

#[test]
fn sets_the_interval() {
    let mut app = running(&[]);
    assert!(matches!(app.update(Message::SetIntervalMinutes(5)), Action::SaveInterval(300)));
    assert!(matches!(
        app.update(Message::SetIntervalMinutes(INTERVAL_MAX_MINUTES)),
        Action::SaveInterval(86400)
    ));
    assert_eq!(app.view_window(1).interval.value, INTERVAL_MAX_MINUTES);
    assert_eq!(app.subscription().interval_secs, 86400);
}

#[test]
fn new_settings_leave_the_list_alone() {
    let mut app = running(&["a.nl"]);
    let mut changed = config(&["x.nl"]);
    changed.check_interval_secs = 60;
    assert!(matches!(app.update(Message::UpdateConfig(changed.clone())), Action::Nothing));
    assert_eq!(app.config, changed);
    assert_eq!(app.domain_list(), vec!["a.nl"]);
}

#[test]
fn toggles_the_popup() {
    let mut app = running(&[]);
    assert!(matches!(app.update(Message::TogglePopup), Action::OpenPopup));
    assert_eq!(app.popup, None);
    app.popup_opened(7);
    assert!(matches!(app.update(Message::PopupClosed(8)), Action::Nothing));
    assert_eq!(app.popup, Some(7));
    assert!(matches!(app.update(Message::TogglePopup), Action::ClosePopup(7)));
    assert_eq!(app.popup, None);
    app.popup_opened(9);
    assert!(matches!(app.update(Message::PopupClosed(9)), Action::Nothing));
    assert_eq!(app.popup, None);
    assert!(matches!(app.on_close_requested(3), Some(Message::PopupClosed(3))));
}

#[test]
fn the_panel_shows_an_alarm() {
    let mut app = running(&["a.nl", "b.nl"]);
    assert_eq!(app.view_panel().icon, "emblem-ok-symbolic");
    assert_eq!(app.view_panel().color, None);
    check(&mut app, "a.nl", true);
    assert!(!app.any_down());
    check(&mut app, "b.nl", false);
    assert!(app.any_down());
    assert_eq!(app.view_panel().icon, "dialog-error-symbolic");
    assert_eq!(app.view_panel().color, Some((0xE0, 0x1B, 0x24)));
    assert!(matches!(app.view_panel().on_press, Message::TogglePopup));
    check(&mut app, "b.nl", true);
    assert_eq!(app.view_panel().color, None);
}

#[test]
fn the_popup_lists_the_sites() {
    let mut app = running(&["a.nl", "b.nl", "c.nl"]);
    check(&mut app, "a.nl", true);
    check(&mut app, "b.nl", false);
    let content = app.view_window(1);
    let rows: Vec<(&str, &str)> =
        content.rows.iter().map(|row| (row.domain.as_str(), row.status)).collect();
    assert_eq!(rows, vec![("a.nl", "Up"), ("b.nl", "Down"), ("c.nl", "Checking…")]);
    assert!(matches!(&content.rows[1].on_remove, Message::RemoveSite(d) if d == "b.nl"));
    assert_eq!(content.interval.label, "5 min");
    assert_eq!(content.interval.value, 5);
    assert_eq!((content.interval.step, content.interval.min, content.interval.max), (1, 1, 1440));
    assert_eq!(status_text(None), "Checking…");
}

#[test]
fn the_input_field_complains() {
    let mut app = running(&[]);
    for (input, error, offered) in [
        ("", false, false),
        ("  ", false, false),
        ("uuu", true, false),
        ("example.com", false, true),
    ] {
        app.update(Message::SiteInputChanged(input.to_string()));
        let content = app.view_window(1);
        assert_eq!(content.input, input);
        assert_eq!(content.input_error.is_some(), error);
        assert_eq!(content.on_add.is_some(), offered);
    }
    match app.view_window(1).on_add {
        Some(Message::AddSite(url)) => assert_eq!(url.host_str.unwrap(), "example.com"),
        other => panic!("{other:?}"),
    }
    assert_eq!(app.popup_content(None).input_error, Some("Doesn't look like a valid domain"));
}

#[test]
fn dividers_stand_between_the_groups() {
    let app = running(&["a.nl", "b.nl"]);
    let content = app.view_window(1);
    assert_eq!(
        format!("{:?}", content.parts),
        "[SiteRow(0), SiteRow(1), Divider, Interval, Divider, AddSite]"
    );
    assert_eq!(content.interval_caption, "Interval");
    assert_eq!(content.store_caption, "Store");
    assert_eq!(content.placeholder, "example.com");
    let bare = popup_layout(0);
    assert_eq!(bare.len(), 4);
    assert!(matches!(bare[0], PopupPart::Divider));
    assert!(matches!(bare[3], PopupPart::AddSite));
}

#[test]
fn the_controls_emit_messages() {
    assert!(matches!(interval_changed(7), Message::SetIntervalMinutes(7)));
    assert!(matches!(input_changed("a".to_string()), Message::SiteInputChanged(v) if v == "a"));
}

#[test]
fn checks_alternate_with_pauses() {
    let app = running(&["a.nl", "b.nl"]);
    let watch = app.subscription();
    assert_eq!(watch.sites, vec!["a.nl", "b.nl"]);
    for event in [WatchEvent::Started, WatchEvent::PauseFinished] {
        match watch.next_step(event) {
            WatchStep::Check(requests) => {
                assert_eq!(requests.len(), 2);
                assert_eq!(requests[0].site, "a.nl");
                assert_eq!(requests[0].url, "https://a.nl");
                assert_eq!(requests[1].url, "https://b.nl");
            }
            other => panic!("{other:?}"),
        }
    }
    assert!(matches!(watch.next_step(WatchEvent::RoundFinished), WatchStep::Pause(300)));
}

#[test]
fn answers_become_results() {
    for (status, expected) in [
        (None, false),
        (Some(199), false),
        (Some(200), true),
        (Some(204), true),
        (Some(299), true),
        (Some(300), false),
        (Some(404), false),
        (Some(500), false),
    ] {
        match check_result("a.nl".to_string(), status) {
            Message::CheckResult(site, up) => {
                assert_eq!(site, "a.nl");
                assert_eq!(up, expected);
            }
            other => panic!("{other:?}"),
        }
    }
}

#[test]
fn results_do_not_restart_the_checks() {
    let mut app = running(&["a.nl"]);
    let before = app.subscription();
    check(&mut app, "a.nl", false);
    app.update(Message::SiteInputChanged("b".to_string()));
    app.update(Message::TogglePopup);
    assert_eq!(app.subscription(), before);
    app.update(Message::SetIntervalMinutes(1));
    assert_ne!(app.subscription(), before);
}

#[test]
fn a_copy_of_a_message_is_the_same() {
    let message = Message::CheckResult("a.nl".to_string(), true);
    assert!(matches!(message.clone(), Message::CheckResult(d, true) if d == "a.nl"));
    assert!(matches!(Message::UpdateConfig(config(&["a.nl"])).clone(),
        Message::UpdateConfig(c) if c == config(&["a.nl"])));
}
