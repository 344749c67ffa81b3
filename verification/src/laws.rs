//! Laws of the applet as a whole: what holds of every state and across several messages.

use vstd::prelude::*;
use crate::app::{
    domains, first_at, is_first, lemma_first_at, lemma_first_is_unique, other_than, watches, AppView, SiteView,
};
use crate::config::ConfigView;
use crate::domain::{
    double_dot, is_bare, is_last_dot, is_letter, law_bare_domain_is_kept, law_looks_real_by_dots,
    law_normalized_is_bare, looks_real, tld_looks_real,
};
use crate::message::{ActionView, MessageView};
use crate::site_url::{site_url, UrlView};
use crate::text;
use crate::text::{begins_in_any_case, lower, trimmed};
use crate::view::{
    any_down, interval_control, status_words, PopupPartView, INTERVAL_MAX_MINUTES, INTERVAL_MIN_MINUTES,
};

verus! {

// ---- Saved settings ----

/// Whatever is saved is what the applet holds from then on: the saved list is that of the watched
/// domains, and the settings in memory hold the same list, or the same interval.
pub proof fn law_saved_is_held(app: AppView, message: MessageView)
    ensures
        app.action(message) matches ActionView::SaveSites(list) ==> {
            &&& list == domains(app.after(message).sites)
            &&& list == app.after(message).config.sites
        },
        app.action(message) matches ActionView::SaveInterval(secs) ==> secs == app.after(
            message,
        ).config.check_interval_secs,
{
}

/// A change of the site list is saved whenever anything can be saved.
pub proof fn law_changed_sites_are_saved(app: AppView, message: MessageView)
    requires
        domains(app.after(message).sites) != domains(app.sites),
        app.can_persist,
    ensures
        app.action(message) == ActionView::SaveSites(domains(app.after(message).sites)),
{
    law_check_touches_one_site(app, message);
}

/// Without a place to keep settings nothing is ever saved, and no message changes whether there
/// is one.
pub proof fn law_nothing_saved_without_settings(app: AppView, message: MessageView)
    ensures
        app.after(message).can_persist == app.can_persist,
        !app.can_persist ==> !(app.action(message) is SaveSites) && !(app.action(
            message,
        ) is SaveInterval),
{
}

// ---- The site list ----

/// A check result changes nothing but the status of the first site with its domain: the domains,
/// the other sites and the rest of the state stay as they are.
pub proof fn law_check_touches_one_site(app: AppView, message: MessageView)
    ensures
        message matches MessageView::CheckResult(domain, up) ==> {
            let next = app.after(message);
            &&& next == (AppView { sites: next.sites, ..app })
            &&& next.sites.len() == app.sites.len()
            &&& domains(next.sites) == domains(app.sites)
            &&& forall|i: int|
                0 <= i < app.sites.len() && !is_first(app.sites, domain, i)
                    ==> #[trigger] next.sites[i] == app.sites[i]
            &&& forall|i: int|
                is_first(app.sites, domain, i) ==> #[trigger] next.sites[i] == (SiteView {
                    domain,
                    up: Some(up),
                })
        },
{
    if let MessageView::CheckResult(domain, up) = message {
        let next = app.after(message);
        if watches(app.sites, domain) {
            lemma_first_at(app.sites, domain);
        }
        assert(domains(next.sites) =~= domains(app.sites));
        assert forall|i: int| is_first(app.sites, domain, i) implies #[trigger] next.sites[i] == (
        SiteView { domain, up: Some(up) }) by {
            lemma_first_is_unique(app.sites, domain, i);
        }
    }
}

/// Removing a domain drops its sites.
proof fn lemma_filter_sites(sites: Seq<SiteView>, domain: Seq<char>)
    ensures
        ({
            let left = sites.filter(other_than(domain));
            &&& left.len() <= sites.len()
            &&& !watches(sites, domain) ==> left == sites
            &&& watches(sites, domain) ==> left.len() < sites.len()
            &&& forall|i: int|
                0 <= i < left.len() ==> (#[trigger] left[i]).domain != domain && sites.contains(
                    left[i],
                )
            &&& forall|i: int|
                0 <= i < sites.len() && (#[trigger] sites[i]).domain != domain ==> left.contains(
                    sites[i],
                )
        }),
    decreases sites.len(),
{
    reveal(Seq::filter);
    let p = other_than(domain);
    let left = sites.filter(p);
    if sites.len() > 0 {
        let rest = sites.drop_last();
        lemma_filter_sites(rest, domain);
        assert(sites =~= rest.push(sites.last()));
        let rest_left = rest.filter(p);
        if watches(rest, domain) {
            let k = choose|k: int| 0 <= k < rest.len() && (#[trigger] rest[k]).domain == domain;
            assert(sites[k].domain == domain);
        }
        if watches(sites, domain) && sites.last().domain != domain {
            let k = choose|k: int| 0 <= k < sites.len() && (#[trigger] sites[k]).domain == domain;
            assert(rest[k].domain == domain);
        }
        assert forall|i: int| 0 <= i < left.len() implies (#[trigger] left[i]).domain != domain
            && sites.contains(left[i]) by {
            if i < rest_left.len() {
                assert(left[i] == rest_left[i]);
                let k = choose|k: int| 0 <= k < rest.len() && rest[k] == rest_left[i];
                assert(sites[k] == left[i]);
            } else {
                assert(sites[sites.len() - 1] == left[i]);
            }
        }
        assert forall|i: int|
            0 <= i < sites.len() && (#[trigger] sites[i]).domain != domain implies left.contains(
            sites[i],
        ) by {
            if i < rest.len() {
                assert(rest[i].domain != domain);
                let k = choose|k: int| 0 <= k < rest_left.len() && rest_left[k] == rest[i];
                assert(left[k] == sites[i]);
            } else {
                assert(left[left.len() - 1] == sites[i]);
            }
        }
        if !watches(sites, domain) {
            assert(sites[sites.len() - 1].domain != domain);
            assert(!watches(rest, domain)) by {
                if watches(rest, domain) {
                    let k = choose|k: int|
                        0 <= k < rest.len() && (#[trigger] rest[k]).domain == domain;
                    assert(sites[k].domain == domain);
                }
            }
        }
    }
}

/// A removed domain is no longer watched, and the other domains are watched as before, with their
/// status.
pub proof fn law_removed_is_gone(app: AppView, domain: Seq<char>)
    ensures
        ({
            let next = app.after(MessageView::RemoveSite(domain));
            &&& !watches(next.sites, domain)
            &&& forall|site: SiteView| #[trigger]
                next.sites.contains(site) <==> site.domain != domain && app.sites.contains(site)
        }),
{
    let next = app.after(MessageView::RemoveSite(domain));
    lemma_filter_sites(app.sites, domain);
    assert forall|site: SiteView| #[trigger] next.sites.contains(site) implies site.domain
        != domain && app.sites.contains(site) by {
        let i = choose|i: int| 0 <= i < next.sites.len() && next.sites[i] == site;
        assert(next.sites[i].domain != domain);
    }
    assert forall|site: SiteView|
        site.domain != domain && app.sites.contains(site) implies #[trigger] next.sites.contains(
        site,
    ) by {
        let i = choose|i: int| 0 <= i < app.sites.len() && app.sites[i] == site;
        assert(app.sites[i].domain != domain);
    }
}

/// Removing a domain that is not watched leaves the list alone. In particular, removing a domain
/// twice does no more than removing it once.
pub proof fn law_removing_the_unwatched(app: AppView, domain: Seq<char>)
    ensures
        !watches(app.sites, domain) ==> app.after(MessageView::RemoveSite(domain)).sites
            == app.sites,
        app.after(MessageView::RemoveSite(domain)).after(MessageView::RemoveSite(domain))
            == app.after(MessageView::RemoveSite(domain)),
{
    lemma_filter_sites(app.sites, domain);
    law_removed_is_gone(app, domain);
    lemma_filter_sites(app.after(MessageView::RemoveSite(domain)).sites, domain);
}

/// Once its URL was added, a host is watched, the sites before it keep their place and status,
/// and the input field is empty. A host that is already watched is not added again, and nothing
/// is saved.
pub proof fn law_added_is_watched(app: AppView, url: UrlView)
    ensures
        ({
            let message = MessageView::AddSite(url);
            let next = app.after(message);
            &&& url.host_str matches Some(host) ==> watches(next.sites, host)
            &&& app.sites.is_prefix_of(next.sites)
            &&& next.new_site_input.len() == 0
            &&& next.after(message) == next
            &&& next.action(message) == ActionView::Nothing
        }),
{
    let message = MessageView::AddSite(url);
    let next = app.after(message);
    if app.is_new(url.host_str) {
        assert(next.sites[app.sites.len() as int].domain == url.host_str->0);
        assert(watches(next.sites, url.host_str->0));
    }
    assert(next.after(message).new_site_input =~= next.new_site_input);
}

/// Adding a host that was not watched and removing it again restores the list.
pub proof fn law_remove_undoes_add(app: AppView, url: UrlView)
    requires
        app.is_new(url.host_str),
    ensures
        app.after(MessageView::AddSite(url)).after(
            MessageView::RemoveSite(url.host_str->0),
        ).sites == app.sites,
{
    reveal(Seq::filter);
    let host = url.host_str->0;
    let added = app.sites.push(SiteView { domain: host, up: None });
    lemma_filter_sites(app.sites, host);
    assert(added.drop_last() =~= app.sites);
    assert(added.filter(other_than(host)) == app.sites);
}

/// No two entries of the list are the same domain.
pub open spec fn no_repeats(sites: Seq<SiteView>) -> bool {
    domains(sites).no_duplicates()
}

/// A list without repeated domains stays so when a domain is taken off it.
proof fn lemma_filter_no_repeats(sites: Seq<SiteView>, domain: Seq<char>)
    requires
        no_repeats(sites),
    ensures
        no_repeats(sites.filter(other_than(domain))),
    decreases sites.len(),
{
    reveal(Seq::filter);
    let left = sites.filter(other_than(domain));
    if sites.len() > 0 {
        let rest = sites.drop_last();
        assert(no_repeats(rest)) by {
            assert forall|i: int, j: int|
                0 <= i < rest.len() && 0 <= j < rest.len() && i != j implies domains(rest)[i]
                != domains(rest)[j] by {
                assert(domains(rest)[i] == domains(sites)[i]);
                assert(domains(rest)[j] == domains(sites)[j]);
            }
        }
        lemma_filter_no_repeats(rest, domain);
        lemma_filter_sites(rest, domain);
        let rest_left = rest.filter(other_than(domain));
        if sites.last().domain != domain {
            assert forall|i: int, j: int| 0 <= i < j < left.len() implies domains(left)[i]
                != domains(left)[j] by {
                assert(domains(left)[i] == domains(rest_left)[i]);
                if j < rest_left.len() {
                    assert(domains(left)[j] == domains(rest_left)[j]);
                } else {
                    assert(rest.contains(rest_left[i]));
                    let k = choose|k: int| 0 <= k < rest.len() && rest[k] == rest_left[i];
                    assert(domains(sites)[k] != domains(sites)[sites.len() - 1]);
                }
            }
        }
    }
}

/// No message makes the list watch a domain twice: a list without repeated domains stays so.
pub proof fn law_sites_stay_distinct(app: AppView, message: MessageView)
    requires
        no_repeats(app.sites),
    ensures
        no_repeats(app.after(message).sites),
{
    let next = app.after(message);
    match message {
        MessageView::AddSite(url) => {
            if app.is_new(url.host_str) {
                assert forall|i: int, j: int| 0 <= i < j < next.sites.len() implies domains(
                    next.sites,
                )[i] != domains(next.sites)[j] by {
                    assert(domains(next.sites)[i] == domains(app.sites)[i]);
                    assert(app.sites[i].domain == domains(app.sites)[i]);
                    if j < app.sites.len() {
                        assert(domains(next.sites)[j] == domains(app.sites)[j]);
                    }
                }
            }
        },
        MessageView::RemoveSite(domain) => {
            lemma_filter_no_repeats(app.sites, domain);
        },
        MessageView::CheckResult(_, _) => {
            law_check_touches_one_site(app, message);
        },
        _ => {},
    }
}

// ---- Notifications ----

/// Every watched domain is notified about exactly on a change: a check result is announced if the
/// check before it found the opposite, or if it is the first and finds the site down. A result
/// for a domain that is not watched is ignored altogether.
pub proof fn law_notified_on_change(app: AppView, domain: Seq<char>, up: bool)
    ensures
        ({
            let message = MessageView::CheckResult(domain, up);
            &&& !watches(app.sites, domain) ==> app.after(message) == app && app.action(message)
                == ActionView::Nothing
            &&& forall|i: int|
                is_first(app.sites, domain, i) ==> {
                    &&& (app.action(message) is Notify <==> #[trigger] app.sites[i].up == Some(!up)
                        || (app.sites[i].up is None && !up))
                    &&& app.action(message) is Notify || app.action(message)
                        == ActionView::Nothing
                }
        }),
{
    assert forall|i: int| is_first(app.sites, domain, i) implies {
        let message = MessageView::CheckResult(domain, up);
        &&& (app.action(message) is Notify <==> #[trigger] app.sites[i].up == Some(!up) || (
        app.sites[i].up is None && !up))
        &&& app.action(message) is Notify || app.action(message) == ActionView::Nothing
    } by {
        lemma_first_is_unique(app.sites, domain, i);
    }
}

/// After a check result, the same result again changes nothing and is not announced, and the
/// opposite result is announced.
pub proof fn law_repeated_result_is_silent(app: AppView, domain: Seq<char>, up: bool)
    requires
        watches(app.sites, domain),
    ensures
        ({
            let next = app.after(MessageView::CheckResult(domain, up));
            &&& next.after(MessageView::CheckResult(domain, up)) == next
            &&& next.action(MessageView::CheckResult(domain, up)) == ActionView::Nothing
            &&& next.action(MessageView::CheckResult(domain, !up)) is Notify
        }),
{
    let next = app.after(MessageView::CheckResult(domain, up));
    let i = first_at(app.sites, domain);
    lemma_first_at(app.sites, domain);
    assert(is_first(next.sites, domain, i)) by {
        assert forall|j: int| 0 <= j < i implies (#[trigger] next.sites[j]).domain != domain by {
            assert(next.sites[j] == app.sites[j]);
        }
    }
    lemma_first_is_unique(next.sites, domain, i);
    assert(next.after(MessageView::CheckResult(domain, up)).sites =~= next.sites);
}

/// Only check results are announced.
pub proof fn law_only_checks_notify(app: AppView, message: MessageView)
    ensures
        app.action(message) is Notify ==> message is CheckResult,
{
}

// ---- The popup ----

/// The toggle closes an open popup and opens one otherwise; after it no popup is held to be open
/// until the new one reports itself. A closed window that is not the popup is ignored.
pub proof fn law_toggle(app: AppView, id: u64)
    ensures
        app.popup == Some(id) ==> app.action(MessageView::TogglePopup) == ActionView::ClosePopup(
            id,
        ),
        app.popup is None ==> app.action(MessageView::TogglePopup) == ActionView::OpenPopup,
        app.after(MessageView::TogglePopup).popup is None,
        app.popup == Some(id) ==> app.after(MessageView::PopupClosed(id)) == app.after(
            MessageView::TogglePopup,
        ),
        app.popup != Some(id) ==> app.after(MessageView::PopupClosed(id)) == app,
{
}

/// No message but the toggle and the popup's own closing touches the popup, and no message opens
/// one by itself.
pub proof fn law_popup_is_left_alone(app: AppView, message: MessageView)
    ensures
        app.after(message).popup is None || app.after(message).popup == app.popup,
        app.after(message).popup != app.popup ==> message is TogglePopup || message
            is PopupClosed,
{
}

// ---- What is shown ----

/// The panel shows the alarm exactly while the status of some site is down. A check that finds a
/// watched site down sets it off.
pub proof fn law_alarm(app: AppView, domain: Seq<char>)
    ensures
        app.panel().color is Some <==> exists|i: int|
            0 <= i < app.sites.len() && (#[trigger] app.sites[i]).up == Some(false),
        watches(app.sites, domain) ==> app.after(
            MessageView::CheckResult(domain, false),
        ).panel().color is Some,
{
    if watches(app.sites, domain) {
        let next = app.after(MessageView::CheckResult(domain, false));
        lemma_first_at(app.sites, domain);
        assert(next.sites[first_at(app.sites, domain)].up == Some(false));
    }
}

/// The alarm ends once the only site that is down is found up again.
pub proof fn law_alarm_ends(app: AppView, domain: Seq<char>)
    requires
        forall|i: int|
            0 <= i < app.sites.len() && (#[trigger] app.sites[i]).up == Some(false) ==> is_first(
                app.sites,
                domain,
                i,
            ),
    ensures
        app.after(MessageView::CheckResult(domain, true)).panel().color is None,
{
    let message = MessageView::CheckResult(domain, true);
    let next = app.after(message);
    law_check_touches_one_site(app, message);
    if any_down(next.sites) {
        let i = choose|i: int|
            0 <= i < next.sites.len() && (#[trigger] next.sites[i]).up == Some(false);
        if is_first(app.sites, domain, i) {
            assert(next.sites[i].up == Some(true));
        } else {
            assert(next.sites[i] == app.sites[i]);
        }
    }
}

/// The three statuses read differently.
pub proof fn law_statuses_differ(a: Option<bool>, b: Option<bool>)
    ensures
        status_words(a) == status_words(b) <==> a == b,
{
    reveal_strlit("Up");
    reveal_strlit("Down");
    reveal_strlit("Checking…");
    assert("Up"@.len() == 2);
    assert("Down"@.len() == 4);
    assert("Checking…"@.len() == 9);
}

/// Each row stands for the site at its place, and its remove button takes the row's domain off
/// the list.
pub proof fn law_rows_follow_sites(app: AppView, parsed: Option<UrlView>, i: int)
    requires
        0 <= i < app.sites.len(),
    ensures
        app.content(parsed).rows.len() == app.sites.len(),
        app.content(parsed).rows[i].domain == app.sites[i].domain,
        app.content(parsed).rows[i].status == status_words(app.sites[i].up),
        !watches(app.after(app.content(parsed).rows[i].on_remove).sites, app.sites[i].domain),
{
    law_removed_is_gone(app, app.sites[i].domain);
}

/// The popup shows one part for each site and four more: first the site rows in the order of the
/// list, then a divider, the interval, a divider and the row to add a site. Of two parts next to
/// each other at most one is a divider, and the divider stands between two groups.
pub proof fn law_popup_order(app: AppView, parsed: Option<UrlView>)
    ensures
        ({
            let n = app.sites.len() as int;
            let parts = app.content(parsed).parts;
            &&& parts.len() == n + 4
            &&& forall|i: int| 0 <= i < n ==> #[trigger] parts[i] == PopupPartView::SiteRow(i)
            &&& parts[n + 1] == PopupPartView::Interval
            &&& parts[n + 3] == PopupPartView::AddSite
            &&& forall|i: int|
                0 <= i < parts.len() ==> (#[trigger] parts[i] == PopupPartView::Divider <==> i == n
                    || i == n + 2)
        }),
{
}

/// The input field complains exactly where a text that is not blank cannot be added; a blank
/// text neither draws a complaint nor can it be added.
pub proof fn law_input_field(app: AppView)
    ensures
        ({
            let content = app.content(site_url(app.new_site_input));
            let blank = trimmed(app.new_site_input).len() == 0;
            &&& blank ==> content.input_error is None && content.on_add is None
            &&& !blank ==> (content.input_error is Some <==> content.on_add is None)
        }),
{
}

/// A URL that `parse_site_url` returned has a host, it is what the input field and the store
/// button offer to add, and adding it watches that host.
pub proof fn law_offer_can_be_stored(app: AppView, url: UrlView)
    requires
        url.is_site(),
        url.hosts_agree(),
    ensures
        app.content(Some(url)).on_add == Some(MessageView::AddSite(url)),
        url.host_str is Some,
        watches(app.after(MessageView::AddSite(url)).sites, url.host_str->0),
{
    law_added_is_watched(app, url);
}

/// Every interval that the spin button offers can be set, is shown once it is set, and makes the
/// checks pause for that many minutes.
pub proof fn law_set_interval_is_shown(app: AppView, minutes: u64)
    requires
        INTERVAL_MIN_MINUTES <= minutes <= INTERVAL_MAX_MINUTES,
    ensures
        ({
            let message = MessageView::SetIntervalMinutes(minutes);
            &&& message.fits()
            &&& interval_control(app.after(message).config.check_interval_secs).value == minutes
            &&& app.after(message).watch().interval_secs == minutes * 60
        }),
{
}

// ---- Health checks ----

/// The health checks start afresh only on a change of the site list, the check interval or the
/// settings: check results, typing and popups leave them running.
pub proof fn law_checks_keep_running(app: AppView, message: MessageView)
    ensures
        message is CheckResult || message is SiteInputChanged || message is TogglePopup || message
            is PopupClosed ==> app.after(message).watch() == app.watch(),
        message matches MessageView::AddSite(url) ==> (!app.is_new(url.host_str) ==> app.after(
            message,
        ).watch() == app.watch()),
{
    law_check_touches_one_site(app, message);
}

/// Every round checks each watched site once, in order, over HTTPS, and reports it by the domain
/// that the list knows it by.
pub proof fn law_round_covers_sites(app: AppView, i: int)
    requires
        0 <= i < app.sites.len(),
    ensures
        app.watch().round().len() == app.sites.len(),
        app.watch().round()[i].site == app.sites[i].domain,
        app.watch().round()[i].url == "https://"@ + app.sites[i].domain,
        watches(app.sites, app.watch().round()[i].site),
{
    assert(app.sites[i].domain == app.watch().round()[i].site);
}

// ---- Across runs ----

/// Whether every site is known by a bare domain.
pub open spec fn all_bare(sites: Seq<SiteView>) -> bool {
    forall|i: int| 0 <= i < sites.len() ==> is_bare((#[trigger] sites[i]).domain)
}

/// A text without slashes and white space is a bare domain.
proof fn lemma_plain_is_bare(d: Seq<char>)
    requires
        forall|i: int|
            0 <= i < d.len() ==> (#[trigger] d[i]) != '/' && !text::is_white_space(d[i]),
    ensures
        is_bare(d),
{
    reveal_strlit("https://");
    reveal_strlit("http://");
    let https = "https://"@;
    let http = "http://"@;
    assert(https.len() == 8 && https[7] == '/');
    assert(http.len() == 7 && http[6] == '/');
    if begins_in_any_case(d, https) {
        assert(lower(d[7]) == '/');
    }
    if begins_in_any_case(d, http) {
        assert(lower(d[6]) == '/');
    }
    text::lemma_drop_leading(d, text::white());
    text::lemma_drop_trailing(d, text::white());
}

/// The host of a URL that `parse_site_url` returned is a bare domain.
pub proof fn law_parsed_host_is_bare(url: UrlView)
    requires
        url.host_is_plain(),
    ensures
        url.host_str matches Some(host) ==> is_bare(host),
{
    if let Some(host) = url.host_str {
        lemma_plain_is_bare(host);
    }
}

/// A list of bare domains stays one, whatever the message, where URLs to add have the plain hosts
/// that `parse_site_url` gives them.
pub proof fn law_sites_stay_bare(app: AppView, message: MessageView)
    requires
        all_bare(app.sites),
        message matches MessageView::AddSite(url) ==> url.host_is_plain(),
    ensures
        all_bare(app.after(message).sites),
{
    let next = app.after(message);
    match message {
        MessageView::AddSite(url) => {
            law_parsed_host_is_bare(url);
        },
        MessageView::RemoveSite(domain) => {
            lemma_filter_sites(app.sites, domain);
            assert forall|i: int| 0 <= i < next.sites.len() implies is_bare(
                (#[trigger] next.sites[i]).domain,
            ) by {
                assert(app.sites.contains(next.sites[i]));
                let k = choose|k: int| 0 <= k < app.sites.len() && app.sites[k] == next.sites[i];
                assert(is_bare(app.sites[k].domain));
            }
        },
        MessageView::CheckResult(_, _) => {
            law_check_touches_one_site(app, message);
            assert forall|i: int| 0 <= i < next.sites.len() implies is_bare(
                (#[trigger] next.sites[i]).domain,
            ) by {
                assert(domains(next.sites)[i] == domains(app.sites)[i]);
                assert(is_bare(app.sites[i].domain));
            }
        },
        _ => {},
    }
}

/// A run that starts from the settings of a list of bare domains watches exactly that list, in
/// order, with no status yet.
pub proof fn law_saved_sites_are_watched_again(config: ConfigView, sites: Seq<SiteView>)
    requires
        all_bare(sites),
        config.sites == domains(sites),
    ensures
        ({
            let next = AppView::started(Some(config));
            &&& domains(next.sites) == domains(sites)
            &&& next.config == config
            &&& forall|i: int| 0 <= i < next.sites.len() ==> (#[trigger] next.sites[i]).up is None
        }),
{
    let next = AppView::started(Some(config));
    assert forall|i: int| 0 <= i < sites.len() implies #[trigger] domains(next.sites)[i]
        == domains(sites)[i] by {
        law_bare_domain_is_kept(sites[i].domain);
    }
    assert(domains(next.sites) =~= domains(sites));
}

/// Once a site list has been saved, a run that starts from the saved settings watches the same
/// domains in the same order, where the list held bare domains and the added host, if any, is
/// plain, as `parse_site_url` makes it.
pub proof fn law_saved_list_survives_restart(app: AppView, message: MessageView)
    requires
        all_bare(app.sites),
        message matches MessageView::AddSite(url) ==> url.host_is_plain(),
        app.action(message) is SaveSites,
    ensures
        domains(AppView::started(Some(app.after(message).config)).sites) == domains(
            app.after(message).sites,
        ),
{
    law_sites_stay_bare(app, message);
    law_saved_sites_are_watched_again(app.after(message).config, app.after(message).sites);
}

/// A text with one dot, letters behind it and something before it looks like a real domain.
proof fn lemma_looks_real_at(s: Seq<char>, d: int)
    requires
        0 < d < s.len() - 2,
        s[d] == '.',
        forall|i: int| 0 <= i < s.len() && i != d ==> is_letter(#[trigger] s[i]),
    ensures
        looks_real(s),
{
    law_looks_real_by_dots(s);
    assert(is_letter(s[0]));
    assert(is_last_dot(s, d)) by {
        assert forall|k: int| d < k < s.len() implies s[k] != '.' by {
            assert(is_letter(s[k]));
        }
    }
    assert(tld_looks_real(s.skip(d + 1)));
    assert forall|i: int| !double_dot(s, i) by {
        if double_dot(s, i) {
            assert(i == d || is_letter(s[i]));
            assert(i + 1 == d || is_letter(s[i + 1]));
        }
    }
}

/// A run without stored settings watches the default sites as they are written, each once and
/// each by a bare domain that looks real, and checks them every five minutes.
pub proof fn law_first_run()
    ensures
        ({
            let app = AppView::started(None);
            &&& domains(app.sites) == ConfigView::initial().sites
            &&& all_bare(app.sites)
            &&& no_repeats(app.sites)
            &&& forall|i: int| 0 <= i < app.sites.len() ==> looks_real(
                (#[trigger] app.sites[i]).domain,
            )
            &&& app.watch().interval_secs == 300
            &&& !any_down(app.sites)
        }),
{
    reveal_strlit("captainslounge.nl");
    reveal_strlit("draityachts.nl");
    reveal_strlit("dedrait.com");
    let app = AppView::started(None);
    let defaults = ConfigView::initial().sites;
    assert forall|i: int| 0 <= i < 3 implies is_bare(#[trigger] defaults[i]) by {
        lemma_plain_is_bare(defaults[i]);
    }
    assert forall|i: int| 0 <= i < 3 implies #[trigger] domains(app.sites)[i] == defaults[i] by {
        law_bare_domain_is_kept(defaults[i]);
    }
    assert(domains(app.sites) =~= defaults);
    assert forall|i: int| 0 <= i < app.sites.len() implies is_bare(
        (#[trigger] app.sites[i]).domain,
    ) by {
        assert(domains(app.sites)[i] == defaults[i]);
    }
    lemma_looks_real_at(defaults[0], 14);
    lemma_looks_real_at(defaults[1], 11);
    lemma_looks_real_at(defaults[2], 7);
    assert forall|i: int| 0 <= i < app.sites.len() implies looks_real(
        (#[trigger] app.sites[i]).domain,
    ) by {
        assert(domains(app.sites)[i] == defaults[i]);
    }
    assert(defaults[0].len() == 17 && defaults[1].len() == 14 && defaults[2].len() == 11);
}

/// The state after a sequence of messages.
pub open spec fn after_all(app: AppView, messages: Seq<MessageView>) -> AppView
    decreases messages.len(),
{
    if messages.len() == 0 {
        app
    } else {
        after_all(app, messages.drop_last()).after(messages.last())
    }
}

/// Whatever settings a run starts from, every site is known by a bare domain.
pub proof fn law_started_sites_are_bare(found: Option<ConfigView>)
    ensures
        all_bare(AppView::started(found).sites),
{
    let app = AppView::started(found);
    assert forall|i: int| 0 <= i < app.sites.len() implies is_bare(
        (#[trigger] app.sites[i]).domain,
    ) by {
        law_normalized_is_bare(app.config.sites[i]);
    }
}

/// Every state of every run knows its sites by bare domains, where URLs to add have the plain
/// hosts that `parse_site_url` gives them.
pub proof fn law_runs_watch_bare_domains(found: Option<ConfigView>, messages: Seq<MessageView>)
    requires
        forall|i: int|
            0 <= i < messages.len() ==> ((#[trigger] messages[i]) matches MessageView::AddSite(
                url,
            ) ==> url.host_is_plain()),
    ensures
        all_bare(after_all(AppView::started(found), messages).sites),
    decreases messages.len(),
{
    if messages.len() == 0 {
        law_started_sites_are_bare(found);
    } else {
        let earlier = messages.drop_last();
        assert forall|i: int| 0 <= i < earlier.len() implies ((
        #[trigger] earlier[i]) matches MessageView::AddSite(url) ==> url.host_is_plain()) by {
            assert(earlier[i] == messages[i]);
        }
        law_runs_watch_bare_domains(found, earlier);
        assert(messages[messages.len() - 1] == messages.last());
        law_sites_stay_bare(after_all(AppView::started(found), earlier), messages.last());
    }
}

/// A list without repeated domains remains one through any sequence of messages. By
/// `law_first_run` this holds of every state of a run without stored settings.
pub proof fn law_runs_watch_distinct_domains(app: AppView, messages: Seq<MessageView>)
    requires
        no_repeats(app.sites),
    ensures
        no_repeats(after_all(app, messages).sites),
    decreases messages.len(),
{
    if messages.len() > 0 {
        law_runs_watch_distinct_domains(app, messages.drop_last());
        law_sites_stay_distinct(after_all(app, messages.drop_last()), messages.last());
    }
}

} // verus!
