//! Laws of the applet's operations, said of the results of calls and of nothing but fields, words
//! and positions in lists.

use vstd::prelude::*;
use crate::app::{
    domains, is_first, lemma_first_is_unique, other_than, site_views, watches, AppModel, Site,
    SiteView,
};
use crate::config::{clone_texts, texts, Config};
use crate::domain::normalize_domain;
use crate::message::{Action, Message, MessageView, Notification};
use crate::site_url::{parse_site_url, url_of, SiteUrl};
use crate::text::decimal;
use crate::text_laws::{blank, count, lemma_blank, lemma_decimal, numeral, same_url};
use crate::view::{
    any_down, input_changed, interval_changed, layout, part_views, popup_layout, row_of,
    row_views, status_text, PanelButton, PopupContent, PopupPart, PopupPartView,
};
use crate::watch::{
    check_result, request_views, CheckRequest, Watch, WatchEvent, WatchStep,
};

verus! {

// ---- Words for the laws ----

/// Whether two lists hold the same texts in the same order.
pub open spec fn same_list(a: Seq<String>, b: Seq<String>) -> bool {
    &&& a.len() == b.len()
    &&& forall|i: int| 0 <= i < a.len() ==> (#[trigger] a[i])@ == b[i]@
}

/// Whether two settings are the same.
pub open spec fn same_settings(a: Config, b: Config) -> bool {
    same_list(a.sites@, b.sites@) && a.check_interval_secs == b.check_interval_secs
}

/// Whether two sites have the same domain and the same status.
pub open spec fn same_site(a: Site, b: Site) -> bool {
    a.domain@ == b.domain@ && a.up == b.up
}

/// Whether two lists hold the same sites in the same order.
pub open spec fn same_sites(a: Seq<Site>, b: Seq<Site>) -> bool {
    &&& a.len() == b.len()
    &&& forall|i: int| 0 <= i < a.len() ==> same_site(#[trigger] a[i], b[i])
}

/// Whether a list holds the domains of these sites, in order.
pub open spec fn lists(list: Seq<String>, sites: Seq<Site>) -> bool {
    &&& list.len() == sites.len()
    &&& forall|i: int| 0 <= i < list.len() ==> (#[trigger] list[i])@ == sites[i].domain@
}

/// Whether the answer to a change of the list is to save it, or nothing where nothing can be
/// saved.
pub open spec fn saves(action: Action, app: AppModel) -> bool {
    if app.can_persist {
        action matches Action::SaveSites(list) && lists(list@, app.sites@)
    } else {
        action is Nothing
    }
}

/// Whether the words of a notification about this domain are right: the urgency, the coloured mark,
/// the whole domain and what became of it.
pub open spec fn announces(notification: Notification, domain: Seq<char>, up: bool) -> bool {
    if up {
        &&& notification.urgency@ == "normal"@
        &&& notification.summary@ == "🟢 "@ + domain + " is back UP"@
        &&& notification.body@ == "Site is responding normally again"@
    } else {
        &&& notification.urgency@ == "critical"@
        &&& notification.summary@ == "🔴 "@ + domain + " is DOWN"@
        &&& notification.body@ == "HTTPS check failed"@
    }
}

/// Whether none of the first `n` of `sites` has this domain.
pub open spec fn not_before(sites: Seq<Site>, domain: Seq<char>, n: int) -> bool {
    forall|j: int| 0 <= j < n ==> (#[trigger] sites[j]).domain@ != domain
}

/// Whether `pos` picks positions below `n`, in rising order.
pub open spec fn picks(pos: Seq<int>, n: int) -> bool {
    &&& forall|a: int| 0 <= a < pos.len() ==> 0 <= #[trigger] pos[a] < n
    &&& forall|a: int, b: int| 0 <= a < b < pos.len() ==> #[trigger] pos[a] < #[trigger] pos[b]
}

/// Whether `left` is what `sites` holds at the positions `pos`, which are those of all sites with
/// another domain than this.
pub open spec fn left_over(
    left: Seq<Site>,
    sites: Seq<Site>,
    domain: Seq<char>,
    pos: Seq<int>,
) -> bool {
    &&& picks(pos, sites.len() as int)
    &&& left.len() == pos.len()
    &&& forall|a: int|
        0 <= a < pos.len() ==> same_site(left[a], sites[#[trigger] pos[a]]) && sites[pos[a]].domain@
            != domain
    &&& forall|i: int|
        0 <= i < sites.len() && (#[trigger] sites[i]).domain@ != domain ==> pos.contains(i)
}

// ---- From models to fields ----

/// Lists with equal models hold the same texts.
proof fn lemma_same_list(a: Seq<String>, b: Seq<String>)
    requires
        texts(a) == texts(b),
    ensures
        same_list(a, b),
{
    assert(texts(a).len() == a.len() && texts(b).len() == b.len());
    assert forall|i: int| 0 <= i < a.len() implies (#[trigger] a[i])@ == b[i]@ by {
        assert(texts(a)[i] == a[i]@);
        assert(texts(b)[i] == b[i]@);
    }
}

/// Lists with equal models hold the same sites.
proof fn lemma_same_sites(a: Seq<Site>, b: Seq<Site>)
    requires
        site_views(a) == site_views(b),
    ensures
        same_sites(a, b),
{
    assert(site_views(a).len() == a.len() && site_views(b).len() == b.len());
    assert forall|i: int| 0 <= i < a.len() implies same_site(#[trigger] a[i], b[i]) by {
        assert(site_views(a)[i] == a[i]@);
        assert(site_views(b)[i] == b[i]@);
    }
}

/// A list with the model of some sites' domains holds their domains.
proof fn lemma_lists(list: Seq<String>, sites: Seq<Site>)
    requires
        texts(list) == domains(site_views(sites)),
    ensures
        lists(list, sites),
{
    assert(texts(list).len() == list.len());
    assert(domains(site_views(sites)).len() == sites.len());
    assert forall|i: int| 0 <= i < list.len() implies (#[trigger] list[i])@
        == sites[i].domain@ by {
        assert(texts(list)[i] == list[i]@);
        assert(domains(site_views(sites))[i] == sites[i].domain@);
    }
}

/// States with equal models have the same fields.
proof fn lemma_same_state(a: AppModel, b: AppModel)
    ensures
        a@.popup == b@.popup ==> a.popup == b.popup,
        a@.can_persist == b@.can_persist ==> a.can_persist == b.can_persist,
        a@.config == b@.config ==> same_settings(a.config, b.config),
        a@.config.sites == b@.config.sites ==> same_list(a.config.sites@, b.config.sites@),
        a@.sites == b@.sites ==> same_sites(a.sites@, b.sites@),
        a@.new_site_input == b@.new_site_input ==> a.new_site_input@ == b.new_site_input@,
{
    if a@.config.sites == b@.config.sites {
        lemma_same_list(a.config.sites@, b.config.sites@);
    }
    if a@.sites == b@.sites {
        lemma_same_sites(a.sites@, b.sites@);
    }
}

/// The positions of the sites that a filter leaves.
proof fn lemma_filter_positions(sites: Seq<SiteView>, domain: Seq<char>) -> (pos: Seq<int>)
    ensures
        picks(pos, sites.len() as int),
        pos.len() == sites.filter(other_than(domain)).len(),
        forall|a: int|
            0 <= a < pos.len() ==> sites.filter(other_than(domain))[a] == sites[#[trigger] pos[a]]
                && sites[pos[a]].domain != domain,
        forall|i: int|
            0 <= i < sites.len() && (#[trigger] sites[i]).domain != domain ==> pos.contains(i),
    decreases sites.len(),
{
    reveal(Seq::filter);
    if sites.len() == 0 {
        Seq::empty()
    } else {
        let rest = sites.drop_last();
        let earlier = lemma_filter_positions(rest, domain);
        let last = sites.len() - 1;
        let pos = if sites.last().domain != domain {
            earlier.push(last)
        } else {
            earlier
        };
        assert forall|i: int|
            0 <= i < sites.len() && (#[trigger] sites[i]).domain != domain implies pos.contains(
            i,
        ) by {
            if i < last {
                assert(rest[i].domain != domain);
                let k = choose|k: int| 0 <= k < earlier.len() && earlier[k] == i;
                assert(pos[k] == i);
            } else {
                assert(pos[pos.len() - 1] == i);
            }
        }
        assert forall|a: int| 0 <= a < pos.len() implies sites.filter(other_than(domain))[a]
            == sites[#[trigger] pos[a]] && sites[pos[a]].domain != domain by {
            if a < earlier.len() {
                assert(pos[a] == earlier[a]);
                assert(rest[earlier[a]] == sites[earlier[a]]);
            }
        }
        pos
    }
}

// ---- Handling a message ----

/// New settings replace the old ones; nothing else changes and nothing is to be done.
pub proof fn law_update_config(app: &mut AppModel, config: Config, res: Action)
    requires
        call_ensures(AppModel::update, (app, Message::UpdateConfig(config)), res),
    ensures
        same_settings(final(app).config, config),
        same_sites(final(app).sites@, old(app).sites@),
        final(app).popup == old(app).popup,
        final(app).can_persist == old(app).can_persist,
        final(app).new_site_input@ == old(app).new_site_input@,
        res is Nothing,
{
    lemma_same_state(*final(app), *old(app));
    lemma_same_list(final(app).config.sites@, config.sites@);
}

/// Typed text takes the place of the old; nothing else changes and nothing is to be done.
pub proof fn law_update_input(app: &mut AppModel, value: String, res: Action)
    requires
        call_ensures(AppModel::update, (app, Message::SiteInputChanged(value)), res),
    ensures
        final(app).new_site_input@ == value@,
        same_settings(final(app).config, old(app).config),
        same_sites(final(app).sites@, old(app).sites@),
        final(app).popup == old(app).popup,
        final(app).can_persist == old(app).can_persist,
        res is Nothing,
{
    lemma_same_state(*final(app), *old(app));
}

/// An interval in minutes is held in seconds, and saved where anything can be; nothing else
/// changes.
pub proof fn law_update_interval(app: &mut AppModel, minutes: u64, res: Action)
    requires
        call_ensures(AppModel::update, (app, Message::SetIntervalMinutes(minutes)), res),
        minutes * 60 <= u64::MAX,
    ensures
        final(app).config.check_interval_secs == minutes * 60,
        same_list(final(app).config.sites@, old(app).config.sites@),
        same_sites(final(app).sites@, old(app).sites@),
        final(app).popup == old(app).popup,
        final(app).can_persist == old(app).can_persist,
        final(app).new_site_input@ == old(app).new_site_input@,
        old(app).can_persist ==> (res matches Action::SaveInterval(secs) && secs == minutes * 60),
        !old(app).can_persist ==> res is Nothing,
{
    lemma_same_state(*final(app), *old(app));
}

/// The toggle asks for the open popup to be closed, or for one to be opened where none is; then no
/// popup is open, and nothing else changes.
pub proof fn law_update_toggle(app: &mut AppModel, res: Action)
    requires
        call_ensures(AppModel::update, (app, Message::TogglePopup), res),
    ensures
        old(app).popup matches Some(id) ==> res == Action::ClosePopup(id),
        old(app).popup is None ==> res is OpenPopup,
        final(app).popup is None,
        same_settings(final(app).config, old(app).config),
        same_sites(final(app).sites@, old(app).sites@),
        final(app).can_persist == old(app).can_persist,
        final(app).new_site_input@ == old(app).new_site_input@,
{
    lemma_same_state(*final(app), *old(app));
}

/// A closed window is forgotten if it is the popup and ignored if it is not; nothing else changes
/// and nothing is to be done.
pub proof fn law_update_popup_closed(app: &mut AppModel, id: u64, res: Action)
    requires
        call_ensures(AppModel::update, (app, Message::PopupClosed(id)), res),
    ensures
        old(app).popup == Some(id) ==> final(app).popup is None,
        old(app).popup != Some(id) ==> final(app).popup == old(app).popup,
        same_settings(final(app).config, old(app).config),
        same_sites(final(app).sites@, old(app).sites@),
        final(app).can_persist == old(app).can_persist,
        final(app).new_site_input@ == old(app).new_site_input@,
        res is Nothing,
{
    lemma_same_state(*final(app), *old(app));
}

/// A check result for a domain that is not on the list changes nothing, and nothing is to be done.
pub proof fn law_update_unknown_check(app: &mut AppModel, domain: String, up: bool, res: Action)
    requires
        call_ensures(AppModel::update, (app, Message::CheckResult(domain, up)), res),
        not_before(old(app).sites@, domain@, old(app).sites@.len() as int),
    ensures
        same_settings(final(app).config, old(app).config),
        same_sites(final(app).sites@, old(app).sites@),
        final(app).popup == old(app).popup,
        final(app).can_persist == old(app).can_persist,
        final(app).new_site_input@ == old(app).new_site_input@,
        res is Nothing,
{
    let sites = old(app)@.sites;
    assert(!watches(sites, domain@)) by {
        if watches(sites, domain@) {
            let i = choose|i: int| 0 <= i < sites.len() && (#[trigger] sites[i]).domain == domain@;
            assert(old(app).sites@[i].domain@ == domain@);
        }
    }
    lemma_same_state(*final(app), *old(app));
}

/// A check result becomes the status of the first site with its domain; no other site and nothing
/// else changes. It is announced exactly if the check before found the opposite, or if it is the
/// first and finds the site down. The announcement names the whole domain, is critical and says
/// DOWN if the site is down, and is normal and says UP if it is up.
pub proof fn law_update_check(app: &mut AppModel, domain: String, up: bool, res: Action, i: int)
    requires
        call_ensures(AppModel::update, (app, Message::CheckResult(domain, up)), res),
        0 <= i < old(app).sites@.len(),
        old(app).sites@[i].domain@ == domain@,
        not_before(old(app).sites@, domain@, i),
    ensures
        final(app).sites@.len() == old(app).sites@.len(),
        final(app).sites@[i].domain@ == domain@,
        final(app).sites@[i].up == Some(up),
        forall|j: int|
            0 <= j < old(app).sites@.len() && j != i ==> same_site(
                #[trigger] final(app).sites@[j],
                old(app).sites@[j],
            ),
        same_settings(final(app).config, old(app).config),
        final(app).popup == old(app).popup,
        final(app).can_persist == old(app).can_persist,
        final(app).new_site_input@ == old(app).new_site_input@,
        old(app).sites@[i].up == Some(!up) || (old(app).sites@[i].up is None && !up) ==> res
            is Notify,
        old(app).sites@[i].up == Some(up) || (old(app).sites@[i].up is None && up) ==> res
            is Nothing,
        res matches Action::Notify(notification) ==> announces(notification, domain@, up),
{
    let before = old(app)@.sites;
    let after = final(app)@.sites;
    assert(before[i] == old(app).sites@[i]@);
    assert(is_first(before, domain@, i)) by {
        assert forall|j: int| 0 <= j < i implies (#[trigger] before[j]).domain != domain@ by {
            assert(old(app).sites@[j].domain@ != domain@);
        }
    }
    lemma_first_is_unique(before, domain@, i);
    assert(after.len() == final(app).sites@.len());
    assert(after[i] == final(app).sites@[i]@);
    assert forall|j: int| 0 <= j < old(app).sites@.len() && j != i implies same_site(
        #[trigger] final(app).sites@[j],
        old(app).sites@[j],
    ) by {
        assert(after[j] == final(app).sites@[j]@);
        assert(before[j] == old(app).sites@[j]@);
    }
    lemma_same_state(*final(app), *old(app));
}

/// Adding a URL with a host that is not on the list puts the host at the end of the list, without
/// a status, and keeps the sites before it; the settings hold the same list, it is saved where
/// anything can be, and the input field is cleared.
pub proof fn law_update_add(app: &mut AppModel, url: SiteUrl, host: String, res: Action)
    requires
        call_ensures(AppModel::update, (app, Message::AddSite(url)), res),
        url.host_str == Some(host),
        not_before(old(app).sites@, host@, old(app).sites@.len() as int),
    ensures
        final(app).sites@.len() == old(app).sites@.len() + 1,
        same_sites(final(app).sites@.drop_last(), old(app).sites@),
        final(app).sites@.last().domain@ == host@,
        final(app).sites@.last().up is None,
        lists(final(app).config.sites@, final(app).sites@),
        final(app).config.check_interval_secs == old(app).config.check_interval_secs,
        saves(res, *final(app)),
        final(app).new_site_input@.len() == 0,
        final(app).popup == old(app).popup,
        final(app).can_persist == old(app).can_persist,
{
    let before = old(app)@.sites;
    let after = final(app)@.sites;
    assert(!watches(before, host@)) by {
        if watches(before, host@) {
            let i = choose|i: int| 0 <= i < before.len() && (#[trigger] before[i]).domain == host@;
            assert(old(app).sites@[i].domain@ == host@);
        }
    }
    assert(after == before.push(SiteView { domain: host@, up: None }));
    assert(after.len() == final(app).sites@.len());
    assert(after[before.len() as int] == final(app).sites@.last()@);
    assert(site_views(final(app).sites@.drop_last()) =~= before) by {
        assert forall|i: int| 0 <= i < before.len() implies site_views(
            final(app).sites@.drop_last(),
        )[i] == #[trigger] before[i] by {
            assert(after[i] == final(app).sites@[i]@);
        }
    }
    lemma_same_sites(final(app).sites@.drop_last(), old(app).sites@);
    lemma_lists(final(app).config.sites@, final(app).sites@);
    if let Action::SaveSites(list) = res {
        lemma_lists(list@, final(app).sites@);
    }
    lemma_same_state(*final(app), *old(app));
}

/// Adding a URL without a host, or with a host that is on the list, clears the input field and
/// changes nothing else, and nothing is to be done.
pub proof fn law_update_add_again(app: &mut AppModel, url: SiteUrl, res: Action, i: int)
    requires
        call_ensures(AppModel::update, (app, Message::AddSite(url)), res),
        url.host_str matches Some(host) ==> 0 <= i < old(app).sites@.len() && old(
            app,
        ).sites@[i].domain@ == host@,
    ensures
        final(app).new_site_input@.len() == 0,
        same_settings(final(app).config, old(app).config),
        same_sites(final(app).sites@, old(app).sites@),
        final(app).popup == old(app).popup,
        final(app).can_persist == old(app).can_persist,
        res is Nothing,
{
    if let Some(host) = url.host_str {
        assert(old(app)@.sites[i] == old(app).sites@[i]@);
        assert(watches(old(app)@.sites, host@));
    }
    lemma_same_state(*final(app), *old(app));
}

/// Removing a domain leaves exactly the sites with another domain, in their order and with their
/// status; the settings hold the same list, it is saved where anything can be, and nothing else
/// changes.
pub proof fn law_update_remove(app: &mut AppModel, domain: String, res: Action)
    requires
        call_ensures(AppModel::update, (app, Message::RemoveSite(domain)), res),
    ensures
        exists|pos: Seq<int>|
            left_over(final(app).sites@, old(app).sites@, domain@, pos),
        lists(final(app).config.sites@, final(app).sites@),
        final(app).config.check_interval_secs == old(app).config.check_interval_secs,
        saves(res, *final(app)),
        final(app).popup == old(app).popup,
        final(app).can_persist == old(app).can_persist,
        final(app).new_site_input@ == old(app).new_site_input@,
{
    let before = old(app)@.sites;
    let after = final(app)@.sites;
    let pos = lemma_filter_positions(before, domain@);
    assert(after.len() == final(app).sites@.len());
    assert(before.len() == old(app).sites@.len());
    assert(left_over(final(app).sites@, old(app).sites@, domain@, pos)) by {
        assert forall|a: int| 0 <= a < pos.len() implies same_site(
            final(app).sites@[a],
            old(app).sites@[#[trigger] pos[a]],
        ) && old(app).sites@[pos[a]].domain@ != domain@ by {
            assert(after[a] == final(app).sites@[a]@);
            assert(before[pos[a]] == old(app).sites@[pos[a]]@);
        }
        assert forall|i: int|
            0 <= i < old(app).sites@.len() && (#[trigger] old(app).sites@[i]).domain@
                != domain@ implies pos.contains(i) by {
            assert(before[i] == old(app).sites@[i]@);
        }
    }
    lemma_lists(final(app).config.sites@, final(app).sites@);
    if let Action::SaveSites(list) = res {
        lemma_lists(list@, final(app).sites@);
    }
    lemma_same_state(*final(app), *old(app));
}

// ---- The other operations on the state ----

/// `popup_opened` holds the popup to be open and changes nothing else.
pub proof fn law_popup_opened(app: &mut AppModel, id: u64)
    requires
        call_ensures(AppModel::popup_opened, (app, id), ()),
    ensures
        final(app).popup == Some(id),
        same_settings(final(app).config, old(app).config),
        same_sites(final(app).sites@, old(app).sites@),
        final(app).can_persist == old(app).can_persist,
        final(app).new_site_input@ == old(app).new_site_input@,
{
    lemma_same_state(*final(app), *old(app));
}

/// A window that is asked to close is reported as closed.
pub proof fn law_close_requested(app: AppModel, id: u64, res: Option<Message>)
    requires
        call_ensures(AppModel::on_close_requested, (&app, id), res),
    ensures
        res matches Some(Message::PopupClosed(closed)) && closed == id,
{
}

/// `persist_sites` puts the watched domains into the settings, asks for them to be saved where
/// anything can be, and changes nothing else.
pub proof fn law_persist_sites(app: &mut AppModel, res: Action)
    requires
        call_ensures(AppModel::persist_sites, (app,), res),
    ensures
        lists(final(app).config.sites@, old(app).sites@),
        saves(res, *final(app)),
        final(app).config.check_interval_secs == old(app).config.check_interval_secs,
        same_sites(final(app).sites@, old(app).sites@),
        final(app).popup == old(app).popup,
        final(app).can_persist == old(app).can_persist,
        final(app).new_site_input@ == old(app).new_site_input@,
{
    lemma_lists(final(app).config.sites@, old(app).sites@);
    if let Action::SaveSites(list) = res {
        lemma_lists(list@, final(app).sites@);
    }
    lemma_same_state(*final(app), *old(app));
}

/// `persist_interval` puts the interval into the settings, asks for it to be saved where anything
/// can be, and changes nothing else.
pub proof fn law_persist_interval(app: &mut AppModel, secs: u64, res: Action)
    requires
        call_ensures(AppModel::persist_interval, (app, secs), res),
    ensures
        final(app).config.check_interval_secs == secs,
        old(app).can_persist ==> res == Action::SaveInterval(secs),
        !old(app).can_persist ==> res is Nothing,
        same_list(final(app).config.sites@, old(app).config.sites@),
        same_sites(final(app).sites@, old(app).sites@),
        final(app).popup == old(app).popup,
        final(app).can_persist == old(app).can_persist,
        final(app).new_site_input@ == old(app).new_site_input@,
{
    lemma_same_state(*final(app), *old(app));
}

/// `domain_list` gives the watched domains, in order.
pub proof fn law_domain_list(app: AppModel, res: Vec<String>)
    requires
        call_ensures(AppModel::domain_list, (&app,), res),
    ensures
        lists(res@, app.sites@),
{
    lemma_lists(res@, app.sites@);
}

/// A run starts with the settings that were found, or with those of a first run where there are
/// none to be had, and with one site for each entry, in order and without a status.
pub proof fn law_init(loaded: Option<Result<Config, Config>>, res: AppModel)
    requires
        call_ensures(AppModel::init, (loaded,), res),
    ensures
        loaded matches Some(Ok(config)) ==> same_settings(res.config, config),
        loaded matches Some(Err(config)) ==> same_settings(res.config, config),
        loaded is None ==> {
            &&& res.config.check_interval_secs == 300
            &&& res.config.sites@.len() == 3
            &&& res.config.sites@[0]@ == "captainslounge.nl"@
            &&& res.config.sites@[1]@ == "draityachts.nl"@
            &&& res.config.sites@[2]@ == "dedrait.com"@
        },
        res.can_persist <==> loaded is Some,
        res.popup is None,
        res.new_site_input@.len() == 0,
        res.sites@.len() == res.config.sites@.len(),
        forall|i: int| 0 <= i < res.sites@.len() ==> (#[trigger] res.sites@[i]).up is None,
{
    if let Some(Ok(config)) = loaded {
        lemma_same_list(res.config.sites@, config.sites@);
    }
    if let Some(Err(config)) = loaded {
        lemma_same_list(res.config.sites@, config.sites@);
    }
    assert(texts(res.config.sites@).len() == res.config.sites@.len());
    assert(site_views(res.sites@).len() == res.sites@.len());
    if loaded is None {
        assert(texts(res.config.sites@)[0] == res.config.sites@[0]@);
        assert(texts(res.config.sites@)[1] == res.config.sites@[1]@);
        assert(texts(res.config.sites@)[2] == res.config.sites@[2]@);
    }
    assert forall|i: int| 0 <= i < res.sites@.len() implies (#[trigger] res.sites@[i]).up
        is None by {
        assert(site_views(res.sites@)[i] == res.sites@[i]@);
    }
}

/// At the start, a site is watched by what `normalize_domain` makes of its entry.
pub proof fn law_init_normalizes(
    loaded: Option<Result<Config, Config>>,
    res: AppModel,
    i: int,
    entry: &str,
    domain: String,
)
    requires
        call_ensures(AppModel::init, (loaded,), res),
        call_ensures(normalize_domain, (entry,), domain),
        0 <= i < res.config.sites@.len(),
        entry@ == res.config.sites@[i]@,
    ensures
        res.sites@[i].domain@ == domain@,
{
    law_init(loaded, res);
    assert(texts(res.config.sites@)[i] == res.config.sites@[i]@);
    assert(site_views(res.sites@)[i] == res.sites@[i]@);
}

// ---- What is shown ----

/// The panel button always toggles the popup. While a site is down it is a red alarm, else it is
/// an ordinary icon.
pub proof fn law_view_panel(app: AppModel, res: PanelButton)
    requires
        call_ensures(AppModel::view_panel, (&app,), res),
    ensures
        res.on_press is TogglePopup,
        (exists|i: int| 0 <= i < app.sites@.len() && (#[trigger] app.sites@[i]).up == Some(false))
            ==> res.icon@ == "dialog-error-symbolic"@ && res.color == Some((0xE0u8, 0x1Bu8, 0x24u8)),
        (forall|i: int| 0 <= i < app.sites@.len() ==> (#[trigger] app.sites@[i]).up != Some(false))
            ==> res.icon@ == "emblem-ok-symbolic"@ && res.color is None,
{
    lemma_any_down(app);
}

/// Where the model says that a site is down, one is.
proof fn lemma_any_down(app: AppModel)
    ensures
        any_down(app@.sites) <==> exists|i: int|
            0 <= i < app.sites@.len() && (#[trigger] app.sites@[i]).up == Some(false),
{
    if any_down(app@.sites) {
        let i = choose|i: int|
            0 <= i < app@.sites.len() && (#[trigger] app@.sites[i]).up == Some(false);
        assert(app.sites@[i].up == Some(false));
    }
    if exists|i: int| 0 <= i < app.sites@.len() && (#[trigger] app.sites@[i]).up == Some(false) {
        let i = choose|i: int|
            0 <= i < app.sites@.len() && (#[trigger] app.sites@[i]).up == Some(false);
        assert(app@.sites[i].up == Some(false));
    }
}

/// `any_down` says whether the status of some site is down.
pub proof fn law_any_down(app: AppModel, res: bool)
    requires
        call_ensures(AppModel::any_down, (&app,), res),
    ensures
        res <==> exists|i: int|
            0 <= i < app.sites@.len() && (#[trigger] app.sites@[i]).up == Some(false),
{
    lemma_any_down(app);
}

/// A press on the panel button asks for a popup where none is open, and for the open one to be
/// closed.
pub proof fn law_press_toggles(app: &mut AppModel, button: PanelButton, res: Action)
    requires
        call_ensures(AppModel::view_panel, (&*old(app),), button),
        call_ensures(AppModel::update, (app, button.on_press), res),
    ensures
        old(app).popup is None ==> res is OpenPopup,
        old(app).popup matches Some(id) ==> res == Action::ClosePopup(id),
{
    law_view_panel(*old(app), button);
}

/// The words for the three statuses.
pub proof fn law_status_text(up: Option<bool>, res: &'static str)
    requires
        call_ensures(status_text, (up,), res),
    ensures
        up == Some(true) ==> res@ == "Up"@,
        up == Some(false) ==> res@ == "Down"@,
        up is None ==> res@ == "Checking…"@,
{
}

/// Choosing an interval emits it.
pub proof fn law_interval_changed(minutes: u64, res: Message)
    requires
        call_ensures(interval_changed, (minutes,), res),
    ensures
        res matches Message::SetIntervalMinutes(chosen) && chosen == minutes,
{
}

/// Typing emits the text.
pub proof fn law_input_changed(value: String, res: Message)
    requires
        call_ensures(input_changed, (value,), res),
    ensures
        res matches Message::SiteInputChanged(typed) && typed@ == value@,
{
}

/// Whether a list of parts is that of a popup with `n` site rows: the rows in order, a divider,
/// the interval, a divider and the row to add a site.
pub open spec fn in_order(parts: Seq<PopupPart>, n: int) -> bool {
    &&& parts.len() == n + 4
    &&& forall|i: int| 0 <= i < n ==> (#[trigger] parts[i]) is SiteRow && parts[i]->0 == i
    &&& parts[n] is Divider
    &&& parts[n + 1] is Interval
    &&& parts[n + 2] is Divider
    &&& parts[n + 3] is AddSite
}

/// The model of a popup's order gives the order.
proof fn lemma_in_order(parts: Seq<PopupPart>, n: nat)
    requires
        part_views(parts) == layout(n),
    ensures
        in_order(parts, n as int),
{
    let views = part_views(parts);
    assert(views.len() == parts.len());
    assert forall|i: int| 0 <= i < n implies (#[trigger] parts[i]) is SiteRow && parts[i]->0
        == i by {
        assert(views[i] == parts[i]@);
        assert(views[i] == PopupPartView::SiteRow(i));
    }
    let k = n as int;
    assert(views[k] == parts[k]@);
    assert(views[k + 1] == parts[k + 1]@);
    assert(views[k + 2] == parts[k + 2]@);
    assert(views[k + 3] == parts[k + 3]@);
}

/// `popup_layout` puts the rows first, in order, then the interval, then the row to add a site,
/// with a divider between the groups.
pub proof fn law_popup_layout(rows: usize, res: Vec<PopupPart>)
    requires
        call_ensures(popup_layout, (rows,), res),
    ensures
        in_order(res@, rows as int),
{
    lemma_in_order(res@, rows as nat);
}

/// Whether a popup shows a state in which the typed text was parsed to `parsed`: a row for each
/// site, in order, with its status and a button to remove it; the typed text, with a complaint
/// exactly where it is not blank and was not parsed; the parsed URL to be added; and the interval
/// in whole minutes, from one minute to a day.
pub open spec fn shows(res: PopupContent, app: AppModel, parsed: Option<SiteUrl>) -> bool {
    &&& in_order(res.parts@, app.sites@.len() as int)
    &&& res.rows@.len() == app.sites@.len()
    &&& forall|i: int|
        0 <= i < app.sites@.len() ==> {
            let row = #[trigger] res.rows@[i];
            let site = app.sites@[i];
            &&& row.domain@ == site.domain@
            &&& site.up == Some(true) ==> row.status@ == "Up"@
            &&& site.up == Some(false) ==> row.status@ == "Down"@
            &&& site.up is None ==> row.status@ == "Checking…"@
            &&& row.on_remove matches Message::RemoveSite(domain) && domain@ == site.domain@
        }
    &&& res.input@ == app.new_site_input@
    &&& res.placeholder@ == "example.com"@
    &&& res.store_caption@ == "Store"@
    &&& res.interval_caption@ == "Interval"@
    &&& blank(app.new_site_input@) || parsed is Some ==> res.input_error is None
    &&& !blank(app.new_site_input@) && parsed is None ==> (res.input_error matches Some(error)
        && error@ == "Doesn't look like a valid domain"@)
    &&& parsed is None ==> res.on_add is None
    &&& parsed matches Some(url) ==> (res.on_add matches Some(Message::AddSite(offer))
        && same_url(offer, url))
    &&& res.interval.value == app.config.check_interval_secs / 60
    &&& exists|digits: Seq<char>|
        numeral(digits) && #[trigger] count(digits) == app.config.check_interval_secs / 60
            && res.interval.label@ == digits + " min"@
    &&& res.interval.step == 1
    &&& res.interval.min == 1
    &&& res.interval.max == 1440
}

/// The model of the popup's contents gives what is shown.
proof fn lemma_shows(res: PopupContent, app: AppModel, parsed: Option<SiteUrl>)
    requires
        res@ == app@.content(url_of(parsed)),
    ensures
        shows(res, app, parsed),
{
    let sites = app@.sites;
    assert(sites.len() == app.sites@.len());
    lemma_in_order(res.parts@, sites.len());
    let rows = row_views(res.rows@);
    assert(rows.len() == res.rows@.len());
    assert forall|i: int| 0 <= i < app.sites@.len() implies ({
        let row = #[trigger] res.rows@[i];
        let site = app.sites@[i];
        &&& row.domain@ == site.domain@
        &&& site.up == Some(true) ==> row.status@ == "Up"@
        &&& site.up == Some(false) ==> row.status@ == "Down"@
        &&& site.up is None ==> row.status@ == "Checking…"@
        &&& row.on_remove matches Message::RemoveSite(domain) && domain@ == site.domain@
    }) by {
        assert(rows[i] == res.rows@[i]@);
        assert(sites[i] == app.sites@[i]@);
        assert(rows[i] == row_of(sites[i]));
    }
    lemma_blank(app.new_site_input@);
    let minutes = (app.config.check_interval_secs / 60) as nat;
    lemma_decimal(minutes);
    assert(count(decimal(minutes)) == app.config.check_interval_secs / 60);
    if let Some(url) = parsed {
        assert(res@.on_add == Some(MessageView::AddSite(url@)));
    }
}

/// `popup_content` shows the state and what the typed text was parsed to.
pub proof fn law_popup_content(app: AppModel, parsed: Option<SiteUrl>, res: PopupContent)
    requires
        call_ensures(AppModel::popup_content, (&app, parsed), res),
    ensures
        shows(res, app, parsed),
{
    lemma_shows(res, app, parsed);
}

/// `view_window` shows the state and what `parse_site_url` makes of the typed text, whatever the
/// window.
pub proof fn law_view_window(
    app: AppModel,
    id: u64,
    res: PopupContent,
    typed: &str,
    parsed: Option<SiteUrl>,
)
    requires
        call_ensures(AppModel::view_window, (&app, id), res),
        call_ensures(parse_site_url, (typed,), parsed),
        typed@ == app.new_site_input@,
    ensures
        shows(res, app, parsed),
{
    lemma_shows(res, app, parsed);
}

// ---- Health checks ----

/// A site is reported up exactly if it answered with a status of the two hundreds.
pub proof fn law_check_result(site: String, status: Option<u16>, res: Message)
    requires
        call_ensures(check_result, (site, status), res),
    ensures
        res is CheckResult,
        res->CheckResult_0@ == site@,
        status is None ==> !res->CheckResult_1,
        status matches Some(code) ==> (res->CheckResult_1 <==> code / 100 == 2),
{
}

/// The health checks work on the watched domains, in order, and on the interval of the settings.
pub proof fn law_subscription(app: AppModel, res: Watch)
    requires
        call_ensures(AppModel::subscription, (&app,), res),
    ensures
        lists(res.sites@, app.sites@),
        res.interval_secs == app.config.check_interval_secs,
{
    lemma_lists(res.sites@, app.sites@);
}

/// Whether a round requests each of these sites once, in order, over HTTPS.
pub open spec fn covers(requests: Seq<CheckRequest>, sites: Seq<String>) -> bool {
    &&& requests.len() == sites.len()
    &&& forall|i: int|
        0 <= i < requests.len() ==> (#[trigger] requests[i]).site@ == sites[i]@
            && requests[i].url@ == "https://"@ + sites[i]@
}

/// At the start and after each pause every site is checked, and after each round there is a pause
/// of the interval that was set, for every interval.
pub proof fn law_next_step(watch: Watch, event: WatchEvent, res: WatchStep)
    requires
        call_ensures(Watch::next_step, (&watch, event), res),
    ensures
        event is RoundFinished ==> res == WatchStep::Pause(watch.interval_secs),
        event is Started || event is PauseFinished ==> (res matches WatchStep::Check(requests)
            && covers(requests@, watch.sites@)),
{
    if let WatchStep::Check(requests) = res {
        let views = request_views(requests@);
        assert(views.len() == requests@.len());
        assert(texts(watch.sites@).len() == watch.sites@.len());
        assert forall|i: int| 0 <= i < requests@.len() implies (#[trigger] requests@[i]).site@
            == watch.sites@[i]@ && requests@[i].url@ == "https://"@ + watch.sites@[i]@ by {
            assert(views[i] == requests@[i]@);
            assert(texts(watch.sites@)[i] == watch.sites@[i]@);
            assert(watch@.round()[i] == views[i]);
        }
    }
}

/// Whatever interval is set, the pause after a round of the checks that follow is that many
/// minutes.
pub proof fn law_set_interval_is_the_pause(
    app: &mut AppModel,
    minutes: u64,
    res: Action,
    watch: Watch,
    step: WatchStep,
)
    requires
        call_ensures(AppModel::update, (app, Message::SetIntervalMinutes(minutes)), res),
        minutes * 60 <= u64::MAX,
        call_ensures(AppModel::subscription, (&*final(app),), watch),
        call_ensures(Watch::next_step, (&watch, WatchEvent::RoundFinished), step),
    ensures
        step matches WatchStep::Pause(secs) && secs == minutes * 60,
{
    law_subscription(*final(app), watch);
    law_next_step(watch, WatchEvent::RoundFinished, step);
}

// ---- Copies ----

/// A copy of a URL is the same in every part.
pub proof fn law_clone_url(url: SiteUrl, res: SiteUrl)
    requires
        call_ensures(SiteUrl::clone, (&url,), res),
    ensures
        same_url(res, url),
{
}

/// A copy of settings is the same.
pub proof fn law_clone_settings(config: Config, res: Config)
    requires
        call_ensures(Config::clone, (&config,), res),
    ensures
        same_settings(res, config),
{
    lemma_same_list(res.sites@, config.sites@);
}

/// A copy of a list of texts is the same.
pub proof fn law_clone_texts(list: Vec<String>, res: Vec<String>)
    requires
        call_ensures(clone_texts, (&list,), res),
    ensures
        same_list(res@, list@),
{
    lemma_same_list(res@, list@);
}

/// A copy of a message says the same.
pub proof fn law_clone_message(message: Message, res: Message)
    requires
        call_ensures(Message::clone, (&message,), res),
    ensures
        match message {
            Message::TogglePopup => res is TogglePopup,
            Message::PopupClosed(id) => res == Message::PopupClosed(id),
            Message::UpdateConfig(config) => res matches Message::UpdateConfig(copy)
                && same_settings(copy, config),
            Message::CheckResult(domain, up) => res matches Message::CheckResult(copy, same)
                && copy@ == domain@ && same == up,
            Message::SiteInputChanged(value) => res matches Message::SiteInputChanged(copy)
                && copy@ == value@,
            Message::AddSite(url) => res matches Message::AddSite(copy) && same_url(copy, url),
            Message::RemoveSite(domain) => res matches Message::RemoveSite(copy) && copy@
                == domain@,
            Message::SetIntervalMinutes(minutes) => res == Message::SetIntervalMinutes(minutes),
        },
{
    if let Message::UpdateConfig(config) = message {
        if let Message::UpdateConfig(copy) = res {
            lemma_same_list(copy.sites@, config.sites@);
        }
    }
}

} // verus!
