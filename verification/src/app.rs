//! The state of the applet and how messages change it.

use vstd::prelude::*;
use crate::config::{clone_texts, lemma_texts_push, texts, Config, ConfigView};
use crate::domain::{normalize_domain, normalized};
use crate::message::{Action, ActionView, Message, MessageView, Notification, NotificationView};
use crate::site_url::text_of;
use crate::text;

verus! {

/// A monitored site and its most recently observed status.
#[derive(Debug)]
pub struct Site {
    pub domain: String,
    /// `None` until the first check completes, then `Some(true)` for up, `Some(false)` for down.
    pub up: Option<bool>,
}

/// The model of a `Site`.
pub struct SiteView {
    pub domain: Seq<char>,
    pub up: Option<bool>,
}

/// The state that the applet's interface shows and its logic works on.
#[derive(Debug)]
pub struct AppModel {
    /// The open popup window.
    pub popup: Option<u64>,
    /// The settings that persist between runs.
    pub config: Config,
    /// Whether the settings can be written to disk. If not, changes last for this session only.
    pub can_persist: bool,
    /// The monitored sites and their current status.
    pub sites: Vec<Site>,
    /// Current text in the "add a site" input field.
    pub new_site_input: String,
}

/// The model of an `AppModel`.
pub struct AppView {
    pub popup: Option<u64>,
    pub config: ConfigView,
    pub can_persist: bool,
    pub sites: Seq<SiteView>,
    pub new_site_input: Seq<char>,
}

impl View for Site {
    type V = SiteView;

    open spec fn view(&self) -> SiteView {
        SiteView { domain: self.domain@, up: self.up }
    }
}

/// The models of a sequence of sites.
pub open spec fn site_views(sites: Seq<Site>) -> Seq<SiteView> {
    sites.map_values(|site: Site| site@)
}

impl View for AppModel {
    type V = AppView;

    open spec fn view(&self) -> AppView {
        AppView {
            popup: self.popup,
            config: self.config@,
            can_persist: self.can_persist,
            sites: site_views(self.sites@),
            new_site_input: self.new_site_input@,
        }
    }
}

/// The domains of `sites`, in order.
pub open spec fn domains(sites: Seq<SiteView>) -> Seq<Seq<char>> {
    sites.map_values(|site: SiteView| site.domain)
}

/// Whether `sites[i]` is the first site with this domain.
pub open spec fn is_first(sites: Seq<SiteView>, domain: Seq<char>, i: int) -> bool {
    &&& 0 <= i < sites.len()
    &&& sites[i].domain == domain
    &&& forall|j: int| 0 <= j < i ==> (#[trigger] sites[j]).domain != domain
}

/// Whether one of `sites` has this domain.
pub open spec fn watches(sites: Seq<SiteView>, domain: Seq<char>) -> bool {
    exists|i: int| 0 <= i < sites.len() && (#[trigger] sites[i]).domain == domain
}

/// The position of the first site with this domain.
pub open spec fn first_at(sites: Seq<SiteView>, domain: Seq<char>) -> int {
    choose|i: int| is_first(sites, domain, i)
}

/// The predicate that holds of all sites but those with this domain.
pub open spec fn other_than(domain: Seq<char>) -> spec_fn(SiteView) -> bool {
    |site: SiteView| site.domain != domain
}

/// Whether a check that found a site up (or down) is worth a notification, given what the check
/// before it found: a real change is, and so is a first check that finds the site down.
pub open spec fn notifies(before: Option<bool>, up: bool) -> bool {
    match before {
        None => !up,
        Some(was_up) => was_up != up,
    }
}

/// The notification for a site that came up or went down.
pub open spec fn notification(domain: Seq<char>, up: bool) -> NotificationView {
    if up {
        NotificationView {
            urgency: "normal"@,
            summary: "🟢 "@ + domain + " is back UP"@,
            body: "Site is responding normally again"@,
        }
    } else {
        NotificationView {
            urgency: "critical"@,
            summary: "🔴 "@ + domain + " is DOWN"@,
            body: "HTTPS check failed"@,
        }
    }
}

/// The settings found on disk: whole, as far as they could be read, or none at all.
pub open spec fn found(loaded: Option<Result<Config, Config>>) -> Option<ConfigView> {
    match loaded {
        Some(Ok(config)) => Some(config@),
        Some(Err(config)) => Some(config@),
        None => None,
    }
}

impl AppView {
    /// The state at the start of a run. Stored sites are watched by their bare domains, with no
    /// status yet.
    pub open spec fn started(found: Option<ConfigView>) -> AppView {
        let config = match found {
            Some(config) => config,
            None => ConfigView::initial(),
        };
        AppView {
            popup: None,
            config,
            can_persist: found is Some,
            sites: config.sites.map_values(
                |entry: Seq<char>| SiteView { domain: normalized(entry), up: None },
            ),
            new_site_input: seq![],
        }
    }

    /// The state with these sites, which are also those of the settings.
    pub open spec fn with_sites(self, sites: Seq<SiteView>) -> AppView {
        AppView {
            sites,
            config: ConfigView { sites: domains(sites), ..self.config },
            ..self
        }
    }

    /// The request to save the sites, if anything can be saved.
    pub open spec fn save_sites(self) -> ActionView {
        if self.can_persist {
            ActionView::SaveSites(domains(self.sites))
        } else {
            ActionView::Nothing
        }
    }

    /// Whether a host is given that is not watched yet.
    pub open spec fn is_new(self, host: Option<Seq<char>>) -> bool {
        host matches Some(domain) && !watches(self.sites, domain)
    }

    /// The state after a message.
    pub open spec fn after(self, message: MessageView) -> AppView {
        match message {
            MessageView::UpdateConfig(config) => AppView { config, ..self },
            MessageView::CheckResult(domain, up) => if watches(self.sites, domain) {
                AppView {
                    sites: self.sites.update(
                        first_at(self.sites, domain),
                        SiteView { domain, up: Some(up) },
                    ),
                    ..self
                }
            } else {
                self
            },
            MessageView::SiteInputChanged(value) => AppView { new_site_input: value, ..self },
            MessageView::AddSite(url) => {
                let cleared = AppView { new_site_input: seq![], ..self };
                if self.is_new(url.host_str) {
                    cleared.with_sites(
                        self.sites.push(SiteView { domain: url.host_str->0, up: None }),
                    )
                } else {
                    cleared
                }
            },
            MessageView::RemoveSite(domain) => self.with_sites(
                self.sites.filter(other_than(domain)),
            ),
            MessageView::SetIntervalMinutes(minutes) => AppView {
                config: ConfigView { check_interval_secs: (minutes * 60) as u64, ..self.config },
                ..self
            },
            MessageView::TogglePopup => AppView { popup: None, ..self },
            MessageView::PopupClosed(id) => if self.popup == Some(id) {
                AppView { popup: None, ..self }
            } else {
                self
            },
        }
    }

    /// What is to be done about a message.
    pub open spec fn action(self, message: MessageView) -> ActionView {
        match message {
            MessageView::CheckResult(domain, up) => if watches(self.sites, domain) && notifies(
                self.sites[first_at(self.sites, domain)].up,
                up,
            ) {
                ActionView::Notify(notification(domain, up))
            } else {
                ActionView::Nothing
            },
            MessageView::AddSite(url) => if self.is_new(url.host_str) {
                self.after(message).save_sites()
            } else {
                ActionView::Nothing
            },
            MessageView::RemoveSite(_) => self.after(message).save_sites(),
            MessageView::SetIntervalMinutes(minutes) => if self.can_persist {
                ActionView::SaveInterval((minutes * 60) as u64)
            } else {
                ActionView::Nothing
            },
            MessageView::TogglePopup => match self.popup {
                Some(id) => ActionView::ClosePopup(id),
                None => ActionView::OpenPopup,
            },
            MessageView::UpdateConfig(_) | MessageView::SiteInputChanged(_)
            | MessageView::PopupClosed(_) => ActionView::Nothing,
        }
    }
}

/// A site pushed to a sequence is pushed to its model.
pub proof fn lemma_site_views_push(sites: Seq<Site>, site: Site)
    ensures
        site_views(sites.push(site)) == site_views(sites).push(site@),
{
    assert(site_views(sites.push(site)) =~= site_views(sites).push(site@));
}

/// The first site with a domain is where it is said to be.
pub proof fn lemma_first_at(sites: Seq<SiteView>, domain: Seq<char>)
    requires
        watches(sites, domain),
    ensures
        is_first(sites, domain, first_at(sites, domain)),
{
    let i = choose|i: int| 0 <= i < sites.len() && (#[trigger] sites[i]).domain == domain;
    lemma_first_before(sites, domain, i);
}

/// At or before a site there is a first one with its domain.
proof fn lemma_first_before(sites: Seq<SiteView>, domain: Seq<char>, i: int)
    requires
        0 <= i < sites.len(),
        sites[i].domain == domain,
    ensures
        exists|k: int| is_first(sites, domain, k),
    decreases i,
{
    if !is_first(sites, domain, i) {
        let j = choose|j: int| 0 <= j < i && (#[trigger] sites[j]).domain == domain;
        lemma_first_before(sites, domain, j);
    }
}

/// There is only one first site with a domain.
pub proof fn lemma_first_is_unique(sites: Seq<SiteView>, domain: Seq<char>, i: int)
    requires
        is_first(sites, domain, i),
    ensures
        watches(sites, domain),
        first_at(sites, domain) == i,
{
    let k = first_at(sites, domain);
    assert(is_first(sites, domain, k));
    if i < k {
        assert(sites[i].domain != domain);
    } else if k < i {
        assert(sites[k].domain != domain);
    }
}

/// The notification for a site that came up or went down.
fn notification_for(domain: &str, up: bool) -> (res: Notification)
    ensures
        res@ == notification(domain@, up),
{
    if up {
        Notification {
            urgency: "normal".to_owned(),
            summary: text::join(text::join("🟢 ", domain).as_str(), " is back UP"),
            body: "Site is responding normally again".to_owned(),
        }
    } else {
        Notification {
            urgency: "critical".to_owned(),
            summary: text::join(text::join("🔴 ", domain).as_str(), " is DOWN"),
            body: "HTTPS check failed".to_owned(),
        }
    }
}

impl Default for AppModel {
    fn default() -> (res: Self)
        ensures
            res@ == (AppView {
                popup: None,
                config: ConfigView::initial(),
                can_persist: false,
                sites: seq![],
                new_site_input: seq![],
            }),
    {
        let sites: Vec<Site> = Vec::new();
        assert(site_views(sites@) =~= seq![]);
        AppModel {
            popup: None,
            config: Config::default(),
            can_persist: false,
            sites,
            new_site_input: String::new(),
        }
    }
}

impl AppModel {
    /// The currently-watched domains, in order.
    pub fn domain_list(&self) -> (res: Vec<String>)
        ensures
            texts(res@) == domains(self@.sites),
    {
        let mut res: Vec<String> = Vec::new();
        let mut i: usize = 0;
        while i < self.sites.len()
            invariant
                i <= self.sites.len(),
                texts(res@) == domains(self@.sites).take(i as int),
            decreases self.sites.len() - i,
        {
            let domain = self.sites[i].domain.clone();
            proof {
                lemma_texts_push(res@, domain);
                assert(domains(self@.sites).take(i as int).push(domain@) =~= domains(
                    self@.sites,
                ).take(i + 1));
            }
            res.push(domain);
            i += 1;
        }
        assert(domains(self@.sites).take(i as int) =~= domains(self@.sites));
        res
    }

    /// Puts the watched domains into the settings and asks for them to be saved.
    pub fn persist_sites(&mut self) -> (res: Action)
        ensures
            final(self)@ == old(self)@.with_sites(old(self)@.sites),
            res@ == old(self)@.save_sites(),
    {
        let sites = self.domain_list();
        self.config.sites = clone_texts(&sites);
        if self.can_persist {
            Action::SaveSites(sites)
        } else {
            Action::Nothing
        }
    }

    /// Puts a check interval into the settings and asks for it to be saved.
    pub fn persist_interval(&mut self, secs: u64) -> (res: Action)
        ensures
            final(self)@ == (AppView {
                config: ConfigView { check_interval_secs: secs, ..old(self)@.config },
                ..old(self)@
            }),
            res@ == if old(self)@.can_persist {
                ActionView::SaveInterval(secs)
            } else {
                ActionView::Nothing
            },
    {
        self.config.check_interval_secs = secs;
        if self.can_persist {
            Action::SaveInterval(secs)
        } else {
            Action::Nothing
        }
    }

    /// Starts from the settings found on disk: `Ok` if all of them could be read, `Err` with what
    /// is to be used if some could not, `None` if there is nowhere to keep settings.
    pub fn init(loaded: Option<Result<Config, Config>>) -> (res: AppModel)
        ensures
            res@ == AppView::started(found(loaded)),
    {
        let can_persist = loaded.is_some();
        let config = match loaded {
            Some(Ok(config)) => config,
            Some(Err(config)) => config,
            None => Config::default(),
        };
        let ghost wanted = AppView::started(found(loaded)).sites;
        let mut sites: Vec<Site> = Vec::new();
        let mut i: usize = 0;
        while i < config.sites.len()
            invariant
                i <= config.sites.len(),
                wanted == config@.sites.map_values(
                    |entry: Seq<char>| SiteView { domain: normalized(entry), up: None },
                ),
                site_views(sites@) == wanted.take(i as int),
            decreases config.sites.len() - i,
        {
            let site = Site { domain: normalize_domain(config.sites[i].as_str()), up: None };
            proof {
                lemma_site_views_push(sites@, site);
                assert(wanted.take(i as int).push(site@) =~= wanted.take(i + 1));
            }
            sites.push(site);
            i += 1;
        }
        assert(wanted.take(i as int) =~= wanted);
        AppModel { popup: None, config, can_persist, sites, new_site_input: String::new() }
    }

    /// The message for a window that is asked to close.
    pub fn on_close_requested(&self, id: u64) -> (res: Option<Message>)
        ensures
            res is Some,
            res->0@ == MessageView::PopupClosed(id),
    {
        Some(Message::PopupClosed(id))
    }

    /// Takes note of the popup window that was opened on request.
    pub fn popup_opened(&mut self, id: u64)
        ensures
            final(self)@ == (AppView { popup: Some(id), ..old(self)@ }),
    {
        self.popup = Some(id);
    }

    /// The position of the first site with this domain.
    fn find_site(&self, domain: &String) -> (res: Option<usize>)
        ensures
            match res {
                Some(i) => is_first(self@.sites, domain@, i as int),
                None => !watches(self@.sites, domain@),
            },
    {
        let mut i: usize = 0;
        while i < self.sites.len()
            invariant
                i <= self.sites.len(),
                forall|j: int| 0 <= j < i ==> (#[trigger] self@.sites[j]).domain != domain@,
            decreases self.sites.len() - i,
        {
            assert(self@.sites[i as int].domain == self.sites[i as int].domain@);
            if self.sites[i].domain == *domain {
                return Some(i);
            }
            i += 1;
        }
        None
    }

    /// Takes the sites with this domain off the list.
    fn drop_site(&mut self, domain: &String)
        ensures
            final(self)@ == (AppView {
                sites: old(self)@.sites.filter(other_than(domain@)),
                ..old(self)@
            }),
    {
        let ghost all = self@.sites;
        let ghost p = other_than(domain@);
        let ghost mut seen: int = 0;
        let mut i: usize = 0;
        proof {
            reveal(Seq::filter);
            assert(all.take(0).filter(p) =~= seq![]);
            assert(self@.sites =~= all.take(0).filter(p) + all.skip(0));
        }
        while i < self.sites.len()
            invariant
                0 <= seen <= all.len(),
                p == other_than(domain@),
                i == all.take(seen).filter(p).len(),
                self@.sites == all.take(seen).filter(p) + all.skip(seen),
                self@ == (AppView { sites: self@.sites, ..old(self)@ }),
            decreases all.len() - seen,
        {
            let ghost kept = all.take(seen).filter(p);
            proof {
                reveal(Seq::filter);
                assert(self@.sites.len() == self.sites.len());
                assert(seen < all.len());
                assert(all.take(seen + 1).drop_last() =~= all.take(seen));
                assert(all.skip(seen) =~= seq![all[seen]] + all.skip(seen + 1));
                assert(self@.sites[i as int] == all[seen]);
                assert(self@.sites[i as int].domain == self.sites[i as int].domain@);
            }
            if self.sites[i].domain == *domain {
                let ghost before = self.sites@;
                self.sites.remove(i);
                proof {
                    assert(site_views(before.remove(i as int)) =~= site_views(before).remove(
                        i as int,
                    ));
                    assert((kept + (seq![all[seen]] + all.skip(seen + 1))).remove(i as int)
                        =~= kept + all.skip(seen + 1));
                }
            } else {
                i += 1;
                assert(kept + (seq![all[seen]] + all.skip(seen + 1)) =~= kept.push(all[seen])
                    + all.skip(seen + 1));
            }
            proof {
                seen = seen + 1;
            }
        }
        proof {
            assert(self@.sites.len() == self.sites.len());
            assert(seen == all.len());
            assert(all.take(seen) =~= all);
            assert(self@.sites =~= all.filter(p));
        }
    }

    /// Records what a check found about the first site with this domain, and says whether that
    /// is worth a notification.
    fn record_check(&mut self, domain: String, up: bool) -> (res: Action)
        ensures
            final(self)@ == old(self)@.after(MessageView::CheckResult(domain@, up)),
            res@ == old(self)@.action(MessageView::CheckResult(domain@, up)),
    {
        let i = match self.find_site(&domain) {
            Some(i) => i,
            None => return Action::Nothing,
        };
        proof {
            lemma_first_is_unique(self@.sites, domain@, i as int);
            assert(self@.sites[i as int] == self.sites[i as int]@);
        }
        let ghost before = self.sites@;
        let prev = self.sites[i].up;
        self.sites[i].up = Some(up);
        assert(site_views(self.sites@) =~= site_views(before).update(
            i as int,
            SiteView { domain: domain@, up: Some(up) },
        ));
        let should_notify = match prev {
            None => !up,
            Some(prev_up) => prev_up != up,
        };
        if should_notify {
            Action::Notify(notification_for(domain.as_str(), up))
        } else {
            Action::Nothing
        }
    }

    /// Clears the input field and watches the host, if there is one that is not watched yet.
    fn add_site(&mut self, host: Option<String>) -> (res: Action)
        ensures
            ({
                let cleared = AppView { new_site_input: seq![], ..old(self)@ };
                if old(self)@.is_new(text_of(host)) {
                    let added = cleared.with_sites(
                        old(self)@.sites.push(SiteView { domain: host->0@, up: None }),
                    );
                    final(self)@ == added && res@ == added.save_sites()
                } else {
                    final(self)@ == cleared && res@ == ActionView::Nothing
                }
            }),
    {
        self.new_site_input = String::new();
        if let Some(domain) = host {
            if self.find_site(&domain).is_none() {
                let site = Site { domain, up: None };
                proof {
                    lemma_site_views_push(self.sites@, site);
                }
                self.sites.push(site);
                return self.persist_sites();
            } else {
                assert(watches(self@.sites, domain@));
            }
        }
        Action::Nothing
    }

    /// Handles a message: changes the state and says what is to be done.
    pub fn update(&mut self, message: Message) -> (res: Action)
        requires
            message@.fits(),
        ensures
            final(self)@ == old(self)@.after(message@),
            res@ == old(self)@.action(message@),
    {
        match message {
            Message::UpdateConfig(config) => {
                self.config = config;
                Action::Nothing
            },
            Message::CheckResult(domain, up) => self.record_check(domain, up),
            Message::SiteInputChanged(value) => {
                self.new_site_input = value;
                Action::Nothing
            },
            Message::AddSite(url) => self.add_site(url.host_str),
            Message::RemoveSite(domain) => {
                self.drop_site(&domain);
                self.persist_sites()
            },
            Message::SetIntervalMinutes(minutes) => self.persist_interval(minutes * 60),
            Message::TogglePopup => match self.popup.take() {
                Some(id) => Action::ClosePopup(id),
                None => Action::OpenPopup,
            },
            Message::PopupClosed(id) => {
                let is_open = match self.popup {
                    Some(open) => open == id,
                    None => false,
                };
                if is_open {
                    self.popup = None;
                }
                Action::Nothing
            },
        }
    }
}

} // verus!
