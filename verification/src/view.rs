//! What the applet's panel button and popup window show.

use vstd::prelude::*;
use crate::app::{AppModel, AppView, Site, SiteView};
use crate::message::{Message, MessageView};
use crate::site_url::{parse_site_url, site_url, url_of, SiteUrl, UrlView};
use crate::text;
use crate::text::{decimal, trimmed};

verus! {

/// The check interval's spin button step, in minutes.
pub const INTERVAL_STEP_MINUTES: u64 = 1;

/// The check interval's spin button minimum, in minutes.
pub const INTERVAL_MIN_MINUTES: u64 = 1;

/// The check interval's spin button maximum, in minutes.
pub const INTERVAL_MAX_MINUTES: u64 = 1440;

/// The button in the panel.
#[derive(Debug)]
pub struct PanelButton {
    /// The name of the icon.
    pub icon: &'static str,
    /// The colour of the icon as red, green and blue, or `None` for the panel's own.
    pub color: Option<(u8, u8, u8)>,
    /// What a press emits.
    pub on_press: Message,
}

/// The model of a `PanelButton`.
pub struct PanelButtonView {
    pub icon: Seq<char>,
    pub color: Option<(u8, u8, u8)>,
    pub on_press: MessageView,
}

/// A site's row in the popup.
#[derive(Debug)]
pub struct SiteRow {
    pub domain: String,
    pub status: &'static str,
    /// What the row's remove button emits.
    pub on_remove: Message,
}

/// The model of a `SiteRow`.
pub struct SiteRowView {
    pub domain: Seq<char>,
    pub status: Seq<char>,
    pub on_remove: MessageView,
}

/// The spin button for the check interval, in minutes. It offers values from `min` to `max`, and
/// emits `interval_changed` of the one that is chosen.
#[derive(Debug)]
pub struct IntervalControl {
    pub label: String,
    pub value: u64,
    pub step: u64,
    pub min: u64,
    pub max: u64,
}

/// The model of an `IntervalControl`.
pub struct IntervalControlView {
    pub label: Seq<char>,
    pub value: u64,
    pub step: u64,
    pub min: u64,
    pub max: u64,
}

/// A part of the popup's column.
#[derive(Debug)]
pub enum PopupPart {
    /// The site row with this index.
    SiteRow(usize),
    /// A line between two groups.
    Divider,
    /// The row with the check interval.
    Interval,
    /// The row with the input field and the store button.
    AddSite,
}

/// The model of a `PopupPart`.
pub enum PopupPartView {
    SiteRow(int),
    Divider,
    Interval,
    AddSite,
}

/// The contents of the popup window.
#[derive(Debug)]
pub struct PopupContent {
    /// What the popup shows, from top to bottom.
    pub parts: Vec<PopupPart>,
    /// One row for each site, in order.
    pub rows: Vec<SiteRow>,
    /// The text in the "add a site" input field, which emits `input_changed` of what is typed.
    pub input: String,
    /// What the input field shows while it is empty.
    pub placeholder: &'static str,
    /// The complaint shown at the input field.
    pub input_error: Option<&'static str>,
    /// What the input field emits on submission, and what the store button emits; neither reacts
    /// where this is `None`.
    pub on_add: Option<Message>,
    /// The caption of the store button.
    pub store_caption: &'static str,
    /// The caption of the interval row.
    pub interval_caption: &'static str,
    /// The check interval.
    pub interval: IntervalControl,
}

/// The model of a `PopupContent`.
pub struct PopupContentView {
    pub parts: Seq<PopupPartView>,
    pub rows: Seq<SiteRowView>,
    pub input: Seq<char>,
    pub placeholder: Seq<char>,
    pub input_error: Option<Seq<char>>,
    pub on_add: Option<MessageView>,
    pub store_caption: Seq<char>,
    pub interval_caption: Seq<char>,
    pub interval: IntervalControlView,
}

impl View for PanelButton {
    type V = PanelButtonView;

    open spec fn view(&self) -> PanelButtonView {
        PanelButtonView { icon: self.icon@, color: self.color, on_press: self.on_press@ }
    }
}

impl View for SiteRow {
    type V = SiteRowView;

    open spec fn view(&self) -> SiteRowView {
        SiteRowView { domain: self.domain@, status: self.status@, on_remove: self.on_remove@ }
    }
}

impl View for IntervalControl {
    type V = IntervalControlView;

    open spec fn view(&self) -> IntervalControlView {
        IntervalControlView {
            label: self.label@,
            value: self.value,
            step: self.step,
            min: self.min,
            max: self.max,
        }
    }
}

/// The models of a sequence of rows.
pub open spec fn row_views(rows: Seq<SiteRow>) -> Seq<SiteRowView> {
    rows.map_values(|row: SiteRow| row@)
}

impl View for PopupPart {
    type V = PopupPartView;

    open spec fn view(&self) -> PopupPartView {
        match self {
            PopupPart::SiteRow(i) => PopupPartView::SiteRow(*i as int),
            PopupPart::Divider => PopupPartView::Divider,
            PopupPart::Interval => PopupPartView::Interval,
            PopupPart::AddSite => PopupPartView::AddSite,
        }
    }
}

/// The models of a sequence of parts.
pub open spec fn part_views(parts: Seq<PopupPart>) -> Seq<PopupPartView> {
    parts.map_values(|part: PopupPart| part@)
}

/// The order of the popup with `rows` site rows: the site rows, the interval and the row to add a
/// site, with a divider between these three groups and none within a group.
pub open spec fn layout(rows: nat) -> Seq<PopupPartView> {
    Seq::new(rows, |i: int| PopupPartView::SiteRow(i)) + seq![
        PopupPartView::Divider,
        PopupPartView::Interval,
        PopupPartView::Divider,
        PopupPartView::AddSite,
    ]
}

impl View for PopupContent {
    type V = PopupContentView;

    open spec fn view(&self) -> PopupContentView {
        PopupContentView {
            parts: part_views(self.parts@),
            rows: row_views(self.rows@),
            input: self.input@,
            placeholder: self.placeholder@,
            input_error: match self.input_error {
                Some(error) => Some(error@),
                None => None,
            },
            on_add: match self.on_add {
                Some(message) => Some(message@),
                None => None,
            },
            store_caption: self.store_caption@,
            interval_caption: self.interval_caption@,
            interval: self.interval@,
        }
    }
}

/// Whether the last check of one of `sites` found it down.
pub open spec fn any_down(sites: Seq<SiteView>) -> bool {
    exists|i: int| 0 <= i < sites.len() && (#[trigger] sites[i]).up == Some(false)
}

/// The words for a status.
pub open spec fn status_words(up: Option<bool>) -> Seq<char> {
    match up {
        Some(true) => "Up"@,
        Some(false) => "Down"@,
        None => "Checking…"@,
    }
}

/// The row of a site.
pub open spec fn row_of(site: SiteView) -> SiteRowView {
    SiteRowView {
        domain: site.domain,
        status: status_words(site.up),
        on_remove: MessageView::RemoveSite(site.domain),
    }
}

/// The spin button for an interval given in seconds.
pub open spec fn interval_control(secs: u64) -> IntervalControlView {
    IntervalControlView {
        label: decimal((secs / 60) as nat) + " min"@,
        value: secs / 60,
        step: INTERVAL_STEP_MINUTES,
        min: INTERVAL_MIN_MINUTES,
        max: INTERVAL_MAX_MINUTES,
    }
}

impl AppView {
    /// The panel button: a red alarm if a site is down, else an ordinary panel icon.
    pub open spec fn panel(self) -> PanelButtonView {
        if any_down(self.sites) {
            PanelButtonView {
                icon: "dialog-error-symbolic"@,
                color: Some((0xE0, 0x1B, 0x24)),
                on_press: MessageView::TogglePopup,
            }
        } else {
            PanelButtonView {
                icon: "emblem-ok-symbolic"@,
                color: None,
                on_press: MessageView::TogglePopup,
            }
        }
    }

    /// The popup, where the text in the input field was parsed to `parsed`.
    pub open spec fn content(self, parsed: Option<UrlView>) -> PopupContentView {
        PopupContentView {
            parts: layout(self.sites.len()),
            rows: self.sites.map_values(|site: SiteView| row_of(site)),
            input: self.new_site_input,
            placeholder: "example.com"@,
            input_error: if trimmed(self.new_site_input).len() > 0 && parsed is None {
                Some("Doesn't look like a valid domain"@)
            } else {
                None
            },
            on_add: match parsed {
                Some(url) => Some(MessageView::AddSite(url)),
                None => None,
            },
            store_caption: "Store"@,
            interval_caption: "Interval"@,
            interval: interval_control(self.config.check_interval_secs),
        }
    }
}

/// The words for a status.
pub fn status_text(up: Option<bool>) -> (res: &'static str)
    ensures
        res@ == status_words(up),
{
    match up {
        Some(true) => "Up",
        Some(false) => "Down",
        None => "Checking…",
    }
}

/// What the spin button emits when an interval is chosen.
pub fn interval_changed(minutes: u64) -> (res: Message)
    ensures
        res@ == MessageView::SetIntervalMinutes(minutes),
{
    Message::SetIntervalMinutes(minutes)
}

/// What the input field emits when its text changes.
pub fn input_changed(value: String) -> (res: Message)
    ensures
        res@ == MessageView::SiteInputChanged(value@),
{
    Message::SiteInputChanged(value)
}

/// The parts of the popup with `rows` site rows, from top to bottom.
pub fn popup_layout(rows: usize) -> (res: Vec<PopupPart>)
    ensures
        part_views(res@) == layout(rows as nat),
{
    let ghost site_rows = Seq::new(rows as nat, |i: int| PopupPartView::SiteRow(i));
    let mut parts: Vec<PopupPart> = Vec::new();
    let mut i: usize = 0;
    assert(part_views(parts@) =~= site_rows.take(0));
    while i < rows
        invariant
            i <= rows,
            site_rows == Seq::new(rows as nat, |i: int| PopupPartView::SiteRow(i)),
            part_views(parts@) == site_rows.take(i as int),
        decreases rows - i,
    {
        let part = PopupPart::SiteRow(i);
        assert(part_views(parts@.push(part)) =~= part_views(parts@).push(part@));
        assert(site_rows.take(i as int).push(part@) =~= site_rows.take(i + 1));
        parts.push(part);
        i += 1;
    }
    assert(site_rows.take(i as int) =~= site_rows);
    let ghost before = parts@;
    parts.push(PopupPart::Divider);
    parts.push(PopupPart::Interval);
    parts.push(PopupPart::Divider);
    parts.push(PopupPart::AddSite);
    assert(part_views(parts@) =~= part_views(before) + seq![
        PopupPartView::Divider,
        PopupPartView::Interval,
        PopupPartView::Divider,
        PopupPartView::AddSite,
    ]);
    parts
}

/// The row of a site.
fn site_row(site: &Site) -> (res: SiteRow)
    ensures
        res@ == row_of(site@),
{
    SiteRow {
        domain: site.domain.clone(),
        status: status_text(site.up),
        on_remove: Message::RemoveSite(site.domain.clone()),
    }
}

impl AppModel {
    /// Whether the last check of one of the sites found it down.
    pub fn any_down(&self) -> (res: bool)
        ensures
            res == any_down(self@.sites),
    {
        let mut i: usize = 0;
        while i < self.sites.len()
            invariant
                i <= self.sites.len(),
                forall|j: int| 0 <= j < i ==> (#[trigger] self@.sites[j]).up != Some(false),
            decreases self.sites.len() - i,
        {
            assert(self@.sites[i as int].up == self.sites[i as int].up);
            if let Some(false) = self.sites[i].up {
                return true;
            }
            i += 1;
        }
        false
    }

    /// The button in the panel.
    pub fn view_panel(&self) -> (res: PanelButton)
        ensures
            res@ == self@.panel(),
    {
        if self.any_down() {
            PanelButton {
                icon: "dialog-error-symbolic",
                color: Some((0xE0, 0x1B, 0x24)),
                on_press: Message::TogglePopup,
            }
        } else {
            PanelButton {
                icon: "emblem-ok-symbolic",
                color: None,
                on_press: Message::TogglePopup,
            }
        }
    }

    /// One row for each site, in order.
    fn site_rows(&self) -> (res: Vec<SiteRow>)
        ensures
            row_views(res@) == self@.sites.map_values(|site: SiteView| row_of(site)),
    {
        let ghost wanted = self@.sites.map_values(|site: SiteView| row_of(site));
        let mut rows: Vec<SiteRow> = Vec::new();
        let mut i: usize = 0;
        while i < self.sites.len()
            invariant
                i <= self.sites.len(),
                wanted == self@.sites.map_values(|site: SiteView| row_of(site)),
                row_views(rows@) == wanted.take(i as int),
            decreases self.sites.len() - i,
        {
            let row = site_row(&self.sites[i]);
            assert(row_views(rows@.push(row)) =~= row_views(rows@).push(row@));
            assert(wanted.take(i as int).push(row@) =~= wanted.take(i + 1));
            rows.push(row);
            i += 1;
        }
        assert(wanted.take(i as int) =~= wanted);
        rows
    }

    /// The contents of the popup window, where the text in the input field was parsed to
    /// `parsed`.
    pub fn popup_content(&self, parsed: Option<SiteUrl>) -> (res: PopupContent)
        ensures
            res@ == self@.content(url_of(parsed)),
    {
        let blank = text::trim(self.new_site_input.as_str()).is_empty();
        let input_error = if !blank && parsed.is_none() {
            Some("Doesn't look like a valid domain")
        } else {
            None
        };
        let minutes: u64 = self.config.check_interval_secs / 60;
        PopupContent {
            parts: popup_layout(self.sites.len()),
            rows: self.site_rows(),
            input: self.new_site_input.clone(),
            placeholder: "example.com",
            input_error,
            on_add: match parsed {
                Some(url) => Some(Message::AddSite(url)),
                None => None,
            },
            store_caption: "Store",
            interval_caption: "Interval",
            interval: IntervalControl {
                label: text::join(text::to_decimal(minutes).as_str(), " min"),
                value: minutes,
                step: INTERVAL_STEP_MINUTES,
                min: INTERVAL_MIN_MINUTES,
                max: INTERVAL_MAX_MINUTES,
            },
        }
    }

    /// The contents of the popup window. There is one kind of popup, so the window's number
    /// makes no difference.
    pub fn view_window(&self, _id: u64) -> (res: PopupContent)
        ensures
            res@ == self@.content(site_url(self@.new_site_input)),
            res@.on_add matches Some(MessageView::AddSite(url)) ==> url.is_site()
                && url.hosts_agree() && url.host_is_plain() && url.text_is_plain(),
    {
        self.popup_content(parse_site_url(self.new_site_input.as_str()))
    }
}

} // verus!
