//! What the applet is told, and what it asks to be done.

use vstd::prelude::*;
use crate::config::{texts, Config, ConfigView};
use crate::site_url::{SiteUrl, UrlView};

verus! {

/// Messages emitted by the applet, its widgets and the health checks.
///
/// A popup window is known by a number that no other window has.
#[derive(Debug)]
pub enum Message {
    TogglePopup,
    PopupClosed(u64),
    UpdateConfig(Config),
    CheckResult(String, bool),
    SiteInputChanged(String),
    AddSite(SiteUrl),
    RemoveSite(String),
    SetIntervalMinutes(u64),
}

/// The model of a `Message`.
pub enum MessageView {
    TogglePopup,
    PopupClosed(u64),
    UpdateConfig(ConfigView),
    CheckResult(Seq<char>, bool),
    SiteInputChanged(Seq<char>),
    AddSite(UrlView),
    RemoveSite(Seq<char>),
    SetIntervalMinutes(u64),
}

impl View for Message {
    type V = MessageView;

    open spec fn view(&self) -> MessageView {
        match self {
            Message::TogglePopup => MessageView::TogglePopup,
            Message::PopupClosed(id) => MessageView::PopupClosed(*id),
            Message::UpdateConfig(config) => MessageView::UpdateConfig(config@),
            Message::CheckResult(domain, up) => MessageView::CheckResult(domain@, *up),
            Message::SiteInputChanged(value) => MessageView::SiteInputChanged(value@),
            Message::AddSite(url) => MessageView::AddSite(url@),
            Message::RemoveSite(domain) => MessageView::RemoveSite(domain@),
            Message::SetIntervalMinutes(minutes) => MessageView::SetIntervalMinutes(*minutes),
        }
    }
}

impl MessageView {
    /// Whether the message can be handled: an interval in minutes must fit in 64 bits when
    /// counted in seconds.
    pub open spec fn fits(self) -> bool {
        self matches MessageView::SetIntervalMinutes(minutes) ==> minutes * 60 <= u64::MAX
    }
}

impl Clone for Message {
    fn clone(&self) -> (res: Self)
        ensures
            res@ == self@,
    {
        match self {
            Message::TogglePopup => Message::TogglePopup,
            Message::PopupClosed(id) => Message::PopupClosed(*id),
            Message::UpdateConfig(config) => Message::UpdateConfig(config.clone()),
            Message::CheckResult(domain, up) => Message::CheckResult(domain.clone(), *up),
            Message::SiteInputChanged(value) => Message::SiteInputChanged(value.clone()),
            Message::AddSite(url) => Message::AddSite(url.clone()),
            Message::RemoveSite(domain) => Message::RemoveSite(domain.clone()),
            Message::SetIntervalMinutes(minutes) => Message::SetIntervalMinutes(*minutes),
        }
    }
}

/// A desktop notification.
#[derive(Debug)]
pub struct Notification {
    pub urgency: String,
    pub summary: String,
    pub body: String,
}

/// The model of a `Notification`.
pub struct NotificationView {
    pub urgency: Seq<char>,
    pub summary: Seq<char>,
    pub body: Seq<char>,
}

impl View for Notification {
    type V = NotificationView;

    open spec fn view(&self) -> NotificationView {
        NotificationView { urgency: self.urgency@, summary: self.summary@, body: self.body@ }
    }
}

/// What is to be done once a message has been handled.
#[derive(Debug)]
pub enum Action {
    /// Nothing.
    Nothing,
    /// Show a desktop notification.
    Notify(Notification),
    /// Write the list of sites to the settings on disk.
    SaveSites(Vec<String>),
    /// Write the check interval, in seconds, to the settings on disk.
    SaveInterval(u64),
    /// Open the popup window.
    OpenPopup,
    /// Close this popup window.
    ClosePopup(u64),
}

/// The model of an `Action`.
pub enum ActionView {
    Nothing,
    Notify(NotificationView),
    SaveSites(Seq<Seq<char>>),
    SaveInterval(u64),
    OpenPopup,
    ClosePopup(u64),
}

impl View for Action {
    type V = ActionView;

    open spec fn view(&self) -> ActionView {
        match self {
            Action::Nothing => ActionView::Nothing,
            Action::Notify(notification) => ActionView::Notify(notification@),
            Action::SaveSites(sites) => ActionView::SaveSites(texts(sites@)),
            Action::SaveInterval(secs) => ActionView::SaveInterval(*secs),
            Action::OpenPopup => ActionView::OpenPopup,
            Action::ClosePopup(id) => ActionView::ClosePopup(*id),
        }
    }
}

} // verus!
