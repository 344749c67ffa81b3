//! The periodic health checks.

use vstd::prelude::*;
use crate::app::{domains, AppModel, AppView};
use crate::config::texts;
use crate::message::{Message, MessageView};
use crate::text;

verus! {

/// What the health checks work on. They start afresh whenever this changes.
#[derive(Debug, PartialEq, Eq, Hash)]
pub struct Watch {
    /// The domains to check, in order.
    pub sites: Vec<String>,
    /// The pause between two rounds of checks, in seconds.
    pub interval_secs: u64,
}

/// The model of a `Watch`.
pub struct WatchView {
    pub sites: Seq<Seq<char>>,
    pub interval_secs: u64,
}

impl View for Watch {
    type V = WatchView;

    open spec fn view(&self) -> WatchView {
        WatchView { sites: texts(self.sites@), interval_secs: self.interval_secs }
    }
}

/// One request of a round of checks.
#[derive(Debug)]
pub struct CheckRequest {
    /// The domain that the result is reported for.
    pub site: String,
    /// The URL to get.
    pub url: String,
}

/// The model of a `CheckRequest`.
pub struct CheckRequestView {
    pub site: Seq<char>,
    pub url: Seq<char>,
}

impl View for CheckRequest {
    type V = CheckRequestView;

    open spec fn view(&self) -> CheckRequestView {
        CheckRequestView { site: self.site@, url: self.url@ }
    }
}

/// The models of a sequence of requests.
pub open spec fn request_views(requests: Seq<CheckRequest>) -> Seq<CheckRequestView> {
    requests.map_values(|request: CheckRequest| request@)
}

/// What has just happened in the health checks.
#[derive(Debug)]
pub enum WatchEvent {
    /// The checks were started.
    Started,
    /// All results of a round are in.
    RoundFinished,
    /// The pause is over.
    PauseFinished,
}

/// What the health checks do next.
#[derive(Debug)]
pub enum WatchStep {
    /// Make these requests, all at once, and report each result as soon as it is there.
    Check(Vec<CheckRequest>),
    /// Pause for this many seconds.
    Pause(u64),
}

/// The model of a `WatchStep`.
pub enum WatchStepView {
    Check(Seq<CheckRequestView>),
    Pause(u64),
}

impl View for WatchStep {
    type V = WatchStepView;

    open spec fn view(&self) -> WatchStepView {
        match self {
            WatchStep::Check(requests) => WatchStepView::Check(request_views(requests@)),
            WatchStep::Pause(secs) => WatchStepView::Pause(*secs),
        }
    }
}

/// The request that checks a site.
pub open spec fn request_for(site: Seq<char>) -> CheckRequestView {
    CheckRequestView { site, url: "https://"@ + site }
}

/// Whether a site is up, given the HTTP status that it answered with, if it answered.
pub open spec fn answer_is_up(status: Option<u16>) -> bool {
    status matches Some(code) && 200 <= code < 300
}

impl WatchView {
    /// One round of requests: each site once, in order.
    pub open spec fn round(self) -> Seq<CheckRequestView> {
        self.sites.map_values(|site: Seq<char>| request_for(site))
    }

    /// The next step: a round of checks at the start and after each pause, and a pause after
    /// each round.
    pub open spec fn next(self, event: WatchEvent) -> WatchStepView {
        match event {
            WatchEvent::Started | WatchEvent::PauseFinished => WatchStepView::Check(self.round()),
            WatchEvent::RoundFinished => WatchStepView::Pause(self.interval_secs),
        }
    }
}

impl AppView {
    /// What the health checks work on in this state.
    pub open spec fn watch(self) -> WatchView {
        WatchView { sites: domains(self.sites), interval_secs: self.config.check_interval_secs }
    }
}

/// The message that reports an answer: a site is up if it answered with a success status.
pub fn check_result(site: String, status: Option<u16>) -> (res: Message)
    ensures
        res@ == MessageView::CheckResult(site@, answer_is_up(status)),
{
    let up = match status {
        Some(code) => 200 <= code && code < 300,
        None => false,
    };
    Message::CheckResult(site, up)
}

impl Watch {
    /// One round of requests: each site once, in order.
    fn requests(&self) -> (res: Vec<CheckRequest>)
        ensures
            request_views(res@) == self@.round(),
    {
        let mut requests: Vec<CheckRequest> = Vec::new();
        let mut i: usize = 0;
        while i < self.sites.len()
            invariant
                i <= self.sites.len(),
                request_views(requests@) == self@.round().take(i as int),
            decreases self.sites.len() - i,
        {
            let request = CheckRequest {
                site: self.sites[i].clone(),
                url: text::join("https://", self.sites[i].as_str()),
            };
            assert(request_views(requests@.push(request)) =~= request_views(requests@).push(
                request@,
            ));
            assert(self@.round().take(i as int).push(request@) =~= self@.round().take(i + 1));
            requests.push(request);
            i += 1;
        }
        assert(self@.round().take(i as int) =~= self@.round());
        requests
    }

    /// The next step of the health checks.
    pub fn next_step(&self, event: WatchEvent) -> (res: WatchStep)
        ensures
            res@ == self@.next(event),
    {
        match event {
            WatchEvent::Started | WatchEvent::PauseFinished => WatchStep::Check(self.requests()),
            WatchEvent::RoundFinished => WatchStep::Pause(self.interval_secs),
        }
    }
}

impl AppModel {
    /// What the health checks work on: the watched domains and the check interval.
    pub fn subscription(&self) -> (res: Watch)
        ensures
            res@ == self@.watch(),
    {
        Watch { sites: self.domain_list(), interval_secs: self.config.check_interval_secs }
    }
}

} // verus!
