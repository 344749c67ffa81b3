//! The settings that persist between runs.

use vstd::prelude::*;

verus! {

/// The sites monitored before the user has added or removed any of their own.
pub const DEFAULT_SITES: [&'static str; 3] = [
    "captainslounge.nl",
    "draityachts.nl",
    "dedrait.com",
];

/// How often (in seconds) to re-check every site, before the user changes it.
pub const DEFAULT_CHECK_INTERVAL_SECS: u64 = 300;

/// The settings: which sites to watch, and how often to check them.
#[derive(Debug, PartialEq, Eq)]
pub struct Config {
    pub sites: Vec<String>,
    pub check_interval_secs: u64,
}

/// The model of a `Config`.
pub struct ConfigView {
    pub sites: Seq<Seq<char>>,
    pub check_interval_secs: u64,
}

/// The models of a sequence of texts.
pub open spec fn texts(v: Seq<String>) -> Seq<Seq<char>> {
    v.map_values(|s: String| s@)
}

/// The sites of `DEFAULT_SITES`.
pub open spec fn default_sites() -> Seq<Seq<char>> {
    seq!["captainslounge.nl"@, "draityachts.nl"@, "dedrait.com"@]
}

impl View for Config {
    type V = ConfigView;

    open spec fn view(&self) -> ConfigView {
        ConfigView { sites: texts(self.sites@), check_interval_secs: self.check_interval_secs }
    }
}

impl ConfigView {
    /// The settings of a first run.
    pub open spec fn initial() -> ConfigView {
        ConfigView {
            sites: default_sites(),
            check_interval_secs: DEFAULT_CHECK_INTERVAL_SECS,
        }
    }
}

/// A text pushed to a sequence is pushed to its model.
pub proof fn lemma_texts_push(v: Seq<String>, s: String)
    ensures
        texts(v.push(s)) == texts(v).push(s@),
{
    assert(texts(v.push(s)) =~= texts(v).push(s@));
}

/// A copy of `v`.
pub fn clone_texts(v: &Vec<String>) -> (res: Vec<String>)
    ensures
        texts(res@) == texts(v@),
{
    let mut res: Vec<String> = Vec::new();
    let mut i: usize = 0;
    while i < v.len()
        invariant
            i <= v.len(),
            texts(res@) == texts(v@).take(i as int),
        decreases v.len() - i,
    {
        let copy = v[i].clone();
        proof {
            lemma_texts_push(res@, copy);
            assert(texts(v@).take(i as int).push(v[i as int]@) =~= texts(v@).take(i + 1));
        }
        res.push(copy);
        i += 1;
    }
    assert(texts(v@).take(i as int) =~= texts(v@));
    res
}

impl Clone for Config {
    fn clone(&self) -> (res: Self)
        ensures
            res@ == self@,
    {
        Config {
            sites: clone_texts(&self.sites),
            check_interval_secs: self.check_interval_secs,
        }
    }
}

impl Default for Config {
    fn default() -> (res: Self)
        ensures
            res@ == ConfigView::initial(),
    {
        let mut sites: Vec<String> = Vec::new();
        let mut i: usize = 0;
        while i < 3
            invariant
                i <= 3,
                texts(sites@) == default_sites().take(i as int),
            decreases 3 - i,
        {
            let site = DEFAULT_SITES[i].to_owned();
            proof {
                lemma_texts_push(sites@, site);
                assert(site@ == default_sites()[i as int]);
                assert(default_sites().take(i as int).push(site@) =~= default_sites().take(i + 1));
            }
            sites.push(site);
            i += 1;
        }
        assert(default_sites().take(3) =~= default_sites());
        Config { sites, check_interval_secs: DEFAULT_CHECK_INTERVAL_SECS }
    }
}

} // verus!
